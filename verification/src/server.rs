//! The server: which tools it offers, what a batch runs, and what every call has around it.

use crate::browser::Browser;
use crate::browser::Overrides;
use crate::config::ConfigV;
use crate::json;
use crate::json::Json;
use crate::json::JsonV;
use crate::params::BatchParams;
use crate::params::BatchStep;
use crate::reply;
use crate::reply::Reply;
use crate::reply::ReplyV;
use crate::text;
use crate::text::Text;
use vstd::prelude::*;

verus! {

// ---------------------------------------------------------------------- tools and capabilities

pub open spec fn is_vision_tool(t: Text) -> bool {
    t == "browser_mouse_click_xy"@ || t == "browser_mouse_down"@ || t == "browser_mouse_drag_xy"@ || t
        == "browser_mouse_move_xy"@ || t == "browser_mouse_up"@ || t == "browser_mouse_wheel"@
}

pub open spec fn is_network_tool(t: Text) -> bool {
    t == "browser_network_state_set"@ || t == "browser_route"@ || t == "browser_route_list"@ || t
        == "browser_unroute"@
}

pub open spec fn is_storage_tool(t: Text) -> bool {
    t == "browser_cookie_clear"@ || t == "browser_cookie_delete"@ || t == "browser_cookie_get"@ || t
        == "browser_cookie_list"@ || t == "browser_cookie_set"@ || t == "browser_localstorage_clear"@ || t
        == "browser_localstorage_delete"@ || t == "browser_localstorage_get"@ || t
        == "browser_localstorage_list"@ || t == "browser_localstorage_set"@ || t
        == "browser_sessionstorage_clear"@ || t == "browser_sessionstorage_delete"@ || t
        == "browser_sessionstorage_get"@ || t == "browser_sessionstorage_list"@ || t
        == "browser_sessionstorage_set"@ || t == "browser_set_storage_state"@ || t == "browser_storage_state"@
}

pub open spec fn is_devtools_tool(t: Text) -> bool {
    t == "browser_highlight"@ || t == "browser_hide_highlight"@ || t == "browser_start_tracing"@ || t
        == "browser_stop_tracing"@ || t == "browser_start_video"@ || t == "browser_stop_video"@ || t
        == "browser_video_chapter"@ || t == "browser_video_show_actions"@ || t == "browser_video_hide_actions"@
        || t == "browser_start_recording"@ || t == "browser_stop_recording"@
}

pub open spec fn is_testing_tool(t: Text) -> bool {
    t == "browser_generate_locator"@ || t == "browser_verify_element_visible"@ || t
        == "browser_verify_list_visible"@ || t == "browser_verify_text_visible"@ || t == "browser_verify_value"@
}

/// The capability that a tool belongs to, for tools that are not always there.
pub open spec fn cap_of(t: Text) -> Option<Text> {
    if is_vision_tool(t) {
        Some("vision"@)
    } else if t == "browser_pdf_save"@ {
        Some("pdf"@)
    } else if is_network_tool(t) {
        Some("network"@)
    } else if is_storage_tool(t) {
        Some("storage"@)
    } else if is_devtools_tool(t) {
        Some("devtools"@)
    } else if is_testing_tool(t) {
        Some("testing"@)
    } else if t == "browser_get_config"@ {
        Some("config"@)
    } else {
        None
    }
}

/// Tools of no capability that a batch can run.
pub open spec fn is_common_batch_tool(t: Text) -> bool {
    t == "browser_navigate"@ || t == "browser_navigate_back"@ || t == "browser_click"@ || t == "browser_hover"@
        || t == "browser_type"@ || t == "browser_fill_form"@ || t == "browser_select_option"@ || t
        == "browser_press_key"@ || t == "browser_drag"@ || t == "browser_drop"@ || t == "browser_wait_for"@ || t
        == "browser_snapshot"@ || t == "browser_find"@ || t == "browser_take_screenshot"@ || t
        == "browser_evaluate"@ || t == "browser_file_upload"@ || t == "browser_handle_dialog"@ || t
        == "browser_tabs"@ || t == "browser_resize"@ || t == "browser_console_messages"@ || t
        == "browser_network_requests"@ || t == "browser_set_mode"@ || t == "browser_links"@ || t
        == "browser_read"@ || t == "browser_text"@ || t == "browser_table"@ || t == "browser_extract"@ || t
        == "browser_fetch"@ || t == "browser_scrape"@ || t == "browser_network_request"@
}

/// Tools that a batch can run.
pub open spec fn is_batch_tool(t: Text) -> bool {
    is_common_batch_tool(t) || t == "browser_mouse_click_xy"@ || t == "browser_mouse_move_xy"@ || t
        == "browser_mouse_wheel"@
}

/// The tools there are.
pub open spec fn is_tool(t: Text) -> bool {
    cap_of(t) is Some || is_common_batch_tool(t) || t == "browser_close"@ || t == "browser_install"@ || t
        == "browser_handoff"@ || t == "browser_batch"@
}

/// A tool is offered: one of a capability only where that, or "all", is asked for.
pub open spec fn offered(cfg: ConfigV, t: Text) -> bool {
    &&& is_tool(t)
    &&& cap_of(t) is Some ==> cfg.caps.contains("all"@) || cfg.caps.contains(cap_of(t)->0)
}

fn vision_tool(t: &str) -> (r: bool)
    ensures
        r == is_vision_tool(t@),
{
    text::same(t, "browser_mouse_click_xy") || text::same(t, "browser_mouse_down") || text::same(
        t,
        "browser_mouse_drag_xy",
    ) || text::same(t, "browser_mouse_move_xy") || text::same(t, "browser_mouse_up") || text::same(
        t,
        "browser_mouse_wheel",
    )
}

fn network_tool(t: &str) -> (r: bool)
    ensures
        r == is_network_tool(t@),
{
    text::same(t, "browser_network_state_set") || text::same(t, "browser_route") || text::same(
        t,
        "browser_route_list",
    ) || text::same(t, "browser_unroute")
}

fn storage_tool(t: &str) -> (r: bool)
    ensures
        r == is_storage_tool(t@),
{
    text::same(t, "browser_cookie_clear") || text::same(t, "browser_cookie_delete") || text::same(
        t,
        "browser_cookie_get",
    ) || text::same(t, "browser_cookie_list") || text::same(t, "browser_cookie_set") || text::same(
        t,
        "browser_localstorage_clear",
    ) || text::same(t, "browser_localstorage_delete") || text::same(t, "browser_localstorage_get") || text::same(
        t,
        "browser_localstorage_list",
    ) || text::same(t, "browser_localstorage_set") || text::same(t, "browser_sessionstorage_clear") || text::same(
        t,
        "browser_sessionstorage_delete",
    ) || text::same(t, "browser_sessionstorage_get") || text::same(t, "browser_sessionstorage_list") || text::same(
        t,
        "browser_sessionstorage_set",
    ) || text::same(t, "browser_set_storage_state") || text::same(t, "browser_storage_state")
}

fn devtools_tool(t: &str) -> (r: bool)
    ensures
        r == is_devtools_tool(t@),
{
    text::same(t, "browser_highlight") || text::same(t, "browser_hide_highlight") || text::same(
        t,
        "browser_start_tracing",
    ) || text::same(t, "browser_stop_tracing") || text::same(t, "browser_start_video") || text::same(
        t,
        "browser_stop_video",
    ) || text::same(t, "browser_video_chapter") || text::same(t, "browser_video_show_actions") || text::same(
        t,
        "browser_video_hide_actions",
    ) || text::same(t, "browser_start_recording") || text::same(t, "browser_stop_recording")
}

fn testing_tool(t: &str) -> (r: bool)
    ensures
        r == is_testing_tool(t@),
{
    text::same(t, "browser_generate_locator") || text::same(t, "browser_verify_element_visible") || text::same(
        t,
        "browser_verify_list_visible",
    ) || text::same(t, "browser_verify_text_visible") || text::same(t, "browser_verify_value")
}

fn cap_name(t: &str) -> (r: Option<&'static str>)
    ensures
        match r {
            Some(c) => cap_of(t@) == Some(c@),
            None => cap_of(t@) is None,
        },
{
    if vision_tool(t) {
        Some("vision")
    } else if text::same(t, "browser_pdf_save") {
        Some("pdf")
    } else if network_tool(t) {
        Some("network")
    } else if storage_tool(t) {
        Some("storage")
    } else if devtools_tool(t) {
        Some("devtools")
    } else if testing_tool(t) {
        Some("testing")
    } else if text::same(t, "browser_get_config") {
        Some("config")
    } else {
        None
    }
}

fn common_batch_tool(t: &str) -> (r: bool)
    ensures
        r == is_common_batch_tool(t@),
{
    text::same(t, "browser_navigate") || text::same(t, "browser_navigate_back") || text::same(t, "browser_click")
        || text::same(t, "browser_hover") || text::same(t, "browser_type") || text::same(t, "browser_fill_form")
        || text::same(t, "browser_select_option") || text::same(t, "browser_press_key") || text::same(
        t,
        "browser_drag",
    ) || text::same(t, "browser_drop") || text::same(t, "browser_wait_for") || text::same(t, "browser_snapshot")
        || text::same(t, "browser_find") || text::same(t, "browser_take_screenshot") || text::same(
        t,
        "browser_evaluate",
    ) || text::same(t, "browser_file_upload") || text::same(t, "browser_handle_dialog") || text::same(
        t,
        "browser_tabs",
    ) || text::same(t, "browser_resize") || text::same(t, "browser_console_messages") || text::same(
        t,
        "browser_network_requests",
    ) || text::same(t, "browser_set_mode") || text::same(t, "browser_links") || text::same(t, "browser_read")
        || text::same(t, "browser_text") || text::same(t, "browser_table") || text::same(t, "browser_extract")
        || text::same(t, "browser_fetch") || text::same(t, "browser_scrape") || text::same(
        t,
        "browser_network_request",
    )
}

fn batch_tool(t: &str) -> (r: bool)
    ensures
        r == is_batch_tool(t@),
{
    common_batch_tool(t) || text::same(t, "browser_mouse_click_xy") || text::same(t, "browser_mouse_move_xy")
        || text::same(t, "browser_mouse_wheel")
}

fn known_tool(t: &str) -> (r: bool)
    ensures
        r == is_tool(t@),
{
    cap_name(t).is_some() || common_batch_tool(t) || text::same(t, "browser_close") || text::same(
        t,
        "browser_install",
    ) || text::same(t, "browser_handoff") || text::same(t, "browser_batch")
}

/// What the server keeps between calls.
pub struct BrowserServer {
    pub browser: Browser,
}

/// Why a batch cannot run a tool.
pub open spec fn batch_refusal(cfg: ConfigV, t: Text) -> Option<Text> {
    if !offered(cfg, t) || t == "browser_batch"@ || t == "browser_handoff"@ {
        Some(t + " cannot be used in a batch"@)
    } else if is_batch_tool(t) {
        None
    } else {
        Some(t + " is not supported in browser_batch"@)
    }
}

impl BrowserServer {
    pub fn new(browser: Browser) -> (r: BrowserServer)
        ensures
            r.browser@ == browser@,
            browser.wf() ==> r.browser.wf(),
    {
        BrowserServer { browser }
    }

    /// Whether the server offers a tool.
    pub fn has_route(&self, tool: &str) -> (r: bool)
        ensures
            r == offered(self.browser@.cfg, tool@),
    {
        if !known_tool(tool) {
            return false;
        }
        match cap_name(tool) {
            Some(cap) => self.browser.cfg.has_cap("all") || self.browser.cfg.has_cap(cap),
            None => true,
        }
    }

    /// Whether a batch can run a tool by its name; why not, otherwise.
    pub fn dispatch(&self, tool: &str) -> (r: Result<(), String>)
        ensures
            match r {
                Ok(_) => batch_refusal(self.browser@.cfg, tool@) is None,
                Err(e) => batch_refusal(self.browser@.cfg, tool@) == Some(e@),
            },
    {
        if !self.has_route(tool) || text::same(tool, "browser_batch") || text::same(tool, "browser_handoff") {
            Err(text::concat(tool, " cannot be used in a batch"))
        } else if batch_tool(tool) {
            Ok(())
        } else {
            Err(text::concat(tool, " is not supported in browser_batch"))
        }
    }
}

/// Whatever a batch runs, the server offers.
pub proof fn law_batch_runs_offered_tools(cfg: ConfigV, t: Text)
    ensures
        batch_refusal(cfg, t) is None ==> offered(cfg, t),
{
}

/// With the capability "all" every tool is offered; with none, exactly those that belong to none.
pub proof fn law_capabilities(cfg: ConfigV, t: Text)
    ensures
        cfg.caps.contains("all"@) ==> offered(cfg, t) == is_tool(t),
        cfg.caps =~= Set::empty() ==> offered(cfg, t) == (is_tool(t) && cap_of(t) is None),
{
}

// ---------------------------------------------------------------------- batches

/// How a step ended.
pub open spec fn outcome(r: Result<Reply, String>) -> Result<ReplyV, Text> {
    match r {
        Ok(x) => Ok(x@),
        Err(e) => Err(e@),
    }
}

/// The line that a step leaves in the reply, with its number from 1 on.
pub open spec fn step_line(n: nat, tool: Text, r: Result<ReplyV, Text>) -> Text {
    text::dec(n) + ". "@ + tool + match r {
        Ok(x) => ": "@ + text::trimmed(text::joined(x.result, " "@)),
        Err(e) => ": ERROR "@ + e,
    }
}

/// A batch that runs its steps in order.
pub struct Batch {
    pub steps: Vec<BatchStep>,
    /// Stop at the first step that fails.
    pub stop: bool,
    /// What steps without a timeout of their own get, in milliseconds.
    pub timeout: Option<u64>,
    /// How many steps have run.
    pub done: usize,
    pub failed: bool,
    pub combined: Reply,
}

/// What a `Batch` holds of the steps that have run.
#[verifier::ext_equal]
pub struct BatchV {
    pub steps: Seq<(Text, JsonV)>,
    pub stop: bool,
    pub timeout: Option<u64>,
    pub done: nat,
    pub failed: bool,
    pub combined: ReplyV,
}

/// Steps by their tools and arguments.
pub open spec fn step_views(s: Seq<BatchStep>) -> Seq<(Text, JsonV)> {
    s.map_values(|x: BatchStep| (x.tool@, x.arguments@))
}

impl View for Batch {
    type V = BatchV;

    open spec fn view(&self) -> BatchV {
        BatchV {
            steps: step_views(self.steps@),
            stop: self.stop,
            timeout: self.timeout,
            done: self.done as nat,
            failed: self.failed,
            combined: self.combined@,
        }
    }
}

/// The reply of a batch before its first step: one snapshot at the end, whatever the steps were.
pub open spec fn empty_batch_reply() -> ReplyV {
    ReplyV { result: Seq::empty(), images: Seq::empty(), snapshot: true, page_state: true, error: false }
}

impl BatchV {
    /// A step is still to run.
    pub open spec fn goes_on(self) -> bool {
        self.done < self.steps.len() && !(self.failed && self.stop)
    }

    /// The batch once its next step has ended.
    pub open spec fn after(self, r: Result<ReplyV, Text>) -> BatchV {
        BatchV {
            done: self.done + 1,
            failed: self.failed || r is Err,
            combined: ReplyV {
                result: self.combined.result.push(
                    step_line(self.done + 1, self.steps[self.done as int].0, r),
                ),
                images: match r {
                    Ok(x) => self.combined.images + x.images,
                    Err(_) => self.combined.images,
                },
                ..self.combined
            },
            ..self
        }
    }

    /// The timeout of a step: its own, else that of the batch.
    pub open spec fn step_timeout(self, i: int) -> Option<nat> {
        match self.steps[i].1.get("timeout"@) {
            Some(t) if t.as_u64() is Some => t.as_u64(),
            _ => match self.timeout {
                Some(t) => Some(t as nat),
                None => None,
            },
        }
    }
}

/// A step to run.
pub struct Run {
    pub tool: String,
    pub arguments: Json,
    /// In milliseconds.
    pub timeout: Option<u64>,
}

/// A number inside an option.
pub open spec fn opt_nat(o: Option<u64>) -> Option<nat> {
    match o {
        Some(n) => Some(n as nat),
        None => None,
    }
}

impl Batch {
    /// The number of steps that have run is not more than there are, and each has its line.
    pub open spec fn wf(&self) -> bool {
        self.done <= self.steps@.len() && self.combined.result@.len() == self.done
    }

    pub fn new(p: BatchParams, timeout: Option<u64>) -> (r: Batch)
        ensures
            r@ == (BatchV {
                steps: step_views(p.steps@),
                stop: p.stop_on_error != Some(false),
                timeout,
                done: 0,
                failed: false,
                combined: empty_batch_reply(),
            }),
            r.wf(),
    {
        let stop = match p.stop_on_error {
            Some(b) => b,
            None => true,
        };
        let result: Vec<String> = Vec::new();
        let images: Vec<(Vec<u8>, &'static str)> = Vec::new();
        let combined = Reply { result, images, snapshot: true, page_state: true, error: false };
        proof {
            assert(combined@.result =~= Seq::empty());
            assert(combined@.images =~= Seq::empty());
        }
        Batch { steps: p.steps, stop, timeout, done: 0, failed: false, combined }
    }

    /// The step to run next.
    pub fn next(&self) -> (r: Option<Run>)
        ensures
            match r {
                Some(s) => {
                    &&& self@.goes_on()
                    &&& (s.tool@, s.arguments@) == self@.steps[self@.done as int]
                    &&& opt_nat(s.timeout) == self@.step_timeout(self@.done as int)
                },
                None => !self@.goes_on(),
            },
    {
        if self.done >= self.steps.len() || (self.failed && self.stop) {
            return None;
        }
        let step = &self.steps[self.done];
        let own = match step.arguments.get("timeout") {
            Some(t) => t.as_u64(),
            None => None,
        };
        let timeout = match own {
            Some(t) => Some(t),
            None => self.timeout,
        };
        Some(Run { tool: step.tool.clone(), arguments: step.arguments.clone(), timeout })
    }

    /// The next step has ended.
    pub fn step_done(&mut self, r: Result<Reply, String>)
        requires
            old(self).wf(),
            old(self)@.goes_on(),
        ensures
            final(self).wf(),
            final(self)@ == old(self)@.after(outcome(r)),
    {
        broadcast use text::group_views;

        let ghost before = self.combined@;
        let total: usize = self.steps.len();
        let mut line = text::decimal(self.done as u128 + 1);
        line.append(". ");
        line.append(&self.steps[self.done].tool);
        match r {
            Ok(mut x) => {
                let mut what = ": ".to_string();
                what.append(&text::trim(&text::join(&x.result, " ")));
                line.append(&what);
                let ghost kept = self.combined.images@;
                let ghost more = x.images@;
                self.combined.images.append(&mut x.images);
                proof {
                    assert(reply::pictures(self.combined.images@) =~= reply::pictures(kept) + reply::pictures(more));
                }
            },
            Err(e) => {
                line.append(&text::concat(": ERROR ", &e));
                self.failed = true;
            },
        }
        self.combined.result.push(line);
        proof {
            assert(self.done < total);
        }
        self.done = self.done + 1;
        proof {
            assert(self.combined@.result =~= before.result.push(line@));
        }
    }

    /// The reply once no step is left to run, and whether it is an error: where a batch stopped at a
    /// step, the page is still shown, so the agent can recover without another call.
    pub fn finish(self) -> (r: (Reply, bool))
        ensures
            r.0@ == self@.combined,
            r.1 == (self@.failed && self@.stop),
    {
        let error = self.failed && self.stop;
        (self.combined, error)
    }
}

/// No step runs after one that failed, unless the batch is told to go on.
pub proof fn law_batch_stops(b: BatchV, e: Text)
    requires
        b.goes_on(),
        b.stop,
    ensures
        !b.after(Err(e)).goes_on(),
{
}

/// A batch that does not stop runs every step, whatever comes of them: each leaves one line, and after
/// as many steps as there are, none is left.
pub proof fn law_batch_goes_on(b: BatchV, r: Result<ReplyV, Text>)
    requires
        b.goes_on(),
        b.combined.result.len() == b.done,
        !b.stop || r is Ok,
    ensures
        b.after(r).combined.result.len() == b.after(r).done,
        b.after(r).goes_on() == (b.done + 1 < b.steps.len()),
{
}

// ---------------------------------------------------------------------- every call

/// What a single call asks for in place of the settings.
pub fn overrides(arguments: &Json) -> (r: Overrides)
    ensures
        text::opt_text(r.snapshot) == arguments@.at("snapshot"@).as_text(),
        opt_nat(r.timeout) == arguments@.at("timeout"@).as_u64(),
{
    Overrides { snapshot: arguments.at("snapshot").as_text(), timeout: arguments.at("timeout").as_u64() }
}

/// What every reply ends with, so agents can reason about speed with real numbers.
pub fn elapsed(ms: u64) -> (r: String)
    ensures
        r@ == "\nelapsed_ms: "@ + text::dec(ms as nat),
{
    text::concat("\nelapsed_ms: ", &text::decimal(ms as u128))
}

/// The line that a call leaves in the trace file.
pub fn trace_line(tool: &str, ms: u64, reply_chars: usize, args_chars: usize, error: bool) -> (r: String)
    ensures
        r@ == json::json_text(
            JsonV::obj().with("args_chars"@, JsonV::Int(args_chars as int)).with("error"@, JsonV::Bool(error)).with(
                "ms"@,
                JsonV::Int(ms as int),
            ).with("reply_chars"@, JsonV::Int(reply_chars as int)).with("tool"@, JsonV::Str(tool@)),
        ) + "\n"@,
{
    let line = Json::obj().with("args_chars", Json::Int(args_chars as i128)).with("error", Json::Bool(error)).with(
        "ms",
        Json::Int(ms as i128),
    ).with("reply_chars", Json::Int(reply_chars as i128)).with("tool", Json::str(tool));
    text::concat(&line.to_text(), "\n")
}

/// A number of paragraphs: `true` means 1, so agents need not guess the type.
pub fn count_or_bool(j: &Json) -> (r: Option<u32>)
    ensures
        r == match j@ {
            JsonV::Bool(true) => Some(1u32),
            JsonV::Int(_) => match j@.as_u64() {
                Some(n) => Some((n % 0x1_0000_0000) as u32),
                None => None,
            },
            _ => None,
        },
{
    match j {
        Json::Bool(b) => if *b {
            Some(1)
        } else {
            None
        },
        Json::Int(_) => match j.as_u64() {
            Some(n) => Some((n % 0x1_0000_0000) as u32),
            None => None,
        },
        _ => None,
    }
}

// ---------------------------------------------------------------------- the tools

proof fn lemma_tool_names()
    ensures
        "browser_type"@.len() == 12 && "browser_type"@[10] == 'p' && "browser_type"@[8] == 't',
        "browser_drag"@.len() == 12 && "browser_drag"@[10] == 'a' && "browser_drag"@[8] == 'd',
        "browser_drop"@.len() == 12 && "browser_drop"@[10] == 'o' && "browser_drop"@[8] == 'd',
        "browser_find"@.len() == 12 && "browser_find"@[10] == 'n' && "browser_find"@[8] == 'f',
        "browser_tabs"@.len() == 12 && "browser_tabs"@[10] == 'b' && "browser_tabs"@[8] == 't',
        "browser_read"@.len() == 12 && "browser_read"@[10] == 'a' && "browser_read"@[8] == 'r',
        "browser_text"@.len() == 12 && "browser_text"@[10] == 'x' && "browser_text"@[8] == 't',
        "browser_route"@.len() == 13 && "browser_route"@[8] == 'r' && "browser_route"@[10] == 'u',
        "browser_click"@.len() == 13 && "browser_click"@[8] == 'c' && "browser_click"@[10] == 'i',
        "browser_hover"@.len() == 13 && "browser_hover"@[8] == 'h' && "browser_hover"@[10] == 'v',
        "browser_links"@.len() == 13 && "browser_links"@[8] == 'l' && "browser_links"@[10] == 'n',
        "browser_table"@.len() == 13 && "browser_table"@[8] == 't' && "browser_table"@[10] == 'b',
        "browser_fetch"@.len() == 13 && "browser_fetch"@[8] == 'f' && "browser_fetch"@[10] == 't',
        "browser_close"@.len() == 13 && "browser_close"@[8] == 'c' && "browser_close"@[10] == 'o',
        "browser_batch"@.len() == 13 && "browser_batch"@[8] == 'b' && "browser_batch"@[10] == 't',
        "browser_resize"@.len() == 14 && "browser_resize"@[8] == 'r',
        "browser_scrape"@.len() == 14 && "browser_scrape"@[8] == 's',
        "browser_unroute"@.len() == 15 && "browser_unroute"@[8] == 'u',
        "browser_extract"@.len() == 15 && "browser_extract"@[8] == 'e',
        "browser_install"@.len() == 15 && "browser_install"@[8] == 'i',
        "browser_handoff"@.len() == 15 && "browser_handoff"@[8] == 'h',
        "browser_mouse_up"@.len() == 16 && "browser_mouse_up"@[8] == 'm' && "browser_mouse_up"@[9] == 'o',
        "browser_pdf_save"@.len() == 16 && "browser_pdf_save"@[8] == 'p' && "browser_pdf_save"@[9] == 'd',
        "browser_navigate"@.len() == 16 && "browser_navigate"@[8] == 'n' && "browser_navigate"@[9] == 'a',
        "browser_wait_for"@.len() == 16 && "browser_wait_for"@[8] == 'w' && "browser_wait_for"@[9] == 'a',
        "browser_snapshot"@.len() == 16 && "browser_snapshot"@[8] == 's' && "browser_snapshot"@[9] == 'n',
        "browser_evaluate"@.len() == 16 && "browser_evaluate"@[8] == 'e' && "browser_evaluate"@[9] == 'v',
        "browser_set_mode"@.len() == 16 && "browser_set_mode"@[8] == 's' && "browser_set_mode"@[9] == 'e',
        "browser_highlight"@.len() == 17 && "browser_highlight"@[8] == 'h',
        "browser_fill_form"@.len() == 17 && "browser_fill_form"@[8] == 'f',
        "browser_press_key"@.len() == 17 && "browser_press_key"@[8] == 'p',
        "browser_mouse_down"@.len() == 18 && "browser_mouse_down"@[15] == 'o',
        "browser_route_list"@.len() == 18 && "browser_route_list"@[15] == 'i',
        "browser_cookie_get"@.len() == 18 && "browser_cookie_get"@[15] == 'g',
        "browser_cookie_set"@.len() == 18 && "browser_cookie_set"@[15] == 's',
        "browser_stop_video"@.len() == 18 && "browser_stop_video"@[15] == 'd',
        "browser_get_config"@.len() == 18 && "browser_get_config"@[15] == 'f',
        "browser_mouse_wheel"@.len() == 19 && "browser_mouse_wheel"@[8] == 'm',
        "browser_cookie_list"@.len() == 19 && "browser_cookie_list"@[8] == 'c',
        "browser_start_video"@.len() == 19 && "browser_start_video"@[8] == 's',
        "browser_file_upload"@.len() == 19 && "browser_file_upload"@[8] == 'f',
        "browser_cookie_clear"@.len() == 20 && "browser_cookie_clear"@[8] == 'c',
        "browser_stop_tracing"@.len() == 20 && "browser_stop_tracing"@[8] == 's',
        "browser_verify_value"@.len() == 20 && "browser_verify_value"@[8] == 'v',
        "browser_mouse_drag_xy"@.len() == 21 && "browser_mouse_drag_xy"@[12] == 'e' && "browser_mouse_drag_xy"@[14] == 'd',
        "browser_mouse_move_xy"@.len() == 21 && "browser_mouse_move_xy"@[12] == 'e' && "browser_mouse_move_xy"@[14] == 'm',
        "browser_cookie_delete"@.len() == 21 && "browser_cookie_delete"@[12] == 'i' && "browser_cookie_delete"@[14] == '_',
        "browser_storage_state"@.len() == 21 && "browser_storage_state"@[12] == 'a' && "browser_storage_state"@[14] == 'e',
        "browser_start_tracing"@.len() == 21 && "browser_start_tracing"@[12] == 't' && "browser_start_tracing"@[14] == 't',
        "browser_video_chapter"@.len() == 21 && "browser_video_chapter"@[12] == 'o' && "browser_video_chapter"@[14] == 'c',
        "browser_navigate_back"@.len() == 21 && "browser_navigate_back"@[12] == 'g' && "browser_navigate_back"@[14] == 't',
        "browser_select_option"@.len() == 21 && "browser_select_option"@[12] == 'c' && "browser_select_option"@[14] == '_',
        "browser_handle_dialog"@.len() == 21 && "browser_handle_dialog"@[12] == 'l' && "browser_handle_dialog"@[14] == '_',
        "browser_mouse_click_xy"@.len() == 22 && "browser_mouse_click_xy"@[8] == 'm',
        "browser_hide_highlight"@.len() == 22 && "browser_hide_highlight"@[8] == 'h',
        "browser_stop_recording"@.len() == 22 && "browser_stop_recording"@[8] == 's',
        "browser_start_recording"@.len() == 23 && "browser_start_recording"@[8] == 's',
        "browser_take_screenshot"@.len() == 23 && "browser_take_screenshot"@[8] == 't',
        "browser_network_request"@.len() == 23 && "browser_network_request"@[8] == 'n',
        "browser_localstorage_get"@.len() == 24 && "browser_localstorage_get"@[8] == 'l' && "browser_localstorage_get"@[21] == 'g',
        "browser_localstorage_set"@.len() == 24 && "browser_localstorage_set"@[8] == 'l' && "browser_localstorage_set"@[21] == 's',
        "browser_generate_locator"@.len() == 24 && "browser_generate_locator"@[8] == 'g' && "browser_generate_locator"@[21] == 't',
        "browser_console_messages"@.len() == 24 && "browser_console_messages"@[8] == 'c' && "browser_console_messages"@[21] == 'g',
        "browser_network_requests"@.len() == 24 && "browser_network_requests"@[8] == 'n' && "browser_network_requests"@[21] == 's',
        "browser_network_state_set"@.len() == 25 && "browser_network_state_set"@[8] == 'n',
        "browser_localstorage_list"@.len() == 25 && "browser_localstorage_list"@[8] == 'l',
        "browser_set_storage_state"@.len() == 25 && "browser_set_storage_state"@[8] == 's',
        "browser_localstorage_clear"@.len() == 26 && "browser_localstorage_clear"@[14] == 't' && "browser_localstorage_clear"@[23] == 'e',
        "browser_sessionstorage_get"@.len() == 26 && "browser_sessionstorage_get"@[14] == 'n' && "browser_sessionstorage_get"@[23] == 'g',
        "browser_sessionstorage_set"@.len() == 26 && "browser_sessionstorage_set"@[14] == 'n' && "browser_sessionstorage_set"@[23] == 's',
        "browser_video_show_actions"@.len() == 26 && "browser_video_show_actions"@[14] == 's' && "browser_video_show_actions"@[23] == 'o',
        "browser_video_hide_actions"@.len() == 26 && "browser_video_hide_actions"@[14] == 'h' && "browser_video_hide_actions"@[23] == 'o',
        "browser_localstorage_delete"@.len() == 27 && "browser_localstorage_delete"@[15] == 'o',
        "browser_sessionstorage_list"@.len() == 27 && "browser_sessionstorage_list"@[15] == 's',
        "browser_verify_list_visible"@.len() == 27 && "browser_verify_list_visible"@[15] == 'l',
        "browser_verify_text_visible"@.len() == 27 && "browser_verify_text_visible"@[15] == 't',
        "browser_sessionstorage_clear"@.len() == 28,
        "browser_sessionstorage_delete"@.len() == 29,
        "browser_verify_element_visible"@.len() == 30,
{
    reveal_strlit("browser_mouse_click_xy");
    reveal_strlit("browser_mouse_down");
    reveal_strlit("browser_mouse_drag_xy");
    reveal_strlit("browser_mouse_move_xy");
    reveal_strlit("browser_mouse_up");
    reveal_strlit("browser_mouse_wheel");
    reveal_strlit("browser_pdf_save");
    reveal_strlit("browser_network_state_set");
    reveal_strlit("browser_route");
    reveal_strlit("browser_route_list");
    reveal_strlit("browser_unroute");
    reveal_strlit("browser_cookie_clear");
    reveal_strlit("browser_cookie_delete");
    reveal_strlit("browser_cookie_get");
    reveal_strlit("browser_cookie_list");
    reveal_strlit("browser_cookie_set");
    reveal_strlit("browser_localstorage_clear");
    reveal_strlit("browser_localstorage_delete");
    reveal_strlit("browser_localstorage_get");
    reveal_strlit("browser_localstorage_list");
    reveal_strlit("browser_localstorage_set");
    reveal_strlit("browser_sessionstorage_clear");
    reveal_strlit("browser_sessionstorage_delete");
    reveal_strlit("browser_sessionstorage_get");
    reveal_strlit("browser_sessionstorage_list");
    reveal_strlit("browser_sessionstorage_set");
    reveal_strlit("browser_set_storage_state");
    reveal_strlit("browser_storage_state");
    reveal_strlit("browser_highlight");
    reveal_strlit("browser_hide_highlight");
    reveal_strlit("browser_start_tracing");
    reveal_strlit("browser_stop_tracing");
    reveal_strlit("browser_start_video");
    reveal_strlit("browser_stop_video");
    reveal_strlit("browser_video_chapter");
    reveal_strlit("browser_video_show_actions");
    reveal_strlit("browser_video_hide_actions");
    reveal_strlit("browser_start_recording");
    reveal_strlit("browser_stop_recording");
    reveal_strlit("browser_generate_locator");
    reveal_strlit("browser_verify_element_visible");
    reveal_strlit("browser_verify_list_visible");
    reveal_strlit("browser_verify_text_visible");
    reveal_strlit("browser_verify_value");
    reveal_strlit("browser_get_config");
    reveal_strlit("browser_navigate");
    reveal_strlit("browser_navigate_back");
    reveal_strlit("browser_click");
    reveal_strlit("browser_hover");
    reveal_strlit("browser_type");
    reveal_strlit("browser_fill_form");
    reveal_strlit("browser_select_option");
    reveal_strlit("browser_press_key");
    reveal_strlit("browser_drag");
    reveal_strlit("browser_drop");
    reveal_strlit("browser_wait_for");
    reveal_strlit("browser_snapshot");
    reveal_strlit("browser_find");
    reveal_strlit("browser_take_screenshot");
    reveal_strlit("browser_evaluate");
    reveal_strlit("browser_file_upload");
    reveal_strlit("browser_handle_dialog");
    reveal_strlit("browser_tabs");
    reveal_strlit("browser_resize");
    reveal_strlit("browser_console_messages");
    reveal_strlit("browser_network_requests");
    reveal_strlit("browser_set_mode");
    reveal_strlit("browser_links");
    reveal_strlit("browser_read");
    reveal_strlit("browser_text");
    reveal_strlit("browser_table");
    reveal_strlit("browser_extract");
    reveal_strlit("browser_fetch");
    reveal_strlit("browser_scrape");
    reveal_strlit("browser_network_request");
    reveal_strlit("browser_close");
    reveal_strlit("browser_install");
    reveal_strlit("browser_handoff");
    reveal_strlit("browser_batch");
    assert("browser_type"@.len() == 12 && "browser_type"@[10] == 'p' && "browser_type"@[8] == 't');
    assert("browser_drag"@.len() == 12 && "browser_drag"@[10] == 'a' && "browser_drag"@[8] == 'd');
    assert("browser_drop"@.len() == 12 && "browser_drop"@[10] == 'o' && "browser_drop"@[8] == 'd');
    assert("browser_find"@.len() == 12 && "browser_find"@[10] == 'n' && "browser_find"@[8] == 'f');
    assert("browser_tabs"@.len() == 12 && "browser_tabs"@[10] == 'b' && "browser_tabs"@[8] == 't');
    assert("browser_read"@.len() == 12 && "browser_read"@[10] == 'a' && "browser_read"@[8] == 'r');
    assert("browser_text"@.len() == 12 && "browser_text"@[10] == 'x' && "browser_text"@[8] == 't');
    assert("browser_route"@.len() == 13 && "browser_route"@[8] == 'r' && "browser_route"@[10] == 'u');
    assert("browser_click"@.len() == 13 && "browser_click"@[8] == 'c' && "browser_click"@[10] == 'i');
    assert("browser_hover"@.len() == 13 && "browser_hover"@[8] == 'h' && "browser_hover"@[10] == 'v');
    assert("browser_links"@.len() == 13 && "browser_links"@[8] == 'l' && "browser_links"@[10] == 'n');
    assert("browser_table"@.len() == 13 && "browser_table"@[8] == 't' && "browser_table"@[10] == 'b');
    assert("browser_fetch"@.len() == 13 && "browser_fetch"@[8] == 'f' && "browser_fetch"@[10] == 't');
    assert("browser_close"@.len() == 13 && "browser_close"@[8] == 'c' && "browser_close"@[10] == 'o');
    assert("browser_batch"@.len() == 13 && "browser_batch"@[8] == 'b' && "browser_batch"@[10] == 't');
    assert("browser_resize"@.len() == 14 && "browser_resize"@[8] == 'r');
    assert("browser_scrape"@.len() == 14 && "browser_scrape"@[8] == 's');
    assert("browser_unroute"@.len() == 15 && "browser_unroute"@[8] == 'u');
    assert("browser_extract"@.len() == 15 && "browser_extract"@[8] == 'e');
    assert("browser_install"@.len() == 15 && "browser_install"@[8] == 'i');
    assert("browser_handoff"@.len() == 15 && "browser_handoff"@[8] == 'h');
    assert("browser_mouse_up"@.len() == 16 && "browser_mouse_up"@[8] == 'm' && "browser_mouse_up"@[9] == 'o');
    assert("browser_pdf_save"@.len() == 16 && "browser_pdf_save"@[8] == 'p' && "browser_pdf_save"@[9] == 'd');
    assert("browser_navigate"@.len() == 16 && "browser_navigate"@[8] == 'n' && "browser_navigate"@[9] == 'a');
    assert("browser_wait_for"@.len() == 16 && "browser_wait_for"@[8] == 'w' && "browser_wait_for"@[9] == 'a');
    assert("browser_snapshot"@.len() == 16 && "browser_snapshot"@[8] == 's' && "browser_snapshot"@[9] == 'n');
    assert("browser_evaluate"@.len() == 16 && "browser_evaluate"@[8] == 'e' && "browser_evaluate"@[9] == 'v');
    assert("browser_set_mode"@.len() == 16 && "browser_set_mode"@[8] == 's' && "browser_set_mode"@[9] == 'e');
    assert("browser_highlight"@.len() == 17 && "browser_highlight"@[8] == 'h');
    assert("browser_fill_form"@.len() == 17 && "browser_fill_form"@[8] == 'f');
    assert("browser_press_key"@.len() == 17 && "browser_press_key"@[8] == 'p');
    assert("browser_mouse_down"@.len() == 18 && "browser_mouse_down"@[15] == 'o');
    assert("browser_route_list"@.len() == 18 && "browser_route_list"@[15] == 'i');
    assert("browser_cookie_get"@.len() == 18 && "browser_cookie_get"@[15] == 'g');
    assert("browser_cookie_set"@.len() == 18 && "browser_cookie_set"@[15] == 's');
    assert("browser_stop_video"@.len() == 18 && "browser_stop_video"@[15] == 'd');
    assert("browser_get_config"@.len() == 18 && "browser_get_config"@[15] == 'f');
    assert("browser_mouse_wheel"@.len() == 19 && "browser_mouse_wheel"@[8] == 'm');
    assert("browser_cookie_list"@.len() == 19 && "browser_cookie_list"@[8] == 'c');
    assert("browser_start_video"@.len() == 19 && "browser_start_video"@[8] == 's');
    assert("browser_file_upload"@.len() == 19 && "browser_file_upload"@[8] == 'f');
    assert("browser_cookie_clear"@.len() == 20 && "browser_cookie_clear"@[8] == 'c');
    assert("browser_stop_tracing"@.len() == 20 && "browser_stop_tracing"@[8] == 's');
    assert("browser_verify_value"@.len() == 20 && "browser_verify_value"@[8] == 'v');
    assert("browser_mouse_drag_xy"@.len() == 21 && "browser_mouse_drag_xy"@[12] == 'e' && "browser_mouse_drag_xy"@[14] == 'd');
    assert("browser_mouse_move_xy"@.len() == 21 && "browser_mouse_move_xy"@[12] == 'e' && "browser_mouse_move_xy"@[14] == 'm');
    assert("browser_cookie_delete"@.len() == 21 && "browser_cookie_delete"@[12] == 'i' && "browser_cookie_delete"@[14] == '_');
    assert("browser_storage_state"@.len() == 21 && "browser_storage_state"@[12] == 'a' && "browser_storage_state"@[14] == 'e');
    assert("browser_start_tracing"@.len() == 21 && "browser_start_tracing"@[12] == 't' && "browser_start_tracing"@[14] == 't');
    assert("browser_video_chapter"@.len() == 21 && "browser_video_chapter"@[12] == 'o' && "browser_video_chapter"@[14] == 'c');
    assert("browser_navigate_back"@.len() == 21 && "browser_navigate_back"@[12] == 'g' && "browser_navigate_back"@[14] == 't');
    assert("browser_select_option"@.len() == 21 && "browser_select_option"@[12] == 'c' && "browser_select_option"@[14] == '_');
    assert("browser_handle_dialog"@.len() == 21 && "browser_handle_dialog"@[12] == 'l' && "browser_handle_dialog"@[14] == '_');
    assert("browser_mouse_click_xy"@.len() == 22 && "browser_mouse_click_xy"@[8] == 'm');
    assert("browser_hide_highlight"@.len() == 22 && "browser_hide_highlight"@[8] == 'h');
    assert("browser_stop_recording"@.len() == 22 && "browser_stop_recording"@[8] == 's');
    assert("browser_start_recording"@.len() == 23 && "browser_start_recording"@[8] == 's');
    assert("browser_take_screenshot"@.len() == 23 && "browser_take_screenshot"@[8] == 't');
    assert("browser_network_request"@.len() == 23 && "browser_network_request"@[8] == 'n');
    assert("browser_localstorage_get"@.len() == 24 && "browser_localstorage_get"@[8] == 'l' && "browser_localstorage_get"@[21] == 'g');
    assert("browser_localstorage_set"@.len() == 24 && "browser_localstorage_set"@[8] == 'l' && "browser_localstorage_set"@[21] == 's');
    assert("browser_generate_locator"@.len() == 24 && "browser_generate_locator"@[8] == 'g' && "browser_generate_locator"@[21] == 't');
    assert("browser_console_messages"@.len() == 24 && "browser_console_messages"@[8] == 'c' && "browser_console_messages"@[21] == 'g');
    assert("browser_network_requests"@.len() == 24 && "browser_network_requests"@[8] == 'n' && "browser_network_requests"@[21] == 's');
    assert("browser_network_state_set"@.len() == 25 && "browser_network_state_set"@[8] == 'n');
    assert("browser_localstorage_list"@.len() == 25 && "browser_localstorage_list"@[8] == 'l');
    assert("browser_set_storage_state"@.len() == 25 && "browser_set_storage_state"@[8] == 's');
    assert("browser_localstorage_clear"@.len() == 26 && "browser_localstorage_clear"@[14] == 't' && "browser_localstorage_clear"@[23] == 'e');
    assert("browser_sessionstorage_get"@.len() == 26 && "browser_sessionstorage_get"@[14] == 'n' && "browser_sessionstorage_get"@[23] == 'g');
    assert("browser_sessionstorage_set"@.len() == 26 && "browser_sessionstorage_set"@[14] == 'n' && "browser_sessionstorage_set"@[23] == 's');
    assert("browser_video_show_actions"@.len() == 26 && "browser_video_show_actions"@[14] == 's' && "browser_video_show_actions"@[23] == 'o');
    assert("browser_video_hide_actions"@.len() == 26 && "browser_video_hide_actions"@[14] == 'h' && "browser_video_hide_actions"@[23] == 'o');
    assert("browser_localstorage_delete"@.len() == 27 && "browser_localstorage_delete"@[15] == 'o');
    assert("browser_sessionstorage_list"@.len() == 27 && "browser_sessionstorage_list"@[15] == 's');
    assert("browser_verify_list_visible"@.len() == 27 && "browser_verify_list_visible"@[15] == 'l');
    assert("browser_verify_text_visible"@.len() == 27 && "browser_verify_text_visible"@[15] == 't');
    assert("browser_sessionstorage_clear"@.len() == 28);
    assert("browser_sessionstorage_delete"@.len() == 29);
    assert("browser_verify_element_visible"@.len() == 30);
}

/// Which tools belong to which capability, and that all other tools belong to none.
pub proof fn law_tools_of_capabilities(t: Text)
    ensures
        t == "browser_mouse_click_xy"@ || t == "browser_mouse_down"@ || t == "browser_mouse_drag_xy"@ || t == "browser_mouse_move_xy"@ || t == "browser_mouse_up"@ || t == "browser_mouse_wheel"@ ==> cap_of(t) == Some("vision"@),
        t == "browser_pdf_save"@ ==> cap_of(t) == Some("pdf"@),
        t == "browser_network_state_set"@ || t == "browser_route"@ || t == "browser_route_list"@ || t == "browser_unroute"@ ==> cap_of(t) == Some("network"@),
        t == "browser_cookie_clear"@ || t == "browser_cookie_delete"@ || t == "browser_cookie_get"@ || t == "browser_cookie_list"@ || t == "browser_cookie_set"@ || t == "browser_localstorage_clear"@ || t == "browser_localstorage_delete"@ || t == "browser_localstorage_get"@ || t == "browser_localstorage_list"@ || t == "browser_localstorage_set"@ || t == "browser_sessionstorage_clear"@ || t == "browser_sessionstorage_delete"@ || t == "browser_sessionstorage_get"@ || t == "browser_sessionstorage_list"@ || t == "browser_sessionstorage_set"@ || t == "browser_set_storage_state"@ || t == "browser_storage_state"@ ==> cap_of(t) == Some("storage"@),
        t == "browser_highlight"@ || t == "browser_hide_highlight"@ || t == "browser_start_tracing"@ || t == "browser_stop_tracing"@ || t == "browser_start_video"@ || t == "browser_stop_video"@ || t == "browser_video_chapter"@ || t == "browser_video_show_actions"@ || t == "browser_video_hide_actions"@ || t == "browser_start_recording"@ || t == "browser_stop_recording"@ ==> cap_of(t) == Some("devtools"@),
        t == "browser_generate_locator"@ || t == "browser_verify_element_visible"@ || t == "browser_verify_list_visible"@ || t == "browser_verify_text_visible"@ || t == "browser_verify_value"@ ==> cap_of(t) == Some("testing"@),
        t == "browser_get_config"@ ==> cap_of(t) == Some("config"@),
        t == "browser_navigate"@ || t == "browser_navigate_back"@ || t == "browser_click"@ || t == "browser_hover"@ || t == "browser_type"@ || t == "browser_fill_form"@ || t == "browser_select_option"@ || t == "browser_press_key"@ || t == "browser_drag"@ || t == "browser_drop"@ || t == "browser_wait_for"@ || t == "browser_snapshot"@ || t == "browser_find"@ || t == "browser_take_screenshot"@ || t == "browser_evaluate"@ || t == "browser_file_upload"@ || t == "browser_handle_dialog"@ || t == "browser_tabs"@ || t == "browser_resize"@ || t == "browser_console_messages"@ || t == "browser_network_requests"@ || t == "browser_set_mode"@ || t == "browser_links"@ || t == "browser_read"@ || t == "browser_text"@ || t == "browser_table"@ || t == "browser_extract"@ || t == "browser_fetch"@ || t == "browser_scrape"@ || t == "browser_network_request"@ || t == "browser_close"@ || t == "browser_install"@ || t == "browser_handoff"@ || t == "browser_batch"@ ==> is_tool(t) && cap_of(t) is None,
        is_tool(t) && cap_of(t) is None ==> t == "browser_navigate"@ || t == "browser_navigate_back"@ || t == "browser_click"@ || t == "browser_hover"@ || t == "browser_type"@ || t == "browser_fill_form"@ || t == "browser_select_option"@ || t == "browser_press_key"@ || t == "browser_drag"@ || t == "browser_drop"@ || t == "browser_wait_for"@ || t == "browser_snapshot"@ || t == "browser_find"@ || t == "browser_take_screenshot"@ || t == "browser_evaluate"@ || t == "browser_file_upload"@ || t == "browser_handle_dialog"@ || t == "browser_tabs"@ || t == "browser_resize"@ || t == "browser_console_messages"@ || t == "browser_network_requests"@ || t == "browser_set_mode"@ || t == "browser_links"@ || t == "browser_read"@ || t == "browser_text"@ || t == "browser_table"@ || t == "browser_extract"@ || t == "browser_fetch"@ || t == "browser_scrape"@ || t == "browser_network_request"@ || t == "browser_close"@ || t == "browser_install"@ || t == "browser_handoff"@ || t == "browser_batch"@,
        cap_of(t) is Some ==> t == "browser_mouse_click_xy"@ || t == "browser_mouse_down"@ || t == "browser_mouse_drag_xy"@ || t == "browser_mouse_move_xy"@ || t == "browser_mouse_up"@ || t == "browser_mouse_wheel"@ || t == "browser_pdf_save"@ || t == "browser_network_state_set"@ || t == "browser_route"@ || t == "browser_route_list"@ || t == "browser_unroute"@ || t == "browser_cookie_clear"@ || t == "browser_cookie_delete"@ || t == "browser_cookie_get"@ || t == "browser_cookie_list"@ || t == "browser_cookie_set"@ || t == "browser_localstorage_clear"@ || t == "browser_localstorage_delete"@ || t == "browser_localstorage_get"@ || t == "browser_localstorage_list"@ || t == "browser_localstorage_set"@ || t == "browser_sessionstorage_clear"@ || t == "browser_sessionstorage_delete"@ || t == "browser_sessionstorage_get"@ || t == "browser_sessionstorage_list"@ || t == "browser_sessionstorage_set"@ || t == "browser_set_storage_state"@ || t == "browser_storage_state"@ || t == "browser_highlight"@ || t == "browser_hide_highlight"@ || t == "browser_start_tracing"@ || t == "browser_stop_tracing"@ || t == "browser_start_video"@ || t == "browser_stop_video"@ || t == "browser_video_chapter"@ || t == "browser_video_show_actions"@ || t == "browser_video_hide_actions"@ || t == "browser_start_recording"@ || t == "browser_stop_recording"@ || t == "browser_generate_locator"@ || t == "browser_verify_element_visible"@ || t == "browser_verify_list_visible"@ || t == "browser_verify_text_visible"@ || t == "browser_verify_value"@ || t == "browser_get_config"@,
{
    lemma_tool_names();
}

/// A tool of no capability is always offered; one of a capability where that is asked for, or all are; and
/// what is no tool never is.
pub proof fn law_tools_are_offered(cfg: ConfigV, t: Text)
    ensures
        is_tool(t) && cap_of(t) is None ==> offered(cfg, t),
        cap_of(t) is Some && cfg.caps.contains(cap_of(t)->0) ==> offered(cfg, t),
        cap_of(t) is Some && cfg.caps.contains("all"@) ==> offered(cfg, t),
        cap_of(t) is Some && !cfg.caps.contains(cap_of(t)->0) && !cfg.caps.contains("all"@) ==> !offered(cfg, t),
        !is_tool(t) ==> !offered(cfg, t),
{
}

/// What a batch can run: the tools that act on pages and read them, and clicks, moves and the wheel at a
/// position where those are offered; a batch in a batch and a hand-off are refused, and so is anything else.
pub proof fn law_tools_of_batches(cfg: ConfigV, t: Text)
    ensures
        t == "browser_navigate"@ || t == "browser_navigate_back"@ || t == "browser_click"@ || t == "browser_hover"@ || t == "browser_type"@ || t == "browser_fill_form"@ || t == "browser_select_option"@ || t == "browser_press_key"@ || t == "browser_drag"@ || t == "browser_drop"@ || t == "browser_wait_for"@ || t == "browser_snapshot"@ || t == "browser_find"@ || t == "browser_take_screenshot"@ || t == "browser_evaluate"@ || t == "browser_file_upload"@ || t == "browser_handle_dialog"@ || t == "browser_tabs"@ || t == "browser_resize"@ || t == "browser_console_messages"@ || t == "browser_network_requests"@ || t == "browser_set_mode"@ || t == "browser_links"@ || t == "browser_read"@ || t == "browser_text"@ || t == "browser_table"@ || t == "browser_extract"@ || t == "browser_fetch"@ || t == "browser_scrape"@ || t == "browser_network_request"@ ==> batch_refusal(cfg, t) is None,
        (t == "browser_mouse_click_xy"@ || t == "browser_mouse_move_xy"@ || t == "browser_mouse_wheel"@) && offered(cfg, t)
            ==> batch_refusal(cfg, t) is None,
        t == "browser_batch"@ || t == "browser_handoff"@ || !offered(cfg, t) ==> batch_refusal(cfg, t) == Some(
            t + " cannot be used in a batch"@,
        ),
        offered(cfg, t) && t != "browser_batch"@ && t != "browser_handoff"@ && batch_refusal(cfg, t) is Some ==> batch_refusal(
            cfg,
            t,
        ) == Some(t + " is not supported in browser_batch"@),
        batch_refusal(cfg, t) is None ==> t == "browser_navigate"@ || t == "browser_navigate_back"@ || t == "browser_click"@ || t == "browser_hover"@ || t == "browser_type"@ || t == "browser_fill_form"@ || t == "browser_select_option"@ || t == "browser_press_key"@ || t == "browser_drag"@ || t == "browser_drop"@ || t == "browser_wait_for"@ || t == "browser_snapshot"@ || t == "browser_find"@ || t == "browser_take_screenshot"@ || t == "browser_evaluate"@ || t == "browser_file_upload"@ || t == "browser_handle_dialog"@ || t == "browser_tabs"@ || t == "browser_resize"@ || t == "browser_console_messages"@ || t == "browser_network_requests"@ || t == "browser_set_mode"@ || t == "browser_links"@ || t == "browser_read"@ || t == "browser_text"@ || t == "browser_table"@ || t == "browser_extract"@ || t == "browser_fetch"@ || t == "browser_scrape"@ || t == "browser_network_request"@ || t == "browser_mouse_click_xy"@ || t
            == "browser_mouse_move_xy"@ || t == "browser_mouse_wheel"@,
{
    lemma_tool_names();
}

/// What a step of a batch leaves in the reply: its number, its tool, and what it says or what went wrong.
pub proof fn law_step_lines(n: nat, tool: Text, r: ReplyV, e: Text)
    ensures
        step_line(n, tool, Ok(r)) == text::dec(n) + ". "@ + tool + (": "@ + text::trimmed(text::joined(r.result, " "@))),
        step_line(n, tool, Err(e)) == text::dec(n) + ". "@ + tool + (": ERROR "@ + e),
{
}

/// A step that has run leaves its line behind those before it, and its pictures behind theirs; a step that
/// failed is remembered. The steps, and what becomes of the snapshot, stay.
pub proof fn law_steps_add_up(b: BatchV, r: ReplyV, e: Text)
    requires
        b.done < b.steps.len(),
    ensures
        ({
            let a = b.after(Ok(r));
            let f = b.after(Err(e));
            let tool = b.steps[b.done as int].0;
            &&& a.done == b.done + 1 && f.done == b.done + 1
            &&& a.failed == b.failed && f.failed
            &&& a.steps == b.steps && f.steps == b.steps && a.stop == b.stop && f.stop == b.stop
            &&& a.timeout == b.timeout && f.timeout == b.timeout
            &&& a.combined.result == b.combined.result.push(step_line(b.done + 1, tool, Ok(r)))
            &&& f.combined.result == b.combined.result.push(step_line(b.done + 1, tool, Err(e)))
            &&& a.combined.images == b.combined.images + r.images && f.combined.images == b.combined.images
            &&& a.combined.snapshot == b.combined.snapshot && a.combined.page_state == b.combined.page_state
            &&& f.combined.snapshot == b.combined.snapshot && f.combined.page_state == b.combined.page_state
        }),
{
}

/// A batch goes on while steps are left and none has failed, or failures do not stop it; its reply is one
/// with the page and a snapshot.
pub proof fn law_batches_go_on(b: BatchV)
    ensures
        b.goes_on() <==> b.done < b.steps.len() && (!b.failed || !b.stop),
        empty_batch_reply().snapshot && empty_batch_reply().page_state && !empty_batch_reply().error,
        empty_batch_reply().result.len() == 0 && empty_batch_reply().images.len() == 0,
{
}

/// The timeout of a step is the one in its arguments, and else that of the batch.
pub proof fn law_step_timeouts(b: BatchV, i: int)
    ensures
        b.steps[i].1.at("timeout"@).as_u64() is Some ==> b.step_timeout(i) == b.steps[i].1.at("timeout"@).as_u64(),
        b.steps[i].1.at("timeout"@).as_u64() is None && b.timeout is Some ==> b.step_timeout(i) == Some(
            b.timeout->0 as nat,
        ),
        b.steps[i].1.at("timeout"@).as_u64() is None && b.timeout is None ==> b.step_timeout(i) is None,
{
}

} // verus!
