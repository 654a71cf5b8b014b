//! Everything a tool does to a page, as far as it is decided here: the expressions and commands that
//! are sent, and what is made of the replies.

use crate::browser;
use crate::browser::Browser;
use crate::browser::BrowserV;
use crate::cdp;
use crate::cdp::Command;
use crate::cdp::CommandV;
use crate::elements;
use crate::json;
use crate::json::Json;
use crate::json::JsonV;
use crate::pattern;
use crate::pattern::Pattern;
use crate::snapshot;
use crate::state;
use crate::state::DialogV;
use crate::state::State;
use crate::state::StateV;
use crate::state::TabV;
use crate::text;
use crate::text::Text;
use vstd::prelude::*;

verus! {

/// A captured picture of a page.
pub struct Shot {
    pub data: Vec<u8>,
    pub mime: &'static str,
    pub path: String,
}

// ---------------------------------------------------------------------- elements

/// What an element must be before something is done to it.
pub open spec fn prepare_options(b: BrowserV, enabled: bool, hit_test: bool) -> JsonV {
    JsonV::obj().with(
        "timeout"@,
        JsonV::Int(
            match b.timeout {
                Some(t) => t as int,
                None => b.cfg.timeout_action as int,
            },
        ),
    ).with("enabled"@, JsonV::Bool(enabled)).with("hitTest"@, JsonV::Bool(hit_test))
}

/// The expression that finds an element by a reference or a selector.
pub fn element(target: &str) -> (r: String)
    ensures
        r@ == "__bmcp.resolve("@ + json::quoted(target@) + ")"@,
{
    let mut s = "__bmcp.resolve(".to_string();
    s.append(&json::js(target));
    s.append(")");
    s
}

impl Browser {
    /// How long an element is waited for: what the call asks for, else what the settings say.
    pub fn action_timeout(&self) -> (r: u64)
        ensures
            r == match self@.timeout {
                Some(t) => t as nat,
                None => self@.cfg.timeout_action,
            },
    {
        match self.overrides.timeout {
            Some(t) => t,
            None => self.cfg.timeout_action,
        }
    }

    /// Waits until an element is ready for an action: attached, visible and stable, where asked for
    /// enabled, and where asked for hit by the pointer at its center.
    pub fn prepare(&self, session: &str, object: &str, enabled: bool, hit_test: bool) -> (r: Command)
        ensures
            r@ == browser::call_command(
                session@,
                object@,
                "function(o) { return __bmcp.prepare(this, o); }"@,
                seq![prepare_options(self@, enabled, hit_test)],
            ),
    {
        let t = self.action_timeout();
        let opts = Json::obj().with("timeout", Json::Int(t as i128)).with("enabled", Json::Bool(enabled)).with(
            "hitTest",
            Json::Bool(hit_test),
        );
        elements::call_with(session, object, "function(o) { return __bmcp.prepare(this, o); }", opts)
    }

    /// The function that marks the element an action is about to act on, while actions are shown.
    pub fn show_action(&self, label: &str) -> (r: Option<String>)
        ensures
            text::opt_text(r) == match self@.state.show_actions {
                Some(ms) => Some(
                    "function() { __bmcp.highlight(this, 'outline-color:#0a84ff;background:rgba(10,132,255,.12)', 'action'); setTimeout(() => __bmcp.removeHighlight('action'), "@
                        + text::dec(ms as nat) + "); return "@ + json::quoted(label@) + "; }"@,
                ),
                None => None,
            },
    {
        match self.state.show_actions {
            Some(ms) => {
                let mut s = "function() { __bmcp.highlight(this, 'outline-color:#0a84ff;background:rgba(10,132,255,.12)', 'action'); setTimeout(() => __bmcp.removeHighlight('action'), ".to_string();
                s.append(&text::decimal(ms as u128));
                s.append("); return ");
                s.append(&json::js(label));
                s.append("; }");
                Some(s)
            },
            None => None,
        }
    }
}

/// A number, or 0 for anything else.
pub open spec fn number_or_zero(j: JsonV) -> JsonV {
    match j {
        JsonV::Int(_) => j,
        JsonV::Float(_) => j,
        _ => JsonV::Float("0.0"@),
    }
}

fn number(j: &Json) -> (r: Json)
    ensures
        r@ == number_or_zero(j@),
{
    match j {
        Json::Int(i) => Json::Int(*i),
        Json::Float(s) => Json::Float(s.clone()),
        _ => Json::Float("0.0".to_string()),
    }
}

/// The point where an element is to be hit, as the page gives it.
pub fn point(v: &Json) -> (r: (Json, Json))
    ensures
        r.0@ == number_or_zero(v@.at("x"@)),
        r.1@ == number_or_zero(v@.at("y"@)),
{
    (number(v.at("x")), number(v.at("y")))
}

// ---------------------------------------------------------------------- dropping, uploading

/// The data of a drop: each member of an object as one item, a string as it is and anything else as
/// JSON text.
pub open spec fn drop_items(data: JsonV) -> JsonV {
    JsonV::Arr(
        data.fields().map_values(
            |m: (Text, JsonV)|
                JsonV::obj().with("mimeType"@, JsonV::Str(m.0)).with("data"@, JsonV::Str(plain_text(m.1))),
        ),
    )
}

/// A string as it is, anything else as JSON text.
pub open spec fn plain_text(j: JsonV) -> Text {
    match j {
        JsonV::Str(s) => s,
        _ => json::json_text(j),
    }
}

/// A string as it is, anything else as JSON text: no quoting or escaping to wade through.
pub fn plain(j: &Json) -> (r: String)
    ensures
        r@ == plain_text(j@),
{
    match j {
        Json::Str(s) => s.clone(),
        other => other.to_text(),
    }
}

fn item_list(data: &Json) -> (r: Json)
    ensures
        r@ == drop_items(data@),
{
    let ghost f = |m: (Text, JsonV)|
        JsonV::obj().with("mimeType"@, JsonV::Str(m.0)).with("data"@, JsonV::Str(plain_text(m.1)));
    let mut out: Vec<Json> = Vec::new();
    match data {
        Json::Obj(v) => {
            proof {
                json::lemma_obj(*v);
            }
            let mut i: usize = 0;
            while i < v.len()
                invariant
                    i <= v@.len(),
                    out@.len() == i,
                    forall|k: int|
                        0 <= k < i ==> (#[trigger] out@[k])@ == JsonV::obj().with(
                            "mimeType"@,
                            JsonV::Str(v@[k].0@),
                        ).with("data"@, JsonV::Str(plain_text(v@[k].1@))),
                decreases v@.len() - i,
            {
                out.push(
                    Json::obj().with("mimeType", Json::str(&v[i].0)).with("data", Json::Str(plain(&v[i].1))),
                );
                i = i + 1;
            }
            proof {
                assert(data@.fields() == json::members(v@));
            }
        },
        _ => {},
    }
    proof {
        json::lemma_arr(out);
        assert(text::views(out@) =~= data@.fields().map_values(f));
    }
    Json::Arr(out)
}

/// One event of a drag.
pub open spec fn drag_event(session: Text, kind: Text, x: JsonV, y: JsonV, data: JsonV) -> CommandV {
    cdp::to_session(
        session,
        "Input.dispatchDragEvent"@,
        JsonV::obj().with("type"@, JsonV::Str(kind)).with("x"@, x).with("y"@, y).with("data"@, data),
    )
}

/// A drag enters a point, moves over it and is dropped there.
pub open spec fn drop_events(session: Text, x: JsonV, y: JsonV, data: JsonV) -> Seq<CommandV> {
    seq![
        drag_event(session, "dragEnter"@, x, y, data),
        drag_event(session, "dragOver"@, x, y, data),
        drag_event(session, "drop"@, x, y, data),
    ]
}

/// Replays a drag onto a point.
pub fn drop_at(session: &str, x: &Json, y: &Json, data: &Json) -> (r: Vec<Command>)
    ensures
        text::views(r@) == drop_events(session@, x@, y@, data@),
{
    let mut out: Vec<Command> = Vec::new();
    out.push(
        Command::session(
            session,
            "Input.dispatchDragEvent",
            Json::obj().with("type", Json::str("dragEnter")).with("x", x.clone()).with("y", y.clone()).with(
                "data",
                data.clone(),
            ),
        ),
    );
    out.push(
        Command::session(
            session,
            "Input.dispatchDragEvent",
            Json::obj().with("type", Json::str("dragOver")).with("x", x.clone()).with("y", y.clone()).with(
                "data",
                data.clone(),
            ),
        ),
    );
    out.push(
        Command::session(
            session,
            "Input.dispatchDragEvent",
            Json::obj().with("type", Json::str("drop")).with("x", x.clone()).with("y", y.clone()).with(
                "data",
                data.clone(),
            ),
        ),
    );
    proof {
        assert(text::views(out@) =~= drop_events(session@, x@, y@, data@));
    }
    out
}

/// What is dropped from outside the page: items and files, to be copied, linked or moved.
pub fn drop_data(paths: &Vec<String>, data: &Json) -> (r: Json)
    ensures
        r@ == JsonV::obj().with("items"@, drop_items(data@)).with("files"@, json::str_list(text::views(paths@))).with(
            "dragOperationsMask"@,
            JsonV::Int(19),
        ),
{
    Json::obj().with("items", item_list(data)).with("files", Json::strs(paths)).with(
        "dragOperationsMask",
        Json::num(19),
    )
}

/// The first of some paths that is no file.
pub open spec fn first_missing(paths: Seq<Text>, found: Seq<bool>) -> Option<Text> {
    match text::first_where(found, |b: bool| !b) {
        Some(i) => Some(paths[i]),
        None => None,
    }
}

/// What is said when one of the paths is no file; `found` tells of each whether it is one.
pub fn missing_file(paths: &Vec<String>, found: &Vec<bool>) -> (r: Option<String>)
    requires
        paths@.len() == found@.len(),
    ensures
        text::opt_text(r) == match first_missing(text::views(paths@), found@) {
            Some(p) => Some("file not found: "@ + p),
            None => None,
        },
{
    let ghost f = |b: bool| !b;
    let mut i: usize = 0;
    while i < found.len()
        invariant
            i <= found@.len(),
            paths@.len() == found@.len(),
            f == (|b: bool| !b),
            forall|k: int| 0 <= k < i ==> !f(#[trigger] found@[k]),
        decreases found@.len() - i,
    {
        if !found[i] {
            proof {
                text::lemma_found(found@, f, i as int);
                assert(text::views(paths@)[i as int] == paths@[i as int]@);
            }
            return Some(text::concat("file not found: ", &paths[i]));
        }
        i = i + 1;
    }
    proof {
        text::lemma_first_where(found@, f);
    }
    None
}

/// How an upload goes on.
pub enum Upload {
    /// It cannot be done.
    Fail(String),
    /// The file chooser is left without files.
    Cancelled(String),
    /// The files go to this node of the page.
    Files(i64),
}

/// What is made of an open file chooser.
pub open spec fn upload_outcome(chooser: Option<(int, Text)>, paths: nat) -> Result<Option<int>, Text> {
    match chooser {
        None => Err("no file chooser is open; click the file input (or the button that opens it) first"@),
        Some((node, mode)) => if paths == 0 {
            Ok(None)
        } else if mode == "selectSingle"@ && paths > 1 {
            Err("this file input accepts a single file"@)
        } else {
            Ok(Some(node))
        },
    }
}

/// Takes the file chooser of a tab away.
pub open spec fn without_chooser(st: StateV, session: Text) -> StateV {
    match st.tab_index(session) {
        Some(i) => st.with_tab(i, TabV { file_chooser: None, ..st.tabs[i] }),
        None => st,
    }
}

/// How a dialog is answered: with the text that is given, or, where a prompt is accepted without one, with the
/// text that it suggests.
pub open spec fn dialog_params(d: DialogV, accept: bool, prompt: Option<Text>) -> JsonV {
    let base = JsonV::obj().with("accept"@, JsonV::Bool(accept));
    match prompt {
        Some(t) => base.with("promptText"@, JsonV::Str(t)),
        None => if d.kind == "prompt"@ && accept {
            base.with("promptText"@, JsonV::Str(d.default_prompt))
        } else {
            base
        },
    }
}

impl State {
    /// Takes the file chooser of a tab for an upload of some paths.
    pub fn upload(&mut self, session: &str, paths: &Vec<String>) -> (r: Upload)
        requires
            old(self).wf(),
        ensures
            final(self)@ == without_chooser(old(self)@, session@),
            final(self).wf(),
            match old(self)@.tab_index(session@) {
                None => r matches Upload::Fail(e) && e@ == "the tab was closed"@,
                Some(i) => match upload_outcome(old(self)@.tabs[i].file_chooser, paths@.len()) {
                    Err(m) => r matches Upload::Fail(e) && e@ == m,
                    Ok(None) => r matches Upload::Cancelled(m) && m@ == "file chooser cancelled"@,
                    Ok(Some(n)) => r matches Upload::Files(k) && k == n,
                },
            },
    {
        broadcast use text::group_views;
        let ghost before = self@;
        let i = match self.tab_by_session(session) {
            Some(i) => i,
            None => {
                return Upload::Fail("the tab was closed".to_string());
            },
        };
        proof {
            assert(before.tabs[i as int] == self.tabs@[i as int]@);
            assert(before.tabs[i as int].wf());
        }
        let chooser = match &self.tabs[i].file_chooser {
            Some((n, m)) => Some((*n, m.clone())),
            None => None,
        };
        self.tabs[i].file_chooser = None;
        proof {
            let t = TabV { file_chooser: None, ..before.tabs[i as int] };
            assert(self@.tabs =~= before.tabs.update(i as int, t));
            crate::browser::lemma_tabs_wf(before, self@, i as int);
        }
        match chooser {
            None => Upload::Fail(
                "no file chooser is open; click the file input (or the button that opens it) first".to_string(),
            ),
            Some((node, mode)) => {
                if paths.len() == 0 {
                    Upload::Cancelled("file chooser cancelled".to_string())
                } else if text::same(&mode, "selectSingle") && paths.len() > 1 {
                    Upload::Fail("this file input accepts a single file".to_string())
                } else {
                    Upload::Files(node)
                }
            },
        }
    }

    /// The answer to the dialog of a tab, and what is said of it.
    pub fn handle_dialog(&self, session: &str, accept: bool, prompt: &Option<String>) -> (r: Result<
        (Command, String),
        String,
    >)
        ensures
            match self@.tab_index(session@) {
                None => r matches Err(e) && e@ == "the tab was closed"@,
                Some(i) => match self@.tabs[i].dialog {
                    None => r matches Err(e) && e@ == "no dialog is open"@,
                    Some(d) => {
                        let base = JsonV::obj().with("accept"@, JsonV::Bool(accept));
                        &&& r matches Ok((c, m))
                        &&& c@ == cdp::to_session(
                            session@,
                            "Page.handleJavaScriptDialog"@,
                            match text::opt_text(*prompt) {
                                Some(t) => base.with("promptText"@, JsonV::Str(t)),
                                None => if d.kind == "prompt"@ && accept {
                                    base.with("promptText"@, JsonV::Str(d.default_prompt))
                                } else {
                                    base
                                },
                            },
                        )
                        &&& c@.params == dialog_params(d, accept, text::opt_text(*prompt))
                        &&& m@ == (if accept {
                            "accepted"@
                        } else {
                            "dismissed"@
                        }) + " \""@ + d.kind + "\" dialog"@
                    },
                },
            },
    {
        let i = match self.tab_by_session(session) {
            Some(i) => i,
            None => {
                return Err("the tab was closed".to_string());
            },
        };
        proof {
            assert(self@.tabs[i as int] == self.tabs@[i as int]@);
        }
        match &self.tabs[i].dialog {
            None => Err("no dialog is open".to_string()),
            Some(d) => {
                let mut p = Json::obj().with("accept", Json::Bool(accept));
                match prompt {
                    Some(t) => {
                        p = p.with("promptText", Json::str(t));
                    },
                    None => {
                        if text::same(&d.kind, "prompt") && accept {
                            p = p.with("promptText", Json::str(&d.default_prompt));
                        }
                    },
                }
                let mut m = if accept {
                    "accepted".to_string()
                } else {
                    "dismissed".to_string()
                };
                m.append(" \"");
                m.append(&d.kind);
                m.append("\" dialog");
                Ok((Command::session(session, "Page.handleJavaScriptDialog", p), m))
            },
        }
    }

    /// The dialog of a tab has been answered.
    pub fn dialog_closed(&mut self, session: &str)
        requires
            old(self).wf(),
        ensures
            final(self).wf(),
            final(self)@ == match old(self)@.tab_index(session@) {
                Some(i) => old(self)@.with_tab(i, TabV { dialog: None, ..old(self)@.tabs[i] }),
                None => old(self)@,
            },
    {
        broadcast use text::group_views;
        let ghost before = self@;
        match self.tab_by_session(session) {
            Some(i) => {
                proof {
                    assert(before.tabs[i as int] == self.tabs@[i as int]@);
                    assert(before.tabs[i as int].wf());
                }
                self.tabs[i].dialog = None;
                proof {
                    let t = TabV { dialog: None, ..before.tabs[i as int] };
                    assert(self@.tabs =~= before.tabs.update(i as int, t));
                    crate::browser::lemma_tabs_wf(before, self@, i as int);
                }
            },
            None => {},
        }
    }

    /// The title of a tab is known.
    pub fn set_title(&mut self, session: &str, title: String)
        requires
            old(self).wf(),
        ensures
            final(self).wf(),
            final(self)@ == match old(self)@.tab_index(session@) {
                Some(i) => old(self)@.with_tab(i, TabV { title: title@, ..old(self)@.tabs[i] }),
                None => old(self)@,
            },
    {
        broadcast use text::group_views;
        let ghost before = self@;
        match self.tab_by_session(session) {
            Some(i) => {
                proof {
                    assert(before.tabs[i as int] == self.tabs@[i as int]@);
                    assert(before.tabs[i as int].wf());
                }
                self.tabs[i].title = title;
                proof {
                    let t = TabV { title: title@, ..before.tabs[i as int] };
                    assert(self@.tabs =~= before.tabs.update(i as int, t));
                    crate::browser::lemma_tabs_wf(before, self@, i as int);
                }
            },
            None => {},
        }
    }

    /// The snapshot of a tab that the next one is compared with.
    pub fn set_snapshot(&mut self, session: &str, snap: String)
        requires
            old(self).wf(),
        ensures
            final(self).wf(),
            final(self)@ == match old(self)@.tab_index(session@) {
                Some(i) => old(self)@.with_tab(i, TabV { last_snapshot: Some(snap@), ..old(self)@.tabs[i] }),
                None => old(self)@,
            },
    {
        broadcast use text::group_views;
        let ghost before = self@;
        match self.tab_by_session(session) {
            Some(i) => {
                proof {
                    assert(before.tabs[i as int] == self.tabs@[i as int]@);
                    assert(before.tabs[i as int].wf());
                }
                self.tabs[i].last_snapshot = Some(snap);
                proof {
                    let t = TabV { last_snapshot: Some(snap@), ..before.tabs[i as int] };
                    assert(self@.tabs =~= before.tabs.update(i as int, t));
                    crate::browser::lemma_tabs_wf(before, self@, i as int);
                }
            },
            None => {},
        }
    }
}

/// What is said after an upload.
pub fn uploaded(paths: usize) -> (r: String)
    ensures
        r@ == "uploaded "@ + text::dec(paths as nat) + " file(s)"@,
{
    let mut s = "uploaded ".to_string();
    s.append(&text::decimal(paths as u128));
    s.append(" file(s)");
    s
}

// ---------------------------------------------------------------------- evaluating the page's code

/// Code that begins as a function: "() => x", "x => y", "function () {}", async ones too.
pub open spec fn function_source() -> Text {
    "^(async\\s+)?(function\\b|\\([^()]*\\)\\s*=>|[A-Za-z_$][\\w$]*\\s*=>)"@
}

/// The code is a function to be called; anything else ("document.title", "(() => 1)()") is an
/// expression.
pub open spec fn is_function_text(f: Text) -> bool {
    pattern::regex_finds(function_source(), false, f) && !text::text_ends(f, ")()"@)
}

/// What is evaluated for code without an element.
pub open spec fn page_expression(f: Text, is_fn: bool) -> Text {
    if is_fn {
        "("@ + f + ")()"@
    } else {
        f
    }
}

/// What is called for code with an element.
pub open spec fn element_function(f: Text, is_fn: bool) -> Text {
    if is_fn {
        f
    } else {
        "function() { return ("@ + f + "); }"@
    }
}

/// Whether code, trimmed, is a function to be called. The error is that the expression for functions
/// is refused.
pub fn is_function(f: &str) -> (r: Result<bool, String>)
    ensures
        match r {
            Ok(b) => pattern::refusal(function_source(), false) is None && b == is_function_text(text::trimmed(f@)),
            Err(e) => pattern::refusal(function_source(), false) == Some(e@),
        },
{
    match Pattern::new("^(async\\s+)?(function\\b|\\([^()]*\\)\\s*=>|[A-Za-z_$][\\w$]*\\s*=>)") {
        Ok(p) => {
            let f = text::trim(f);
            Ok(p.is_match(&f) && !text::ends_with(&f, ")()"))
        },
        Err(e) => Err(e),
    }
}

/// The command that evaluates code in the page's own world, so that it sees the page's globals;
/// `is_fn` tells whether the code, trimmed, is a function.
pub fn evaluate_page(session: &str, function: &str, is_fn: bool) -> (r: Command)
    ensures
        r@ == cdp::to_session(
            session@,
            "Runtime.evaluate"@,
            JsonV::obj().with("expression"@, JsonV::Str(page_expression(text::trimmed(function@), is_fn))).with(
                "returnByValue"@,
                JsonV::Bool(true),
            ).with("awaitPromise"@, JsonV::Bool(true)).with("userGesture"@, JsonV::Bool(true)).with(
                "replMode"@,
                JsonV::Bool(true),
            ),
        ),
{
    let f = text::trim(function);
    let expr = if is_fn {
        let mut s = "(".to_string();
        s.append(&f);
        s.append(")()");
        s
    } else {
        f
    };
    Command::session(
        session,
        "Runtime.evaluate",
        Json::obj().with("expression", Json::Str(expr)).with("returnByValue", Json::Bool(true)).with(
            "awaitPromise",
            Json::Bool(true),
        ).with("userGesture", Json::Bool(true)).with("replMode", Json::Bool(true)),
    )
}

/// The command that calls code on an element, which is its argument too.
pub fn evaluate_element(session: &str, function: &str, is_fn: bool, object: &str) -> (r: Command)
    ensures
        r@ == cdp::to_session(
            session@,
            "Runtime.callFunctionOn"@,
            JsonV::obj().with(
                "functionDeclaration"@,
                JsonV::Str(element_function(text::trimmed(function@), is_fn)),
            ).with("objectId"@, JsonV::Str(object@)).with(
                "arguments"@,
                JsonV::Arr(seq![JsonV::obj().with("objectId"@, JsonV::Str(object@))]),
            ).with("returnByValue"@, JsonV::Bool(true)).with("awaitPromise"@, JsonV::Bool(true)).with(
                "userGesture"@,
                JsonV::Bool(true),
            ),
        ),
{
    let f = text::trim(function);
    let decl = if is_fn {
        f
    } else {
        let mut s = "function() { return (".to_string();
        s.append(&f);
        s.append("); }");
        s
    };
    Command::session(
        session,
        "Runtime.callFunctionOn",
        Json::obj().with("functionDeclaration", Json::Str(decl)).with("objectId", Json::str(object)).with(
            "arguments",
            Json::one(Json::obj().with("objectId", Json::str(object))),
        ).with("returnByValue", Json::Bool(true)).with("awaitPromise", Json::Bool(true)).with(
            "userGesture",
            Json::Bool(true),
        ),
    )
}

/// What the page's code gave, or what it threw.
pub open spec fn evaluated(res: JsonV) -> Result<JsonV, Text> {
    match res.get("exceptionDetails"@) {
        Some(ex) => Err(
            match ex.at("exception"@).at("description"@).as_text() {
                Some(t) => t,
                None => ex.at("text"@).text_or("exception"@),
            },
        ),
        None => Ok(
            {
                let r = res.at("result"@);
                match r.get("value"@) {
                    Some(v) => v,
                    None => JsonV::Str(
                        match r.at("unserializableValue"@).as_text() {
                            Some(t) => t,
                            None => r.at("description"@).text_or("undefined"@),
                        },
                    ),
                }
            },
        ),
    }
}

/// What the page's code gave, or what it threw.
pub fn evaluate(res: &Json) -> (r: Result<Json, String>)
    ensures
        cdp::reply_of(r) == evaluated(res@),
{
    match res.get("exceptionDetails") {
        Some(ex) => match ex.at("exception").at("description").as_text() {
            Some(t) => Err(t),
            None => Err(ex.at("text").text_or("exception")),
        },
        None => {
            let r = res.at("result");
            match r.get("value") {
                Some(v) => Ok(v.clone()),
                None => match r.at("unserializableValue").as_text() {
                    Some(t) => Ok(Json::Str(t)),
                    None => Ok(Json::Str(r.at("description").text_or("undefined"))),
                },
            }
        },
    }
}

// ---------------------------------------------------------------------- reading

/// The expression that takes a snapshot of the page, or of a part of it.
pub fn snapshot_expression(target: &Option<String>, depth: Option<u32>, boxes: bool) -> (r: String)
    ensures
        r@ == "__bmcp.snapshot("@ + json::json_text(
            JsonV::obj().with("boxes"@, JsonV::Bool(boxes)).with("depth"@, json::opt_num(depth)).with(
                "target"@,
                json::opt_str(text::opt_text(*target)),
            ),
        ) + ")"@,
{
    let opts = Json::obj().with("boxes", Json::Bool(boxes)).with("depth", Json::opt_u32(depth)).with(
        "target",
        Json::opt(target),
    );
    let mut s = "__bmcp.snapshot(".to_string();
    s.append(&opts.to_text());
    s.append(")");
    s
}

/// Which lines an expression matches.
pub open spec fn matching(lines: Seq<Text>, source: Text, fold: bool) -> Seq<bool> {
    lines.map_values(|l: Text| pattern::regex_finds(source, fold, l))
}

/// The answer of a search in a snapshot for what a compiled expression matches.
pub fn find_matches(snap: &str, re: &Pattern) -> (r: String)
    ensures
        ({
            let lines = text::text_lines(snap@);
            r@ == snapshot::found_text(lines, matching(lines, re.source(), re.fold()))
        }),
{
    let lines = text::lines(snap);
    let ghost all = text::text_lines(snap@);
    let mut marked: Vec<bool> = Vec::new();
    let mut i: usize = 0;
    while i < lines.len()
        invariant
            i <= lines@.len(),
            marked@.len() == i,
            all == text::views(lines@),
            forall|k: int|
                0 <= k < i ==> #[trigger] marked@[k] == pattern::regex_finds(re.source(), re.fold(), lines@[k]@),
        decreases lines@.len() - i,
    {
        marked.push(re.is_match(&lines[i]));
        i = i + 1;
    }
    proof {
        assert(marked@ =~= matching(all, re.source(), re.fold()));
    }
    snapshot::found(&lines, &marked)
}

/// What a search looks for: the expression and whether letter case is told apart.
pub open spec fn query(t: Option<Text>, regex: Option<Text>) -> Option<(Text, bool)> {
    match (t, regex) {
        (_, Some(x)) => Some((x, false)),
        (Some(s), None) => Some((pattern::literals(s), true)),
        (None, None) => None,
    }
}

/// Searches a snapshot for a text, in any letter case, or for an expression. The lines that match
/// come with their ancestors.
pub fn find(snap: &str, t: &Option<String>, regex: &Option<String>) -> (r: Result<String, String>)
    ensures
        match query(text::opt_text(*t), text::opt_text(*regex)) {
            None => r matches Err(e) && e@ == "pass text or regex"@,
            Some((source, fold)) => match pattern::refusal(source, fold) {
                None => {
                    let lines = text::text_lines(snap@);
                    r matches Ok(s) && s@ == snapshot::found_text(lines, matching(lines, source, fold))
                },
                Some(m) => r matches Err(e) && e@ == (if fold {
                    m
                } else {
                    "invalid regex: "@ + m
                }),
            },
        },
{
    match regex {
        Some(x) => match Pattern::new(x) {
            Ok(p) => Ok(find_matches(snap, &p)),
            Err(e) => Err(text::concat("invalid regex: ", &e)),
        },
        None => match t {
            Some(s) => match Pattern::containing(s) {
                Ok(p) => Ok(find_matches(snap, &p)),
                Err(e) => Err(e),
            },
            None => Err("pass text or regex".to_string()),
        },
    }
}

/// The expression that waits for a text to appear, or to disappear.
pub fn wait_expression(t: &str, gone: bool, timeout: u64) -> (r: String)
    ensures
        r@ == "__bmcp.waitForText("@ + json::quoted(t@) + (if gone {
            ", true, "@
        } else {
            ", false, "@
        }) + text::dec(timeout as nat) + ")"@,
{
    let mut s = "__bmcp.waitForText(".to_string();
    s.append(&json::js(t));
    s.append(if gone { ", true, " } else { ", false, " });
    s.append(&text::decimal(timeout as u128));
    s.append(")");
    s
}

/// The expressions that wait for one text to disappear and for another to appear, in this order.
pub open spec fn wait_plan(t: Option<Text>, gone: Option<Text>, timeout: nat) -> Seq<Text> {
    (match gone {
        Some(x) => seq!["__bmcp.waitForText("@ + json::quoted(x) + ", true, "@ + text::dec(timeout) + ")"@],
        None => Seq::empty(),
    }) + (match t {
        Some(x) => seq!["__bmcp.waitForText("@ + json::quoted(x) + ", false, "@ + text::dec(timeout) + ")"@],
        None => Seq::empty(),
    })
}

/// The expressions of a wait.
pub fn wait_expressions(t: &Option<String>, gone: &Option<String>, timeout: u64) -> (r: Vec<String>)
    ensures
        text::views(r@) == wait_plan(text::opt_text(*t), text::opt_text(*gone), timeout as nat),
{
    let mut out: Vec<String> = Vec::new();
    match gone {
        Some(x) => {
            out.push(wait_expression(x, true, timeout));
        },
        None => {},
    }
    match t {
        Some(x) => {
            out.push(wait_expression(x, false, timeout));
        },
        None => {},
    }
    proof {
        assert(text::views(out@) =~= wait_plan(text::opt_text(*t), text::opt_text(*gone), timeout as nat));
    }
    out
}

impl Browser {
    /// How long something is waited for: what the call asks for, else as long as a navigation, but
    /// at most half a minute.
    pub fn wait_timeout(&self) -> (r: u64)
        ensures
            r == match self@.timeout {
                Some(t) => t as nat,
                None => if self@.cfg.timeout_navigation < 30000 {
                    self@.cfg.timeout_navigation
                } else {
                    30000
                },
            },
    {
        match self.overrides.timeout {
            Some(t) => t,
            None => if self.cfg.timeout_navigation < 30000 {
                self.cfg.timeout_navigation
            } else {
                30000
            },
        }
    }
}

/// What is said after a wait. `time` is the number of seconds as it is written.
pub fn wait_for(time: &Option<String>, t: &Option<String>, gone: &Option<String>) -> (r: Result<String, String>)
    ensures
        match (text::opt_text(*time), text::opt_text(*t), text::opt_text(*gone)) {
            (_, Some(x), _) => r matches Ok(s) && s@ == "Text \""@ + x + "\" appeared"@,
            (_, None, Some(x)) => r matches Ok(s) && s@ == "Text \""@ + x + "\" disappeared"@,
            (Some(n), None, None) => r matches Ok(s) && s@ == "Waited "@ + n + "s"@,
            (None, None, None) => r matches Err(e) && e@ == "pass time, text or textGone"@,
        },
{
    match t {
        Some(x) => {
            let mut s = "Text \"".to_string();
            s.append(x);
            s.append("\" appeared");
            return Ok(s);
        },
        None => {},
    }
    match gone {
        Some(x) => {
            let mut s = "Text \"".to_string();
            s.append(x);
            s.append("\" disappeared");
            return Ok(s);
        },
        None => {},
    }
    match time {
        Some(n) => {
            let mut s = "Waited ".to_string();
            s.append(n);
            s.append("s");
            Ok(s)
        },
        None => Err("pass time, text or textGone".to_string()),
    }
}

// ---------------------------------------------------------------------- what actions do

/// An element is waited for as long as the call says, or the settings where it does not.
pub proof fn law_elements_are_waited_for(b: BrowserV, enabled: bool, hit_test: bool)
    ensures
        b.timeout is Some ==> prepare_options(b, enabled, hit_test) == JsonV::Obj(
            seq![
                ("timeout"@, JsonV::Int(b.timeout->0 as int)),
                ("enabled"@, JsonV::Bool(enabled)),
                ("hitTest"@, JsonV::Bool(hit_test)),
            ],
        ),
        b.timeout is None ==> prepare_options(b, enabled, hit_test) == JsonV::Obj(
            seq![
                ("timeout"@, JsonV::Int(b.cfg.timeout_action as int)),
                ("enabled"@, JsonV::Bool(enabled)),
                ("hitTest"@, JsonV::Bool(hit_test)),
            ],
        ),
{
    let o = prepare_options(b, enabled, hit_test)->Obj_0;
    assert(o =~= seq![o[0], ("enabled"@, JsonV::Bool(enabled)), ("hitTest"@, JsonV::Bool(hit_test))]);
}

/// A drop enters a point, moves over it and is dropped there, in this order, with the same data.
pub proof fn law_drops_enter_first(session: Text, x: JsonV, y: JsonV, data: JsonV, i: int)
    requires
        0 <= i < 3,
    ensures
        drop_events(session, x, y, data).len() == 3,
        drop_events(session, x, y, data)[i] == cdp::to_session(
            session,
            "Input.dispatchDragEvent"@,
            JsonV::obj().with(
                "type"@,
                JsonV::Str(
                    if i == 0 {
                        "dragEnter"@
                    } else if i == 1 {
                        "dragOver"@
                    } else {
                        "drop"@
                    },
                ),
            ).with("x"@, x).with("y"@, y).with("data"@, data),
        ),
{
}

/// Every member of what is dropped becomes an item of its kind, in order: a string as it is, anything else
/// as JSON.
pub proof fn law_drops_carry_their_data(data: JsonV, i: int)
    requires
        0 <= i < data.fields().len(),
    ensures
        drop_items(data).elements().len() == data.fields().len(),
        drop_items(data).elements()[i] == JsonV::obj().with("mimeType"@, JsonV::Str(data.fields()[i].0)).with(
            "data"@,
            JsonV::Str(
                if data.fields()[i].1 is Str {
                    data.fields()[i].1.text()
                } else {
                    json::json_text(data.fields()[i].1)
                },
            ),
        ),
{
}

/// Numbers stay, and anything else is 0.
pub proof fn law_numbers_or_zero(j: JsonV)
    ensures
        j is Int || j is Float ==> number_or_zero(j) == j,
        !(j is Int) && !(j is Float) ==> number_or_zero(j) == JsonV::Float("0.0"@),
{
}

/// The first path that is no file is told; where all are files, none is.
pub proof fn law_missing_files_are_told(paths: Seq<Text>, found: Seq<bool>, i: int)
    ensures
        (forall|k: int| 0 <= k < found.len() ==> #[trigger] found[k]) ==> first_missing(paths, found) is None,
        0 <= i < found.len() && !found[i] && (forall|k: int| 0 <= k < i ==> #[trigger] found[k]) ==> first_missing(
            paths,
            found,
        ) == Some(paths[i]),
{
    let f = |b: bool| !b;
    text::lemma_first_where(found, f);
    match text::first_where(found, f) {
        Some(k) => {
            assert(f(found[k]));
            if 0 <= i < k {
                assert(!f(found[i]));
            }
        },
        None => {
            if 0 <= i < found.len() {
                assert(!f(found[i]));
            }
        },
    }
}

/// Files go to the element of the open file chooser; without one, or with several files where it takes one,
/// the upload is refused, and without files the chooser is dismissed.
pub proof fn law_uploads(node: int, mode: Text, paths: nat)
    ensures
        upload_outcome(None, paths) == Err::<Option<int>, Text>(
            "no file chooser is open; click the file input (or the button that opens it) first"@,
        ),
        paths == 0 ==> upload_outcome(Some((node, mode)), paths) == Ok::<Option<int>, Text>(None),
        paths == 1 || (paths > 1 && mode != "selectSingle"@) ==> upload_outcome(Some((node, mode)), paths) == Ok::<
            Option<int>,
            Text,
        >(Some(node)),
        paths > 1 && mode == "selectSingle"@ ==> upload_outcome(Some((node, mode)), paths) == Err::<Option<int>, Text>(
            "this file input accepts a single file"@,
        ),
{
}

/// A chooser that was dealt with is open no more, and nothing else changes.
pub proof fn law_choosers_are_dealt_with_once(st: StateV, session: Text, k: int)
    requires
        0 <= k < st.tabs.len(),
    ensures
        ({
            let a = without_chooser(st, session);
            &&& a == (StateV { tabs: a.tabs, ..st })
            &&& a.tabs.len() == st.tabs.len()
            &&& a.tabs[k] == if st.tab_index(session) == Some(k) {
                TabV { file_chooser: None, ..st.tabs[k] }
            } else {
                st.tabs[k]
            }
        }),
{
    state::lemma_session_index(st.tabs, session);
}

/// A function is called, on the page or on its element, and an expression is evaluated. Code is a function
/// where it begins as one and is not called already.
pub proof fn law_code_is_called_or_evaluated(f: Text)
    ensures
        page_expression(f, true) == "("@ + f + ")()"@,
        page_expression(f, false) == f,
        element_function(f, true) == f,
        element_function(f, false) == "function() { return ("@ + f + "); }"@,
        text::text_ends(f, ")()"@) ==> !is_function_text(f),
        !text::text_ends(f, ")()"@) ==> is_function_text(f) == pattern::regex_finds(
            "^(async\\s+)?(function\\b|\\([^()]*\\)\\s*=>|[A-Za-z_$][\\w$]*\\s*=>)"@,
            false,
            f,
        ),
{
}

/// What code gave: its value, or what a value that is none is called; or what it threw, by its description
/// or its text.
pub proof fn law_results_of_code(res: JsonV)
    ensures
        ({
            let ex = res.at("exceptionDetails"@);
            let r = res.at("result"@);
            let threw = res.get("exceptionDetails"@) is Some;
            &&& threw && ex.at("exception"@).at("description"@) is Str ==> evaluated(res) == Err::<JsonV, Text>(
                ex.at("exception"@).at("description"@).text(),
            )
            &&& threw && !(ex.at("exception"@).at("description"@) is Str) ==> evaluated(res) == Err::<JsonV, Text>(
                ex.at("text"@).text_or("exception"@),
            )
            &&& !threw && r.get("value"@) is Some ==> evaluated(res) == Ok::<JsonV, Text>(r.at("value"@))
            &&& !threw && r.get("value"@) is None && r.at("unserializableValue"@) is Str ==> evaluated(res) == Ok::<
                JsonV,
                Text,
            >(JsonV::Str(r.at("unserializableValue"@).text()))
            &&& !threw && r.get("value"@) is None && !(r.at("unserializableValue"@) is Str) ==> evaluated(res) == Ok::<
                JsonV,
                Text,
            >(JsonV::Str(r.at("description"@).text_or("undefined"@)))
        }),
{
}

/// A search with an expression tells letter case apart; one with a text looks for that text, in any letter
/// case; of both, the expression counts.
pub proof fn law_searches(t: Text, regex: Text, other: Option<Text>, lines: Seq<Text>, fold: bool, i: int)
    ensures
        query(other, Some(regex)) == Some((regex, false)),
        query(Some(t), None) == Some((pattern::literals(t), true)),
        query(None, None) is None,
        matching(lines, regex, fold).len() == lines.len(),
        0 <= i < lines.len() ==> matching(lines, regex, fold)[i] == pattern::regex_finds(regex, fold, lines[i]),
{
}

/// A wait for texts first waits for one to disappear and then for another to appear, each as long as the
/// timeout says, and for nothing that is not asked for.
pub proof fn law_waits_for_texts(t: Text, gone: Text, timeout: nat)
    ensures
        wait_plan(None, None, timeout).len() == 0,
        wait_plan(Some(t), None, timeout) == seq![
            "__bmcp.waitForText("@ + json::quoted(t) + ", false, "@ + text::dec(timeout) + ")"@,
        ],
        wait_plan(None, Some(gone), timeout) == seq![
            "__bmcp.waitForText("@ + json::quoted(gone) + ", true, "@ + text::dec(timeout) + ")"@,
        ],
        wait_plan(Some(t), Some(gone), timeout) == wait_plan(None, Some(gone), timeout) + wait_plan(
            Some(t),
            None,
            timeout,
        ),
{
    assert(wait_plan(Some(t), None, timeout) =~= seq![
        "__bmcp.waitForText("@ + json::quoted(t) + ", false, "@ + text::dec(timeout) + ")"@,
    ]);
    assert(wait_plan(None, Some(gone), timeout) =~= seq![
        "__bmcp.waitForText("@ + json::quoted(gone) + ", true, "@ + text::dec(timeout) + ")"@,
    ]);
    assert(wait_plan(Some(t), Some(gone), timeout) =~= wait_plan(None, Some(gone), timeout) + wait_plan(
        Some(t),
        None,
        timeout,
    ));
}

/// A dialog is accepted or dismissed as the call says. A text that the call gives goes along; an accepted prompt
/// without one keeps the text that it suggests; and nothing else has a text.
pub proof fn law_dialogs_are_answered(d: DialogV, accept: bool, t: Text)
    ensures
        dialog_params(d, accept, Some(t)) == JsonV::Obj(
            seq![("accept"@, JsonV::Bool(accept)), ("promptText"@, JsonV::Str(t))],
        ),
        d.kind == "prompt"@ ==> dialog_params(d, true, None) == JsonV::Obj(
            seq![("accept"@, JsonV::Bool(true)), ("promptText"@, JsonV::Str(d.default_prompt))],
        ),
        d.kind != "prompt"@ ==> dialog_params(d, true, None) == JsonV::Obj(seq![("accept"@, JsonV::Bool(true))]),
        dialog_params(d, false, None) == JsonV::Obj(seq![("accept"@, JsonV::Bool(false))]),
{
    assert(dialog_params(d, accept, Some(t))->Obj_0 =~= seq![
        ("accept"@, JsonV::Bool(accept)),
        ("promptText"@, JsonV::Str(t)),
    ]);
    if d.kind == "prompt"@ {
        assert(dialog_params(d, true, None)->Obj_0 =~= seq![
            ("accept"@, JsonV::Bool(true)),
            ("promptText"@, JsonV::Str(d.default_prompt)),
        ]);
    } else {
        assert(dialog_params(d, true, None)->Obj_0 =~= seq![("accept"@, JsonV::Bool(true))]);
    }
    assert(dialog_params(d, false, None)->Obj_0 =~= seq![("accept"@, JsonV::Bool(false))]);
}

} // verus!
