//! What the events of a tab's session do to what is known of the tab.

use crate::cdp::Event;
use crate::cdp::EventV;
use crate::json;
use crate::json::Json;
use crate::json::JsonV;
use crate::state;
use crate::state::ConsoleMsg;
use crate::state::ConsoleMsgV;
use crate::state::Dialog;
use crate::state::DialogV;
use crate::state::Request;
use crate::state::RequestV;
use crate::state::Tab;
use crate::state::TabV;
use crate::state::DROP_REQUESTS;
use crate::state::MAX_REQUESTS;
use crate::text;
use crate::text::Text;
use vstd::prelude::*;

verus! {

/// The JavaScript world that the injected runtime lives in.
pub const WORLD: &'static str = "__bmcp";

// ---------------------------------------------------------------------- console messages

/// The level that a kind of console message counts as.
pub open spec fn console_level(t: Text) -> Text {
    if t == "error"@ || t == "assert"@ {
        "error"@
    } else if t == "warning"@ {
        "warning"@
    } else if t == "debug"@ || t == "verbose"@ {
        "debug"@
    } else {
        "info"@
    }
}

pub fn level_of_console(t: &str) -> (r: &'static str)
    ensures
        r@ == console_level(t@),
{
    if text::same(t, "error") || text::same(t, "assert") {
        "error"
    } else if text::same(t, "warning") {
        "warning"
    } else if text::same(t, "debug") || text::same(t, "verbose") {
        "debug"
    } else {
        "info"
    }
}

/// A property in the preview of an object.
pub open spec fn property_text(x: JsonV) -> Text {
    x.at("name"@).text() + ": "@ + x.at("value"@).text()
}

/// A property in the preview of an array: the value alone.
pub open spec fn item_text(s: Text) -> Text {
    match text::cut_at(s, ": "@) {
        Some((_, v)) => v,
        None => s,
    }
}

/// An object or an array by its preview.
pub open spec fn preview_text(p: JsonV) -> Text {
    let props = p.at("properties"@).elements().map_values(|x: JsonV| property_text(x));
    if p.at("subtype"@) == JsonV::Str("array"@) {
        "["@ + text::joined(props.map_values(|s: Text| item_text(s)), ", "@) + "]"@
    } else {
        "{"@ + text::joined(props, ", "@) + "}"@
    }
}

/// What the console shows of a value in the page.
pub open spec fn remote_text(arg: JsonV) -> Text {
    match arg.get("value"@) {
        Some(JsonV::Str(s)) => s,
        Some(v) => json::json_text(v),
        None => match arg.at("unserializableValue"@).as_text() {
            Some(u) => u,
            None => match arg.get("preview"@) {
                Some(p) => preview_text(p),
                None => arg.at("description"@).text_or("undefined"@),
            },
        },
    }
}

fn preview(p: &Json) -> (r: String)
    ensures
        r@ == preview_text(p@),
{
    let ghost list = p@.at("properties"@).elements();
    let ghost f = |x: JsonV| property_text(x);
    let ghost g = |s: Text| item_text(s);
    let array = p.at("subtype").is_str("array");
    let mut props: Vec<String> = Vec::new();
    match p.at("properties") {
        Json::Arr(v) => {
            proof {
                json::lemma_arr(*v);
            }
            let mut i: usize = 0;
            while i < v.len()
                invariant
                    i <= v@.len(),
                    props@.len() == i,
                    forall|k: int|
                        0 <= k < i ==> (#[trigger] props@[k])@ == if array {
                            item_text(property_text(v@[k]@))
                        } else {
                            property_text(v@[k]@)
                        },
                decreases v@.len() - i,
            {
                let mut s = v[i].at("name").text();
                s.append(": ");
                s.append(&v[i].at("value").text());
                if array {
                    s = match text::split_once(&s, ": ") {
                        Some((_, x)) => x,
                        None => s,
                    };
                }
                props.push(s);
                i = i + 1;
            }
            proof {
                assert(list == text::views(v@));
            }
        },
        _ => {},
    }
    proof {
        if array {
            assert(text::views(props@) =~= list.map_values(f).map_values(g));
        } else {
            assert(text::views(props@) =~= list.map_values(f));
        }
    }
    let mut s = if array {
        "[".to_string()
    } else {
        "{".to_string()
    };
    s.append(&text::join(&props, ", "));
    s.append(if array { "]" } else { "}" });
    s
}

/// What the console shows of a value in the page.
pub fn format_remote(arg: &Json) -> (r: String)
    ensures
        r@ == remote_text(arg@),
{
    match arg.get("value") {
        Some(v) => match v {
            Json::Str(s) => s.clone(),
            other => other.to_text(),
        },
        None => match arg.at("unserializableValue").as_text() {
            Some(u) => u,
            None => match arg.get("preview") {
                Some(p) => preview(p),
                None => arg.at("description").text_or("undefined"),
            },
        },
    }
}

/// The arguments of a console call, with blanks between.
pub open spec fn call_text(args: JsonV) -> Text {
    text::joined(args.elements().map_values(|a: JsonV| remote_text(a)), " "@)
}

fn format_call(args: &Json) -> (r: String)
    ensures
        r@ == call_text(args@),
{
    let mut parts: Vec<String> = Vec::new();
    let ghost f = |a: JsonV| remote_text(a);
    match args {
        Json::Arr(v) => {
            proof {
                json::lemma_arr(*v);
            }
            let mut i: usize = 0;
            while i < v.len()
                invariant
                    i <= v@.len(),
                    parts@.len() == i,
                    forall|k: int| 0 <= k < i ==> (#[trigger] parts@[k])@ == remote_text(v@[k]@),
                decreases v@.len() - i,
            {
                parts.push(format_remote(&v[i]));
                i = i + 1;
            }
            proof {
                assert(args@.elements() == text::views(v@));
            }
        },
        _ => {},
    }
    proof {
        assert(text::views(parts@) =~= args@.elements().map_values(f));
    }
    text::join(&parts, " ")
}

/// The number behind `n`; the largest is followed by the smallest.
pub open spec fn line_after(n: int) -> int {
    if n == i64::MAX {
        i64::MIN as int
    } else {
        n + 1
    }
}

/// Where a console call stands in the page's code.
pub open spec fn call_location(p: JsonV) -> Text {
    let frame = p.at("stackTrace"@).at("callFrames"@).nth(0);
    let url = frame.at("url"@).text();
    if url.len() == 0 {
        Seq::empty()
    } else {
        url + ":"@ + text::dec_int(
            line_after(
                match frame.at("lineNumber"@).as_i64() {
                    Some(n) => n,
                    None => 0,
                },
            ),
        )
    }
}

fn locate_call(p: &Json) -> (r: String)
    ensures
        r@ == call_location(p@),
{
    let frame = p.at("stackTrace").at("callFrames").nth(0);
    let mut url = frame.at("url").text();
    if url.as_str().is_empty() {
        return String::new();
    }
    let n: i64 = match frame.at("lineNumber").as_i64() {
        Some(n) => n,
        None => 0,
    };
    let line: i64 = if n == i64::MAX {
        i64::MIN
    } else {
        n + 1
    };
    url.append(":");
    url.append(&text::decimal_int(line as i128));
    url
}

// ---------------------------------------------------------------------- transitions

/// `x` put behind the others where it is not among them.
pub open spec fn text_once(s: Seq<Text>, x: Text) -> Seq<Text> {
    if s.contains(x) {
        s
    } else {
        s.push(x)
    }
}

/// The texts without `x`.
pub open spec fn texts_without(s: Seq<Text>, x: Text) -> Seq<Text>
    decreases s.len(),
{
    if s.len() == 0 {
        Seq::empty()
    } else if s.last() == x {
        texts_without(s.drop_last(), x)
    } else {
        texts_without(s.drop_last(), x).push(s.last())
    }
}

/// A request under a response: what `Network.responseReceived` and redirects tell of it.
pub open spec fn answered(r: RequestV, resp: JsonV) -> RequestV {
    RequestV {
        status: resp.at("status"@).as_i64(),
        status_text: resp.at("statusText"@).text(),
        response_headers: resp.at("headers"@),
        ..r
    }
}

/// A request that is about to be sent.
pub open spec fn request_of(p: JsonV) -> RequestV {
    let req = p.at("request"@);
    RequestV {
        id: p.at("requestId"@).text(),
        method: req.at("method"@).text_or("GET"@),
        url: req.at("url"@).text() + req.at("urlFragment"@).text(),
        resource_type: p.at("type"@).text_or("Other"@),
        request_headers: req.at("headers"@),
        post_data: req.at("postData"@).as_text(),
        status: None,
        status_text: Seq::empty(),
        response_headers: JsonV::Null,
        mime: Seq::empty(),
        failure: None,
        finished: false,
        from_route: false,
    }
}

/// The number of navigations after one more.
pub open spec fn next_nav(n: u64) -> u64 {
    if n == u64::MAX {
        0
    } else {
        (n + 1) as u64
    }
}

impl TabV {
    /// The event speaks of the main frame.
    pub open spec fn in_main(self, p: JsonV) -> bool {
        p.at("frameId"@) == JsonV::Str(self.main_frame)
    }

    /// The main frame shows another document.
    pub open spec fn navigated(self, f: JsonV) -> TabV {
        TabV {
            main_frame: f.at("id"@).text(),
            url: f.at("url"@).text() + f.at("urlFragment"@).text(),
            loader_id: f.at("loaderId"@).text(),
            console_nav_start: self.console.len(),
            console_reported: self.console.len(),
            last_snapshot: None,
            ..self
        }
    }

    /// A console message more.
    pub open spec fn logged(self, level: Text, text: Text, location: Text) -> TabV {
        TabV { console: self.console.push(ConsoleMsgV { level, text, location }), ..self }
    }

    /// The newest request with an id changed.
    pub open spec fn with_request(self, i: int, r: RequestV) -> TabV {
        TabV { requests: self.requests.update(i, r), ..self }
    }

    /// Where a request is redirected, its log entry so far ends with the redirect.
    pub open spec fn redirected(self, p: JsonV) -> TabV {
        match (p.get("redirectResponse"@), state::request_index(self.requests, p.at("requestId"@).text())) {
            (Some(resp), Some(i)) => self.with_request(
                i,
                RequestV { finished: true, ..answered(self.requests[i], resp) },
            ),
            _ => self,
        }
    }

    /// The document request of a navigation begins the requests of the new page.
    pub open spec fn page_begun(self, p: JsonV) -> TabV {
        if p.at("type"@) == JsonV::Str("Document"@) && self.in_main(p) && p.get("redirectResponse"@) is None {
            TabV { requests_nav_start: self.requests.len(), ..self }
        } else {
            self
        }
    }

    /// The oldest requests leave a log that is full.
    pub open spec fn bounded(self) -> TabV {
        if self.requests.len() > MAX_REQUESTS {
            TabV {
                requests: self.requests.skip(DROP_REQUESTS as int),
                requests_nav_start: if self.requests_nav_start > DROP_REQUESTS {
                    (self.requests_nav_start - DROP_REQUESTS) as nat
                } else {
                    0
                },
                ..self
            }
        } else {
            self
        }
    }

    /// A request is about to be sent.
    pub open spec fn requested(self, p: JsonV) -> TabV {
        let t = self.redirected(p).page_begun(p);
        TabV {
            inflight: text_once(t.inflight, p.at("requestId"@).text()),
            requests: t.requests.push(request_of(p)),
            ..t
        }.bounded()
    }

    /// A response has arrived.
    pub open spec fn responded(self, p: JsonV) -> TabV {
        match p.at("requestId"@) {
            JsonV::Str(id) => match state::request_index(self.requests, id) {
                Some(i) => self.with_request(
                    i,
                    RequestV {
                        mime: p.at("response"@).at("mimeType"@).text(),
                        ..answered(self.requests[i], p.at("response"@))
                    },
                ),
                None => self,
            },
            _ => self,
        }
    }

    /// A request is over, and how it failed if it did.
    pub open spec fn finished(self, p: JsonV, failed: bool) -> TabV {
        let id = p.at("requestId"@).text();
        let t = TabV { inflight: texts_without(self.inflight, id), ..self };
        match state::request_index(t.requests, id) {
            Some(i) => t.with_request(
                i,
                RequestV {
                    finished: true,
                    failure: if failed {
                        Some(p.at("errorText"@).text_or("failed"@))
                    } else {
                        t.requests[i].failure
                    },
                    ..t.requests[i]
                },
            ),
            None => t,
        }
    }

    /// The tab after an event of its session.
    pub open spec fn after(self, ev: EventV) -> TabV {
        let m = ev.method;
        let p = ev.params;
        if m == "Page.frameNavigated"@ {
            if p.at("frame"@).get("parentId"@) is None {
                self.navigated(p.at("frame"@))
            } else {
                self
            }
        } else if m == "Page.navigatedWithinDocument"@ {
            if self.in_main(p) {
                TabV { url: p.at("url"@).text(), ..self }
            } else {
                self
            }
        } else if m == "Page.frameRequestedNavigation"@ || m == "Page.frameStartedNavigating"@ {
            if self.in_main(p) {
                TabV { nav_seq: next_nav(self.nav_seq), ..self }
            } else {
                self
            }
        } else if m == "Page.frameStartedLoading"@ {
            if self.in_main(p) || self.main_frame.len() == 0 {
                TabV { nav_seq: next_nav(self.nav_seq), loading: true, ..self }
            } else {
                self
            }
        } else if m == "Page.frameStoppedLoading"@ {
            if self.in_main(p) {
                TabV { loading: false, ..self }
            } else {
                self
            }
        } else if m == "Page.lifecycleEvent"@ {
            if self.in_main(p) && p.at("name"@) == JsonV::Str("load"@) {
                TabV { loading: false, ..self }
            } else {
                self
            }
        } else if m == "Page.javascriptDialogOpening"@ {
            TabV {
                dialog: Some(
                    DialogV {
                        kind: p.at("type"@).text(),
                        message: p.at("message"@).text(),
                        default_prompt: p.at("defaultPrompt"@).text(),
                    },
                ),
                ..self
            }
        } else if m == "Page.javascriptDialogClosed"@ {
            TabV { dialog: None, ..self }
        } else if m == "Page.fileChooserOpened"@ {
            let node = match p.at("backendNodeId"@).as_i64() {
                Some(n) => n,
                None => 0,
            };
            TabV { file_chooser: Some((node, p.at("mode"@).text_or("selectSingle"@))), ..self }
        } else if m == "Runtime.executionContextCreated"@ {
            let c = p.at("context"@);
            if c.at("name"@) == JsonV::Str(WORLD@) && c.at("auxData"@).at("frameId"@) == JsonV::Str(self.main_frame) {
                TabV { world_ctx: c.at("id"@).as_i64(), ..self }
            } else {
                self
            }
        } else if m == "Runtime.executionContextDestroyed"@ {
            if self.world_ctx is Some && p.at("executionContextId"@).as_i64() == self.world_ctx {
                TabV { world_ctx: None, ..self }
            } else {
                self
            }
        } else if m == "Runtime.executionContextsCleared"@ {
            TabV { world_ctx: None, ..self }
        } else if m == "Runtime.consoleAPICalled"@ {
            self.logged(console_level(p.at("type"@).text_or("log"@)), call_text(p.at("args"@)), call_location(p))
        } else if m == "Runtime.exceptionThrown"@ {
            let d = p.at("exceptionDetails"@);
            self.logged(
                "error"@,
                match d.at("exception"@).at("description"@).as_text() {
                    Some(t) => t,
                    None => d.at("text"@).text_or("Uncaught exception"@),
                },
                d.at("url"@).text(),
            )
        } else if m == "Log.entryAdded"@ {
            let e = p.at("entry"@);
            self.logged(console_level(e.at("level"@).text_or("info"@)), e.at("text"@).text(), e.at("url"@).text())
        } else if m == "Network.requestWillBeSent"@ {
            self.requested(p)
        } else if m == "Network.responseReceived"@ {
            self.responded(p)
        } else if m == "Network.loadingFinished"@ {
            self.finished(p, false)
        } else if m == "Network.loadingFailed"@ {
            self.finished(p, true)
        } else {
            self
        }
    }
}

// ---------------------------------------------------------------------- the same, executed

fn answer(r: &mut Request, resp: &Json)
    ensures
        final(r)@ == answered(old(r)@, resp@),
{
    r.status = resp.at("status").as_i64();
    r.status_text = resp.at("statusText").text();
    r.response_headers = resp.at("headers").clone();
}

fn answer_redirect(r: &mut Request, resp: &Json)
    ensures
        final(r)@ == (RequestV { finished: true, ..answered(old(r)@, resp@) }),
{
    answer(r, resp);
    r.finished = true;
}

fn answer_response(r: &mut Request, resp: &Json)
    ensures
        final(r)@ == (RequestV { mime: resp@.at("mimeType"@).text(), ..answered(old(r)@, resp@) }),
{
    answer(r, resp);
    r.mime = resp.at("mimeType").text();
}

fn finish_request(r: &mut Request, failure: Option<String>)
    ensures
        final(r)@ == (RequestV {
            finished: true,
            failure: if failure is Some {
                text::opt_text(failure)
            } else {
                old(r)@.failure
            },
            ..old(r)@
        }),
{
    r.finished = true;
    match failure {
        Some(f) => {
            r.failure = Some(f);
        },
        None => {},
    }
}

fn new_request(p: &Json) -> (r: Request)
    ensures
        r@ == request_of(p@),
{
    let req = p.at("request");
    let mut url = req.at("url").text();
    url.append(&req.at("urlFragment").text());
    Request {
        id: p.at("requestId").text(),
        method: req.at("method").text_or("GET"),
        url,
        resource_type: p.at("type").text_or("Other"),
        request_headers: req.at("headers").clone(),
        post_data: req.at("postData").as_text(),
        status: None,
        status_text: String::new(),
        response_headers: Json::Null,
        mime: String::new(),
        failure: None,
        finished: false,
        from_route: false,
    }
}

pub proof fn lemma_texts_without(s: Seq<Text>, x: Text)
    ensures
        forall|y: Text| #[trigger] texts_without(s, x).contains(y) ==> s.contains(y) && y != x,
        s.no_duplicates() ==> texts_without(s, x).no_duplicates(),
    decreases s.len(),
{
    if s.len() > 0 {
        let d = s.drop_last();
        lemma_texts_without(d, x);
        let w = texts_without(d, x);
        assert forall|y: Text| #[trigger] d.contains(y) implies s.contains(y) by {
            let k = choose|k: int| 0 <= k < d.len() && d[k] == y;
            assert(s[k] == y);
        }
        if s.last() != x {
            assert(s[s.len() - 1] == s.last());
            let q = w.push(s.last());
            assert forall|y: Text| #[trigger] q.contains(y) implies s.contains(y) && y != x by {
                let k = choose|k: int| 0 <= k < q.len() && q[k] == y;
                if k < w.len() {
                    assert(w[k] == y);
                    assert(w.contains(y));
                }
            }
            if s.no_duplicates() && w.contains(s.last()) {
                let k = choose|k: int| 0 <= k < d.len() && d[k] == s.last();
                assert(s[k] == s[s.len() - 1]);
            }
        }
    }
}

proof fn lemma_text_once(s: Seq<Text>, x: Text)
    requires
        s.no_duplicates(),
    ensures
        text_once(s, x).no_duplicates(),
{
    if !s.contains(x) {
        let p = s.push(x);
        assert forall|i: int, j: int| 0 <= i < p.len() && 0 <= j < p.len() && i != j implies p[i] != p[j] by {
            if i < s.len() {
                assert(s.contains(s[i]));
            }
            if j < s.len() {
                assert(s.contains(s[j]));
            }
        }
    }
}

fn without(v: &Vec<String>, x: &str) -> (r: Vec<String>)
    ensures
        text::views(r@) == texts_without(text::views(v@), x@),
{
    broadcast use text::group_views;
    let ghost all = text::views(v@);
    let mut out: Vec<String> = Vec::new();
    let mut i: usize = 0;
    proof {
        assert(all.take(0) =~= Seq::<Text>::empty());
    }
    while i < v.len()
        invariant
            i <= v@.len(),
            all == text::views(v@),
            text::views(out@) == texts_without(all.take(i as int), x@),
        decreases v@.len() - i,
    {
        broadcast use text::group_views;
        proof {
            assert(all.take(i + 1).drop_last() =~= all.take(i as int));
            assert(all.take(i + 1).last() == v@[i as int]@);
        }
        if !text::same(&v[i], x) {
            out.push(v[i].clone());
        }
        i = i + 1;
    }
    proof {
        assert(all.take(all.len() as int) =~= all);
    }
    out
}

impl Tab {
    fn in_main(&self, p: &Json) -> (r: bool)
        ensures
            r == self@.in_main(p@),
    {
        p.at("frameId").is_str(&self.main_frame)
    }

    fn navigated(&mut self, f: &Json)
        ensures
            final(self)@ == old(self)@.navigated(f@),
    {
        let mut url = f.at("url").text();
        url.append(&f.at("urlFragment").text());
        self.main_frame = f.at("id").text();
        self.url = url;
        self.loader_id = f.at("loaderId").text();
        self.console_nav_start = self.console.len();
        self.console_reported = self.console.len();
        self.last_snapshot = None;
    }

    fn count_nav(&mut self)
        ensures
            final(self)@ == (TabV { nav_seq: next_nav(old(self)@.nav_seq), ..old(self)@ }),
    {
        self.nav_seq = if self.nav_seq == u64::MAX {
            0
        } else {
            self.nav_seq + 1
        };
    }

    fn log(&mut self, level: &'static str, text: String, location: String)
        ensures
            final(self)@ == old(self)@.logged(level@, text@, location@),
    {
        broadcast use text::group_views;
        self.console.push(ConsoleMsg { level, text, location });
    }

    fn requested(&mut self, p: &Json)
        requires
            old(self)@.wf(),
        ensures
            final(self)@ == old(self)@.requested(p@),
            final(self)@.wf(),
    {
        broadcast use text::group_views;
        let id = p.at("requestId").text();
        let ghost start = self@;
        match p.get("redirectResponse") {
            Some(resp) => match state::index_of(&self.requests, &id) {
                Some(i) => {
                    answer_redirect(&mut self.requests[i], resp);
                },
                None => {},
            },
            None => {},
        }
        proof {
            assert(self@ == start.redirected(p@));
        }
        if p.at("type").is_str("Document") && self.in_main(p) && p.get("redirectResponse").is_none() {
            self.requests_nav_start = self.requests.len();
        }
        let ghost t = self@;
        proof {
            assert(t == start.redirected(p@).page_begun(p@));
            assert(t.wf());
            lemma_text_once(t.inflight, id@);
        }
        if !text::one_of(&id, &self.inflight) {
            self.inflight.push(id.clone());
        }
        self.requests.push(new_request(p));
        let ghost full = self@;
        proof {
            assert(full == (TabV {
                inflight: text_once(t.inflight, id@),
                requests: t.requests.push(request_of(p@)),
                ..t
            }));
        }
        if self.requests.len() > MAX_REQUESTS {
            self.requests = self.requests.split_off(DROP_REQUESTS);
            proof {
                assert(text::views(self.requests@) =~= full.requests.skip(DROP_REQUESTS as int));
            }
            self.requests_nav_start = if self.requests_nav_start > DROP_REQUESTS {
                self.requests_nav_start - DROP_REQUESTS
            } else {
                0
            };
        }
    }

    fn responded(&mut self, p: &Json)
        requires
            old(self)@.wf(),
        ensures
            final(self)@ == old(self)@.responded(p@),
            final(self)@.wf(),
    {
        broadcast use text::group_views;
        match p.at("requestId").as_str() {
            Some(id) => match state::index_of(&self.requests, id) {
                Some(i) => {
                    answer_response(&mut self.requests[i], p.at("response"));
                },
                None => {},
            },
            None => {},
        }
    }

    fn finished(&mut self, p: &Json, failed: bool)
        requires
            old(self)@.wf(),
        ensures
            final(self)@ == old(self)@.finished(p@, failed),
            final(self)@.wf(),
    {
        broadcast use text::group_views;
        let id = p.at("requestId").text();
        proof {
            lemma_texts_without(self@.inflight, id@);
        }
        self.inflight = without(&self.inflight, &id);
        match state::index_of(&self.requests, &id) {
            Some(i) => {
                let failure = if failed {
                    Some(p.at("errorText").text_or("failed"))
                } else {
                    None
                };
                finish_request(&mut self.requests[i], failure);
            },
            None => {},
        }
    }
}

/// What an event of a tab's session does to the tab.
pub fn on_page_event(ev: &Event, tab: &mut Tab)
    requires
        old(tab)@.wf(),
    ensures
        final(tab)@ == old(tab)@.after(ev@),
        final(tab)@.wf(),
{
    let p = &ev.params;
    let m = ev.method.as_str();
    if text::same(m, "Page.frameNavigated") {
        if p.at("frame").get("parentId").is_none() {
            tab.navigated(p.at("frame"));
        }
    } else if text::same(m, "Page.navigatedWithinDocument") {
        if tab.in_main(p) {
            tab.url = p.at("url").text();
        }
    } else if text::same(m, "Page.frameRequestedNavigation") || text::same(m, "Page.frameStartedNavigating") {
        if tab.in_main(p) {
            tab.count_nav();
        }
    } else if text::same(m, "Page.frameStartedLoading") {
        if tab.in_main(p) || tab.main_frame.as_str().is_empty() {
            tab.count_nav();
            tab.loading = true;
        }
    } else if text::same(m, "Page.frameStoppedLoading") {
        if tab.in_main(p) {
            tab.loading = false;
        }
    } else if text::same(m, "Page.lifecycleEvent") {
        if tab.in_main(p) && p.at("name").is_str("load") {
            tab.loading = false;
        }
    } else if text::same(m, "Page.javascriptDialogOpening") {
        tab.dialog = Some(
            Dialog {
                kind: p.at("type").text(),
                message: p.at("message").text(),
                default_prompt: p.at("defaultPrompt").text(),
            },
        );
    } else if text::same(m, "Page.javascriptDialogClosed") {
        tab.dialog = None;
    } else if text::same(m, "Page.fileChooserOpened") {
        let node: i64 = match p.at("backendNodeId").as_i64() {
            Some(n) => n,
            None => 0,
        };
        tab.file_chooser = Some((node, p.at("mode").text_or("selectSingle")));
    } else if text::same(m, "Runtime.executionContextCreated") {
        let c = p.at("context");
        if c.at("name").is_str(WORLD) && c.at("auxData").at("frameId").is_str(&tab.main_frame) {
            tab.world_ctx = c.at("id").as_i64();
        }
    } else if text::same(m, "Runtime.executionContextDestroyed") {
        let gone = match (p.at("executionContextId").as_i64(), tab.world_ctx) {
            (Some(a), Some(b)) => a == b,
            _ => false,
        };
        if gone {
            tab.world_ctx = None;
        }
    } else if text::same(m, "Runtime.executionContextsCleared") {
        tab.world_ctx = None;
    } else if text::same(m, "Runtime.consoleAPICalled") {
        let level = level_of_console(&p.at("type").text_or("log"));
        tab.log(level, format_call(p.at("args")), locate_call(p));
    } else if text::same(m, "Runtime.exceptionThrown") {
        let d = p.at("exceptionDetails");
        let t = match d.at("exception").at("description").as_text() {
            Some(t) => t,
            None => d.at("text").text_or("Uncaught exception"),
        };
        tab.log("error", t, d.at("url").text());
    } else if text::same(m, "Log.entryAdded") {
        let e = p.at("entry");
        let level = level_of_console(&e.at("level").text_or("info"));
        tab.log(level, e.at("text").text(), e.at("url").text());
    } else if text::same(m, "Network.requestWillBeSent") {
        tab.requested(p);
    } else if text::same(m, "Network.responseReceived") {
        tab.responded(p);
    } else if text::same(m, "Network.loadingFinished") {
        tab.finished(p, false);
    } else if text::same(m, "Network.loadingFailed") {
        tab.finished(p, true);
    }
}

// ---------------------------------------------------------------------- laws

/// No event puts a tab out of order.
pub proof fn law_tab_stays_in_order(t: TabV, ev: EventV)
    requires
        t.wf(),
    ensures
        t.after(ev).wf(),
{
    lemma_requested_wf(t, ev.params);
    lemma_responded_wf(t, ev.params);
    lemma_finished_wf(t, ev.params, true);
    lemma_finished_wf(t, ev.params, false);
    lemma_others_wf(t, ev);
}

proof fn lemma_requested_wf(t: TabV, p: JsonV)
    requires
        t.wf(),
    ensures
        t.requested(p).wf(),
{
    let id = p.at("requestId"@).text();
    lemma_text_once(t.inflight, id);
    state::lemma_request_index(t.requests, id);
    let a = t.redirected(p);
    assert(a.wf());
    let b = a.page_begun(p);
    assert(b.wf() && b.inflight == t.inflight);
}

proof fn lemma_responded_wf(t: TabV, p: JsonV)
    requires
        t.wf(),
    ensures
        t.responded(p).wf(),
{
    state::lemma_request_index(t.requests, p.at("requestId"@).text());
}

proof fn lemma_finished_wf(t: TabV, p: JsonV, failed: bool)
    requires
        t.wf(),
    ensures
        t.finished(p, failed).wf(),
{
    let id = p.at("requestId"@).text();
    lemma_texts_without(t.inflight, id);
    state::lemma_request_index(t.requests, id);
}

/// The requests and the marks in them stay as they are in all but the three network events.
proof fn lemma_others_wf(t: TabV, ev: EventV)
    requires
        t.wf(),
        t.requested(ev.params).wf(),
        t.responded(ev.params).wf(),
        t.finished(ev.params, true).wf(),
        t.finished(ev.params, false).wf(),
    ensures
        t.after(ev).wf(),
{
    let r = t.requested(ev.params);
    let s = t.responded(ev.params);
    let f = t.finished(ev.params, true);
    let g = t.finished(ev.params, false);
    let a = t.after(ev);
    if !(a == r || a == s || a == f || a == g) {
        assert(a.requests == t.requests);
        assert(a.inflight == t.inflight);
        assert(a.requests_nav_start == t.requests_nav_start);
        assert(a.console_nav_start <= a.console.len());
        assert(a.console_reported <= a.console.len());
    }
}

/// What a response tells reaches the request it is for: the one sent last under its id.
pub proof fn law_response_reaches_request(t: TabV, sent: JsonV, received: JsonV)
    requires
        t.wf(),
        received.at("requestId"@) == JsonV::Str(sent.at("requestId"@).text()),
    ensures
        ({
            let after = t.requested(sent).responded(received);
            let r = after.requests.last();
            &&& after.requests.len() > 0
            &&& r.id == sent.at("requestId"@).text()
            &&& r.url == request_of(sent).url
            &&& r.status == received.at("response"@).at("status"@).as_i64()
            &&& r.mime == received.at("response"@).at("mimeType"@).text()
        }),
{
    let a = t.requested(sent);
    assert(a.requests.last() == request_of(sent));
}

/// A request that is over is under way no more.
pub proof fn law_finished_is_not_inflight(t: TabV, p: JsonV, failed: bool)
    ensures
        !t.finished(p, failed).inflight.contains(p.at("requestId"@).text()),
{
    lemma_texts_without(t.inflight, p.at("requestId"@).text());
}

/// A new document begins with nothing reported and no snapshot to compare with.
pub proof fn law_navigation_starts_afresh(t: TabV, f: JsonV)
    ensures
        t.navigated(f).last_snapshot is None,
        t.navigated(f).console_nav_start == t.navigated(f).console.len(),
        t.navigated(f).console_reported == t.navigated(f).console.len(),
{
}

proof fn lemma_event_names()
    ensures
        "Log.entryAdded"@.len() == 14,
        "Page.frameNavigated"@.len() == 19 && "Page.frameNavigated"@[5] == 'f',
        "Page.lifecycleEvent"@.len() == 19 && "Page.lifecycleEvent"@[5] == 'l',
        "Network.loadingFailed"@.len() == 21,
        "Page.fileChooserOpened"@.len() == 22,
        "Runtime.exceptionThrown"@.len() == 23 && "Runtime.exceptionThrown"@[0] == 'R',
        "Network.loadingFinished"@.len() == 23 && "Network.loadingFinished"@[0] == 'N',
        "Page.frameStartedLoading"@.len() == 24 && "Page.frameStartedLoading"@[13] == 'r',
        "Page.frameStoppedLoading"@.len() == 24 && "Page.frameStoppedLoading"@[13] == 'p',
        "Runtime.consoleAPICalled"@.len() == 24 && "Runtime.consoleAPICalled"@[13] == 'l',
        "Network.responseReceived"@.len() == 24 && "Network.responseReceived"@[13] == 'n',
        "Network.requestWillBeSent"@.len() == 25,
        "Page.frameStartedNavigating"@.len() == 27 && "Page.frameStartedNavigating"@[5] == 'f',
        "Page.javascriptDialogClosed"@.len() == 27 && "Page.javascriptDialogClosed"@[5] == 'j',
        "Page.navigatedWithinDocument"@.len() == 28 && "Page.navigatedWithinDocument"@[5] == 'n',
        "Page.javascriptDialogOpening"@.len() == 28 && "Page.javascriptDialogOpening"@[5] == 'j',
        "Page.frameRequestedNavigation"@.len() == 29,
        "Runtime.executionContextCreated"@.len() == 31,
        "Runtime.executionContextsCleared"@.len() == 32,
        "Runtime.executionContextDestroyed"@.len() == 33,
{
    reveal_strlit("Page.frameNavigated");
    reveal_strlit("Page.navigatedWithinDocument");
    reveal_strlit("Page.frameRequestedNavigation");
    reveal_strlit("Page.frameStartedNavigating");
    reveal_strlit("Page.frameStartedLoading");
    reveal_strlit("Page.frameStoppedLoading");
    reveal_strlit("Page.lifecycleEvent");
    reveal_strlit("Page.javascriptDialogOpening");
    reveal_strlit("Page.javascriptDialogClosed");
    reveal_strlit("Page.fileChooserOpened");
    reveal_strlit("Runtime.executionContextCreated");
    reveal_strlit("Runtime.executionContextDestroyed");
    reveal_strlit("Runtime.executionContextsCleared");
    reveal_strlit("Runtime.consoleAPICalled");
    reveal_strlit("Runtime.exceptionThrown");
    reveal_strlit("Log.entryAdded");
    reveal_strlit("Network.requestWillBeSent");
    reveal_strlit("Network.responseReceived");
    reveal_strlit("Network.loadingFinished");
    reveal_strlit("Network.loadingFailed");
    assert("Log.entryAdded"@.len() == 14);
    assert("Page.frameNavigated"@.len() == 19 && "Page.frameNavigated"@[5] == 'f');
    assert("Page.lifecycleEvent"@.len() == 19 && "Page.lifecycleEvent"@[5] == 'l');
    assert("Network.loadingFailed"@.len() == 21);
    assert("Page.fileChooserOpened"@.len() == 22);
    assert("Runtime.exceptionThrown"@.len() == 23 && "Runtime.exceptionThrown"@[0] == 'R');
    assert("Network.loadingFinished"@.len() == 23 && "Network.loadingFinished"@[0] == 'N');
    assert("Page.frameStartedLoading"@.len() == 24 && "Page.frameStartedLoading"@[13] == 'r');
    assert("Page.frameStoppedLoading"@.len() == 24 && "Page.frameStoppedLoading"@[13] == 'p');
    assert("Runtime.consoleAPICalled"@.len() == 24 && "Runtime.consoleAPICalled"@[13] == 'l');
    assert("Network.responseReceived"@.len() == 24 && "Network.responseReceived"@[13] == 'n');
    assert("Network.requestWillBeSent"@.len() == 25);
    assert("Page.frameStartedNavigating"@.len() == 27 && "Page.frameStartedNavigating"@[5] == 'f');
    assert("Page.javascriptDialogClosed"@.len() == 27 && "Page.javascriptDialogClosed"@[5] == 'j');
    assert("Page.navigatedWithinDocument"@.len() == 28 && "Page.navigatedWithinDocument"@[5] == 'n');
    assert("Page.javascriptDialogOpening"@.len() == 28 && "Page.javascriptDialogOpening"@[5] == 'j');
    assert("Page.frameRequestedNavigation"@.len() == 29);
    assert("Runtime.executionContextCreated"@.len() == 31);
    assert("Runtime.executionContextsCleared"@.len() == 32);
    assert("Runtime.executionContextDestroyed"@.len() == 33);
}

/// Another document in the main frame: the tab has its address, with the fragment, and its loader, and
/// no snapshot to compare with; what was logged before stays, and counts as reported. A document in
/// another frame changes nothing.
pub proof fn law_navigation_changes_the_address(t: TabV, ev: EventV)
    requires
        ev.method == "Page.frameNavigated"@,
    ensures
        ({
            let f = ev.params.at("frame"@);
            if f.get("parentId"@) is Some {
                t.after(ev) == t
            } else {
                t.after(ev) == (TabV {
                    main_frame: f.at("id"@).text(),
                    url: f.at("url"@).text() + f.at("urlFragment"@).text(),
                    loader_id: f.at("loaderId"@).text(),
                    console_nav_start: t.console.len(),
                    console_reported: t.console.len(),
                    last_snapshot: None,
                    ..t
                })
            }
        }),
{
    lemma_event_names();
}

/// A navigation within the document changes the address of the tab, where it is in the main frame, and
/// nothing else.
pub proof fn law_navigation_within_the_document(t: TabV, ev: EventV)
    requires
        ev.method == "Page.navigatedWithinDocument"@,
    ensures
        t.after(ev) == if ev.params.at("frameId"@) == JsonV::Str(t.main_frame) {
            TabV { url: ev.params.at("url"@).text(), ..t }
        } else {
            t
        },
{
    lemma_event_names();
}

/// A tab loads from when its main frame starts to until it stops or its document has loaded; events of
/// other frames do not touch that. A navigation that begins is counted, so that whoever waits sees it.
pub proof fn law_loading_begins_and_ends(t: TabV, ev: EventV)
    ensures
        ({
            let mine = ev.params.at("frameId"@) == JsonV::Str(t.main_frame);
            let a = t.after(ev);
            &&& ev.method == "Page.frameStartedLoading"@ && (mine || t.main_frame.len() == 0) ==> a.loading && a.nav_seq
                != t.nav_seq
            &&& ev.method == "Page.frameStoppedLoading"@ && mine ==> !a.loading && a.nav_seq == t.nav_seq
            &&& ev.method == "Page.lifecycleEvent"@ && mine && ev.params.at("name"@) == JsonV::Str("load"@) ==> !a.loading
            &&& (ev.method == "Page.frameRequestedNavigation"@ || ev.method == "Page.frameStartedNavigating"@) && mine
                ==> a.nav_seq != t.nav_seq && a.loading == t.loading
            &&& !mine && t.main_frame.len() > 0 ==> a.loading == t.loading && a.nav_seq == t.nav_seq
            &&& a.nav_seq != t.nav_seq ==> ev.method == "Page.frameStartedLoading"@ || ev.method
                == "Page.frameRequestedNavigation"@ || ev.method == "Page.frameStartedNavigating"@
            &&& a.loading && !t.loading ==> ev.method == "Page.frameStartedLoading"@
            &&& !a.loading && t.loading ==> ev.method == "Page.frameStoppedLoading"@ || (ev.method
                == "Page.lifecycleEvent"@ && ev.params.at("name"@) == JsonV::Str("load"@))
        }),
{
    lemma_event_names();
}

/// A dialog is open from when it opens, with its kind, message and suggestion, until it closes; no other
/// event opens or closes one.
pub proof fn law_dialogs_open_and_close(t: TabV, ev: EventV)
    ensures
        t.after(ev).dialog == if ev.method == "Page.javascriptDialogOpening"@ {
            Some(
                DialogV {
                    kind: ev.params.at("type"@).text(),
                    message: ev.params.at("message"@).text(),
                    default_prompt: ev.params.at("defaultPrompt"@).text(),
                },
            )
        } else if ev.method == "Page.javascriptDialogClosed"@ {
            None
        } else {
            t.dialog
        },
        ev.method == "Page.javascriptDialogOpening"@ || ev.method == "Page.javascriptDialogClosed"@ ==> t.after(ev)
            == (TabV { dialog: t.after(ev).dialog, ..t }),
{
    lemma_event_names();
}

/// A file chooser that opens is remembered, with its element and whether it takes several files.
pub proof fn law_file_choosers_are_remembered(t: TabV, ev: EventV)
    ensures
        ev.method == "Page.fileChooserOpened"@ && ev.params.at("backendNodeId"@).as_i64() is Some ==> t.after(
            ev,
        ).file_chooser == Some(
            (ev.params.at("backendNodeId"@).as_i64()->0, ev.params.at("mode"@).text_or("selectSingle"@)),
        ),
        ev.method != "Page.fileChooserOpened"@ ==> t.after(ev).file_chooser == t.file_chooser,
{
    lemma_event_names();
}

/// The context of the injected script is the one of its name in the main frame, until it is destroyed
/// or all are cleared.
pub proof fn law_world_follows_its_context(t: TabV, ev: EventV)
    ensures
        ({
            let c = ev.params.at("context"@);
            t.after(ev).world_ctx == if ev.method == "Runtime.executionContextCreated"@ && c.at("name"@) == JsonV::Str(
                "__bmcp"@,
            ) && c.at("auxData"@).at("frameId"@) == JsonV::Str(t.main_frame) {
                c.at("id"@).as_i64()
            } else if ev.method == "Runtime.executionContextsCleared"@ || (ev.method
                == "Runtime.executionContextDestroyed"@ && ev.params.at("executionContextId"@).as_i64() == t.world_ctx) {
                None
            } else {
                t.world_ctx
            }
        }),
{
    lemma_event_names();
}

/// Console calls, exceptions and log entries are logged behind what was logged before, and nothing else
/// is. `assert` and `error` calls and exceptions count as errors, `warning` as a warning, `debug` and
/// `verbose` as debugging, and everything else as information.
pub proof fn law_console_is_logged(t: TabV, ev: EventV)
    ensures
        ({
            let p = ev.params;
            let d = p.at("exceptionDetails"@);
            let kind = if ev.method == "Runtime.consoleAPICalled"@ {
                p.at("type"@).text_or("log"@)
            } else {
                p.at("entry"@).at("level"@).text_or("info"@)
            };
            let level = if ev.method == "Runtime.exceptionThrown"@ || kind == "error"@ || kind == "assert"@ {
                "error"@
            } else if kind == "warning"@ {
                "warning"@
            } else if kind == "debug"@ || kind == "verbose"@ {
                "debug"@
            } else {
                "info"@
            };
            if ev.method == "Runtime.consoleAPICalled"@ {
                t.after(ev) == (TabV {
                    console: t.console.push(
                        ConsoleMsgV { level, text: call_text(p.at("args"@)), location: call_location(p) },
                    ),
                    ..t
                })
            } else if ev.method == "Runtime.exceptionThrown"@ {
                t.after(ev) == (TabV {
                    console: t.console.push(
                        ConsoleMsgV {
                            level,
                            text: if d.at("exception"@).at("description"@) is Str {
                                d.at("exception"@).at("description"@).text()
                            } else {
                                d.at("text"@).text_or("Uncaught exception"@)
                            },
                            location: d.at("url"@).text(),
                        },
                    ),
                    ..t
                })
            } else if ev.method == "Log.entryAdded"@ {
                t.after(ev) == (TabV {
                    console: t.console.push(
                        ConsoleMsgV {
                            level,
                            text: p.at("entry"@).at("text"@).text(),
                            location: p.at("entry"@).at("url"@).text(),
                        },
                    ),
                    ..t
                })
            } else {
                t.after(ev).console == t.console
            }
        }),
{
    lemma_event_names();
    let d = ev.params.at("exceptionDetails"@);
    assert(d.at("exception"@).at("description"@).as_text() is Some == d.at("exception"@).at("description"@) is Str);
}

/// What a console call shows of a value: a string as it is, any other value as JSON, and what has no
/// value by its name, its preview or its description.
pub proof fn law_console_values(arg: JsonV)
    ensures
        arg.get("value"@) is Some && arg.at("value"@) is Str ==> remote_text(arg) == arg.at("value"@).text(),
        arg.get("value"@) is Some && !(arg.at("value"@) is Str) ==> remote_text(arg) == json::json_text(arg.at("value"@)),
        arg.get("value"@) is None && arg.at("unserializableValue"@) is Str ==> remote_text(arg) == arg.at(
            "unserializableValue"@,
        ).text(),
        arg.get("value"@) is None && !(arg.at("unserializableValue"@) is Str) && arg.get("preview"@) is None
            ==> remote_text(arg) == arg.at("description"@).text_or("undefined"@),
        arg.get("value"@) is None && !(arg.at("unserializableValue"@) is Str) && arg.get("preview"@) is Some
            ==> remote_text(arg) == preview_text(arg.at("preview"@)),
{
}

/// The text of a console call has the text of every argument, in order, with blanks between; that of a
/// preview has every property, in braces, or every value, in brackets where it is one of an array.
pub proof fn law_console_texts(args: JsonV, preview: JsonV)
    ensures
        exists|parts: Seq<Text>|
            call_text(args) == #[trigger] text::joined(parts, " "@) && parts.len() == args.elements().len() && forall|i: int|
                0 <= i < parts.len() ==> #[trigger] parts[i] == remote_text(args.elements()[i]),
        preview.at("subtype"@) != JsonV::Str("array"@) ==> exists|parts: Seq<Text>|
            preview_text(preview) == "{"@ + #[trigger] text::joined(parts, ", "@) + "}"@ && parts.len() == preview.at(
                "properties"@,
            ).elements().len() && forall|i: int|
                0 <= i < parts.len() ==> #[trigger] parts[i] == preview.at("properties"@).elements()[i].at(
                    "name"@,
                ).text() + ": "@ + preview.at("properties"@).elements()[i].at("value"@).text(),
        preview.at("subtype"@) == JsonV::Str("array"@) ==> exists|parts: Seq<Text>|
            preview_text(preview) == "["@ + #[trigger] text::joined(parts, ", "@) + "]"@ && parts.len() == preview.at(
                "properties"@,
            ).elements().len(),
{
    let parts = args.elements().map_values(|a: JsonV| remote_text(a));
    assert(call_text(args) == text::joined(parts, " "@));
    let props = preview.at("properties"@).elements().map_values(|x: JsonV| property_text(x));
    assert(text::joined(props, ", "@) == text::joined(props, ", "@));
    let items = props.map_values(|s: Text| item_text(s));
    assert(text::joined(items, ", "@) == text::joined(items, ", "@));
}

/// A console call stands at the first frame of its stack, its line counted from 1.
pub proof fn law_console_locations(p: JsonV)
    ensures
        ({
            let frame = p.at("stackTrace"@).at("callFrames"@).nth(0);
            let url = frame.at("url"@).text();
            &&& url.len() == 0 ==> call_location(p).len() == 0
            &&& url.len() > 0 && frame.at("lineNumber"@).as_i64() is Some && frame.at("lineNumber"@).as_i64()->0
                < i64::MAX ==> call_location(p) == url + ":"@ + text::dec_int(frame.at("lineNumber"@).as_i64()->0 + 1)
        }),
{
}

/// A request that is sent is logged behind the others, under way and not answered yet, with its
/// address and the fragment of it; the log keeps the newest of 5000 requests, and what leaves it are the
/// oldest 1000.
pub proof fn law_requests_are_logged(t: TabV, ev: EventV)
    requires
        t.wf(),
        ev.method == "Network.requestWillBeSent"@,
    ensures
        ({
            let p = ev.params;
            let req = p.at("request"@);
            let a = t.after(ev);
            let r = a.requests.last();
            &&& a.requests.len() == if t.requests.len() < 5000 {
                t.requests.len() + 1
            } else {
                4001
            }
            &&& r.id == p.at("requestId"@).text()
            &&& r.url == req.at("url"@).text() + req.at("urlFragment"@).text()
            &&& r.method == req.at("method"@).text_or("GET"@)
            &&& r.resource_type == p.at("type"@).text_or("Other"@)
            &&& r.request_headers == req.at("headers"@)
            &&& r.post_data == (if req.at("postData"@) is Str {
                Some(req.at("postData"@).text())
            } else {
                None
            })
            &&& r.status is None && r.failure is None && !r.finished && !r.from_route
            &&& a.inflight.contains(p.at("requestId"@).text())
            &&& forall|x: Text| t.inflight.contains(x) ==> #[trigger] a.inflight.contains(x)
            &&& a.console == t.console && a.url == t.url && a.loading == t.loading && a.nav_seq == t.nav_seq
        }),
{
    let p = ev.params;
    let id = p.at("requestId"@).text();
    lemma_event_names();
    state::lemma_request_index(t.requests, id);
    let b = t.redirected(p).page_begun(p);
    let all = b.requests.push(request_of(p));
    assert(b.requests.len() == t.requests.len());
    assert(all.last() == request_of(p));
    if all.len() > MAX_REQUESTS {
        assert(all.skip(DROP_REQUESTS as int).last() == all.last());
    }
    let i = text_once(t.inflight, id);
    if !t.inflight.contains(id) {
        assert(i[t.inflight.len() as int] == id);
    }
    assert forall|x: Text| t.inflight.contains(x) implies #[trigger] i.contains(x) by {
        let k = choose|k: int| 0 <= k < t.inflight.len() && t.inflight[k] == x;
        assert(i[k] == x);
    }
}

/// The requests logged before stay in the log as they are, but for one that was redirected: that one is
/// finished, with the status and the headers of the redirect.
pub proof fn law_redirects_end_a_request(t: TabV, ev: EventV, k: int)
    requires
        t.wf(),
        ev.method == "Network.requestWillBeSent"@,
        0 <= k < t.requests.len(),
        t.requests.len() < 5000,
    ensures
        ({
            let p = ev.params;
            let resp = p.at("redirectResponse"@);
            let a = t.after(ev);
            if p.get("redirectResponse"@) is Some && state::request_index(t.requests, p.at("requestId"@).text()) == Some(
                k,
            ) {
                a.requests[k] == (RequestV {
                    finished: true,
                    status: resp.at("status"@).as_i64(),
                    status_text: resp.at("statusText"@).text(),
                    response_headers: resp.at("headers"@),
                    ..t.requests[k]
                })
            } else {
                a.requests[k] == t.requests[k]
            }
        }),
{
    lemma_event_names();
    state::lemma_request_index(t.requests, ev.params.at("requestId"@).text());
}

/// The list of requests begins anew with the request for a document in the main frame, and with no
/// other; a redirect of it does not begin it again.
pub proof fn law_document_requests_begin_the_list(t: TabV, ev: EventV)
    requires
        t.wf(),
        t.requests.len() < 5000,
    ensures
        ({
            let p = ev.params;
            t.after(ev).requests_nav_start == if ev.method == "Network.requestWillBeSent"@ && p.at("type"@)
                == JsonV::Str("Document"@) && p.at("frameId"@) == JsonV::Str(t.main_frame) && p.get("redirectResponse"@)
                is None {
                t.requests.len()
            } else {
                t.requests_nav_start
            }
        }),
{
    lemma_event_names();
    state::lemma_request_index(t.requests, ev.params.at("requestId"@).text());
}

/// When the log is full, the requests since the last navigation stay those that they were, as far as
/// they are still in it.
pub proof fn law_full_log_drops_the_oldest(t: TabV, k: int)
    requires
        t.requests.len() == 5001,
        0 <= k < 4001,
    ensures
        t.bounded().requests.len() == 4001,
        t.bounded().requests[k] == t.requests[k + 1000],
        t.requests_nav_start >= 1000 ==> t.bounded().requests_nav_start == t.requests_nav_start - 1000,
        t.requests_nav_start < 1000 ==> t.bounded().requests_nav_start == 0,
        t.bounded().inflight == t.inflight && t.bounded().console == t.console,
{
}

/// A response reaches the newest request with its id, with its status, headers and type of content, and
/// changes nothing else.
pub proof fn law_responses_are_logged(t: TabV, ev: EventV)
    requires
        ev.method == "Network.responseReceived"@,
    ensures
        ({
            let p = ev.params;
            let resp = p.at("response"@);
            match state::request_index(t.requests, p.at("requestId"@).text()) {
                Some(i) if p.at("requestId"@) is Str => t.after(ev) == (TabV {
                    requests: t.requests.update(
                        i,
                        RequestV {
                            status: resp.at("status"@).as_i64(),
                            status_text: resp.at("statusText"@).text(),
                            response_headers: resp.at("headers"@),
                            mime: resp.at("mimeType"@).text(),
                            ..t.requests[i]
                        },
                    ),
                    ..t
                }),
                _ => t.after(ev) == t,
            }
        }),
{
    lemma_event_names();
    state::lemma_request_index(t.requests, ev.params.at("requestId"@).text());
}

/// The end of a request finishes the newest request with its id, tells why it failed where it did, and
/// takes it from those that are under way, and no other.
pub proof fn law_ends_are_logged(t: TabV, ev: EventV)
    requires
        ev.method == "Network.loadingFinished"@ || ev.method == "Network.loadingFailed"@,
    ensures
        ({
            let id = ev.params.at("requestId"@).text();
            let a = t.after(ev);
            &&& a == (TabV { requests: a.requests, inflight: a.inflight, ..t })
            &&& forall|x: Text| #[trigger] a.inflight.contains(x) == (t.inflight.contains(x) && x != id)
            &&& match state::request_index(t.requests, id) {
                Some(i) => a.requests == t.requests.update(
                    i,
                    RequestV {
                        finished: true,
                        failure: if ev.method == "Network.loadingFailed"@ {
                            Some(ev.params.at("errorText"@).text_or("failed"@))
                        } else {
                            t.requests[i].failure
                        },
                        ..t.requests[i]
                    },
                ),
                None => a.requests == t.requests,
            }
        }),
{
    let id = ev.params.at("requestId"@).text();
    lemma_event_names();
    state::lemma_request_index(t.requests, id);
    lemma_texts_without(t.inflight, id);
    assert forall|x: Text| #[trigger] t.after(ev).inflight.contains(x) == (t.inflight.contains(x) && x != id) by {
        if t.inflight.contains(x) && x != id {
            lemma_texts_kept(t.inflight, id, x);
        }
    }
}

proof fn lemma_texts_kept(s: Seq<Text>, x: Text, y: Text)
    requires
        s.contains(y),
        y != x,
    ensures
        texts_without(s, x).contains(y),
    decreases s.len(),
{
    let d = s.drop_last();
    let w = texts_without(d, x);
    if s.last() == y {
        assert(texts_without(s, x)[w.len() as int] == y);
    } else {
        let k = choose|k: int| 0 <= k < s.len() && s[k] == y;
        assert(d[k] == y);
        lemma_texts_kept(d, x, y);
        let i = choose|i: int| 0 <= i < w.len() && w[i] == y;
        assert(texts_without(s, x)[i] == y);
    }
}

/// A value in the preview of an array stands without its position.
pub proof fn law_values_in_previews(name: Text, value: Text)
    requires
        !name.contains(':'),
    ensures
        item_text(name + ": "@ + value) == value,
{
    reveal_strlit(": ");
    assert(": "@.len() == 2 && ": "@[0] == ':');
    text::law_cut_where_it_stands(name, ": "@, value);
}

/// The elements of an array's preview are its values, in order, in brackets.
pub proof fn law_array_previews(preview: JsonV, i: int)
    requires
        preview.at("subtype"@) == JsonV::Str("array"@),
        0 <= i < preview.at("properties"@).elements().len(),
    ensures
        exists|parts: Seq<Text>|
            preview_text(preview) == "["@ + #[trigger] text::joined(parts, ", "@) + "]"@ && parts.len() == preview.at(
                "properties"@,
            ).elements().len() && parts[i] == item_text(
                preview.at("properties"@).elements()[i].at("name"@).text() + ": "@ + preview.at(
                    "properties"@,
                ).elements()[i].at("value"@).text(),
            ),
{
    let props = preview.at("properties"@).elements().map_values(|x: JsonV| property_text(x));
    let items = props.map_values(|s: Text| item_text(s));
    assert(preview_text(preview) == "["@ + text::joined(items, ", "@) + "]"@);
    assert(items[i] == item_text(props[i]));
}

/// Other events change nothing of a tab.
pub proof fn law_other_events_change_nothing(t: TabV, ev: EventV)
    requires
        ev.method != "Page.frameNavigated"@,
        ev.method != "Page.navigatedWithinDocument"@,
        ev.method != "Page.frameRequestedNavigation"@,
        ev.method != "Page.frameStartedNavigating"@,
        ev.method != "Page.frameStartedLoading"@,
        ev.method != "Page.frameStoppedLoading"@,
        ev.method != "Page.lifecycleEvent"@,
        ev.method != "Page.javascriptDialogOpening"@,
        ev.method != "Page.javascriptDialogClosed"@,
        ev.method != "Page.fileChooserOpened"@,
        ev.method != "Runtime.executionContextCreated"@,
        ev.method != "Runtime.executionContextDestroyed"@,
        ev.method != "Runtime.executionContextsCleared"@,
        ev.method != "Runtime.consoleAPICalled"@,
        ev.method != "Runtime.exceptionThrown"@,
        ev.method != "Log.entryAdded"@,
        ev.method != "Network.requestWillBeSent"@,
        ev.method != "Network.responseReceived"@,
        ev.method != "Network.loadingFinished"@,
        ev.method != "Network.loadingFailed"@,
    ensures
        t.after(ev) == t,
{
}

} // verus!
