//! What browser events do to the state, and what they ask to be done.

use crate::cdp;
use crate::cdp::Command;
use crate::cdp::CommandV;
use crate::cdp::Event;
use crate::cdp::EventV;
use crate::config::Config;
use crate::config::ConfigV;
use crate::encoding;
use crate::encoding::JsonKind;
use crate::json;
use crate::json::Json;
use crate::json::JsonV;
use crate::origin;
use crate::page_events;
use crate::path;
use crate::pattern;
use crate::positions;
use crate::state;
use crate::state::Download;
use crate::state::DownloadV;
use crate::state::Request;
use crate::state::RequestV;
use crate::state::Route;
use crate::state::RouteV;
use crate::state::State;
use crate::state::StateV;
use crate::state::Tab;
use crate::state::TabV;
use crate::state::VideoV;
use crate::text;
use crate::text::Text;
use vstd::prelude::*;

verus! {

// ---------------------------------------------------------------------- actions

/// A picture of a screencast, as it goes to the viewer of a hand-off.
pub struct Frame {
    pub meta: String,
    pub jpeg: Vec<u8>,
}

/// What an event asks to be done.
pub enum Action {
    /// Send a command and wait for nothing.
    Send(Command),
    /// Prepare the session of a new tab.
    Init(String),
    /// A download is complete: give the file its name, then call `State::download_named`.
    NameDownload { guid: String, filename: String },
    /// Write a picture of the running video, then call `State::frame_written`.
    WriteFrame { path: String, data: Vec<u8> },
    /// Show a picture to whoever watches.
    Publish(Frame),
}

/// What an `Action` holds.
pub enum ActionV {
    Send(CommandV),
    Init(Text),
    NameDownload(Text, Text),
    WriteFrame(Text, Seq<u8>),
    Publish(Text, Seq<u8>),
}

impl View for Action {
    type V = ActionV;

    open spec fn view(&self) -> ActionV {
        match self {
            Action::Send(c) => ActionV::Send(c@),
            Action::Init(s) => ActionV::Init(s@),
            Action::NameDownload { guid, filename } => ActionV::NameDownload(guid@, filename@),
            Action::WriteFrame { path, data } => ActionV::WriteFrame(path@, data@),
            Action::Publish(f) => ActionV::Publish(f.meta@, f.jpeg@),
        }
    }
}

// ---------------------------------------------------------------------- routes

/// The newest route for a URL.
pub open spec fn route_for(routes: Seq<RouteV>, url: Text) -> Option<int>
    decreases routes.len(),
{
    if routes.len() == 0 {
        None
    } else if pattern::regex_finds(pattern::glob_source(routes.last().pattern), false, url) {
        Some(routes.len() - 1)
    } else {
        route_for(routes.drop_last(), url)
    }
}

/// A header as the protocol writes it.
pub open spec fn header(k: Text, v: JsonV) -> JsonV {
    JsonV::obj().with("name"@, JsonV::Str(k)).with("value"@, v)
}

/// A list of headers as the protocol writes it.
pub open spec fn header_list(h: Seq<(Text, JsonV)>) -> JsonV {
    JsonV::Arr(h.map_values(|p: (Text, JsonV)| header(p.0, p.1)))
}

/// Header names are the same in any letter case.
pub open spec fn same_header(a: Text, b: Text) -> bool {
    text::lowered(a) == text::lowered(b)
}

/// One of the names is this header's.
pub open spec fn names_header(names: Seq<Text>, k: Text) -> bool {
    exists|i: int| 0 <= i < names.len() && same_header(#[trigger] names[i], k)
}

/// The headers without those with one of the names.
pub open spec fn without_headers(h: Seq<(Text, JsonV)>, names: Seq<Text>) -> Seq<(Text, JsonV)>
    decreases h.len(),
{
    if h.len() == 0 {
        Seq::empty()
    } else if names_header(names, h.last().0) {
        without_headers(h.drop_last(), names)
    } else {
        without_headers(h.drop_last(), names).push(h.last())
    }
}

/// The headers with some set: each takes the place of those with the same name, behind the others.
pub open spec fn set_headers(h: Seq<(Text, JsonV)>, set: Seq<(Text, Text)>) -> Seq<(Text, JsonV)>
    decreases set.len(),
{
    if set.len() == 0 {
        h
    } else {
        without_headers(set_headers(h, set.drop_last()), seq![set.last().0]).push(
            (set.last().0, JsonV::Str(set.last().1)),
        )
    }
}

/// The type of content of an answer: what is given, or JSON where the body is an object or an array,
/// or plain text.
pub open spec fn type_for(given: Option<Text>, kind: JsonKind) -> Text {
    match given {
        Some(c) => c,
        None => if kind == JsonKind::Object || kind == JsonKind::Array {
            "application/json"@
        } else {
            "text/plain"@
        },
    }
}

pub open spec fn body_of(r: RouteV) -> Text {
    match r.body {
        Some(b) => b,
        None => Seq::empty(),
    }
}

/// Header texts as JSON strings.
pub open spec fn header_values(h: Seq<(Text, Text)>) -> Seq<(Text, JsonV)> {
    h.map_values(|p: (Text, Text)| (p.0, JsonV::Str(p.1)))
}

/// The headers of a route's answer whose body is of this kind.
pub open spec fn answer_headers(r: RouteV, kind: JsonKind) -> Seq<(Text, JsonV)> {
    header_values(r.headers).push(("Content-Type"@, JsonV::Str(type_for(r.content_type, kind)))).push(
        ("Access-Control-Allow-Origin"@, JsonV::Str("*"@)),
    )
}

/// What is sent for a request that a route is for: with neither status nor body the request goes on
/// with other headers; otherwise the route answers it with its body, which is of this kind.
pub open spec fn route_answer(
    session: Text,
    request_id: JsonV,
    r: RouteV,
    req_headers: JsonV,
    kind: JsonKind,
) -> CommandV {
    if r.status is None && r.body is None {
        cdp::to_session(
            session,
            "Fetch.continueRequest"@,
            JsonV::obj().with("requestId"@, request_id).with(
                "headers"@,
                header_list(set_headers(without_headers(req_headers.fields(), r.remove_headers), r.headers)),
            ),
        )
    } else {
        cdp::to_session(
            session,
            "Fetch.fulfillRequest"@,
            JsonV::obj().with("requestId"@, request_id).with(
                "responseCode"@,
                JsonV::Int(
                    match r.status {
                        Some(s) => s,
                        None => 200,
                    },
                ),
            ).with("responseHeaders"@, header_list(answer_headers(r, kind))).with(
                "body"@,
                JsonV::Str(encoding::base64_text(vstd::utf8::encode_utf8(body_of(r)))),
            ),
        )
    }
}

/// What is sent for a request that a route is for.
pub open spec fn route_command(session: Text, request_id: JsonV, r: RouteV, req_headers: JsonV) -> CommandV {
    route_answer(session, request_id, r, req_headers, encoding::json_kind_of(body_of(r)))
}

fn named_in(names: &Vec<String>, k: &str) -> (r: bool)
    ensures
        r == names_header(text::views(names@), k@),
{
    let ghost all = text::views(names@);
    let mut i: usize = 0;
    while i < names.len()
        invariant
            i <= names@.len(),
            all == text::views(names@),
            forall|j: int| 0 <= j < i ==> !same_header(#[trigger] all[j], k@),
        decreases names@.len() - i,
    {
        proof {
            assert(all[i as int] == names@[i as int]@);
        }
        if text::same_ignoring_case(&names[i], k) {
            return true;
        }
        i = i + 1;
    }
    false
}

fn drop_headers(h: &Vec<(String, Json)>, names: &Vec<String>) -> (r: Vec<(String, Json)>)
    ensures
        json::members(r@) == without_headers(json::members(h@), text::views(names@)),
{
    let ghost all = json::members(h@);
    let mut out: Vec<(String, Json)> = Vec::new();
    let mut i: usize = 0;
    proof {
        assert(all.take(0) =~= Seq::<(Text, JsonV)>::empty());
        assert(json::members(out@) =~= Seq::<(Text, JsonV)>::empty());
    }
    while i < h.len()
        invariant
            i <= h@.len(),
            all == json::members(h@),
            json::members(out@) == without_headers(all.take(i as int), text::views(names@)),
        decreases h@.len() - i,
    {
        proof {
            assert(all.take(i + 1).drop_last() =~= all.take(i as int));
            assert(all.take(i + 1).last() == (h@[i as int].0@, h@[i as int].1@));
        }
        if !named_in(names, &h[i].0) {
            let ghost before = out@;
            out.push((h[i].0.clone(), h[i].1.clone()));
            proof {
                assert(json::members(out@) =~= json::members(before).push((h@[i as int].0@, h@[i as int].1@)));
            }
        }
        i = i + 1;
    }
    proof {
        assert(all.take(all.len() as int) =~= all);
    }
    out
}

fn list_headers(h: &Vec<(String, Json)>) -> (r: Json)
    ensures
        r@ == header_list(json::members(h@)),
{
    let ghost f = |p: (Text, JsonV)| header(p.0, p.1);
    let mut out: Vec<Json> = Vec::new();
    let mut i: usize = 0;
    while i < h.len()
        invariant
            i <= h@.len(),
            out@.len() == i,
            forall|k: int| 0 <= k < i ==> (#[trigger] out@[k])@ == header(h@[k].0@, h@[k].1@),
        decreases h@.len() - i,
    {
        out.push(Json::obj().with("name", Json::str(&h[i].0)).with("value", h[i].1.clone()));
        i = i + 1;
    }
    proof {
        json::lemma_arr(out);
        assert(text::views(out@) =~= json::members(h@).map_values(f));
    }
    Json::Arr(out)
}

fn request_headers(req_headers: &Json, r: &Route) -> (out: Vec<(String, Json)>)
    ensures
        json::members(out@) == set_headers(without_headers(req_headers@.fields(), r@.remove_headers), r@.headers),
{
    let empty: Vec<(String, Json)> = Vec::new();
    let mut out = match req_headers {
        Json::Obj(m) => {
            proof {
                json::lemma_obj(*m);
            }
            drop_headers(m, &r.remove_headers)
        },
        _ => drop_headers(&empty, &r.remove_headers),
    };
    let ghost start = json::members(out@);
    proof {
        if !(req_headers@ is Obj) {
            assert(json::members(empty@) =~= req_headers@.fields());
        }
    }
    let ghost set = r@.headers;
    let mut i: usize = 0;
    proof {
        assert(set.take(0) =~= Seq::<(Text, Text)>::empty());
    }
    while i < r.headers.len()
        invariant
            i <= r.headers@.len(),
            set == r@.headers,
            set == state::pairs(r.headers@),
            json::members(out@) == set_headers(start, set.take(i as int)),
        decreases r.headers@.len() - i,
    {
        let (k, v) = &r.headers[i];
        proof {
            assert(set.take(i + 1).drop_last() =~= set.take(i as int));
            assert(set.take(i + 1).last() == (k@, v@));
        }
        let mut names: Vec<String> = Vec::new();
        names.push(k.clone());
        proof {
            assert(text::views(names@) =~= seq![k@]);
        }
        out = drop_headers(&out, &names);
        let ghost before = out@;
        out.push((k.clone(), Json::str(v)));
        proof {
            assert(json::members(out@) =~= json::members(before).push((k@, JsonV::Str(v@))));
        }
        i = i + 1;
    }
    proof {
        assert(set.take(set.len() as int) =~= set);
    }
    out
}

fn reply_headers(r: &Route, kind: JsonKind) -> (out: Vec<(String, Json)>)
    ensures
        json::members(out@) == answer_headers(r@, kind),
{
    let mut out: Vec<(String, Json)> = Vec::new();
    let mut i: usize = 0;
    while i < r.headers.len()
        invariant
            i <= r.headers@.len(),
            out@.len() == i,
            forall|k: int|
                0 <= k < i ==> (#[trigger] out@[k]).0@ == r.headers@[k].0@ && out@[k].1@ == JsonV::Str(r.headers@[k].1@),
        decreases r.headers@.len() - i,
    {
        out.push((r.headers[i].0.clone(), Json::str(&r.headers[i].1)));
        i = i + 1;
    }
    let content_type = content_type(&r.content_type, kind);
    let ghost before = out@;
    out.push(("Content-Type".to_string(), Json::Str(content_type)));
    out.push(("Access-Control-Allow-Origin".to_string(), Json::str("*")));
    proof {
        assert(json::members(before) =~= header_values(r@.headers));
        assert(json::members(out@) =~= answer_headers(r@, kind));
    }
    out
}

/// The type of content of an answer whose body is of this kind.
pub fn content_type(given: &Option<String>, kind: JsonKind) -> (r: String)
    ensures
        r@ == type_for(text::opt_text(*given), kind),
{
    match given {
        Some(c) => c.clone(),
        None => if kind == JsonKind::Object || kind == JsonKind::Array {
            "application/json".to_string()
        } else {
            "text/plain".to_string()
        },
    }
}

fn body_kind(r: &Route) -> (k: JsonKind)
    ensures
        k == encoding::json_kind_of(body_of(r@)),
{
    match &r.body {
        Some(b) => encoding::json_kind(b),
        None => {
            let none = String::new();
            proof {
                assert(none@ =~= Seq::<char>::empty());
            }
            encoding::json_kind(&none)
        },
    }
}

/// The command for a request that a route is for.
pub fn fulfill_route(session: &str, request_id: &Json, r: &Route, req_headers: &Json) -> (c: Command)
    ensures
        c@ == route_command(session@, request_id@, r@, req_headers@),
{
    answer_with(session, request_id, r, req_headers, body_kind(r))
}

/// The command for a request that a route is for whose body is of this kind.
pub fn answer_with(session: &str, request_id: &Json, r: &Route, req_headers: &Json, kind: JsonKind) -> (c: Command)
    ensures
        c@ == route_answer(session@, request_id@, r@, req_headers@, kind),
{
    if r.status.is_none() && r.body.is_none() {
        let headers = request_headers(req_headers, r);
        return Command::session(
            session,
            "Fetch.continueRequest",
            Json::obj().with("requestId", request_id.clone()).with("headers", list_headers(&headers)),
        );
    }
    let headers = reply_headers(r, kind);
    let code: i64 = match r.status {
        Some(s) => s,
        None => 200,
    };
    let body = match &r.body {
        Some(b) => b.clone(),
        None => String::new(),
    };
    proof {
        if r.body is None {
            assert(body@ =~= Seq::<char>::empty());
        }
    }
    Command::session(
        session,
        "Fetch.fulfillRequest",
        Json::obj().with("requestId", request_id.clone()).with("responseCode", Json::num(code)).with(
            "responseHeaders",
            list_headers(&headers),
        ).with("body", Json::Str(encoding::encode(body.as_str().as_bytes()))),
    )
}

// ---------------------------------------------------------------------- the state after an event

/// The notice that the page opened tab number `n`.
pub open spec fn opened_notice(n: int) -> Text {
    "A new tab was opened by the page (tab "@ + text::dec_int(n) + "); use browser_tabs to switch to it"@
}

/// The position of the current tab after the tab at `i` is gone and `left` tabs are left.
pub open spec fn current_without(current: nat, i: int, left: nat) -> nat {
    if (current > i || current >= left) && current > 0 {
        (current - 1) as nat
    } else {
        current
    }
}

/// A download that an event speaks of.
pub open spec fn has_guid(guid: JsonV) -> spec_fn(DownloadV) -> bool {
    |d: DownloadV| guid == JsonV::Str(d.guid)
}

/// The tab of a target.
pub open spec fn has_target(target: JsonV) -> spec_fn(TabV) -> bool {
    |t: TabV| target == JsonV::Str(t.target_id)
}

/// What an event tells of a tab's address and title.
pub open spec fn tab_info(t: TabV, info: JsonV) -> TabV {
    TabV { url: info.at("url"@).text_or(t.url), title: info.at("title"@).text_or(t.title), ..t }
}

impl StateV {
    /// A page has been attached.
    pub open spec fn attached(self, p: JsonV) -> StateV {
        let info = p.at("targetInfo"@);
        let tab = state::new_tab(
            info.at("targetId"@).text(),
            p.at("sessionId"@).text(),
            info.at("url"@).text(),
            info.at("title"@).text(),
        );
        StateV {
            tabs: self.tabs.push(tab),
            notices: if info.at("openerId"@) is Str {
                self.notices.push(opened_notice(self.tabs.len() as int))
            } else {
                self.notices
            },
            ..self
        }
    }

    /// A session is gone, and its tab with it.
    pub open spec fn detached(self, session: Text) -> StateV {
        match self.tab_index(session) {
            Some(i) => StateV {
                tabs: self.tabs.remove(i),
                current: current_without(self.current, i, (self.tabs.len() - 1) as nat),
                ..self
            },
            None => self,
        }
    }

    /// Address or title of a target changed.
    pub open spec fn info_changed(self, info: JsonV) -> StateV {
        match text::first_where(self.tabs, has_target(info.at("targetId"@))) {
            Some(i) => self.with_tab(i, tab_info(self.tabs[i], info)),
            None => self,
        }
    }

    /// A download has begun.
    pub open spec fn download_begun(self, p: JsonV) -> StateV {
        StateV {
            downloads: self.downloads.push(
                DownloadV {
                    guid: p.at("guid"@).text(),
                    url: p.at("url"@).text(),
                    filename: p.at("suggestedFilename"@).text(),
                    state: "inProgress"@,
                },
            ),
            ..self
        }
    }

    /// A download is over, one way or another. A complete one gets its notice with its name.
    pub open spec fn download_over(self, p: JsonV) -> StateV {
        let how = p.at("state"@).text();
        match text::first_where(self.downloads, has_guid(p.at("guid"@))) {
            Some(i) => StateV {
                downloads: self.downloads.update(i, DownloadV { state: how, ..self.downloads[i] }),
                notices: if how == "completed"@ {
                    self.notices
                } else {
                    self.notices.push("Download of \""@ + self.downloads[i].filename + "\" "@ + how)
                },
                ..self
            },
            None => self,
        }
    }

    /// The page reported what a person did, while that is recorded.
    pub open spec fn recorded(self, p: JsonV) -> StateV {
        match (self.recording, p.at("payload"@)) {
            (Some(r), JsonV::Str(s)) if encoding::json_kind_of(s) != JsonKind::Invalid => StateV {
                recording: Some(r.push(s)),
                ..self
            },
            _ => self,
        }
    }

    /// A request that a route is for is marked in the log of its tab.
    pub open spec fn routed(self, session: Text, p: JsonV) -> StateV {
        match (route_for(self.routes, p.at("request"@).at("url"@).text()), p.at("networkId"@), self.tab_index(session)) {
            (Some(_), JsonV::Str(id), Some(i)) => match state::request_index(self.tabs[i].requests, id) {
                Some(k) => self.with_tab(
                    i,
                    self.tabs[i].with_request(k, RequestV { from_route: true, ..self.tabs[i].requests[k] }),
                ),
                None => self,
            },
            _ => self,
        }
    }

    /// The state after an event. `connected` tells whether commands can be sent yet.
    pub open spec fn after(self, ev: EventV, connected: bool) -> StateV {
        let m = ev.method;
        let p = ev.params;
        if m == "Target.attachedToTarget"@ {
            if connected && p.at("targetInfo"@).at("type"@) == JsonV::Str("page"@) {
                self.attached(p)
            } else {
                self
            }
        } else if m == "Target.detachedFromTarget"@ {
            match p.at("sessionId"@) {
                JsonV::Str(s) => self.detached(s),
                _ => self,
            }
        } else if m == "Target.targetInfoChanged"@ {
            self.info_changed(p.at("targetInfo"@))
        } else if m == "Browser.downloadWillBegin"@ {
            self.download_begun(p)
        } else if m == "Browser.downloadProgress"@ {
            if p.at("state"@).text() == "inProgress"@ {
                self
            } else {
                self.download_over(p)
            }
        } else if m == "Runtime.bindingCalled"@ && p.at("name"@) == JsonV::Str("__bmcpRecord"@) {
            self.recorded(p)
        } else if m == "Fetch.requestPaused"@ {
            match ev.session_id {
                Some(s) if connected => self.routed(s, p),
                _ => self,
            }
        } else if m == "Page.screencastFrame"@ {
            self
        } else if m == "__closed"@ {
            StateV { tabs: Seq::empty(), ..self }
        } else {
            match ev.session_id {
                Some(s) => match self.tab_index(s) {
                    Some(i) => self.with_tab(i, self.tabs[i].after(ev)),
                    None => self,
                },
                None => self,
            }
        }
    }
}

// ---------------------------------------------------------------------- what an event asks for

/// What is sent for a paused request: one to a blocked origin fails, one that a route is for is
/// answered by it, whose body is of this kind, and any other goes on.
pub open spec fn paused_answer(
    st: StateV,
    session: Text,
    p: JsonV,
    blocked: bool,
    route: Option<int>,
    kind: JsonKind,
) -> CommandV {
    let id = p.at("requestId"@);
    if blocked {
        cdp::to_session(
            session,
            "Fetch.failRequest"@,
            JsonV::obj().with("requestId"@, id).with("errorReason"@, JsonV::Str("BlockedByClient"@)),
        )
    } else {
        match route {
            Some(i) => route_answer(session, id, st.routes[i], p.at("request"@).at("headers"@), kind),
            None => cdp::to_session(session, "Fetch.continueRequest"@, JsonV::obj().with("requestId"@, id)),
        }
    }
}

/// What is sent for a paused request.
pub open spec fn paused_command(st: StateV, session: Text, p: JsonV, cfg: ConfigV) -> CommandV {
    let url = p.at("request"@).at("url"@).text();
    let route = route_for(st.routes, url);
    paused_answer(
        st,
        session,
        p,
        origin::block_reason(url, cfg) is Some,
        route,
        match route {
            Some(i) => encoding::json_kind_of(body_of(st.routes[i])),
            None => JsonKind::Invalid,
        },
    )
}

/// The file of picture number `n` of a video.
pub open spec fn frame_path(dir: Text, n: nat) -> Text {
    path::joined_path(dir, "frame-"@ + text::padded(text::dec(n), 6) + ".jpg"@)
}

/// The picture for the file of a running video.
pub open spec fn video_frame(st: StateV, session: Text, data: Text) -> Seq<ActionV> {
    match (st.video, encoding::base64_bytes(data)) {
        (Some(v), Some(b)) if v.session == session => seq![
            ActionV::WriteFrame(frame_path(v.dir, v.frames.len()), b),
        ],
        _ => Seq::empty(),
    }
}

/// The picture for whoever watches: its metadata, marked as a frame, and its bytes.
pub open spec fn live_frame(params: JsonV) -> Option<(Text, Seq<u8>)> {
    match encoding::base64_bytes(params.at("data"@).text()) {
        Some(b) => Some((json::json_text(params.at("metadata"@).put("t"@, JsonV::Str("frame"@))), b)),
        None => None,
    }
}

/// The metadata of a picture is an object, or is missing.
pub open spec fn framed(params: JsonV) -> bool {
    params.at("metadata"@) is Obj || params.at("metadata"@) is Null
}

/// The picture for whoever watches the session.
pub open spec fn watched_frame(st: StateV, session: Text, p: JsonV) -> Seq<ActionV> {
    if st.live == Some(session) && framed(p) {
        match live_frame(p) {
            Some((meta, b)) => seq![ActionV::Publish(meta, b)],
            None => Seq::empty(),
        }
    } else {
        Seq::empty()
    }
}

/// What an event asks to be done, in order.
pub open spec fn actions_of(st: StateV, ev: EventV, connected: bool, cfg: ConfigV) -> Seq<ActionV> {
    let m = ev.method;
    let p = ev.params;
    if m == "Target.attachedToTarget"@ {
        let child = p.at("sessionId"@).text();
        if !connected {
            Seq::empty()
        } else if p.at("targetInfo"@).at("type"@) == JsonV::Str("page"@) {
            seq![ActionV::Init(child)]
        } else {
            seq![ActionV::Send(cdp::to_session(child, "Runtime.runIfWaitingForDebugger"@, JsonV::obj()))]
        }
    } else if m == "Target.detachedFromTarget"@ || m == "Target.targetInfoChanged"@ || m
        == "Browser.downloadWillBegin"@ {
        Seq::empty()
    } else if m == "Browser.downloadProgress"@ {
        match text::first_where(st.downloads, has_guid(p.at("guid"@))) {
            Some(i) if p.at("state"@) == JsonV::Str("completed"@) => seq![
                ActionV::NameDownload(st.downloads[i].guid, st.downloads[i].filename),
            ],
            _ => Seq::empty(),
        }
    } else if m == "Runtime.bindingCalled"@ && p.at("name"@) == JsonV::Str("__bmcpRecord"@) {
        Seq::empty()
    } else if m == "Fetch.requestPaused"@ {
        match ev.session_id {
            Some(s) if connected => seq![ActionV::Send(paused_command(st, s, p, cfg))],
            _ => Seq::empty(),
        }
    } else if m == "Page.screencastFrame"@ {
        match ev.session_id {
            Some(s) if connected => video_frame(st, s, p.at("data"@).text()) + watched_frame(st, s, p) + seq![
                ActionV::Send(
                    cdp::to_session(
                        s,
                        "Page.screencastFrameAck"@,
                        JsonV::obj().with("sessionId"@, p.at("sessionId"@)),
                    ),
                ),
            ],
            _ => Seq::empty(),
        }
    } else {
        Seq::empty()
    }
}

// ---------------------------------------------------------------------- the same, executed

fn rename_tab(t: &mut Tab, info: &Json)
    ensures
        final(t)@ == tab_info(old(t)@, info@),
{
    match info.at("url").as_text() {
        Some(u) => {
            t.url = u;
        },
        None => {},
    }
    match info.at("title").as_text() {
        Some(x) => {
            t.title = x;
        },
        None => {},
    }
}

fn mark_routed(r: &mut Request)
    ensures
        final(r)@ == (RequestV { from_route: true, ..old(r)@ }),
{
    r.from_route = true;
}

fn mark_request(t: &mut Tab, id: &str)
    ensures
        final(t)@ == match state::request_index(old(t)@.requests, id@) {
            Some(k) => old(t)@.with_request(k, RequestV { from_route: true, ..old(t)@.requests[k] }),
            None => old(t)@,
        },
{
    broadcast use text::group_views;
    match state::index_of(&t.requests, id) {
        Some(k) => {
            mark_routed(&mut t.requests[k]);
        },
        None => {},
    }
}

fn set_download_state(d: &mut Download, s: String)
    ensures
        final(d)@ == (DownloadV { state: s@, ..old(d)@ }),
{
    d.state = s;
}

/// The newest route for a URL.
pub fn find_route(routes: &Vec<Route>, url: &str) -> (r: Option<usize>)
    requires
        forall|i: int| 0 <= i < routes@.len() ==> (#[trigger] routes@[i]).wf(),
    ensures
        match r {
            Some(i) => route_for(text::views(routes@), url@) == Some(i as int) && i < routes@.len(),
            None => route_for(text::views(routes@), url@) is None,
        },
{
    let ghost all = text::views(routes@);
    let mut i: usize = routes.len();
    proof {
        assert(all.take(i as int) =~= all);
    }
    while i > 0
        invariant
            i <= routes@.len(),
            all == text::views(routes@),
            forall|k: int| 0 <= k < routes@.len() ==> (#[trigger] routes@[k]).wf(),
            route_for(all, url@) == route_for(all.take(i as int), url@),
        decreases i,
    {
        proof {
            assert(all.take(i as int).drop_last() =~= all.take(i - 1));
            assert(all.take(i as int).last() == routes@[i - 1]@);
        }
        i = i - 1;
        if routes[i].matches(url) {
            return Some(i);
        }
    }
    None
}

/// The picture for whoever watches, if its data can be read.
pub fn publish(params: &Json) -> (r: Option<Frame>)
    requires
        framed(params@),
    ensures
        match r {
            Some(f) => live_frame(params@) == Some((f.meta@, f.jpeg@)),
            None => live_frame(params@) is None,
        },
{
    match encoding::decode(&params.at("data").text()) {
        Some(jpeg) => {
            let meta = params.at("metadata").clone().put("t", Json::str("frame"));
            Some(Frame { meta: meta.to_text(), jpeg })
        },
        None => None,
    }
}

fn single(a: Action) -> (r: Vec<Action>)
    ensures
        text::views(r@) == seq![a@],
{
    let mut v: Vec<Action> = Vec::new();
    v.push(a);
    proof {
        assert(text::views(v@) =~= seq![a@]);
    }
    v
}

/// What concerns the state's exec side beyond its view: the routes and their compiled expressions
/// are the same.
pub open spec fn same_routes(a: State, b: State) -> bool {
    a.routes@ == b.routes@
}

impl State {
    fn attached(&mut self, p: &Json)
        ensures
            final(self)@ == old(self)@.attached(p@),
            same_routes(*final(self), *old(self)),
    {
        broadcast use text::group_views;
        let info = p.at("targetInfo");
        let n = self.tabs.len();
        self.tabs.push(
            Tab::new(info.at("targetId").text(), p.at("sessionId").text(), info.at("url").text(), info.at("title").text()),
        );
        if info.at("openerId").as_str().is_some() {
            let mut s = "A new tab was opened by the page (tab ".to_string();
            s.append(&text::decimal_int(n as i128));
            s.append("); use browser_tabs to switch to it");
            self.notices.push(s);
        }
    }

    fn detached(&mut self, session: &str)
        ensures
            final(self)@ == old(self)@.detached(session@),
            same_routes(*final(self), *old(self)),
    {
        let ghost before = self.tabs@;
        match self.tab_by_session(session) {
            Some(i) => {
                self.tabs.remove(i);
                proof {
                    assert(text::views(self.tabs@) =~= text::views(before).remove(i as int));
                }
                if (self.current > i || self.current >= self.tabs.len()) && self.current > 0 {
                    self.current = self.current - 1;
                }
            },
            None => {},
        }
    }

    fn info_changed(&mut self, info: &Json)
        ensures
            final(self)@ == old(self)@.info_changed(info@),
            same_routes(*final(self), *old(self)),
    {
        broadcast use text::group_views;
        let ghost all = self@.tabs;
        let ghost f = has_target(info@.at("targetId"@));
        let target = info.at("targetId");
        let mut i: usize = 0;
        while i < self.tabs.len()
            invariant
                i <= self.tabs@.len(),
                *self == *old(self),
                all == text::views(self.tabs@),
                target@ == info@.at("targetId"@),
                f == has_target(info@.at("targetId"@)),
                forall|k: int| 0 <= k < i ==> !f(#[trigger] all[k]),
            decreases self.tabs@.len() - i,
        {
            proof {
                assert(all[i as int] == self.tabs@[i as int]@);
            }
            if target.is_str(&self.tabs[i].target_id) {
                proof {
                    text::lemma_found(all, f, i as int);
                }
                rename_tab(&mut self.tabs[i], info);
                proof {
                    text::lemma_views_update(old(self).tabs@, i as int, self.tabs@[i as int]);
                }
                return;
            }
            i = i + 1;
        }
        proof {
            text::lemma_first_where(all, f);
        }
    }

    fn download_begun(&mut self, p: &Json)
        ensures
            final(self)@ == old(self)@.download_begun(p@),
            same_routes(*final(self), *old(self)),
    {
        broadcast use text::group_views;
        self.downloads.push(
            Download {
                guid: p.at("guid").text(),
                url: p.at("url").text(),
                filename: p.at("suggestedFilename").text(),
                state: "inProgress".to_string(),
            },
        );
    }

    fn find_download(&self, guid: &Json) -> (r: Option<usize>)
        ensures
            match r {
                Some(i) => text::first_where(self@.downloads, has_guid(guid@)) == Some(i as int) && i < self.downloads@.len(),
                None => text::first_where(self@.downloads, has_guid(guid@)) is None,
            },
    {
        let ghost all = self@.downloads;
        let ghost f = has_guid(guid@);
        let mut i: usize = 0;
        while i < self.downloads.len()
            invariant
                i <= self.downloads@.len(),
                all == text::views(self.downloads@),
                f == has_guid(guid@),
                forall|k: int| 0 <= k < i ==> !f(#[trigger] all[k]),
            decreases self.downloads@.len() - i,
        {
            proof {
                assert(all[i as int] == self.downloads@[i as int]@);
            }
            if guid.is_str(&self.downloads[i].guid) {
                proof {
                    text::lemma_found(all, f, i as int);
                }
                return Some(i);
            }
            i = i + 1;
        }
        proof {
            text::lemma_first_where(all, f);
        }
        None
    }

    fn download_over(&mut self, p: &Json) -> (r: Vec<Action>)
        ensures
            final(self)@ == old(self)@.download_over(p@),
            same_routes(*final(self), *old(self)),
            text::views(r@) == match text::first_where(old(self)@.downloads, has_guid(p@.at("guid"@))) {
                Some(i) if p@.at("state"@) == JsonV::Str("completed"@) => seq![
                    ActionV::NameDownload(old(self)@.downloads[i].guid, old(self)@.downloads[i].filename),
                ],
                _ => Seq::empty(),
            },
    {
        broadcast use text::group_views;
        let how = p.at("state").text();
        let completed = p.at("state").is_str("completed");
        proof {
            if how@ == "completed"@ && !completed {
                reveal_strlit("completed");
                assert(how@.len() == 0);
            }
        }
        match self.find_download(p.at("guid")) {
            Some(i) => {
                proof {
                    assert(self@.downloads[i as int] == self.downloads@[i as int]@);
                }
                let guid = self.downloads[i].guid.clone();
                let filename = self.downloads[i].filename.clone();
                set_download_state(&mut self.downloads[i], how.clone());
                if completed {
                    single(Action::NameDownload { guid, filename })
                } else {
                    let mut s = "Download of \"".to_string();
                    s.append(&filename);
                    s.append("\" ");
                    s.append(&how);
                    self.notices.push(s);
                    Vec::new()
                }
            },
            None => Vec::new(),
        }
    }

    /// A complete download has been given its name.
    pub fn download_named(&mut self, filename: &str, target: &str)
        ensures
            final(self)@ == (StateV {
                notices: old(self)@.notices.push("Downloaded \""@ + filename@ + "\" to "@ + target@),
                ..old(self)@
            }),
            same_routes(*final(self), *old(self)),
    {
        broadcast use text::group_views;
        let mut s = "Downloaded \"".to_string();
        s.append(filename);
        s.append("\" to ");
        s.append(target);
        self.notices.push(s);
    }

    fn recorded(&mut self, p: &Json)
        ensures
            final(self)@ == old(self)@.recorded(p@),
            same_routes(*final(self), *old(self)),
    {
        match p.at("payload") {
            Json::Str(s) => {
                self.record(s, encoding::json_kind(s));
            },
            _ => {},
        }
    }

    /// The page reported what a person did, in a text of this kind.
    pub fn record(&mut self, payload: &str, kind: JsonKind)
        ensures
            final(self)@ == (StateV {
                recording: match old(self)@.recording {
                    Some(r) => if kind != JsonKind::Invalid {
                        Some(r.push(payload@))
                    } else {
                        Some(r)
                    },
                    None => None,
                },
                ..old(self)@
            }),
            same_routes(*final(self), *old(self)),
    {
        broadcast use text::group_views;
        match &mut self.recording {
            Some(rec) => {
                if kind != JsonKind::Invalid {
                    rec.push(payload.to_string());
                }
            },
            None => {},
        }
    }

    fn routed(&mut self, session: &str, p: &Json)
        requires
            old(self).wf(),
        ensures
            final(self)@ == old(self)@.routed(session@, p@),
            same_routes(*final(self), *old(self)),
    {
        broadcast use text::group_views;
        let url = p.at("request").at("url").text();
        if find_route(&self.routes, &url).is_none() {
            return;
        }
        match (p.at("networkId"), self.tab_by_session(session)) {
            (Json::Str(id), Some(i)) => {
                let ghost before = self@.tabs[i as int];
                proof {
                    assert(before == self.tabs@[i as int]@);
                }
                mark_request(&mut self.tabs[i], id);
                proof {
                    if state::request_index(before.requests, id@) is None {
                        assert(self@.tabs =~= old(self)@.tabs);
                    }
                }
            },
            _ => {},
        }
    }

    fn paused(&self, session: &str, p: &Json, cfg: &Config) -> (r: Command)
        requires
            self.wf(),
        ensures
            r@ == paused_command(self@, session@, p@, cfg@),
    {
        let url = p.at("request").at("url").text();
        let blocked = origin::origin_blocked(&url, cfg).is_some();
        let route = find_route(&self.routes, &url);
        let kind = match route {
            Some(i) => {
                proof {
                    assert(self@.routes[i as int] == self.routes@[i as int]@);
                }
                body_kind(&self.routes[i])
            },
            None => JsonKind::Invalid,
        };
        self.answer_paused(session, p, blocked, route, kind)
    }

    /// The command for a paused request, to a blocked origin or not, that route number `route` is
    /// for, whose body is of this kind.
    pub fn answer_paused(
        &self,
        session: &str,
        p: &Json,
        blocked: bool,
        route: Option<usize>,
        kind: JsonKind,
    ) -> (r: Command)
        requires
            route is Some ==> route->0 < self.routes@.len(),
        ensures
            r@ == paused_answer(
                self@,
                session@,
                p@,
                blocked,
                match route {
                    Some(i) => Some(i as int),
                    None => None,
                },
                kind,
            ),
    {
        let id = p.at("requestId");
        if blocked {
            return Command::session(
                session,
                "Fetch.failRequest",
                Json::obj().with("requestId", id.clone()).with("errorReason", Json::str("BlockedByClient")),
            );
        }
        match route {
            Some(i) => {
                proof {
                    assert(self@.routes[i as int] == self.routes@[i as int]@);
                }
                answer_with(session, id, &self.routes[i], p.at("request").at("headers"), kind)
            },
            None => Command::session(session, "Fetch.continueRequest", Json::obj().with("requestId", id.clone())),
        }
    }

    fn screencast(&self, session: &str, p: &Json) -> (r: Vec<Action>)
        ensures
            text::views(r@) == video_frame(self@, session@, p@.at("data"@).text()) + watched_frame(self@, session@, p@)
                + seq![
                ActionV::Send(
                    cdp::to_session(
                        session@,
                        "Page.screencastFrameAck"@,
                        JsonV::obj().with("sessionId"@, p@.at("sessionId"@)),
                    ),
                ),
            ],
    {
        broadcast use text::group_views;
        let mut out: Vec<Action> = Vec::new();
        let ghost a = video_frame(self@, session@, p@.at("data"@).text());
        let ghost b = watched_frame(self@, session@, p@);
        match &self.video {
            Some(v) => if text::same(&v.session, session) {
                match encoding::decode(&p.at("data").text()) {
                    Some(data) => {
                        let mut name = "frame-".to_string();
                        name.append(&text::six_digits(v.frames.len() as u128));
                        name.append(".jpg");
                        out.push(Action::WriteFrame { path: path::join(&v.dir, &name), data });
                    },
                    None => {},
                }
            },
            None => {},
        }
        proof {
            assert(text::views(out@) =~= a);
        }
        let meta = p.at("metadata");
        let readable = match meta {
            Json::Obj(_) => true,
            Json::Null => true,
            _ => false,
        };
        if text::same_opt(&self.live, session) && readable {
            match publish(p) {
                Some(f) => {
                    out.push(Action::Publish(f));
                },
                None => {},
            }
        }
        proof {
            assert(text::views(out@) =~= a + b);
        }
        out.push(
            Action::Send(
                Command::session(
                    session,
                    "Page.screencastFrameAck",
                    Json::obj().with("sessionId", p.at("sessionId").clone()),
                ),
            ),
        );
        out
    }

    /// A picture of the running video has been written, `at` nanoseconds after it started.
    pub fn frame_written(&mut self, at: u64, path: String)
        ensures
            final(self)@ == (StateV {
                video: match old(self)@.video {
                    Some(v) => Some(VideoV { frames: v.frames.push((at as nat, path@)), ..v }),
                    None => None,
                },
                ..old(self)@
            }),
            same_routes(*final(self), *old(self)),
    {
        match &mut self.video {
            Some(v) => {
                let ghost before = v.frames@;
                v.frames.push((at, path));
                proof {
                    assert(state::timed(v.frames@) =~= state::timed(before).push((at as nat, path@)));
                }
            },
            None => {},
        }
    }
}

/// Takes an event into the state and says what it asks to be done. `connected` tells whether
/// commands can be sent yet.
pub fn on_event(ev: &Event, st: &mut State, connected: bool, cfg: &Config) -> (r: Vec<Action>)
    requires
        old(st).wf(),
    ensures
        final(st)@ == old(st)@.after(ev@, connected),
        text::views(r@) == actions_of(old(st)@, ev@, connected, cfg@),
        final(st).wf(),
{
    broadcast use text::group_views;
    let p = &ev.params;
    let m = ev.method.as_str();
    let ghost before = *st;
    let mut out: Vec<Action> = Vec::new();
    if text::same(m, "Target.attachedToTarget") {
        if connected {
            let child = p.at("sessionId").text();
            if p.at("targetInfo").at("type").is_str("page") {
                st.attached(p);
                out = single(Action::Init(child));
            } else {
                out = single(Action::Send(Command::session(&child, "Runtime.runIfWaitingForDebugger", Json::obj())));
            }
        }
    } else if text::same(m, "Target.detachedFromTarget") {
        match p.at("sessionId").as_str() {
            Some(s) => {
                st.detached(s);
            },
            None => {},
        }
    } else if text::same(m, "Target.targetInfoChanged") {
        st.info_changed(p.at("targetInfo"));
    } else if text::same(m, "Browser.downloadWillBegin") {
        st.download_begun(p);
    } else if text::same(m, "Browser.downloadProgress") {
        if !text::same(&p.at("state").text(), "inProgress") {
            out = st.download_over(p);
        } else {
            proof {
                reveal_strlit("inProgress");
                reveal_strlit("completed");
                assert("inProgress"@.len() == 10 && "completed"@.len() == 9);
            }
        }
    } else if text::same(m, "Runtime.bindingCalled") && p.at("name").is_str("__bmcpRecord") {
        st.recorded(p);
    } else if text::same(m, "Fetch.requestPaused") {
        match &ev.session_id {
            Some(s) => if connected {
                out = single(Action::Send(st.paused(s, p, cfg)));
                st.routed(s, p);
            },
            None => {},
        }
    } else if text::same(m, "Page.screencastFrame") {
        match &ev.session_id {
            Some(s) => if connected {
                out = st.screencast(s, p);
            },
            None => {},
        }
    } else if text::same(m, "__closed") {
        st.tabs.clear();
    } else {
        match &ev.session_id {
            Some(s) => match st.tab_by_session(s) {
                Some(i) => {
                    proof {
                        assert(st@.tabs[i as int] == st.tabs@[i as int]@);
                    }
                    page_events::on_page_event(ev, &mut st.tabs[i]);
                },
                None => {},
            },
            None => {},
        }
    }
    proof {
        law_events_keep_tabs_in_order(before@, ev@, connected);
        lemma_routes_same(before@, ev@, connected);
    }
    out
}

proof fn lemma_routes_same(st: StateV, ev: EventV, connected: bool)
    ensures
        st.after(ev, connected).routes == st.routes,
{
}

/// No event puts a tab out of order: the marks in its logs stay within them, its network log stays
/// bounded, and no request is under way twice.
pub proof fn law_events_keep_tabs_in_order(st: StateV, ev: EventV, connected: bool)
    requires
        st.tabs_wf(),
    ensures
        st.after(ev, connected).tabs_wf(),
{
    let after = st.after(ev, connected);
    let p = ev.params;
    state::lemma_session_index(st.tabs, p.at("sessionId"@).text());
    text::lemma_first_where(st.tabs, has_target(p.at("targetInfo"@).at("targetId"@)));
    if ev.session_id is Some {
        let s = ev.session_id->0;
        state::lemma_session_index(st.tabs, s);
        if st.tab_index(s) is Some {
            state::lemma_request_index(st.tabs[st.tab_index(s)->0].requests, p.at("networkId"@).text());
        }
    }
    assert forall|i: int| 0 <= i < after.tabs.len() implies (#[trigger] after.tabs[i]).wf() by {
        if i < st.tabs.len() {
            assert(st.tabs[i].wf());
            page_events::law_tab_stays_in_order(st.tabs[i], ev);
        }
        if i + 1 < st.tabs.len() {
            assert(st.tabs[i + 1].wf());
        }
    }
}

/// When a tab goes, the current tab stays the current one; when the current tab goes, some tab
/// that is left is current, if one is left.
pub proof fn law_current_tab_survives(st: StateV, session: Text)
    requires
        st.current < st.tabs.len(),
    ensures
        ({
            let after = st.detached(session);
            &&& after.current < after.tabs.len() || after.tabs.len() == 0
            &&& st.tabs[st.current as int].session_id != session ==> after.tabs.len() > 0
                && after.tabs[after.current as int] == st.tabs[st.current as int]
        }),
{
    state::lemma_session_index(st.tabs, session);
}

/// A session that was attached and then detached leaves the tabs as they were.
pub proof fn law_detach_undoes_attach(st: StateV, p: JsonV)
    requires
        st.tab_index(p.at("sessionId"@).text()) is None,
    ensures
        st.attached(p).detached(p.at("sessionId"@).text()).tabs == st.tabs,
{
    let session = p.at("sessionId"@).text();
    let a = st.attached(p);
    state::lemma_session_index(st.tabs, session);
    assert forall|k: int| 0 <= k < a.tabs.len() - 1 implies (#[trigger] a.tabs[k]).session_id != session by {
        assert(a.tabs[k] == st.tabs[k]);
    }
    state::lemma_first_session(a.tabs, session, a.tabs.len() - 1);
    assert(a.tabs.remove(a.tabs.len() - 1) =~= st.tabs);
}

/// The newest route wins: the route for a URL matches it, and none that came later does. Where no
/// route is for a URL, none matches it.
pub proof fn law_newest_route_wins(routes: Seq<RouteV>, url: Text, j: int)
    requires
        0 <= j < routes.len(),
    ensures
        match route_for(routes, url) {
            Some(i) => {
                &&& 0 <= i < routes.len()
                &&& pattern::regex_finds(pattern::glob_source(routes[i].pattern), false, url)
                &&& j > i ==> !pattern::regex_finds(pattern::glob_source(routes[j].pattern), false, url)
            },
            None => !pattern::regex_finds(pattern::glob_source(routes[j].pattern), false, url),
        },
    decreases routes.len(),
{
    if !pattern::regex_finds(pattern::glob_source(routes.last().pattern), false, url) {
        if j < routes.len() - 1 {
            law_newest_route_wins(routes.drop_last(), url, j);
        } else if routes.len() > 1 {
            law_newest_route_wins(routes.drop_last(), url, 0);
        } else {
            assert(routes.drop_last().len() == 0);
        }
    }
}

/// A request to a blocked origin is failed, whatever routes there are.
pub proof fn law_blocked_requests_fail(st: StateV, session: Text, p: JsonV, cfg: ConfigV)
    requires
        origin::block_reason(p.at("request"@).at("url"@).text(), cfg) is Some,
    ensures
        paused_command(st, session, p, cfg).method == "Fetch.failRequest"@,
{
}

proof fn lemma_event_names()
    ensures
        "__closed"@.len() == 8,
        "Fetch.requestPaused"@.len() == 19,
        "Page.screencastFrame"@.len() == 20,
        "Runtime.bindingCalled"@.len() == 21,
        "Target.attachedToTarget"@.len() == 23,
        "Target.targetInfoChanged"@.len() == 24 && "Target.targetInfoChanged"@[0] == 'T',
        "Browser.downloadProgress"@.len() == 24 && "Browser.downloadProgress"@[0] == 'B',
        "Target.detachedFromTarget"@.len() == 25 && "Target.detachedFromTarget"@[0] == 'T',
        "Browser.downloadWillBegin"@.len() == 25 && "Browser.downloadWillBegin"@[0] == 'B',
{
    reveal_strlit("Target.attachedToTarget");
    reveal_strlit("Target.detachedFromTarget");
    reveal_strlit("Target.targetInfoChanged");
    reveal_strlit("Browser.downloadWillBegin");
    reveal_strlit("Browser.downloadProgress");
    reveal_strlit("Runtime.bindingCalled");
    reveal_strlit("Fetch.requestPaused");
    reveal_strlit("Page.screencastFrame");
    reveal_strlit("__closed");
    assert("__closed"@.len() == 8);
    assert("Fetch.requestPaused"@.len() == 19);
    assert("Page.screencastFrame"@.len() == 20);
    assert("Runtime.bindingCalled"@.len() == 21);
    assert("Target.attachedToTarget"@.len() == 23);
    assert("Target.targetInfoChanged"@.len() == 24 && "Target.targetInfoChanged"@[0] == 'T');
    assert("Browser.downloadProgress"@.len() == 24 && "Browser.downloadProgress"@[0] == 'B');
    assert("Target.detachedFromTarget"@.len() == 25 && "Target.detachedFromTarget"@[0] == 'T');
    assert("Browser.downloadWillBegin"@.len() == 25 && "Browser.downloadWillBegin"@[0] == 'B');
}

/// A page that is attached becomes the last tab, with its target, session, address and title, and is set
/// up; the tabs before it, and which of them is current, stay. The client is told of one that a page
/// opened. Anything else that is attached is let run. Before commands can be sent nothing happens.
pub proof fn law_attached_pages_become_tabs(st: StateV, ev: EventV, connected: bool, cfg: ConfigV)
    requires
        ev.method == "Target.attachedToTarget"@,
    ensures
        ({
            let p = ev.params;
            let info = p.at("targetInfo"@);
            let child = p.at("sessionId"@).text();
            let a = st.after(ev, connected);
            let page = info.at("type"@) == JsonV::Str("page"@);
            &&& !connected || !page ==> a == st
            &&& connected && page ==> {
                &&& a == (StateV { tabs: a.tabs, notices: a.notices, ..st })
                &&& a.tabs.len() == st.tabs.len() + 1
                &&& a.tabs.drop_last() == st.tabs
                &&& a.tabs.last().target_id == info.at("targetId"@).text()
                &&& a.tabs.last().session_id == child
                &&& a.tabs.last().url == info.at("url"@).text()
                &&& a.tabs.last().title == info.at("title"@).text()
                &&& a.tabs.last().console.len() == 0 && a.tabs.last().requests.len() == 0
                &&& a.tabs.last().dialog is None && a.tabs.last().inflight.len() == 0 && !a.tabs.last().loading
                &&& a.notices == if info.at("openerId"@) is Str {
                    st.notices.push(
                        "A new tab was opened by the page (tab "@ + text::dec_int(st.tabs.len() as int)
                            + "); use browser_tabs to switch to it"@,
                    )
                } else {
                    st.notices
                }
            }
            &&& actions_of(st, ev, connected, cfg) == if !connected {
                Seq::empty()
            } else if page {
                seq![ActionV::Init(child)]
            } else {
                seq![
                    ActionV::Send(
                        CommandV {
                            session: Some(child),
                            method: "Runtime.runIfWaitingForDebugger"@,
                            params: JsonV::obj(),
                        },
                    ),
                ]
            }
        }),
{
    lemma_event_names();
    assert(st.attached(ev.params).tabs.drop_last() =~= st.tabs);
}

/// A session that is detached takes its tab with it and no other: the tabs before and behind it stay, in
/// their order.
pub proof fn law_detached_sessions_leave(st: StateV, ev: EventV, connected: bool, i: int)
    requires
        ev.method == "Target.detachedFromTarget"@,
        ev.params.at("sessionId"@) is Str,
        0 <= i < st.tabs.len(),
        st.tabs[i].session_id == ev.params.at("sessionId"@).text(),
        forall|k: int| 0 <= k < i ==> (#[trigger] st.tabs[k]).session_id != ev.params.at("sessionId"@).text(),
    ensures
        ({
            let a = st.after(ev, connected);
            &&& a == (StateV { tabs: a.tabs, current: a.current, ..st })
            &&& a.tabs == st.tabs.take(i) + st.tabs.skip(i + 1)
            &&& st.current < i ==> a.current == st.current
            &&& st.current > i ==> a.current == st.current - 1
        }),
{
    lemma_event_names();
    let s = ev.params.at("sessionId"@).text();
    state::lemma_session_index(st.tabs, s);
    assert(st.tab_index(s) == Some(i));
    assert(st.tabs.remove(i) =~= st.tabs.take(i) + st.tabs.skip(i + 1));
    if st.current < i {
        assert(st.current < st.tabs.len() - 1);
    }
}

/// What is told of a target reaches its tab: its address and its title, where they are told, and no
/// other tab.
pub proof fn law_target_info_reaches_its_tab(st: StateV, ev: EventV, connected: bool, k: int)
    requires
        ev.method == "Target.targetInfoChanged"@,
        0 <= k < st.tabs.len(),
    ensures
        ({
            let info = ev.params.at("targetInfo"@);
            let a = st.after(ev, connected);
            let mine = info.at("targetId"@) == JsonV::Str(st.tabs[k].target_id);
            &&& a == (StateV { tabs: a.tabs, ..st })
            &&& a.tabs.len() == st.tabs.len()
            &&& !mine ==> a.tabs[k] == st.tabs[k]
            &&& mine && (forall|j: int|
                0 <= j < k ==> info.at("targetId"@) != JsonV::Str((#[trigger] st.tabs[j]).target_id)) ==> a.tabs[k]
                == (TabV {
                url: if info.at("url"@) is Str {
                    info.at("url"@).text()
                } else {
                    st.tabs[k].url
                },
                title: if info.at("title"@) is Str {
                    info.at("title"@).text()
                } else {
                    st.tabs[k].title
                },
                ..st.tabs[k]
            })
        }),
{
    lemma_event_names();
    let info = ev.params.at("targetInfo"@);
    let f = has_target(info.at("targetId"@));
    text::lemma_first_where(st.tabs, f);
    match text::first_where(st.tabs, f) {
        Some(i) => {
            assert(f(st.tabs[i]));
            if i < k {
                assert(info.at("targetId"@) == JsonV::Str(st.tabs[i].target_id));
            } else if i > k {
                assert(!f(st.tabs[k]));
            }
        },
        None => {
            assert(!f(st.tabs[k]));
        },
    }
}

/// A download that begins is listed behind the others, in progress, under the name that is suggested for
/// it.
pub proof fn law_downloads_begin(st: StateV, ev: EventV, connected: bool)
    requires
        ev.method == "Browser.downloadWillBegin"@,
    ensures
        st.after(ev, connected) == (StateV {
            downloads: st.downloads.push(
                DownloadV {
                    guid: ev.params.at("guid"@).text(),
                    url: ev.params.at("url"@).text(),
                    filename: ev.params.at("suggestedFilename"@).text(),
                    state: "inProgress"@,
                },
            ),
            ..st
        }),
{
    lemma_event_names();
}

/// A download ends in the state that is told. A complete one is given its name; of any other end the
/// client is told. While it is in progress nothing changes, and other downloads never do.
pub proof fn law_downloads_end(st: StateV, ev: EventV, connected: bool, cfg: ConfigV, i: int)
    requires
        ev.method == "Browser.downloadProgress"@,
        0 <= i < st.downloads.len(),
        ev.params.at("guid"@) == JsonV::Str(st.downloads[i].guid),
        forall|k: int| 0 <= k < i ==> (#[trigger] st.downloads[k]).guid != st.downloads[i].guid,
        ev.params.at("state"@) is Str,
    ensures
        ({
            let how = ev.params.at("state"@).text();
            let d = st.downloads[i];
            let a = st.after(ev, connected);
            &&& how == "inProgress"@ ==> a == st && actions_of(st, ev, connected, cfg) == Seq::<ActionV>::empty()
            &&& how == "completed"@ ==> {
                &&& a == (StateV { downloads: st.downloads.update(i, DownloadV { state: "completed"@, ..d }), ..st })
                &&& actions_of(st, ev, connected, cfg) == seq![ActionV::NameDownload(d.guid, d.filename)]
            }
            &&& how != "inProgress"@ && how != "completed"@ ==> {
                &&& a == (StateV {
                    downloads: st.downloads.update(i, DownloadV { state: how, ..d }),
                    notices: st.notices.push("Download of \""@ + d.filename + "\" "@ + how),
                    ..st
                })
                &&& actions_of(st, ev, connected, cfg) == Seq::<ActionV>::empty()
            }
        }),
{
    lemma_event_names();
    reveal_strlit("inProgress");
    reveal_strlit("completed");
    assert("inProgress"@.len() == 10 && "completed"@.len() == 9);
    let f = has_guid(ev.params.at("guid"@));
    text::lemma_first_where(st.downloads, f);
    assert(f(st.downloads[i]));
    match text::first_where(st.downloads, f) {
        Some(k) => {
            assert(f(st.downloads[k]));
            if k < i {
                assert(st.downloads[k].guid == st.downloads[i].guid);
            } else if k > i {
                assert(!f(st.downloads[i]));
            }
        },
        None => {
            assert(!f(st.downloads[i]));
        },
    }
}

/// While it is recorded what a person does, each report that holds JSON is kept, behind the others; else
/// none is.
pub proof fn law_actions_are_recorded(st: StateV, ev: EventV, connected: bool)
    requires
        ev.method == "Runtime.bindingCalled"@,
        ev.params.at("name"@) == JsonV::Str("__bmcpRecord"@),
        ev.params.at("payload"@) is Str,
    ensures
        ({
            let said = ev.params.at("payload"@).text();
            st.after(ev, connected) == if st.recording is Some && encoding::json_kind_of(said) != JsonKind::Invalid {
                StateV { recording: Some(st.recording->0.push(said)), ..st }
            } else {
                st
            }
        }),
{
    lemma_event_names();
}

/// An event of a session changes the tab of that session and no other, nor anything but tabs: what it does
/// to the tab is what events of a page do.
pub proof fn law_page_events_reach_their_tab(st: StateV, ev: EventV, connected: bool, i: int)
    requires
        ev.method != "Target.attachedToTarget"@ && ev.method != "Target.detachedFromTarget"@ && ev.method
            != "Target.targetInfoChanged"@ && ev.method != "Browser.downloadWillBegin"@ && ev.method
            != "Browser.downloadProgress"@ && ev.method != "Runtime.bindingCalled"@ && ev.method
            != "Fetch.requestPaused"@ && ev.method != "Page.screencastFrame"@ && ev.method != "__closed"@,
        0 <= i < st.tabs.len(),
        ev.session_id == Some(st.tabs[i].session_id),
        forall|k: int| 0 <= k < i ==> (#[trigger] st.tabs[k]).session_id != st.tabs[i].session_id,
    ensures
        st.after(ev, connected) == (StateV { tabs: st.tabs.update(i, st.tabs[i].after(ev)), ..st }),
{
    state::lemma_session_index(st.tabs, st.tabs[i].session_id);
    assert(st.tab_index(st.tabs[i].session_id) == Some(i));
}

/// When the connection closes, no tab is left, and everything else stays.
pub proof fn law_closing_leaves_no_tab(st: StateV, ev: EventV, connected: bool)
    requires
        ev.method == "__closed"@,
    ensures
        st.after(ev, connected).tabs.len() == 0,
        st.after(ev, connected) == (StateV { tabs: Seq::empty(), ..st }),
{
    lemma_event_names();
}

/// Every picture of a screencast is acknowledged, last of all. A picture of the tab that a video is made of
/// is written to the video's directory under its number, one of the tab that a person watches is shown to
/// them, and a picture changes nothing of the state.
pub proof fn law_pictures_are_written_and_acknowledged(st: StateV, ev: EventV, cfg: ConfigV, s: Text)
    requires
        ev.method == "Page.screencastFrame"@,
        ev.session_id == Some(s),
    ensures
        ({
            let p = ev.params;
            let acts = actions_of(st, ev, true, cfg);
            let bytes = encoding::base64_bytes(p.at("data"@).text());
            let filmed = st.video is Some && (st.video->0).session == s && bytes is Some;
            let watched = st.live == Some(s) && bytes is Some && (p.at("metadata"@) is Obj || p.at("metadata"@) is Null);
            &&& st.after(ev, true) == st
            &&& acts.len() == 1 + (if filmed {
                1int
            } else {
                0
            }) + (if watched {
                1int
            } else {
                0
            })
            &&& acts.last() == ActionV::Send(
                CommandV {
                    session: Some(s),
                    method: "Page.screencastFrameAck"@,
                    params: JsonV::obj().with("sessionId"@, p.at("sessionId"@)),
                },
            )
            &&& filmed ==> acts[0] == ActionV::WriteFrame(
                path::joined_path(
                    (st.video->0).dir,
                    "frame-"@ + text::padded(text::dec((st.video->0).frames.len()), 6) + ".jpg"@,
                ),
                bytes->0,
            )
            &&& watched ==> acts[acts.len() - 2] == ActionV::Publish(
                json::json_text(p.at("metadata"@).put("t"@, JsonV::Str("frame"@))),
                bytes->0,
            )
        }),
{
    lemma_event_names();
}

/// A paused request is answered once, whatever it is: one to a blocked origin is failed, one that a route is
/// for gets what the newest such route says, and any other goes on as it is.
pub proof fn law_paused_requests_are_answered(st: StateV, ev: EventV, cfg: ConfigV, s: Text)
    requires
        ev.method == "Fetch.requestPaused"@,
        ev.session_id == Some(s),
    ensures
        ({
            let p = ev.params;
            let url = p.at("request"@).at("url"@).text();
            let acts = actions_of(st, ev, true, cfg);
            &&& acts.len() == 1
            &&& acts[0] is Send
            &&& (acts[0]->Send_0).session == Some(s)
            &&& origin::block_reason(url, cfg) is Some ==> acts[0]->Send_0 == (CommandV {
                session: Some(s),
                method: "Fetch.failRequest"@,
                params: JsonV::obj().with("requestId"@, p.at("requestId"@)).with(
                    "errorReason"@,
                    JsonV::Str("BlockedByClient"@),
                ),
            })
            &&& origin::block_reason(url, cfg) is None && route_for(st.routes, url) is None ==> acts[0]->Send_0
                == (CommandV {
                session: Some(s),
                method: "Fetch.continueRequest"@,
                params: JsonV::obj().with("requestId"@, p.at("requestId"@)),
            })
            &&& origin::block_reason(url, cfg) is None && route_for(st.routes, url) is Some ==> acts[0]->Send_0
                == route_command(
                s,
                p.at("requestId"@),
                st.routes[route_for(st.routes, url)->0],
                p.at("request"@).at("headers"@),
            )
        }),
{
    lemma_event_names();
}

/// A request that a route is for is marked as mocked in the log of its tab, and nothing else changes.
pub proof fn law_routed_requests_are_marked(st: StateV, ev: EventV, s: Text, i: int, k: int)
    requires
        ev.method == "Fetch.requestPaused"@,
        ev.session_id == Some(s),
        st.tab_index(s) == Some(i),
        ev.params.at("networkId"@) is Str,
        state::request_index(st.tabs[i].requests, ev.params.at("networkId"@).text()) == Some(k),
    ensures
        ({
            let t = st.tabs[i];
            st.after(ev, true) == if route_for(st.routes, ev.params.at("request"@).at("url"@).text()) is Some {
                StateV {
                    tabs: st.tabs.update(
                        i,
                        TabV { requests: t.requests.update(k, RequestV { from_route: true, ..t.requests[k] }), ..t },
                    ),
                    ..st
                }
            } else {
                st
            }
        }),
{
    lemma_event_names();
}

/// A route with a status or a body answers the request itself: with its status, or 200, its body, its
/// headers, a type of content and leave for every origin. The type is the one given, JSON for a body that
/// is a JSON object or array, and else plain text.
pub proof fn law_routes_answer_with_their_body(session: Text, id: JsonV, r: RouteV, req_headers: JsonV)
    requires
        r.status is Some || r.body is Some,
    ensures
        ({
            let c = route_command(session, id, r, req_headers);
            let body = if r.body is Some {
                r.body->0
            } else {
                Seq::empty()
            };
            let kind = encoding::json_kind_of(body);
            &&& c.session == Some(session)
            &&& c.method == "Fetch.fulfillRequest"@
            &&& c.params == JsonV::obj().with("requestId"@, id).with(
                "responseCode"@,
                JsonV::Int(
                    if r.status is Some {
                        r.status->0
                    } else {
                        200
                    },
                ),
            ).with("responseHeaders"@, header_list(answer_headers(r, kind))).with(
                "body"@,
                JsonV::Str(encoding::base64_text(vstd::utf8::encode_utf8(body))),
            )
            &&& answer_headers(r, kind) == r.headers.map_values(|h: (Text, Text)| (h.0, JsonV::Str(h.1))).push(
                (
                    "Content-Type"@,
                    JsonV::Str(
                        if r.content_type is Some {
                            r.content_type->0
                        } else if kind == JsonKind::Object || kind == JsonKind::Array {
                            "application/json"@
                        } else {
                            "text/plain"@
                        },
                    ),
                ),
            ).push(("Access-Control-Allow-Origin"@, JsonV::Str("*"@)))
        }),
{
    assert(header_values(r.headers) =~= r.headers.map_values(|h: (Text, Text)| (h.0, JsonV::Str(h.1))));
}

/// A route without status and body lets the request go on with other headers.
pub proof fn law_routes_change_headers(session: Text, id: JsonV, r: RouteV, req_headers: JsonV)
    requires
        r.status is None && r.body is None,
    ensures
        route_command(session, id, r, req_headers) == (CommandV {
            session: Some(session),
            method: "Fetch.continueRequest"@,
            params: JsonV::obj().with("requestId"@, id).with(
                "headers"@,
                header_list(set_headers(without_headers(req_headers.fields(), r.remove_headers), r.headers)),
            ),
        }),
{
}

/// Headers are written one by one, each with its name and its value, in their order.
pub proof fn law_headers_are_written(h: Seq<(Text, JsonV)>, i: int)
    requires
        0 <= i < h.len(),
    ensures
        header_list(h).elements().len() == h.len(),
        header_list(h).elements()[i] == JsonV::obj().with("name"@, JsonV::Str(h[i].0)).with("value"@, h[i].1),
{
}

/// Removing headers leaves those whose names are none of the given ones, in any letter case, in their
/// order.
pub proof fn law_removed_headers_are_gone(h: Seq<(Text, JsonV)>, names: Seq<Text>)
    ensures
        positions::shows(
            without_headers(h, names),
            h.len() as int,
            |j: int|
                forall|i: int|
                    0 <= i < names.len() ==> text::lowered(#[trigger] names[i]) != text::lowered(h[j].0),
            |j: int| h[j],
        ),
    decreases h.len(),
{
    let chosen = |j: int|
        forall|i: int| 0 <= i < names.len() ==> text::lowered(#[trigger] names[i]) != text::lowered(h[j].0);
    let show = |j: int| h[j];
    lemma_without_headers(h, names, h.len() as int, chosen, show);
    assert(h.take(h.len() as int) =~= h);
}

proof fn lemma_without_headers(
    h: Seq<(Text, JsonV)>,
    names: Seq<Text>,
    n: int,
    chosen: spec_fn(int) -> bool,
    show: spec_fn(int) -> (Text, JsonV),
)
    requires
        0 <= n <= h.len(),
        forall|j: int| 0 <= j < h.len() ==> #[trigger] chosen(j) == !names_header(names, h[j].0),
        forall|j: int| 0 <= j < h.len() ==> #[trigger] show(j) == h[j],
    ensures
        positions::shows(without_headers(h.take(n), names), n, chosen, show),
    decreases n,
{
    let list = without_headers(h.take(n), names);
    if n == 0 {
        positions::lemma_shows_none(list, chosen, show);
    } else {
        lemma_without_headers(h, names, n - 1, chosen, show);
        assert(h.take(n).drop_last() =~= h.take(n - 1));
        assert(h.take(n).last() == h[n - 1]);
        assert(chosen(n - 1) == !names_header(names, h[n - 1].0));
        assert(show(n - 1) == h[n - 1]);
        positions::lemma_shows_next(without_headers(h.take(n - 1), names), list, n - 1, chosen, show);
    }
}

/// A header that is set stands last, with its value, and no other header has its name; headers of other
/// names stay.
pub proof fn law_set_headers_stand_once(h: Seq<(Text, JsonV)>, before: Seq<(Text, Text)>, name: Text, value: Text, k: int)
    ensures
        ({
            let s = set_headers(h, before.push((name, value)));
            let was = set_headers(h, before);
            &&& s.len() > 0 && s.last() == (name, JsonV::Str(value))
            &&& 0 <= k < s.len() - 1 ==> text::lowered(s[k].0) != text::lowered(name)
            &&& 0 <= k < was.len() && text::lowered(was[k].0) != text::lowered(name) ==> s.contains(was[k])
        }),
        set_headers(h, Seq::empty()) == h,
{
    let all = before.push((name, value));
    assert(all.drop_last() =~= before);
    assert(all.last() == (name, value));
    let was = set_headers(h, before);
    let names = seq![name];
    let left = without_headers(was, names);
    let s = set_headers(h, all);
    assert(s == left.push((name, JsonV::Str(value))));
    let chosen = |j: int|
        forall|i: int| 0 <= i < names.len() ==> text::lowered(#[trigger] names[i]) != text::lowered(was[j].0);
    let show = |j: int| was[j];
    law_removed_headers_are_gone(was, names);
    if 0 <= k < s.len() - 1 {
        assert(left.contains(left[k]));
        positions::lemma_shown_only(left, was.len() as int, chosen, show, left[k]);
        let j = choose|j: int| 0 <= j < was.len() && #[trigger] chosen(j) && show(j) == left[k];
        assert(text::lowered(names[0]) != text::lowered(was[j].0));
        assert(s[k] == left[k]);
    }
    if 0 <= k < was.len() && text::lowered(was[k].0) != text::lowered(name) {
        assert forall|i: int| 0 <= i < names.len() implies text::lowered(#[trigger] names[i]) != text::lowered(was[k].0) by {}
        assert(chosen(k));
        positions::lemma_shown(left, was.len() as int, chosen, show, k);
        let p = choose|p: int| 0 <= p < left.len() && left[p] == was[k];
        assert(s[p] == was[k]);
    }
}

} // verus!
