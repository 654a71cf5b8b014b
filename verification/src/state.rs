//! What the server knows of the browser: its tabs with their console and network logs, routes,
//! downloads, a running recording or video.

use crate::json::Json;
use crate::json::JsonV;
use crate::pattern;
use crate::pattern::Pattern;
use crate::text;
use crate::text::Text;
use vstd::prelude::*;

verus! {

// ---------------------------------------------------------------------- console

pub struct ConsoleMsg {
    pub level: &'static str,
    pub text: String,
    pub location: String,
}

/// What a `ConsoleMsg` holds.
#[verifier::ext_equal]
pub struct ConsoleMsgV {
    pub level: Text,
    pub text: Text,
    pub location: Text,
}

impl View for ConsoleMsg {
    type V = ConsoleMsgV;

    open spec fn view(&self) -> ConsoleMsgV {
        ConsoleMsgV { level: self.level@, text: self.text@, location: self.location@ }
    }
}

// ---------------------------------------------------------------------- requests

pub struct Request {
    pub id: String,
    pub method: String,
    pub url: String,
    pub resource_type: String,
    pub request_headers: Json,
    pub post_data: Option<String>,
    pub status: Option<i64>,
    pub status_text: String,
    pub response_headers: Json,
    pub mime: String,
    pub failure: Option<String>,
    pub finished: bool,
    pub from_route: bool,
}

/// What a `Request` holds.
#[verifier::ext_equal]
pub struct RequestV {
    pub id: Text,
    pub method: Text,
    pub url: Text,
    pub resource_type: Text,
    pub request_headers: JsonV,
    pub post_data: Option<Text>,
    pub status: Option<int>,
    pub status_text: Text,
    pub response_headers: JsonV,
    pub mime: Text,
    pub failure: Option<Text>,
    pub finished: bool,
    pub from_route: bool,
}

/// An optional number by its value.
pub open spec fn opt_int(o: Option<i64>) -> Option<int> {
    match o {
        Some(i) => Some(i as int),
        None => None,
    }
}

impl View for Request {
    type V = RequestV;

    open spec fn view(&self) -> RequestV {
        RequestV {
            id: self.id@,
            method: self.method@,
            url: self.url@,
            resource_type: self.resource_type@,
            request_headers: self.request_headers@,
            post_data: text::opt_text(self.post_data),
            status: opt_int(self.status),
            status_text: self.status_text@,
            response_headers: self.response_headers@,
            mime: self.mime@,
            failure: text::opt_text(self.failure),
            finished: self.finished,
            from_route: self.from_route,
        }
    }
}

impl Clone for Request {
    fn clone(&self) -> (r: Request)
        ensures
            r@ == self@,
    {
        Request {
            id: self.id.clone(),
            method: self.method.clone(),
            url: self.url.clone(),
            resource_type: self.resource_type.clone(),
            request_headers: self.request_headers.clone(),
            post_data: text::copy_opt(&self.post_data),
            status: self.status,
            status_text: self.status_text.clone(),
            response_headers: self.response_headers.clone(),
            mime: self.mime.clone(),
            failure: text::copy_opt(&self.failure),
            finished: self.finished,
            from_route: self.from_route,
        }
    }
}

/// The position of the newest request with an id: an id comes back when a request is redirected.
pub open spec fn request_index(requests: Seq<RequestV>, id: Text) -> Option<int>
    decreases requests.len(),
{
    if requests.len() == 0 {
        None
    } else if requests.last().id == id {
        Some(requests.len() - 1)
    } else {
        request_index(requests.drop_last(), id)
    }
}

pub proof fn lemma_request_index(requests: Seq<RequestV>, id: Text)
    ensures
        match request_index(requests, id) {
            Some(i) => 0 <= i < requests.len() && requests[i].id == id,
            None => true,
        },
    decreases requests.len(),
{
    if requests.len() > 0 {
        lemma_request_index(requests.drop_last(), id);
    }
}

/// The position of the newest request with an id.
pub fn index_of(requests: &Vec<Request>, id: &str) -> (r: Option<usize>)
    ensures
        match r {
            Some(i) => request_index(text::views(requests@), id@) == Some(i as int) && i < requests@.len(),
            None => request_index(text::views(requests@), id@) is None,
        },
{
    let ghost all = text::views(requests@);
    let mut i: usize = requests.len();
    proof {
        assert(all.take(i as int) =~= all);
    }
    while i > 0
        invariant
            i <= requests@.len(),
            all == text::views(requests@),
            request_index(all, id@) == request_index(all.take(i as int), id@),
        decreases i,
    {
        proof {
            assert(all.take(i as int).drop_last() =~= all.take(i - 1));
            assert(all.take(i as int).last() == requests@[i - 1]@);
        }
        i = i - 1;
        if text::same(&requests[i].id, id) {
            return Some(i);
        }
    }
    None
}

// ---------------------------------------------------------------------- dialogs, downloads

pub struct Dialog {
    pub kind: String,
    pub message: String,
    pub default_prompt: String,
}

/// What a `Dialog` holds.
#[verifier::ext_equal]
pub struct DialogV {
    pub kind: Text,
    pub message: Text,
    pub default_prompt: Text,
}

impl View for Dialog {
    type V = DialogV;

    open spec fn view(&self) -> DialogV {
        DialogV { kind: self.kind@, message: self.message@, default_prompt: self.default_prompt@ }
    }
}

impl Clone for Dialog {
    fn clone(&self) -> (r: Dialog)
        ensures
            r@ == self@,
    {
        Dialog {
            kind: self.kind.clone(),
            message: self.message.clone(),
            default_prompt: self.default_prompt.clone(),
        }
    }
}

/// The view inside an option.
pub open spec fn opt_dialog(o: Option<Dialog>) -> Option<DialogV> {
    match o {
        Some(d) => Some(d@),
        None => None,
    }
}

pub struct Download {
    pub guid: String,
    pub url: String,
    pub filename: String,
    pub state: String,
}

/// What a `Download` holds.
#[verifier::ext_equal]
pub struct DownloadV {
    pub guid: Text,
    pub url: Text,
    pub filename: Text,
    pub state: Text,
}

impl View for Download {
    type V = DownloadV;

    open spec fn view(&self) -> DownloadV {
        DownloadV { guid: self.guid@, url: self.url@, filename: self.filename@, state: self.state@ }
    }
}

// ---------------------------------------------------------------------- routes

/// What to answer, or to change, where a request's URL matches a glob.
pub struct Route {
    pub pattern: String,
    pub regex: Pattern,
    pub status: Option<i64>,
    pub body: Option<String>,
    pub content_type: Option<String>,
    pub headers: Vec<(String, String)>,
    pub remove_headers: Vec<String>,
}

/// What a `Route` holds.
#[verifier::ext_equal]
pub struct RouteV {
    pub pattern: Text,
    pub status: Option<int>,
    pub body: Option<Text>,
    pub content_type: Option<Text>,
    pub headers: Seq<(Text, Text)>,
    pub remove_headers: Seq<Text>,
}

/// Pairs of strings by their texts.
pub open spec fn pairs(s: Seq<(String, String)>) -> Seq<(Text, Text)> {
    s.map_values(|p: (String, String)| (p.0@, p.1@))
}

impl View for Route {
    type V = RouteV;

    open spec fn view(&self) -> RouteV {
        RouteV {
            pattern: self.pattern@,
            status: opt_int(self.status),
            body: text::opt_text(self.body),
            content_type: text::opt_text(self.content_type),
            headers: pairs(self.headers@),
            remove_headers: text::views(self.remove_headers@),
        }
    }
}

impl Route {
    /// The expression was compiled from the glob.
    pub open spec fn wf(&self) -> bool {
        self.regex.source() == pattern::glob_source(self.pattern@) && !self.regex.fold()
    }

    /// Whether the route is for this URL.
    pub fn matches(&self, url: &str) -> (r: bool)
        requires
            self.wf(),
        ensures
            r == pattern::regex_finds(pattern::glob_source(self.pattern@), false, url@),
            !pattern::has_wildcard(self.pattern@) || pattern::glob_nodes(self.pattern@) is Some ==> r
                == pattern::glob_match(self.pattern@, url@),
    {
        pattern::url_matches(&self.pattern, &self.regex, url)
    }
}

// ---------------------------------------------------------------------- tabs

/// The network log of a tab keeps at most this many requests.
pub const MAX_REQUESTS: usize = 5000;

/// How many requests leave the log at once when it is full.
pub const DROP_REQUESTS: usize = 1000;

pub struct Tab {
    pub target_id: String,
    pub session_id: String,
    pub url: String,
    pub title: String,
    pub main_frame: String,
    pub world_ctx: Option<i64>,
    pub loader_id: String,
    pub loading: bool,
    pub ready: bool,
    pub console: Vec<ConsoleMsg>,
    /// Where the messages since the last navigation begin.
    pub console_nav_start: usize,
    /// Where the messages that no reply has counted begin.
    pub console_reported: usize,
    pub requests: Vec<Request>,
    /// Where the requests since the last navigation begin.
    pub requests_nav_start: usize,
    /// Ids of the requests that are under way, each once.
    pub inflight: Vec<String>,
    pub dialog: Option<Dialog>,
    pub file_chooser: Option<(i64, String)>,
    pub last_snapshot: Option<String>,
    pub nav_seq: u64,
    pub handoff_scripts: Vec<String>,
}

/// What a `Tab` holds.
#[verifier::ext_equal]
pub struct TabV {
    pub target_id: Text,
    pub session_id: Text,
    pub url: Text,
    pub title: Text,
    pub main_frame: Text,
    pub world_ctx: Option<int>,
    pub loader_id: Text,
    pub loading: bool,
    pub ready: bool,
    pub console: Seq<ConsoleMsgV>,
    pub console_nav_start: nat,
    pub console_reported: nat,
    pub requests: Seq<RequestV>,
    pub requests_nav_start: nat,
    pub inflight: Seq<Text>,
    pub dialog: Option<DialogV>,
    pub file_chooser: Option<(int, Text)>,
    pub last_snapshot: Option<Text>,
    pub nav_seq: u64,
    pub handoff_scripts: Seq<Text>,
}

/// The view inside an option.
pub open spec fn opt_chooser(o: Option<(i64, String)>) -> Option<(int, Text)> {
    match o {
        Some((n, m)) => Some((n as int, m@)),
        None => None,
    }
}

impl View for Tab {
    type V = TabV;

    open spec fn view(&self) -> TabV {
        TabV {
            target_id: self.target_id@,
            session_id: self.session_id@,
            url: self.url@,
            title: self.title@,
            main_frame: self.main_frame@,
            world_ctx: opt_int(self.world_ctx),
            loader_id: self.loader_id@,
            loading: self.loading,
            ready: self.ready,
            console: text::views(self.console@),
            console_nav_start: self.console_nav_start as nat,
            console_reported: self.console_reported as nat,
            requests: text::views(self.requests@),
            requests_nav_start: self.requests_nav_start as nat,
            inflight: text::views(self.inflight@),
            dialog: opt_dialog(self.dialog),
            file_chooser: opt_chooser(self.file_chooser),
            last_snapshot: text::opt_text(self.last_snapshot),
            nav_seq: self.nav_seq,
            handoff_scripts: text::views(self.handoff_scripts@),
        }
    }
}

impl TabV {
    /// The marks in the logs stand within them, the network log is bounded, and no request is
    /// under way twice.
    pub open spec fn wf(self) -> bool {
        &&& self.console_nav_start <= self.console.len()
        &&& self.console_reported <= self.console.len()
        &&& self.requests_nav_start <= self.requests.len()
        &&& self.requests.len() <= MAX_REQUESTS
        &&& self.inflight.no_duplicates()
    }
}

/// A tab that was just attached.
pub open spec fn new_tab(target_id: Text, session_id: Text, url: Text, title: Text) -> TabV {
    TabV {
        target_id,
        session_id,
        url,
        title,
        main_frame: Seq::empty(),
        world_ctx: None,
        loader_id: Seq::empty(),
        loading: false,
        ready: false,
        console: Seq::empty(),
        console_nav_start: 0,
        console_reported: 0,
        requests: Seq::empty(),
        requests_nav_start: 0,
        inflight: Seq::empty(),
        dialog: None,
        file_chooser: None,
        last_snapshot: None,
        nav_seq: 0,
        handoff_scripts: Seq::empty(),
    }
}

impl Tab {
    pub fn new(target_id: String, session_id: String, url: String, title: String) -> (r: Tab)
        ensures
            r@ == new_tab(target_id@, session_id@, url@, title@),
            r@.wf(),
    {
        broadcast use text::group_views;
        Tab {
            target_id,
            session_id,
            url,
            title,
            main_frame: String::new(),
            world_ctx: None,
            loader_id: String::new(),
            loading: false,
            ready: false,
            console: Vec::new(),
            console_nav_start: 0,
            console_reported: 0,
            requests: Vec::new(),
            requests_nav_start: 0,
            inflight: Vec::new(),
            dialog: None,
            file_chooser: None,
            last_snapshot: None,
            nav_seq: 0,
            handoff_scripts: Vec::new(),
        }
    }
}

// ---------------------------------------------------------------------- video

/// A screencast that is being recorded. Times are nanoseconds since it started.
pub struct Video {
    pub dir: String,
    pub filename: String,
    pub session: String,
    pub frames: Vec<(u64, String)>,
    pub chapters: Vec<(u64, String)>,
}

/// What a `Video` holds.
#[verifier::ext_equal]
pub struct VideoV {
    pub dir: Text,
    pub filename: Text,
    pub session: Text,
    pub frames: Seq<(nat, Text)>,
    pub chapters: Seq<(nat, Text)>,
}

/// Times with texts.
pub open spec fn timed(s: Seq<(u64, String)>) -> Seq<(nat, Text)> {
    s.map_values(|p: (u64, String)| (p.0 as nat, p.1@))
}

impl View for Video {
    type V = VideoV;

    open spec fn view(&self) -> VideoV {
        VideoV {
            dir: self.dir@,
            filename: self.filename@,
            session: self.session@,
            frames: timed(self.frames@),
            chapters: timed(self.chapters@),
        }
    }
}

/// The view inside an option.
pub open spec fn opt_video(o: Option<Video>) -> Option<VideoV> {
    match o {
        Some(v) => Some(v@),
        None => None,
    }
}

// ---------------------------------------------------------------------- the whole

pub struct State {
    pub tabs: Vec<Tab>,
    pub current: usize,
    pub routes: Vec<Route>,
    pub downloads: Vec<Download>,
    /// What a running recording has taken down: JSON texts.
    pub recording: Option<Vec<String>>,
    pub offline: bool,
    pub notices: Vec<String>,
    pub viewport: Option<(u32, u32)>,
    /// Where the mouse is, as JSON numbers.
    pub mouse: (Json, Json),
    /// Mouse buttons currently held, as a CDP `buttons` bitmask.
    pub buttons: i64,
    pub video: Option<Video>,
    pub show_actions: Option<u64>,
    /// Session most recently brought to front.
    pub front: Option<String>,
    /// Session whose screencast a person watches during a hand-off.
    pub live: Option<String>,
}

/// What a `State` holds.
#[verifier::ext_equal]
pub struct StateV {
    pub tabs: Seq<TabV>,
    pub current: nat,
    pub routes: Seq<RouteV>,
    pub downloads: Seq<DownloadV>,
    pub recording: Option<Seq<Text>>,
    pub offline: bool,
    pub notices: Seq<Text>,
    pub viewport: Option<(u32, u32)>,
    pub mouse: (JsonV, JsonV),
    pub buttons: i64,
    pub video: Option<VideoV>,
    pub show_actions: Option<u64>,
    pub front: Option<Text>,
    pub live: Option<Text>,
}

/// The texts inside an option.
pub open spec fn opt_texts(o: Option<Vec<String>>) -> Option<Seq<Text>> {
    match o {
        Some(v) => Some(text::views(v@)),
        None => None,
    }
}

impl View for State {
    type V = StateV;

    open spec fn view(&self) -> StateV {
        StateV {
            tabs: text::views(self.tabs@),
            current: self.current as nat,
            routes: text::views(self.routes@),
            downloads: text::views(self.downloads@),
            recording: opt_texts(self.recording),
            offline: self.offline,
            notices: text::views(self.notices@),
            viewport: self.viewport,
            mouse: (self.mouse.0@, self.mouse.1@),
            buttons: self.buttons,
            video: opt_video(self.video),
            show_actions: self.show_actions,
            front: text::opt_text(self.front),
            live: text::opt_text(self.live),
        }
    }
}

impl StateV {
    /// Every tab is in order.
    pub open spec fn tabs_wf(self) -> bool {
        forall|i: int| 0 <= i < self.tabs.len() ==> (#[trigger] self.tabs[i]).wf()
    }

    /// No two routes are for the same glob.
    pub open spec fn routes_distinct(self) -> bool {
        forall|i: int, j: int|
            0 <= i < j < self.routes.len() ==> (#[trigger] self.routes[i]).pattern != (#[trigger] self.routes[j]).pattern
    }

    /// The position of the first tab of a session.
    pub open spec fn tab_index(self, session: Text) -> Option<int> {
        session_index(self.tabs, session)
    }

    /// One tab put in another's place.
    pub open spec fn with_tab(self, i: int, t: TabV) -> StateV {
        StateV { tabs: self.tabs.update(i, t), ..self }
    }
}

/// The position of the first tab of a session.
pub open spec fn session_index(tabs: Seq<TabV>, session: Text) -> Option<int>
    decreases tabs.len(),
{
    if tabs.len() == 0 {
        None
    } else {
        match session_index(tabs.drop_last(), session) {
            Some(i) => Some(i),
            None => if tabs.last().session_id == session {
                Some(tabs.len() - 1)
            } else {
                None
            },
        }
    }
}

pub proof fn lemma_session_index(tabs: Seq<TabV>, session: Text)
    ensures
        match session_index(tabs, session) {
            Some(i) => 0 <= i < tabs.len() && tabs[i].session_id == session && forall|k: int|
                0 <= k < i ==> (#[trigger] tabs[k]).session_id != session,
            None => forall|k: int| 0 <= k < tabs.len() ==> (#[trigger] tabs[k]).session_id != session,
        },
    decreases tabs.len(),
{
    if tabs.len() > 0 {
        lemma_session_index(tabs.drop_last(), session);
        assert forall|k: int| 0 <= k < tabs.len() - 1 implies #[trigger] tabs[k] == tabs.drop_last()[k] by {}
    }
}

/// A search that ends at the first tab of a session is right.
pub proof fn lemma_first_session(tabs: Seq<TabV>, session: Text, i: int)
    requires
        0 <= i < tabs.len(),
        tabs[i].session_id == session,
        forall|k: int| 0 <= k < i ==> (#[trigger] tabs[k]).session_id != session,
    ensures
        session_index(tabs, session) == Some(i),
{
    lemma_session_index(tabs, session);
    assert(tabs[i].session_id == session);
    let f = session_index(tabs, session);
    if f is Some && f->0 > i {
        assert(tabs[i].session_id != session);
    }
    if f is Some && f->0 < i {
        assert(tabs[f->0].session_id != session);
    }
}

/// The state before a browser runs.
pub open spec fn fresh_state(viewport: Option<(u32, u32)>) -> StateV {
    StateV {
        tabs: Seq::empty(),
        current: 0,
        routes: Seq::empty(),
        downloads: Seq::empty(),
        recording: None,
        offline: false,
        notices: Seq::empty(),
        viewport,
        mouse: (JsonV::Float("0.0"@), JsonV::Float("0.0"@)),
        buttons: 0,
        video: None,
        show_actions: None,
        front: None,
        live: None,
    }
}

impl State {
    /// The tabs are in order, no glob has two routes, and every route's expression was compiled
    /// from its glob.
    pub open spec fn wf(&self) -> bool {
        &&& self@.tabs_wf()
        &&& self@.routes_distinct()
        &&& forall|i: int| 0 <= i < self.routes@.len() ==> (#[trigger] self.routes@[i]).wf()
    }

    pub fn new(viewport: Option<(u32, u32)>) -> (r: State)
        ensures
            r@ == fresh_state(viewport),
            r.wf(),
    {
        broadcast use text::group_views;
        State {
            tabs: Vec::new(),
            current: 0,
            routes: Vec::new(),
            downloads: Vec::new(),
            recording: None,
            offline: false,
            notices: Vec::new(),
            viewport,
            mouse: (Json::Float("0.0".to_string()), Json::Float("0.0".to_string())),
            buttons: 0,
            video: None,
            show_actions: None,
            front: None,
            live: None,
        }
    }

    /// The position of the first tab of a session.
    pub fn tab_by_session(&self, session: &str) -> (r: Option<usize>)
        ensures
            match r {
                Some(i) => self@.tab_index(session@) == Some(i as int) && i < self.tabs@.len()
                    && self.tabs@[i as int].session_id@ == session@,
                None => self@.tab_index(session@) is None,
            },
    {
        let ghost all = text::views(self.tabs@);
        let mut i: usize = 0;
        while i < self.tabs.len()
            invariant
                i <= self.tabs@.len(),
                all == text::views(self.tabs@),
                forall|k: int| 0 <= k < i ==> (#[trigger] all[k]).session_id != session@,
            decreases self.tabs@.len() - i,
        {
            proof {
                assert(all[i as int] == self.tabs@[i as int]@);
            }
            if text::same(&self.tabs[i].session_id, session) {
                proof {
                    lemma_first_session(all, session@, i as int);
                }
                return Some(i);
            }
            i = i + 1;
        }
        proof {
            lemma_session_index(all, session@);
        }
        None
    }

    /// The sessions of all tabs, in order.
    pub fn sessions(&self) -> (r: Vec<String>)
        ensures
            text::views(r@) == session_ids(self@.tabs),
    {
        let mut out: Vec<String> = Vec::new();
        let mut i: usize = 0;
        while i < self.tabs.len()
            invariant
                i <= self.tabs@.len(),
                out@.len() == i,
                forall|k: int| 0 <= k < i ==> (#[trigger] out@[k])@ == self.tabs@[k].session_id@,
            decreases self.tabs@.len() - i,
        {
            out.push(self.tabs[i].session_id.clone());
            i = i + 1;
        }
        proof {
            assert(text::views(out@) =~= session_ids(self@.tabs));
        }
        out
    }
}

/// The sessions of some tabs.
pub open spec fn session_ids(tabs: Seq<TabV>) -> Seq<Text> {
    tabs.map_values(|t: TabV| t.session_id)
}

/// The request that an id stands for is the newest one with that id, and there is one wherever some
/// request has the id.
pub proof fn law_newest_request_of_an_id(requests: Seq<RequestV>, id: Text)
    ensures
        match request_index(requests, id) {
            Some(i) => 0 <= i < requests.len() && requests[i].id == id && forall|k: int|
                i < k < requests.len() ==> (#[trigger] requests[k]).id != id,
            None => forall|k: int| 0 <= k < requests.len() ==> (#[trigger] requests[k]).id != id,
        },
    decreases requests.len(),
{
    if requests.len() > 0 {
        law_newest_request_of_an_id(requests.drop_last(), id);
        assert forall|k: int| 0 <= k < requests.len() - 1 implies #[trigger] requests[k] == requests.drop_last()[k] by {}
    }
}

/// Before a browser runs nothing is open, routed, loaded, recorded, held or watched, and the network is there.
pub proof fn law_fresh_states(viewport: Option<(u32, u32)>)
    ensures
        ({
            let s = fresh_state(viewport);
            &&& s.tabs.len() == 0 && s.current == 0 && s.routes.len() == 0 && s.downloads.len() == 0
            &&& s.notices.len() == 0 && s.recording is None && !s.offline && s.viewport == viewport
            &&& s.buttons == 0 && s.video is None && s.show_actions is None && s.front is None && s.live is None
            &&& s.mouse == (JsonV::Float("0.0"@), JsonV::Float("0.0"@))
        }),
{
}

/// A tab that was just attached has nothing but its target, its session, its address and its title.
pub proof fn law_new_tabs(target: Text, session: Text, url: Text, title: Text)
    ensures
        ({
            let t = new_tab(target, session, url, title);
            &&& t.target_id == target && t.session_id == session && t.url == url && t.title == title
            &&& t.main_frame.len() == 0 && t.loader_id.len() == 0 && t.world_ctx is None && !t.loading && !t.ready
            &&& t.console.len() == 0 && t.console_nav_start == 0 && t.console_reported == 0
            &&& t.requests.len() == 0 && t.requests_nav_start == 0 && t.inflight.len() == 0
            &&& t.dialog is None && t.file_chooser is None && t.last_snapshot is None && t.nav_seq == 0
            &&& t.handoff_scripts.len() == 0
        }),
{
}

/// The sessions of tabs are those of each of them, in order.
pub proof fn law_sessions_of_tabs(tabs: Seq<TabV>, i: int)
    requires
        0 <= i < tabs.len(),
    ensures
        session_ids(tabs).len() == tabs.len(),
        session_ids(tabs)[i] == tabs[i].session_id,
{
}

} // verus!
