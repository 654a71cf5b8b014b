//! Browser lifecycle: what is running, which tab is current, and how navigation and evaluation go on
//! from one reply of the browser to the next.

use crate::cdp;
use crate::cdp::Command;
use crate::cdp::CommandV;
use crate::cdp::Event;
use crate::config::Config;
use crate::config::ConfigV;
use crate::json;
use crate::json::Json;
use crate::json::JsonV;
use crate::origin;
use crate::page_events::WORLD;
use crate::state;
use crate::state::Request;
use crate::state::RequestV;
use crate::state::State;
use crate::state::StateV;
use crate::state::TabV;
use crate::text;
use crate::text::Text;
use vstd::prelude::*;

verus! {

// ---------------------------------------------------------------------- what is running

/// A browser that was launched.
pub struct Running {
    pub headless: bool,
    pub profile: String,
    /// The profile is thrown away when the browser is closed.
    pub temp_profile: bool,
    /// The connection is gone.
    pub closed: bool,
}

/// What a `Running` holds.
#[verifier::ext_equal]
pub struct RunningV {
    pub headless: bool,
    pub profile: Text,
    pub temp_profile: bool,
    pub closed: bool,
}

impl View for Running {
    type V = RunningV;

    open spec fn view(&self) -> RunningV {
        RunningV {
            headless: self.headless,
            profile: self.profile@,
            temp_profile: self.temp_profile,
            closed: self.closed,
        }
    }
}

/// The view inside an option.
pub open spec fn opt_running(o: Option<Running>) -> Option<RunningV> {
    match o {
        Some(r) => Some(r@),
        None => None,
    }
}

/// What a single call asks for in place of the settings.
pub struct Overrides {
    pub snapshot: Option<String>,
    /// In milliseconds.
    pub timeout: Option<u64>,
}

/// What the library keeps of the browser.
pub struct Browser {
    pub cfg: Config,
    pub state: State,
    pub running: Option<Running>,
    /// Mode the next launch uses.
    pub want_headless: bool,
    pub overrides: Overrides,
}

/// What a `Browser` holds.
#[verifier::ext_equal]
pub struct BrowserV {
    pub cfg: ConfigV,
    pub state: StateV,
    pub running: Option<RunningV>,
    pub want_headless: bool,
    pub snapshot: Option<Text>,
    pub timeout: Option<u64>,
}

impl View for Browser {
    type V = BrowserV;

    open spec fn view(&self) -> BrowserV {
        BrowserV {
            cfg: self.cfg@,
            state: self.state@,
            running: opt_running(self.running),
            want_headless: self.want_headless,
            snapshot: text::opt_text(self.overrides.snapshot),
            timeout: self.overrides.timeout,
        }
    }
}

/// What a tool needs to talk to the current tab.
pub struct PageRef {
    pub session: String,
    pub target_id: String,
}

/// What is to be done for a connection to the browser.
pub enum Connect {
    /// There is one.
    Use,
    /// Launch a browser; `stale` is what a browser that went away left behind.
    Launch { headless: bool, stale: Option<Running> },
}

/// Where finding a page has come to.
pub enum PageStep {
    /// The current tab.
    Found(PageRef),
    /// No tab is open: open one, as on the next call after every tab was closed.
    OpenTab,
    /// No tab is open, and it is too late to open one.
    GiveUp(String),
}

impl BrowserV {
    /// A browser runs and can be reached.
    pub open spec fn live(self) -> bool {
        self.running is Some && !(self.running->0).closed
    }

    /// The tab that tools act on.
    pub open spec fn current_tab(self) -> Option<TabV> {
        if self.state.current < self.state.tabs.len() {
            Some(self.state.tabs[self.state.current as int])
        } else {
            None
        }
    }

    /// The tab of a session.
    pub open spec fn tab(self, session: Text) -> Option<TabV> {
        match self.state.tab_index(session) {
            Some(i) => Some(self.state.tabs[i]),
            None => None,
        }
    }
}

/// A command without parameters to the tab of a session.
pub open spec fn plain_command(session: Text, method: Text) -> CommandV {
    cdp::to_session(session, method, JsonV::obj())
}

impl Browser {
    /// The settings and the state are in order.
    pub open spec fn wf(&self) -> bool {
        self.cfg.wf() && self.state.wf()
    }

    pub fn new(cfg: Config) -> (r: Browser)
        requires
            cfg.wf(),
        ensures
            r@ == (BrowserV {
                cfg: cfg@,
                state: state::fresh_state(cfg@.viewport),
                running: None,
                want_headless: cfg@.headless,
                snapshot: None,
                timeout: None,
            }),
            r.wf(),
    {
        let viewport = cfg.viewport;
        let headless = cfg.headless;
        Browser {
            cfg,
            state: State::new(viewport),
            running: None,
            want_headless: headless,
            overrides: Overrides { snapshot: None, timeout: None },
        }
    }

    pub fn is_running(&self) -> (r: bool)
        ensures
            r == self@.live(),
    {
        match &self.running {
            Some(x) => !x.closed,
            None => false,
        }
    }

    /// The mode of the running browser, or of the next one.
    pub fn is_headless(&self) -> (r: bool)
        ensures
            r == if self@.live() {
                (self@.running->0).headless
            } else {
                self@.want_headless
            },
    {
        match &self.running {
            Some(x) => if !x.closed {
                x.headless
            } else {
                self.want_headless
            },
            None => self.want_headless,
        }
    }

    /// Whether a browser has to be launched: on first use, or after it was closed.
    pub fn cdp(&mut self) -> (r: Connect)
        requires
            old(self).wf(),
        ensures
            final(self).wf(),
            if old(self)@.live() {
                r is Use && final(self)@ == old(self)@
            } else {
                &&& final(self)@ == (BrowserV { running: None, ..old(self)@ })
                &&& r matches Connect::Launch { headless, stale } && headless == old(self)@.want_headless && opt_running(
                    stale,
                ) == old(self)@.running
            },
    {
        if self.is_running() {
            return Connect::Use;
        }
        let stale = self.running.take();
        Connect::Launch { headless: self.want_headless, stale }
    }

    /// A browser was launched: its tabs are yet to be attached.
    pub fn starting(&mut self)
        requires
            old(self).wf(),
        ensures
            final(self)@ == (BrowserV {
                state: StateV { tabs: Seq::empty(), current: 0, ..old(self)@.state },
                ..old(self)@
            }),
            final(self).wf(),
    {
        broadcast use text::group_views;
        self.state.tabs.clear();
        self.state.current = 0;
    }

    /// Takes the running browser away to be shut down. `None` where none was running.
    pub fn close(&mut self) -> (r: Option<Running>)
        requires
            old(self).wf(),
        ensures
            opt_running(r) == old(self)@.running,
            final(self)@ == match old(self)@.running {
                Some(_) => BrowserV {
                    running: None,
                    state: StateV { tabs: Seq::empty(), ..old(self)@.state },
                    ..old(self)@
                },
                None => old(self)@,
            },
            final(self).wf(),
    {
        broadcast use text::group_views;
        let r = self.running.take();
        if r.is_some() {
            self.state.tabs.clear();
        }
        r
    }

    // ------------------------------------------------------------------ tabs

    /// The page that tools act on. `late` tells that the time for finding one is over.
    pub fn page(&self, late: bool) -> (r: PageStep)
        ensures
            match self@.current_tab() {
                Some(t) => r matches PageStep::Found(p) && p.session@ == t.session_id && p.target_id@ == t.target_id,
                None => if late {
                    r matches PageStep::GiveUp(e) && e@ == "browser has no open page"@
                } else {
                    r is OpenTab
                },
            },
    {
        if self.state.current < self.state.tabs.len() {
            let t = &self.state.tabs[self.state.current];
            proof {
                assert(self@.state.tabs[self.state.current as int] == self.state.tabs@[self.state.current as int]@);
            }
            PageStep::Found(PageRef { session: t.session_id.clone(), target_id: t.target_id.clone() })
        } else if late {
            PageStep::GiveUp("browser has no open page".to_string())
        } else {
            PageStep::OpenTab
        }
    }

    /// Whether a page is initialized; one that goes away meanwhile is waited for no longer. `late` tells
    /// that the time for it is over.
    pub fn page_ready(&self, session: &str, late: bool) -> (r: TabWait)
        ensures
            match self@.tab(session@) {
                Some(t) => if t.ready {
                    r is Over
                } else if late {
                    r matches TabWait::Fail(e) && e@ == "tab did not become ready"@
                } else {
                    r is Wait
                },
                None => r is Over,
            },
    {
        match self.tab_read(session) {
            Ok(i) => if self.state.tabs[i].ready {
                TabWait::Over
            } else if late {
                TabWait::Fail("tab did not become ready".to_string())
            } else {
                TabWait::Wait
            },
            Err(_) => TabWait::Over,
        }
    }

    /// Only the foreground tab renders (timers, rAF, screencast), so the current tab is brought to
    /// the front whenever it changes.
    pub fn to_front(&mut self, session: &str) -> (r: Option<Command>)
        requires
            old(self).wf(),
        ensures
            final(self)@ == (BrowserV {
                state: StateV { front: Some(session@), ..old(self)@.state },
                ..old(self)@
            }),
            final(self).wf(),
            match r {
                Some(c) => old(self)@.state.front != Some(session@) && c@ == plain_command(
                    session@,
                    "Page.bringToFront"@,
                ),
                None => old(self)@.state.front == Some(session@),
            },
    {
        if text::same_opt(&self.state.front, session) {
            return None;
        }
        self.state.front = Some(session.to_string());
        Some(Command::session(session, "Page.bringToFront", Json::obj()))
    }

    /// The position of the tab of a session.
    pub fn tab_read(&self, session: &str) -> (r: Result<usize, String>)
        ensures
            match r {
                Ok(i) => self@.state.tab_index(session@) == Some(i as int) && i < self.state.tabs@.len()
                    && self.state.tabs@[i as int]@ == self@.state.tabs[i as int],
                Err(e) => self@.state.tab_index(session@) is None && e@ == "the tab was closed"@,
            },
    {
        match self.state.tab_by_session(session) {
            Some(i) => {
                proof {
                    assert(self.state.tabs@[i as int]@ == self@.state.tabs[i as int]);
                }
                Ok(i)
            },
            None => Err("the tab was closed".to_string()),
        }
    }

    /// Makes the tab of a target current, where there is one.
    pub fn select_target(&mut self, target_id: &str)
        requires
            old(self).wf(),
        ensures
            final(self)@ == (BrowserV {
                state: StateV {
                    current: match target_index(old(self)@.state.tabs, target_id@) {
                        Some(i) => i as nat,
                        None => old(self)@.state.current,
                    },
                    ..old(self)@.state
                },
                ..old(self)@
            }),
            final(self).wf(),
    {
        match self.find_target(target_id) {
            Some(i) => {
                self.state.current = i;
            },
            None => {},
        }
    }

    /// The position of the first tab of a target.
    pub fn find_target(&self, target_id: &str) -> (r: Option<usize>)
        ensures
            match r {
                Some(i) => target_index(self@.state.tabs, target_id@) == Some(i as int) && i < self.state.tabs@.len(),
                None => target_index(self@.state.tabs, target_id@) is None,
            },
    {
        let ghost all = self@.state.tabs;
        let ghost f = |t: TabV| t.target_id == target_id@;
        let mut i: usize = 0;
        while i < self.state.tabs.len()
            invariant
                i <= self.state.tabs@.len(),
                all == text::views(self.state.tabs@),
                f == (|t: TabV| t.target_id == target_id@),
                forall|k: int| 0 <= k < i ==> !f(#[trigger] all[k]),
            decreases self.state.tabs@.len() - i,
        {
            proof {
                assert(all[i as int] == self.state.tabs@[i as int]@);
            }
            if text::same(&self.state.tabs[i].target_id, target_id) {
                proof {
                    text::lemma_found(all, f, i as int);
                }
                return Some(i);
            }
            i = i + 1;
        }
        proof {
            text::lemma_first_where(all, f);
        }
        None
    }
}

/// The position of the first tab of a target.
pub open spec fn target_index(tabs: Seq<TabV>, target_id: Text) -> Option<int> {
    text::first_where(tabs, |t: TabV| t.target_id == target_id)
}

// ---------------------------------------------------------------------- navigation

/// How a navigation goes on.
pub enum Navigation {
    /// It is done: within the document, or as a download.
    Done,
    /// The document with this loader must finish loading.
    Wait(String),
    Fail(String),
}

/// A download of an address is in the log.
pub open spec fn downloading(st: StateV, url: Text) -> bool {
    exists|i: int| 0 <= i < st.downloads.len() && (#[trigger] st.downloads[i]).url == url
}

/// How far a page has come to load.
pub enum Loading {
    Done,
    Busy,
    /// The tab is gone.
    Closed(String),
}

impl Browser {
    /// Refuses addresses that the settings do not let through.
    pub fn check_origin(&self, url: &str) -> (r: Result<(), String>)
        ensures
            match origin::block_reason(url@, self@.cfg) {
                Some(reason) => r matches Err(e) && e@ == reason,
                None => r is Ok,
            },
    {
        match origin::origin_blocked(url, &self.cfg) {
            Some(reason) => Err(reason),
            None => Ok(()),
        }
    }

    /// The command that navigates a tab to an address, completed where needed.
    pub fn navigate(&self, session: &str, url: &str) -> (r: Result<Command, String>)
        ensures
            match (origin::block_reason(origin::full_url(url@), self@.cfg), r) {
                (Some(reason), Err(e)) => e@ == reason,
                (None, Ok(c)) => c@ == cdp::to_session(
                    session@,
                    "Page.navigate"@,
                    JsonV::obj().with("url"@, JsonV::Str(origin::full_url(url@))),
                ),
                _ => false,
            },
    {
        let full = origin::normalize_url(url);
        match self.check_origin(&full) {
            Ok(_) => Ok(Command::session(session, "Page.navigate", Json::obj().with("url", Json::Str(full)))),
            Err(e) => Err(e),
        }
    }

    fn is_downloading(&self, url: &str) -> (r: bool)
        ensures
            r == downloading(self@.state, url@),
    {
        let ghost all = self@.state.downloads;
        let mut i: usize = 0;
        while i < self.state.downloads.len()
            invariant
                i <= self.state.downloads@.len(),
                all == text::views(self.state.downloads@),
                all == self@.state.downloads,
                forall|k: int| 0 <= k < i ==> (#[trigger] all[k]).url != url@,
            decreases self.state.downloads@.len() - i,
        {
            proof {
                assert(all[i as int] == self.state.downloads@[i as int]@);
            }
            if text::same(&self.state.downloads[i].url, url) {
                return true;
            }
            i = i + 1;
        }
        false
    }

    /// How a navigation to `url` goes on after the browser's reply. Navigating to a file download
    /// aborts the navigation but starts a download.
    pub fn navigated(&self, url: &str, res: &Json) -> (r: Navigation)
        ensures
            ({
                let e = res@.at("errorText"@).text();
                if e.len() > 0 {
                    if e == "net::ERR_ABORTED"@ && downloading(self@.state, url@) {
                        r is Done
                    } else {
                        r matches Navigation::Fail(m) && m@ == "navigation to "@ + url@ + " failed: "@ + e
                    }
                } else {
                    match res@.at("loaderId"@).as_text() {
                        Some(l) => r matches Navigation::Wait(x) && x@ == l,
                        None => r is Done,
                    }
                }
            }),
    {
        let e = res.at("errorText").text();
        if !e.as_str().is_empty() {
            if text::same(&e, "net::ERR_ABORTED") && self.is_downloading(url) {
                return Navigation::Done;
            }
            let mut m = "navigation to ".to_string();
            m.append(url);
            m.append(" failed: ");
            m.append(&e);
            return Navigation::Fail(m);
        }
        match res.at("loaderId").as_text() {
            Some(l) => Navigation::Wait(l),
            None => Navigation::Done,
        }
    }

    /// Whether the document with a loader has finished loading.
    pub fn loading(&self, session: &str, loader: &str) -> (r: Loading)
        ensures
            match self@.tab(session@) {
                Some(t) => if t.loader_id == loader@ && !t.loading {
                    r is Done
                } else {
                    r is Busy
                },
                None => r matches Loading::Closed(e) && e@ == "tab closed during navigation"@,
            },
    {
        match self.state.tab_by_session(session) {
            Some(i) => {
                proof {
                    assert(self@.state.tabs[i as int] == self.state.tabs@[i as int]@);
                }
                if text::same(&self.state.tabs[i].loader_id, loader) && !self.state.tabs[i].loading {
                    Loading::Done
                } else {
                    Loading::Busy
                }
            },
            None => Loading::Closed("tab closed during navigation".to_string()),
        }
    }

    /// The refusal of a navigation that took too long.
    pub fn navigation_timeout(&self, url: &str) -> (r: String)
        ensures
            r@ == "navigation to "@ + url@ + " timed out after "@ + text::dec(self@.cfg.timeout_navigation) + "ms"@,
    {
        let mut s = "navigation to ".to_string();
        s.append(url);
        s.append(" timed out after ");
        s.append(&text::decimal(self.cfg.timeout_navigation as u128));
        s.append("ms");
        s
    }
}

// ---------------------------------------------------------------------- settling

/// The request holds a page up: it is under way, and a page waits for it.
pub open spec fn holds_up(r: RequestV) -> bool {
    !r.finished && (r.resource_type == "Fetch"@ || r.resource_type == "XHR"@ || r.resource_type == "Document"@)
}

/// Some request from position `from` on holds the page up.
pub open spec fn busy_from(requests: Seq<RequestV>, from: int) -> bool {
    exists|i: int| from <= i < requests.len() && holds_up(#[trigger] requests[i])
}

/// What an action set off has come to rest: the tab is gone, a dialog is open, nothing is under way
/// (neither a navigation it started nor a request), or the time for that is over.
pub open spec fn settled(b: BrowserV, session: Text, nav_seq: u64, requests: nat, elapsed: nat) -> bool {
    match b.tab(session) {
        None => true,
        Some(t) => {
            let navigated = t.nav_seq != nav_seq;
            let busy = busy_from(t.requests, requests as int);
            let limit = if navigated {
                b.cfg.timeout_navigation
            } else {
                b.cfg.timeout_settle
            };
            t.dialog is Some || (!(t.loading && navigated) && !busy) || elapsed > limit
        },
    }
}

fn any_busy(requests: &Vec<Request>, from: usize) -> (r: bool)
    ensures
        r == busy_from(text::views(requests@), from as int),
{
    let ghost all = text::views(requests@);
    let mut i: usize = from;
    while i < requests.len()
        invariant
            from <= i,
            i <= requests@.len() || i == from,
            all == text::views(requests@),
            forall|k: int| from <= k < i && k < all.len() ==> !holds_up(#[trigger] all[k]),
        decreases requests@.len() - i,
    {
        proof {
            assert(all[i as int] == requests@[i as int]@);
        }
        let r = &requests[i];
        let t = r.resource_type.as_str();
        if !r.finished && (text::same(t, "Fetch") || text::same(t, "XHR") || text::same(t, "Document")) {
            return true;
        }
        i = i + 1;
    }
    false
}

impl Browser {
    /// What is remembered of a tab before an action: its count of navigations and of requests.
    pub fn settle_mark(&self, session: &str) -> (r: Result<(u64, usize), String>)
        ensures
            match (self@.tab(session@), r) {
                (Some(t), Ok((n, k))) => n == t.nav_seq && k == t.requests.len(),
                (None, Err(e)) => e@ == "the tab was closed"@,
                _ => false,
            },
    {
        match self.tab_read(session) {
            Ok(i) => Ok((self.state.tabs[i].nav_seq, self.state.tabs[i].requests.len())),
            Err(e) => Err(e),
        }
    }

    /// Whether what an action set off has come to rest, `elapsed` milliseconds after it.
    pub fn settle(&self, session: &str, mark: (u64, usize), elapsed: u64) -> (r: bool)
        ensures
            r == settled(self@, session@, mark.0, mark.1 as nat, elapsed as nat),
    {
        match self.tab_read(session) {
            Err(_) => true,
            Ok(i) => {
                let t = &self.state.tabs[i];
                if t.dialog.is_some() {
                    return true;
                }
                let navigated = t.nav_seq != mark.0;
                let limit = if navigated {
                    self.cfg.timeout_navigation
                } else {
                    self.cfg.timeout_settle
                };
                let busy = any_busy(&t.requests, mark.1);
                (!(t.loading && navigated) && !busy) || elapsed > limit
            },
        }
    }
}

/// The wait after an action goes on: while no dialog is open and neither limit is over, a tab is not
/// settled as long as a request since the mark for a document or by `fetch` or XHR is under way.
pub proof fn law_requests_hold_an_action_up(
    b: BrowserV,
    session: Text,
    nav_seq: u64,
    requests: nat,
    elapsed: nat,
    i: int,
)
    requires
        b.tab(session) is Some,
        (b.tab(session)->0).dialog is None,
        elapsed <= b.cfg.timeout_navigation,
        elapsed <= b.cfg.timeout_settle,
        requests <= i < (b.tab(session)->0).requests.len(),
        !(b.tab(session)->0).requests[i].finished,
        ({
            let kind = (b.tab(session)->0).requests[i].resource_type;
            kind == "Fetch"@ || kind == "XHR"@ || kind == "Document"@
        }),
    ensures
        !settled(b, session, nav_seq, requests, elapsed),
{
    assert(holds_up((b.tab(session)->0).requests[i]));
}

/// The wait after an action goes on while a navigation that it set off loads, up to the limit of
/// navigations.
pub proof fn law_navigations_hold_an_action_up(b: BrowserV, session: Text, nav_seq: u64, requests: nat, elapsed: nat)
    requires
        b.tab(session) is Some,
        (b.tab(session)->0).dialog is None,
        (b.tab(session)->0).loading,
        (b.tab(session)->0).nav_seq != nav_seq,
        elapsed <= b.cfg.timeout_navigation,
    ensures
        !settled(b, session, nav_seq, requests, elapsed),
{
}

/// Nothing else holds an action up: a tab is settled, at whatever time, where it is gone, where a
/// dialog is open, and where every request since the mark is finished or of another kind and no
/// navigation that the action set off is loading.
pub proof fn law_nothing_else_holds_an_action_up(
    b: BrowserV,
    session: Text,
    nav_seq: u64,
    requests: nat,
    elapsed: nat,
)
    requires
        b.tab(session) is None || (b.tab(session)->0).dialog is Some || {
            let t = b.tab(session)->0;
            &&& !t.loading || t.nav_seq == nav_seq
            &&& forall|i: int|
                requests <= i < t.requests.len() && !(#[trigger] t.requests[i]).finished ==> t.requests[i].resource_type
                    != "Fetch"@ && t.requests[i].resource_type != "XHR"@ && t.requests[i].resource_type != "Document"@
        },
    ensures
        settled(b, session, nav_seq, requests, elapsed),
{
}

/// A wait is over past the limit that applies to it: that of navigations where the action set one off,
/// that of requests where it did not.
pub proof fn law_waits_have_their_limits(b: BrowserV, session: Text, nav_seq: u64, requests: nat, elapsed: nat)
    requires
        b.tab(session) is Some,
        elapsed > if (b.tab(session)->0).nav_seq != nav_seq {
            b.cfg.timeout_navigation
        } else {
            b.cfg.timeout_settle
        },
    ensures
        settled(b, session, nav_seq, requests, elapsed),
{
}

/// The wait after an action ends: past both limits it is over, whatever the page does.
pub proof fn law_settling_ends(b: BrowserV, session: Text, nav_seq: u64, requests: nat, elapsed: nat)
    requires
        elapsed > b.cfg.timeout_navigation,
        elapsed > b.cfg.timeout_settle,
    ensures
        settled(b, session, nav_seq, requests, elapsed),
{
}

// ---------------------------------------------------------------------- evaluation

/// The message of an exception: its first line, without the name of the error class in front, and
/// so without the injected runtime's stack.
pub open spec fn exception_message(ex: JsonV) -> Text {
    let e = ex.at("exception"@);
    let msg = match e.at("description"@).as_text() {
        Some(t) => t,
        None => match e.at("value"@).as_text() {
            Some(t) => t,
            None => ex.at("text"@).text_or("JavaScript exception"@),
        },
    };
    let lines = text::text_lines(msg);
    text::without_prefixes(
        if lines.len() > 0 {
            lines[0]
        } else {
            msg
        },
        "Error: "@,
    )
}

/// A reply of the page's JavaScript, or what it threw.
pub fn exception_to_err(res: Json) -> (r: Result<Json, String>)
    ensures
        match (res@.get("exceptionDetails"@), r) {
            (Some(ex), Err(e)) => e@ == exception_message(ex),
            (None, Ok(v)) => v@ == res@,
            _ => false,
        },
{
    match res.get("exceptionDetails") {
        Some(ex) => {
            let e = ex.at("exception");
            let msg = match e.at("description").as_text() {
                Some(t) => t,
                None => match e.at("value").as_text() {
                    Some(t) => t,
                    None => ex.at("text").text_or("JavaScript exception"),
                },
            };
            let lines = text::lines(&msg);
            if lines.len() > 0 {
                proof {
                    assert(text::views(lines@)[0] == lines@[0]@);
                }
                Err(text::trim_prefixes(&lines[0], "Error: "))
            } else {
                Err(text::trim_prefixes(&msg, "Error: "))
            }
        },
        None => Ok(res),
    }
}

/// The error says that the document the code was for is gone.
pub open spec fn context_gone(e: Text) -> bool {
    text::text_has(e, "Cannot find context"@) || text::text_has(e, "Execution context was destroyed"@) || text::text_has(
        e,
        "Inspected target navigated"@,
    )
}

pub fn is_context_gone(e: &str) -> (r: bool)
    ensures
        r == context_gone(e@),
{
    text::contains(e, "Cannot find context") || text::contains(e, "Execution context was destroyed") || text::contains(
        e,
        "Inspected target navigated",
    )
}

/// How often an evaluation is tried while its document goes away.
pub const EVAL_ATTEMPTS: u32 = 3;

/// Whether an evaluation is tried again after attempt number `attempt`, counted from 0, failed.
pub fn eval_again(attempt: u32, error: &str) -> (r: bool)
    ensures
        r == (attempt + 1 < EVAL_ATTEMPTS && context_gone(error@)),
{
    attempt < EVAL_ATTEMPTS - 1 && is_context_gone(error)
}

/// How often the world of the injected script is looked for, before one is made.
pub const WORLD_ATTEMPTS: u32 = 11;

/// Whether the world is looked for again after attempt number `attempt`, counted from 0, found none.
pub fn world_again(attempt: u32) -> (r: bool)
    ensures
        r == (attempt + 1 < WORLD_ATTEMPTS),
{
    attempt < WORLD_ATTEMPTS - 1
}

/// The command that evaluates an expression in a context.
pub open spec fn evaluate_in(session: Text, expr: Text, ctx: int, by_value: bool, await_promise: bool) -> CommandV {
    cdp::to_session(
        session,
        "Runtime.evaluate"@,
        JsonV::obj().with("expression"@, JsonV::Str(expr)).with("contextId"@, JsonV::Int(ctx)).with(
            "returnByValue"@,
            JsonV::Bool(by_value),
        ).with("awaitPromise"@, JsonV::Bool(await_promise)).with("userGesture"@, JsonV::Bool(true)),
    )
}

pub fn eval_raw(session: &str, expr: &str, ctx: i64, by_value: bool, await_promise: bool) -> (r: Command)
    ensures
        r@ == evaluate_in(session@, expr@, ctx as int, by_value, await_promise),
{
    Command::session(
        session,
        "Runtime.evaluate",
        Json::obj().with("expression", Json::str(expr)).with("contextId", Json::num(ctx)).with(
            "returnByValue",
            Json::Bool(by_value),
        ).with("awaitPromise", Json::Bool(await_promise)).with("userGesture", Json::Bool(true)),
    )
}

/// The value that an evaluation gave.
pub fn eval_world(res: &Json) -> (r: Json)
    ensures
        r@ == res@.at("result"@).at("value"@),
{
    res.at("result").at("value").clone()
}

/// The handle of the object that an evaluation gave.
pub fn eval_world_handle(res: &Json) -> (r: Result<String, String>)
    ensures
        match (res@.at("result"@).at("objectId"@).as_text(), r) {
            (Some(t), Ok(s)) => s@ == t,
            (None, Err(e)) => e@ == "expression did not produce an object"@,
            _ => false,
        },
{
    match res.at("result").at("objectId").as_text() {
        Some(t) => Ok(t),
        None => Err("expression did not produce an object".to_string()),
    }
}

/// Arguments of a call, each as a value.
pub open spec fn call_arguments(args: Seq<JsonV>) -> JsonV {
    JsonV::Arr(args.map_values(|v: JsonV| JsonV::obj().with("value"@, v)))
}

/// The command that calls a function on an object of the page.
pub open spec fn call_command(session: Text, object_id: Text, func: Text, args: Seq<JsonV>) -> CommandV {
    cdp::to_session(
        session,
        "Runtime.callFunctionOn"@,
        JsonV::obj().with("functionDeclaration"@, JsonV::Str(func)).with("objectId"@, JsonV::Str(object_id)).with(
            "arguments"@,
            call_arguments(args),
        ).with("returnByValue"@, JsonV::Bool(true)).with("awaitPromise"@, JsonV::Bool(true)).with(
            "userGesture"@,
            JsonV::Bool(true),
        ),
    )
}

/// Calls a function on an object of the page.
pub fn call_on(session: &str, object_id: &str, func: &str, args: &Vec<Json>) -> (r: Command)
    ensures
        r@ == call_command(session@, object_id@, func@, text::views(args@)),
{
    let mut list: Vec<Json> = Vec::new();
    let mut i: usize = 0;
    while i < args.len()
        invariant
            i <= args@.len(),
            list@.len() == i,
            forall|k: int| 0 <= k < i ==> (#[trigger] list@[k])@ == JsonV::obj().with("value"@, args@[k]@),
        decreases args@.len() - i,
    {
        list.push(Json::obj().with("value", args[i].clone()));
        i = i + 1;
    }
    proof {
        json::lemma_arr(list);
        assert(text::views(list@) =~= text::views(args@).map_values(|v: JsonV| JsonV::obj().with("value"@, v)));
    }
    Command::session(
        session,
        "Runtime.callFunctionOn",
        Json::obj().with("functionDeclaration", Json::str(func)).with("objectId", Json::str(object_id)).with(
            "arguments",
            Json::Arr(list),
        ).with("returnByValue", Json::Bool(true)).with("awaitPromise", Json::Bool(true)).with(
            "userGesture",
            Json::Bool(true),
        ),
    )
}

impl Browser {
    /// Why no command can be sent to a page: the tab is gone, or a JavaScript dialog is open (a
    /// pending alert() blocks Runtime calls until it is handled, which would otherwise hang the
    /// tool).
    pub fn send_page(&self, session: &str) -> (r: Option<String>)
        ensures
            text::opt_text(r) == match self@.tab(session@) {
                None => Some("the tab was closed"@),
                Some(t) => match t.dialog {
                    Some(d) => Some(
                        "a \""@ + d.kind + "\" dialog is open ("@ + d.message
                            + "); handle it with browser_handle_dialog first"@,
                    ),
                    None => None,
                },
            },
    {
        match self.tab_read(session) {
            Err(e) => Some(e),
            Ok(i) => match &self.state.tabs[i].dialog {
                Some(d) => {
                    let mut s = "a \"".to_string();
                    s.append(&d.kind);
                    s.append("\" dialog is open (");
                    s.append(&d.message);
                    s.append("); handle it with browser_handle_dialog first");
                    Some(s)
                },
                None => None,
            },
        }
    }

    /// The context of the injected runtime in a tab, where it is known.
    pub fn world_context(&self, session: &str) -> (r: Result<Option<i64>, String>)
        ensures
            match (self@.tab(session@), r) {
                (Some(t), Ok(c)) => state::opt_int(c) == t.world_ctx,
                (None, Err(e)) => e@ == "the tab was closed"@,
                _ => false,
            },
    {
        match self.tab_read(session) {
            Ok(i) => Ok(self.state.tabs[i].world_ctx),
            Err(e) => Err(e),
        }
    }

    /// The context of the injected runtime in a tab became known, or is known no more.
    pub fn set_world(&mut self, session: &str, ctx: Option<i64>)
        requires
            old(self).wf(),
        ensures
            final(self).wf(),
            final(self)@ == match old(self)@.state.tab_index(session@) {
                Some(i) => BrowserV {
                    state: old(self)@.state.with_tab(
                        i,
                        TabV { world_ctx: state::opt_int(ctx), ..old(self)@.state.tabs[i] },
                    ),
                    ..old(self)@
                },
                None => old(self)@,
            },
    {
        broadcast use text::group_views;
        let ghost before = self@.state;
        match self.state.tab_by_session(session) {
            Some(i) => {
                proof {
                    assert(before.tabs[i as int] == self.state.tabs@[i as int]@);
                    assert(before.tabs[i as int].wf());
                }
                self.state.tabs[i].world_ctx = ctx;
                proof {
                    let t = TabV { world_ctx: state::opt_int(ctx), ..before.tabs[i as int] };
                    assert(self@.state.tabs =~= before.tabs.update(i as int, t));
                    lemma_tabs_wf(before, self@.state, i as int);
                }
            },
            None => {},
        }
    }
}

/// Where one tab changed and is in order, all are.
pub proof fn lemma_tabs_wf(before: StateV, after: StateV, i: int)
    requires
        before.tabs_wf(),
        0 <= i < before.tabs.len(),
        after.tabs == before.tabs.update(i, after.tabs[i]),
        after.tabs[i].wf(),
    ensures
        after.tabs_wf(),
{
    assert forall|k: int| 0 <= k < after.tabs.len() implies (#[trigger] after.tabs[k]).wf() by {
        if k != i {
            assert(after.tabs[k] == before.tabs[k]);
            assert(before.tabs[k].wf());
        }
    }
}

/// What is said when a command opened a dialog.
pub fn opened_dialog(ev: &Event) -> (r: String)
    ensures
        r@ == "the action opened a \""@ + ev@.params.at("type"@).text_or("?"@) + "\" dialog ("@ + ev@.params.at(
            "message"@,
        ).text() + "); handle it with browser_handle_dialog"@,
{
    let mut s = "the action opened a \"".to_string();
    s.append(&ev.params.at("type").text_or("?"));
    s.append("\" dialog (");
    s.append(&ev.params.at("message").text());
    s.append("); handle it with browser_handle_dialog");
    s
}

/// The command that makes a world for the injected runtime in a frame. The name of the last
/// parameter is the protocol's own spelling.
pub fn create_world(session: &str, frame: &str) -> (r: Command)
    ensures
        r@ == cdp::to_session(
            session@,
            "Page.createIsolatedWorld"@,
            JsonV::obj().with("frameId"@, JsonV::Str(frame@)).with("worldName"@, JsonV::Str(WORLD@)).with(
                "grantUniveralAccess"@,
                JsonV::Bool(true),
            ),
        ),
{
    Command::session(
        session,
        "Page.createIsolatedWorld",
        Json::obj().with("frameId", Json::str(frame)).with("worldName", Json::str(WORLD)).with(
            "grantUniveralAccess",
            Json::Bool(true),
        ),
    )
}

/// The context of a world that was made.
pub fn created_world(res: &Json) -> (r: Result<i64, String>)
    ensures
        match (res@.at("executionContextId"@).as_i64(), r) {
            (Some(i), Ok(c)) => c == i,
            (None, Err(e)) => e@ == "no isolated world"@,
            _ => false,
        },
{
    match res.at("executionContextId").as_i64() {
        Some(i) => Ok(i),
        None => Err("no isolated world".to_string()),
    }
}

/// Runs a script in a world of the page.
pub fn inject(session: &str, ctx: i64, source: &str) -> (r: Command)
    ensures
        r@ == cdp::to_session(
            session@,
            "Runtime.evaluate"@,
            JsonV::obj().with("expression"@, JsonV::Str(source@)).with("contextId"@, JsonV::Int(ctx as int)),
        ),
{
    Command::session(
        session,
        "Runtime.evaluate",
        Json::obj().with("expression", Json::str(source)).with("contextId", Json::num(ctx)),
    )
}

// ---------------------------------------------------------------------- opening tabs

/// The command that opens a blank tab, in the background or not.
pub fn create_target(background: bool) -> (r: Command)
    ensures
        r@ == ({
            let blank = JsonV::obj().with("url"@, JsonV::Str("about:blank"@));
            cdp::to_browser(
                "Target.createTarget"@,
                if background {
                    blank.with("background"@, JsonV::Bool(true))
                } else {
                    blank
                },
            )
        }),
{
    let blank = Json::obj().with("url", Json::str("about:blank"));
    Command::browser(
        "Target.createTarget",
        if background {
            blank.with("background", Json::Bool(true))
        } else {
            blank
        },
    )
}

/// Whether a tab that was opened blank still has to be navigated.
pub fn new_tab_raw(url: &str) -> (r: bool)
    ensures
        r == (url@ != "about:blank"@),
{
    !text::same(url, "about:blank")
}

/// Where waiting for something of a tab has come to.
pub enum TabWait {
    Over,
    Wait,
    Fail(String),
}

impl Browser {
    /// Whether the tab of a target is attached and initialized. `late` tells that the time for it to
    /// attach is over, `slow` that the time to become ready is over, too: then it is taken as it is.
    pub fn wait_tab_ready(&self, target_id: &str, late: bool, slow: bool) -> (r: TabWait)
        ensures
            match target_index(self@.state.tabs, target_id@) {
                Some(i) => if self@.state.tabs[i].ready || slow {
                    r is Over
                } else {
                    r is Wait
                },
                None => if late {
                    r matches TabWait::Fail(e) && e@ == "tab did not attach"@
                } else {
                    r is Wait
                },
            },
    {
        match self.find_target(target_id) {
            Some(i) => {
                proof {
                    assert(self@.state.tabs[i as int] == self.state.tabs@[i as int]@);
                }
                if self.state.tabs[i].ready || slow {
                    TabWait::Over
                } else {
                    TabWait::Wait
                }
            },
            None => if late {
                TabWait::Fail("tab did not attach".to_string())
            } else {
                TabWait::Wait
            },
        }
    }

    /// Whether a tab has finished loading. `first` tells that waiting has only begun: a tab that goes
    /// away later is waited for no longer. `late` tells that the time for it is over.
    pub fn wait_loaded(&self, session: &str, first: bool, late: bool) -> (r: TabWait)
        ensures
            match self@.tab(session@) {
                Some(t) => if !t.loading {
                    r is Over
                } else if late {
                    r matches TabWait::Fail(e) && e@ == "page did not finish loading"@
                } else {
                    r is Wait
                },
                None => if first {
                    r matches TabWait::Fail(e) && e@ == "the tab was closed"@
                } else {
                    r is Over
                },
            },
    {
        match self.tab_read(session) {
            Ok(i) => if !self.state.tabs[i].loading {
                TabWait::Over
            } else if late {
                TabWait::Fail("page did not finish loading".to_string())
            } else {
                TabWait::Wait
            },
            Err(e) => if first {
                TabWait::Fail(e)
            } else {
                TabWait::Over
            },
        }
    }

    /// The command that brings the current tab to the front.
    pub fn bring_to_front(&self) -> (r: Option<Command>)
        ensures
            match (self@.current_tab(), r) {
                (Some(t), Some(c)) => c@ == plain_command(t.session_id, "Page.bringToFront"@),
                (None, None) => true,
                _ => false,
            },
    {
        if self.state.current < self.state.tabs.len() {
            let i = self.state.current;
            proof {
                assert(self@.state.tabs[i as int] == self.state.tabs@[i as int]@);
            }
            Some(Command::session(&self.state.tabs[i].session_id, "Page.bringToFront", Json::obj()))
        } else {
            None
        }
    }
}

// ---------------------------------------------------------------------- the connection and the call

impl Browser {
    /// The browser runs.
    pub fn connected(&mut self, running: Running)
        requires
            old(self).wf(),
        ensures
            final(self).wf(),
            final(self)@ == (BrowserV { running: Some(running@), ..old(self)@ }),
    {
        self.running = Some(running);
    }

    /// The connection of the running browser is closed, or stands.
    pub fn note_closed(&mut self, closed: bool)
        requires
            old(self).wf(),
        ensures
            final(self).wf(),
            final(self)@ == (BrowserV {
                running: match old(self)@.running {
                    Some(r) => Some(RunningV { closed, ..r }),
                    None => None,
                },
                ..old(self)@
            }),
    {
        match &mut self.running {
            Some(r) => {
                r.closed = closed;
            },
            None => {},
        }
    }

    /// What a call asks for beyond the settings.
    pub fn set_overrides(&mut self, o: Overrides)
        requires
            old(self).wf(),
        ensures
            final(self).wf(),
            final(self)@ == (BrowserV { snapshot: text::opt_text(o.snapshot), timeout: o.timeout, ..old(self)@ }),
    {
        self.overrides = o;
    }

    /// How long a step of a batch waits.
    pub fn set_timeout(&mut self, timeout: Option<u64>)
        requires
            old(self).wf(),
        ensures
            final(self).wf(),
            final(self)@ == (BrowserV { timeout, ..old(self)@ }),
    {
        self.overrides.timeout = timeout;
    }
}

// ---------------------------------------------------------------------- what tools act on

/// The tab of a session is the first one that has it; where none has it there is none.
pub proof fn law_tab_of_a_session(b: BrowserV, session: Text)
    ensures
        match b.tab(session) {
            Some(t) => exists|i: int|
                0 <= i < b.state.tabs.len() && #[trigger] b.state.tabs[i] == t && t.session_id == session && forall|k: int|
                    0 <= k < i ==> (#[trigger] b.state.tabs[k]).session_id != session,
            None => forall|k: int| 0 <= k < b.state.tabs.len() ==> (#[trigger] b.state.tabs[k]).session_id != session,
        },
{
    state::lemma_session_index(b.state.tabs, session);
    match b.state.tab_index(session) {
        Some(i) => {
            assert(b.state.tabs[i].session_id == session);
        },
        None => {},
    }
}

/// Tools act on the current tab, of which there is one where its position is that of a tab.
pub proof fn law_current_tab(b: BrowserV)
    ensures
        b.state.current < b.state.tabs.len() ==> b.current_tab() == Some(b.state.tabs[b.state.current as int]),
        b.state.current >= b.state.tabs.len() ==> b.current_tab() is None,
        b.live() <==> b.running is Some && !(b.running->0).closed,
{
}

/// What an exception says: its description, or its value, or its text, the first line of it, without
/// `Error: ` in front.
pub proof fn law_exceptions_are_told(ex: JsonV)
    ensures
        ({
            let e = ex.at("exception"@);
            let said = if e.at("description"@) is Str {
                e.at("description"@).text()
            } else if e.at("value"@) is Str {
                e.at("value"@).text()
            } else {
                ex.at("text"@).text_or("JavaScript exception"@)
            };
            let first = if text::text_lines(said).len() > 0 {
                text::text_lines(said)[0]
            } else {
                said
            };
            &&& exception_message(ex) == text::without_prefixes(first, "Error: "@)
            &&& !text::text_starts(first, "Error: "@) ==> exception_message(ex) == first
        }),
{
}

/// A document is gone where the browser says that its context cannot be found or was destroyed, or that the
/// target navigated.
pub proof fn law_gone_documents(e: Text)
    ensures
        context_gone(e) <==> text::text_has(e, "Cannot find context"@) || text::text_has(
            e,
            "Execution context was destroyed"@,
        ) || text::text_has(e, "Inspected target navigated"@),
{
}

/// What is evaluated in a page runs in the given context, as if a person had acted.
pub proof fn law_evaluations(session: Text, expr: Text, ctx: int, by_value: bool, await_promise: bool)
    ensures
        evaluate_in(session, expr, ctx, by_value, await_promise) == (CommandV {
            session: Some(session),
            method: "Runtime.evaluate"@,
            params: JsonV::Obj(
                seq![
                    ("expression"@, JsonV::Str(expr)),
                    ("contextId"@, JsonV::Int(ctx)),
                    ("returnByValue"@, JsonV::Bool(by_value)),
                    ("awaitPromise"@, JsonV::Bool(await_promise)),
                    ("userGesture"@, JsonV::Bool(true)),
                ],
            ),
        }),
{
    assert(evaluate_in(session, expr, ctx, by_value, await_promise).params->Obj_0 =~= seq![
        ("expression"@, JsonV::Str(expr)),
        ("contextId"@, JsonV::Int(ctx)),
        ("returnByValue"@, JsonV::Bool(by_value)),
        ("awaitPromise"@, JsonV::Bool(await_promise)),
        ("userGesture"@, JsonV::Bool(true)),
    ]);
}

/// A function of the page is called on its object with every argument, in order, and its promise is awaited.
pub proof fn law_calls_pass_their_arguments(session: Text, object: Text, func: Text, args: Seq<JsonV>, i: int)
    ensures
        ({
            let c = call_command(session, object, func, args);
            &&& c.session == Some(session)
            &&& c.method == "Runtime.callFunctionOn"@
            &&& c.params == JsonV::Obj(
                seq![
                    ("functionDeclaration"@, JsonV::Str(func)),
                    ("objectId"@, JsonV::Str(object)),
                    ("arguments"@, call_arguments(args)),
                    ("returnByValue"@, JsonV::Bool(true)),
                    ("awaitPromise"@, JsonV::Bool(true)),
                    ("userGesture"@, JsonV::Bool(true)),
                ],
            )
            &&& call_arguments(args).elements().len() == args.len()
            &&& 0 <= i < args.len() ==> call_arguments(args).elements()[i] == JsonV::obj().with("value"@, args[i])
        }),
{
    assert(call_command(session, object, func, args).params->Obj_0 =~= seq![
        ("functionDeclaration"@, JsonV::Str(func)),
        ("objectId"@, JsonV::Str(object)),
        ("arguments"@, call_arguments(args)),
        ("returnByValue"@, JsonV::Bool(true)),
        ("awaitPromise"@, JsonV::Bool(true)),
        ("userGesture"@, JsonV::Bool(true)),
    ]);
}

/// An evaluation is tried three times while its document goes away, and the world of the injected script is
/// looked for eleven times.
pub proof fn law_attempts()
    ensures
        EVAL_ATTEMPTS == 3,
        WORLD_ATTEMPTS == 11,
{
}

/// The tab of a target is the first one that has it, and a download is under way or done where one in the log
/// is of the address.
pub proof fn law_targets_and_downloads(tabs: Seq<TabV>, target: Text, st: StateV, url: Text)
    ensures
        match target_index(tabs, target) {
            Some(i) => 0 <= i < tabs.len() && tabs[i].target_id == target && forall|k: int|
                0 <= k < i ==> (#[trigger] tabs[k]).target_id != target,
            None => forall|k: int| 0 <= k < tabs.len() ==> (#[trigger] tabs[k]).target_id != target,
        },
        downloading(st, url) <==> exists|i: int| 0 <= i < st.downloads.len() && (#[trigger] st.downloads[i]).url == url,
{
    let f = |t: TabV| t.target_id == target;
    text::lemma_first_where(tabs, f);
    match target_index(tabs, target) {
        Some(i) => {
            assert(f(tabs[i]));
            assert forall|k: int| 0 <= k < i implies (#[trigger] tabs[k]).target_id != target by {
                assert(!f(tabs[k]));
            }
        },
        None => {
            assert forall|k: int| 0 <= k < tabs.len() implies (#[trigger] tabs[k]).target_id != target by {
                assert(!f(tabs[k]));
            }
        },
    }
}

/// A command without parameters goes to its tab.
pub proof fn law_plain_commands(session: Text, method: Text)
    ensures
        plain_command(session, method) == (CommandV { session: Some(session), method, params: JsonV::obj() }),
{
}

} // verus!
