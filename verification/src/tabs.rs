//! Tabs and what holds for all of them: the list, the current one, the page's size, the network,
//! routes, and a recording of what a person does.

use crate::browser::Browser;
use crate::browser::BrowserV;
use crate::cdp;
use crate::cdp::Command;
use crate::cdp::CommandV;
use crate::json;
use crate::json::Json;
use crate::json::JsonV;
use crate::launch;
use crate::page_events::WORLD;
use crate::positions;
use crate::state;
use crate::state::Route;
use crate::state::RouteV;
use crate::state::State;
use crate::state::StateV;
use crate::state::Tab;
use crate::state::TabV;
use crate::text;
use crate::text::Text;
use vstd::prelude::*;

verus! {

// ---------------------------------------------------------------------- the list of tabs

/// Tab number `i` as a line.
pub open spec fn tab_line(t: TabV, i: int, current: nat) -> Text {
    "- "@ + text::dec_int(i) + ":"@ + (if i == current {
        " (current)"@
    } else {
        Seq::empty()
    }) + " ["@ + t.title + "]("@ + t.url + ")"@
}

/// The tabs as lines.
pub open spec fn tab_lines(tabs: Seq<TabV>, current: nat) -> Seq<Text> {
    tabs.map(|i: int, t: TabV| tab_line(t, i, current))
}

/// The list of tabs.
pub open spec fn tabs_text(st: StateV) -> Text {
    if st.tabs.len() == 0 {
        "No open tabs"@
    } else {
        text::joined(tab_lines(st.tabs, st.current), "\n"@)
    }
}

fn format_tab(t: &Tab, i: usize, current: usize) -> (r: String)
    ensures
        r@ == tab_line(t@, i as int, current as nat),
{
    let mut s = "- ".to_string();
    s.append(&text::decimal_int(i as i128));
    s.append(":");
    let mark = if i == current {
        " (current)".to_string()
    } else {
        String::new()
    };
    proof {
        if i != current {
            assert(mark@ =~= Seq::<char>::empty());
        }
    }
    s.append(&mark);
    s.append(" [");
    s.append(&t.title);
    s.append("](");
    s.append(&t.url);
    s.append(")");
    s
}

impl State {
    /// The list of tabs.
    pub fn tabs_list(&self) -> (r: String)
        ensures
            r@ == tabs_text(self@),
    {
        if self.tabs.len() == 0 {
            return "No open tabs".to_string();
        }
        let mut out: Vec<String> = Vec::new();
        let mut i: usize = 0;
        while i < self.tabs.len()
            invariant
                i <= self.tabs@.len(),
                out@.len() == i,
                forall|k: int|
                    0 <= k < i ==> (#[trigger] out@[k])@ == tab_line(self.tabs@[k]@, k, self.current as nat),
            decreases self.tabs@.len() - i,
        {
            out.push(format_tab(&self.tabs[i], i, self.current));
            i = i + 1;
        }
        proof {
            assert(text::views(out@) =~= tab_lines(self@.tabs, self@.current));
        }
        text::join(&out, "\n")
    }

    /// Makes a tab current; gives its session, which is to be brought to the front.
    pub fn tab_select(&mut self, index: usize) -> (r: Result<String, String>)
        requires
            old(self).wf(),
        ensures
            final(self).wf(),
            if index < old(self)@.tabs.len() {
                &&& r matches Ok(s) && s@ == old(self)@.tabs[index as int].session_id
                &&& final(self)@ == (StateV { current: index as nat, ..old(self)@ })
            } else {
                &&& r matches Err(e) && e@ == "tab "@ + text::dec(index as nat) + " does not exist ("@ + text::dec(
                    old(self)@.tabs.len(),
                ) + " open)"@
                &&& final(self)@ == old(self)@
            },
    {
        let n = self.tabs.len();
        if index >= n {
            let mut e = "tab ".to_string();
            e.append(&text::decimal(index as u128));
            e.append(" does not exist (");
            e.append(&text::decimal(n as u128));
            e.append(" open)");
            return Err(e);
        }
        self.current = index;
        proof {
            assert(old(self)@.tabs[index as int] == self.tabs@[index as int]@);
        }
        Ok(self.tabs[index].session_id.clone())
    }

    /// The target of the tab to close, and the session that goes with it: the tab of an index, or the
    /// current one.
    pub fn tab_close(&self, index: Option<usize>) -> (r: Result<(String, String), String>)
        ensures
            ({
                let i = match index {
                    Some(n) => n as nat,
                    None => self@.current,
                };
                if i < self@.tabs.len() {
                    r matches Ok((t, s)) && t@ == self@.tabs[i as int].target_id && s@ == self@.tabs[i as int].session_id
                } else {
                    r matches Err(e) && e@ == "tab "@ + text::dec(i) + " does not exist"@
                }
            }),
    {
        let i: usize = match index {
            Some(n) => n,
            None => self.current,
        };
        if i < self.tabs.len() {
            proof {
                assert(self@.tabs[i as int] == self.tabs@[i as int]@);
            }
            Ok((self.tabs[i].target_id.clone(), self.tabs[i].session_id.clone()))
        } else {
            let mut e = "tab ".to_string();
            e.append(&text::decimal(i as u128));
            e.append(" does not exist");
            Err(e)
        }
    }
}

/// A selected tab is the one that the list shows as current.
pub proof fn law_selected_tab_is_current(st: StateV, index: nat)
    requires
        index < st.tabs.len(),
    ensures
        ({
            let after = StateV { current: index, ..st };
            tab_lines(after.tabs, after.current)[index as int] == "- "@ + text::dec_int(index as int) + ":"@
                + " (current)"@ + " ["@ + st.tabs[index as int].title + "]("@ + st.tabs[index as int].url + ")"@
        }),
{
}

/// The history entry behind the current one, where there is one.
pub open spec fn previous_entry(history: JsonV) -> Option<JsonV> {
    match history.at("currentIndex"@).as_i64() {
        Some(i) if i > 0 => Some(history.at("entries"@).nth(i - 1).at("id"@)),
        _ => None,
    }
}

/// The command that goes back in a tab's history; `None` where there is no page to go back to.
pub fn go_back(session: &str, history: &Json) -> (r: Option<Command>)
    ensures
        match (previous_entry(history@), r) {
            (Some(id), Some(c)) => c@ == cdp::to_session(
                session@,
                "Page.navigateToHistoryEntry"@,
                JsonV::obj().with("entryId"@, id),
            ),
            (None, None) => true,
            _ => false,
        },
{
    let i: i64 = match history.at("currentIndex").as_i64() {
        Some(n) => n,
        None => 0,
    };
    if i <= 0 {
        return None;
    }
    let entries = history.at("entries");
    let id = if (i - 1) as u64 <= usize::MAX as u64 {
        entries.nth((i - 1) as usize).at("id").clone()
    } else {
        Json::Null
    };
    proof {
        if i - 1 > usize::MAX {
            lemma_past_end(*entries, i - 1);
        }
    }
    Some(Command::session(session, "Page.navigateToHistoryEntry", Json::obj().with("entryId", id)))
}

/// No array reaches past the largest index.
proof fn lemma_past_end(j: Json, i: int)
    requires
        i > usize::MAX,
    ensures
        j@.nth(i).at("id"@) == JsonV::Null,
{
    if let Json::Arr(v) = j {
        json::lemma_arr(v);
        assert(v@.len() <= usize::MAX) by {
            vstd::std_specs::vec::axiom_spec_len(&v);
        }
    }
}

// ---------------------------------------------------------------------- size and network

impl Browser {
    /// Sets the page's size, in this tab and every other, now and later.
    pub fn resize(&mut self, width: u32, height: u32) -> (r: Vec<Command>)
        requires
            old(self).wf(),
        ensures
            final(self).wf(),
            final(self)@ == (BrowserV {
                state: StateV { viewport: Some((width, height)), ..old(self)@.state },
                ..old(self)@
            }),
            text::views(r@) == launch::to_all(
                state::session_ids(old(self)@.state.tabs),
                "Emulation.setDeviceMetricsOverride"@,
                launch::metrics(width, height),
            ),
    {
        self.state.viewport = Some((width, height));
        let sessions = self.state.sessions();
        launch::command_all(
            &sessions,
            "Emulation.setDeviceMetricsOverride",
            &launch::device_metrics(width, height),
        )
    }

    /// The commands that make the browser's window fit a page of a size.
    pub fn fit_window(&self, window: &Json, width: u32, height: u32) -> (r: Vec<Command>)
        ensures
            text::views(r@) == window_commands(
                window@.at("windowId"@),
                width,
                height,
                if self@.live() {
                    (self@.running->0).headless
                } else {
                    self@.want_headless
                },
            ),
    {
        let ui: i64 = if self.is_headless() {
            0
        } else {
            launch::CHROME_UI as i64
        };
        let id = window.at("windowId");
        let mut out: Vec<Command> = Vec::new();
        out.push(
            Command::browser(
                "Browser.setWindowBounds",
                Json::obj().with("windowId", id.clone()).with(
                    "bounds",
                    Json::obj().with("windowState", Json::str("normal")),
                ),
            ),
        );
        out.push(
            Command::browser(
                "Browser.setWindowBounds",
                Json::obj().with("windowId", id.clone()).with(
                    "bounds",
                    Json::obj().with("width", Json::num(width as i64)).with("height", Json::num(height as i64 + ui)),
                ),
            ),
        );
        proof {
            assert(text::views(out@) =~= window_commands(
                window@.at("windowId"@),
                width,
                height,
                if self@.live() {
                    (self@.running->0).headless
                } else {
                    self@.want_headless
                },
            ));
        }
        out
    }

    /// Takes the network away from every tab, or gives it back, now and later.
    pub fn set_offline(&mut self, offline: bool) -> (r: Vec<Command>)
        requires
            old(self).wf(),
        ensures
            final(self).wf(),
            final(self)@ == (BrowserV { state: StateV { offline, ..old(self)@.state }, ..old(self)@ }),
            text::views(r@) == launch::to_all(
                state::session_ids(old(self)@.state.tabs),
                "Network.emulateNetworkConditions"@,
                launch::network_conditions(offline),
            ),
    {
        self.state.offline = offline;
        let sessions = self.state.sessions();
        launch::command_all(&sessions, "Network.emulateNetworkConditions", &launch::emulated_network(offline))
    }
}

/// A window first takes its normal state, then the size: that of the page, and of the controls
/// above it where it is visible.
pub open spec fn window_commands(id: JsonV, width: u32, height: u32, headless: bool) -> Seq<CommandV> {
    seq![
        cdp::to_browser(
            "Browser.setWindowBounds"@,
            JsonV::obj().with("windowId"@, id).with(
                "bounds"@,
                JsonV::obj().with("windowState"@, JsonV::Str("normal"@)),
            ),
        ),
        cdp::to_browser(
            "Browser.setWindowBounds"@,
            JsonV::obj().with("windowId"@, id).with(
                "bounds"@,
                JsonV::obj().with("width"@, JsonV::Int(width as int)).with(
                    "height"@,
                    JsonV::Int(
                        if headless {
                            height as int
                        } else {
                            height + launch::CHROME_UI
                        },
                    ),
                ),
            ),
        ),
    ]
}

// ---------------------------------------------------------------------- routes

/// The routes without those of a glob.
pub open spec fn routes_without(routes: Seq<RouteV>, pattern: Text) -> Seq<RouteV>
    decreases routes.len(),
{
    if routes.len() == 0 {
        Seq::empty()
    } else if routes.last().pattern == pattern {
        routes_without(routes.drop_last(), pattern)
    } else {
        routes_without(routes.drop_last(), pattern).push(routes.last())
    }
}

pub proof fn lemma_routes_without(routes: Seq<RouteV>, pattern: Text)
    ensures
        routes_without(routes, pattern).len() <= routes.len(),
        forall|i: int|
            0 <= i < routes_without(routes, pattern).len() ==> (#[trigger] routes_without(routes, pattern)[i]).pattern
                != pattern && routes.contains(routes_without(routes, pattern)[i]),
        distinct(routes) ==> distinct(routes_without(routes, pattern)),
        (forall|i: int| 0 <= i < routes.len() ==> (#[trigger] routes[i]).pattern != pattern) ==> routes_without(
            routes,
            pattern,
        ) == routes,
    decreases routes.len(),
{
    if routes.len() > 0 {
        let d = routes.drop_last();
        lemma_routes_without(d, pattern);
        let w = routes_without(d, pattern);
        let all = routes_without(routes, pattern);
        assert forall|i: int| 0 <= i < all.len() implies (#[trigger] all[i]).pattern != pattern && routes.contains(
            all[i],
        ) by {
            if i < w.len() {
                assert(all[i] == w[i]);
                let k = choose|k: int| 0 <= k < d.len() && d[k] == w[i];
                assert(routes[k] == all[i]);
            } else {
                assert(routes[routes.len() - 1] == all[i]);
            }
        }
        if distinct(routes) {
            assert(distinct(d)) by {
                assert forall|i: int, j: int| 0 <= i < j < d.len() implies (#[trigger] d[i]).pattern != (
                #[trigger] d[j]).pattern by {
                    assert(routes[i].pattern != routes[j].pattern);
                }
            }
            assert forall|i: int, j: int| 0 <= i < j < all.len() implies (#[trigger] all[i]).pattern != (
            #[trigger] all[j]).pattern by {
                if j < w.len() {
                    assert(w[i].pattern != w[j].pattern);
                } else {
                    assert(all[i] == w[i]);
                    let k = choose|k: int| 0 <= k < d.len() && d[k] == w[i];
                    assert(routes[k].pattern != routes[routes.len() - 1].pattern);
                }
            }
        }
        if forall|i: int| 0 <= i < routes.len() ==> (#[trigger] routes[i]).pattern != pattern {
            assert forall|i: int| 0 <= i < d.len() implies (#[trigger] d[i]).pattern != pattern by {
                assert(routes[i].pattern != pattern);
            }
            assert(routes[routes.len() - 1].pattern != pattern);
            assert(all =~= routes);
        }
    } else {
        assert(routes_without(routes, pattern) =~= routes);
    }
}

/// No two routes are for the same glob.
pub open spec fn distinct(routes: Seq<RouteV>) -> bool {
    forall|i: int, j: int|
        0 <= i < j < routes.len() ==> (#[trigger] routes[i]).pattern != (#[trigger] routes[j]).pattern
}

impl State {
    /// Takes the routes of a glob away; gives how many there were.
    fn drop_routes(&mut self, pattern: &str) -> (n: usize)
        requires
            old(self).wf(),
        ensures
            final(self).wf(),
            final(self)@ == (StateV { routes: routes_without(old(self)@.routes, pattern@), ..old(self)@ }),
            n == old(self)@.routes.len() - final(self)@.routes.len(),
    {
        broadcast use text::group_views;
        let ghost all = self@.routes;
        let total: usize = self.routes.len();
        let mut n: usize = 0;
        let mut i: usize = 0;
        proof {
            assert(self@.routes =~= routes_without(all.take(0), pattern@) + all.skip(0));
        }
        while i < self.routes.len()
            invariant
                i <= self.routes@.len(),
                n + self.routes@.len() == all.len(),
                total == all.len(),
                forall|k: int| 0 <= k < self.routes@.len() ==> (#[trigger] self.routes@[k]).wf(),
                self@ == (StateV { routes: self@.routes, ..old(self)@ }),
                all == old(self)@.routes,
                i == routes_without(all.take(i + n), pattern@).len(),
                text::views(self.routes@) == routes_without(all.take(i + n), pattern@) + all.skip(i + n),
            decreases self.routes@.len() - i,
        {
            let ghost done = routes_without(all.take(i + n), pattern@);
            proof {
                assert(all.take(i + n + 1).drop_last() =~= all.take(i + n));
                assert(all.take(i + n + 1).last() == all[i + n]);
                assert(text::views(self.routes@)[i as int] == all[i + n]);
                assert(self.routes@[i as int]@ == all[i + n]);
            }
            if text::same(&self.routes[i].pattern, pattern) {
                let ghost before = self.routes@;
                self.routes.remove(i);
                proof {
                    assert(text::views(self.routes@) =~= text::views(before).remove(i as int));
                    assert(text::views(self.routes@) =~= done + all.skip(i + n + 1));
                    assert forall|k: int| 0 <= k < self.routes@.len() implies (#[trigger] self.routes@[k]).wf() by {
                        if k < i {
                            assert(self.routes@[k] == before[k]);
                        } else {
                            assert(self.routes@[k] == before[k + 1]);
                        }
                    }
                }
                n = n + 1;
            } else {
                proof {
                    assert(done.push(all[i + n]) + all.skip(i + n + 1) =~= done + all.skip(i + n));
                }
                i = i + 1;
            }
        }
        proof {
            assert(all.take(all.len() as int) =~= all);
            assert(text::views(self.routes@) =~= routes_without(all, pattern@));
            lemma_routes_without(all, pattern@);
        }
        n
    }

    /// Adds a route; it takes the place of one for the same glob.
    pub fn add_route(&mut self, route: Route)
        requires
            old(self).wf(),
            route.wf(),
        ensures
            final(self).wf(),
            final(self)@ == (StateV {
                routes: routes_without(old(self)@.routes, route@.pattern).push(route@),
                ..old(self)@
            }),
    {
        broadcast use text::group_views;
        let pattern = route.pattern.clone();
        self.drop_routes(&pattern);
        let ghost kept = self@.routes;
        proof {
            lemma_routes_without(old(self)@.routes, pattern@);
        }
        self.routes.push(route);
        proof {
            assert forall|i: int, j: int| 0 <= i < j < self@.routes.len() implies (#[trigger] self@.routes[i]).pattern
                != (#[trigger] self@.routes[j]).pattern by {
                if j < kept.len() {
                    assert(kept[i].pattern != kept[j].pattern);
                } else {
                    assert(kept[i].pattern != pattern@);
                }
            }
        }
    }

    /// Takes the routes of a glob away, or all; gives how many there were.
    pub fn remove_routes(&mut self, pattern: &Option<String>) -> (n: usize)
        requires
            old(self).wf(),
        ensures
            final(self).wf(),
            final(self)@ == (StateV {
                routes: match text::opt_text(*pattern) {
                    Some(p) => routes_without(old(self)@.routes, p),
                    None => Seq::empty(),
                },
                ..old(self)@
            }),
            n == old(self)@.routes.len() - final(self)@.routes.len(),
    {
        broadcast use text::group_views;
        match pattern {
            Some(p) => self.drop_routes(p),
            None => {
                let n = self.routes.len();
                self.routes = Vec::new();
                n
            },
        }
    }

    /// The list of routes.
    pub fn route_list(&self) -> (r: String)
        ensures
            r@ == routes_text(self@.routes),
    {
        if self.routes.len() == 0 {
            return "No active routes".to_string();
        }
        let mut out: Vec<String> = Vec::new();
        let mut i: usize = 0;
        while i < self.routes.len()
            invariant
                i <= self.routes@.len(),
                out@.len() == i,
                forall|k: int| 0 <= k < i ==> (#[trigger] out@[k])@ == route_line(self.routes@[k]@),
            decreases self.routes@.len() - i,
        {
            let r = &self.routes[i];
            let mut s = "- ".to_string();
            s.append(&r.pattern);
            s.append(" => ");
            if r.body.is_some() || r.status.is_some() {
                let code: i64 = match r.status {
                    Some(c) => c,
                    None => 200,
                };
                s.append("[");
                s.append(&text::decimal_int(code as i128));
                s.append("] mocked response");
            } else {
                s.append("modified headers");
            }
            out.push(s);
            i = i + 1;
        }
        proof {
            assert(text::views(out@) =~= self@.routes.map_values(|r: RouteV| route_line(r)));
        }
        text::join(&out, "\n")
    }
}

/// A route as a line.
pub open spec fn route_line(r: RouteV) -> Text {
    if r.body is Some || r.status is Some {
        "- "@ + r.pattern + " => "@ + "["@ + text::dec_int(
            match r.status {
                Some(c) => c,
                None => 200,
            },
        ) + "] mocked response"@
    } else {
        "- "@ + r.pattern + " => "@ + "modified headers"@
    }
}

/// The list of routes.
pub open spec fn routes_text(routes: Seq<RouteV>) -> Text {
    if routes.len() == 0 {
        "No active routes"@
    } else {
        text::joined(routes.map_values(|r: RouteV| route_line(r)), "\n"@)
    }
}

/// Taking a route away undoes adding it, where none was there for its glob.
pub proof fn law_unroute_undoes_route(routes: Seq<RouteV>, r: RouteV)
    requires
        forall|i: int| 0 <= i < routes.len() ==> (#[trigger] routes[i]).pattern != r.pattern,
    ensures
        routes_without(routes_without(routes, r.pattern).push(r), r.pattern) == routes,
{
    lemma_routes_without(routes, r.pattern);
    let added = routes_without(routes, r.pattern).push(r);
    assert(added.drop_last() =~= routes);
}

/// The newest route for a glob is the one that answers: adding a route a second time leaves one.
pub proof fn law_route_replaces(routes: Seq<RouteV>, r: RouteV, s: RouteV)
    requires
        r.pattern == s.pattern,
    ensures
        ({
            let once = routes_without(routes, r.pattern).push(r);
            routes_without(once, s.pattern).push(s) == routes_without(routes, s.pattern).push(s)
        }),
{
    let kept = routes_without(routes, r.pattern);
    let once = kept.push(r);
    lemma_routes_without(routes, r.pattern);
    lemma_routes_without(kept, r.pattern);
    assert(once.drop_last() =~= kept);
    assert forall|i: int| 0 <= i < kept.len() implies (#[trigger] kept[i]).pattern != r.pattern by {}
}

// ---------------------------------------------------------------------- recording

/// The identifiers of scripts that record, as they are remembered.
pub open spec fn is_record_script(s: Text) -> bool {
    text::text_starts(s, "rec:"@)
}

/// The scripts of a kind, in order.
pub open spec fn scripts_where(s: Seq<Text>, recording: bool) -> Seq<Text>
    decreases s.len(),
{
    if s.len() == 0 {
        Seq::empty()
    } else if is_record_script(s.last()) == recording {
        scripts_where(s.drop_last(), recording).push(s.last())
    } else {
        scripts_where(s.drop_last(), recording)
    }
}

/// The identifiers behind the marks.
pub open spec fn script_ids(s: Seq<Text>) -> Seq<Text> {
    s.map_values(|x: Text| x.skip(4))
}

impl State {
    /// Starts a recording of what a person does, or ends it; the end gives what was recorded.
    pub fn set_recording(&mut self, on: bool) -> (r: Option<Vec<String>>)
        requires
            old(self).wf(),
        ensures
            final(self).wf(),
            final(self)@ == (StateV {
                recording: if on {
                    Some(Seq::empty())
                } else {
                    None
                },
                ..old(self)@
            }),
            state::opt_texts(r) == if on {
                None
            } else {
                old(self)@.recording
            },
    {
        broadcast use text::group_views;
        if on {
            self.recording = Some(Vec::new());
            None
        } else {
            self.recording.take()
        }
    }

    /// A script that records was added to a tab, under an identifier.
    pub fn record_script_added(&mut self, session: &str, id: &str)
        requires
            old(self).wf(),
        ensures
            final(self).wf(),
            final(self)@ == match old(self)@.tab_index(session@) {
                Some(i) => old(self)@.with_tab(
                    i,
                    TabV {
                        handoff_scripts: old(self)@.tabs[i].handoff_scripts.push("rec:"@ + id@),
                        ..old(self)@.tabs[i]
                    },
                ),
                None => old(self)@,
            },
    {
        broadcast use text::group_views;
        let ghost before = self@;
        match self.tab_by_session(session) {
            Some(i) => {
                proof {
                    assert(before.tabs[i as int] == self.tabs@[i as int]@);
                    assert(before.tabs[i as int].wf());
                }
                self.tabs[i].handoff_scripts.push(text::concat("rec:", id));
                proof {
                    let t = TabV {
                        handoff_scripts: before.tabs[i as int].handoff_scripts.push("rec:"@ + id@),
                        ..before.tabs[i as int]
                    };
                    assert(self.tabs@[i as int]@ == t);
                    assert(self@.tabs =~= before.tabs.update(i as int, t));
                    crate::browser::lemma_tabs_wf(before, self@, i as int);
                }
            },
            None => {},
        }
    }

    /// Takes the scripts that record off a tab's list; gives their identifiers.
    pub fn take_record_scripts(&mut self, session: &str) -> (r: Vec<String>)
        requires
            old(self).wf(),
        ensures
            final(self).wf(),
            match old(self)@.tab_index(session@) {
                Some(i) => {
                    let s = old(self)@.tabs[i].handoff_scripts;
                    &&& text::views(r@) == script_ids(scripts_where(s, true))
                    &&& final(self)@ == old(self)@.with_tab(
                        i,
                        TabV { handoff_scripts: scripts_where(s, false), ..old(self)@.tabs[i] },
                    )
                },
                None => r@.len() == 0 && final(self)@ == old(self)@,
            },
    {
        broadcast use text::group_views;
        let ghost before = self@;
        let i = match self.tab_by_session(session) {
            Some(i) => i,
            None => {
                return Vec::new();
            },
        };
        proof {
            assert(before.tabs[i as int] == self.tabs@[i as int]@);
            assert(before.tabs[i as int].wf());
        }
        let (ids, rest) = split_scripts(&self.tabs[i].handoff_scripts);
        self.tabs[i].handoff_scripts = rest;
        proof {
            let t = TabV {
                handoff_scripts: scripts_where(before.tabs[i as int].handoff_scripts, false),
                ..before.tabs[i as int]
            };
            assert(self.tabs@[i as int]@ == t);
            assert(self@.tabs =~= before.tabs.update(i as int, t));
            crate::browser::lemma_tabs_wf(before, self@, i as int);
        }
        ids
    }
}

fn split_scripts(scripts: &Vec<String>) -> (r: (Vec<String>, Vec<String>))
    ensures
        text::views(r.0@) == script_ids(scripts_where(text::views(scripts@), true)),
        text::views(r.1@) == scripts_where(text::views(scripts@), false),
{
    broadcast use text::group_views;
    let ghost all = text::views(scripts@);
    let mut ids: Vec<String> = Vec::new();
    let mut rest: Vec<String> = Vec::new();
    let mut i: usize = 0;
    proof {
        reveal_strlit("rec:");
        assert(all.take(0) =~= Seq::<Text>::empty());
        assert(text::views(ids@) =~= script_ids(scripts_where(all.take(0), true)));
    }
    while i < scripts.len()
        invariant
            i <= scripts@.len(),
            all == text::views(scripts@),
            "rec:"@.len() == 4,
            text::views(ids@) == script_ids(scripts_where(all.take(i as int), true)),
            text::views(rest@) == scripts_where(all.take(i as int), false),
        decreases scripts@.len() - i,
    {
        broadcast use text::group_views;
        let ghost found = scripts_where(all.take(i as int), true);
        proof {
            assert(all.take(i + 1).drop_last() =~= all.take(i as int));
            assert(all.take(i + 1).last() == scripts@[i as int]@);
        }
        match text::strip_prefix(&scripts[i], "rec:") {
            Some(id) => {
                ids.push(id);
                proof {
                    assert(script_ids(found.push(scripts@[i as int]@)) =~= script_ids(found).push(
                        scripts@[i as int]@.skip(4),
                    ));
                }
            },
            None => {
                rest.push(scripts[i].clone());
            },
        }
        i = i + 1;
    }
    proof {
        assert(all.take(all.len() as int) =~= all);
    }
    (ids, rest)
}

/// The script that goes on recording in every new document of a tab.
pub fn record_script(session: &str) -> (r: Command)
    ensures
        r@ == cdp::to_session(
            session@,
            "Page.addScriptToEvaluateOnNewDocument"@,
            JsonV::obj().with("source"@, JsonV::Str("__bmcp.setRecording(true)"@)).with(
                "worldName"@,
                JsonV::Str(WORLD@),
            ),
        ),
{
    Command::session(
        session,
        "Page.addScriptToEvaluateOnNewDocument",
        Json::obj().with("source", Json::str("__bmcp.setRecording(true)")).with("worldName", Json::str(WORLD)),
    )
}

/// What was recorded as a line of test code.
pub open spec fn recorded_line(e: JsonV) -> Text {
    let page = "await page."@ + e.at("locator"@).text_or("locator('body')"@);
    let action = e.at("action"@).text();
    if action == "click"@ {
        page + ".click();"@
    } else if action == "fill"@ {
        page + ".fill("@ + json::json_text(e.at("value"@)) + ");"@
    } else if action == "check"@ {
        page + ".check();"@
    } else if action == "uncheck"@ {
        page + ".uncheck();"@
    } else if action == "selectOption"@ {
        page + ".selectOption("@ + json::json_text(e.at("value"@)) + ");"@
    } else if action == "press"@ {
        "await page.keyboard.press("@ + json::json_text(e.at("key"@)) + ");"@
    } else {
        "// "@ + action
    }
}

fn format_recorded(e: &Json) -> (r: String)
    ensures
        r@ == recorded_line(e@),
{
    let mut page = "await page.".to_string();
    page.append(&e.at("locator").text_or("locator('body')"));
    let action = e.at("action").text();
    if text::same(&action, "click") {
        page.append(".click();");
        page
    } else if text::same(&action, "fill") {
        page.append(".fill(");
        page.append(&e.at("value").to_text());
        page.append(");");
        page
    } else if text::same(&action, "check") {
        page.append(".check();");
        page
    } else if text::same(&action, "uncheck") {
        page.append(".uncheck();");
        page
    } else if text::same(&action, "selectOption") {
        page.append(".selectOption(");
        page.append(&e.at("value").to_text());
        page.append(");");
        page
    } else if text::same(&action, "press") {
        let mut s = "await page.keyboard.press(".to_string();
        s.append(&e.at("key").to_text());
        s.append(");");
        s
    } else {
        text::concat("// ", &action)
    }
}

/// What was recorded, as test code.
pub open spec fn recorded_text(events: Seq<JsonV>) -> Text {
    if events.len() == 0 {
        "No actions were recorded"@
    } else {
        "```js\n"@ + text::joined(events.map_values(|e: JsonV| recorded_line(e)), "\n"@) + "\n```"@
    }
}

/// What was recorded, as test code.
pub fn recorded_code(events: &Vec<Json>) -> (r: String)
    ensures
        r@ == recorded_text(text::views(events@)),
{
    if events.len() == 0 {
        return "No actions were recorded".to_string();
    }
    let mut out: Vec<String> = Vec::new();
    let mut i: usize = 0;
    while i < events.len()
        invariant
            i <= events@.len(),
            out@.len() == i,
            forall|k: int| 0 <= k < i ==> (#[trigger] out@[k])@ == recorded_line(events@[k]@),
        decreases events@.len() - i,
    {
        out.push(format_recorded(&events[i]));
        i = i + 1;
    }
    proof {
        assert(text::views(out@) =~= text::views(events@).map_values(|e: JsonV| recorded_line(e)));
    }
    let mut s = "```js\n".to_string();
    s.append(&text::join(&out, "\n"));
    s.append("\n```");
    s
}

// ---------------------------------------------------------------------- commands for tabs

/// The command that closes the tab of a target.
pub fn close_target(target_id: &str) -> (r: Command)
    ensures
        r@ == cdp::to_browser("Target.closeTarget"@, JsonV::obj().with("targetId"@, JsonV::Str(target_id@))),
{
    Command::browser("Target.closeTarget", Json::obj().with("targetId", Json::str(target_id)))
}

/// The command that asks for the window of a target.
pub fn window_question(target_id: &str) -> (r: Command)
    ensures
        r@ == cdp::to_browser("Browser.getWindowForTarget"@, JsonV::obj().with("targetId"@, JsonV::Str(target_id@))),
{
    Command::browser("Browser.getWindowForTarget", Json::obj().with("targetId", Json::str(target_id)))
}

/// The command that takes back a script that every new document runs.
pub open spec fn script_removal(session: Text, id: Text) -> CommandV {
    cdp::to_session(
        session,
        "Page.removeScriptToEvaluateOnNewDocument"@,
        JsonV::obj().with("identifier"@, JsonV::Str(id)),
    )
}

/// The command that takes back a script that every new document runs.
pub fn remove_script(session: &str, id: &str) -> (r: Command)
    ensures
        r@ == script_removal(session@, id@),
{
    Command::session(
        session,
        "Page.removeScriptToEvaluateOnNewDocument",
        Json::obj().with("identifier", Json::str(id)),
    )
}

/// The expression that lets a page report what a person does, or no longer.
pub fn recording_expression(on: bool) -> (r: &'static str)
    ensures
        r@ == if on {
            "__bmcp.setRecording(true)"@
        } else {
            "__bmcp.setRecording(false)"@
        },
{
    if on {
        "__bmcp.setRecording(true)"
    } else {
        "__bmcp.setRecording(false)"
    }
}

// ---------------------------------------------------------------------- what lists and commands say

/// The list of tabs has a line for every tab, in order, under its number, with its title and its address,
/// and marks the current one and no other.
pub proof fn law_tabs_are_listed(st: StateV, i: int)
    requires
        0 <= i < st.tabs.len(),
    ensures
        tab_lines(st.tabs, st.current).len() == st.tabs.len(),
        tabs_text(st) == text::joined(tab_lines(st.tabs, st.current), "\n"@),
        i == st.current ==> tab_lines(st.tabs, st.current)[i] == "- "@ + text::dec_int(i) + ":"@ + " (current)"@ + " ["@
            + st.tabs[i].title + "]("@ + st.tabs[i].url + ")"@,
        i != st.current ==> tab_lines(st.tabs, st.current)[i] == "- "@ + text::dec_int(i) + ":"@ + Seq::<char>::empty()
            + " ["@ + st.tabs[i].title + "]("@ + st.tabs[i].url + ")"@,
{
}

/// Going back goes to the entry of the history that stands before the current one, where there is one.
pub proof fn law_back_is_one_entry(history: JsonV, i: int)
    requires
        history.at("currentIndex"@) == JsonV::Int(i),
        i64::MIN <= i <= i64::MAX,
    ensures
        i > 0 ==> previous_entry(history) == Some(history.at("entries"@).nth(i - 1).at("id"@)),
        i <= 0 ==> previous_entry(history) is None,
{
}

/// A window takes its normal state and then the size of the page; a visible one is higher by what stands
/// above the page.
pub proof fn law_windows_are_sized(id: JsonV, width: u32, height: u32, headless: bool)
    ensures
        ({
            let c = window_commands(id, width, height, headless);
            &&& c.len() == 2
            &&& c[0].method == "Browser.setWindowBounds"@ && c[1].method == "Browser.setWindowBounds"@
            &&& c[0].params == JsonV::obj().with("windowId"@, id).with(
                "bounds"@,
                JsonV::obj().with("windowState"@, JsonV::Str("normal"@)),
            )
            &&& c[1].params == JsonV::obj().with("windowId"@, id).with(
                "bounds"@,
                JsonV::obj().with("width"@, JsonV::Int(width as int)).with(
                    "height"@,
                    JsonV::Int(height + (if headless {
                        0int
                    } else {
                        87
                    })),
                ),
            )
        }),
{
}

/// Taking the routes of a glob away leaves all other routes, in their order, and none of the glob.
pub proof fn law_unroute_takes_one_glob(routes: Seq<RouteV>, pattern: Text)
    ensures
        positions::shows(
            routes_without(routes, pattern),
            routes.len() as int,
            |j: int| routes[j].pattern != pattern,
            |j: int| routes[j],
        ),
{
    lemma_routes_left(
        routes,
        pattern,
        routes.len() as int,
        |j: int| routes[j].pattern != pattern,
        |j: int| routes[j],
    );
    assert(routes.take(routes.len() as int) =~= routes);
}

proof fn lemma_routes_left(
    routes: Seq<RouteV>,
    pattern: Text,
    n: int,
    chosen: spec_fn(int) -> bool,
    show: spec_fn(int) -> RouteV,
)
    requires
        0 <= n <= routes.len(),
        forall|j: int| 0 <= j < routes.len() ==> #[trigger] chosen(j) == (routes[j].pattern != pattern),
        forall|j: int| 0 <= j < routes.len() ==> #[trigger] show(j) == routes[j],
    ensures
        positions::shows(routes_without(routes.take(n), pattern), n, chosen, show),
    decreases n,
{
    let list = routes_without(routes.take(n), pattern);
    if n == 0 {
        positions::lemma_shows_none(list, chosen, show);
    } else {
        lemma_routes_left(routes, pattern, n - 1, chosen, show);
        assert(routes.take(n).drop_last() =~= routes.take(n - 1));
        assert(routes.take(n).last() == routes[n - 1]);
        assert(chosen(n - 1) == (routes[n - 1].pattern != pattern));
        assert(show(n - 1) == routes[n - 1]);
        positions::lemma_shows_next(routes_without(routes.take(n - 1), pattern), list, n - 1, chosen, show);
    }
}

/// The list of routes has a line for every route: its glob, and the status that it answers with, 200 where
/// none is given, or that it changes headers where it does not answer.
pub proof fn law_routes_are_listed(routes: Seq<RouteV>, i: int)
    requires
        0 <= i < routes.len(),
    ensures
        exists|lines: Seq<Text>|
            routes_text(routes) == #[trigger] text::joined(lines, "\n"@) && lines.len() == routes.len() && lines[i]
                == "- "@ + routes[i].pattern + " => "@ + (if routes[i].status is Some {
                "["@ + text::dec_int(routes[i].status->0) + "] mocked response"@
            } else if routes[i].body is Some {
                "["@ + text::dec_int(200) + "] mocked response"@
            } else {
                "modified headers"@
            }),
{
    let lines = routes.map_values(|r: RouteV| route_line(r));
    assert(routes_text(routes) == text::joined(lines, "\n"@));
    assert(lines[i] =~= "- "@ + routes[i].pattern + " => "@ + (if routes[i].status is Some {
        "["@ + text::dec_int(routes[i].status->0) + "] mocked response"@
    } else if routes[i].body is Some {
        "["@ + text::dec_int(200) + "] mocked response"@
    } else {
        "modified headers"@
    }));
}

/// Of the scripts that are remembered, those that record are told from the others by the mark in front,
/// and each script is of one kind.
pub proof fn law_recording_scripts_are_marked(s: Seq<Text>, recording: bool)
    ensures
        positions::shows(
            scripts_where(s, recording),
            s.len() as int,
            |j: int| text::text_starts(s[j], "rec:"@) == recording,
            |j: int| s[j],
        ),
{
    lemma_scripts(
        s,
        recording,
        s.len() as int,
        |j: int| text::text_starts(s[j], "rec:"@) == recording,
        |j: int| s[j],
    );
    assert(s.take(s.len() as int) =~= s);
}

proof fn lemma_scripts(
    s: Seq<Text>,
    recording: bool,
    n: int,
    chosen: spec_fn(int) -> bool,
    show: spec_fn(int) -> Text,
)
    requires
        0 <= n <= s.len(),
        forall|j: int| 0 <= j < s.len() ==> #[trigger] chosen(j) == (is_record_script(s[j]) == recording),
        forall|j: int| 0 <= j < s.len() ==> #[trigger] show(j) == s[j],
    ensures
        positions::shows(scripts_where(s.take(n), recording), n, chosen, show),
    decreases n,
{
    let list = scripts_where(s.take(n), recording);
    if n == 0 {
        positions::lemma_shows_none(list, chosen, show);
    } else {
        lemma_scripts(s, recording, n - 1, chosen, show);
        assert(s.take(n).drop_last() =~= s.take(n - 1));
        assert(s.take(n).last() == s[n - 1]);
        assert(chosen(n - 1) == (is_record_script(s[n - 1]) == recording));
        assert(show(n - 1) == s[n - 1]);
        positions::lemma_shows_next(scripts_where(s.take(n - 1), recording), list, n - 1, chosen, show);
    }
}

/// The identifier of a script is what stands behind its mark.
pub proof fn law_marks_come_off(id: Text)
    ensures
        script_ids(seq!["rec:"@ + id]) == seq![id],
        is_record_script("rec:"@ + id),
{
    reveal_strlit("rec:");
    assert("rec:"@.len() == 4);
    assert(("rec:"@ + id).skip(4) =~= id);
    assert(("rec:"@ + id).take(4) =~= "rec:"@);
    assert(script_ids(seq!["rec:"@ + id]) =~= seq![id]);
}

/// What was recorded becomes test code, one line for each action, by the element that it was done to.
pub proof fn law_recorded_actions_become_code(events: Seq<JsonV>, i: int)
    requires
        0 <= i < events.len(),
    ensures
        ({
            let e = events[i];
            let action = e.at("action"@).text();
            let page = "await page."@ + e.at("locator"@).text_or("locator('body')"@);
            let value = json::json_text(e.at("value"@));
            exists|lines: Seq<Text>|
                recorded_text(events) == "```js\n"@ + #[trigger] text::joined(lines, "\n"@) + "\n```"@ && lines.len()
                    == events.len() && lines[i] == if action == "click"@ {
                    page + ".click();"@
                } else if action == "fill"@ {
                    page + ".fill("@ + value + ");"@
                } else if action == "check"@ {
                    page + ".check();"@
                } else if action == "uncheck"@ {
                    page + ".uncheck();"@
                } else if action == "selectOption"@ {
                    page + ".selectOption("@ + value + ");"@
                } else if action == "press"@ {
                    "await page.keyboard.press("@ + json::json_text(e.at("key"@)) + ");"@
                } else {
                    "// "@ + action
                }
        }),
{
    let lines = events.map_values(|e: JsonV| recorded_line(e));
    assert(recorded_text(events) == "```js\n"@ + text::joined(lines, "\n"@) + "\n```"@);
    assert(lines[i] == recorded_line(events[i]));
}

} // verus!
