//! Switching between headless and headed mode without losing the session, and carrying cookies and
//! storage in files.

use crate::browser::Browser;
use crate::browser::BrowserV;
use crate::browser::Running;
use crate::browser::RunningV;
use crate::cdp;
use crate::cdp::Command;
use crate::cdp::CommandV;
use crate::json;
use crate::json::Json;
use crate::json::JsonV;
use crate::positions;
use crate::state;
use crate::state::StateV;
use crate::state::Tab;
use crate::state::TabV;
use crate::text;
use crate::text::Text;
use vstd::prelude::*;

verus! {

// ---------------------------------------------------------------------- switching

/// The name of a mode.
pub open spec fn mode_name(headless: bool) -> Text {
    if headless {
        "headless"@
    } else {
        "headed"@
    }
}

fn name_of(headless: bool) -> (r: &'static str)
    ensures
        r@ == mode_name(headless),
{
    if headless {
        "headless"
    } else {
        "headed"
    }
}

/// How a switch of modes goes on.
pub enum Switch {
    /// No browser runs; the next one starts in this mode.
    Later(String),
    /// The browser is in this mode; a visible one is to be brought to the front.
    Already { message: String, to_front: bool },
    /// Relaunch: save cookies and storage of these tabs (session and address), then restore them.
    Relaunch { tabs: Vec<(String, String)>, current: usize },
}

/// Session and address of each tab.
pub open spec fn tab_addresses(tabs: Seq<TabV>) -> Seq<(Text, Text)> {
    tabs.map_values(|t: TabV| (t.session_id, t.url))
}

fn addresses(tabs: &Vec<Tab>) -> (r: Vec<(String, String)>)
    ensures
        state::pairs(r@) == tab_addresses(text::views(tabs@)),
{
    let mut out: Vec<(String, String)> = Vec::new();
    let mut i: usize = 0;
    while i < tabs.len()
        invariant
            i <= tabs@.len(),
            out@.len() == i,
            forall|k: int|
                0 <= k < i ==> (#[trigger] out@[k]).0@ == tabs@[k].session_id@ && out@[k].1@ == tabs@[k].url@,
        decreases tabs@.len() - i,
    {
        out.push((tabs[i].session_id.clone(), tabs[i].url.clone()));
        i = i + 1;
    }
    proof {
        assert(state::pairs(out@) =~= tab_addresses(text::views(tabs@)));
    }
    out
}

impl Browser {
    /// Asks for a mode. A running browser in the other mode is relaunched on the same profile with
    /// its tabs, cookies (session cookies too) and sessionStorage; in-page JavaScript state does not
    /// survive.
    pub fn set_headless(&mut self, headless: bool) -> (r: Switch)
        requires
            old(self).wf(),
        ensures
            final(self)@ == (BrowserV { want_headless: headless, ..old(self)@ }),
            final(self).wf(),
            if !old(self)@.live() {
                r matches Switch::Later(m) && m@ == "browser will start "@ + mode_name(headless)
            } else if (old(self)@.running->0).headless == headless {
                r matches Switch::Already { message, to_front } && message@ == "already "@ + mode_name(headless)
                    && to_front == !headless
            } else {
                r matches Switch::Relaunch { tabs, current } && state::pairs(tabs@) == tab_addresses(
                    old(self)@.state.tabs,
                ) && current == old(self)@.state.current
            },
    {
        self.want_headless = headless;
        let same = match &self.running {
            Some(x) => {
                if x.closed {
                    return Switch::Later(text::concat("browser will start ", name_of(headless)));
                }
                x.headless == headless
            },
            None => {
                return Switch::Later(text::concat("browser will start ", name_of(headless)));
            },
        };
        if same {
            return Switch::Already { message: text::concat("already ", name_of(headless)), to_front: !headless };
        }
        Switch::Relaunch { tabs: addresses(&self.state.tabs), current: self.state.current }
    }

    /// The browser was launched anew. It keeps the profile of the one before, and whether that is
    /// thrown away on the final close.
    pub fn relaunched(&mut self, launched: Running, before: &Running)
        requires
            old(self).wf(),
        ensures
            final(self)@ == (BrowserV {
                running: Some(
                    RunningV { profile: before@.profile, temp_profile: before@.temp_profile, ..launched@ },
                ),
                ..old(self)@
            }),
            final(self).wf(),
    {
        self.running = Some(
            Running {
                headless: launched.headless,
                closed: launched.closed,
                profile: before.profile.clone(),
                temp_profile: before.temp_profile,
            },
        );
    }

    /// Makes the tab that was current before a relaunch current again, or the last one where fewer
    /// tabs came back.
    pub fn restore_current(&mut self, current: usize)
        requires
            old(self).wf(),
        ensures
            final(self)@ == (BrowserV {
                state: StateV {
                    current: restored(current as nat, old(self)@.state.tabs.len()),
                    ..old(self)@.state
                },
                ..old(self)@
            }),
            final(self).wf(),
    {
        let n = self.state.tabs.len();
        let last: usize = if n > 0 {
            n - 1
        } else {
            0
        };
        self.state.current = if current < last {
            current
        } else {
            last
        };
    }
}

/// The position of the current tab after `n` tabs came back.
pub open spec fn restored(current: nat, n: nat) -> nat {
    let last = if n > 0 {
        (n - 1) as nat
    } else {
        0
    };
    if current < last {
        current
    } else {
        last
    }
}

/// After a relaunch some tab is current, and it is the same one where all came back.
pub proof fn law_current_tab_restored(current: nat, n: nat)
    requires
        n > 0,
    ensures
        restored(current, n) < n,
        current < n ==> restored(current, n) == current,
{
}

/// The storage of a tab, as the page writes it; an empty list where the page does not answer.
pub open spec fn storage_of(reply: Option<JsonV>) -> Text {
    match reply {
        Some(v) => v.at("result"@).at("value"@).text_or("[]"@),
        None => "[]"@,
    }
}

/// The command that asks a page for its sessionStorage.
pub fn storage_question(session: &str) -> (r: Command)
    ensures
        r@ == cdp::to_session(
            session@,
            "Runtime.evaluate"@,
            JsonV::obj().with("expression"@, JsonV::Str("JSON.stringify(Object.entries(sessionStorage))"@)).with(
                "returnByValue"@,
                JsonV::Bool(true),
            ),
        ),
{
    Command::session(
        session,
        "Runtime.evaluate",
        Json::obj().with("expression", Json::str("JSON.stringify(Object.entries(sessionStorage))")).with(
            "returnByValue",
            Json::Bool(true),
        ),
    )
}

/// The storage of a tab, given the page's answer.
pub fn saved_storage(reply: &Option<Json>) -> (r: String)
    ensures
        r@ == storage_of(
            match reply {
                Some(j) => Some(j@),
                None => None,
            },
        ),
{
    match reply {
        Some(v) => v.at("result").at("value").text_or("[]"),
        None => "[]".to_string(),
    }
}

/// The script that puts a tab's sessionStorage back when its address is shown again.
pub open spec fn restore_script(url: Text, storage: Text) -> Text {
    "(() => { try { if (!sessionStorage.length && location.href === "@ + json::quoted(url) + ") for (const [k, v] of "@
        + storage + ") sessionStorage.setItem(k, v); } catch {} })()"@
}

/// What restores a tab: its storage where there is some, and its address where there is one.
pub open spec fn restore_commands(session: Text, url: Text, storage: Text) -> Seq<CommandV> {
    (if storage != "[]"@ {
        seq![
            cdp::to_session(
                session,
                "Page.addScriptToEvaluateOnNewDocument"@,
                JsonV::obj().with("source"@, JsonV::Str(restore_script(url, storage))),
            ),
        ]
    } else {
        Seq::empty()
    }) + (if url != "about:blank"@ && url.len() > 0 {
        seq![cdp::to_session(session, "Page.navigate"@, JsonV::obj().with("url"@, JsonV::Str(url)))]
    } else {
        Seq::empty()
    })
}

/// What restores a tab.
pub fn restore_tab(session: &str, url: &str, storage: &str) -> (r: Vec<Command>)
    ensures
        text::views(r@) == restore_commands(session@, url@, storage@),
{
    let mut out: Vec<Command> = Vec::new();
    if !text::same(storage, "[]") {
        let mut s = "(() => { try { if (!sessionStorage.length && location.href === ".to_string();
        s.append(&json::js(url));
        s.append(") for (const [k, v] of ");
        s.append(storage);
        s.append(") sessionStorage.setItem(k, v); } catch {} })()");
        out.push(
            Command::session(
                session,
                "Page.addScriptToEvaluateOnNewDocument",
                Json::obj().with("source", Json::Str(s)),
            ),
        );
    }
    if !text::same(url, "about:blank") && !url.is_empty() {
        out.push(Command::session(session, "Page.navigate", Json::obj().with("url", Json::str(url))));
    }
    proof {
        assert(text::views(out@) =~= restore_commands(session@, url@, storage@));
    }
    out
}

/// Every tab carries over: it opens the address that it had, and its sessionStorage is filled again
/// before any script of the page runs.
pub proof fn law_tab_carries_over(session: Text, url: Text, storage: Text)
    requires
        url != "about:blank"@,
        url.len() > 0,
    ensures
        ({
            let c = restore_commands(session, url, storage);
            &&& c.last() == cdp::to_session(session, "Page.navigate"@, JsonV::obj().with("url"@, JsonV::Str(url)))
            &&& storage != "[]"@ ==> c.len() == 2 && c[0] == cdp::to_session(
                session,
                "Page.addScriptToEvaluateOnNewDocument"@,
                JsonV::obj().with("source"@, JsonV::Str(restore_script(url, storage))),
            )
        }),
{
}

/// Sets cookies, where there are some.
pub fn set_cookies(cookies: &Json) -> (r: Option<Command>)
    ensures
        match r {
            Some(c) => cookies@.elements().len() > 0 && c@ == cdp::to_browser(
                "Storage.setCookies"@,
                JsonV::obj().with("cookies"@, cookies@),
            ),
            None => cookies@.elements().len() == 0,
        },
{
    match cookies {
        Json::Arr(v) => {
            proof {
                json::lemma_arr(*v);
            }
            if v.len() > 0 {
                Some(Command::browser("Storage.setCookies", Json::obj().with("cookies", cookies.clone())))
            } else {
                None
            }
        },
        _ => None,
    }
}

/// What is said after a switch.
pub fn switched(headless: bool, restored: usize) -> (r: String)
    ensures
        r@ == "switched to "@ + mode_name(headless) + " mode ("@ + text::dec(restored as nat) + " tab(s) restored)"@,
{
    let mut s = "switched to ".to_string();
    s.append(name_of(headless));
    s.append(" mode (");
    s.append(&text::decimal(restored as u128));
    s.append(" tab(s) restored)");
    s
}

// ---------------------------------------------------------------------- storage state

/// What is kept of the tabs' answers: those with an origin, the first of each.
pub open spec fn distinct_origins(values: Seq<JsonV>) -> Seq<JsonV>
    decreases values.len(),
{
    if values.len() == 0 {
        Seq::empty()
    } else {
        let rest = distinct_origins(values.drop_last());
        let o = values.last().at("origin"@).text_or("null"@);
        if o == "null"@ || has_origin(rest, o) {
            rest
        } else {
            rest.push(values.last())
        }
    }
}

/// One of the values is of an origin.
pub open spec fn has_origin(values: Seq<JsonV>, o: Text) -> bool {
    exists|i: int| 0 <= i < values.len() && (#[trigger] values[i]).at("origin"@).text_or("null"@) == o
}

fn origin_seen(values: &Vec<Json>, o: &str) -> (r: bool)
    ensures
        r == has_origin(text::views(values@), o@),
{
    let ghost all = text::views(values@);
    let mut i: usize = 0;
    while i < values.len()
        invariant
            i <= values@.len(),
            all == text::views(values@),
            forall|k: int| 0 <= k < i ==> (#[trigger] all[k]).at("origin"@).text_or("null"@) != o@,
        decreases values@.len() - i,
    {
        proof {
            assert(all[i as int] == values@[i as int]@);
        }
        if text::same(&values[i].at("origin").text_or("null"), o) {
            return true;
        }
        i = i + 1;
    }
    false
}

/// Cookies, and the localStorage of each origin that a tab shows. `values` are the tabs' answers.
pub fn storage_state(cookies: &Json, values: &Vec<Json>) -> (r: Json)
    ensures
        r@ == JsonV::obj().with("cookies"@, cookies@).with(
            "origins"@,
            JsonV::Arr(distinct_origins(text::views(values@))),
        ),
{
    broadcast use text::group_views;
    let ghost all = text::views(values@);
    let mut out: Vec<Json> = Vec::new();
    let mut i: usize = 0;
    proof {
        assert(all.take(0) =~= Seq::<JsonV>::empty());
    }
    while i < values.len()
        invariant
            i <= values@.len(),
            all == text::views(values@),
            text::views(out@) == distinct_origins(all.take(i as int)),
        decreases values@.len() - i,
    {
        broadcast use text::group_views;
        proof {
            assert(all.take(i + 1).drop_last() =~= all.take(i as int));
            assert(all.take(i + 1).last() == values@[i as int]@);
        }
        let o = values[i].at("origin").text_or("null");
        if !text::same(&o, "null") && !origin_seen(&out, &o) {
            out.push(values[i].clone());
        }
        i = i + 1;
    }
    proof {
        assert(all.take(all.len() as int) =~= all);
        json::lemma_arr(out);
    }
    Json::obj().with("cookies", cookies.clone()).with("origins", Json::Arr(out))
}

/// No origin stands twice in a storage state.
pub proof fn law_origins_once(values: Seq<JsonV>, i: int, j: int)
    requires
        0 <= i < j < distinct_origins(values).len(),
    ensures
        distinct_origins(values)[i].at("origin"@).text_or("null"@) != distinct_origins(values)[j].at(
            "origin"@,
        ).text_or("null"@),
    decreases values.len(),
{
    let rest = distinct_origins(values.drop_last());
    let all = distinct_origins(values);
    if j < rest.len() {
        law_origins_once(values.drop_last(), i, j);
    } else {
        assert(all[i] == rest[i]);
        let o = values.last().at("origin"@).text_or("null"@);
        assert(!has_origin(rest, o));
    }
}

/// Where the values have an origin, what is kept of them has it, and it is the first of the values
/// that has it.
pub proof fn law_no_origin_is_lost(values: Seq<JsonV>, i: int)
    requires
        0 <= i < values.len(),
        values[i].at("origin"@).text_or("null"@) != "null"@,
        forall|k: int|
            0 <= k < i ==> (#[trigger] values[k]).at("origin"@).text_or("null"@) != values[i].at("origin"@).text_or(
                "null"@,
            ),
    ensures
        distinct_origins(values).contains(values[i]),
    decreases values.len(),
{
    let rest = values.drop_last();
    let all = distinct_origins(values);
    let kept = distinct_origins(rest);
    let o = values[i].at("origin"@).text_or("null"@);
    if i < rest.len() {
        assert(rest[i] == values[i]);
        assert forall|k: int| 0 <= k < i implies (#[trigger] rest[k]).at("origin"@).text_or("null"@) != o by {
            assert(rest[k] == values[k]);
        }
        law_no_origin_is_lost(rest, i);
        let p = choose|p: int| 0 <= p < kept.len() && kept[p] == values[i];
        assert(all[p] == values[i]);
    } else {
        if has_origin(kept, o) {
            let p = choose|p: int| 0 <= p < kept.len() && (#[trigger] kept[p]).at("origin"@).text_or("null"@) == o;
            law_only_origins_are_kept(rest, p);
            let k = choose|k: int| 0 <= k < rest.len() && #[trigger] rest[k] == kept[p];
            assert(values[k] == rest[k]);
        }
        assert(all[kept.len() as int] == values[i]);
    }
}

/// Every value with an origin has its origin in the storage state: nothing but the `"null"` origin of
/// pages without one is left out.
pub proof fn law_every_origin_is_saved(values: Seq<JsonV>, i: int)
    requires
        0 <= i < values.len(),
        values[i].at("origin"@).text_or("null"@) != "null"@,
    ensures
        exists|j: int|
            0 <= j < distinct_origins(values).len() && (#[trigger] distinct_origins(values)[j]).at("origin"@).text_or(
                "null"@,
            ) == values[i].at("origin"@).text_or("null"@),
    decreases i,
{
    let o = values[i].at("origin"@).text_or("null"@);
    if exists|k: int| 0 <= k < i && (#[trigger] values[k]).at("origin"@).text_or("null"@) == o {
        let k = choose|k: int| 0 <= k < i && (#[trigger] values[k]).at("origin"@).text_or("null"@) == o;
        law_every_origin_is_saved(values, k);
    } else {
        law_no_origin_is_lost(values, i);
        let d = distinct_origins(values);
        let j = choose|j: int| 0 <= j < d.len() && d[j] == values[i];
        assert(d[j].at("origin"@).text_or("null"@) == o);
    }
}

/// What is kept is one of the values, as it is, and has an origin.
pub proof fn law_only_origins_are_kept(values: Seq<JsonV>, j: int)
    requires
        0 <= j < distinct_origins(values).len(),
    ensures
        exists|i: int| 0 <= i < values.len() && #[trigger] values[i] == distinct_origins(values)[j],
        distinct_origins(values)[j].at("origin"@).text_or("null"@) != "null"@,
    decreases values.len(),
{
    let rest = values.drop_last();
    let kept = distinct_origins(rest);
    if j < kept.len() {
        law_only_origins_are_kept(rest, j);
        let i = choose|i: int| 0 <= i < rest.len() && #[trigger] rest[i] == kept[j];
        assert(values[i] == rest[i]);
        assert(distinct_origins(values)[j] == kept[j]);
    } else {
        assert(values[values.len() - 1] == distinct_origins(values)[j]);
    }
}

/// A number below zero.
pub open spec fn negative(j: JsonV) -> bool {
    match j {
        JsonV::Int(i) => i < 0,
        JsonV::Float(s) => s.len() > 0 && s[0] == '-' && json::nonzero_digits(s.skip(1)),
        _ => false,
    }
}

fn is_negative(j: &Json) -> (r: bool)
    ensures
        r == negative(j@),
{
    match j {
        Json::Int(i) => *i < 0,
        Json::Float(s) => {
            let v = text::chars_of(s);
            if v.len() == 0 || v[0] != '-' {
                return false;
            }
            json::has_nonzero(&v, 1)
        },
        _ => false,
    }
}

/// The members of an object without those of a name.
pub open spec fn members_without(m: Seq<(Text, JsonV)>, k: Text) -> Seq<(Text, JsonV)>
    decreases m.len(),
{
    if m.len() == 0 {
        Seq::empty()
    } else if m.last().0 == k {
        members_without(m.drop_last(), k)
    } else {
        members_without(m.drop_last(), k).push(m.last())
    }
}

/// A cookie as the browser takes it: one that ends with the session has no date.
pub open spec fn settable(c: JsonV) -> JsonV {
    if negative(c.at("expires"@)) {
        JsonV::Obj(members_without(c.fields(), "expires"@))
    } else {
        c
    }
}

/// A cookie of a storage state as the browser takes it.
pub fn settable_cookie(c: &Json) -> (r: Json)
    ensures
        r@ == settable(c@),
{
    if !is_negative(c.at("expires")) {
        return c.clone();
    }
    match c {
        Json::Obj(m) => {
            proof {
                json::lemma_obj(*m);
            }
            let ghost all = json::members(m@);
            let mut out: Vec<(String, Json)> = Vec::new();
            let mut i: usize = 0;
            proof {
                assert(all.take(0) =~= Seq::<(Text, JsonV)>::empty());
                assert(json::members(out@) =~= Seq::<(Text, JsonV)>::empty());
            }
            while i < m.len()
                invariant
                    i <= m@.len(),
                    all == json::members(m@),
                    json::members(out@) == members_without(all.take(i as int), "expires"@),
                decreases m@.len() - i,
            {
                proof {
                    assert(all.take(i + 1).drop_last() =~= all.take(i as int));
                    assert(all.take(i + 1).last() == (m@[i as int].0@, m@[i as int].1@));
                }
                if !text::same(&m[i].0, "expires") {
                    let ghost before = out@;
                    out.push((m[i].0.clone(), m[i].1.clone()));
                    proof {
                        assert(json::members(out@) =~= json::members(before).push((m@[i as int].0@, m@[i as int].1@)));
                    }
                }
                i = i + 1;
            }
            proof {
                assert(all.take(all.len() as int) =~= all);
                json::lemma_obj(out);
            }
            Json::Obj(out)
        },
        _ => c.clone(),
    }
}

/// The cookies of a storage state as the browser takes them.
pub open spec fn settable_cookies(data: JsonV) -> Seq<JsonV> {
    data.at("cookies"@).elements().map_values(|c: JsonV| settable(c))
}

/// The command that sets the cookies of a storage state, where it has some.
pub fn set_storage_state(data: &Json) -> (r: Option<Command>)
    ensures
        match r {
            Some(c) => settable_cookies(data@).len() > 0 && c@ == cdp::to_browser(
                "Storage.setCookies"@,
                JsonV::obj().with("cookies"@, JsonV::Arr(settable_cookies(data@))),
            ),
            None => settable_cookies(data@).len() == 0,
        },
{
    match data.at("cookies") {
        Json::Arr(v) => {
            proof {
                json::lemma_arr(*v);
            }
            let mut out: Vec<Json> = Vec::new();
            let mut i: usize = 0;
            while i < v.len()
                invariant
                    i <= v@.len(),
                    out@.len() == i,
                    forall|k: int| 0 <= k < i ==> (#[trigger] out@[k])@ == settable(v@[k]@),
                decreases v@.len() - i,
            {
                out.push(settable_cookie(&v[i]));
                i = i + 1;
            }
            proof {
                json::lemma_arr(out);
                assert(text::views(out@) =~= settable_cookies(data@));
            }
            if out.len() > 0 {
                Some(Command::browser("Storage.setCookies", Json::obj().with("cookies", Json::Arr(out))))
            } else {
                None
            }
        },
        _ => None,
    }
}

/// What fills the localStorage of an origin, in a scratch tab whose document request is answered
/// here: the address pattern of its requests, the address to open, and the script to run there.
pub struct OriginSetup {
    pub pattern: String,
    pub url: String,
    pub script: String,
}

/// The setups of the origins of a storage state; entries without an origin are left out.
pub fn origin_setup(entry: &Json) -> (r: Option<OriginSetup>)
    ensures
        match (entry@.at("origin"@).as_text(), r) {
            (Some(o), Some(x)) => {
                &&& x.pattern@ == o + "/*"@
                &&& x.url@ == o + "/"@
                &&& x.script@ == "for (const {name, value} of "@ + json::json_text(entry@.at("localStorage"@))
                    + ") localStorage.setItem(name, value)"@
            },
            (None, None) => true,
            _ => false,
        },
{
    match entry.at("origin").as_text() {
        Some(o) => {
            let mut script = "for (const {name, value} of ".to_string();
            script.append(&entry.at("localStorage").to_text());
            script.append(") localStorage.setItem(name, value)");
            Some(OriginSetup { pattern: text::concat(&o, "/*"), url: text::concat(&o, "/"), script })
        },
        None => None,
    }
}

/// The command that asks a page for its origin and localStorage.
pub fn local_storage_question(session: &str) -> (r: Command)
    ensures
        r@ == cdp::to_session(
            session@,
            "Runtime.evaluate"@,
            JsonV::obj().with(
                "expression"@,
                JsonV::Str(
                    "({ origin: location.origin, localStorage: Object.entries(localStorage).map(([name, value]) => ({ name, value })) })"@,
                ),
            ).with("returnByValue"@, JsonV::Bool(true)),
        ),
{
    Command::session(
        session,
        "Runtime.evaluate",
        Json::obj().with(
            "expression",
            Json::str(
                "({ origin: location.origin, localStorage: Object.entries(localStorage).map(([name, value]) => ({ name, value })) })",
            ),
        ).with("returnByValue", Json::Bool(true)),
    )
}

/// The command that asks for all cookies.
pub fn cookies_question() -> (r: Command)
    ensures
        r@ == cdp::to_browser("Storage.getCookies"@, JsonV::obj()),
{
    Command::browser("Storage.getCookies", Json::obj())
}

/// The cookies that a page or the browser has.
pub fn cookies(res: &Json) -> (r: Vec<Json>)
    ensures
        text::views(r@) == res@.at("cookies"@).elements(),
{
    res.at("cookies").elements()
}

impl OriginSetup {
    /// The command that holds back the requests of the origin.
    pub fn hold_back(&self, session: &str) -> (r: Command)
        ensures
            r@ == cdp::to_session(
                session@,
                "Fetch.enable"@,
                JsonV::obj().with(
                    "patterns"@,
                    JsonV::Arr(
                        seq![
                            JsonV::obj().with("urlPattern"@, JsonV::Str(self.pattern@)).with(
                                "requestStage"@,
                                JsonV::Str("Request"@),
                            ),
                        ],
                    ),
                ),
            ),
    {
        let pattern = Json::obj().with("urlPattern", Json::str(&self.pattern)).with("requestStage", Json::str("Request"));
        Command::session(session, "Fetch.enable", Json::obj().with("patterns", Json::one(pattern)))
    }

    /// The command that opens the origin.
    pub fn open(&self, session: &str) -> (r: Command)
        ensures
            r@ == cdp::to_session(session@, "Page.navigate"@, JsonV::obj().with("url"@, JsonV::Str(self.url@))),
    {
        Command::session(session, "Page.navigate", Json::obj().with("url", Json::str(&self.url)))
    }

    /// The command that answers the request for the document, with nothing in it.
    pub fn answer(session: &str, params: &Json) -> (r: Command)
        ensures
            r@ == cdp::to_session(
                session@,
                "Fetch.fulfillRequest"@,
                JsonV::obj().with("requestId"@, params@.at("requestId"@)).with("responseCode"@, JsonV::Int(200)).with(
                    "body"@,
                    JsonV::Str(""@),
                ),
            ),
    {
        Command::session(
            session,
            "Fetch.fulfillRequest",
            Json::obj().with("requestId", params.at("requestId").clone()).with("responseCode", Json::num(200)).with(
                "body",
                Json::str(""),
            ),
        )
    }

    /// The command that fills the origin's localStorage.
    pub fn store(&self, session: &str) -> (r: Command)
        ensures
            r@ == cdp::to_session(
                session@,
                "Runtime.evaluate"@,
                JsonV::obj().with("expression"@, JsonV::Str(self.script@)),
            ),
    {
        Command::session(session, "Runtime.evaluate", Json::obj().with("expression", Json::str(&self.script)))
    }
}

/// The two modes have different names.
pub proof fn law_modes_are_named()
    ensures
        mode_name(true) == "headless"@,
        mode_name(false) == "headed"@,
{
}

/// Where fewer tabs came back than there were, the last of them is current; where none came back, the
/// first that opens will be.
pub proof fn law_last_tab_stands_in(current: nat, n: nat)
    ensures
        n > 0 && current >= n ==> restored(current, n) == n - 1,
        n == 0 ==> restored(current, n) == 0,
{
}

/// Every tab is carried over, in order, with its session and its address.
pub proof fn law_all_tabs_are_carried(tabs: Seq<TabV>, i: int)
    requires
        0 <= i < tabs.len(),
    ensures
        tab_addresses(tabs).len() == tabs.len(),
        tab_addresses(tabs)[i] == (tabs[i].session_id, tabs[i].url),
{
}

/// A tab's storage is what the page answers; a page that does not answer, or not with a text, has none.
pub proof fn law_storage_is_the_answer(reply: JsonV)
    ensures
        reply.at("result"@).at("value"@) is Str ==> storage_of(Some(reply)) == reply.at("result"@).at("value"@).text(),
        !(reply.at("result"@).at("value"@) is Str) ==> storage_of(Some(reply)) == "[]"@,
        storage_of(None) == "[]"@,
{
}

/// A tab without an address is not navigated, and one without storage gets no script.
pub proof fn law_blank_tabs_stay_blank(session: Text, url: Text, storage: Text)
    ensures
        storage == "[]"@ && (url.len() == 0 || url == "about:blank"@) ==> restore_commands(session, url, storage).len() == 0,
        storage == "[]"@ && url.len() > 0 && url != "about:blank"@ ==> restore_commands(session, url, storage).len() == 1,
        restore_commands(session, url, storage).len() <= 2,
        forall|i: int|
            0 <= i < restore_commands(session, url, storage).len() ==> (#[trigger] restore_commands(
                session,
                url,
                storage,
            )[i]).session == Some(session),
{
}

/// The script that fills a tab's storage again does so at the address that the tab had, where the storage
/// is empty, with what the storage held.
pub proof fn law_restore_script(url: Text, storage: Text)
    ensures
        restore_script(url, storage) == "(() => { try { if (!sessionStorage.length && location.href === "@ + json::quoted(
            url,
        ) + ") for (const [k, v] of "@ + storage + ") sessionStorage.setItem(k, v); } catch {} })()"@,
{
}

/// Cookies go into the browser as they were saved, each of them, in order; one whose date lies below zero
/// ends with the session, and goes without its date and with all else that it has.
pub proof fn law_saved_cookies_are_set(data: JsonV, i: int)
    requires
        0 <= i < data.at("cookies"@).elements().len(),
    ensures
        ({
            let c = data.at("cookies"@).elements()[i];
            let s = settable_cookies(data)[i];
            &&& settable_cookies(data).len() == data.at("cookies"@).elements().len()
            &&& !negative(c.at("expires"@)) ==> s == c
            &&& negative(c.at("expires"@)) ==> s is Obj && positions::shows(
                s->Obj_0,
                c.fields().len() as int,
                |j: int| c.fields()[j].0 != "expires"@,
                |j: int| c.fields()[j],
            )
        }),
{
    let c = data.at("cookies"@).elements()[i];
    let m = c.fields();
    lemma_members_left(m, "expires"@, m.len() as int, |j: int| m[j].0 != "expires"@, |j: int| m[j]);
    assert(m.take(m.len() as int) =~= m);
}

proof fn lemma_members_left(
    m: Seq<(Text, JsonV)>,
    k: Text,
    n: int,
    chosen: spec_fn(int) -> bool,
    show: spec_fn(int) -> (Text, JsonV),
)
    requires
        0 <= n <= m.len(),
        forall|j: int| 0 <= j < m.len() ==> #[trigger] chosen(j) == (m[j].0 != k),
        forall|j: int| 0 <= j < m.len() ==> #[trigger] show(j) == m[j],
    ensures
        positions::shows(members_without(m.take(n), k), n, chosen, show),
    decreases n,
{
    let list = members_without(m.take(n), k);
    if n == 0 {
        positions::lemma_shows_none(list, chosen, show);
    } else {
        lemma_members_left(m, k, n - 1, chosen, show);
        assert(m.take(n).drop_last() =~= m.take(n - 1));
        assert(m.take(n).last() == m[n - 1]);
        assert(chosen(n - 1) == (m[n - 1].0 != k));
        assert(show(n - 1) == m[n - 1]);
        positions::lemma_shows_next(members_without(m.take(n - 1), k), list, n - 1, chosen, show);
    }
}

/// A number lies below zero where a minus sign stands in front and it is not zero.
pub proof fn law_negative_numbers(i: int, s: Text)
    ensures
        negative(JsonV::Int(i)) <==> i < 0,
        negative(JsonV::Float("-"@ + s)) <==> exists|i: int|
            0 <= i < s.len() && '1' <= #[trigger] s[i] <= '9' && forall|k: int|
                0 <= k < i ==> #[trigger] s[k] != 'e' && s[k] != 'E',
        s.len() > 0 && s[0] != '-' ==> !negative(JsonV::Float(s)),
        !negative(JsonV::Null) && !negative(JsonV::Str(s)),
{
    reveal_strlit("-");
    assert("-"@.len() == 1 && "-"@[0] == '-');
    assert(("-"@ + s).skip(1) =~= s);
    json::law_nonzero_digits(s);
}

} // verus!
