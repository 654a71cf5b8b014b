//! In-place human hand-off. The headless browser keeps running untouched; the human gets a live view
//! of the current tab in a viewer page, which shows screencast frames and sends mouse, keyboard and
//! paste back as trusted input. Page state is never reloaded or copied, because it never leaves the
//! browser it lives in.

use crate::cdp;
use crate::cdp::Command;
use crate::cdp::CommandV;
use crate::cdp::EventV;
use crate::config::ConfigV;
use crate::encoding;
use crate::encoding::JsonKind;
use crate::events;
use crate::events::Frame;
use crate::json;
use crate::json::Json;
use crate::json::JsonV;
use crate::keys;
use crate::state;
use crate::state::State;
use crate::state::StateV;
use crate::state::Tab;
use crate::state::TabV;
use crate::tabs;
use crate::text;
use crate::text::Text;
use vstd::prelude::*;

verus! {

// ---------------------------------------------------------------------- input from the viewer

/// An object with a copy of a member that is there and is not null.
pub open spec fn copied(p: JsonV, m: JsonV, from: Text, to: Text) -> JsonV {
    if m.at(from) is Null {
        p
    } else {
        p.with(to, m.at(from))
    }
}

fn copy(p: Json, m: &Json, from: &str, to: &str) -> (r: Json)
    requires
        p@ is Obj,
    ensures
        r@ == copied(p@, m@, from@, to@),
        r@ is Obj,
{
    if m.at(from).is_null() {
        p
    } else {
        p.with(to, m.at(from).clone())
    }
}

/// The parameters of a mouse event that the viewer sends.
pub open spec fn viewer_mouse(m: JsonV) -> JsonV {
    let base = JsonV::obj().with("type"@, m.at("type"@)).with("x"@, m.at("x"@)).with("y"@, m.at("y"@)).with(
        "modifiers"@,
        m.at("modifiers"@),
    );
    let a = copied(base, m, "button"@, "button"@);
    let b = copied(a, m, "buttons"@, "buttons"@);
    let c = copied(b, m, "clickCount"@, "clickCount"@);
    let d = copied(c, m, "deltaX"@, "deltaX"@);
    copied(d, m, "deltaY"@, "deltaY"@)
}

pub fn mouse_params(m: &Json) -> (r: Json)
    ensures
        r@ == viewer_mouse(m@),
{
    let base = Json::obj().with("type", m.at("type").clone()).with("x", m.at("x").clone()).with(
        "y",
        m.at("y").clone(),
    ).with("modifiers", m.at("modifiers").clone());
    let a = copy(base, m, "button", "button");
    let b = copy(a, m, "buttons", "buttons");
    let c = copy(b, m, "clickCount", "clickCount");
    let d = copy(c, m, "deltaX", "deltaX");
    copy(d, m, "deltaY", "deltaY")
}

/// The modifiers of a key event that the viewer sends.
pub open spec fn viewer_mask(m: JsonV) -> i64 {
    match m.at("modifiers"@).as_i64() {
        Some(i) => i as i64,
        None => 0,
    }
}

/// The parameters of a key event that the viewer sends. CDP rejects the whole event when an optional
/// field is null, so only the ones present are copied.
pub open spec fn viewer_key(m: JsonV, mac: bool) -> JsonV {
    let key = m.at("key"@).text();
    let mask = viewer_mask(m);
    let base = JsonV::obj().with("type"@, m.at("type"@)).with("key"@, JsonV::Str(key)).with(
        "modifiers"@,
        JsonV::Int(mask as int),
    );
    let a = copied(base, m, "code"@, "code"@);
    let b = copied(a, m, "keyCode"@, "windowsVirtualKeyCode"@);
    let c = copied(b, m, "location"@, "location"@);
    let d = copied(c, m, "autoRepeat"@, "autoRepeat"@);
    let e = match m.at("text"@) {
        JsonV::Str(t) => d.with("text"@, JsonV::Str(t)).with("unmodifiedText"@, JsonV::Str(t)),
        _ => d,
    };
    let commands = keys::commands_for(mask, key, mac);
    if m.at("type"@) != JsonV::Str("keyUp"@) && commands.len() > 0 {
        e.with("commands"@, json::str_list(commands))
    } else {
        e
    }
}

pub fn key_params(m: &Json, mac: bool) -> (r: Json)
    ensures
        r@ == viewer_key(m@, mac),
{
    let key = m.at("key").text();
    let mask: i64 = match m.at("modifiers").as_i64() {
        Some(i) => i,
        None => 0,
    };
    let base = Json::obj().with("type", m.at("type").clone()).with("key", Json::str(&key)).with(
        "modifiers",
        Json::num(mask),
    );
    let a = copy(base, m, "code", "code");
    let b = copy(a, m, "keyCode", "windowsVirtualKeyCode");
    let c = copy(b, m, "location", "location");
    let d = copy(c, m, "autoRepeat", "autoRepeat");
    let e = match m.at("text").as_str() {
        Some(t) => d.with("text", Json::str(t)).with("unmodifiedText", Json::str(t)),
        None => d,
    };
    let commands = keys::mac_commands(mask, &key, mac);
    if !m.at("type").is_str("keyUp") && commands.len() > 0 {
        e.with("commands", Json::strs(&commands))
    } else {
        e
    }
}

/// What a message from the viewer asks for.
pub enum Control {
    /// Input for the page, to be replayed in order.
    Input(Command),
    /// Go back in the history: ask for it first.
    Back,
    /// Show another tab.
    SelectTab(u64),
    /// Answer the dialog of the page, which is closed then.
    Dialog(Command),
    /// The human is done.
    Done,
    /// The viewer was closed or is being reloaded.
    ViewerClosed,
    Nothing,
}

/// What a `Control` holds.
pub enum ControlV {
    Input(CommandV),
    Back,
    SelectTab(nat),
    Dialog(CommandV),
    Done,
    ViewerClosed,
    Nothing,
}

impl View for Control {
    type V = ControlV;

    open spec fn view(&self) -> ControlV {
        match self {
            Control::Input(c) => ControlV::Input(c@),
            Control::Back => ControlV::Back,
            Control::SelectTab(i) => ControlV::SelectTab(*i as nat),
            Control::Dialog(c) => ControlV::Dialog(c@),
            Control::Done => ControlV::Done,
            Control::ViewerClosed => ControlV::ViewerClosed,
            Control::Nothing => ControlV::Nothing,
        }
    }
}

/// The answer that the viewer gives to a dialog.
pub open spec fn dialog_answer(msg: JsonV) -> JsonV {
    let base = JsonV::obj().with(
        "accept"@,
        JsonV::Bool(
            match msg.at("accept"@).as_bool() {
                Some(b) => b,
                None => false,
            },
        ),
    );
    match msg.at("text"@) {
        JsonV::Str(t) => base.with("promptText"@, JsonV::Str(t)),
        _ => base,
    }
}

/// What a message from the viewer asks for, of the page of a session.
pub open spec fn control_of(session: Text, msg: JsonV, mac: bool) -> ControlV {
    let t = msg.at("t"@).text();
    if t == "mouse"@ {
        ControlV::Input(cdp::to_session(session, "Input.dispatchMouseEvent"@, viewer_mouse(msg)))
    } else if t == "key"@ {
        ControlV::Input(cdp::to_session(session, "Input.dispatchKeyEvent"@, viewer_key(msg, mac)))
    } else if t == "text"@ {
        ControlV::Input(
            cdp::to_session(session, "Input.insertText"@, JsonV::obj().with("text"@, msg.at("text"@))),
        )
    } else if t == "reload"@ {
        ControlV::Input(cdp::to_session(session, "Page.reload"@, JsonV::obj()))
    } else if t == "back"@ {
        ControlV::Back
    } else if t == "tab"@ {
        match msg.at("index"@).as_u64() {
            Some(i) => ControlV::SelectTab(i),
            None => ControlV::Nothing,
        }
    } else if t == "dialog"@ {
        ControlV::Dialog(cdp::to_session(session, "Page.handleJavaScriptDialog"@, dialog_answer(msg)))
    } else if t == "done"@ {
        ControlV::Done
    } else if t == "closed"@ {
        ControlV::ViewerClosed
    } else {
        ControlV::Nothing
    }
}

/// What a message from the viewer asks for.
pub fn on_control(session: &str, msg: &Json, mac: bool) -> (r: Control)
    ensures
        r@ == control_of(session@, msg@, mac),
{
    let t = msg.at("t").text();
    if text::same(&t, "mouse") {
        Control::Input(Command::session(session, "Input.dispatchMouseEvent", mouse_params(msg)))
    } else if text::same(&t, "key") {
        Control::Input(Command::session(session, "Input.dispatchKeyEvent", key_params(msg, mac)))
    } else if text::same(&t, "text") {
        Control::Input(
            Command::session(session, "Input.insertText", Json::obj().with("text", msg.at("text").clone())),
        )
    } else if text::same(&t, "reload") {
        Control::Input(Command::session(session, "Page.reload", Json::obj()))
    } else if text::same(&t, "back") {
        Control::Back
    } else if text::same(&t, "tab") {
        match msg.at("index").as_u64() {
            Some(i) => Control::SelectTab(i),
            None => Control::Nothing,
        }
    } else if text::same(&t, "dialog") {
        let accept = match msg.at("accept").as_bool() {
            Some(b) => b,
            None => false,
        };
        let mut p = Json::obj().with("accept", Json::Bool(accept));
        match msg.at("text").as_str() {
            Some(x) => {
                p = p.with("promptText", Json::str(x));
            },
            None => {},
        }
        Control::Dialog(Command::session(session, "Page.handleJavaScriptDialog", p))
    } else if text::same(&t, "done") {
        Control::Done
    } else if text::same(&t, "closed") {
        Control::ViewerClosed
    } else {
        Control::Nothing
    }
}

// ---------------------------------------------------------------------- the hand-off

/// How a hand-off ends.
#[derive(Clone, Copy, PartialEq, Eq, Structural)]
pub enum Outcome {
    Done,
    Closed,
    Timeout,
    BrowserGone,
}

/// How long a viewer must stay gone before that counts as done, in milliseconds: the viewer is gone
/// for a moment when it merely reloads.
pub const GONE_MS: u64 = 2000;

/// What is remembered during a hand-off. Times are milliseconds since it began.
pub struct HandOff {
    pub session: String,
    pub tabs_seen: usize,
    pub closed_at: Option<u64>,
    /// What the viewer was told last of the page and of its dialog.
    pub page: Json,
    pub dialog: Json,
}

/// What a `HandOff` holds.
#[verifier::ext_equal]
pub struct HandOffV {
    pub session: Text,
    pub tabs_seen: nat,
    pub closed_at: Option<u64>,
    pub page: JsonV,
    pub dialog: JsonV,
}

impl View for HandOff {
    type V = HandOffV;

    open spec fn view(&self) -> HandOffV {
        HandOffV {
            session: self.session@,
            tabs_seen: self.tabs_seen as nat,
            closed_at: self.closed_at,
            page: self.page@,
            dialog: self.dialog@,
        }
    }
}

/// What happened since the last look at a hand-off.
pub struct Tick {
    /// Milliseconds since the hand-off began.
    pub elapsed: u64,
    pub timeout_seconds: u64,
    pub browser_closed: bool,
    /// Viewers that are connected.
    pub connections: usize,
}

/// How a hand-off ends now, if it does.
pub open spec fn ended(h: HandOffV, t: Tick) -> Option<Outcome> {
    if t.browser_closed {
        Some(Outcome::BrowserGone)
    } else if t.elapsed > t.timeout_seconds * 1000 {
        Some(Outcome::Timeout)
    } else {
        match h.closed_at {
            Some(c) if t.connections == 0 && t.elapsed > c + GONE_MS => Some(Outcome::Closed),
            _ => None,
        }
    }
}

/// The titles of some tabs.
pub open spec fn titles(tabs: Seq<TabV>) -> Seq<Text> {
    tabs.map_values(|t: TabV| t.title)
}

/// The state, following tabs the page opens (OAuth pop-ups and the like), as a browser would.
pub open spec fn followed(st: StateV, tabs_seen: nat) -> StateV {
    if st.tabs.len() > tabs_seen {
        StateV { current: (st.tabs.len() - 1) as nat, ..st }
    } else {
        st
    }
}

/// The current tab.
pub open spec fn current_tab(st: StateV) -> Option<TabV> {
    if st.current < st.tabs.len() {
        Some(st.tabs[st.current as int])
    } else {
        None
    }
}

/// What the viewer is told of the page.
pub open spec fn page_info(st: StateV) -> JsonV {
    JsonV::obj().with("current"@, JsonV::Int(st.current as int)).with("t"@, JsonV::Str("page"@)).with(
        "tabs"@,
        json::str_list(titles(st.tabs)),
    ).with(
        "url"@,
        JsonV::Str(
            match current_tab(st) {
                Some(t) => t.url,
                None => Seq::empty(),
            },
        ),
    )
}

/// What the viewer is told of the page's dialog.
pub open spec fn dialog_info(st: StateV) -> JsonV {
    match current_tab(st) {
        Some(t) => match t.dialog {
            Some(d) => JsonV::obj().with("default"@, JsonV::Str(d.default_prompt)).with("kind"@, JsonV::Str(d.kind)).with(
                "message"@,
                JsonV::Str(d.message),
            ).with("t"@, JsonV::Str("dialog"@)),
            None => JsonV::Null,
        },
        None => JsonV::Null,
    }
}

/// What a look at a hand-off comes to.
pub enum Look {
    End(Outcome),
    /// It goes on: what the viewer is to be told anew, and the session to show instead of the one
    /// that was shown.
    Go { page: Option<Json>, dialog: Option<Json>, switch_to: Option<String> },
}

fn title_list(tabs: &Vec<Tab>) -> (r: Vec<String>)
    ensures
        text::views(r@) == titles(text::views(tabs@)),
{
    let mut out: Vec<String> = Vec::new();
    let mut i: usize = 0;
    while i < tabs.len()
        invariant
            i <= tabs@.len(),
            out@.len() == i,
            forall|k: int| 0 <= k < i ==> (#[trigger] out@[k])@ == tabs@[k].title@,
        decreases tabs@.len() - i,
    {
        out.push(tabs[i].title.clone());
        i = i + 1;
    }
    proof {
        assert(text::views(out@) =~= titles(text::views(tabs@)));
    }
    out
}

impl State {
    fn page_info(&self) -> (r: Json)
        ensures
            r@ == page_info(self@),
    {
        let url = if self.current < self.tabs.len() {
            proof {
                assert(self@.tabs[self.current as int] == self.tabs@[self.current as int]@);
            }
            self.tabs[self.current].url.clone()
        } else {
            String::new()
        };
        proof {
            if self.current >= self.tabs@.len() {
                assert(url@ =~= Seq::<char>::empty());
            }
        }
        Json::obj().with("current", Json::Int(self.current as i128)).with("t", Json::str("page")).with(
            "tabs",
            Json::strs(&title_list(&self.tabs)),
        ).with("url", Json::Str(url))
    }

    fn dialog_info(&self) -> (r: Json)
        ensures
            r@ == dialog_info(self@),
    {
        if self.current < self.tabs.len() {
            proof {
                assert(self@.tabs[self.current as int] == self.tabs@[self.current as int]@);
            }
            match &self.tabs[self.current].dialog {
                Some(d) => Json::obj().with("default", Json::str(&d.default_prompt)).with(
                    "kind",
                    Json::str(&d.kind),
                ).with("message", Json::str(&d.message)).with("t", Json::str("dialog")),
                None => Json::Null,
            }
        } else {
            Json::Null
        }
    }
}

/// An option's value by its view.
pub open spec fn opt_view(o: Option<Json>) -> Option<JsonV> {
    match o {
        Some(j) => Some(j@),
        None => None,
    }
}

/// A value that is new.
pub open spec fn if_new(before: JsonV, now: JsonV) -> Option<JsonV> {
    if before == now {
        None
    } else {
        Some(now)
    }
}

fn news(before: &Json, now: &Json) -> (r: Option<Json>)
    ensures
        opt_view(r) == if_new(before@, now@),
{
    if before.same(now) {
        None
    } else {
        Some(now.clone())
    }
}

impl HandOff {
    /// A hand-off of the page of a session begins.
    pub fn new(session: &str, tabs: usize) -> (r: HandOff)
        ensures
            r@ == (HandOffV {
                session: session@,
                tabs_seen: tabs as nat,
                closed_at: None,
                page: JsonV::Null,
                dialog: JsonV::Null,
            }),
    {
        HandOff {
            session: session.to_string(),
            tabs_seen: tabs,
            closed_at: None,
            page: Json::Null,
            dialog: Json::Null,
        }
    }

    /// The viewer says that it was closed, `elapsed` milliseconds after the hand-off began.
    pub fn viewer_closed(&mut self, elapsed: u64)
        ensures
            final(self)@ == (HandOffV { closed_at: Some(elapsed), ..old(self)@ }),
    {
        self.closed_at = Some(elapsed);
    }

    /// Looks after a hand-off: whether it is over, which tab is to be shown, and what the viewer is to
    /// be told.
    pub fn look(&mut self, st: &mut State, t: &Tick) -> (r: Look)
        requires
            old(st).wf(),
        ensures
            final(st).wf(),
            match ended(old(self)@, *t) {
                Some(o) => r matches Look::End(x) && x == o && final(st)@ == old(st)@ && final(self)@ == old(self)@,
                None => {
                    let after = followed(old(st)@, old(self)@.tabs_seen);
                    &&& final(st)@ == after
                    &&& final(self)@ == (HandOffV {
                        tabs_seen: after.tabs.len(),
                        closed_at: if t.connections > 0 {
                            None
                        } else {
                            old(self)@.closed_at
                        },
                        page: page_info(after),
                        dialog: dialog_info(after),
                        session: old(self)@.session,
                    })
                    &&& r matches Look::Go { page, dialog, switch_to } && opt_view(page) == if_new(
                        old(self)@.page,
                        page_info(after),
                    ) && opt_view(dialog) == if_new(old(self)@.dialog, dialog_info(after)) && text::opt_text(switch_to)
                        == match current_tab(after) {
                        Some(c) => if c.session_id == old(self)@.session {
                            None
                        } else {
                            Some(c.session_id)
                        },
                        None => None,
                    }
                },
            },
    {
        if t.browser_closed {
            return Look::End(Outcome::BrowserGone);
        }
        if t.elapsed as u128 > t.timeout_seconds as u128 * 1000 {
            return Look::End(Outcome::Timeout);
        }
        match self.closed_at {
            Some(c) => {
                if t.connections == 0 && t.elapsed as u128 > c as u128 + GONE_MS as u128 {
                    return Look::End(Outcome::Closed);
                }
            },
            None => {},
        }
        if t.connections > 0 {
            self.closed_at = None;
        }
        let n = st.tabs.len();
        if n > self.tabs_seen {
            st.current = n - 1;
        }
        self.tabs_seen = n;
        let info = st.page_info();
        let box_info = st.dialog_info();
        let page = news(&self.page, &info);
        let dialog = news(&self.dialog, &box_info);
        self.page = info;
        self.dialog = box_info;
        let switch_to = if st.current < n {
            proof {
                assert(st@.tabs[st.current as int] == st.tabs@[st.current as int]@);
            }
            let s = st.tabs[st.current].session_id.clone();
            if text::same(&s, &self.session) {
                None
            } else {
                Some(s)
            }
        } else {
            None
        };
        Look::Go { page, dialog, switch_to }
    }
}

/// A viewer that reloads does not end the hand-off: while a viewer is connected, closing it counts
/// for nothing.
pub proof fn law_reload_is_no_close(h: HandOffV, t: Tick)
    requires
        t.connections > 0,
    ensures
        ended(h, t) != Some(Outcome::Closed),
{
}

/// A hand-off that nobody ends ends with its time.
pub proof fn law_hand_off_ends(h: HandOffV, t: Tick)
    requires
        t.elapsed > t.timeout_seconds * 1000,
    ensures
        ended(h, t) is Some,
{
}

/// What is said at the end of a hand-off.
pub open spec fn outcome_message(o: Outcome, timeout_seconds: nat) -> Text {
    match o {
        Outcome::Done => "The user finished and handed control back. The page kept its exact state."@,
        Outcome::Closed => "The user closed the viewer, which counts as done. The page kept its exact state."@,
        Outcome::Timeout => "The user did not finish within "@ + text::dec(timeout_seconds)
            + "s; continuing with the page as it is now."@,
        Outcome::BrowserGone => "The browser closed during the hand-off; it restarts on the next call."@,
    }
}

pub fn hand_off(st: &mut State, o: Outcome, timeout_seconds: u64) -> (r: String)
    requires
        old(st).wf(),
    ensures
        final(st).wf(),
        final(st)@ == (StateV { live: None, ..old(st)@ }),
        r@ == outcome_message(o, timeout_seconds as nat),
{
    st.unwatch();
    match o {
        Outcome::Done => "The user finished and handed control back. The page kept its exact state.".to_string(),
        Outcome::Closed => "The user closed the viewer, which counts as done. The page kept its exact state.".to_string(),
        Outcome::Timeout => {
            let mut s = "The user did not finish within ".to_string();
            s.append(&text::decimal(timeout_seconds as u128));
            s.append("s; continuing with the page as it is now.");
            s
        },
        Outcome::BrowserGone => "The browser closed during the hand-off; it restarts on the next call.".to_string(),
    }
}

// ---------------------------------------------------------------------- screencast

/// The command that starts the screencast of a hand-off: every frame, sharp text.
pub fn start_screencast(session: &str) -> (r: Command)
    ensures
        r@ == cdp::to_session(
            session@,
            "Page.startScreencast"@,
            JsonV::obj().with("format"@, JsonV::Str("jpeg"@)).with("quality"@, JsonV::Int(85)).with(
                "maxWidth"@,
                JsonV::Int(2560),
            ).with("maxHeight"@, JsonV::Int(1600)).with("everyNthFrame"@, JsonV::Int(1)),
        ),
{
    Command::session(
        session,
        "Page.startScreencast",
        Json::obj().with("format", Json::str("jpeg")).with("quality", Json::num(85)).with(
            "maxWidth",
            Json::num(2560),
        ).with("maxHeight", Json::num(1600)).with("everyNthFrame", Json::num(1)),
    )
}

/// The command that captures the first picture: a static page may not repaint for a while.
pub fn first_shot(session: &str) -> (r: Command)
    ensures
        r@ == cdp::to_session(
            session@,
            "Page.captureScreenshot"@,
            JsonV::obj().with("format"@, JsonV::Str("jpeg"@)).with("quality"@, JsonV::Int(85)).with(
                "optimizeForSpeed"@,
                JsonV::Bool(true),
            ),
        ),
{
    Command::session(
        session,
        "Page.captureScreenshot",
        Json::obj().with("format", Json::str("jpeg")).with("quality", Json::num(85)).with(
            "optimizeForSpeed",
            Json::Bool(true),
        ),
    )
}

/// A screenshot as the first frame of a screencast.
pub open spec fn shot_frame(layout: JsonV, shot: JsonV) -> JsonV {
    JsonV::obj().with("data"@, shot.at("data"@)).with(
        "metadata"@,
        JsonV::obj().with("deviceHeight"@, layout.at("cssVisualViewport"@).at("clientHeight"@)).with(
            "deviceWidth"@,
            layout.at("cssVisualViewport"@).at("clientWidth"@),
        ).with("offsetTop"@, JsonV::Int(0)).with("pageScaleFactor"@, JsonV::Int(1)),
    )
}

fn first_frame(layout: &Json, shot: &Json) -> (r: Json)
    ensures
        r@ == shot_frame(layout@, shot@),
{
    let v = layout.at("cssVisualViewport");
    Json::obj().with("data", shot.at("data").clone()).with(
        "metadata",
        Json::obj().with("deviceHeight", v.at("clientHeight").clone()).with(
            "deviceWidth",
            v.at("clientWidth").clone(),
        ).with("offsetTop", Json::num(0)).with("pageScaleFactor", Json::num(1)),
    )
}

// ---------------------------------------------------------------------- the viewer's page

/// A byte in two hexadecimal digits, each byte of a token.
pub open spec fn hex_text(bytes: Seq<u8>) -> Text
    decreases bytes.len(),
{
    if bytes.len() == 0 {
        Seq::empty()
    } else {
        hex_text(bytes.drop_last()) + seq![
            json::hex(bytes.last() as nat / 16),
            json::hex(bytes.last() as nat % 16),
        ]
    }
}

fn hex_digit(d: u8) -> (r: char)
    requires
        d < 16,
    ensures
        r == json::hex(d as nat),
{
    if d < 10 {
        (48 + d) as char
    } else {
        (87 + d) as char
    }
}

/// A token of random bytes, as it stands in addresses.
pub fn token_text(bytes: &[u8]) -> (r: String)
    ensures
        r@ == hex_text(bytes@),
{
    let mut out = String::new();
    let mut i: usize = 0;
    proof {
        assert(bytes@.take(0) =~= Seq::<u8>::empty());
        assert(out@ =~= hex_text(bytes@.take(0)));
    }
    while i < bytes.len()
        invariant
            i <= bytes@.len(),
            out@ == hex_text(bytes@.take(i as int)),
        decreases bytes@.len() - i,
    {
        let ghost before = out@;
        let b = bytes[i];
        out.push(hex_digit(b / 16));
        out.push(hex_digit(b % 16));
        proof {
            assert(bytes@.take(i + 1).drop_last() =~= bytes@.take(i as int));
            assert(bytes@.take(i + 1).last() == b);
            assert(out@ =~= hex_text(bytes@.take(i + 1)));
        }
        i = i + 1;
    }
    proof {
        assert(bytes@.take(bytes@.len() as int) =~= bytes@);
    }
    out
}

/// The address of the viewer on this machine.
pub fn viewer_url(port: u16, token: &str) -> (r: String)
    ensures
        r@ == "http://127.0.0.1:"@ + text::dec(port as nat) + "/handoff/"@ + token@,
{
    let mut s = "http://127.0.0.1:".to_string();
    s.append(&text::decimal(port as u128));
    s.append("/handoff/");
    s.append(token);
    s
}

/// Some bytes stand one behind the other somewhere.
pub open spec fn has_bytes(s: Seq<u8>, p: Seq<u8>) -> bool {
    exists|i: int| 0 <= i && i + p.len() <= s.len() && #[trigger] s.subrange(i, i + p.len()) == p
}

fn bytes_at(s: &[u8], p: &[u8], i: usize) -> (r: bool)
    requires
        i + p@.len() <= s@.len(),
    ensures
        r == (s@.subrange(i as int, i + p@.len()) == p@),
{
    let n: usize = s.len();
    let mut k: usize = 0;
    while k < p.len()
        invariant
            k <= p@.len(),
            n == s@.len(),
            i + p@.len() <= n,
            forall|j: int| 0 <= j < k ==> s@[i + j] == p@[j],
        decreases p@.len() - k,
    {
        if s[i + k] != p[k] {
            proof {
                assert(s@.subrange(i as int, i + p@.len())[k as int] == s@[i + k]);
            }
            return false;
        }
        k = k + 1;
    }
    proof {
        assert(s@.subrange(i as int, i + p@.len()) =~= p@);
    }
    true
}

/// Whether some bytes stand one behind the other somewhere.
pub fn contains_bytes(s: &[u8], p: &[u8]) -> (r: bool)
    requires
        p@.len() > 0,
    ensures
        r == has_bytes(s@, p@),
{
    let mut i: usize = 0;
    while i < s.len() && p.len() <= s.len() - i
        invariant
            i <= s@.len(),
            p@.len() > 0,
            forall|k: int| 0 <= k < i && k + p@.len() <= s@.len() ==> #[trigger] s@.subrange(k, k + p@.len()) != p@,
        decreases s@.len() - i,
    {
        if bytes_at(s, p, i) {
            return true;
        }
        i = i + 1;
    }
    false
}

/// Whether enough of a request is there to route it: its first line, or all that will be looked at.
/// `room` is how much would fit.
pub fn request_line_complete(seen: &[u8], room: usize) -> (r: bool)
    ensures
        r == (seen@.len() == 0 || has_bytes(seen@, seq![13u8, 10u8]) || seen@.len() == room),
{
    let end: [u8; 2] = [13, 10];
    proof {
        assert(end@ =~= seq![13u8, 10u8]);
    }
    seen.len() == 0 || contains_bytes(seen, &end) || seen.len() == room
}

/// Whether the head of a request has been read, or too much has.
pub fn request_head_complete(seen: &[u8]) -> (r: bool)
    ensures
        r == (has_bytes(seen@, seq![13u8, 10u8, 13u8, 10u8]) || seen@.len() >= 65536),
{
    let end: [u8; 4] = [13, 10, 13, 10];
    proof {
        assert(end@ =~= seq![13u8, 10u8, 13u8, 10u8]);
    }
    contains_bytes(seen, &end) || seen.len() >= 65536
}

/// What a request to the viewer's server is for.
#[derive(Clone, Copy, PartialEq, Eq, Structural)]
pub enum Resource {
    /// The viewer's page.
    Viewer,
    /// Its connection.
    Socket,
    NotFound,
}

/// What a request is for, by the path in its first line: only who knows the token gets anything.
pub open spec fn resource_of(head: Text, token: Text) -> Resource {
    let words = text::text_words(head);
    let path = if words.len() > 1 {
        words[1]
    } else {
        Seq::empty()
    };
    if path == "/handoff/"@ + token {
        Resource::Viewer
    } else if path == "/ws/"@ + token {
        Resource::Socket
    } else {
        Resource::NotFound
    }
}

/// The text that `String::from_utf8_lossy` makes of bytes.
pub uninterp spec fn lossy_text(bytes: Seq<u8>) -> Text;

/// `String::from_utf8_lossy`: the text that the bytes encode in UTF-8, with replacement characters
/// for what is not UTF-8. Which of them stand where is left unsaid; it is a function of the bytes
/// alone.
#[verifier::external_body]
fn lossy(bytes: &[u8]) -> (r: String)
    ensures
        r@ == lossy_text(bytes@),
        forall|t: Text| bytes@ == #[trigger] vstd::utf8::encode_utf8(t) ==> r@ == t,
{
    String::from_utf8_lossy(bytes).into_owned()
}

/// What the bytes of a request ask for.
pub fn route_request(head: &[u8], token: &str) -> (r: Resource)
    ensures
        r == resource_of(lossy_text(head@), token@),
        forall|t: Text| head@ == #[trigger] vstd::utf8::encode_utf8(t) ==> r == resource_of(t, token@),
{
    route_text(&lossy(head), token)
}

/// What the text of a request asks for.
pub fn route_text(head: &str, token: &str) -> (r: Resource)
    ensures
        r == resource_of(head@, token@),
{
    let words = text::words(head);
    let path = if words.len() > 1 {
        proof {
            assert(text::views(words@)[1] == words@[1]@);
        }
        words[1].clone()
    } else {
        String::new()
    };
    proof {
        if words@.len() <= 1 {
            assert(path@ =~= Seq::<char>::empty());
        }
    }
    if text::same(&path, &text::concat("/handoff/", token)) {
        Resource::Viewer
    } else if text::same(&path, &text::concat("/ws/", token)) {
        Resource::Socket
    } else {
        Resource::NotFound
    }
}

/// The head of the answer with the viewer's page of `len` bytes.
pub fn viewer_header(len: usize) -> (r: String)
    ensures
        r@ == "HTTP/1.1 200 OK\r\nContent-Type: text/html; charset=utf-8\r\nContent-Length: "@ + text::dec(len as nat)
            + "\r\nCache-Control: no-store\r\nReferrer-Policy: no-referrer\r\nConnection: close\r\n\r\n"@,
{
    let mut s = "HTTP/1.1 200 OK\r\nContent-Type: text/html; charset=utf-8\r\nContent-Length: ".to_string();
    s.append(&text::decimal(len as u128));
    s.append("\r\nCache-Control: no-store\r\nReferrer-Policy: no-referrer\r\nConnection: close\r\n\r\n");
    s
}

/// The answer to a request for anything else.
pub const NOT_FOUND: &'static str = "HTTP/1.1 404 Not Found\r\nContent-Length: 0\r\nConnection: close\r\n\r\n";

// ---------------------------------------------------------------------- talking to the viewer

/// What is sent to a viewer.
pub enum Outgoing {
    Text(String),
    Binary(Vec<u8>),
}

/// What an `Outgoing` holds.
pub enum OutgoingV {
    Text(Text),
    Binary(Seq<u8>),
}

impl View for Outgoing {
    type V = OutgoingV;

    open spec fn view(&self) -> OutgoingV {
        match self {
            Outgoing::Text(s) => OutgoingV::Text(s@),
            Outgoing::Binary(b) => OutgoingV::Binary(b@),
        }
    }
}

/// A frame goes out as its metadata and its bytes.
pub open spec fn frame_messages(f: Frame) -> Seq<OutgoingV> {
    seq![OutgoingV::Text(f.meta@), OutgoingV::Binary(f.jpeg@)]
}

/// What happens while a viewer is connected.
pub enum ViewerEvent {
    /// There is a new frame; it replaces one that was not sent yet.
    Frame(Option<Frame>),
    /// The page changed.
    Page(Json),
    /// A dialog opened, or was closed.
    Dialog(Json),
    /// The hand-off is over.
    Finished,
    /// The viewer sent a text.
    Received(String),
    /// The viewer sent something else.
    Other,
    /// The connection is gone.
    Gone,
}

/// What follows from what happened: messages to send, a text to pass on, and whether that is the end.
pub struct ViewerStep {
    pub send: Vec<Outgoing>,
    pub control: Option<String>,
    pub end: bool,
}

/// What a viewer is sent first: what the human should do, the page, and a frame if there is one.
pub open spec fn greeting_messages(message: Text, page: JsonV, frame: Option<Frame>) -> Seq<OutgoingV> {
    seq![
        OutgoingV::Text(
            json::json_text(
                JsonV::obj().with("message"@, JsonV::Str(message)).with("t"@, JsonV::Str("info"@)),
            ),
        ),
    ] + (if page is Null {
        Seq::empty()
    } else {
        seq![OutgoingV::Text(json::json_text(page))]
    }) + (match frame {
        Some(f) => frame_messages(f),
        None => Seq::empty(),
    })
}

fn push_frame(out: &mut Vec<Outgoing>, f: &Frame)
    ensures
        text::views(final(out)@) == text::views(old(out)@) + frame_messages(*f),
{
    let ghost before = out@;
    out.push(Outgoing::Text(f.meta.clone()));
    out.push(Outgoing::Binary(text::copy_bytes(f.jpeg.as_slice())));
    proof {
        assert(text::views(out@) =~= text::views(before) + frame_messages(*f));
    }
}

/// What a viewer is sent first.
pub fn greeting(message: &str, page: &Json, frame: &Option<Frame>) -> (r: Vec<Outgoing>)
    ensures
        text::views(r@) == greeting_messages(message@, page@, *frame),
{
    let info = Json::obj().with("message", Json::str(message)).with("t", Json::str("info"));
    let mut out: Vec<Outgoing> = Vec::new();
    out.push(Outgoing::Text(info.to_text()));
    proof {
        assert(text::views(out@) =~= seq![OutgoingV::Text(json::json_text(info@))]);
    }
    let ghost a = text::views(out@);
    if !page.is_null() {
        out.push(Outgoing::Text(page.to_text()));
    }
    let ghost more = if page@ is Null {
        Seq::empty()
    } else {
        seq![OutgoingV::Text(json::json_text(page@))]
    };
    proof {
        assert(text::views(out@) =~= a + more);
    }
    let ghost b = text::views(out@);
    match frame {
        Some(f) => {
            push_frame(&mut out, f);
        },
        None => {
            proof {
                assert(b =~= b + Seq::<OutgoingV>::empty());
            }
        },
    }
    out
}

/// The messages that an event sends to the viewer.
pub open spec fn event_messages(e: ViewerEvent) -> Seq<OutgoingV> {
    match e {
        ViewerEvent::Frame(Some(f)) => frame_messages(f),
        ViewerEvent::Page(v) => seq![OutgoingV::Text(json::json_text(v@))],
        ViewerEvent::Dialog(v) => if v@ is Null {
            Seq::empty()
        } else {
            seq![OutgoingV::Text(json::json_text(v@))]
        },
        ViewerEvent::Finished => seq![
            OutgoingV::Text(json::json_text(JsonV::obj().with("t"@, JsonV::Str("finished"@)))),
        ],
        _ => Seq::empty(),
    }
}

/// What is heard of a text of the viewer: nothing where it is no JSON.
pub fn heard(s: String, kind: JsonKind) -> (r: Option<String>)
    ensures
        text::opt_text(r) == if kind != JsonKind::Invalid {
            Some(s@)
        } else {
            None
        },
{
    if kind != JsonKind::Invalid {
        Some(s)
    } else {
        None
    }
}

/// What follows from what happened while a viewer is connected. Texts that are no JSON are dropped.
pub fn viewer_session(e: ViewerEvent) -> (r: ViewerStep)
    ensures
        text::views(r.send@) == event_messages(e),
        r.end == (e is Finished || e is Gone),
        text::opt_text(r.control) == match e {
            ViewerEvent::Received(s) => if encoding::json_kind_of(s@) != JsonKind::Invalid {
                Some(s@)
            } else {
                None
            },
            _ => None,
        },
{
    let mut send: Vec<Outgoing> = Vec::new();
    let mut control: Option<String> = None;
    let mut end = false;
    proof {
        assert(text::views(send@) =~= Seq::<OutgoingV>::empty());
    }
    match e {
        ViewerEvent::Frame(Some(f)) => {
            push_frame(&mut send, &f);
            proof {
                assert(text::views(send@) =~= frame_messages(f));
            }
        },
        ViewerEvent::Frame(None) => {},
        ViewerEvent::Page(v) => {
            send.push(Outgoing::Text(v.to_text()));
            proof {
                assert(text::views(send@) =~= seq![OutgoingV::Text(json::json_text(v@))]);
            }
        },
        ViewerEvent::Dialog(v) => {
            if !v.is_null() {
                send.push(Outgoing::Text(v.to_text()));
                proof {
                    assert(text::views(send@) =~= seq![OutgoingV::Text(json::json_text(v@))]);
                }
            }
        },
        ViewerEvent::Finished => {
            let m = Json::obj().with("t", Json::str("finished"));
            send.push(Outgoing::Text(m.to_text()));
            end = true;
            proof {
                assert(text::views(send@) =~= seq![OutgoingV::Text(json::json_text(m@))]);
            }
        },
        ViewerEvent::Received(s) => {
            let kind = encoding::json_kind(&s);
            control = heard(s, kind);
        },
        ViewerEvent::Other => {},
        ViewerEvent::Gone => {
            end = true;
        },
    }
    ViewerStep { send, control, end }
}

// ---------------------------------------------------------------------- hand-off in a visible window

/// The expression that shows the banner with what the human should do.
pub open spec fn banner_text(message: Text) -> Text {
    "__bmcp.showHandoff("@ + json::quoted(message) + ")"@
}

pub fn banner(message: &str) -> (r: String)
    ensures
        r@ == banner_text(message@),
{
    let mut s = "__bmcp.showHandoff(".to_string();
    s.append(&json::js(message));
    s.append(")");
    s
}

/// The script that shows the banner in every new document of a tab.
pub fn banner_script(session: &str, message: &str) -> (r: Command)
    ensures
        r@ == cdp::to_session(
            session@,
            "Page.addScriptToEvaluateOnNewDocument"@,
            JsonV::obj().with(
                "source"@,
                JsonV::Str("addEventListener('DOMContentLoaded', () => "@ + banner_text(message@) + ")"@),
            ).with("worldName"@, JsonV::Str(crate::page_events::WORLD@)),
        ),
{
    let mut s = "addEventListener('DOMContentLoaded', () => ".to_string();
    s.append(&banner(message));
    s.append(")");
    Command::session(
        session,
        "Page.addScriptToEvaluateOnNewDocument",
        Json::obj().with("source", Json::Str(s)).with("worldName", Json::str(crate::page_events::WORLD)),
    )
}

/// How a hand-off in a window ends at a look after it, if it does.
pub fn window_ended(browser_closed: bool, elapsed: u64, timeout_seconds: u64) -> (r: Option<Outcome>)
    ensures
        r == if browser_closed {
            Some(Outcome::Closed)
        } else if elapsed > timeout_seconds * 1000 {
            Some(Outcome::Timeout)
        } else {
            None
        },
{
    if browser_closed {
        Some(Outcome::Closed)
    } else if elapsed as u128 > timeout_seconds as u128 * 1000 {
        Some(Outcome::Timeout)
    } else {
        None
    }
}

/// Whether the browser goes headless again after a hand-off in a window.
pub fn goes_back(o: Outcome, return_headless: bool, was_headless: bool) -> (r: bool)
    ensures
        r == ((o is Done || o is Timeout) && return_headless && was_headless),
{
    (o == Outcome::Done || o == Outcome::Timeout) && return_headless && was_headless
}

/// What is said after a hand-off in a window.
pub open spec fn window_text(o: Outcome, timeout_seconds: nat, back: bool) -> Text {
    (match o {
        Outcome::Done => "The user finished and handed control back."@,
        Outcome::Timeout => "The user did not click Done within "@ + text::dec(timeout_seconds) + "s; continuing."@,
        _ => "The user closed the browser window. Cookies saved to the profile are kept; the browser restarts on the next call."@,
    }) + (if back {
        " Back in headless mode."@
    } else {
        Seq::empty()
    })
}

/// What is said after a hand-off in a window.
pub fn window_message(o: Outcome, timeout_seconds: u64, back: bool) -> (r: String)
    ensures
        r@ == window_text(o, timeout_seconds as nat, back),
{
    let mut s = match o {
        Outcome::Done => "The user finished and handed control back.".to_string(),
        Outcome::Timeout => {
            let mut t = "The user did not click Done within ".to_string();
            t.append(&text::decimal(timeout_seconds as u128));
            t.append("s; continuing.");
            t
        },
        _ => "The user closed the browser window. Cookies saved to the profile are kept; the browser restarts on the next call.".to_string(),
    };
    if back {
        s.append(" Back in headless mode.");
    } else {
        proof {
            assert(s@ + Seq::<char>::empty() =~= s@);
        }
    }
    s
}

// ---------------------------------------------------------------------- the tab that is watched

impl HandOff {
    /// The hand-off goes on in another tab.
    pub fn moved(&mut self, session: &str)
        ensures
            final(self)@ == (HandOffV { session: session@, ..old(self)@ }),
    {
        self.session = session.to_string();
    }
}

/// The command that ends the pictures of a tab.
pub fn stop_screencast(session: &str) -> (r: Command)
    ensures
        r@ == cdp::to_session(session@, "Page.stopScreencast"@, JsonV::obj()),
{
    Command::session(session, "Page.stopScreencast", Json::obj())
}

impl State {
    /// A person watches the tab of a session from now on.
    pub fn watch(&mut self, session: &str)
        requires
            old(self).wf(),
        ensures
            final(self).wf(),
            final(self)@ == (StateV { live: Some(session@), ..old(self)@ }),
    {
        self.live = Some(session.to_string());
    }

    /// The first picture of a tab, for whoever watches it by now.
    pub fn first_picture(&self, session: &str, layout: &Json, shot: &Json) -> (r: Option<Frame>)
        ensures
            match r {
                Some(f) => self@.live == Some(session@) && events::live_frame(shot_frame(layout@, shot@)) == Some(
                    (f.meta@, f.jpeg@),
                ),
                None => self@.live != Some(session@) || events::live_frame(shot_frame(layout@, shot@)) is None,
            },
    {
        if !text::same_opt(&self.live, session) {
            return None;
        }
        let frame = first_frame(layout, shot);
        proof {
            reveal_strlit("data");
            reveal_strlit("metadata");
            assert("data"@.len() != "metadata"@.len());
            let m = frame@->Obj_0;
            assert(m.skip(1)[0] == m[1]);
            assert(json::member(m.skip(1), "metadata"@) == Some(m[1].1));
            assert(json::member(m, "metadata"@) == Some(m[1].1));
        }
        events::publish(&frame)
    }

    /// Nobody watches a tab any longer.
    pub fn unwatch(&mut self)
        requires
            old(self).wf(),
        ensures
            final(self).wf(),
            final(self)@ == (StateV { live: None, ..old(self)@ }),
    {
        self.live = None;
    }
}

/// Pictures are shown to nobody after a hand-off: whatever event comes, none is published.
pub proof fn law_no_pictures_after_hand_off(st: StateV, ev: EventV, connected: bool, cfg: ConfigV, i: int)
    requires
        st.live is None,
        0 <= i < events::actions_of(st, ev, connected, cfg).len(),
    ensures
        !(events::actions_of(st, ev, connected, cfg)[i] is Publish),
{
}

/// What is left to do after a hand-off in a window.
pub struct WindowEnd {
    /// Takes the banner's script back from each tab that got it.
    pub remove: Vec<Command>,
    /// Tabs, and the expression that takes the banner from each of them.
    pub hide: Vec<(String, String)>,
    /// The browser goes headless again.
    pub back: bool,
    /// What is said when it is done.
    pub message: String,
}

/// Whether a window was closed in a hand-off: then nothing is left of its tabs.
pub open spec fn window_closed(o: Outcome) -> bool {
    o is Closed || o is BrowserGone
}

/// The commands that take scripts back.
pub open spec fn removals(scripts: Seq<(Text, Text)>) -> Seq<CommandV> {
    scripts.map_values(|p: (Text, Text)| tabs::script_removal(p.0, p.1))
}

/// The expression that takes the banner away, for each tab.
pub open spec fn hidings(sessions: Seq<Text>) -> Seq<(Text, Text)> {
    sessions.map_values(|s: Text| (s, "__bmcp.hideHandoff()"@))
}

fn remove_all(scripts: &Vec<(String, String)>) -> (r: Vec<Command>)
    ensures
        text::views(r@) == removals(state::pairs(scripts@)),
{
    let mut out: Vec<Command> = Vec::new();
    let mut i: usize = 0;
    while i < scripts.len()
        invariant
            i <= scripts@.len(),
            out@.len() == i,
            forall|k: int|
                0 <= k < i ==> (#[trigger] out@[k])@ == tabs::script_removal(scripts@[k].0@, scripts@[k].1@),
        decreases scripts@.len() - i,
    {
        out.push(tabs::remove_script(&scripts[i].0, &scripts[i].1));
        i = i + 1;
    }
    proof {
        assert(text::views(out@) =~= removals(state::pairs(scripts@)));
    }
    out
}

fn hide_all(sessions: &Vec<String>) -> (r: Vec<(String, String)>)
    ensures
        state::pairs(r@) == hidings(text::views(sessions@)),
{
    let mut out: Vec<(String, String)> = Vec::new();
    let mut i: usize = 0;
    while i < sessions.len()
        invariant
            i <= sessions@.len(),
            out@.len() == i,
            forall|k: int|
                0 <= k < i ==> (#[trigger] out@[k]).0@ == sessions@[k]@ && out@[k].1@ == "__bmcp.hideHandoff()"@,
        decreases sessions@.len() - i,
    {
        out.push((sessions[i].clone(), "__bmcp.hideHandoff()".to_string()));
        i = i + 1;
    }
    proof {
        assert(state::pairs(out@) =~= hidings(text::views(sessions@)));
    }
    out
}

/// What is left to do after a hand-off in a window: the banner is taken from every tab, unless the
/// window was closed; a browser that was headless before goes headless again where that is asked for.
/// `scripts` are the scripts that show the banner, each with the session of its tab.
pub fn window_end(
    o: Outcome,
    scripts: &Vec<(String, String)>,
    sessions: &Vec<String>,
    return_headless: bool,
    was_headless: bool,
    timeout_seconds: u64,
) -> (r: WindowEnd)
    ensures
        text::views(r.remove@) == if window_closed(o) {
            Seq::empty()
        } else {
            removals(state::pairs(scripts@))
        },
        state::pairs(r.hide@) == if window_closed(o) {
            Seq::empty()
        } else {
            hidings(text::views(sessions@))
        },
        r.back == (!window_closed(o) && return_headless && was_headless),
        r.message@ == window_text(o, timeout_seconds as nat, r.back),
        sessions@.len() > 0 ==> (r.hide@.len() == 0 <==> window_closed(o)),
{
    let back = goes_back(o, return_headless, was_headless);
    let message = window_message(o, timeout_seconds, back);
    match o {
        Outcome::Done | Outcome::Timeout => {
            let hide = hide_all(sessions);
            proof {
                assert(state::pairs(hide@).len() == sessions@.len());
            }
            WindowEnd { remove: remove_all(scripts), hide, back, message }
        },
        Outcome::Closed | Outcome::BrowserGone => {
            let remove: Vec<Command> = Vec::new();
            let hide: Vec<(String, String)> = Vec::new();
            proof {
                assert(text::views(remove@) =~= Seq::<CommandV>::empty());
                assert(state::pairs(hide@) =~= Seq::<(Text, Text)>::empty());
            }
            WindowEnd { remove, hide, back, message }
        },
    }
}

// ---------------------------------------------------------------------- what a person does and sees

proof fn lemma_mouse_names()
    ensures
        "x"@.len() == 1 && "x"@[0] == 'x',
        "y"@.len() == 1 && "y"@[0] == 'y',
        "type"@.len() == 4,
        "button"@.len() == 6 && "button"@[5] == 'n',
        "deltaX"@.len() == 6 && "deltaX"@[5] == 'X',
        "deltaY"@.len() == 6 && "deltaY"@[5] == 'Y',
        "buttons"@.len() == 7,
        "modifiers"@.len() == 9,
        "clickCount"@.len() == 10,
{
    reveal_strlit("type");
    reveal_strlit("x");
    reveal_strlit("y");
    reveal_strlit("modifiers");
    reveal_strlit("button");
    reveal_strlit("buttons");
    reveal_strlit("clickCount");
    reveal_strlit("deltaX");
    reveal_strlit("deltaY");
    assert("x"@.len() == 1 && "x"@[0] == 'x');
    assert("y"@.len() == 1 && "y"@[0] == 'y');
    assert("type"@.len() == 4);
    assert("button"@.len() == 6 && "button"@[5] == 'n');
    assert("deltaX"@.len() == 6 && "deltaX"@[5] == 'X');
    assert("deltaY"@.len() == 6 && "deltaY"@[5] == 'Y');
    assert("buttons"@.len() == 7);
    assert("modifiers"@.len() == 9);
    assert("clickCount"@.len() == 10);
}

/// A mouse event of the viewer reaches the page with all that it says of it: its kind, its place, the
/// modifiers, and buttons, clicks and wheel where it says something of them.
pub proof fn law_viewer_mouse_events(m: JsonV)
    ensures
        ({
            let p = viewer_mouse(m);
            &&& p is Obj
            &&& p.at("type"@) == m.at("type"@)
            &&& p.at("x"@) == m.at("x"@)
            &&& p.at("y"@) == m.at("y"@)
            &&& p.at("modifiers"@) == m.at("modifiers"@)
            &&& p.at("button"@) == m.at("button"@)
            &&& p.at("buttons"@) == m.at("buttons"@)
            &&& p.at("clickCount"@) == m.at("clickCount"@)
            &&& p.at("deltaX"@) == m.at("deltaX"@)
            &&& p.at("deltaY"@) == m.at("deltaY"@)
            &&& m.at("button"@) is Null ==> p.get("button"@) is None
            &&& m.at("buttons"@) is Null ==> p.get("buttons"@) is None
            &&& m.at("clickCount"@) is Null ==> p.get("clickCount"@) is None
            &&& m.at("deltaX"@) is Null ==> p.get("deltaX"@) is None
            &&& m.at("deltaY"@) is Null ==> p.get("deltaY"@) is None
        }),
{
    broadcast use json::group_with;

    lemma_mouse_names();
    assert(JsonV::obj().get("type"@) is None);
    assert(JsonV::obj().get("x"@) is None);
    assert(JsonV::obj().get("y"@) is None);
    assert(JsonV::obj().get("modifiers"@) is None);
    assert(JsonV::obj().get("button"@) is None);
    assert(JsonV::obj().get("buttons"@) is None);
    assert(JsonV::obj().get("clickCount"@) is None);
    assert(JsonV::obj().get("deltaX"@) is None);
    assert(JsonV::obj().get("deltaY"@) is None);
}

proof fn lemma_key_fields()
    ensures
        "key"@.len() == 3,
        "type"@.len() == 4 && "type"@[1] == 'y',
        "code"@.len() == 4 && "code"@[1] == 'o',
        "text"@.len() == 4 && "text"@[1] == 'e',
        "location"@.len() == 8 && "location"@[0] == 'l',
        "commands"@.len() == 8 && "commands"@[0] == 'c',
        "modifiers"@.len() == 9,
        "autoRepeat"@.len() == 10,
        "unmodifiedText"@.len() == 14,
        "windowsVirtualKeyCode"@.len() == 21,
{
    reveal_strlit("type");
    reveal_strlit("key");
    reveal_strlit("modifiers");
    reveal_strlit("code");
    reveal_strlit("windowsVirtualKeyCode");
    reveal_strlit("location");
    reveal_strlit("autoRepeat");
    reveal_strlit("text");
    reveal_strlit("unmodifiedText");
    reveal_strlit("commands");
    assert("key"@.len() == 3);
    assert("type"@.len() == 4 && "type"@[1] == 'y');
    assert("code"@.len() == 4 && "code"@[1] == 'o');
    assert("text"@.len() == 4 && "text"@[1] == 'e');
    assert("location"@.len() == 8 && "location"@[0] == 'l');
    assert("commands"@.len() == 8 && "commands"@[0] == 'c');
    assert("modifiers"@.len() == 9);
    assert("autoRepeat"@.len() == 10);
    assert("unmodifiedText"@.len() == 14);
    assert("windowsVirtualKeyCode"@.len() == 21);
}

/// A key event of the viewer reaches the page with all that it says of it: its kind, its key, the modifiers,
/// the text that it types where it types one, and what else it tells of the key; on a Mac it carries the
/// editing command that it stands for, as it goes down.
pub proof fn law_viewer_key_events(m: JsonV, mac: bool)
    ensures
        ({
            let p = viewer_key(m, mac);
            let mask = if m.at("modifiers"@).as_i64() is Some {
                m.at("modifiers"@).as_i64()->0
            } else {
                0
            };
            let commands = keys::commands_for(viewer_mask(m), m.at("key"@).text(), mac);
            &&& p is Obj
            &&& viewer_mask(m) == mask
            &&& p.at("type"@) == m.at("type"@)
            &&& p.at("key"@) == JsonV::Str(m.at("key"@).text())
            &&& p.at("modifiers"@) == JsonV::Int(mask)
            &&& p.at("code"@) == m.at("code"@)
            &&& p.at("windowsVirtualKeyCode"@) == m.at("keyCode"@)
            &&& p.at("location"@) == m.at("location"@)
            &&& p.at("autoRepeat"@) == m.at("autoRepeat"@)
            &&& m.at("text"@) is Str ==> p.at("text"@) == m.at("text"@) && p.at("unmodifiedText"@) == m.at("text"@)
            &&& !(m.at("text"@) is Str) ==> p.get("text"@) is None && p.get("unmodifiedText"@) is None
            &&& m.at("code"@) is Null ==> p.get("code"@) is None
            &&& m.at("keyCode"@) is Null ==> p.get("windowsVirtualKeyCode"@) is None
            &&& m.at("location"@) is Null ==> p.get("location"@) is None
            &&& m.at("autoRepeat"@) is Null ==> p.get("autoRepeat"@) is None
            &&& m.at("type"@) != JsonV::Str("keyUp"@) && commands.len() > 0 ==> p.at("commands"@) == json::str_list(
                commands,
            )
            &&& m.at("type"@) == JsonV::Str("keyUp"@) || commands.len() == 0 ==> p.get("commands"@) is None
        }),
{
    broadcast use json::group_with;

    lemma_key_fields();
    assert(JsonV::obj().get("type"@) is None);
    assert(JsonV::obj().get("key"@) is None);
    assert(JsonV::obj().get("modifiers"@) is None);
    assert(JsonV::obj().get("code"@) is None);
    assert(JsonV::obj().get("windowsVirtualKeyCode"@) is None);
    assert(JsonV::obj().get("location"@) is None);
    assert(JsonV::obj().get("autoRepeat"@) is None);
    assert(JsonV::obj().get("text"@) is None);
    assert(JsonV::obj().get("unmodifiedText"@) is None);
    assert(JsonV::obj().get("commands"@) is None);
}

/// What the viewer's messages ask for, each by its kind; a message of another kind asks for nothing.
pub proof fn law_viewer_messages(session: Text, msg: JsonV, mac: bool)
    ensures
        ({
            let t = msg.at("t"@);
            let c = control_of(session, msg, mac);
            &&& t == JsonV::Str("mouse"@) ==> c == ControlV::Input(
                cdp::to_session(session, "Input.dispatchMouseEvent"@, viewer_mouse(msg)),
            )
            &&& t == JsonV::Str("key"@) ==> c == ControlV::Input(
                cdp::to_session(session, "Input.dispatchKeyEvent"@, viewer_key(msg, mac)),
            )
            &&& t == JsonV::Str("text"@) ==> c == ControlV::Input(
                cdp::to_session(session, "Input.insertText"@, JsonV::obj().with("text"@, msg.at("text"@))),
            )
            &&& t == JsonV::Str("reload"@) ==> c == ControlV::Input(
                cdp::to_session(session, "Page.reload"@, JsonV::obj()),
            )
            &&& t == JsonV::Str("back"@) ==> c == ControlV::Back
            &&& t == JsonV::Str("tab"@) && msg.at("index"@).as_u64() is Some ==> c == ControlV::SelectTab(
                msg.at("index"@).as_u64()->0,
            )
            &&& t == JsonV::Str("tab"@) && msg.at("index"@).as_u64() is None ==> c == ControlV::Nothing
            &&& t == JsonV::Str("dialog"@) ==> c == ControlV::Dialog(
                cdp::to_session(session, "Page.handleJavaScriptDialog"@, dialog_answer(msg)),
            )
            &&& t == JsonV::Str("done"@) ==> c == ControlV::Done
            &&& t == JsonV::Str("closed"@) ==> c == ControlV::ViewerClosed
            &&& t != JsonV::Str("mouse"@) && t != JsonV::Str("key"@) && t != JsonV::Str("text"@) && t != JsonV::Str("reload"@) && t != JsonV::Str("back"@) && t != JsonV::Str("tab"@) && t != JsonV::Str("dialog"@) && t != JsonV::Str("done"@) && t != JsonV::Str("closed"@) ==> c == ControlV::Nothing
        }),
{
    reveal_strlit("mouse");
    reveal_strlit("key");
    reveal_strlit("text");
    reveal_strlit("reload");
    reveal_strlit("back");
    reveal_strlit("tab");
    reveal_strlit("dialog");
    reveal_strlit("done");
    reveal_strlit("closed");
    assert("key"@.len() == 3 && "key"@[0] == 'k');
    assert("tab"@.len() == 3 && "tab"@[0] == 't');
    assert("text"@.len() == 4 && "text"@[0] == 't');
    assert("back"@.len() == 4 && "back"@[0] == 'b');
    assert("done"@.len() == 4 && "done"@[0] == 'd');
    assert("mouse"@.len() == 5);
    assert("reload"@.len() == 6 && "reload"@[0] == 'r');
    assert("dialog"@.len() == 6 && "dialog"@[0] == 'd');
    assert("closed"@.len() == 6 && "closed"@[0] == 'c');
    assert(!(msg.at("t"@) is Str) ==> msg.at("t"@).text().len() == 0);
}

/// A dialog is accepted where the person accepts it, and dismissed else; a text that they give goes along.
pub proof fn law_viewer_answers_dialogs(msg: JsonV)
    ensures
        ({
            let accept = JsonV::Bool(msg.at("accept"@) == JsonV::Bool(true));
            &&& msg.at("text"@) is Str ==> dialog_answer(msg) == JsonV::Obj(
                seq![("accept"@, accept), ("promptText"@, msg.at("text"@))],
            )
            &&& !(msg.at("text"@) is Str) ==> dialog_answer(msg) == JsonV::Obj(seq![("accept"@, accept)])
        }),
{
    let o = dialog_answer(msg)->Obj_0;
    let accept = JsonV::Bool(msg.at("accept"@) == JsonV::Bool(true));
    if msg.at("text"@) is Str {
        assert(o =~= seq![("accept"@, accept), ("promptText"@, msg.at("text"@))]);
    } else {
        assert(o =~= seq![("accept"@, accept)]);
    }
}

/// A hand-off ends when the browser is gone, when its time is over, and when no viewer is left two seconds
/// after one was closed; else it goes on.
pub proof fn law_ends_of_hand_offs(h: HandOffV, t: Tick)
    ensures
        t.browser_closed ==> ended(h, t) == Some(Outcome::BrowserGone),
        !t.browser_closed && t.elapsed > t.timeout_seconds * 1000 ==> ended(h, t) == Some(Outcome::Timeout),
        !t.browser_closed && t.elapsed <= t.timeout_seconds * 1000 && h.closed_at is Some && t.connections == 0
            && t.elapsed > h.closed_at->0 + 2000 ==> ended(h, t) == Some(Outcome::Closed),
        !t.browser_closed && t.elapsed <= t.timeout_seconds * 1000 && (h.closed_at is None || t.connections > 0
            || t.elapsed <= h.closed_at->0 + 2000) ==> ended(h, t) is None,
{
}

/// A tab that opens during a hand-off is followed; nothing else changes which tab is shown.
pub proof fn law_new_tabs_are_followed(st: StateV, tabs_seen: nat)
    ensures
        st.tabs.len() > tabs_seen ==> followed(st, tabs_seen) == (StateV { current: (st.tabs.len() - 1) as nat, ..st }),
        st.tabs.len() <= tabs_seen ==> followed(st, tabs_seen) == st,
{
}

/// The viewer is told the titles of all tabs, which one it shows, and its address.
pub proof fn law_viewer_sees_the_tabs(st: StateV, i: int)
    ensures
        ({
            let url = if st.current < st.tabs.len() {
                st.tabs[st.current as int].url
            } else {
                Seq::empty()
            };
            &&& page_info(st) == JsonV::Obj(
                seq![
                    ("current"@, JsonV::Int(st.current as int)),
                    ("t"@, JsonV::Str("page"@)),
                    ("tabs"@, json::str_list(titles(st.tabs))),
                    ("url"@, JsonV::Str(url)),
                ],
            )
            &&& titles(st.tabs).len() == st.tabs.len()
            &&& 0 <= i < st.tabs.len() ==> titles(st.tabs)[i] == st.tabs[i].title
        }),
{
    let url = if st.current < st.tabs.len() {
        st.tabs[st.current as int].url
    } else {
        Seq::empty()
    };
    assert(page_info(st)->Obj_0 =~= seq![
        ("current"@, JsonV::Int(st.current as int)),
        ("t"@, JsonV::Str("page"@)),
        ("tabs"@, json::str_list(titles(st.tabs))),
        ("url"@, JsonV::Str(url)),
    ]);
}

/// The viewer is told of the dialog that is open in the tab it shows, and that there is none where there is
/// none.
pub proof fn law_viewer_sees_the_dialog(st: StateV)
    ensures
        st.current < st.tabs.len() && st.tabs[st.current as int].dialog is Some ==> {
            let d = st.tabs[st.current as int].dialog->0;
            dialog_info(st) == JsonV::Obj(
                seq![
                    ("default"@, JsonV::Str(d.default_prompt)),
                    ("kind"@, JsonV::Str(d.kind)),
                    ("message"@, JsonV::Str(d.message)),
                    ("t"@, JsonV::Str("dialog"@)),
                ],
            )
        },
        st.current >= st.tabs.len() || st.tabs[st.current as int].dialog is None ==> dialog_info(st) == JsonV::Null,
{
    if st.current < st.tabs.len() && st.tabs[st.current as int].dialog is Some {
        let d = st.tabs[st.current as int].dialog->0;
        assert(dialog_info(st)->Obj_0 =~= seq![
            ("default"@, JsonV::Str(d.default_prompt)),
            ("kind"@, JsonV::Str(d.kind)),
            ("message"@, JsonV::Str(d.message)),
            ("t"@, JsonV::Str("dialog"@)),
        ]);
    }
}

/// The viewer is told what changed, and of nothing that did not.
pub proof fn law_viewer_is_told_changes(before: JsonV, now: JsonV)
    ensures
        before == now ==> if_new(before, now) is None,
        before != now ==> if_new(before, now) == Some(now),
{
}

/// What the client is told at the end of a hand-off.
pub proof fn law_outcomes_are_told(n: nat)
    ensures
        outcome_message(Outcome::Done, n) == "The user finished and handed control back. The page kept its exact state."@,
        outcome_message(Outcome::Closed, n)
            == "The user closed the viewer, which counts as done. The page kept its exact state."@,
        outcome_message(Outcome::Timeout, n) == "The user did not finish within "@ + text::dec(n)
            + "s; continuing with the page as it is now."@,
        outcome_message(Outcome::BrowserGone, n)
            == "The browser closed during the hand-off; it restarts on the next call."@,
{
}

/// The first picture carries the screenshot and the size of the page that it shows.
pub proof fn law_first_pictures(layout: JsonV, shot: JsonV)
    ensures
        shot_frame(layout, shot) == JsonV::Obj(
            seq![
                ("data"@, shot.at("data"@)),
                (
                    "metadata"@,
                    JsonV::Obj(
                        seq![
                            ("deviceHeight"@, layout.at("cssVisualViewport"@).at("clientHeight"@)),
                            ("deviceWidth"@, layout.at("cssVisualViewport"@).at("clientWidth"@)),
                            ("offsetTop"@, JsonV::Int(0)),
                            ("pageScaleFactor"@, JsonV::Int(1)),
                        ],
                    ),
                ),
            ],
        ),
{
    let v = layout.at("cssVisualViewport"@);
    let inner = seq![
        ("deviceHeight"@, v.at("clientHeight"@)),
        ("deviceWidth"@, v.at("clientWidth"@)),
        ("offsetTop"@, JsonV::Int(0)),
        ("pageScaleFactor"@, JsonV::Int(1)),
    ];
    let o = shot_frame(layout, shot)->Obj_0;
    assert(o[1].1->Obj_0 =~= inner);
    assert(o =~= seq![("data"@, shot.at("data"@)), ("metadata"@, JsonV::Obj(inner))]);
}

/// A token has two hexadecimal digits for each byte, and different bytes have different tokens.
pub proof fn law_tokens(a: Seq<u8>, b: Seq<u8>)
    ensures
        hex_text(a).len() == 2 * a.len(),
        hex_text(a) == hex_text(b) ==> a == b,
    decreases a.len() + b.len(),
{
    let s = hex_text(a);
    if a.len() > 0 {
        law_tokens(a.drop_last(), Seq::empty());
    }
    if b.len() > 0 {
        lemma_hex_len(b);
        lemma_hex_len(b.drop_last());
    }
    if hex_text(a) == hex_text(b) {
        if a.len() == 0 || b.len() == 0 {
            assert(a.len() == b.len());
            assert(a =~= b);
        } else {
            let c = a.drop_last();
            let d = b.drop_last();
            assert(hex_text(a).take(hex_text(a).len() - 2) =~= hex_text(c));
            assert(hex_text(b).take(hex_text(b).len() - 2) =~= hex_text(d));
            law_tokens(c, d);
            let n = hex_text(c).len() as int;
            assert(hex_text(a)[n] == json::hex(a.last() as nat / 16));
            assert(hex_text(a)[n + 1] == json::hex(a.last() as nat % 16));
            assert(hex_text(b)[n] == json::hex(b.last() as nat / 16));
            assert(hex_text(b)[n + 1] == json::hex(b.last() as nat % 16));
            lemma_hex_digit(a.last() as nat / 16, b.last() as nat / 16);
            lemma_hex_digit(a.last() as nat % 16, b.last() as nat % 16);
            assert(a.last() == b.last());
            assert(a =~= c.push(a.last()));
            assert(b =~= d.push(b.last()));
        }
    }
}

proof fn lemma_hex_len(b: Seq<u8>)
    ensures
        hex_text(b).len() == 2 * b.len(),
    decreases b.len(),
{
    if b.len() > 0 {
        lemma_hex_len(b.drop_last());
    }
}

proof fn lemma_hex_digit(a: nat, b: nat)
    requires
        a < 16,
        b < 16,
        json::hex(a) == json::hex(b),
    ensures
        a == b,
{
}

/// Only who knows the token gets the viewer or its connection: what a request asks for is the second word of
/// its head.
pub proof fn law_requests_need_the_token(head: Text, token: Text)
    ensures
        text::text_words(head).len() > 1 && text::text_words(head)[1] == "/handoff/"@ + token ==> resource_of(head, token)
            == Resource::Viewer,
        text::text_words(head).len() > 1 && text::text_words(head)[1] == "/ws/"@ + token ==> resource_of(head, token)
            == Resource::Socket,
        text::text_words(head).len() <= 1 ==> resource_of(head, token) == Resource::NotFound,
        text::text_words(head).len() > 1 && text::text_words(head)[1] != "/handoff/"@ + token && text::text_words(head)[1]
            != "/ws/"@ + token ==> resource_of(head, token) == Resource::NotFound,
{
    reveal_strlit("/handoff/");
    reveal_strlit("/ws/");
    let a = "/handoff/"@ + token;
    let b = "/ws/"@ + token;
    assert("/handoff/"@.len() == 9 && "/ws/"@.len() == 4);
    assert(a.len() != b.len());
}

/// What a viewer sees first: what the person should do, the page where one is shown, and the picture where
/// there is one.
pub proof fn law_viewers_are_greeted(message: Text, page: JsonV, frame: Option<Frame>)
    ensures
        ({
            let g = greeting_messages(message, page, frame);
            &&& g[0] == OutgoingV::Text(
                json::json_text(JsonV::obj().with("message"@, JsonV::Str(message)).with("t"@, JsonV::Str("info"@))),
            )
            &&& !(page is Null) ==> g[1] == OutgoingV::Text(json::json_text(page))
            &&& frame is Some ==> g[g.len() - 2] == OutgoingV::Text((frame->0).meta@) && g.last() == OutgoingV::Binary(
                (frame->0).jpeg@,
            )
            &&& g.len() == 1 + (if page is Null {
                0int
            } else {
                1
            }) + (if frame is Some {
                2int
            } else {
                0
            })
        }),
{
}

/// What a viewer is sent as things happen: a picture with its metadata, the page, a dialog, and that the
/// hand-off is over.
pub proof fn law_viewers_are_sent(f: Frame, v: Json)
    ensures
        event_messages(ViewerEvent::Frame(Some(f))) == seq![OutgoingV::Text(f.meta@), OutgoingV::Binary(f.jpeg@)],
        event_messages(ViewerEvent::Frame(None)).len() == 0,
        event_messages(ViewerEvent::Page(v)) == seq![OutgoingV::Text(json::json_text(v@))],
        !(v@ is Null) ==> event_messages(ViewerEvent::Dialog(v)) == seq![OutgoingV::Text(json::json_text(v@))],
        v@ is Null ==> event_messages(ViewerEvent::Dialog(v)).len() == 0,
        event_messages(ViewerEvent::Finished) == seq![
            OutgoingV::Text(json::json_text(JsonV::obj().with("t"@, JsonV::Str("finished"@)))),
        ],
{
}

/// What is shown and said of a hand-off in a window.
pub proof fn law_hand_offs_in_a_window(message: Text, n: nat, back: bool)
    ensures
        banner_text(message) == "__bmcp.showHandoff("@ + json::quoted(message) + ")"@,
        window_text(Outcome::Done, n, false) == "The user finished and handed control back."@ + Seq::<char>::empty(),
        window_text(Outcome::Timeout, n, false) == "The user did not click Done within "@ + text::dec(n) + "s; continuing."@
            + Seq::<char>::empty(),
        window_text(Outcome::Closed, n, back) == window_text(Outcome::BrowserGone, n, back),
        window_text(Outcome::Closed, n, false)
            == "The user closed the browser window. Cookies saved to the profile are kept; the browser restarts on the next call."@
            + Seq::<char>::empty(),
        window_text(Outcome::Done, n, true) == "The user finished and handed control back."@ + " Back in headless mode."@,
        window_text(Outcome::Timeout, n, true) == "The user did not click Done within "@ + text::dec(n) + "s; continuing."@
            + " Back in headless mode."@,
        window_closed(Outcome::Closed) && window_closed(Outcome::BrowserGone),
        !window_closed(Outcome::Done) && !window_closed(Outcome::Timeout),
{
}

/// The banner is taken away in every tab, and every script that showed it is taken back.
pub proof fn law_banners_are_taken_away(scripts: Seq<(Text, Text)>, sessions: Seq<Text>, i: int)
    ensures
        removals(scripts).len() == scripts.len() && hidings(sessions).len() == sessions.len(),
        0 <= i < scripts.len() ==> removals(scripts)[i] == cdp::to_session(
            scripts[i].0,
            "Page.removeScriptToEvaluateOnNewDocument"@,
            JsonV::obj().with("identifier"@, JsonV::Str(scripts[i].1)),
        ),
        0 <= i < sessions.len() ==> hidings(sessions)[i] == (sessions[i], "__bmcp.hideHandoff()"@),
{
}

/// Whoever does not know the token is told that there is nothing.
pub proof fn law_nothing_without_the_token()
    ensures
        NOT_FOUND@ == "HTTP/1.1 404 Not Found\r\nContent-Length: 0\r\nConnection: close\r\n\r\n"@,
{
}

/// Some bytes stand in others wherever they stand, and nowhere else.
pub proof fn law_bytes_in_bytes(a: Seq<u8>, p: Seq<u8>, b: Seq<u8>, s: Seq<u8>)
    ensures
        has_bytes(a + p + b, p),
        has_bytes(s, p) ==> exists|x: Seq<u8>, y: Seq<u8>| s == #[trigger] (x + p + y),
{
    let all = a + p + b;
    let i = a.len() as int;
    assert(all.subrange(i, i + p.len()) =~= p);
    if has_bytes(s, p) {
        let i = choose|i: int| 0 <= i && i + p.len() <= s.len() && #[trigger] s.subrange(i, i + p.len()) == p;
        let x = s.take(i);
        let y = s.skip(i + p.len());
        assert(s =~= x + p + y);
    }
}

} // verus!
