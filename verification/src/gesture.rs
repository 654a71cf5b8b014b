//! Actions that take several steps, each after the one before: repeated clicks, drags, and waiting for
//! an element.

use crate::cdp;
use crate::cdp::Command;
use crate::json;
use crate::json::Json;
use crate::json::JsonV;
use crate::text;
use crate::text::Text;
use vstd::prelude::*;

verus! {

// ---------------------------------------------------------------------- clicks

/// One or more clicks: the button goes down and up again for each of them.
pub struct Clicks {
    count: i64,
    sent: u128,
}

/// How many clicks are made: at least one.
pub open spec fn click_count(count: int) -> int {
    if count < 1 {
        1
    } else {
        count
    }
}

impl Clicks {
    /// How many clicks are made in all.
    pub closed spec fn total(&self) -> int {
        self.count as int
    }

    /// How many times the button has gone down or up.
    pub closed spec fn events(&self) -> int {
        self.sent as int
    }

    /// No more has happened than two events for each click.
    pub open spec fn wf(&self) -> bool {
        self.total() >= 1 && self.events() <= 2 * self.total()
    }

    pub fn new(count: i64) -> (r: Clicks)
        ensures
            r.wf(),
            r.total() == click_count(count as int),
            r.events() == 0,
    {
        Clicks { count: if count < 1 { 1 } else { count }, sent: 0 }
    }

    /// Whether the button goes down next, and the number of the click; nothing after the last click.
    pub fn next(&mut self) -> (r: Option<(bool, i64)>)
        requires
            old(self).wf(),
        ensures
            final(self).wf(),
            final(self).total() == old(self).total(),
            match r {
                Some((down, n)) => {
                    &&& old(self).events() < 2 * old(self).total()
                    &&& down == (old(self).events() % 2 == 0)
                    &&& n == old(self).events() / 2 + 1
                    &&& final(self).events() == old(self).events() + 1
                },
                None => old(self).events() == 2 * old(self).total() && final(self).events() == old(self).events(),
            },
    {
        if self.sent >= 2 * self.count as u128 {
            return None;
        }
        let down = self.sent % 2 == 0;
        let n: i64 = (self.sent / 2 + 1) as i64;
        self.sent = self.sent + 1;
        Some((down, n))
    }
}

// ---------------------------------------------------------------------- drags

/// How many moves take the mouse from one element to the other.
pub const DRAG_MOVES: u8 = 5;

/// How long a drag of the page's own is waited for after the last move, in milliseconds.
pub const DRAG_WAIT: u64 = 50;

/// The command that lets drags of the page's own be told instead of started, or no longer.
pub fn intercept_drags(session: &str, on: bool) -> (r: Command)
    ensures
        r@ == cdp::to_session(
            session@,
            "Input.setInterceptDrags"@,
            JsonV::obj().with("enabled"@, JsonV::Bool(on)),
        ),
{
    Command::session(session, "Input.setInterceptDrags", Json::obj().with("enabled", Json::Bool(on)))
}

/// What a drag does next, once the button is down.
pub enum DragStep {
    /// Move the mouse to this many of `DRAG_MOVES` parts of the way.
    Move(u8),
    /// Wait for a drag of the page's own to be told.
    Wait,
    /// Replay a drag of the page's own onto the target: it carries this.
    Replay(Json),
    /// Release the button.
    Release,
}

/// A drag whose button is down.
pub struct Drag {
    pub moves: u8,
    pub waited: bool,
    pub replayed: bool,
    pub data: Option<Json>,
}

/// What a `Drag` holds.
#[verifier::ext_equal]
pub struct DragV {
    pub moves: int,
    pub waited: bool,
    pub replayed: bool,
    pub data: Option<JsonV>,
}

/// What a `DragStep` says.
pub enum DragStepV {
    Move(int),
    Wait,
    Replay(JsonV),
    Release,
}

impl View for DragStep {
    type V = DragStepV;

    open spec fn view(&self) -> DragStepV {
        match self {
            DragStep::Move(n) => DragStepV::Move(*n as int),
            DragStep::Wait => DragStepV::Wait,
            DragStep::Replay(d) => DragStepV::Replay(d@),
            DragStep::Release => DragStepV::Release,
        }
    }
}

impl View for Drag {
    type V = DragV;

    open spec fn view(&self) -> DragV {
        DragV {
            moves: self.moves as int,
            waited: self.waited,
            replayed: self.replayed,
            data: match self.data {
                Some(d) => Some(d@),
                None => None,
            },
        }
    }
}

impl DragV {
    /// A drag whose button has just gone down.
    pub open spec fn fresh() -> DragV {
        DragV { moves: 0, waited: false, replayed: false, data: None }
    }

    /// The next step, and the drag after it.
    pub open spec fn step(self) -> (DragStepV, DragV) {
        if self.moves < DRAG_MOVES {
            (DragStepV::Move(self.moves + 1), DragV { moves: self.moves + 1, ..self })
        } else if self.data is None && !self.waited {
            (DragStepV::Wait, DragV { waited: true, ..self })
        } else if self.data is Some && !self.replayed {
            (DragStepV::Replay(self.data->0), DragV { replayed: true, ..self })
        } else {
            (DragStepV::Release, self)
        }
    }

    /// The drag after a drag of the page's own was told: the first one counts.
    pub open spec fn told(self, params: JsonV) -> DragV {
        if self.data is None {
            DragV { data: Some(params.at("data"@)), ..self }
        } else {
            self
        }
    }
}

impl Drag {
    pub fn new() -> (r: Drag)
        ensures
            r@ == DragV::fresh(),
    {
        Drag { moves: 0, waited: false, replayed: false, data: None }
    }

    /// What to do next.
    pub fn next(&mut self) -> (r: DragStep)
        ensures
            (r@, final(self)@) == old(self)@.step(),
    {
        if self.moves < DRAG_MOVES {
            self.moves = self.moves + 1;
            return DragStep::Move(self.moves);
        }
        match &self.data {
            Some(d) => {
                if !self.replayed {
                    let d = d.clone();
                    self.replayed = true;
                    return DragStep::Replay(d);
                }
            },
            None => {
                if !self.waited {
                    self.waited = true;
                    return DragStep::Wait;
                }
            },
        }
        DragStep::Release
    }

    /// A drag of the page's own was told, with these parameters.
    pub fn intercepted(&mut self, params: &Json)
        ensures
            final(self)@ == old(self)@.told(params@),
    {
        if self.data.is_none() {
            self.data = Some(params.at("data").clone());
        }
    }
}

/// The drag after some steps of which none was told anything.
pub open spec fn after_steps(d: DragV, n: nat) -> DragV
    decreases n,
{
    if n == 0 {
        d
    } else {
        after_steps(d.step().1, (n - 1) as nat)
    }
}

/// A drag that nothing is told of releases the button after its moves and one wait.
pub proof fn law_drag_without_data()
    ensures
        after_steps(DragV::fresh(), (DRAG_MOVES + 1) as nat).step().0 == DragStepV::Release,
{
    reveal_with_fuel(after_steps, 7);
}

/// A drag of the page's own is replayed exactly once, and only behind the last move; then the button
/// is released.
pub proof fn law_drag_replays_once(d: DragV, params: JsonV)
    requires
        d.data is None,
        !d.replayed,
        d.moves == DRAG_MOVES,
    ensures
        d.told(params).step().0 == DragStepV::Replay(params.at("data"@)),
        d.told(params).step().1.step().0 == DragStepV::Release,
        forall|other: JsonV| (#[trigger] d.told(params).told(other)) == d.told(params),
{
}

// ---------------------------------------------------------------------- elements

/// The expression that tells the state of an element: visible, hidden or detached.
pub fn selector_expression(target: &str) -> (r: String)
    ensures
        r@ == "(() => { try { const e = __bmcp.resolve("@ + json::quoted(target@)
            + "); return e.checkVisibility() ? 'visible' : 'hidden'; } catch { return 'detached'; } })()"@,
{
    let mut s = text::concat("(() => { try { const e = __bmcp.resolve(", &json::js(target));
    s.append("); return e.checkVisibility() ? 'visible' : 'hidden'; } catch { return 'detached'; } })()");
    s
}

/// Whether an element that was `seen` in a state is in the state that is waited for: an element that
/// is gone is hidden too. There are no other states to wait for.
pub open spec fn in_state(want: Text, seen: JsonV) -> Option<bool> {
    if want == "visible"@ {
        Some(seen == JsonV::Str("visible"@))
    } else if want == "hidden"@ {
        Some(seen != JsonV::Str("visible"@))
    } else if want == "attached"@ {
        Some(seen != JsonV::Str("detached"@))
    } else if want == "detached"@ {
        Some(seen == JsonV::Str("detached"@))
    } else {
        None
    }
}

/// Whether an element is in the state that is waited for.
pub fn wait_selector(want: &str, seen: &Json) -> (r: Result<bool, String>)
    ensures
        match (in_state(want@, seen@), r) {
            (Some(x), Ok(b)) => b == x,
            (None, Err(e)) => e@ == "unknown state \""@ + want@ + "\"; use visible, hidden, attached or detached"@,
            _ => false,
        },
{
    if text::same(want, "visible") {
        Ok(seen.is_str("visible"))
    } else if text::same(want, "hidden") {
        Ok(!seen.is_str("visible"))
    } else if text::same(want, "attached") {
        Ok(!seen.is_str("detached"))
    } else if text::same(want, "detached") {
        Ok(seen.is_str("detached"))
    } else {
        let mut s = text::concat("unknown state \"", want);
        s.append("\"; use visible, hidden, attached or detached");
        Err(s)
    }
}

// ---------------------------------------------------------------------- waiting

/// Where waiting has come to.
pub enum Waiting {
    Done(String),
    Again,
    Fail(String),
}

/// What is said of an element that is in the state that is waited for, of one that is not, and of one
/// that did not get there in time.
pub fn wait_element(target: &str, want: &str, seen: &Json, late: bool) -> (r: Waiting)
    ensures
        match in_state(want@, seen@) {
            None => r matches Waiting::Fail(e) && e@ == "unknown state \""@ + want@
                + "\"; use visible, hidden, attached or detached"@,
            Some(true) => r matches Waiting::Done(s) && s@ == target@ + " is "@ + want@,
            Some(false) => if late {
                r matches Waiting::Fail(e) && e@ == target@ + " did not become "@ + want@ + " in time"@
            } else {
                r is Again
            },
        },
{
    match wait_selector(want, seen) {
        Err(e) => Waiting::Fail(e),
        Ok(true) => {
            let mut s = text::concat(target, " is ");
            s.append(want);
            Waiting::Done(s)
        },
        Ok(false) => if late {
            let mut s = text::concat(target, " did not become ");
            s.append(want);
            s.append(" in time");
            Waiting::Fail(s)
        } else {
            Waiting::Again
        },
    }
}

/// What is said of a page whose address is the one that is waited for, of one whose is not, and of one
/// that did not get there in time.
pub fn wait_url(glob: &str, url: &str, matched: bool, late: bool) -> (r: Waiting)
    ensures
        if matched {
            r matches Waiting::Done(s) && s@ == "URL is "@ + url@
        } else if late {
            r matches Waiting::Fail(e) && e@ == "the URL is "@ + url@ + ", which does not match "@ + glob@
        } else {
            r is Again
        },
{
    if matched {
        Waiting::Done(text::concat("URL is ", url))
    } else if late {
        let mut s = text::concat("the URL is ", url);
        s.append(", which does not match ");
        s.append(glob);
        Waiting::Fail(s)
    } else {
        Waiting::Again
    }
}

/// A drag moves the mouse in five parts of the way, one after the other, before anything else.
pub proof fn law_drag_moves_in_parts(d: DragV)
    ensures
        0 <= d.moves < 5 ==> d.step().0 == DragStepV::Move(d.moves + 1) && d.step().1 == (DragV {
            moves: d.moves + 1,
            ..d
        }),
        d.moves >= 5 ==> !(d.step().0 is Move),
        DragV::fresh().moves == 0 && DragV::fresh().data is None && !DragV::fresh().waited && !DragV::fresh().replayed,
{
}

/// Behind the last move a drag waits once for one of the page's own, and only where none was told; the
/// button is released once there is nothing to wait for or to replay, and not before.
pub proof fn law_drag_ends_with_release(d: DragV)
    requires
        d.moves >= 5,
    ensures
        d.step().0 is Wait <==> d.data is None && !d.waited,
        d.step().0 is Replay <==> d.data is Some && !d.replayed,
        d.step().0 is Release <==> (d.data is None && d.waited) || (d.data is Some && d.replayed),
        d.step().0 is Wait ==> d.step().1 == (DragV { waited: true, ..d }),
        d.step().0 is Replay ==> d.step().1 == (DragV { replayed: true, ..d }) && d.step().0 == DragStepV::Replay(
            d.data->0,
        ),
        d.step().0 is Release ==> d.step().1 == d,
{
}

/// As many clicks are made as are asked for, and one where none is.
pub proof fn law_clicks_are_made(count: int)
    ensures
        count >= 1 ==> click_count(count) == count,
        count < 1 ==> click_count(count) == 1,
{
}

/// The states that can be waited for: visible, or not visible; in the page, or not in it.
pub proof fn law_states_to_wait_for(want: Text, seen: JsonV)
    ensures
        in_state("visible"@, seen) == Some(seen == JsonV::Str("visible"@)),
        in_state("hidden"@, seen) == Some(seen != JsonV::Str("visible"@)),
        in_state("attached"@, seen) == Some(seen != JsonV::Str("detached"@)),
        in_state("detached"@, seen) == Some(seen == JsonV::Str("detached"@)),
        in_state(want, seen) is None <==> want != "visible"@ && want != "hidden"@ && want != "attached"@ && want
            != "detached"@,
{
    reveal_strlit("visible");
    reveal_strlit("hidden");
    reveal_strlit("attached");
    reveal_strlit("detached");
    assert("hidden"@.len() == 6);
    assert("visible"@.len() == 7);
    assert("attached"@.len() == 8 && "attached"@[0] == 'a');
    assert("detached"@.len() == 8 && "detached"@[0] == 'd');
}

/// A drag of the page's own is waited for 50 milliseconds.
pub proof fn law_drag_waits()
    ensures
        DRAG_WAIT == 50,
        DRAG_MOVES == 5,
{
}

} // verus!
