//! The Chrome DevTools Protocol over a pipe, without the pipe: messages are JSON texts that end in
//! a NUL byte, replies are matched to requests by id, events go to a handler and to those who wait
//! for one of them.

use crate::json::Json;
use crate::json::JsonV;
use crate::positions;
use crate::text;
use crate::text::Text;
use vstd::prelude::*;

verus! {

/// How long a reply is waited for where nothing else is said, in milliseconds.
pub const DEFAULT_TIMEOUT: u64 = 30000;

// ---------------------------------------------------------------------- events and commands

pub struct Event {
    pub method: String,
    pub params: Json,
    pub session_id: Option<String>,
}

/// What an `Event` holds.
#[verifier::ext_equal]
pub struct EventV {
    pub method: Text,
    pub params: JsonV,
    pub session_id: Option<Text>,
}

impl View for Event {
    type V = EventV;

    open spec fn view(&self) -> EventV {
        EventV { method: self.method@, params: self.params@, session_id: text::opt_text(self.session_id) }
    }
}

impl Clone for Event {
    fn clone(&self) -> (r: Event)
        ensures
            r@ == self@,
    {
        Event {
            method: self.method.clone(),
            params: self.params.clone(),
            session_id: text::copy_opt(&self.session_id),
        }
    }
}

/// A command to the browser, or to the tab of a session.
pub struct Command {
    pub session: Option<String>,
    pub method: String,
    pub params: Json,
}

/// What a `Command` holds.
#[verifier::ext_equal]
pub struct CommandV {
    pub session: Option<Text>,
    pub method: Text,
    pub params: JsonV,
}

impl View for Command {
    type V = CommandV;

    open spec fn view(&self) -> CommandV {
        CommandV { session: text::opt_text(self.session), method: self.method@, params: self.params@ }
    }
}

/// A command to the tab of a session.
pub open spec fn to_session(session: Text, method: Text, params: JsonV) -> CommandV {
    CommandV { session: Some(session), method, params }
}

/// A command to the browser.
pub open spec fn to_browser(method: Text, params: JsonV) -> CommandV {
    CommandV { session: None, method, params }
}

impl Command {
    pub fn session(session: &str, method: &str, params: Json) -> (r: Command)
        ensures
            r@ == to_session(session@, method@, params@),
    {
        Command { session: Some(session.to_string()), method: method.to_string(), params }
    }

    pub fn browser(method: &str, params: Json) -> (r: Command)
        ensures
            r@ == to_browser(method@, params@),
    {
        Command { session: None, method: method.to_string(), params }
    }
}

// ---------------------------------------------------------------------- framing

/// A message with the NUL byte that ends it.
pub fn frame(message: Vec<u8>) -> (r: Vec<u8>)
    ensures
        r@ == message@.push(0u8),
{
    let mut m = message;
    m.push(0);
    m
}

/// What was read up to a NUL byte, without that byte.
pub open spec fn unframed(bytes: Seq<u8>) -> Seq<u8> {
    if bytes.len() > 0 && bytes.last() == 0 {
        bytes.drop_last()
    } else {
        bytes
    }
}

pub fn unframe(bytes: Vec<u8>) -> (r: Vec<u8>)
    ensures
        r@ == unframed(bytes@),
{
    let mut b = bytes;
    let n = b.len();
    if n > 0 && b[n - 1] == 0 {
        b.truncate(n - 1);
        proof {
            assert(b@ =~= bytes@.drop_last());
        }
    }
    b
}

/// What was framed is read back.
pub proof fn law_frame_round_trip(message: Seq<u8>)
    ensures
        unframed(message.push(0u8)) == message,
{
    assert(message.push(0u8).drop_last() =~= message);
}

// ---------------------------------------------------------------------- messages

/// A message from the browser.
pub enum MessageV {
    Reply(nat, Result<JsonV, Text>),
    Event(EventV),
}

/// Whether a message is a reply or an event, and what it carries.
pub open spec fn message_of(msg: JsonV) -> MessageV {
    match msg.at("id"@).as_u64() {
        Some(id) => MessageV::Reply(
            id,
            match msg.get("error"@) {
                Some(e) => Err(e.at("message"@).text_or("protocol error"@)),
                None => Ok(msg.at("result"@)),
            },
        ),
        None => MessageV::Event(
            EventV {
                method: msg.at("method"@).text(),
                params: msg.at("params"@),
                session_id: msg.at("sessionId"@).as_text(),
            },
        ),
    }
}

/// A message from the browser.
pub enum Message {
    Reply { id: u64, result: Result<Json, String> },
    Event(Event),
}

/// What a result holds.
pub open spec fn reply_of(r: Result<Json, String>) -> Result<JsonV, Text> {
    match r {
        Ok(j) => Ok(j@),
        Err(e) => Err(e@),
    }
}

impl View for Message {
    type V = MessageV;

    open spec fn view(&self) -> MessageV {
        match self {
            Message::Reply { id, result } => MessageV::Reply(*id as nat, reply_of(*result)),
            Message::Event(e) => MessageV::Event(e@),
        }
    }
}

/// Tells replies and events apart.
pub fn read_message(msg: &Json) -> (r: Message)
    ensures
        r@ == message_of(msg@),
{
    match msg.at("id").as_u64() {
        Some(id) => {
            let result = match msg.get("error") {
                Some(e) => Err(e.at("message").text_or("protocol error")),
                None => Ok(msg.at("result").clone()),
            };
            Message::Reply { id, result }
        },
        None => Message::Event(
            Event {
                method: msg.at("method").text(),
                params: msg.at("params").clone(),
                session_id: msg.at("sessionId").as_text(),
            },
        ),
    }
}

/// The message that a command is sent as.
pub open spec fn request_message(id: nat, c: CommandV) -> JsonV {
    let m = JsonV::obj().with("id"@, JsonV::Int(id as int)).with("method"@, JsonV::Str(c.method)).with(
        "params"@,
        c.params,
    );
    match c.session {
        Some(s) => m.with("sessionId"@, JsonV::Str(s)),
        None => m,
    }
}

// ---------------------------------------------------------------------- waiting

/// What an event must be for someone who waits: its method, the session it comes from, and a
/// parameter's text, where these are given.
pub struct Waiter {
    pub id: u64,
    pub method: String,
    pub session: Option<String>,
    /// The name of a parameter, and its text; `None` for a parameter that is no string.
    pub param: Option<(String, Option<String>)>,
}

/// What a `Waiter` holds.
#[verifier::ext_equal]
pub struct WaiterV {
    pub id: u64,
    pub method: Text,
    pub session: Option<Text>,
    pub param: Option<(Text, Option<Text>)>,
}

/// The view inside an option.
pub open spec fn opt_param(o: Option<(String, Option<String>)>) -> Option<(Text, Option<Text>)> {
    match o {
        Some((k, v)) => Some((k@, text::opt_text(v))),
        None => None,
    }
}

impl View for Waiter {
    type V = WaiterV;

    open spec fn view(&self) -> WaiterV {
        WaiterV {
            id: self.id,
            method: self.method@,
            session: text::opt_text(self.session),
            param: opt_param(self.param),
        }
    }
}

impl WaiterV {
    /// The event is the one waited for.
    pub open spec fn wants(self, ev: EventV) -> bool {
        &&& ev.method == self.method
        &&& self.session is Some ==> ev.session_id == self.session
        &&& self.param is Some ==> ev.params.at((self.param->0).0).as_text() == (self.param->0).1
    }
}

/// Whether two optional strings hold the same.
fn same_opts(a: &Option<String>, b: &Option<String>) -> (r: bool)
    ensures
        r == (text::opt_text(*a) == text::opt_text(*b)),
{
    match (a, b) {
        (Some(x), Some(y)) => text::same(x, y),
        (None, None) => true,
        _ => false,
    }
}

impl Waiter {
    pub fn wants(&self, ev: &Event) -> (r: bool)
        ensures
            r == self@.wants(ev@),
    {
        if !text::same(&ev.method, &self.method) {
            return false;
        }
        if self.session.is_some() && !same_opts(&ev.session_id, &self.session) {
            return false;
        }
        match &self.param {
            Some((k, v)) => same_opts(&ev.params.at(k).as_text(), v),
            None => true,
        }
    }
}

/// The ids of those who wanted the event.
pub open spec fn woken(waiters: Seq<WaiterV>, dead: Seq<u64>, ev: EventV) -> Seq<u64>
    decreases waiters.len(),
{
    if waiters.len() == 0 {
        Seq::empty()
    } else {
        let rest = woken(waiters.drop_last(), dead, ev);
        if waiters.last().wants(ev) && !dead.contains(waiters.last().id) {
            rest.push(waiters.last().id)
        } else {
            rest
        }
    }
}

/// Those who go on waiting after an event: neither gone nor woken by it.
pub open spec fn still_waiting(waiters: Seq<WaiterV>, dead: Seq<u64>, ev: EventV) -> Seq<WaiterV>
    decreases waiters.len(),
{
    if waiters.len() == 0 {
        Seq::empty()
    } else {
        let rest = still_waiting(waiters.drop_last(), dead, ev);
        if waiters.last().wants(ev) || dead.contains(waiters.last().id) {
            rest
        } else {
            rest.push(waiters.last())
        }
    }
}

// ---------------------------------------------------------------------- the client

/// The bookkeeping of a connection: which requests have no reply yet and who waits for events.
pub struct Cdp {
    pub next_id: u64,
    pub pending: Vec<u64>,
    pub waiters: Vec<Waiter>,
    pub closed: bool,
}

/// What a `Cdp` holds.
#[verifier::ext_equal]
pub struct CdpV {
    pub next_id: u64,
    pub pending: Seq<u64>,
    pub waiters: Seq<WaiterV>,
    pub closed: bool,
}

impl View for Cdp {
    type V = CdpV;

    open spec fn view(&self) -> CdpV {
        CdpV {
            next_id: self.next_id,
            pending: self.pending@,
            waiters: text::views(self.waiters@),
            closed: self.closed,
        }
    }
}

impl CdpV {
    /// No request waits twice for its reply.
    pub open spec fn wf(self) -> bool {
        self.pending.no_duplicates()
    }
}

/// The id behind `id`.
pub open spec fn id_after(id: u64) -> u64 {
    if id == u64::MAX {
        0
    } else {
        (id + 1) as u64
    }
}

/// `x` put behind the others where it is not among them.
pub open spec fn once(s: Seq<u64>, x: u64) -> Seq<u64> {
    if s.contains(x) {
        s
    } else {
        s.push(x)
    }
}

/// What a message from the browser sets off.
pub enum Incoming {
    /// The reply to a request that waits for it.
    Reply { id: u64, result: Result<Json, String> },
    /// A reply that nobody waits for.
    Stray,
    /// An event for the handler, and the ids of those who waited for it.
    Event { event: Event, woken: Vec<u64> },
}

fn position(v: &Vec<u64>, x: u64) -> (r: Option<usize>)
    ensures
        match r {
            Some(i) => i < v@.len() && v@[i as int] == x && forall|k: int| 0 <= k < i ==> v@[k] != x,
            None => !v@.contains(x),
        },
{
    let mut i: usize = 0;
    while i < v.len()
        invariant
            i <= v@.len(),
            forall|k: int| 0 <= k < i ==> v@[k] != x,
        decreases v@.len() - i,
    {
        if v[i] == x {
            return Some(i);
        }
        i = i + 1;
    }
    None
}

/// A list of distinct ids without one of them.
pub open spec fn ids_without(s: Seq<u64>, x: u64) -> Seq<u64>
    decreases s.len(),
{
    if s.len() == 0 {
        Seq::empty()
    } else if s.last() == x {
        ids_without(s.drop_last(), x)
    } else {
        ids_without(s.drop_last(), x).push(s.last())
    }
}

proof fn lemma_ids_without(s: Seq<u64>, x: u64)
    ensures
        !ids_without(s, x).contains(x),
        forall|y: u64| #[trigger] ids_without(s, x).contains(y) ==> s.contains(y),
        forall|y: u64| s.contains(y) && y != x ==> #[trigger] ids_without(s, x).contains(y),
        s.no_duplicates() ==> ids_without(s, x).no_duplicates(),
    decreases s.len(),
{
    if s.len() > 0 {
        let d = s.drop_last();
        lemma_ids_without(d, x);
        let w = ids_without(d, x);
        assert forall|y: u64| #[trigger] d.contains(y) implies s.contains(y) by {
            let k = choose|k: int| 0 <= k < d.len() && d[k] == y;
            assert(s[k] == y);
        }
        assert(s.contains(s.last())) by {
            assert(s[s.len() - 1] == s.last());
        }
        assert forall|y: u64| s.contains(y) implies #[trigger] d.contains(y) || y == s.last() by {
            let k = choose|k: int| 0 <= k < s.len() && s[k] == y;
            if k < d.len() {
                assert(d[k] == y);
            }
        }
        if s.last() != x {
            let p = w.push(s.last());
            assert forall|y: u64| #[trigger] p.contains(y) implies w.contains(y) || y == s.last() by {
                let k = choose|k: int| 0 <= k < p.len() && p[k] == y;
                if k < w.len() {
                    assert(w[k] == y);
                }
            }
            assert forall|y: u64| w.contains(y) || y == s.last() implies #[trigger] p.contains(y) by {
                if w.contains(y) {
                    let k = choose|k: int| 0 <= k < w.len() && w[k] == y;
                    assert(p[k] == y);
                } else {
                    assert(p[w.len() as int] == y);
                }
            }
            if s.no_duplicates() {
                assert(d.no_duplicates());
                if w.contains(s.last()) {
                    let k = choose|k: int| 0 <= k < d.len() && d[k] == s.last();
                    assert(s[k] == s[s.len() - 1]);
                }
            }
        }
    }
}

fn without_id(v: &Vec<u64>, x: u64) -> (r: Vec<u64>)
    ensures
        r@ == ids_without(v@, x),
{
    let mut out: Vec<u64> = Vec::new();
    let mut i: usize = 0;
    proof {
        assert(v@.take(0) =~= Seq::<u64>::empty());
    }
    while i < v.len()
        invariant
            i <= v@.len(),
            out@ == ids_without(v@.take(i as int), x),
        decreases v@.len() - i,
    {
        proof {
            assert(v@.take(i + 1).drop_last() =~= v@.take(i as int));
        }
        if v[i] != x {
            out.push(v[i]);
        }
        i = i + 1;
    }
    proof {
        assert(v@.take(v@.len() as int) =~= v@);
    }
    out
}

impl Cdp {
    pub fn new() -> (r: Cdp)
        ensures
            r@ == (CdpV { next_id: 1, pending: Seq::empty(), waiters: Seq::empty(), closed: false }),
            r@.wf(),
    {
        broadcast use text::group_views;
        Cdp { next_id: 1, pending: Vec::new(), waiters: Vec::new(), closed: false }
    }

    pub fn is_closed(&self) -> (r: bool)
        ensures
            r == self@.closed,
    {
        self.closed
    }

    /// Takes a command down as sent: its id and the message to write. Refused once the browser is
    /// gone.
    pub fn send_full(&mut self, command: &Command) -> (r: Result<(u64, Json), String>)
        requires
            old(self)@.wf(),
        ensures
            match r {
                Ok((id, msg)) => {
                    &&& !old(self)@.closed
                    &&& id == old(self)@.next_id
                    &&& msg@ == request_message(id as nat, command@)
                    &&& final(self)@ == (CdpV {
                        next_id: id_after(id),
                        pending: once(old(self)@.pending, id),
                        ..old(self)@
                    })
                },
                Err(e) => old(self)@.closed && e@ == "browser is closed"@ && final(self)@ == old(self)@,
            },
            final(self)@.wf(),
    {
        if self.closed {
            return Err("browser is closed".to_string());
        }
        let id = self.next_id;
        let ghost before = self@.pending;
        match position(&self.pending, id) {
            Some(i) => {
                proof {
                    assert(before[i as int] == id);
                }
            },
            None => {
                self.pending.push(id);
                proof {
                    assert(self@.pending == before.push(id));
                    assert(before.push(id).no_duplicates()) by {
                        assert forall|i: int, j: int|
                            0 <= i < before.len() + 1 && 0 <= j < before.len() + 1 && i != j implies before.push(id)[i]
                            != before.push(id)[j] by {
                            if i < before.len() && j < before.len() {
                                assert(before[i] != before[j]);
                            } else if i < before.len() {
                                assert(before.contains(before[i]));
                            } else {
                                assert(before.contains(before[j]));
                            }
                        }
                    }
                }
            },
        }
        self.next_id = if id == u64::MAX {
            0
        } else {
            id + 1
        };
        let mut msg = Json::obj().with("id", Json::Int(id as i128)).with("method", Json::str(&command.method)).with(
            "params",
            command.params.clone(),
        );
        match &command.session {
            Some(s) => {
                msg = msg.with("sessionId", Json::str(s));
            },
            None => {},
        }
        Ok((id, msg))
    }

    /// Nobody waits for the reply any more.
    pub fn forget(&mut self, id: u64)
        requires
            old(self)@.wf(),
        ensures
            final(self)@ == (CdpV { pending: ids_without(old(self)@.pending, id), ..old(self)@ }),
            final(self)@.wf(),
    {
        proof {
            lemma_ids_without(self.pending@, id);
        }
        self.pending = without_id(&self.pending, id);
    }

    /// Takes down that someone waits for an event.
    pub fn wait_for(&mut self, w: Waiter)
        requires
            old(self)@.wf(),
        ensures
            final(self)@ == (CdpV { waiters: old(self)@.waiters.push(w@), ..old(self)@ }),
            final(self)@.wf(),
    {
        broadcast use text::group_views;
        self.waiters.push(w);
    }

    /// What a message sets off. `dead` are the ids of those who no longer wait for an event.
    pub fn on_message(&mut self, msg: &Json, dead: &Vec<u64>) -> (r: Incoming)
        requires
            old(self)@.wf(),
        ensures
            final(self)@.wf(),
            match message_of(msg@) {
                MessageV::Reply(id, result) => if old(self)@.pending.contains(id as u64) {
                    &&& r matches Incoming::Reply { id: i, result: x } && i == id && reply_of(x) == result
                    &&& final(self)@ == (CdpV { pending: ids_without(old(self)@.pending, id as u64), ..old(self)@ })
                } else {
                    r is Stray && final(self)@ == old(self)@
                },
                MessageV::Event(ev) => {
                    &&& r matches Incoming::Event { event, woken: ids } && event@ == ev && ids@ == woken(
                        old(self)@.waiters,
                        dead@,
                        ev,
                    )
                    &&& final(self)@ == (CdpV {
                        waiters: still_waiting(old(self)@.waiters, dead@, ev),
                        ..old(self)@
                    })
                },
            },
    {
        match read_message(msg) {
            Message::Reply { id, result } => {
                match position(&self.pending, id) {
                    Some(i) => {
                        proof {
                            assert(self.pending@[i as int] == id);
                        }
                        self.forget(id);
                        Incoming::Reply { id, result }
                    },
                    None => Incoming::Stray,
                }
            },
            Message::Event(event) => {
                let ids = self.wake(&event, dead);
                Incoming::Event { event, woken: ids }
            },
        }
    }

    fn wake(&mut self, event: &Event, dead: &Vec<u64>) -> (r: Vec<u64>)
        requires
            old(self)@.wf(),
        ensures
            r@ == woken(old(self)@.waiters, dead@, event@),
            final(self)@ == (CdpV { waiters: still_waiting(old(self)@.waiters, dead@, event@), ..old(self)@ }),
    {
        broadcast use text::group_views;
        let ghost all = text::views(self.waiters@);
        let mut ids: Vec<u64> = Vec::new();
        let mut left: Vec<Waiter> = Vec::new();
        let mut i: usize = 0;
        proof {
            assert(all.take(0) =~= Seq::<WaiterV>::empty());
        }
        while i < self.waiters.len()
            invariant
                i <= self.waiters@.len(),
                *self == *old(self),
                all == text::views(self.waiters@),
                ids@ == woken(all.take(i as int), dead@, event@),
                text::views(left@) == still_waiting(all.take(i as int), dead@, event@),
            decreases self.waiters@.len() - i,
        {
            broadcast use text::group_views;
            proof {
                assert(all.take(i + 1).drop_last() =~= all.take(i as int));
                assert(all.take(i + 1).last() == self.waiters@[i as int]@);
            }
            let w = &self.waiters[i];
            let gone = position(dead, w.id).is_some();
            let wanted = w.wants(event);
            if wanted && !gone {
                ids.push(w.id);
            }
            if !wanted && !gone {
                left.push(
                    Waiter {
                        id: w.id,
                        method: w.method.clone(),
                        session: text::copy_opt(&w.session),
                        param: match &w.param {
                            Some((k, v)) => Some((k.clone(), text::copy_opt(v))),
                            None => None,
                        },
                    },
                );
            }
            i = i + 1;
        }
        proof {
            assert(all.take(all.len() as int) =~= all);
        }
        self.waiters = left;
        ids
    }

    /// The browser is gone: gives the ids of the requests that are now refused with "browser is
    /// closed", and the event that the handler gets.
    pub fn close(&mut self) -> (r: (Vec<u64>, Event))
        ensures
            r.0@ == old(self)@.pending,
            r.1@ == (EventV { method: "__closed"@, params: JsonV::Null, session_id: None }),
            final(self)@ == (CdpV {
                closed: true,
                pending: Seq::empty(),
                waiters: Seq::empty(),
                next_id: old(self)@.next_id,
            }),
            final(self)@.wf(),
    {
        broadcast use text::group_views;
        let mut ids: Vec<u64> = Vec::new();
        let mut i: usize = 0;
        proof {
            assert(self.pending@.take(0) =~= Seq::<u64>::empty());
        }
        while i < self.pending.len()
            invariant
                *self == *old(self),
                i <= self.pending@.len(),
                ids@ == self.pending@.take(i as int),
            decreases self.pending@.len() - i,
        {
            proof {
                assert(self.pending@.take(i + 1) =~= self.pending@.take(i as int).push(self.pending@[i as int]));
            }
            ids.push(self.pending[i]);
            i = i + 1;
        }
        proof {
            assert(self.pending@.take(self.pending@.len() as int) =~= self.pending@);
        }
        self.closed = true;
        self.pending = Vec::new();
        self.waiters = Vec::new();
        (ids, Event { method: "__closed".to_string(), params: Json::Null, session_id: None })
    }
}

/// The refusal of a command whose reply did not come in time.
pub fn timeout_error(method: &str, ms: u64) -> (r: String)
    ensures
        r@ == method@ + " timed out after "@ + text::dec(ms as nat) + "ms"@,
{
    let mut s = method.to_string();
    s.append(" timed out after ");
    s.append(&text::decimal(ms as u128));
    s.append("ms");
    s
}

/// A request gets its reply once: when the reply has been handed over, the request no longer waits,
/// and every other request waits as before.
pub proof fn law_reply_once(pending: Seq<u64>, id: u64)
    requires
        pending.no_duplicates(),
    ensures
        !ids_without(pending, id).contains(id),
        forall|y: u64| y != id ==> #[trigger] ids_without(pending, id).contains(y) == pending.contains(y),
{
    lemma_ids_without(pending, id);
}

/// A request that was sent waits for its reply, whatever other replies come first.
pub proof fn law_request_waits_for_its_reply(pending: Seq<u64>, id: u64, other: u64)
    requires
        pending.no_duplicates(),
        other != id,
    ensures
        once(pending, id).contains(id),
        ids_without(once(pending, id), other).contains(id),
{
    let sent = once(pending, id);
    if !pending.contains(id) {
        assert(sent[pending.len() as int] == id);
    }
    lemma_ids_without(sent, other);
}

/// Nobody who was woken by an event goes on waiting for it.
pub proof fn law_woken_no_longer_wait(waiters: Seq<WaiterV>, dead: Seq<u64>, ev: EventV, i: int)
    requires
        0 <= i < still_waiting(waiters, dead, ev).len(),
    ensures
        !still_waiting(waiters, dead, ev)[i].wants(ev),
    decreases waiters.len(),
{
    let rest = still_waiting(waiters.drop_last(), dead, ev);
    if i < rest.len() {
        law_woken_no_longer_wait(waiters.drop_last(), dead, ev, i);
    }
}

/// What was read up to a NUL byte is the message without it; what ends otherwise is the message.
pub proof fn law_frames_end_with_nul(bytes: Seq<u8>)
    ensures
        bytes.len() > 0 && bytes.last() != 0 ==> unframed(bytes) == bytes,
        unframed(bytes.push(0)) == bytes,
        unframed(Seq::empty()) == Seq::<u8>::empty(),
{
    law_frame_round_trip(bytes);
}

/// A message with an id is the reply to the request of that id: its result, or what went wrong. Any other is
/// an event.
pub proof fn law_messages_are_replies_or_events(msg: JsonV)
    ensures
        msg.at("id"@).as_u64() is Some && msg.get("error"@) is None ==> message_of(msg) == MessageV::Reply(
            msg.at("id"@).as_u64()->0,
            Ok(msg.at("result"@)),
        ),
        msg.at("id"@).as_u64() is Some && msg.get("error"@) is Some ==> message_of(msg) == MessageV::Reply(
            msg.at("id"@).as_u64()->0,
            Err(msg.at("error"@).at("message"@).text_or("protocol error"@)),
        ),
        msg.at("id"@).as_u64() is None ==> message_of(msg) == MessageV::Event(
            EventV {
                method: msg.at("method"@).text(),
                params: msg.at("params"@),
                session_id: if msg.at("sessionId"@) is Str {
                    Some(msg.at("sessionId"@).text())
                } else {
                    None
                },
            },
        ),
{
}

/// A command is sent under its id, with its method and parameters, and to its session where it has one.
pub proof fn law_commands_are_sent(id: nat, c: CommandV)
    ensures
        c.session is None ==> request_message(id, c) == JsonV::Obj(
            seq![("id"@, JsonV::Int(id as int)), ("method"@, JsonV::Str(c.method)), ("params"@, c.params)],
        ),
        c.session is Some ==> request_message(id, c) == JsonV::Obj(
            seq![
                ("id"@, JsonV::Int(id as int)),
                ("method"@, JsonV::Str(c.method)),
                ("params"@, c.params),
                ("sessionId"@, JsonV::Str(c.session->0)),
            ],
        ),
        to_session(c.method, c.method, c.params).session == Some(c.method),
        to_browser(c.method, c.params) == (CommandV { session: None, ..c }),
{
    let m = request_message(id, c)->Obj_0;
    if c.session is None {
        assert(m =~= seq![("id"@, JsonV::Int(id as int)), ("method"@, JsonV::Str(c.method)), ("params"@, c.params)]);
    } else {
        assert(m =~= seq![
            ("id"@, JsonV::Int(id as int)),
            ("method"@, JsonV::Str(c.method)),
            ("params"@, c.params),
            ("sessionId"@, JsonV::Str(c.session->0)),
        ]);
    }
}

/// An event is waited for by its method, by its session where one is given, and by the text of one of its
/// parameters where one is given.
pub proof fn law_waits_for_events(w: WaiterV, ev: EventV)
    ensures
        ev.method != w.method ==> !w.wants(ev),
        w.session is Some && ev.session_id != w.session ==> !w.wants(ev),
        w.param is Some && ev.params.at((w.param->0).0).as_text() != (w.param->0).1 ==> !w.wants(ev),
        ev.method == w.method && (w.session is None || ev.session_id == w.session) && (w.param is None || ev.params.at(
            (w.param->0).0,
        ).as_text() == (w.param->0).1) ==> w.wants(ev),
{
}

/// Everyone who wants an event and is still there is woken by it, in order, and nobody else; and everyone who
/// does not want it and is still there goes on waiting.
pub proof fn law_events_wake_their_waiters(waiters: Seq<WaiterV>, dead: Seq<u64>, ev: EventV)
    ensures
        positions::shows(
            woken(waiters, dead, ev),
            waiters.len() as int,
            |j: int| waiters[j].wants(ev) && !dead.contains(waiters[j].id),
            |j: int| waiters[j].id,
        ),
        positions::shows(
            still_waiting(waiters, dead, ev),
            waiters.len() as int,
            |j: int| !waiters[j].wants(ev) && !dead.contains(waiters[j].id),
            |j: int| waiters[j],
        ),
{
    lemma_woken(
        waiters,
        dead,
        ev,
        waiters.len() as int,
        |j: int| waiters[j].wants(ev) && !dead.contains(waiters[j].id),
        |j: int| waiters[j].id,
        |j: int| !waiters[j].wants(ev) && !dead.contains(waiters[j].id),
        |j: int| waiters[j],
    );
    assert(waiters.take(waiters.len() as int) =~= waiters);
}

proof fn lemma_woken(
    waiters: Seq<WaiterV>,
    dead: Seq<u64>,
    ev: EventV,
    n: int,
    woke: spec_fn(int) -> bool,
    id: spec_fn(int) -> u64,
    waits: spec_fn(int) -> bool,
    waiter: spec_fn(int) -> WaiterV,
)
    requires
        0 <= n <= waiters.len(),
        forall|j: int|
            0 <= j < waiters.len() ==> #[trigger] woke(j) == (waiters[j].wants(ev) && !dead.contains(waiters[j].id)),
        forall|j: int|
            0 <= j < waiters.len() ==> #[trigger] waits(j) == (!waiters[j].wants(ev) && !dead.contains(waiters[j].id)),
        forall|j: int| 0 <= j < waiters.len() ==> #[trigger] id(j) == waiters[j].id,
        forall|j: int| 0 <= j < waiters.len() ==> #[trigger] waiter(j) == waiters[j],
    ensures
        positions::shows(woken(waiters.take(n), dead, ev), n, woke, id),
        positions::shows(still_waiting(waiters.take(n), dead, ev), n, waits, waiter),
    decreases n,
{
    let a = woken(waiters.take(n), dead, ev);
    let b = still_waiting(waiters.take(n), dead, ev);
    if n == 0 {
        positions::lemma_shows_none(a, woke, id);
        positions::lemma_shows_none(b, waits, waiter);
    } else {
        lemma_woken(waiters, dead, ev, n - 1, woke, id, waits, waiter);
        assert(waiters.take(n).drop_last() =~= waiters.take(n - 1));
        assert(waiters.take(n).last() == waiters[n - 1]);
        assert(woke(n - 1) == (waiters[n - 1].wants(ev) && !dead.contains(waiters[n - 1].id)));
        assert(waits(n - 1) == (!waiters[n - 1].wants(ev) && !dead.contains(waiters[n - 1].id)));
        assert(id(n - 1) == waiters[n - 1].id);
        assert(waiter(n - 1) == waiters[n - 1]);
        positions::lemma_shows_next(woken(waiters.take(n - 1), dead, ev), a, n - 1, woke, id);
        positions::lemma_shows_next(still_waiting(waiters.take(n - 1), dead, ev), b, n - 1, waits, waiter);
    }
}

/// Ids count up, so that the next request has another id.
pub proof fn law_ids_count_up(id: u64)
    ensures
        id < u64::MAX ==> id_after(id) == id + 1,
        id_after(id) != id,
{
}

/// A command is waited for half a minute where nothing else is said.
pub proof fn law_commands_have_half_a_minute()
    ensures
        DEFAULT_TIMEOUT == 30000,
{
}

} // verus!
