//! The console and network logs of a tab as text.

use crate::cdp;
use crate::cdp::Command;
use crate::encoding;
use crate::json;
use crate::json::Json;
use crate::json::JsonV;
use crate::pattern;
use crate::pattern::Pattern;
use crate::positions;
use crate::state;
use crate::state::ConsoleMsg;
use crate::state::ConsoleMsgV;
use crate::state::Request;
use crate::state::RequestV;
use crate::state::Tab;
use crate::state::TabV;
use crate::text;
use crate::text::Text;
use vstd::prelude::*;

verus! {

// ---------------------------------------------------------------------- console

/// How severe a level is: the lower the more.
pub open spec fn rank_of(level: Text) -> int {
    if level == "error"@ {
        0
    } else if level == "warning"@ {
        1
    } else if level == "info"@ {
        2
    } else {
        3
    }
}

fn rank(level: &str) -> (r: u8)
    ensures
        r == rank_of(level@),
{
    if text::same(level, "error") {
        0
    } else if text::same(level, "warning") {
        1
    } else if text::same(level, "info") {
        2
    } else {
        3
    }
}

/// A console message as a line.
pub open spec fn message_line(m: ConsoleMsgV) -> Text {
    let head = "["@ + text::uppered(m.level) + "] "@ + m.text;
    if m.location.len() == 0 {
        head
    } else {
        head + " @ "@ + m.location
    }
}

/// The lines of the messages that are at least as severe as a level.
pub open spec fn message_lines(console: Seq<ConsoleMsgV>, level: Text) -> Seq<Text>
    decreases console.len(),
{
    if console.len() == 0 {
        Seq::empty()
    } else {
        let rest = message_lines(console.drop_last(), level);
        if rank_of(console.last().level) <= rank_of(level) {
            rest.push(message_line(console.last()))
        } else {
            rest
        }
    }
}

/// The lines, or what is said where there are none.
pub open spec fn lines_or(lines: Seq<Text>, none: Text) -> Text {
    if lines.len() == 0 {
        none
    } else {
        text::joined(lines, "\n"@)
    }
}

/// The messages of a tab that are at least as severe as a level: all, or those since the last
/// navigation.
pub open spec fn console_report(t: TabV, level: Text, all: bool) -> Text {
    let from = if all {
        0
    } else {
        t.console_nav_start as int
    };
    lines_or(message_lines(t.console.skip(from), level), "No console messages"@)
}

fn join_or(lines: &Vec<String>, none: &str) -> (r: String)
    ensures
        r@ == lines_or(text::views(lines@), none@),
{
    if lines.len() == 0 {
        none.to_string()
    } else {
        text::join(lines, "\n")
    }
}

fn format_message(m: &ConsoleMsg) -> (r: String)
    ensures
        r@ == message_line(m@),
{
    let mut s = "[".to_string();
    s.append(&text::uppercase(m.level));
    s.append("] ");
    s.append(&m.text);
    if !m.location.as_str().is_empty() {
        s.append(" @ ");
        s.append(&m.location);
    }
    s
}

impl Tab {
    /// The console messages that are at least as severe as `level`.
    pub fn console_text(&self, level: &str, all: bool) -> (r: String)
        requires
            self@.wf(),
        ensures
            r@ == console_report(self@, level@, all),
    {
        broadcast use text::group_views;
        let from: usize = if all {
            0
        } else {
            self.console_nav_start
        };
        let max = rank(level);
        let ghost list = self@.console;
        let ghost f = from as int;
        let mut out: Vec<String> = Vec::new();
        let mut i: usize = from;
        proof {
            assert(list.subrange(f, f) =~= Seq::<ConsoleMsgV>::empty());
        }
        while i < self.console.len()
            invariant
                f == from,
                from <= i <= self.console@.len(),
                list == text::views(self.console@),
                max == rank_of(level@),
                text::views(out@) == message_lines(list.subrange(f, i as int), level@),
            decreases self.console@.len() - i,
        {
            broadcast use text::group_views;
            proof {
                assert(list.subrange(f, i + 1).drop_last() =~= list.subrange(f, i as int));
                assert(list.subrange(f, i + 1).last() == self.console@[i as int]@);
            }
            if rank(self.console[i].level) <= max {
                out.push(format_message(&self.console[i]));
            }
            i = i + 1;
        }
        proof {
            assert(list.subrange(f, list.len() as int) =~= list.skip(f));
        }
        join_or(&out, "No console messages")
    }
}

proof fn lemma_pushed<T>(s: Seq<T>, x: T, y: T)
    ensures
        s.push(x).contains(x),
        s.contains(y) ==> s.push(x).contains(y),
        s.push(x).contains(y) ==> y == x || s.contains(y),
{
    let p = s.push(x);
    assert(p[s.len() as int] == x);
    if s.contains(y) {
        let k = choose|k: int| 0 <= k < s.len() && s[k] == y;
        assert(p[k] == y);
    }
    if p.contains(y) && y != x {
        let k = choose|k: int| 0 <= k < p.len() && p[k] == y;
        assert(s[k] == y);
    }
}

/// Each level includes the more severe ones: what is shown of a level is shown of every wider one.
pub proof fn law_levels_nest(console: Seq<ConsoleMsgV>, level: Text, wider: Text, line: Text)
    requires
        rank_of(level) <= rank_of(wider),
        message_lines(console, level).contains(line),
    ensures
        message_lines(console, wider).contains(line),
    decreases console.len(),
{
    if console.len() > 0 {
        let rest = console.drop_last();
        let x = message_line(console.last());
        lemma_pushed(message_lines(rest, level), x, line);
        lemma_pushed(message_lines(rest, wider), x, line);
        if message_lines(rest, level).contains(line) {
            law_levels_nest(rest, level, wider, line);
        }
    }
}

proof fn lemma_request_line(requests: Seq<RequestV>, f: Filter, matched: Seq<bool>, k: int)
    requires
        0 <= k < requests.len(),
        listed(requests[k], f, matched[k]),
    ensures
        request_lines(requests, f, matched).contains(request_line(k + 1, requests[k])),
    decreases requests.len(),
{
    let rest = requests.drop_last();
    let line = request_line(k + 1, requests[k]);
    let last = request_line(requests.len() as int, requests.last());
    lemma_pushed(request_lines(rest, f, matched), last, line);
    if k < rest.len() {
        assert(rest[k] == requests[k]);
        lemma_request_line(rest, f, matched, k);
    }
}

/// The number that a request is listed under is the number by which it is found: the list counts all
/// requests since the last navigation, whatever it leaves out.
pub proof fn law_listed_numbers_find_requests(t: TabV, f: Filter, matched: Seq<bool>, k: int)
    requires
        t.wf(),
        0 <= k < recent(t).len(),
        listed(recent(t)[k], f, matched[k]),
    ensures
        request_lines(recent(t), f, matched).contains(request_line(k + 1, recent(t)[k])),
        numbered(t, (k + 1) as nat) == Some(recent(t)[k]),
{
    lemma_request_line(recent(t), f, matched, k);
}

// ---------------------------------------------------------------------- network

/// The request was answered without an error.
pub open spec fn is_ok(r: RequestV) -> bool {
    r.status is Some && r.status->0 < 400 && r.failure is None
}

/// The request was for a resource that pages load along with themselves.
pub open spec fn is_static(r: RequestV) -> bool {
    r.resource_type == "Image"@ || r.resource_type == "Font"@ || r.resource_type == "Stylesheet"@ || r.resource_type
        == "Script"@ || r.resource_type == "Media"@ || r.resource_type == "Manifest"@
}

/// The request failed: an HTTP status of 400 or more, or no answer for a network error.
pub open spec fn is_failed(r: RequestV) -> bool {
    r.failure is Some || (r.status is Some && r.status->0 >= 400)
}

/// How a request ended so far.
pub open spec fn outcome_text(r: RequestV) -> Text {
    match (r.failure, r.status) {
        (Some(f), _) => "[FAILED] "@ + f,
        (None, Some(s)) => "["@ + text::dec_int(s) + "] "@ + r.status_text,
        (None, None) => "[pending]"@,
    }
}

/// Request number `n` as a line.
pub open spec fn request_line(n: int, r: RequestV) -> Text {
    text::dec_int(n) + ". ["@ + r.method + "] "@ + r.url + " => "@ + outcome_text(r) + (if r.from_route {
        " (mocked)"@
    } else {
        Seq::empty()
    })
}

/// Which requests a list shows.
pub struct Filter {
    /// Successful static resources too.
    pub include_static: bool,
    /// Only failed requests, static resources too.
    pub failed: bool,
}

/// The request is listed; `matched` tells whether its URL is one that is asked for.
pub open spec fn listed(r: RequestV, f: Filter, matched: bool) -> bool {
    &&& matched
    &&& if f.failed {
        is_failed(r)
    } else {
        f.include_static || !is_static(r) || !is_ok(r)
    }
}

/// The lines of the listed requests; numbers count all requests from the first on.
pub open spec fn request_lines(requests: Seq<RequestV>, f: Filter, matched: Seq<bool>) -> Seq<Text>
    decreases requests.len(),
{
    if requests.len() == 0 {
        Seq::empty()
    } else {
        let rest = request_lines(requests.drop_last(), f, matched);
        if listed(requests.last(), f, matched[requests.len() - 1]) {
            rest.push(request_line(requests.len() as int, requests.last()))
        } else {
            rest
        }
    }
}

/// The requests since the last navigation.
pub open spec fn recent(t: TabV) -> Seq<RequestV> {
    t.requests.skip(t.requests_nav_start as int)
}

/// Which of the requests since the last navigation have a URL that an expression matches; all of
/// them have where none is given.
pub open spec fn url_matches(t: TabV, source: Option<Text>) -> Seq<bool> {
    recent(t).map_values(|r: RequestV| source is Some ==> pattern::regex_finds(source->0, false, r.url))
}

/// The requests since the last navigation, as a list.
pub open spec fn network_report(t: TabV, f: Filter, matched: Seq<bool>) -> Text {
    lines_or(request_lines(recent(t), f, matched), "No network requests"@)
}

fn statically(r: &Request) -> (b: bool)
    ensures
        b == is_static(r@),
{
    let t = r.resource_type.as_str();
    text::same(t, "Image") || text::same(t, "Font") || text::same(t, "Stylesheet") || text::same(t, "Script")
        || text::same(t, "Media") || text::same(t, "Manifest")
}

fn format_request(n: usize, r: &Request) -> (s: String)
    ensures
        s@ == request_line(n as int, r@),
{
    let mut s = text::decimal_int(n as i128);
    s.append(". [");
    s.append(&r.method);
    s.append("] ");
    s.append(&r.url);
    s.append(" => ");
    let outcome = match (&r.failure, r.status) {
        (Some(f), _) => text::concat("[FAILED] ", f),
        (None, Some(c)) => {
            let mut o = "[".to_string();
            o.append(&text::decimal_int(c as i128));
            o.append("] ");
            o.append(&r.status_text);
            o
        },
        (None, None) => "[pending]".to_string(),
    };
    s.append(&outcome);
    if r.from_route {
        s.append(" (mocked)");
    } else {
        proof {
            assert(s@ + Seq::<char>::empty() =~= s@);
        }
    }
    s
}

fn is_listed(r: &Request, f: &Filter, matched: bool) -> (b: bool)
    ensures
        b == listed(r@, *f, matched),
{
    let ok = match r.status {
        Some(s) => s < 400 && r.failure.is_none(),
        None => false,
    };
    let bad = r.failure.is_some() || match r.status {
        Some(s) => s >= 400,
        None => false,
    };
    matched && if f.failed {
        bad
    } else {
        f.include_static || !statically(r) || !ok
    }
}

impl Tab {
    /// The listed requests since the last navigation; `matched` tells of each whether its URL is one
    /// that is asked for.
    pub fn network_list(&self, f: &Filter, matched: &Vec<bool>) -> (r: String)
        requires
            self@.wf(),
            matched@.len() == recent(self@).len(),
        ensures
            r@ == network_report(self@, *f, matched@),
    {
        broadcast use text::group_views;
        let from = self.requests_nav_start;
        let ghost list = self@.requests;
        let ghost start = from as int;
        let mut out: Vec<String> = Vec::new();
        let mut i: usize = from;
        proof {
            assert(list.subrange(start, start) =~= Seq::<RequestV>::empty());
        }
        while i < self.requests.len()
            invariant
                start == from,
                from <= i <= self.requests@.len(),
                matched@.len() == self.requests@.len() - from,
                list == text::views(self.requests@),
                text::views(out@) == request_lines(list.subrange(start, i as int), *f, matched@),
            decreases self.requests@.len() - i,
        {
            broadcast use text::group_views;
            proof {
                assert(list.subrange(start, i + 1).drop_last() =~= list.subrange(start, i as int));
                assert(list.subrange(start, i + 1).last() == self.requests@[i as int]@);
            }
            if is_listed(&self.requests[i], f, matched[i - from]) {
                out.push(format_request(i - from + 1, &self.requests[i]));
            }
            i = i + 1;
        }
        proof {
            assert(list.subrange(start, list.len() as int) =~= list.skip(start));
        }
        join_or(&out, "No network requests")
    }

    fn match_urls(&self, re: &Option<Pattern>) -> (r: Vec<bool>)
        requires
            self@.wf(),
            re is Some ==> !(re->0).fold(),
        ensures
            r@ == url_matches(
                self@,
                match re {
                    Some(p) => Some(p.source()),
                    None => None,
                },
            ),
    {
        let from = self.requests_nav_start;
        let ghost source = match re {
            Some(p) => Some(p.source()),
            None => None,
        };
        let mut out: Vec<bool> = Vec::new();
        let mut i: usize = from;
        while i < self.requests.len()
            invariant
                from == self.requests_nav_start,
                from <= i <= self.requests@.len(),
                re is Some ==> !(re->0).fold(),
                source == match re {
                    Some(p) => Some(p.source()),
                    None => None,
                },
                out@.len() == i - from,
                forall|k: int|
                    0 <= k < i - from ==> #[trigger] out@[k] == (source is Some ==> pattern::regex_finds(
                        source->0,
                        false,
                        self.requests@[from + k].url@,
                    )),
            decreases self.requests@.len() - i,
        {
            let m = match re {
                Some(p) => p.is_match(&self.requests[i].url),
                None => true,
            };
            out.push(m);
            i = i + 1;
        }
        proof {
            assert(out@ =~= url_matches(self@, source));
        }
        out
    }

    /// The listed requests since the last navigation whose URL matches an expression. The error is
    /// that the expression is refused.
    pub fn network_text(&self, f: &Filter, filter: &Option<String>) -> (r: Result<String, String>)
        requires
            self@.wf(),
        ensures
            match (text::opt_text(*filter), r) {
                (None, Ok(s)) => s@ == network_report(self@, *f, url_matches(self@, None)),
                (Some(x), Ok(s)) => pattern::refusal(x, false) is None && s@ == network_report(
                    self@,
                    *f,
                    url_matches(self@, Some(x)),
                ),
                (Some(x), Err(e)) => pattern::refusal(x, false) is Some && e@ == "invalid filter regex: "@
                    + pattern::refusal(x, false)->0,
                (None, Err(_)) => false,
            },
    {
        match filter {
            None => Ok(self.network_list(f, &self.match_urls(&None))),
            Some(x) => match Pattern::new(x) {
                Ok(p) => Ok(self.network_list(f, &self.match_urls(&Some(p)))),
                Err(e) => Err(text::concat("invalid filter regex: ", &e)),
            },
        }
    }

    /// Request number `index` since the last navigation, counted from 1 (0 is the first too).
    pub fn request_at(&self, index: usize) -> (r: Option<Request>)
        requires
            self@.wf(),
        ensures
            match r {
                Some(x) => numbered(self@, index as nat) == Some(x@),
                None => numbered(self@, index as nat) is None,
            },
    {
        let back: usize = if index > 0 {
            index - 1
        } else {
            0
        };
        let from = self.requests_nav_start;
        if back < self.requests.len() - from {
            proof {
                assert(self@.requests[from + back] == self.requests@[from + back]@);
            }
            Some(self.requests[from + back].clone())
        } else {
            None
        }
    }
}

/// The status that the document of the last navigation came with: redirects share the id of the
/// request, and the newest one counts.
pub open spec fn document_status_of(t: TabV) -> Option<int> {
    match numbered(t, 1) {
        Some(first) if first.resource_type == "Document"@ => match state::request_index(t.requests, first.id) {
            Some(i) => t.requests[i].status,
            None => None,
        },
        _ => None,
    }
}

impl Tab {
    /// The status that the document of the last navigation came with, where it came at all.
    pub fn document_status(&self) -> (r: Option<i64>)
        requires
            self@.wf(),
        ensures
            state::opt_int(r) == document_status_of(self@),
    {
        let from = self.requests_nav_start;
        if from >= self.requests.len() {
            return None;
        }
        proof {
            assert(self@.requests[from as int] == self.requests@[from as int]@);
        }
        if !text::same(&self.requests[from].resource_type, "Document") {
            return None;
        }
        match state::index_of(&self.requests, &self.requests[from].id) {
            Some(i) => {
                proof {
                    assert(self@.requests[i as int] == self.requests@[i as int]@);
                }
                self.requests[i].status
            },
            None => None,
        }
    }
}

/// Request number `n` since the last navigation, counted from 1 (0 is the first too).
pub open spec fn numbered(t: TabV, n: nat) -> Option<RequestV> {
    let i = t.requests_nav_start + (if n > 0 {
        n - 1
    } else {
        0
    });
    if i < t.requests.len() {
        Some(t.requests[i])
    } else {
        None
    }
}

// ---------------------------------------------------------------------- one request

/// Headers as lines.
pub open spec fn headers_text(h: JsonV) -> Text {
    text::joined(h.fields().map_values(|m: (Text, JsonV)| m.0 + ": "@ + m.1.text()), "\n"@)
}

fn format_headers(h: &Json) -> (r: String)
    ensures
        r@ == headers_text(h@),
{
    let mut out: Vec<String> = Vec::new();
    let ghost g = |m: (Text, JsonV)| m.0 + ": "@ + m.1.text();
    match h {
        Json::Obj(v) => {
            proof {
                json::lemma_obj(*v);
            }
            let mut i: usize = 0;
            while i < v.len()
                invariant
                    i <= v@.len(),
                    out@.len() == i,
                    forall|k: int| 0 <= k < i ==> (#[trigger] out@[k])@ == v@[k].0@ + ": "@ + v@[k].1@.text(),
                decreases v@.len() - i,
            {
                let mut s = v[i].0.clone();
                s.append(": ");
                s.append(&v[i].1.text());
                out.push(s);
                i = i + 1;
            }
            proof {
                assert(h@.fields() == json::members(v@));
            }
        },
        _ => {},
    }
    proof {
        assert(text::views(out@) =~= h@.fields().map_values(g));
    }
    text::join(&out, "\n")
}

/// The body that a response has, as text: binary ones by their size and kind.
pub open spec fn body_text(reply: Result<JsonV, Text>, mime: Text) -> Text {
    match reply {
        Ok(v) => if v.at("base64Encoded"@) == JsonV::Bool(true) {
            "<binary, "@ + text::dec(
                match encoding::base64_bytes(v.at("body"@).text()) {
                    Some(b) => b.len(),
                    None => 0,
                },
            ) + " bytes, "@ + mime + ">"@
        } else {
            v.at("body"@).text()
        },
        Err(e) => "<unavailable: "@ + e + ">"@,
    }
}

/// The body of a response, given the reply to `Network.getResponseBody`.
pub fn response_body(reply: &Result<Json, String>, mime: &str) -> (r: String)
    ensures
        r@ == body_text(crate::cdp::reply_of(*reply), mime@),
{
    match reply {
        Ok(v) => {
            let binary = match v.at("base64Encoded").as_bool() {
                Some(b) => b,
                None => false,
            };
            if binary {
                let n: usize = match encoding::decode(&v.at("body").text()) {
                    Some(b) => b.len(),
                    None => 0,
                };
                let mut s = "<binary, ".to_string();
                s.append(&text::decimal(n as u128));
                s.append(" bytes, ");
                s.append(mime);
                s.append(">");
                s
            } else {
                v.at("body").text()
            }
        },
        Err(e) => {
            let mut s = "<unavailable: ".to_string();
            s.append(e);
            s.append(">");
            s
        },
    }
}

/// Whether the body of the request must be asked for.
pub fn wants_request_body(req: &Request) -> (r: bool)
    ensures
        r == (req@.post_data is None && req@.method != "GET"@),
{
    req.post_data.is_none() && !text::same(&req.method, "GET")
}

/// Whether the body of the response must be asked for.
pub fn wants_response_body(req: &Request, part: &Option<String>) -> (r: bool)
    ensures
        r == (req@.finished && (text::opt_text(*part) is None || text::opt_text(*part) == Some("response-body"@))),
{
    req.finished && (part.is_none() || text::same_opt(part, "response-body"))
}

/// One part of what is told of a request.
pub open spec fn part_text(name: Text, body: Text) -> Text {
    "#### "@ + name + "\n"@ + body
}

/// The parts of what is told of a request, each with its name.
pub open spec fn request_parts(r: RequestV, request_body: Text, response_body: Text) -> Seq<(Text, Text)> {
    seq![
        ("request-headers"@, r.method + " "@ + r.url + "\n"@ + headers_text(r.request_headers)),
        ("request-body"@, request_body),
        (
            "response-headers"@,
            (match r.status {
                Some(s) => text::dec_int(s),
                None => "pending"@,
            }) + " "@ + r.status_text + "\n"@ + headers_text(r.response_headers),
        ),
        ("response-body"@, response_body),
    ]
}

/// The parts that are asked for: all, or the one of a name.
pub open spec fn chosen_parts(parts: Seq<(Text, Text)>, part: Option<Text>) -> Seq<Text>
    decreases parts.len(),
{
    if parts.len() == 0 {
        Seq::empty()
    } else {
        let rest = chosen_parts(parts.drop_last(), part);
        if part is None || part == Some(parts.last().0) {
            rest.push(part_text(parts.last().0, parts.last().1))
        } else {
            rest
        }
    }
}

/// What is told of a request.
pub open spec fn request_report(r: RequestV, request_body: Text, response_body: Text, part: Option<Text>) -> Text {
    text::joined(chosen_parts(request_parts(r, request_body, response_body), part), "\n\n"@)
}

/// What is told of a request, or one part of it.
pub fn network_request(req: &Request, request_body: String, response_body: String, part: &Option<String>) -> (r: String)
    ensures
        r@ == request_report(req@, request_body@, response_body@, text::opt_text(*part)),
{
    broadcast use text::group_views;
    let mut first = req.method.clone();
    first.append(" ");
    first.append(&req.url);
    first.append("\n");
    first.append(&format_headers(&req.request_headers));
    let mut third = match req.status {
        Some(s) => text::decimal_int(s as i128),
        None => "pending".to_string(),
    };
    third.append(" ");
    third.append(&req.status_text);
    third.append("\n");
    third.append(&format_headers(&req.response_headers));
    let mut names: Vec<&str> = Vec::new();
    names.push("request-headers");
    names.push("request-body");
    names.push("response-headers");
    names.push("response-body");
    let mut bodies: Vec<String> = Vec::new();
    bodies.push(first);
    bodies.push(request_body);
    bodies.push(third);
    bodies.push(response_body);
    let ghost parts = request_parts(req@, request_body@, response_body@);
    let ghost want = text::opt_text(*part);
    let mut out: Vec<String> = Vec::new();
    let mut i: usize = 0;
    proof {
        assert(parts.take(0) =~= Seq::<(Text, Text)>::empty());
    }
    while i < 4
        invariant
            i <= 4,
            names@.len() == 4,
            bodies@.len() == 4,
            parts.len() == 4,
            want == text::opt_text(*part),
            forall|k: int| 0 <= k < 4 ==> #[trigger] parts[k] == (names@[k]@, bodies@[k]@),
            text::views(out@) == chosen_parts(parts.take(i as int), want),
        decreases 4 - i,
    {
        broadcast use text::group_views;
        proof {
            assert(parts.take(i + 1).drop_last() =~= parts.take(i as int));
            assert(parts.take(i + 1).last() == parts[i as int]);
        }
        if part.is_none() || text::same_opt(part, names[i]) {
            let mut s = "#### ".to_string();
            s.append(names[i]);
            s.append("\n");
            s.append(&bodies[i]);
            out.push(s);
        }
        i = i + 1;
    }
    proof {
        assert(parts.take(4) =~= parts);
    }
    text::join(&out, "\n\n")
}

// ---------------------------------------------------------------------- bodies

impl Tab {
    /// Request number `index` since the last navigation, or that there is none.
    pub fn find_request(&self, index: usize) -> (r: Result<Request, String>)
        requires
            self@.wf(),
        ensures
            match (numbered(self@, index as nat), r) {
                (Some(x), Ok(q)) => q@ == x,
                (None, Err(e)) => e@ == "request #"@ + text::dec(index as nat) + " does not exist"@,
                _ => false,
            },
    {
        match self.request_at(index) {
            Some(q) => Ok(q),
            None => {
                let mut s = text::concat("request #", &text::decimal(index as u128));
                s.append(" does not exist");
                Err(s)
            },
        }
    }
}

/// The command that asks for the body that a request was sent with.
pub fn sent_body_question(session: &str, req: &Request) -> (r: Command)
    ensures
        r@ == cdp::to_session(
            session@,
            "Network.getRequestPostData"@,
            JsonV::obj().with("requestId"@, JsonV::Str(req@.id)),
        ),
{
    Command::session(session, "Network.getRequestPostData", Json::obj().with("requestId", Json::str(&req.id)))
}

/// The command that asks for the body of a response.
pub fn response_body_question(session: &str, req: &Request) -> (r: Command)
    ensures
        r@ == cdp::to_session(
            session@,
            "Network.getResponseBody"@,
            JsonV::obj().with("requestId"@, JsonV::Str(req@.id)),
        ),
{
    Command::session(session, "Network.getResponseBody", Json::obj().with("requestId", Json::str(&req.id)))
}

/// The body that a request was sent with: what was seen of it, or what was answered.
pub fn sent_body(req: &Request, reply: &Option<Json>) -> (r: String)
    ensures
        r@ == match req@.post_data {
            Some(d) => d,
            None => match reply {
                Some(v) => v@.at("postData"@).text(),
                None => Seq::empty(),
            },
        },
{
    match &req.post_data {
        Some(d) => d.clone(),
        None => match reply {
            Some(v) => v.at("postData").text(),
            None => {
                let s = String::new();
                proof {
                    assert(s@ =~= Seq::<char>::empty());
                }
                s
            },
        },
    }
}

// ---------------------------------------------------------------------- what lists show

/// The console list shows, in their order, the messages of its level and of the more severe ones:
/// errors alone at `error`, warnings too at `warning`, information too at `info`, and everything at
/// any other level.
pub proof fn law_console_shows_levels(console: Seq<ConsoleMsgV>, level: Text)
    ensures
        positions::shows(
            message_lines(console, level),
            console.len() as int,
            |j: int|
                if level == "error"@ {
                    console[j].level == "error"@
                } else if level == "warning"@ {
                    console[j].level == "error"@ || console[j].level == "warning"@
                } else if level == "info"@ {
                    console[j].level == "error"@ || console[j].level == "warning"@ || console[j].level == "info"@
                } else {
                    true
                },
            |j: int|
                "["@ + text::uppered(console[j].level) + "] "@ + console[j].text + (if console[j].location.len() == 0 {
                    Seq::empty()
                } else {
                    " @ "@ + console[j].location
                }),
        ),
{
    let chosen = |j: int|
        if level == "error"@ {
            console[j].level == "error"@
        } else if level == "warning"@ {
            console[j].level == "error"@ || console[j].level == "warning"@
        } else if level == "info"@ {
            console[j].level == "error"@ || console[j].level == "warning"@ || console[j].level == "info"@
        } else {
            true
        };
    let show = |j: int|
        "["@ + text::uppered(console[j].level) + "] "@ + console[j].text + (if console[j].location.len() == 0 {
            Seq::empty()
        } else {
            " @ "@ + console[j].location
        });
    reveal_strlit("error");
    reveal_strlit("warning");
    reveal_strlit("info");
    assert("error"@.len() == 5 && "warning"@.len() == 7 && "info"@.len() == 4);
    assert forall|j: int| 0 <= j < console.len() implies #[trigger] chosen(j) == (rank_of(console[j].level) <= rank_of(
        level,
    )) by {}
    assert forall|j: int| 0 <= j < console.len() implies #[trigger] show(j) == message_line(console[j]) by {
        let m = console[j];
        let head = "["@ + text::uppered(m.level) + "] "@ + m.text;
        assert(show(j) =~= message_line(m));
    }
    lemma_messages_show(console, level, console.len() as int, chosen, show);
    assert(console.take(console.len() as int) =~= console);
}

proof fn lemma_messages_show(
    console: Seq<ConsoleMsgV>,
    level: Text,
    n: int,
    chosen: spec_fn(int) -> bool,
    show: spec_fn(int) -> Text,
)
    requires
        0 <= n <= console.len(),
        forall|j: int| 0 <= j < console.len() ==> #[trigger] chosen(j) == (rank_of(console[j].level) <= rank_of(level)),
        forall|j: int| 0 <= j < console.len() ==> #[trigger] show(j) == message_line(console[j]),
    ensures
        positions::shows(message_lines(console.take(n), level), n, chosen, show),
    decreases n,
{
    let list = message_lines(console.take(n), level);
    if n == 0 {
        positions::lemma_shows_none(list, chosen, show);
    } else {
        lemma_messages_show(console, level, n - 1, chosen, show);
        assert(console.take(n).drop_last() =~= console.take(n - 1));
        assert(console.take(n).last() == console[n - 1]);
        assert(chosen(n - 1) == (rank_of(console[n - 1].level) <= rank_of(level)));
        assert(show(n - 1) == message_line(console[n - 1]));
        positions::lemma_shows_next(message_lines(console.take(n - 1), level), list, n - 1, chosen, show);
    }
}

/// The network list shows, in their order and under their numbers, the requests whose URL is asked for:
/// the failed ones alone where only those are asked for; else all but those for an image, a font, a
/// stylesheet, a script, media or a manifest that were answered with a status below 400 and did not
/// fail, and those too where static resources are asked for.
pub proof fn law_network_list_shows_requests(requests: Seq<RequestV>, f: Filter, matched: Seq<bool>)
    requires
        matched.len() == requests.len(),
    ensures
        positions::shows(
            request_lines(requests, f, matched),
            requests.len() as int,
            |j: int|
                {
                    let q = requests[j];
                    let kind = q.resource_type;
                    let answered = q.failure is None && q.status is Some && q.status->0 < 400;
                    let failed = q.failure is Some || (q.status is Some && q.status->0 >= 400);
                    matched[j] && if f.failed {
                        failed
                    } else {
                        f.include_static || !answered || (kind != "Image"@ && kind != "Font"@ && kind != "Stylesheet"@
                            && kind != "Script"@ && kind != "Media"@ && kind != "Manifest"@)
                    }
                },
            |j: int|
                {
                    let q = requests[j];
                    let outcome = if q.failure is Some {
                        "[FAILED] "@ + q.failure->0
                    } else if q.status is Some {
                        "["@ + text::dec_int(q.status->0) + "] "@ + q.status_text
                    } else {
                        "[pending]"@
                    };
                    text::dec_int(j + 1) + ". ["@ + q.method + "] "@ + q.url + " => "@ + outcome + (if q.from_route {
                        " (mocked)"@
                    } else {
                        Seq::empty()
                    })
                },
        ),
{
    let chosen = |j: int|
        {
            let q = requests[j];
            let kind = q.resource_type;
            let answered = q.failure is None && q.status is Some && q.status->0 < 400;
            let failed = q.failure is Some || (q.status is Some && q.status->0 >= 400);
            matched[j] && if f.failed {
                failed
            } else {
                f.include_static || !answered || (kind != "Image"@ && kind != "Font"@ && kind != "Stylesheet"@ && kind
                    != "Script"@ && kind != "Media"@ && kind != "Manifest"@)
            }
        };
    let show = |j: int|
        {
            let q = requests[j];
            let outcome = if q.failure is Some {
                "[FAILED] "@ + q.failure->0
            } else if q.status is Some {
                "["@ + text::dec_int(q.status->0) + "] "@ + q.status_text
            } else {
                "[pending]"@
            };
            text::dec_int(j + 1) + ". ["@ + q.method + "] "@ + q.url + " => "@ + outcome + (if q.from_route {
                " (mocked)"@
            } else {
                Seq::empty()
            })
        };
    lemma_requests_show(requests, f, matched, requests.len() as int, chosen, show);
    assert(requests.take(requests.len() as int) =~= requests);
}

proof fn lemma_requests_show(
    requests: Seq<RequestV>,
    f: Filter,
    matched: Seq<bool>,
    n: int,
    chosen: spec_fn(int) -> bool,
    show: spec_fn(int) -> Text,
)
    requires
        0 <= n <= requests.len(),
        forall|j: int| 0 <= j < requests.len() ==> #[trigger] chosen(j) == listed(requests[j], f, matched[j]),
        forall|j: int| 0 <= j < requests.len() ==> #[trigger] show(j) == request_line(j + 1, requests[j]),
    ensures
        positions::shows(request_lines(requests.take(n), f, matched), n, chosen, show),
    decreases n,
{
    let list = request_lines(requests.take(n), f, matched);
    if n == 0 {
        positions::lemma_shows_none(list, chosen, show);
    } else {
        lemma_requests_show(requests, f, matched, n - 1, chosen, show);
        assert(requests.take(n).drop_last() =~= requests.take(n - 1));
        assert(requests.take(n).last() == requests[n - 1]);
        assert(chosen(n - 1) == listed(requests[n - 1], f, matched[n - 1]));
        assert(show(n - 1) == request_line(n, requests[n - 1]));
        positions::lemma_shows_next(request_lines(requests.take(n - 1), f, matched), list, n - 1, chosen, show);
    }
}

/// A request since the last navigation that is not for an image, a font, a stylesheet, a script, media
/// or a manifest is always in the list of all requests, where its URL is asked for.
pub proof fn law_calls_are_listed(t: TabV, matched: Seq<bool>, k: int)
    requires
        t.requests_nav_start <= t.requests.len(),
        0 <= k < t.requests.len() - t.requests_nav_start,
        matched[k],
        ({
            let kind = t.requests[t.requests_nav_start + k].resource_type;
            kind != "Image"@ && kind != "Font"@ && kind != "Stylesheet"@ && kind != "Script"@ && kind != "Media"@ && kind
                != "Manifest"@
        }),
    ensures
        request_lines(recent(t), Filter { include_static: false, failed: false }, matched).contains(
            request_line(k + 1, t.requests[t.requests_nav_start + k]),
        ),
        network_report(t, Filter { include_static: false, failed: false }, matched) == text::joined(
            request_lines(recent(t), Filter { include_static: false, failed: false }, matched),
            "\n"@,
        ),
{
    assert(recent(t)[k] == t.requests[t.requests_nav_start + k]);
    lemma_request_line(recent(t), Filter { include_static: false, failed: false }, matched, k);
}

/// The lists speak of what came since the last navigation, and the console list of everything where that
/// is asked for; a list of nothing says so.
pub proof fn law_lists_begin_at_the_navigation(t: TabV, level: Text, f: Filter, matched: Seq<bool>)
    requires
        t.wf(),
    ensures
        ({
            let shown = message_lines(t.console.subrange(t.console_nav_start as int, t.console.len() as int), level);
            console_report(t, level, false) == if shown.len() == 0 {
                "No console messages"@
            } else {
                text::joined(shown, "\n"@)
            }
        }),
        console_report(t, level, true) == if message_lines(t.console, level).len() == 0 {
            "No console messages"@
        } else {
            text::joined(message_lines(t.console, level), "\n"@)
        },
        ({
            let shown = request_lines(
                t.requests.subrange(t.requests_nav_start as int, t.requests.len() as int),
                f,
                matched,
            );
            network_report(t, f, matched) == if shown.len() == 0 {
                "No network requests"@
            } else {
                text::joined(shown, "\n"@)
            }
        }),
{
    assert(t.console.skip(t.console_nav_start as int) =~= t.console.subrange(
        t.console_nav_start as int,
        t.console.len() as int,
    ));
    assert(t.console.skip(0) =~= t.console);
    assert(t.requests.skip(t.requests_nav_start as int) =~= t.requests.subrange(
        t.requests_nav_start as int,
        t.requests.len() as int,
    ));
}

/// Request number `n` is the `n`th since the last navigation, counted from 1, and 0 is the first too; there is
/// none behind the last.
pub proof fn law_numbers_of_requests(t: TabV, n: nat)
    requires
        t.wf(),
    ensures
        ({
            let recent = t.requests.subrange(t.requests_nav_start as int, t.requests.len() as int);
            &&& 1 <= n <= recent.len() ==> numbered(t, n) == Some(recent[n - 1])
            &&& n > recent.len() ==> numbered(t, n) is None
            &&& numbered(t, 0) == numbered(t, 1)
        }),
{
}

/// The status of a page is that of the document that the last navigation began with, the newest under its id;
/// a navigation that began with something else has none.
pub proof fn law_status_of_pages(t: TabV, i: int)
    requires
        t.wf(),
        t.requests_nav_start < t.requests.len(),
        state::request_index(t.requests, t.requests[t.requests_nav_start as int].id) == Some(i),
    ensures
        t.requests[t.requests_nav_start as int].resource_type == "Document"@ ==> document_status_of(t) == t.requests[i].status,
        t.requests[t.requests_nav_start as int].resource_type != "Document"@ ==> document_status_of(t) is None,
{
}

/// Without requests since the last navigation there is no status.
pub proof fn law_no_status_without_requests(t: TabV)
    requires
        t.requests_nav_start >= t.requests.len(),
    ensures
        document_status_of(t) is None,
{
}

/// Every header is shown, in a line of its own, in order.
pub proof fn law_headers_are_shown(h: Seq<(Text, JsonV)>, name: Text, v: Text)
    ensures
        headers_text(JsonV::Obj(Seq::empty())) == Seq::<char>::empty(),
        headers_text(JsonV::Obj(seq![(name, JsonV::Str(v))])) == name + ": "@ + v,
        h.len() > 0 ==> headers_text(JsonV::Obj(h.push((name, JsonV::Str(v))))) == headers_text(JsonV::Obj(h)) + "\n"@ + (
        name + ": "@ + v),
{
    let f = |m: (Text, JsonV)| m.0 + ": "@ + m.1.text();
    let x = (name, JsonV::Str(v));
    assert(seq![x].map_values(f) =~= seq![f(x)]);
    assert(h.push(x).map_values(f) =~= h.map_values(f).push(f(x)));
    assert(Seq::<(Text, JsonV)>::empty().map_values(f) =~= Seq::<Text>::empty());
    text::law_parts_are_joined(h.map_values(f), "\n"@, f(x));
}

/// The body of a response is its text, or its size and its kind where it is binary, or why there is none.
pub proof fn law_bodies_are_shown(v: JsonV, b: Seq<u8>, e: Text, mime: Text)
    ensures
        v.at("base64Encoded"@) != JsonV::Bool(true) ==> body_text(Ok(v), mime) == v.at("body"@).text(),
        v.at("base64Encoded"@) == JsonV::Bool(true) && v.at("body"@).text() == encoding::base64_text(b) ==> body_text(
            Ok(v),
            mime,
        ) == "<binary, "@ + text::dec(b.len()) + " bytes, "@ + mime + ">"@,
        body_text(Err(e), mime) == "<unavailable: "@ + e + ">"@,
{
    if v.at("body"@).text() == encoding::base64_text(b) {
        let got = encoding::base64_bytes(v.at("body"@).text());
        assert(got is Some);
        encoding::law_base64_round_trip(got->0, b);
    }
}

/// What is told of a request: its headers and its body, the headers and the body of the response, in this
/// order, each under its name; or the one part that is asked for.
pub proof fn law_requests_are_told(q: RequestV, request_body: Text, response_body: Text)
    ensures
        ({
            let a = "#### "@ + "request-headers"@ + "\n"@ + (q.method + " "@ + q.url + "\n"@ + headers_text(
                q.request_headers,
            ));
            let b = "#### "@ + "request-body"@ + "\n"@ + request_body;
            let c = "#### "@ + "response-headers"@ + "\n"@ + ((if q.status is Some {
                text::dec_int(q.status->0)
            } else {
                "pending"@
            }) + " "@ + q.status_text + "\n"@ + headers_text(q.response_headers));
            let d = "#### "@ + "response-body"@ + "\n"@ + response_body;
            &&& request_report(q, request_body, response_body, None) == text::joined(seq![a, b, c, d], "\n\n"@)
            &&& request_report(q, request_body, response_body, Some("request-headers"@)) == text::joined(
                seq![a],
                "\n\n"@,
            )
            &&& request_report(q, request_body, response_body, Some("request-body"@)) == text::joined(seq![b], "\n\n"@)
            &&& request_report(q, request_body, response_body, Some("response-headers"@)) == text::joined(
                seq![c],
                "\n\n"@,
            )
            &&& request_report(q, request_body, response_body, Some("response-body"@)) == text::joined(
                seq![d],
                "\n\n"@,
            )
        }),
{
    reveal_strlit("request-headers");
    reveal_strlit("request-body");
    reveal_strlit("response-headers");
    reveal_strlit("response-body");
    assert("request-body"@.len() == 12);
    assert("response-body"@.len() == 13);
    assert("request-headers"@.len() == 15);
    assert("response-headers"@.len() == 16);
    let parts = request_parts(q, request_body, response_body);
    let a = part_text(parts[0].0, parts[0].1);
    let b = part_text(parts[1].0, parts[1].1);
    let c = part_text(parts[2].0, parts[2].1);
    let d = part_text(parts[3].0, parts[3].1);
    let p3 = parts.drop_last();
    let p2 = p3.drop_last();
    let p1 = p2.drop_last();
    let p0 = p1.drop_last();
    assert(p3.last() == parts[2] && p2.last() == parts[1] && p1.last() == parts[0]);
    assert(chosen_parts(p0, None) =~= Seq::<Text>::empty());
    assert(chosen_parts(p1, None) =~= seq![a]);
    assert(chosen_parts(p2, None) =~= seq![a, b]);
    assert(chosen_parts(p3, None) =~= seq![a, b, c]);
    assert(chosen_parts(parts, None) =~= seq![a, b, c, d]);
    assert(chosen_parts(p0, Some("request-headers"@)) =~= Seq::<Text>::empty());
    assert(chosen_parts(p1, Some("request-headers"@)) =~= seq![a]);
    assert(chosen_parts(p2, Some("request-headers"@)) =~= seq![a]);
    assert(chosen_parts(p3, Some("request-headers"@)) =~= seq![a]);
    assert(chosen_parts(parts, Some("request-headers"@)) =~= seq![a]);
    assert(chosen_parts(p0, Some("request-body"@)) =~= Seq::<Text>::empty());
    assert(chosen_parts(p1, Some("request-body"@)) =~= Seq::<Text>::empty());
    assert(chosen_parts(p2, Some("request-body"@)) =~= seq![b]);
    assert(chosen_parts(p3, Some("request-body"@)) =~= seq![b]);
    assert(chosen_parts(parts, Some("request-body"@)) =~= seq![b]);
    assert(chosen_parts(p0, Some("response-headers"@)) =~= Seq::<Text>::empty());
    assert(chosen_parts(p1, Some("response-headers"@)) =~= Seq::<Text>::empty());
    assert(chosen_parts(p2, Some("response-headers"@)) =~= Seq::<Text>::empty());
    assert(chosen_parts(p3, Some("response-headers"@)) =~= seq![c]);
    assert(chosen_parts(parts, Some("response-headers"@)) =~= seq![c]);
    assert(chosen_parts(p0, Some("response-body"@)) =~= Seq::<Text>::empty());
    assert(chosen_parts(p1, Some("response-body"@)) =~= Seq::<Text>::empty());
    assert(chosen_parts(p2, Some("response-body"@)) =~= Seq::<Text>::empty());
    assert(chosen_parts(p3, Some("response-body"@)) =~= Seq::<Text>::empty());
    assert(chosen_parts(parts, Some("response-body"@)) =~= seq![d]);
}

/// Which requests an expression picks: those whose URL it matches, and all where there is none.
pub proof fn law_urls_are_matched(t: TabV, source: Text, i: int)
    requires
        t.wf(),
        0 <= i < t.requests.len() - t.requests_nav_start,
    ensures
        url_matches(t, None).len() == t.requests.len() - t.requests_nav_start,
        url_matches(t, Some(source)).len() == t.requests.len() - t.requests_nav_start,
        url_matches(t, None)[i],
        url_matches(t, Some(source))[i] == pattern::regex_finds(
            source,
            false,
            t.requests[t.requests_nav_start + i].url,
        ),
{
}

} // verus!
