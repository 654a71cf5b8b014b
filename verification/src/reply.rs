//! Tool replies in a markdown shape (Result / Events / Page / Modal state / Snapshot). After the
//! first snapshot of a page, actions return only the parts of the accessibility tree that changed.

use crate::config::Config;
use crate::config::ConfigV;
use crate::encoding;
use crate::snapshot;
use crate::state;
use crate::state::ConsoleMsg;
use crate::state::ConsoleMsgV;
use crate::state::State;
use crate::state::StateV;
use crate::state::TabV;
use crate::text;
use crate::text::Text;
use vstd::prelude::*;

verus! {

// ---------------------------------------------------------------------- replies

pub struct Reply {
    pub result: Vec<String>,
    pub images: Vec<(Vec<u8>, &'static str)>,
    pub snapshot: bool,
    pub page_state: bool,
    pub error: bool,
}

/// What a `Reply` holds.
#[verifier::ext_equal]
pub struct ReplyV {
    pub result: Seq<Text>,
    pub images: Seq<(Seq<u8>, Text)>,
    pub snapshot: bool,
    pub page_state: bool,
    pub error: bool,
}

/// Pictures by their bytes and kinds.
pub open spec fn pictures(s: Seq<(Vec<u8>, &'static str)>) -> Seq<(Seq<u8>, Text)> {
    s.map_values(|p: (Vec<u8>, &'static str)| (p.0@, p.1@))
}

impl View for Reply {
    type V = ReplyV;

    open spec fn view(&self) -> ReplyV {
        ReplyV {
            result: text::views(self.result@),
            images: pictures(self.images@),
            snapshot: self.snapshot,
            page_state: self.page_state,
            error: self.error,
        }
    }
}

/// A reply of one text.
pub open spec fn plain_reply(s: Text) -> ReplyV {
    ReplyV { result: seq![s], images: Seq::empty(), snapshot: false, page_state: false, error: false }
}

/// A reply of one text with the state of the page.
pub open spec fn page_reply(s: Text) -> ReplyV {
    ReplyV { page_state: true, ..plain_reply(s) }
}

/// A reply of one text with the state of the page and a snapshot.
pub open spec fn action_reply(s: Text) -> ReplyV {
    ReplyV { page_state: true, snapshot: true, ..plain_reply(s) }
}

fn one_text(s: String) -> (r: Reply)
    ensures
        r@ == plain_reply(s@),
{
    let mut v: Vec<String> = Vec::new();
    v.push(s);
    let images: Vec<(Vec<u8>, &'static str)> = Vec::new();
    proof {
        assert(text::views(v@) =~= seq![s@]);
        assert(pictures(images@) =~= Seq::empty());
    }
    Reply { result: v, images, snapshot: false, page_state: false, error: false }
}

impl Reply {
    /// A reply with the state of the page.
    pub fn text(s: String) -> (r: Reply)
        ensures
            r@ == page_reply(s@),
    {
        let mut r = one_text(s);
        r.page_state = true;
        r
    }

    /// Replies for actions that change the page carry a snapshot.
    pub fn action(s: String) -> (r: Reply)
        ensures
            r@ == action_reply(s@),
    {
        let mut r = one_text(s);
        r.page_state = true;
        r.snapshot = true;
        r
    }

    /// A reply without the state of the page.
    pub fn raw(s: String) -> (r: Reply)
        ensures
            r@ == plain_reply(s@),
    {
        one_text(s)
    }

    pub fn error(s: String) -> (r: Reply)
        ensures
            r@ == (ReplyV { page_state: true, error: true, ..plain_reply(s@) }),
    {
        let mut r = one_text(s);
        r.page_state = true;
        r.error = true;
        r
    }
}

// ---------------------------------------------------------------------- how much of a snapshot

/// Action replies carry at most this much snapshot; `browser_snapshot` gets the full limit.
pub const ACTION_SNAPSHOT_CHARS: usize = 16_000;

/// What stands before the last line feed; all of a text without one.
pub open spec fn whole_lines(s: Text) -> Text {
    match last_feed(s) {
        Some(i) => s.take(i),
        None => s,
    }
}

/// Where the last line feed stands.
pub open spec fn last_feed(s: Text) -> Option<int>
    decreases s.len(),
{
    if s.len() == 0 {
        None
    } else if s.last() == '\n' {
        Some(s.len() - 1)
    } else {
        last_feed(s.drop_last())
    }
}

/// The part of a snapshot that is shown: whole lines within its first `max` characters.
pub open spec fn snapshot_head(s: Text, max: nat) -> Text {
    whole_lines(s.take(max as int))
}

/// The snapshot has more characters than the limit. No limit is 0.
pub open spec fn too_long(s: Text, max: nat) -> bool {
    max > 0 && s.len() > max
}

pub fn is_too_long(s: &str, max: usize) -> (r: bool)
    ensures
        r == too_long(s@, max as nat),
{
    max > 0 && text::chars_of(s).len() > max
}

/// What became of saving a snapshot to a file.
pub enum Saved {
    /// It is in this file.
    Path(String),
    /// It could not be saved.
    Failed(String),
}

/// What a reply says of a saved snapshot.
pub open spec fn saved_text(s: Saved) -> Text {
    match s {
        Saved::Path(p) => "the full snapshot is in "@ + p@,
        Saved::Failed(e) => "saving the full snapshot failed: "@ + e@,
    }
}

/// A snapshot as a yaml block: in full, or its head with a note where the rest is.
pub open spec fn block_text(s: Text, max: nat, saved: Saved) -> Text {
    if !too_long(s, max) {
        "```yaml\n"@ + s + "\n```"@
    } else {
        let head = snapshot_head(s, max);
        "```yaml\n"@ + head + "\n```\nTruncated: showing "@ + text::dec(head.len()) + " of "@ + text::dec(s.len())
            + " chars; "@ + saved_text(saved)
            + ". Use browser_find to locate elements, or browser_snapshot with target/depth for one part of the page."@
    }
}

fn head_of(s: &str, max: usize) -> (r: String)
    requires
        max <= s@.len(),
    ensures
        r@ == snapshot_head(s@, max as nat),
{
    let v = text::chars_of(s);
    let ghost p = s@.take(max as int);
    let mut e: usize = max;
    while e > 0 && v[e - 1] != '\n'
        invariant
            e <= max <= v@.len(),
            last_feed(p) == last_feed(v@.take(e as int)),
        decreases e,
    {
        proof {
            assert(v@.take(e as int).drop_last() =~= v@.take(e - 1));
        }
        e = e - 1;
    }
    if e > 0 {
        proof {
            assert(v@.subrange(0, e - 1) =~= p.take(e - 1));
        }
        text::string_of(&v, 0, e - 1)
    } else {
        proof {
            assert(v@.subrange(0, max as int) =~= p);
        }
        text::string_of(&v, 0, max)
    }
}

/// A snapshot as a yaml block, cut at a line boundary past `max` characters so one huge page cannot flood the
/// agent's context; the complete snapshot was saved to a file where it is too long.
pub fn snapshot_block_capped(snap: &str, max: usize, saved: &Saved) -> (r: String)
    ensures
        r@ == block_text(snap@, max as nat, *saved),
{
    if !is_too_long(snap, max) {
        let mut s = "```yaml\n".to_string();
        s.append(snap);
        s.append("\n```");
        return s;
    }
    let head = head_of(snap, max);
    let note = match saved {
        Saved::Path(p) => text::concat("the full snapshot is in ", p),
        Saved::Failed(e) => text::concat("saving the full snapshot failed: ", e),
    };
    let mut s = "```yaml\n".to_string();
    s.append(&head);
    s.append("\n```\nTruncated: showing ");
    s.append(&text::decimal(text::chars_of(&head).len() as u128));
    s.append(" of ");
    s.append(&text::decimal(text::chars_of(snap).len() as u128));
    s.append(" chars; ");
    s.append(&note);
    s.append(". Use browser_find to locate elements, or browser_snapshot with target/depth for one part of the page.");
    s
}

/// What is shown of a snapshot that is too long is its beginning, within the limit.
pub proof fn law_head_within_limit(s: Text, max: nat)
    requires
        too_long(s, max),
    ensures
        snapshot_head(s, max).len() <= max,
        snapshot_head(s, max) == s.take(snapshot_head(s, max).len() as int),
{
    let p = s.take(max as int);
    let h = snapshot_head(s, max);
    lemma_last_feed(p);
    assert(h =~= p.take(h.len() as int));
    assert(h =~= s.take(h.len() as int));
}

proof fn lemma_last_feed(s: Text)
    ensures
        last_feed(s) is Some ==> 0 <= last_feed(s)->0 < s.len() && s[last_feed(s)->0] == '\n',
    decreases s.len(),
{
    if s.len() > 0 {
        lemma_last_feed(s.drop_last());
    }
}

/// The lines of a snapshot are shown whole: what is shown is followed by a line feed, unless the
/// limit lies in the first line.
pub proof fn law_head_ends_with_line(s: Text, max: nat)
    requires
        too_long(s, max),
        s.take(max as int).contains('\n'),
    ensures
        snapshot_head(s, max).len() < s.len(),
        s[snapshot_head(s, max).len() as int] == '\n',
{
    let p = s.take(max as int);
    lemma_last_feed(p);
    lemma_has_feed(p);
}

proof fn lemma_has_feed(s: Text)
    requires
        s.contains('\n'),
    ensures
        last_feed(s) is Some,
    decreases s.len(),
{
    let k = choose|k: int| 0 <= k < s.len() && s[k] == '\n';
    if s.last() != '\n' {
        assert(s.drop_last()[k] == '\n');
        lemma_has_feed(s.drop_last());
    }
}

// ---------------------------------------------------------------------- what a reply shows of the page

/// How much of the page a reply shows.
#[derive(Clone, Copy, PartialEq, Eq, Structural)]
pub enum SnapshotMode {
    Nothing,
    /// All of the page.
    Full,
    /// Only its main content.
    Main,
    /// Only what changed.
    Diff,
}

/// The mode of a name.
pub open spec fn mode_of(requested: Text) -> SnapshotMode {
    if requested == "none"@ || requested == "off"@ || requested == "false"@ {
        SnapshotMode::Nothing
    } else if requested == "full"@ {
        SnapshotMode::Full
    } else if requested == "main"@ {
        SnapshotMode::Main
    } else {
        SnapshotMode::Diff
    }
}

/// The mode of a reply: what the call asks for, else what the settings say.
pub fn snapshot_mode(requested: &Option<String>, cfg: &Config) -> (r: SnapshotMode)
    ensures
        r == mode_of(
            match text::opt_text(*requested) {
                Some(s) => s,
                None => cfg@.snapshot_mode,
            },
        ),
{
    let s = match requested {
        Some(s) => s.as_str(),
        None => cfg.snapshot_mode.as_str(),
    };
    if text::same(s, "none") || text::same(s, "off") || text::same(s, "false") {
        SnapshotMode::Nothing
    } else if text::same(s, "full") {
        SnapshotMode::Full
    } else if text::same(s, "main") {
        SnapshotMode::Main
    } else {
        SnapshotMode::Diff
    }
}

/// Whether a reply tells of the page: where it is asked to, and a browser runs.
pub fn tells_of_page(reply: &Reply, running: bool) -> (r: bool)
    ensures
        r == (reply@.page_state && running),
{
    reply.page_state && running
}

/// Whether a reply takes a snapshot: it is for an action that went well, snapshots are wanted, and
/// no dialog blocks the page.
pub fn takes_snapshot(reply: &Reply, mode: SnapshotMode, has_dialog: bool) -> (r: bool)
    ensures
        r == (reply@.snapshot && !reply@.error && mode != SnapshotMode::Nothing && !has_dialog),
{
    reply.snapshot && !reply.error && mode != SnapshotMode::Nothing && !has_dialog
}

/// How much of a whole snapshot a reply carries.
pub open spec fn inline_limit(mode: SnapshotMode, cfg: ConfigV) -> nat {
    if mode == SnapshotMode::Full {
        cfg.snapshot_max_chars
    } else if cfg.snapshot_max_chars == 0 || cfg.snapshot_max_chars > ACTION_SNAPSHOT_CHARS {
        ACTION_SNAPSHOT_CHARS as nat
    } else {
        cfg.snapshot_max_chars
    }
}

/// Of a whole snapshot an action reply carries at most so many characters, whatever the settings
/// allow, unless the full snapshot is asked for.
pub proof fn law_action_snapshots_are_capped(s: Text, mode: SnapshotMode, cfg: ConfigV)
    requires
        mode != SnapshotMode::Full,
    ensures
        ({
            let max = inline_limit(mode, cfg);
            if too_long(s, max) {
                snapshot_head(s, max).len() <= ACTION_SNAPSHOT_CHARS
            } else {
                s.len() <= ACTION_SNAPSHOT_CHARS
            }
        }),
{
    let max = inline_limit(mode, cfg);
    if too_long(s, max) {
        law_head_within_limit(s, max);
    }
}

/// What a reply shows after a snapshot was taken.
pub enum Shown {
    /// That nothing changed.
    NoChanges,
    /// The difference to the snapshot before.
    Changes(String),
    /// The snapshot, up to a limit.
    Whole(usize),
}

/// What a `Shown` holds.
pub enum ShownV {
    NoChanges,
    Changes(Text),
    Whole(nat),
}

impl View for Shown {
    type V = ShownV;

    open spec fn view(&self) -> ShownV {
        match self {
            Shown::NoChanges => ShownV::NoChanges,
            Shown::Changes(d) => ShownV::Changes(d@),
            Shown::Whole(n) => ShownV::Whole(*n as nat),
        }
    }
}

/// What a reply shows, given the difference to the snapshot before where there is one.
pub open spec fn shown_of(mode: SnapshotMode, delta: Option<Text>, cfg: ConfigV) -> ShownV {
    match delta {
        Some(d) => if d.len() == 0 {
            ShownV::NoChanges
        } else {
            ShownV::Changes(d)
        },
        None => ShownV::Whole(inline_limit(mode, cfg)),
    }
}

/// Whether a reply compares with the snapshot before.
pub open spec fn compares(mode: SnapshotMode, prev: Option<Text>) -> bool {
    mode == SnapshotMode::Diff && prev is Some
}

/// What a reply shows, given the difference to the snapshot before where there is one.
pub fn show(mode: SnapshotMode, delta: Option<String>, cfg: &Config) -> (r: Shown)
    ensures
        r@ == shown_of(mode, text::opt_text(delta), cfg@),
{
    match delta {
        Some(d) => if d.as_str().is_empty() {
            Shown::NoChanges
        } else {
            Shown::Changes(d)
        },
        None => {
            let n = cfg.snapshot_max_chars;
            if mode == SnapshotMode::Full {
                Shown::Whole(n)
            } else if n == 0 || n > ACTION_SNAPSHOT_CHARS {
                Shown::Whole(ACTION_SNAPSHOT_CHARS)
            } else {
                Shown::Whole(n)
            }
        },
    }
}

/// What a reply shows of a snapshot that was taken with `prev` before it. `None` where the steps
/// between the two do not fit the lines of the new one.
pub fn plan_snapshot(mode: SnapshotMode, prev: &Option<String>, snap: &str, cfg: &Config) -> (r: Option<Shown>)
    ensures
        ({
            let before = text::opt_text(*prev);
            if compares(mode, before) {
                let ops = snapshot::line_ops_of(before->0, snap@);
                let lines = text::text_lines(snap@);
                if snapshot::ops_fit(ops, lines.len()) {
                    r is Some && (r->0)@ == shown_of(mode, snapshot::delta_text(lines, ops), cfg@)
                } else {
                    r is None
                }
            } else {
                r is Some && (r->0)@ == shown_of(mode, None, cfg@)
            }
        }),
        text::opt_text(*prev) == Some(snap@) && mode == SnapshotMode::Diff ==> r is Some && (r->0)@ == ShownV::NoChanges,
        ({
            let before = text::opt_text(*prev);
            compares(mode, before) && snapshot::no_cr(before->0) && snapshot::no_cr(snap@) && snapshot::no_empty_line(
                snap@,
            ) ==> r is Some && ((r->0)@ == ShownV::NoChanges <==> before->0 == snap@)
        }),
{
    match prev {
        Some(p) => if mode == SnapshotMode::Diff {
            match snapshot::checked_delta(p, snap) {
                Some(d) => {
                    proof {
                        if d is Some && (d->0)@.len() == 0 {
                            assert((d->0)@ =~= Seq::<char>::empty());
                        }
                    }
                    Some(show(mode, d, cfg))
                },
                None => None,
            }
        } else {
            Some(show(mode, None, cfg))
        },
        None => Some(show(mode, None, cfg)),
    }
}

/// Where the main content of a page stands.
pub const MAIN_CONTENT: &'static str = "main, [role=main], article";

/// What is captured for a reply, the next where one fails: the main content where only that is asked
/// for, and the whole page.
pub open spec fn targets_of(mode: SnapshotMode) -> Seq<Option<Text>> {
    if mode == SnapshotMode::Main {
        seq![Some(MAIN_CONTENT@), None]
    } else {
        seq![None]
    }
}

/// Targets by their texts.
pub open spec fn target_texts(s: Seq<Option<String>>) -> Seq<Option<Text>> {
    s.map_values(|o: Option<String>| text::opt_text(o))
}

/// What is captured for a reply, the next where one fails.
pub fn snapshot_targets(mode: SnapshotMode) -> (r: Vec<Option<String>>)
    ensures
        target_texts(r@) == targets_of(mode),
{
    let mut out: Vec<Option<String>> = Vec::new();
    if mode == SnapshotMode::Main {
        out.push(Some(MAIN_CONTENT.to_string()));
    }
    out.push(None);
    proof {
        assert(target_texts(out@) =~= targets_of(mode));
    }
    out
}

impl State {
    /// The snapshot of a reply becomes the one that the next is compared with, unless it shows the main
    /// content alone: that is a part of the page.
    pub fn keep_snapshot(&mut self, session: &str, mode: SnapshotMode, snap: String)
        requires
            old(self).wf(),
        ensures
            final(self).wf(),
            final(self)@ == match old(self)@.tab_index(session@) {
                Some(i) if mode != SnapshotMode::Main => old(self)@.with_tab(
                    i,
                    TabV { last_snapshot: Some(snap@), ..old(self)@.tabs[i] },
                ),
                _ => old(self)@,
            },
    {
        if mode != SnapshotMode::Main {
            self.set_snapshot(session, snap);
        }
    }
}

/// The snapshot section of a reply.
pub open spec fn section_text(shown: ShownV, snap: Text, saved: Saved) -> Text {
    match shown {
        ShownV::NoChanges => "### Snapshot\nNo changes since the last snapshot.\n"@,
        ShownV::Changes(d) => "### Snapshot (changes)\n```yaml\n"@ + d + "\n```\n"@,
        ShownV::Whole(max) => "### Snapshot\n"@ + block_text(snap, max, saved) + "\n"@,
    }
}

/// The snapshot section of a reply. `saved` tells what became of the full snapshot where it is too
/// long to show.
pub fn snapshot_section(shown: &Shown, snap: &str, saved: &Saved) -> (r: String)
    ensures
        r@ == section_text(shown@, snap@, *saved),
{
    match shown {
        Shown::NoChanges => "### Snapshot\nNo changes since the last snapshot.\n".to_string(),
        Shown::Changes(d) => {
            let mut s = "### Snapshot (changes)\n```yaml\n".to_string();
            s.append(d);
            s.append("\n```\n");
            s
        },
        Shown::Whole(max) => {
            let mut s = "### Snapshot\n".to_string();
            s.append(&snapshot_block_capped(snap, *max, saved));
            s.append("\n");
            s
        },
    }
}

/// The snapshot section of a reply when the page could not be captured.
pub fn failed_section(e: &str) -> (r: String)
    ensures
        r@ == "### Snapshot\nCould not capture a snapshot: "@ + e@ + "\n"@,
{
    let mut s = "### Snapshot\nCould not capture a snapshot: ".to_string();
    s.append(e);
    s.append("\n");
    s
}

// ---------------------------------------------------------------------- the report on the page

/// The message counts in replies: an error or a warning. Failed resource loads are already in the
/// network log; in every reply they are just noise.
pub open spec fn counts(m: ConsoleMsgV) -> bool {
    (m.level == "error"@ || m.level == "warning"@) && !text::text_starts(m.text, "Failed to load resource"@)
}

/// How many of the messages count, and are errors or are not.
pub open spec fn count_messages(console: Seq<ConsoleMsgV>, errors: bool) -> nat
    decreases console.len(),
{
    if console.len() == 0 {
        0
    } else {
        let m = console.last();
        count_messages(console.drop_last(), errors) + (if counts(m) && (m.level == "error"@) == errors {
            1nat
        } else {
            0nat
        })
    }
}

/// The messages that no reply has counted.
pub open spec fn fresh(t: TabV) -> Seq<ConsoleMsgV> {
    if t.console_reported <= t.console.len() {
        t.console.skip(t.console_reported as int)
    } else {
        Seq::empty()
    }
}

/// A list of notices.
pub open spec fn notice_lines(notices: Seq<Text>) -> Text
    decreases notices.len(),
{
    if notices.len() == 0 {
        Seq::empty()
    } else {
        notice_lines(notices.drop_last()) + "- "@ + notices.last() + "\n"@
    }
}

/// The events section: what happened since the last reply.
pub open spec fn events_section(notices: Seq<Text>) -> Text {
    if notices.len() == 0 {
        Seq::empty()
    } else {
        "### Events\n"@ + notice_lines(notices)
    }
}

/// How many tabs are open, where there are several.
pub open spec fn tabs_line(tabs: nat, current: nat) -> Text {
    if tabs > 1 {
        "- Tabs: "@ + text::dec(tabs) + " open, current is "@ + text::dec(current) + "\n"@
    } else {
        Seq::empty()
    }
}

/// How many messages came to the console. Counts only: the messages themselves are rarely what the
/// agent is after, and `browser_console_messages` has them in full.
pub open spec fn console_line(errors: nat, warnings: nat) -> Text {
    if errors + warnings > 0 {
        "- Console: "@ + text::dec(errors) + " new error(s), "@ + text::dec(warnings)
            + " warning(s) (browser_console_messages)\n"@
    } else {
        Seq::empty()
    }
}

/// What must be dealt with before the page goes on.
pub open spec fn modal_section(t: TabV) -> Text {
    match t.dialog {
        Some(d) => "### Modal state\n- [\""@ + d.kind + "\" dialog with message \""@ + d.message
            + "\"]: can be handled by browser_handle_dialog\n"@,
        None => if t.file_chooser is Some {
            "### Modal state\n- [File chooser]: can be handled by browser_file_upload\n"@
        } else {
            Seq::empty()
        },
    }
}

/// The sections on the page that a reply ends with.
pub open spec fn page_report(st: StateV, t: TabV) -> Text {
    events_section(st.notices) + "### Page\n- Page URL: "@ + t.url + "\n- Page Title: "@ + t.title + "\n"@ + tabs_line(
        st.tabs.len(),
        st.current,
    ) + console_line(count_messages(fresh(t), true), count_messages(fresh(t), false)) + modal_section(t)
}

/// The state after a report: its notices are told and its messages counted.
pub open spec fn reported(st: StateV, session: Text) -> StateV {
    let told = StateV { notices: Seq::empty(), ..st };
    match st.tab_index(session) {
        Some(i) => told.with_tab(i, TabV { console_reported: st.tabs[i].console.len(), ..st.tabs[i] }),
        None => told,
    }
}

fn count_fresh(console: &Vec<ConsoleMsg>, from: usize) -> (r: (usize, usize))
    requires
        from <= console@.len(),
    ensures
        r.0 == count_messages(text::views(console@).skip(from as int), true),
        r.1 == count_messages(text::views(console@).skip(from as int), false),
        r.0 + r.1 <= console@.len(),
{
    let ghost all = text::views(console@);
    let mut errors: usize = 0;
    let mut warnings: usize = 0;
    let mut i: usize = from;
    let ghost f = from as int;
    proof {
        assert(all.subrange(f, f) =~= Seq::<ConsoleMsgV>::empty());
    }
    while i < console.len()
        invariant
            from <= i <= console@.len(),
            f == from,
            all == text::views(console@),
            errors + warnings <= i - from,
            errors == count_messages(all.subrange(f, i as int), true),
            warnings == count_messages(all.subrange(f, i as int), false),
        decreases console@.len() - i,
    {
        proof {
            assert(all.subrange(f, i + 1).drop_last() =~= all.subrange(f, i as int));
            assert(all.subrange(f, i + 1).last() == console@[i as int]@);
        }
        let m = &console[i];
        let is_error = text::same(m.level, "error");
        if (is_error || text::same(m.level, "warning")) && !text::starts_with(&m.text, "Failed to load resource") {
            if is_error {
                errors = errors + 1;
            } else {
                warnings = warnings + 1;
            }
        }
        i = i + 1;
    }
    proof {
        assert(all.subrange(f, all.len() as int) =~= all.skip(f));
    }
    (errors, warnings)
}

fn events_text(notices: &Vec<String>) -> (r: String)
    ensures
        r@ == events_section(text::views(notices@)),
{
    if notices.len() == 0 {
        return String::new();
    }
    let ghost all = text::views(notices@);
    let mut out = "### Events\n".to_string();
    let mut i: usize = 0;
    proof {
        assert(all.take(0) =~= Seq::<Text>::empty());
        assert(out@ =~= "### Events\n"@ + notice_lines(all.take(0)));
    }
    while i < notices.len()
        invariant
            i <= notices@.len(),
            all == text::views(notices@),
            out@ == "### Events\n"@ + notice_lines(all.take(i as int)),
        decreases notices@.len() - i,
    {
        let ghost before = out@;
        out.append("- ");
        out.append(&notices[i]);
        out.append("\n");
        proof {
            assert(all.take(i + 1).drop_last() =~= all.take(i as int));
            assert(all.take(i + 1).last() == notices@[i as int]@);
            assert(out@ =~= "### Events\n"@ + notice_lines(all.take(i + 1)));
        }
        i = i + 1;
    }
    proof {
        assert(all.take(all.len() as int) =~= all);
    }
    out
}

impl State {
    /// The sections on the page of a session, which tells the notices and counts the messages. `None`
    /// where the tab is gone; the notices are gone then too.
    pub fn report(&mut self, session: &str) -> (r: Option<String>)
        requires
            old(self).wf(),
        ensures
            final(self)@ == reported(old(self)@, session@),
            final(self).wf(),
            text::opt_text(r) == match old(self)@.tab_index(session@) {
                Some(i) => Some(page_report(old(self)@, old(self)@.tabs[i])),
                None => None,
            },
    {
        broadcast use text::group_views;
        let ghost before = *self;
        let tabs = self.tabs.len();
        let current = self.current;
        let mut out = events_text(&self.notices);
        self.notices = Vec::new();
        let i = match self.tab_by_session(session) {
            Some(i) => i,
            None => {
                return None;
            },
        };
        proof {
            assert(before@.tabs[i as int] == self.tabs@[i as int]@);
            assert(before@.tabs[i as int].wf());
        }
        let t = &self.tabs[i];
        out.append("### Page\n- Page URL: ");
        out.append(&t.url);
        out.append("\n- Page Title: ");
        out.append(&t.title);
        out.append("\n");
        let empty = String::new();
        proof {
            assert(empty@ =~= Seq::<char>::empty());
        }
        if tabs > 1 {
            let mut l = "- Tabs: ".to_string();
            l.append(&text::decimal(tabs as u128));
            l.append(" open, current is ");
            l.append(&text::decimal(current as u128));
            l.append("\n");
            out.append(&l);
        } else {
            out.append(&empty);
        }
        let (errors, warnings) = count_fresh(&t.console, t.console_reported);
        if errors > 0 || warnings > 0 {
            let mut l = "- Console: ".to_string();
            l.append(&text::decimal(errors as u128));
            l.append(" new error(s), ");
            l.append(&text::decimal(warnings as u128));
            l.append(" warning(s) (browser_console_messages)\n");
            out.append(&l);
        } else {
            out.append(&empty);
        }
        match &t.dialog {
            Some(d) => {
                let mut l = "### Modal state\n- [\"".to_string();
                l.append(&d.kind);
                l.append("\" dialog with message \"");
                l.append(&d.message);
                l.append("\"]: can be handled by browser_handle_dialog\n");
                out.append(&l);
            },
            None => {
                if t.file_chooser.is_some() {
                    out.append("### Modal state\n- [File chooser]: can be handled by browser_file_upload\n");
                } else {
                    out.append(&empty);
                }
            },
        }
        self.tabs[i].console_reported = self.tabs[i].console.len();
        proof {
            let t1 = TabV { console_reported: before@.tabs[i as int].console.len(), ..before@.tabs[i as int] };
            assert(self@.tabs =~= before@.tabs.update(i as int, t1));
            assert forall|k: int| 0 <= k < self@.tabs.len() implies (#[trigger] self@.tabs[k]).wf() by {
                assert(before@.tabs[k].wf());
            }
        }
        Some(out)
    }
}

// ---------------------------------------------------------------------- the finished reply

/// A tool's answer: its text, pictures in base64 with their kinds, and whether it is an error.
pub struct ToolResult {
    pub text: String,
    pub images: Vec<(String, &'static str)>,
    pub error: bool,
}

/// What a `ToolResult` holds.
#[verifier::ext_equal]
pub struct ToolResultV {
    pub text: Text,
    pub images: Seq<(Text, Text)>,
    pub error: bool,
}

/// Encoded pictures by their texts and kinds.
pub open spec fn encoded(s: Seq<(String, &'static str)>) -> Seq<(Text, Text)> {
    s.map_values(|p: (String, &'static str)| (p.0@, p.1@))
}

impl View for ToolResult {
    type V = ToolResultV;

    open spec fn view(&self) -> ToolResultV {
        ToolResultV { text: self.text@, images: encoded(self.images@), error: self.error }
    }
}

/// The first section: what the tool says.
pub open spec fn head_section(r: ReplyV) -> Text {
    if r.result.len() == 0 {
        Seq::empty()
    } else {
        (if r.error {
            "### Error\n"@
        } else {
            "### Result\n"@
        }) + text::joined(r.result, "\n"@) + "\n"@
    }
}

/// Pictures in base64.
pub open spec fn encoded_images(images: Seq<(Seq<u8>, Text)>) -> Seq<(Text, Text)> {
    images.map_values(|p: (Seq<u8>, Text)| (encoding::base64_text(p.0), p.1))
}

/// The finished reply. `session` is the page it reports on, if it reports on one, and `section` its
/// snapshot section. A page that is gone by now leaves what the tool says, and nothing else.
pub open spec fn finished(st: StateV, r: ReplyV, session: Option<Text>, section: Option<Text>) -> ToolResultV {
    let full = |report: Text|
        ToolResultV {
            text: text::trimmed_end(
                head_section(r) + report + match section {
                    Some(s) => s,
                    None => Seq::empty(),
                },
            ),
            images: encoded_images(r.images),
            error: r.error,
        };
    match session {
        None => ToolResultV {
            text: text::trimmed_end(head_section(r)),
            images: encoded_images(r.images),
            error: r.error,
        },
        Some(s) => match st.tab_index(s) {
            Some(i) => full(page_report(st, st.tabs[i])),
            None => ToolResultV { text: head_section(r), images: Seq::empty(), error: false },
        },
    }
}

fn encode_images(images: &Vec<(Vec<u8>, &'static str)>) -> (r: Vec<(String, &'static str)>)
    ensures
        encoded(r@) == encoded_images(pictures(images@)),
{
    let mut out: Vec<(String, &'static str)> = Vec::new();
    let mut i: usize = 0;
    while i < images.len()
        invariant
            i <= images@.len(),
            out@.len() == i,
            forall|k: int|
                0 <= k < i ==> (#[trigger] out@[k]).0@ == encoding::base64_text(images@[k].0@) && out@[k].1@
                    == images@[k].1@,
        decreases images@.len() - i,
    {
        let data = encoding::encode(images[i].0.as_slice());
        out.push((data, images[i].1));
        i = i + 1;
    }
    proof {
        assert(encoded(out@) =~= encoded_images(pictures(images@)));
    }
    out
}

fn head_text(reply: &Reply) -> (r: String)
    ensures
        r@ == head_section(reply@),
{
    if reply.result.len() == 0 {
        return String::new();
    }
    let mut s = if reply.error {
        "### Error\n".to_string()
    } else {
        "### Result\n".to_string()
    };
    s.append(&text::join(&reply.result, "\n"));
    s.append("\n");
    s
}

/// Finishes a reply: what the tool says, the events since the last reply, the state of the page of
/// `session`, and the snapshot section.
pub fn finish(st: &mut State, reply: &Reply, session: &Option<String>, section: &Option<String>) -> (r: ToolResult)
    requires
        old(st).wf(),
    ensures
        r@ == finished(old(st)@, reply@, text::opt_text(*session), text::opt_text(*section)),
        final(st)@ == match text::opt_text(*session) {
            Some(s) => reported(old(st)@, s),
            None => old(st)@,
        },
        final(st).wf(),
{
    let mut out = head_text(reply);
    match session {
        Some(s) => match st.report(s) {
            Some(report) => {
                out.append(&report);
                match section {
                    Some(x) => {
                        out.append(x);
                    },
                    None => {
                        let empty = String::new();
                        proof {
                            assert(empty@ =~= Seq::<char>::empty());
                        }
                        out.append(&empty);
                    },
                }
            },
            None => {
                let none: Vec<(String, &'static str)> = Vec::new();
                proof {
                    assert(encoded(none@) =~= Seq::empty());
                }
                return ToolResult { text: out, images: none, error: false };
            },
        },
        None => {},
    }
    ToolResult { text: text::trim_end(&out), images: encode_images(&reply.images), error: reply.error }
}

/// A notice is told once: the report after the next tells it no more.
pub proof fn law_notices_told_once(st: StateV, session: Text)
    ensures
        reported(st, session).notices.len() == 0,
{
}

/// A console message is counted once: with nothing new in the console, the next report counts none.
pub proof fn law_messages_counted_once(st: StateV, session: Text)
    requires
        st.tab_index(session) is Some,
    ensures
        ({
            let i = st.tab_index(session)->0;
            fresh(reported(st, session).tabs[i]).len() == 0
        }),
{
    state::lemma_session_index(st.tabs, session);
}

// ---------------------------------------------------------------------- what replies say

/// A snapshot within the limit, or without one, is shown in full; of a longer one the beginning is shown,
/// with how much of how much that is and where the rest is.
pub proof fn law_blocks_show_snapshots(s: Text, max: nat, saved: Saved)
    ensures
        max == 0 || s.len() <= max ==> block_text(s, max, saved) == "```yaml\n"@ + s + "\n```"@,
        max > 0 && s.len() > max ==> exists|n: nat|
            n <= max && block_text(s, max, saved) == "```yaml\n"@ + s.take(n as int)
                + "\n```\nTruncated: showing "@ + #[trigger] text::dec(n) + " of "@ + text::dec(s.len()) + " chars; "@
                + (match saved {
                Saved::Path(p) => "the full snapshot is in "@ + p@,
                Saved::Failed(e) => "saving the full snapshot failed: "@ + e@,
            })
                + ". Use browser_find to locate elements, or browser_snapshot with target/depth for one part of the page."@,
{
    if max > 0 && s.len() > max {
        law_head_within_limit(s, max);
        let n = snapshot_head(s, max).len();
        assert(n <= max && text::dec(n) == text::dec(n));
    }
}

/// Where the limit lies in the first line, that line is shown up to the limit.
pub proof fn law_long_first_lines_are_cut(s: Text, max: nat)
    requires
        max > 0 && s.len() > max,
        forall|k: int| 0 <= k < max ==> #[trigger] s[k] != '\n',
    ensures
        snapshot_head(s, max) == s.take(max as int),
{
    let t = s.take(max as int);
    lemma_nothing_behind_last_feed(t);
    if last_feed(t) is Some {
        assert(t[last_feed(t)->0] == s[last_feed(t)->0]);
    }
}

/// As many lines as fit are shown of a snapshot that is too long: no further line ends within the limit.
pub proof fn law_head_is_the_longest(s: Text, max: nat, k: int)
    requires
        max > 0 && s.len() > max,
        snapshot_head(s, max).len() < k < max,
    ensures
        s[k] != '\n',
{
    let t = s.take(max as int);
    lemma_nothing_behind_last_feed(t);
    assert(t[k] == s[k]);
}

proof fn lemma_nothing_behind_last_feed(s: Text)
    ensures
        match last_feed(s) {
            Some(i) => 0 <= i < s.len() && s[i] == '\n' && forall|k: int| i < k < s.len() ==> #[trigger] s[k] != '\n',
            None => forall|k: int| 0 <= k < s.len() ==> #[trigger] s[k] != '\n',
        },
    decreases s.len(),
{
    if s.len() > 0 {
        lemma_nothing_behind_last_feed(s.drop_last());
        assert forall|k: int| 0 <= k < s.len() - 1 implies #[trigger] s[k] == s.drop_last()[k] by {}
    }
}

/// What a call may ask of the snapshot in its reply: none of it, the full one, that of the main content,
/// and anything else the difference to the one before.
pub proof fn law_snapshot_modes(requested: Text)
    ensures
        mode_of(requested) == SnapshotMode::Nothing <==> requested == "none"@ || requested == "off"@ || requested
            == "false"@,
        mode_of(requested) == SnapshotMode::Full <==> requested == "full"@,
        mode_of(requested) == SnapshotMode::Main <==> requested == "main"@,
{
    reveal_strlit("none");
    reveal_strlit("off");
    reveal_strlit("false");
    reveal_strlit("full");
    reveal_strlit("main");
    assert("off"@.len() == 3);
    assert("none"@.len() == 4 && "none"@[0] == 'n');
    assert("full"@.len() == 4 && "full"@[0] == 'f');
    assert("main"@.len() == 4 && "main"@[0] == 'm');
    assert("false"@.len() == 5);
}

/// How much of a whole snapshot a reply carries: what the settings allow where the full one is asked for,
/// else 16,000 characters or less where the settings allow less.
pub proof fn law_inline_limits(mode: SnapshotMode, cfg: ConfigV)
    ensures
        mode == SnapshotMode::Full ==> inline_limit(mode, cfg) == cfg.snapshot_max_chars,
        mode != SnapshotMode::Full && 0 < cfg.snapshot_max_chars <= 16000 ==> inline_limit(mode, cfg)
            == cfg.snapshot_max_chars,
        mode != SnapshotMode::Full && (cfg.snapshot_max_chars == 0 || cfg.snapshot_max_chars > 16000) ==> inline_limit(
            mode,
            cfg,
        ) == 16000,
{
}

/// A reply shows the difference where there is one, says so where there is none, and shows the snapshot
/// where no difference was made. A difference is made to the snapshot before, where only that is asked for.
pub proof fn law_replies_show_differences(mode: SnapshotMode, delta: Option<Text>, prev: Option<Text>, cfg: ConfigV)
    ensures
        delta == Some(Seq::<char>::empty()) ==> shown_of(mode, delta, cfg) == ShownV::NoChanges,
        delta is Some && (delta->0).len() > 0 ==> shown_of(mode, delta, cfg) == ShownV::Changes(delta->0),
        delta is None ==> shown_of(mode, delta, cfg) == ShownV::Whole(inline_limit(mode, cfg)),
        compares(mode, prev) <==> mode == SnapshotMode::Diff && prev is Some,
{
}

/// Where the main content is asked for, that is captured, and the whole page where that fails; else the
/// whole page.
pub proof fn law_main_content_first(mode: SnapshotMode)
    ensures
        mode == SnapshotMode::Main ==> targets_of(mode) == seq![Some("main, [role=main], article"@), None],
        mode != SnapshotMode::Main ==> targets_of(mode) == seq![None::<Text>],
{
}

/// The snapshot section: that nothing changed, what changed, or the snapshot.
pub proof fn law_snapshot_sections(d: Text, max: nat, snap: Text, saved: Saved)
    ensures
        section_text(ShownV::NoChanges, snap, saved) == "### Snapshot\nNo changes since the last snapshot.\n"@,
        section_text(ShownV::Changes(d), snap, saved) == "### Snapshot (changes)\n```yaml\n"@ + d + "\n```\n"@,
        section_text(ShownV::Whole(max), snap, saved) == "### Snapshot\n"@ + block_text(snap, max, saved) + "\n"@,
{
}

/// Errors and warnings are counted, each by itself; failed loads of resources are not, and nothing else is.
pub proof fn law_errors_and_warnings_are_counted(console: Seq<ConsoleMsgV>, m: ConsoleMsgV)
    ensures
        count_messages(Seq::empty(), true) == 0 && count_messages(Seq::empty(), false) == 0,
        count_messages(console.push(m), true) == count_messages(console, true) + (if m.level == "error"@
            && !text::text_starts(m.text, "Failed to load resource"@) {
            1int
        } else {
            0
        }),
        count_messages(console.push(m), false) == count_messages(console, false) + (if m.level == "warning"@
            && !text::text_starts(m.text, "Failed to load resource"@) {
            1int
        } else {
            0
        }),
{
    reveal_strlit("error");
    reveal_strlit("warning");
    assert("error"@.len() == 5);
    assert("warning"@.len() == 7);
    assert(console.push(m).drop_last() =~= console);
}

/// What a reply says of the page: what happened since the last one, address and title, how many tabs are
/// open where there are several, how many errors and warnings no reply has counted where there are some,
/// and what must be dealt with before the page goes on.
pub proof fn law_reports_tell_of_the_page(st: StateV, t: TabV)
    requires
        t.wf(),
    ensures
        ({
            let new = t.console.subrange(t.console_reported as int, t.console.len() as int);
            let errors = count_messages(new, true);
            let warnings = count_messages(new, false);
            page_report(st, t) == (if st.notices.len() == 0 {
                Seq::empty()
            } else {
                "### Events\n"@ + notice_lines(st.notices)
            }) + "### Page\n- Page URL: "@ + t.url + "\n- Page Title: "@ + t.title + "\n"@ + (if st.tabs.len() > 1 {
                "- Tabs: "@ + text::dec(st.tabs.len()) + " open, current is "@ + text::dec(st.current) + "\n"@
            } else {
                Seq::empty()
            }) + (if errors > 0 || warnings > 0 {
                "- Console: "@ + text::dec(errors) + " new error(s), "@ + text::dec(warnings)
                    + " warning(s) (browser_console_messages)\n"@
            } else {
                Seq::empty()
            }) + (if t.dialog is Some {
                "### Modal state\n- [\""@ + (t.dialog->0).kind + "\" dialog with message \""@ + (t.dialog->0).message
                    + "\"]: can be handled by browser_handle_dialog\n"@
            } else if t.file_chooser is Some {
                "### Modal state\n- [File chooser]: can be handled by browser_file_upload\n"@
            } else {
                Seq::empty()
            })
        }),
{
    assert(t.console.skip(t.console_reported as int) =~= t.console.subrange(
        t.console_reported as int,
        t.console.len() as int,
    ));
}

/// Every notice is told, one in a line, in the order in which they came.
pub proof fn law_notices_are_told(notices: Seq<Text>, n: Text)
    ensures
        notice_lines(Seq::empty()) == Seq::<char>::empty(),
        notice_lines(notices.push(n)) == notice_lines(notices) + "- "@ + n + "\n"@,
{
    assert(notices.push(n).drop_last() =~= notices);
}

/// A finished reply says what the tool says, under its heading, then of the page, then the snapshot; its
/// pictures come along in base64, and it is an error where the tool's is one.
pub proof fn law_finished_replies(st: StateV, r: ReplyV, session: Option<Text>, section: Option<Text>)
    requires
        session is Some ==> st.tab_index(session->0) is Some,
    ensures
        ({
            let f = finished(st, r, session, section);
            let head = if r.result.len() == 0 {
                Seq::empty()
            } else if r.error {
                "### Error\n"@ + text::joined(r.result, "\n"@) + "\n"@
            } else {
                "### Result\n"@ + text::joined(r.result, "\n"@) + "\n"@
            };
            &&& f.error == r.error
            &&& f.images.len() == r.images.len()
            &&& forall|i: int|
                0 <= i < r.images.len() ==> #[trigger] f.images[i] == (
                    encoding::base64_text(r.images[i].0),
                    r.images[i].1,
                )
            &&& session is None ==> f.text == text::trimmed_end(head)
            &&& session is Some && section is None ==> f.text == text::trimmed_end(
                head + page_report(st, st.tabs[st.tab_index(session->0)->0]) + Seq::<char>::empty(),
            )
            &&& session is Some && section is Some ==> f.text == text::trimmed_end(
                head + page_report(st, st.tabs[st.tab_index(session->0)->0]) + section->0,
            )
        }),
{
}

/// The three kinds of replies: text alone, with the state of the page, and with a snapshot too.
pub proof fn law_kinds_of_replies(s: Text)
    ensures
        plain_reply(s).result == seq![s] && page_reply(s).result == seq![s] && action_reply(s).result == seq![s],
        !plain_reply(s).page_state && !plain_reply(s).snapshot && !plain_reply(s).error,
        page_reply(s).page_state && !page_reply(s).snapshot && !page_reply(s).error,
        action_reply(s).page_state && action_reply(s).snapshot && !action_reply(s).error,
        plain_reply(s).images.len() == 0 && page_reply(s).images.len() == 0 && action_reply(s).images.len() == 0,
{
}

/// A report changes nothing but what is told: the other tabs, and everything else of the tab, stay.
pub proof fn law_reports_change_nothing_else(st: StateV, session: Text, k: int)
    requires
        0 <= k < st.tabs.len(),
    ensures
        ({
            let a = reported(st, session);
            &&& a == (StateV { notices: Seq::empty(), tabs: a.tabs, ..st })
            &&& a.tabs.len() == st.tabs.len()
            &&& a.tabs[k] == if st.tab_index(session) == Some(k) {
                TabV { console_reported: st.tabs[k].console.len(), ..st.tabs[k] }
            } else {
                st.tabs[k]
            }
        }),
{
    state::lemma_session_index(st.tabs, session);
}

} // verus!
