//! Snapshots of a page as indented text: what changed between two of them, and which lines of one
//! a search finds, with their ancestors.

use crate::positions;
use crate::text;
use crate::text::Text;
use vstd::prelude::*;

verus! {

// ---------------------------------------------------------------------- the tree in the indentation

/// How far a line is indented: the bytes of the white space in front of it.
pub open spec fn indent_of(l: Text) -> int {
    text::byte_len(l) - text::byte_len(text::trimmed_start(l))
}

/// The indentation of each line.
pub open spec fn indents(lines: Seq<Text>) -> Seq<int> {
    lines.map_values(|l: Text| indent_of(l))
}

/// Line `j` is line `i` itself or an ancestor of it: it stands above, and every line between
/// the two, and line `i`, is indented deeper than it.
pub open spec fn leads_to(ind: Seq<int>, j: int, i: int) -> bool {
    j == i || (j < i && forall|k: int| j < k <= i ==> ind[j] < #[trigger] ind[k])
}

/// Line `j` is one of the marked lines or an ancestor of one.
pub open spec fn kept(ind: Seq<int>, marked: Seq<bool>, j: int) -> bool {
    exists|i: int| 0 <= i < marked.len() && #[trigger] marked[i] && leads_to(ind, j, i)
}

/// How far a line is indented, in bytes.
pub fn indent(l: &str) -> (r: usize)
    ensures
        r == indent_of(l@),
{
    let t = text::trim_start(l);
    proof {
        text::lemma_trimmed_start(l@);
        let n = l@.len() - t@.len();
        assert(l@ =~= l@.take(n) + t@);
        text::lemma_bytes_add(l@.take(n), t@);
    }
    text::bytes(l) - text::bytes(&t)
}

fn indent_all(lines: &Vec<String>) -> (r: Vec<usize>)
    ensures
        r@.len() == lines@.len(),
        r@.map_values(|x: usize| x as int) == indents(text::views(lines@)),
{
    let mut out: Vec<usize> = Vec::new();
    let mut i: usize = 0;
    while i < lines.len()
        invariant
            i <= lines@.len(),
            out@.len() == i,
            forall|k: int| 0 <= k < i ==> #[trigger] out@[k] == indent_of(lines@[k]@),
        decreases lines@.len() - i,
    {
        out.push(indent(&lines[i]));
        i = i + 1;
    }
    proof {
        assert(out@.map_values(|x: usize| x as int) =~= indents(text::views(lines@)));
    }
    out
}

/// Marks line `i` and its ancestors.
fn mark(ind: &Vec<usize>, i: usize, keep: &mut Vec<bool>)
    requires
        i < ind@.len(),
        old(keep)@.len() == ind@.len(),
    ensures
        final(keep)@.len() == ind@.len(),
        forall|j: int|
            0 <= j < ind@.len() ==> #[trigger] final(keep)@[j] == (old(keep)@[j] || leads_to(
                ind@.map_values(|x: usize| x as int),
                j,
                i as int,
            )),
{
    let ghost m = ind@.map_values(|x: usize| x as int);
    let ghost before = keep@;
    keep.set(i, true);
    let mut level: usize = ind[i];
    let mut j: usize = i;
    while j > 0
        invariant
            j <= i < ind@.len(),
            keep@.len() == ind@.len(),
            before.len() == ind@.len(),
            m == ind@.map_values(|x: usize| x as int),
            forall|k: int| j <= k <= i ==> level <= #[trigger] ind@[k],
            exists|k: int| j <= k <= i && level == #[trigger] ind@[k],
            forall|k: int| j <= k < ind@.len() ==> #[trigger] keep@[k] == (before[k] || leads_to(m, k, i as int)),
            forall|k: int| 0 <= k < j ==> #[trigger] keep@[k] == before[k],
        decreases j,
    {
        let ghost low = choose|k: int| j <= k <= i && level == #[trigger] ind@[k];
        j = j - 1;
        if ind[j] < level {
            keep.set(j, true);
            level = ind[j];
            proof {
                assert forall|k: int| j < k <= i implies m[j as int] < #[trigger] m[k] by {
                    assert(ind@[k] >= ind@[low]);
                }
                assert(leads_to(m, j as int, i as int));
            }
        } else {
            proof {
                assert(m[low] == ind@[low]);
                assert(!(m[j as int] < m[low]));
                assert(!leads_to(m, j as int, i as int));
                assert(level == ind@[low]);
            }
        }
    }
    proof {
        assert forall|k: int| 0 <= k < ind@.len() implies #[trigger] keep@[k] == (before[k] || leads_to(
            m,
            k,
            i as int,
        )) by {}
    }
}

/// Which lines stay: the marked ones and their ancestors.
fn keep_marked(ind: &Vec<usize>, marked: &Vec<bool>) -> (r: Vec<bool>)
    requires
        marked@.len() == ind@.len(),
    ensures
        r@.len() == ind@.len(),
        forall|j: int|
            0 <= j < ind@.len() ==> #[trigger] r@[j] == kept(ind@.map_values(|x: usize| x as int), marked@, j),
{
    let ghost m = ind@.map_values(|x: usize| x as int);
    let mut keep: Vec<bool> = Vec::new();
    let mut i: usize = 0;
    while i < ind.len()
        invariant
            i <= ind@.len(),
            keep@.len() == i,
            forall|k: int| 0 <= k < i ==> !#[trigger] keep@[k],
        decreases ind@.len() - i,
    {
        keep.push(false);
        i = i + 1;
    }
    i = 0;
    while i < ind.len()
        invariant
            i <= ind@.len(),
            marked@.len() == ind@.len(),
            keep@.len() == ind@.len(),
            m == ind@.map_values(|x: usize| x as int),
            forall|j: int|
                0 <= j < ind@.len() ==> #[trigger] keep@[j] == (exists|k: int|
                    0 <= k < i && #[trigger] marked@[k] && leads_to(m, j, k)),
        decreases ind@.len() - i,
    {
        let ghost before = keep@;
        if marked[i] {
            mark(ind, i, &mut keep);
        }
        proof {
            assert forall|j: int| 0 <= j < ind@.len() implies #[trigger] keep@[j] == (exists|k: int|
                0 <= k < i + 1 && #[trigger] marked@[k] && leads_to(m, j, k)) by {
                if keep@[j] {
                    if before[j] {
                        let k = choose|k: int| 0 <= k < i && #[trigger] marked@[k] && leads_to(m, j, k);
                        assert(marked@[k] && leads_to(m, j, k));
                    } else {
                        assert(marked@[i as int] && leads_to(m, j, i as int));
                    }
                }
            }
        }
        i = i + 1;
    }
    keep
}

// ---------------------------------------------------------------------- searching

/// The lines that match.
pub open spec fn count_marked(marked: Seq<bool>) -> nat
    decreases marked.len(),
{
    if marked.len() == 0 {
        0
    } else {
        count_marked(marked.drop_last()) + (if marked.last() {
            1nat
        } else {
            0nat
        })
    }
}

/// The first `n` lines without those that do not stay.
pub open spec fn kept_lines(lines: Seq<Text>, marked: Seq<bool>, n: int) -> Seq<Text>
    decreases n,
{
    if n <= 0 {
        Seq::empty()
    } else if kept(indents(lines), marked, n - 1) {
        kept_lines(lines, marked, n - 1).push(lines[n - 1])
    } else {
        kept_lines(lines, marked, n - 1)
    }
}

/// What a search answers: how many lines match, and those lines below their ancestors.
pub open spec fn found_text(lines: Seq<Text>, marked: Seq<bool>) -> Text {
    if count_marked(marked) == 0 {
        "No matches"@
    } else {
        text::dec(count_marked(marked)) + " match(es):\n```yaml\n"@ + text::joined(
            kept_lines(lines, marked, lines.len() as int),
            "\n"@,
        ) + "\n```"@
    }
}

fn count(marked: &Vec<bool>) -> (r: usize)
    ensures
        r == count_marked(marked@),
        r <= marked@.len(),
{
    let mut n: usize = 0;
    let mut i: usize = 0;
    proof {
        assert(marked@.take(0) =~= Seq::<bool>::empty());
    }
    while i < marked.len()
        invariant
            i <= marked@.len(),
            n <= i,
            n == count_marked(marked@.take(i as int)),
        decreases marked@.len() - i,
    {
        proof {
            assert(marked@.take(i + 1).drop_last() =~= marked@.take(i as int));
        }
        if marked[i] {
            n = n + 1;
        }
        i = i + 1;
    }
    proof {
        assert(marked@.take(marked@.len() as int) =~= marked@);
    }
    n
}

/// The answer of a search in the lines of a snapshot, given which of them match.
pub fn found(lines: &Vec<String>, marked: &Vec<bool>) -> (r: String)
    requires
        marked@.len() == lines@.len(),
    ensures
        r@ == found_text(text::views(lines@), marked@),
{
    let hits = count(marked);
    if hits == 0 {
        return "No matches".to_string();
    }
    let ghost all = text::views(lines@);
    let ind = indent_all(lines);
    let keep = keep_marked(&ind, marked);
    let mut out: Vec<String> = Vec::new();
    let mut i: usize = 0;
    proof {
        assert(text::views(out@) =~= kept_lines(all, marked@, 0));
    }
    while i < lines.len()
        invariant
            i <= lines@.len(),
            keep@.len() == lines@.len(),
            all == text::views(lines@),
            forall|j: int| 0 <= j < lines@.len() ==> #[trigger] keep@[j] == kept(indents(all), marked@, j),
            text::views(out@) == kept_lines(all, marked@, i as int),
        decreases lines@.len() - i,
    {
        broadcast use text::group_views;
        if keep[i] {
            out.push(lines[i].clone());
        }
        i = i + 1;
    }
    let mut s = text::decimal(hits as u128);
    s.append(" match(es):\n```yaml\n");
    s.append(&text::join(&out, "\n"));
    s.append("\n```");
    s
}

// ---------------------------------------------------------------------- differences

/// One step that turns the lines of an old text into those of a new one.
#[derive(Clone, Copy)]
pub enum DiffOp {
    Equal { old_index: usize, new_index: usize, len: usize },
    Delete { old_index: usize, old_len: usize, new_index: usize },
    Insert { old_index: usize, new_index: usize, new_len: usize },
    Replace { old_index: usize, old_len: usize, new_index: usize, new_len: usize },
}

/// The new line `i` is written anew by the step.
pub open spec fn writes(op: DiffOp, i: int) -> bool {
    match op {
        DiffOp::Insert { new_index, new_len, .. } => new_index <= i < new_index + new_len,
        DiffOp::Replace { new_index, new_len, .. } => new_index <= i < new_index + new_len,
        _ => false,
    }
}

/// How many lines more the step takes away than it puts there.
pub open spec fn drops(op: DiffOp) -> nat {
    match op {
        DiffOp::Delete { old_len, .. } => old_len as nat,
        DiffOp::Replace { old_len, new_len, .. } => if old_len > new_len {
            (old_len - new_len) as nat
        } else {
            0
        },
        _ => 0,
    }
}

/// The step writes only within `n` new lines.
pub open spec fn fits(op: DiffOp, n: nat) -> bool {
    match op {
        DiffOp::Insert { new_index, new_len, .. } => new_len == 0 || new_index + new_len <= n,
        DiffOp::Replace { new_index, new_len, .. } => new_len == 0 || new_index + new_len <= n,
        _ => true,
    }
}

/// Which of `n` new lines some step writes anew.
pub open spec fn changed_lines(ops: Seq<DiffOp>, n: nat) -> Seq<bool> {
    Seq::new(n, |i: int| exists|k: int| 0 <= k < ops.len() && writes(#[trigger] ops[k], i))
}

/// How many lines the steps take away in all.
pub open spec fn removed_lines(ops: Seq<DiffOp>) -> nat
    decreases ops.len(),
{
    if ops.len() == 0 {
        0
    } else {
        removed_lines(ops.drop_last()) + drops(ops.last())
    }
}

/// The steps write only within `n` new lines, and what they take away can be counted.
pub open spec fn ops_fit(ops: Seq<DiffOp>, n: nat) -> bool {
    &&& forall|k: int| 0 <= k < ops.len() ==> fits(#[trigger] ops[k], n)
    &&& removed_lines(ops) <= usize::MAX
}

/// The first `n` lines of a difference: the changed lines, and the ancestors of changed lines
/// with a note that they did not change.
pub open spec fn delta_lines(lines: Seq<Text>, changed: Seq<bool>, n: int) -> Seq<Text>
    decreases n,
{
    if n <= 0 {
        Seq::empty()
    } else {
        let before = delta_lines(lines, changed, n - 1);
        if changed[n - 1] {
            before.push(lines[n - 1])
        } else if kept(indents(lines), changed, n - 1) {
            before.push(lines[n - 1] + " # unchanged"@)
        } else {
            before
        }
    }
}

/// What a difference says of lines taken away.
pub open spec fn removal_note(removed: nat) -> Seq<Text> {
    if removed > 0 {
        seq!["# "@ + text::dec(removed) + " line(s) removed"@]
    } else {
        Seq::empty()
    }
}

/// The difference that `ops` makes of the new text's lines: nothing where nothing changed, `None`
/// where more than three fifths of the lines did.
pub open spec fn delta_text(lines: Seq<Text>, ops: Seq<DiffOp>) -> Option<Text> {
    let changed = changed_lines(ops, lines.len());
    let n = count_marked(changed);
    let removed = removed_lines(ops);
    if n == 0 && removed == 0 {
        Some(Seq::empty())
    } else if lines.len() == 0 || 5 * n > 3 * lines.len() {
        None
    } else {
        Some(text::joined(delta_lines(lines, changed, lines.len() as int) + removal_note(removed), "\n"@))
    }
}

/// How many old lines a step goes over.
pub open spec fn old_span(op: DiffOp) -> nat {
    match op {
        DiffOp::Equal { len, .. } => len as nat,
        DiffOp::Delete { old_len, .. } => old_len as nat,
        DiffOp::Insert { .. } => 0,
        DiffOp::Replace { old_len, .. } => old_len as nat,
    }
}

/// How many new lines a step goes over.
pub open spec fn new_span(op: DiffOp) -> nat {
    match op {
        DiffOp::Equal { len, .. } => len as nat,
        DiffOp::Delete { .. } => 0,
        DiffOp::Insert { new_len, .. } => new_len as nat,
        DiffOp::Replace { new_len, .. } => new_len as nat,
    }
}

/// Where in the new lines a step begins.
pub open spec fn new_start(op: DiffOp) -> nat {
    match op {
        DiffOp::Equal { new_index, .. } => new_index as nat,
        DiffOp::Delete { new_index, .. } => new_index as nat,
        DiffOp::Insert { new_index, .. } => new_index as nat,
        DiffOp::Replace { new_index, .. } => new_index as nat,
    }
}

/// The steps, one behind the other, go over all of the lines `a` and of the lines `b`; a step
/// that calls lines equal goes over the same lines on both sides.
pub open spec fn aligned(ops: Seq<DiffOp>, a: Seq<Text>, b: Seq<Text>) -> bool
    decreases ops.len(),
{
    if ops.len() == 0 {
        a.len() == 0 && b.len() == 0
    } else {
        let op = ops.last();
        let x = a.len() - old_span(op);
        let y = b.len() - new_span(op);
        &&& x >= 0
        &&& y >= 0
        &&& new_span(op) > 0 ==> new_start(op) == y
        &&& op is Equal ==> a.skip(x) == b.skip(y)
        &&& aligned(ops.drop_last(), a.take(x), b.take(y))
    }
}

/// The text holds no carriage return.
pub open spec fn no_cr(s: Text) -> bool {
    !s.contains('\r')
}

/// The steps that `similar::TextDiff::from_lines` gives for two texts.
pub uninterp spec fn line_ops_of(old: Text, new: Text) -> Seq<DiffOp>;

/// `similar::TextDiff::from_lines` and `TextDiff::ops`: the steps that turn the lines of one text
/// into those of another, a function of the two texts alone. In texts without carriage returns,
/// whose lines end at `\n` alone, the steps are aligned with the lines on both sides; lines are
/// compared with their endings. A text and itself differ in no step.
#[verifier::external_body]
fn line_ops(old: &str, new: &str) -> (r: Vec<DiffOp>)
    ensures
        r@ == line_ops_of(old@, new@),
        no_cr(old@) && no_cr(new@) ==> aligned(r@, text::ended_lines(old@), text::ended_lines(new@)),
        old@ == new@ ==> forall|k: int| 0 <= k < r@.len() ==> (#[trigger] r@[k]) is Equal,
{
    let diff = similar::TextDiff::from_lines(old, new);
    let step = |op: &similar::DiffOp| match *op {
        similar::DiffOp::Equal { old_index, new_index, len } => DiffOp::Equal { old_index, new_index, len },
        similar::DiffOp::Delete { old_index, old_len, new_index } => DiffOp::Delete { old_index, old_len, new_index },
        similar::DiffOp::Insert { old_index, new_index, new_len } => DiffOp::Insert { old_index, new_index, new_len },
        similar::DiffOp::Replace { old_index, old_len, new_index, new_len } => {
            DiffOp::Replace { old_index, old_len, new_index, new_len }
        }
    };
    diff.ops().iter().map(step).collect()
}

/// Whether the steps write only within `n` new lines and take away a countable number.
fn check_ops(ops: &Vec<DiffOp>, n: usize) -> (r: bool)
    ensures
        r == ops_fit(ops@, n as nat),
{
    let mut removed: usize = 0;
    let mut i: usize = 0;
    proof {
        assert(ops@.take(0) =~= Seq::<DiffOp>::empty());
    }
    while i < ops.len()
        invariant
            i <= ops@.len(),
            removed == removed_lines(ops@.take(i as int)),
            forall|k: int| 0 <= k < i ==> fits(#[trigger] ops@[k], n as nat),
        decreases ops@.len() - i,
    {
        proof {
            assert(ops@.take(i + 1).drop_last() =~= ops@.take(i as int));
            lemma_removed_grows(ops@, i + 1);
        }
        let (fit, gone): (bool, usize) = match ops[i] {
            DiffOp::Equal { .. } => (true, 0),
            DiffOp::Delete { old_len, .. } => (true, old_len),
            DiffOp::Insert { new_index, new_len, .. } => (
                new_len == 0 || (new_index <= n && new_len <= n - new_index),
                0,
            ),
            DiffOp::Replace { old_len, new_index, new_len, .. } => (
                new_len == 0 || (new_index <= n && new_len <= n - new_index),
                if old_len > new_len {
                    old_len - new_len
                } else {
                    0
                },
            ),
        };
        if !fit || gone > usize::MAX - removed {
            return false;
        }
        removed = removed + gone;
        i = i + 1;
    }
    proof {
        assert(ops@.take(ops@.len() as int) =~= ops@);
    }
    true
}

proof fn lemma_removed_grows(ops: Seq<DiffOp>, n: int)
    requires
        0 <= n <= ops.len(),
    ensures
        removed_lines(ops.take(n)) <= removed_lines(ops),
    decreases ops.len(),
{
    if n < ops.len() {
        lemma_removed_grows(ops.drop_last(), n);
        assert(ops.drop_last().take(n) =~= ops.take(n));
    } else {
        assert(ops.take(n) =~= ops);
    }
}

/// Which of `n` new lines the steps write anew, and how many lines they take away.
fn apply_ops(ops: &Vec<DiffOp>, n: usize) -> (r: (Vec<bool>, usize))
    requires
        ops_fit(ops@, n as nat),
    ensures
        r.0@ == changed_lines(ops@, n as nat),
        r.1 == removed_lines(ops@),
{
    let mut changed: Vec<bool> = Vec::new();
    let mut i: usize = 0;
    while i < n
        invariant
            i <= n,
            changed@.len() == i,
            forall|k: int| 0 <= k < i ==> !#[trigger] changed@[k],
        decreases n - i,
    {
        changed.push(false);
        i = i + 1;
    }
    let mut removed: usize = 0;
    i = 0;
    proof {
        assert(ops@.take(0) =~= Seq::<DiffOp>::empty());
    }
    while i < ops.len()
        invariant
            i <= ops@.len(),
            ops_fit(ops@, n as nat),
            changed@.len() == n,
            removed == removed_lines(ops@.take(i as int)),
            forall|j: int|
                0 <= j < n ==> #[trigger] changed@[j] == (exists|k: int| 0 <= k < i && writes(#[trigger] ops@[k], j)),
        decreases ops@.len() - i,
    {
        let ghost before = changed@;
        let op = ops[i];
        proof {
            assert(ops@.take(i + 1).drop_last() =~= ops@.take(i as int));
            lemma_removed_grows(ops@, i + 1);
            assert(fits(ops@[i as int], n as nat));
        }
        let (from, len, gone): (usize, usize, usize) = match op {
            DiffOp::Equal { .. } => (0, 0, 0),
            DiffOp::Delete { old_len, .. } => (0, 0, old_len),
            DiffOp::Insert { new_index, new_len, .. } => (new_index, new_len, 0),
            DiffOp::Replace { old_len, new_index, new_len, .. } => (
                new_index,
                new_len,
                if old_len > new_len {
                    old_len - new_len
                } else {
                    0
                },
            ),
        };
        removed = removed + gone;
        let mut d: usize = 0;
        while d < len
            invariant
                d <= len,
                len > 0 ==> from + len <= n,
                changed@.len() == n,
                before.len() == n,
                forall|j: int|
                    0 <= j < n ==> #[trigger] changed@[j] == (before[j] || from <= j < from + d),
            decreases len - d,
        {
            changed.set(from + d, true);
            d = d + 1;
        }
        proof {
            assert forall|j: int| 0 <= j < n implies #[trigger] changed@[j] == (exists|k: int|
                0 <= k < i + 1 && writes(#[trigger] ops@[k], j)) by {
                assert(changed@[j] == (before[j] || writes(ops@[i as int], j)));
                if before[j] {
                    let k = choose|k: int| 0 <= k < i && writes(#[trigger] ops@[k], j);
                    assert(writes(ops@[k], j));
                }
            }
        }
        i = i + 1;
    }
    proof {
        assert(ops@.take(ops@.len() as int) =~= ops@);
        assert(changed@ =~= changed_lines(ops@, n as nat));
    }
    (changed, removed)
}

/// The difference that given steps make of a new text.
pub fn delta_from_ops(new: &str, ops: &Vec<DiffOp>) -> (r: Option<String>)
    requires
        ops_fit(ops@, text::text_lines(new@).len()),
    ensures
        text::opt_text(r) == delta_text(text::text_lines(new@), ops@),
{
    let lines = text::lines(new);
    let ghost all = text::text_lines(new@);
    let (changed, removed) = apply_ops(ops, lines.len());
    let n = count(&changed);
    if n == 0 && removed == 0 {
        return Some(String::new());
    }
    if lines.len() == 0 || 5 * (n as u128) > 3 * (lines.len() as u128) {
        return None;
    }
    let ind = indent_all(&lines);
    let keep = keep_marked(&ind, &changed);
    let mut out: Vec<String> = Vec::new();
    let mut i: usize = 0;
    proof {
        assert(text::views(out@) =~= delta_lines(all, changed@, 0));
    }
    while i < lines.len()
        invariant
            i <= lines@.len(),
            keep@.len() == lines@.len(),
            changed@.len() == lines@.len(),
            all == text::views(lines@),
            forall|j: int| 0 <= j < lines@.len() ==> #[trigger] keep@[j] == kept(indents(all), changed@, j),
            text::views(out@) == delta_lines(all, changed@, i as int),
        decreases lines@.len() - i,
    {
        broadcast use text::group_views;
        if changed[i] {
            out.push(lines[i].clone());
        } else if keep[i] {
            let mut l = lines[i].clone();
            l.append(" # unchanged");
            out.push(l);
        }
        i = i + 1;
    }
    let ghost body = text::views(out@);
    if removed > 0 {
        let mut note = "# ".to_string();
        note.append(&text::decimal(removed as u128));
        note.append(" line(s) removed");
        out.push(note);
    }
    proof {
        assert(text::views(out@) =~= body + removal_note(removed as nat));
    }
    Some(text::join(&out, "\n"))
}

pub proof fn lemma_aligned_fits(ops: Seq<DiffOp>, a: Seq<Text>, b: Seq<Text>)
    requires
        aligned(ops, a, b),
    ensures
        forall|k: int| 0 <= k < ops.len() ==> fits(#[trigger] ops[k], b.len()),
        removed_lines(ops) <= a.len(),
    decreases ops.len(),
{
    if ops.len() > 0 {
        let op = ops.last();
        let x = a.len() - old_span(op);
        let y = b.len() - new_span(op);
        lemma_aligned_fits(ops.drop_last(), a.take(x), b.take(y));
        assert forall|k: int| 0 <= k < ops.len() implies fits(#[trigger] ops[k], b.len()) by {
            if k < ops.len() - 1 {
                assert(fits(ops.drop_last()[k], y as nat));
            }
        }
    }
}

proof fn lemma_unmarked(marked: Seq<bool>)
    requires
        forall|k: int| 0 <= k < marked.len() ==> !#[trigger] marked[k],
    ensures
        count_marked(marked) == 0,
    decreases marked.len(),
{
    if marked.len() > 0 {
        lemma_unmarked(marked.drop_last());
    }
}

proof fn lemma_all_equal(ops: Seq<DiffOp>, n: nat)
    requires
        forall|k: int| 0 <= k < ops.len() ==> (#[trigger] ops[k]) is Equal,
    ensures
        ops_fit(ops, n),
        count_marked(changed_lines(ops, n)) == 0,
        removed_lines(ops) == 0,
    decreases ops.len(),
{
    lemma_unmarked(changed_lines(ops, n));
    if ops.len() > 0 {
        lemma_all_equal(ops.drop_last(), n);
    }
}

/// A line of the new text that the steps do not write anew stands in the old text: a difference
/// leaves out no line that is new.
pub proof fn law_unchanged_lines_are_old(ops: Seq<DiffOp>, a: Seq<Text>, b: Seq<Text>, i: int)
    requires
        aligned(ops, a, b),
        0 <= i < b.len(),
        !changed_lines(ops, b.len())[i],
    ensures
        a.contains(b[i]),
    decreases ops.len(),
{
    let op = ops.last();
    let x = a.len() - old_span(op);
    let y = b.len() - new_span(op);
    if i < y {
        let rest = ops.drop_last();
        assert forall|k: int| 0 <= k < rest.len() implies !writes(#[trigger] rest[k], i) by {
            assert(!writes(ops[k], i));
        }
        law_unchanged_lines_are_old(rest, a.take(x), b.take(y), i);
        let j = choose|j: int| 0 <= j < a.take(x).len() && a.take(x)[j] == b.take(y)[i];
        assert(a[j] == b[i]);
    } else {
        assert(!writes(ops[ops.len() - 1], i));
        assert(op is Equal);
        assert(b.skip(y)[i - y] == b[i]);
        assert(a.skip(x)[i - y] == a[x + i - y]);
    }
}

/// Where the steps write no line anew and take none away, the two texts have the same lines: the
/// answer that nothing changed is given of equal snapshots only.
pub proof fn law_no_change_means_equal(ops: Seq<DiffOp>, a: Seq<Text>, b: Seq<Text>)
    requires
        aligned(ops, a, b),
        count_marked(changed_lines(ops, b.len())) == 0,
        removed_lines(ops) == 0,
    ensures
        a == b,
    decreases ops.len(),
{
    if ops.len() == 0 {
        assert(a =~= b);
    } else {
        let op = ops.last();
        let x = a.len() - old_span(op);
        let y = b.len() - new_span(op);
        let rest = ops.drop_last();
        let marked = changed_lines(ops, b.len());
        assert forall|i: int| 0 <= i < b.len() implies !#[trigger] marked[i] by {
            lemma_count_zero(marked, i);
        }
        assert forall|i: int, k: int| 0 <= i < y && 0 <= k < rest.len() implies !#[trigger] writes(rest[k], i) by {
            assert(!marked[i]);
            assert(!writes(ops[k], i));
        }
        lemma_unmarked(changed_lines(rest, y as nat));
        law_no_change_means_equal(rest, a.take(x), b.take(y));
        if new_span(op) > 0 && !(op is Equal) {
            assert(writes(ops[ops.len() - 1], y));
            assert(!marked[y]);
        }
        assert(old_span(op) == new_span(op));
        assert(a.skip(x) =~= b.skip(y));
        assert(a =~= a.take(x) + a.skip(x));
        assert(b =~= b.take(y) + b.skip(y));
    }
}

proof fn lemma_count_zero(marked: Seq<bool>, i: int)
    requires
        count_marked(marked) == 0,
        0 <= i < marked.len(),
    ensures
        !marked[i],
    decreases marked.len(),
{
    if i < marked.len() - 1 {
        lemma_count_zero(marked.drop_last(), i);
    }
}

proof fn lemma_aligned_lines(ops: Seq<DiffOp>, a: Seq<Text>, b: Seq<Text>, c: Seq<Text>, d: Seq<Text>)
    requires
        aligned(ops, a, b),
        a.len() == c.len(),
        b.len() == d.len(),
        forall|i: int, j: int|
            0 <= i < a.len() && 0 <= j < b.len() && #[trigger] a[i] == #[trigger] b[j] ==> c[i] == d[j],
    ensures
        aligned(ops, c, d),
    decreases ops.len(),
{
    if ops.len() > 0 {
        let op = ops.last();
        let x = a.len() - old_span(op);
        let y = b.len() - new_span(op);
        if op is Equal {
            assert forall|t: int| 0 <= t < old_span(op) implies #[trigger] c.skip(x)[t] == d.skip(y)[t] by {
                assert(a.skip(x)[t] == a[x + t]);
                assert(b.skip(y)[t] == b[y + t]);
            }
            assert(c.skip(x) =~= d.skip(y));
        }
        assert forall|i: int, j: int|
            0 <= i < x && 0 <= j < y && #[trigger] a.take(x)[i] == #[trigger] b.take(y)[j] implies c.take(x)[i]
            == d.take(y)[j] by {
            assert(a[i] == b[j]);
        }
        lemma_aligned_lines(ops.drop_last(), a.take(x), b.take(y), c.take(x), d.take(y));
    }
}

/// Steps that are aligned with lines and their endings are aligned with the lines.
pub proof fn lemma_aligned_texts(ops: Seq<DiffOp>, old: Text, new: Text)
    requires
        aligned(ops, text::ended_lines(old), text::ended_lines(new)),
    ensures
        aligned(ops, text::text_lines(old), text::text_lines(new)),
{
    let a = text::ended_lines(old);
    let b = text::ended_lines(new);
    assert forall|i: int, j: int|
        0 <= i < a.len() && 0 <= j < b.len() && #[trigger] a[i] == #[trigger] b[j] implies text::text_lines(old)[i]
        == text::text_lines(new)[j] by {
        text::lemma_same_lines(old, new, i, j);
    }
    lemma_aligned_lines(ops, a, b, text::text_lines(old), text::text_lines(new));
}

/// The text has no empty line.
pub open spec fn no_empty_line(s: Text) -> bool {
    forall|i: int| 0 <= i < text::text_lines(s).len() ==> (#[trigger] text::text_lines(s)[i]).len() > 0
}

proof fn lemma_delta_lines(lines: Seq<Text>, changed: Seq<bool>, n: int)
    requires
        0 <= n <= lines.len(),
        forall|i: int| 0 <= i < lines.len() ==> (#[trigger] lines[i]).len() > 0,
    ensures
        forall|i: int|
            0 <= i < delta_lines(lines, changed, n).len() ==> (#[trigger] delta_lines(lines, changed, n)[i]).len() > 0,
        (exists|k: int| 0 <= k < n && #[trigger] changed[k]) ==> delta_lines(lines, changed, n).len() > 0,
    decreases n,
{
    if n > 0 {
        lemma_delta_lines(lines, changed, n - 1);
        assert(lines[n - 1].len() > 0);
        if exists|k: int| 0 <= k < n && #[trigger] changed[k] {
            let k = choose|k: int| 0 <= k < n && #[trigger] changed[k];
            if k < n - 1 {
                assert(changed[k]);
            }
        }
    }
}

proof fn lemma_joined_last(parts: Seq<Text>, sep: Text)
    requires
        parts.len() > 0,
    ensures
        text::joined(parts, sep).len() >= parts.last().len(),
{
}

/// A difference without any text tells of no change, where no line of the new text is empty.
pub proof fn law_empty_delta_means_no_change(lines: Seq<Text>, ops: Seq<DiffOp>)
    requires
        forall|i: int| 0 <= i < lines.len() ==> (#[trigger] lines[i]).len() > 0,
        delta_text(lines, ops) is Some,
        (delta_text(lines, ops)->0).len() == 0,
    ensures
        count_marked(changed_lines(ops, lines.len())) == 0,
        removed_lines(ops) == 0,
{
    let changed = changed_lines(ops, lines.len());
    let removed = removed_lines(ops);
    let body = delta_lines(lines, changed, lines.len() as int);
    let all = body + removal_note(removed);
    lemma_delta_lines(lines, changed, lines.len() as int);
    if removed > 0 {
        reveal_strlit("# ");
        assert(all.last() == removal_note(removed)[0]);
        lemma_joined_last(all, "\n"@);
    } else if count_marked(changed) > 0 {
        if forall|k: int| 0 <= k < changed.len() ==> !#[trigger] changed[k] {
            lemma_unmarked(changed);
        }
        assert(all =~= body);
        assert(all.last() == body[body.len() - 1]);
        lemma_joined_last(all, "\n"@);
    }
}

/// Where the steps, aligned with the lines and their endings, write no line anew and take none away,
/// the two texts are the same, to the last line feed.
pub proof fn law_no_change_means_same_text(ops: Seq<DiffOp>, old: Text, new: Text)
    requires
        aligned(ops, text::ended_lines(old), text::ended_lines(new)),
        count_marked(changed_lines(ops, text::text_lines(new).len())) == 0,
        removed_lines(ops) == 0,
    ensures
        old == new,
{
    law_no_change_means_equal(ops, text::ended_lines(old), text::ended_lines(new));
    text::lemma_flat_lines(old);
    text::lemma_flat_lines(new);
}

/// What is known of the difference between two texts: nothing is said of a text and itself, and, where
/// the new text has no empty line and neither has a carriage return, of no other pair.
proof fn lemma_delta(ops: Seq<DiffOp>, old: Text, new: Text)
    requires
        no_cr(old) && no_cr(new) ==> aligned(ops, text::ended_lines(old), text::ended_lines(new)),
        old == new ==> forall|k: int| 0 <= k < ops.len() ==> (#[trigger] ops[k]) is Equal,
    ensures
        no_cr(old) && no_cr(new) ==> aligned(ops, text::text_lines(old), text::text_lines(new)),
        old == new ==> delta_text(text::text_lines(new), ops) == Some(Seq::<char>::empty()),
        no_cr(old) && no_cr(new) && no_empty_line(new) ==> (delta_text(text::text_lines(new), ops) == Some(
            Seq::<char>::empty(),
        ) <==> old == new),
{
    let lines = text::text_lines(new);
    if old == new {
        lemma_all_equal(ops, lines.len());
    }
    if no_cr(old) && no_cr(new) {
        lemma_aligned_texts(ops, old, new);
        if no_empty_line(new) && delta_text(lines, ops) == Some(Seq::<char>::empty()) {
            law_empty_delta_means_no_change(lines, ops);
            law_no_change_means_same_text(ops, old, new);
        }
    }
}

/// The lines of `new` that changed against `old`, below their ancestors. `None` when so much
/// changed that the whole snapshot is the better answer.
pub fn snapshot_delta(old: &str, new: &str) -> (r: Option<String>)
    requires
        ops_fit(line_ops_of(old@, new@), text::text_lines(new@).len()),
    ensures
        text::opt_text(r) == delta_text(text::text_lines(new@), line_ops_of(old@, new@)),
        no_cr(old@) && no_cr(new@) ==> aligned(
            line_ops_of(old@, new@),
            text::text_lines(old@),
            text::text_lines(new@),
        ),
        no_cr(old@) && no_cr(new@) ==> aligned(
            line_ops_of(old@, new@),
            text::ended_lines(old@),
            text::ended_lines(new@),
        ),
        old@ == new@ ==> text::opt_text(r) == Some(Seq::<char>::empty()),
        no_cr(old@) && no_cr(new@) && no_empty_line(new@) ==> (text::opt_text(r) == Some(Seq::<char>::empty()) <==> old@
            == new@),
{
    let ops = line_ops(old, new);
    proof {
        lemma_delta(ops@, old@, new@);
    }
    delta_from_ops(new, &ops)
}

/// `snapshot_delta` where the steps between the two texts write within the new text's lines, as
/// they do in texts without carriage returns; `None` where they do not.
pub fn checked_delta(old: &str, new: &str) -> (r: Option<Option<String>>)
    ensures
        r is Some == ops_fit(line_ops_of(old@, new@), text::text_lines(new@).len()),
        r is Some ==> text::opt_text(r->0) == delta_text(text::text_lines(new@), line_ops_of(old@, new@)),
        no_cr(old@) && no_cr(new@) ==> r is Some,
        no_cr(old@) && no_cr(new@) ==> aligned(
            line_ops_of(old@, new@),
            text::text_lines(old@),
            text::text_lines(new@),
        ),
        no_cr(old@) && no_cr(new@) ==> aligned(
            line_ops_of(old@, new@),
            text::ended_lines(old@),
            text::ended_lines(new@),
        ),
        old@ == new@ ==> r is Some && text::opt_text(r->0) == Some(Seq::<char>::empty()),
        no_cr(old@) && no_cr(new@) && no_empty_line(new@) ==> (text::opt_text(r->0) == Some(Seq::<char>::empty()) <==> old@
            == new@),
{
    let ops = line_ops(old, new);
    let lines = text::lines(new);
    let size: usize = text::bytes(old);
    proof {
        lemma_delta(ops@, old@, new@);
        if no_cr(old@) && no_cr(new@) {
            lemma_aligned_fits(ops@, text::text_lines(old@), text::text_lines(new@));
            text::lemma_lines_count(old@);
            text::lemma_chars_bytes(old@);
        }
        if old@ == new@ {
            lemma_all_equal(ops@, text::text_lines(new@).len());
        }
    }
    if check_ops(&ops, lines.len()) {
        Some(snapshot_delta(old, new))
    } else {
        None
    }
}

// ---------------------------------------------------------------------- what differences and searches show

proof fn lemma_spaces(n: nat, rest: Text)
    requires
        rest.len() > 0 ==> !text::is_space(rest[0]),
    ensures
        text::trimmed_start(Seq::new(n, |i: int| ' ') + rest) == rest,
        text::byte_len(Seq::new(n, |i: int| ' ')) == n,
    decreases n,
{
    let s = Seq::new(n, |i: int| ' ');
    if n == 0 {
        assert(s + rest =~= rest);
        assert(s =~= Seq::<char>::empty());
    } else {
        let t = Seq::new((n - 1) as nat, |i: int| ' ');
        lemma_spaces((n - 1) as nat, rest);
        assert((s + rest).skip(1) =~= t + rest);
        assert((s + rest)[0] == ' ');
        assert(s =~= t.push(' '));
        text::lemma_bytes_push(t, ' ');
    }
}

/// A line that begins with `n` spaces and then something else is indented by `n`.
pub proof fn law_spaces_indent(n: nat, rest: Text)
    requires
        rest.len() > 0 ==> !text::is_space(rest[0]),
    ensures
        indent_of(Seq::new(n, |i: int| ' ') + rest) == n,
{
    lemma_spaces(n, rest);
    text::lemma_bytes_add(Seq::new(n, |i: int| ' '), rest);
}

proof fn lemma_kept(lines: Seq<Text>, marked: Seq<bool>, j: int)
    requires
        marked.len() == lines.len(),
        0 <= j < lines.len(),
    ensures
        kept(indents(lines), marked, j) == (marked[j] || exists|i: int|
            j < i < lines.len() && #[trigger] marked[i] && forall|k: int|
                j < k <= i ==> indent_of(lines[j]) < indent_of(#[trigger] lines[k])),
{
    let ind = indents(lines);
    if kept(ind, marked, j) {
        let i = choose|i: int| 0 <= i < marked.len() && #[trigger] marked[i] && leads_to(ind, j, i);
        if j < i {
            assert forall|k: int| j < k <= i implies indent_of(lines[j]) < indent_of(#[trigger] lines[k]) by {
                assert(ind[j] < ind[k]);
            }
        }
    }
    if marked[j] {
        assert(leads_to(ind, j, j));
    }
    if exists|i: int|
        j < i < lines.len() && #[trigger] marked[i] && forall|k: int|
            j < k <= i ==> indent_of(lines[j]) < indent_of(#[trigger] lines[k]) {
        let i = choose|i: int|
            j < i < lines.len() && #[trigger] marked[i] && forall|k: int|
                j < k <= i ==> indent_of(lines[j]) < indent_of(#[trigger] lines[k]);
        assert forall|k: int| j < k <= i implies ind[j] < #[trigger] ind[k] by {
            assert(indent_of(lines[j]) < indent_of(lines[k]));
        }
        assert(leads_to(ind, j, i));
    }
}

proof fn lemma_delta_shows(
    lines: Seq<Text>,
    changed: Seq<bool>,
    n: int,
    chosen: spec_fn(int) -> bool,
    show: spec_fn(int) -> Text,
)
    requires
        0 <= n <= lines.len(),
        changed.len() == lines.len(),
        forall|j: int| 0 <= j < lines.len() ==> #[trigger] chosen(j) == kept(indents(lines), changed, j),
        forall|j: int|
            0 <= j < lines.len() ==> #[trigger] show(j) == if changed[j] {
                lines[j]
            } else {
                lines[j] + " # unchanged"@
            },
    ensures
        positions::shows(delta_lines(lines, changed, n), n, chosen, show),
    decreases n,
{
    let d = delta_lines(lines, changed, n);
    if n == 0 {
        positions::lemma_shows_none(d, chosen, show);
    } else {
        lemma_delta_shows(lines, changed, n - 1, chosen, show);
        lemma_kept(lines, changed, n - 1);
        assert(chosen(n - 1) == kept(indents(lines), changed, n - 1));
        assert(show(n - 1) == if changed[n - 1] {
            lines[n - 1]
        } else {
            lines[n - 1] + " # unchanged"@
        });
        positions::lemma_shows_next(delta_lines(lines, changed, n - 1), d, n - 1, chosen, show);
    }
}

/// The lines of a difference are the lines of the new text that changed and the ancestors of such
/// lines, in the order of the new text, each once and no other: a line is an ancestor where it stands
/// above and is indented less than every line from there to the changed one. A changed line stands as
/// it is; an ancestor that did not change says so.
pub proof fn law_delta_shows_changes_below_ancestors(lines: Seq<Text>, changed: Seq<bool>)
    requires
        changed.len() == lines.len(),
    ensures
        positions::shows(
            delta_lines(lines, changed, lines.len() as int),
            lines.len() as int,
            |j: int|
                changed[j] || exists|i: int|
                    j < i < lines.len() && #[trigger] changed[i] && forall|k: int|
                        j < k <= i ==> indent_of(lines[j]) < indent_of(#[trigger] lines[k]),
            |j: int|
                if changed[j] {
                    lines[j]
                } else {
                    lines[j] + " # unchanged"@
                },
        ),
{
    let chosen = |j: int|
        changed[j] || exists|i: int|
            j < i < lines.len() && #[trigger] changed[i] && forall|k: int|
                j < k <= i ==> indent_of(lines[j]) < indent_of(#[trigger] lines[k]);
    let show = |j: int|
        if changed[j] {
            lines[j]
        } else {
            lines[j] + " # unchanged"@
        };
    assert forall|j: int| 0 <= j < lines.len() implies #[trigger] chosen(j) == kept(indents(lines), changed, j) by {
        lemma_kept(lines, changed, j);
    }
    lemma_delta_shows(lines, changed, lines.len() as int, chosen, show);
}

/// Every line that changed is in the difference, and so is every ancestor of a line that changed,
/// however deep it stands, marked as unchanged where it did not change itself.
pub proof fn law_delta_keeps_ancestors(lines: Seq<Text>, changed: Seq<bool>, j: int, i: int)
    requires
        changed.len() == lines.len(),
        0 <= j <= i < lines.len(),
        changed[i],
        forall|k: int| j < k <= i ==> indent_of(lines[j]) < indent_of(#[trigger] lines[k]),
    ensures
        delta_lines(lines, changed, lines.len() as int).contains(lines[i]),
        delta_lines(lines, changed, lines.len() as int).contains(
            if changed[j] {
                lines[j]
            } else {
                lines[j] + " # unchanged"@
            },
        ),
{
    let chosen = |j: int|
        changed[j] || exists|i: int|
            j < i < lines.len() && #[trigger] changed[i] && forall|k: int|
                j < k <= i ==> indent_of(lines[j]) < indent_of(#[trigger] lines[k]);
    let show = |j: int|
        if changed[j] {
            lines[j]
        } else {
            lines[j] + " # unchanged"@
        };
    let d = delta_lines(lines, changed, lines.len() as int);
    law_delta_shows_changes_below_ancestors(lines, changed);
    positions::lemma_shown(d, lines.len() as int, chosen, show, i);
    positions::lemma_shown(d, lines.len() as int, chosen, show, j);
}

proof fn lemma_found_shows(
    lines: Seq<Text>,
    marked: Seq<bool>,
    n: int,
    chosen: spec_fn(int) -> bool,
    show: spec_fn(int) -> Text,
)
    requires
        0 <= n <= lines.len(),
        marked.len() == lines.len(),
        forall|j: int| 0 <= j < lines.len() ==> #[trigger] chosen(j) == kept(indents(lines), marked, j),
        forall|j: int| 0 <= j < lines.len() ==> #[trigger] show(j) == lines[j],
    ensures
        positions::shows(kept_lines(lines, marked, n), n, chosen, show),
    decreases n,
{
    let d = kept_lines(lines, marked, n);
    if n == 0 {
        positions::lemma_shows_none(d, chosen, show);
    } else {
        lemma_found_shows(lines, marked, n - 1, chosen, show);
        assert(chosen(n - 1) == kept(indents(lines), marked, n - 1));
        assert(show(n - 1) == lines[n - 1]);
        positions::lemma_shows_next(kept_lines(lines, marked, n - 1), d, n - 1, chosen, show);
    }
}

/// A search that finds something tells how many lines match and shows, in the order of the snapshot,
/// the lines that match and the ancestors of such lines, and no other. One that finds nothing says
/// so.
pub proof fn law_search_shows_matches_below_ancestors(lines: Seq<Text>, marked: Seq<bool>)
    requires
        marked.len() == lines.len(),
    ensures
        (forall|j: int| 0 <= j < lines.len() ==> !#[trigger] marked[j]) ==> found_text(lines, marked) == "No matches"@,
        (exists|j: int| 0 <= j < lines.len() && #[trigger] marked[j]) ==> exists|shown: Seq<Text>|
            found_text(lines, marked) == text::dec(count_marked(marked)) + " match(es):\n```yaml\n"@ + #[trigger] text::joined(
                shown,
                "\n"@,
            ) + "\n```"@ && positions::shows(
                shown,
                lines.len() as int,
                |j: int|
                    marked[j] || exists|i: int|
                        j < i < lines.len() && #[trigger] marked[i] && forall|k: int|
                            j < k <= i ==> indent_of(lines[j]) < indent_of(#[trigger] lines[k]),
                |j: int| lines[j],
            ),
{
    if forall|j: int| 0 <= j < lines.len() ==> !#[trigger] marked[j] {
        lemma_unmarked(marked);
    } else {
        let m = choose|j: int| 0 <= j < lines.len() && #[trigger] marked[j];
        if count_marked(marked) == 0 {
            lemma_count_zero(marked, m);
        }
        let chosen = |j: int|
            marked[j] || exists|i: int|
                j < i < lines.len() && #[trigger] marked[i] && forall|k: int|
                    j < k <= i ==> indent_of(lines[j]) < indent_of(#[trigger] lines[k]);
        let show = |j: int| lines[j];
        assert forall|j: int| 0 <= j < lines.len() implies #[trigger] chosen(j) == kept(
            indents(lines),
            marked,
            j,
        ) by {
            lemma_kept(lines, marked, j);
        }
        lemma_found_shows(lines, marked, lines.len() as int, chosen, show);
        let shown = kept_lines(lines, marked, lines.len() as int);
        assert(found_text(lines, marked) == text::dec(count_marked(marked)) + " match(es):\n```yaml\n"@ + text::joined(
            shown,
            "\n"@,
        ) + "\n```"@);
    }
}

/// The number of marked lines is the number of positions that are marked.
pub proof fn law_marks_are_counted(marked: Seq<bool>, pos: Seq<int>)
    requires
        positions::picks(pos, marked.len() as int, |j: int| marked[j]),
    ensures
        count_marked(marked) == pos.len(),
    decreases marked.len(),
{
    let f = |j: int| marked[j];
    let n = marked.len() as int;
    if n == 0 {
        if pos.len() > 0 {
            assert(0 <= pos[0] < n);
        }
    } else {
        let before = marked.drop_last();
        let g = |j: int| before[j];
        let rest = if marked.last() {
            pos.drop_last()
        } else {
            pos
        };
        if marked.last() {
            assert(f(n - 1));
            let p = choose|p: int| 0 <= p < pos.len() && pos[p] == n - 1;
            if p < pos.len() - 1 {
                assert(pos[p] < pos[pos.len() - 1]);
            }
            assert(pos.last() == n - 1);
        }
        assert forall|p: int| 0 <= p < rest.len() implies 0 <= #[trigger] rest[p] < n - 1 && g(rest[p]) by {
            assert(rest[p] == pos[p] && f(pos[p]));
            if marked.last() {
                assert(pos[p] < pos[pos.len() - 1]);
            }
        }
        assert forall|j: int| 0 <= j < n - 1 && #[trigger] g(j) implies rest.contains(j) by {
            assert(f(j));
            let p = choose|p: int| 0 <= p < pos.len() && pos[p] == j;
            assert(rest[p] == j);
        }
        law_marks_are_counted(before, rest);
    }
}

/// The lines that steps take away are counted step by step: a deletion takes away its lines, a
/// replacement those that it does not replace, and no other step takes any away.
pub proof fn law_removed_lines_add_up(ops: Seq<DiffOp>, op: DiffOp)
    ensures
        removed_lines(Seq::empty()) == 0,
        removed_lines(ops.push(op)) == removed_lines(ops) + match op {
            DiffOp::Delete { old_len, .. } => old_len as int,
            DiffOp::Replace { old_len, new_len, .. } if old_len > new_len => old_len - new_len,
            _ => 0,
        },
{
    assert(ops.push(op).drop_last() =~= ops);
}

/// A difference is nothing where no line was written anew or taken away, is not made where more than
/// three fifths of the lines were written anew, and otherwise shows the changed lines below their
/// ancestors and then tells how many lines were taken away. A line is written anew where a step that
/// inserts or replaces goes over it; `marks` are the positions of such lines.
pub proof fn law_delta_text(lines: Seq<Text>, ops: Seq<DiffOp>, changed: Seq<bool>, marks: Seq<int>)
    requires
        changed.len() == lines.len(),
        forall|i: int|
            0 <= i < lines.len() ==> #[trigger] changed[i] == exists|k: int|
                0 <= k < ops.len() && match #[trigger] ops[k] {
                    DiffOp::Insert { new_index, new_len, .. } => new_index <= i < new_index + new_len,
                    DiffOp::Replace { new_index, new_len, .. } => new_index <= i < new_index + new_len,
                    _ => false,
                },
        positions::picks(marks, lines.len() as int, |j: int| changed[j]),
    ensures
        marks.len() == 0 && removed_lines(ops) == 0 ==> delta_text(lines, ops) == Some(Seq::<char>::empty()),
        !(marks.len() == 0 && removed_lines(ops) == 0) && (lines.len() == 0 || 5 * marks.len() > 3 * lines.len())
            ==> delta_text(lines, ops) is None,
        !(marks.len() == 0 && removed_lines(ops) == 0) && !(lines.len() == 0 || 5 * marks.len() > 3 * lines.len())
            ==> delta_text(lines, ops) == Some(
            text::joined(
                delta_lines(lines, changed, lines.len() as int) + (if removed_lines(ops) > 0 {
                    seq!["# "@ + text::dec(removed_lines(ops)) + " line(s) removed"@]
                } else {
                    Seq::empty()
                }),
                "\n"@,
            ),
        ),
{
    let all = changed_lines(ops, lines.len());
    assert forall|i: int| 0 <= i < lines.len() implies all[i] == #[trigger] changed[i] by {
        if all[i] {
            let k = choose|k: int| 0 <= k < ops.len() && writes(#[trigger] ops[k], i);
            assert(match ops[k] {
                DiffOp::Insert { new_index, new_len, .. } => new_index <= i < new_index + new_len,
                DiffOp::Replace { new_index, new_len, .. } => new_index <= i < new_index + new_len,
                _ => false,
            });
        }
        if changed[i] {
            let k = choose|k: int|
                0 <= k < ops.len() && match #[trigger] ops[k] {
                    DiffOp::Insert { new_index, new_len, .. } => new_index <= i < new_index + new_len,
                    DiffOp::Replace { new_index, new_len, .. } => new_index <= i < new_index + new_len,
                    _ => false,
                };
            assert(writes(ops[k], i));
        }
    }
    assert(all =~= changed);
    law_marks_are_counted(changed, marks);
}

} // verus!
