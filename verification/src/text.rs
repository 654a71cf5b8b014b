//! Text as a sequence of characters: the operations that the rest of the crate reads and
//! builds its strings with, each stated over `Seq<char>`.

use vstd::prelude::*;
use vstd::string::*;
use vstd::utf8::*;

verus! {

/// What a string holds.
pub type Text = Seq<char>;

/// `String::push` of std: puts `c` behind the last character and changes nothing else.
pub assume_specification[ String::push ](s: &mut String, c: char)
    ensures
        final(s)@ == old(s)@.push(c),
;

// ---------------------------------------------------------------------- views of collections

/// Each element by its view.
pub open spec fn views<T: View>(s: Seq<T>) -> Seq<T::V> {
    s.map_values(|x: T| x@)
}

/// The text inside an option.
pub open spec fn opt_text(o: Option<String>) -> Option<Text> {
    match o {
        Some(s) => Some(s@),
        None => None,
    }
}

pub broadcast proof fn lemma_views_push<T: View>(s: Seq<T>, x: T)
    ensures
        #[trigger] views(s.push(x)) == views(s).push(x@),
{
    assert(views(s.push(x)) =~= views(s).push(x@));
}

pub broadcast proof fn lemma_views_empty<T: View>()
    ensures
        #[trigger] views(Seq::<T>::empty()) == Seq::<T::V>::empty(),
{
    assert(views(Seq::<T>::empty()) =~= Seq::<T::V>::empty());
}

pub broadcast proof fn lemma_views_update<T: View>(s: Seq<T>, i: int, x: T)
    requires
        0 <= i < s.len(),
    ensures
        #[trigger] views(s.update(i, x)) == views(s).update(i, x@),
{
    assert(views(s.update(i, x)) =~= views(s).update(i, x@));
}

pub broadcast proof fn lemma_views_add<T: View>(a: Seq<T>, b: Seq<T>)
    ensures
        #[trigger] views(a + b) == views(a) + views(b),
{
    assert(views(a + b) =~= views(a) + views(b));
}

/// The position of the first element that is of a kind.
pub open spec fn first_where<T>(s: Seq<T>, f: spec_fn(T) -> bool) -> Option<int>
    decreases s.len(),
{
    if s.len() == 0 {
        None
    } else {
        match first_where(s.drop_last(), f) {
            Some(i) => Some(i),
            None => if f(s.last()) {
                Some(s.len() - 1)
            } else {
                None
            },
        }
    }
}

pub proof fn lemma_first_where<T>(s: Seq<T>, f: spec_fn(T) -> bool)
    ensures
        match first_where(s, f) {
            Some(i) => 0 <= i < s.len() && f(s[i]) && forall|k: int| 0 <= k < i ==> !f(#[trigger] s[k]),
            None => forall|k: int| 0 <= k < s.len() ==> !f(#[trigger] s[k]),
        },
    decreases s.len(),
{
    if s.len() > 0 {
        lemma_first_where(s.drop_last(), f);
        assert forall|k: int| 0 <= k < s.len() - 1 implies #[trigger] s[k] == s.drop_last()[k] by {}
    }
}

/// A search that ends at the first element of a kind is right.
pub proof fn lemma_found<T>(s: Seq<T>, f: spec_fn(T) -> bool, i: int)
    requires
        0 <= i < s.len(),
        f(s[i]),
        forall|k: int| 0 <= k < i ==> !f(#[trigger] s[k]),
    ensures
        first_where(s, f) == Some(i),
{
    lemma_first_where(s, f);
    let r = first_where(s, f);
    if r is Some && r->0 < i {
        assert(!f(s[r->0]));
    }
}

pub broadcast group group_views {
    lemma_views_push,
    lemma_views_empty,
    lemma_views_update,
    lemma_views_add,
}

// ---------------------------------------------------------------------- between strings and vectors

/// The characters of `s`.
pub fn chars_of(s: &str) -> (r: Vec<char>)
    ensures
        r@ == s@,
{
    let mut out: Vec<char> = Vec::new();
    for c in it: s.chars()
        invariant
            it.seq() == s@,
            out@ == s@.take(it.index() as int),
    {
        proof {
            assert(s@.take(it.index() + 1) =~= s@.take(it.index() as int).push(c));
        }
        out.push(c);
    }
    proof {
        assert(s@.take(s@.len() as int) =~= s@);
    }
    out
}

/// The characters `from..to` of `v` as a string.
pub fn string_of(v: &Vec<char>, from: usize, to: usize) -> (r: String)
    requires
        from <= to <= v@.len(),
    ensures
        r@ == v@.subrange(from as int, to as int),
{
    let mut out = String::new();
    let mut i: usize = from;
    while i < to
        invariant
            from <= i <= to <= v@.len(),
            out@ == v@.subrange(from as int, i as int),
        decreases to - i,
    {
        proof {
            assert(v@.subrange(from as int, i + 1) =~= v@.subrange(from as int, i as int).push(v@[i as int]));
        }
        out.push(v[i]);
        i = i + 1;
    }
    out
}

/// Whether two strings hold the same text.
pub fn same(a: &str, b: &str) -> (r: bool)
    ensures
        r == (a@ == b@),
{
    let x = a.as_bytes();
    let y = b.as_bytes();
    proof {
        encode_utf8_decode_utf8(a@);
        encode_utf8_decode_utf8(b@);
    }
    if x.len() != y.len() {
        return false;
    }
    let mut i: usize = 0;
    while i < x.len()
        invariant
            x@ == encode_utf8(a@),
            y@ == encode_utf8(b@),
            x@.len() == y@.len(),
            i <= x@.len(),
            forall|k: int| 0 <= k < i ==> x@[k] == y@[k],
        decreases x@.len() - i,
    {
        if x[i] != y[i] {
            return false;
        }
        i = i + 1;
    }
    proof {
        assert(x@ =~= y@);
    }
    true
}

/// `s` is one of the texts.
pub fn one_of(s: &str, v: &Vec<String>) -> (r: bool)
    ensures
        r == views(v@).contains(s@),
{
    let mut i: usize = 0;
    while i < v.len()
        invariant
            i <= v@.len(),
            forall|k: int| 0 <= k < i ==> (#[trigger] v@[k])@ != s@,
        decreases v@.len() - i,
    {
        if same(&v[i], s) {
            proof {
                assert(views(v@)[i as int] == s@);
            }
            return true;
        }
        i = i + 1;
    }
    proof {
        assert forall|k: int| 0 <= k < v@.len() implies views(v@)[k] != s@ by {
            assert(views(v@)[k] == v@[k]@);
        }
    }
    false
}

/// A copy of the strings.
pub fn copies(v: &Vec<String>) -> (r: Vec<String>)
    ensures
        views(r@) == views(v@),
{
    let mut out: Vec<String> = Vec::new();
    let mut i: usize = 0;
    while i < v.len()
        invariant
            i <= v@.len(),
            out@.len() == i,
            forall|k: int| 0 <= k < i ==> (#[trigger] out@[k])@ == v@[k]@,
        decreases v@.len() - i,
    {
        out.push(v[i].clone());
        i = i + 1;
    }
    proof {
        assert(views(out@) =~= views(v@));
    }
    out
}

/// A copy of an optional string.
pub fn copy_opt(o: &Option<String>) -> (r: Option<String>)
    ensures
        opt_text(r) == opt_text(*o),
{
    match o {
        Some(s) => Some(s.clone()),
        None => None,
    }
}

/// Two texts one behind the other.
pub fn concat(a: &str, b: &str) -> (r: String)
    ensures
        r@ == a@ + b@,
{
    let mut s = a.to_string();
    s.append(b);
    s
}

/// Whether an optional string is there and holds the text `b`.
pub fn same_opt(a: &Option<String>, b: &str) -> (r: bool)
    ensures
        r == (opt_text(*a) == Some(b@)),
{
    match a {
        Some(s) => same(s, b),
        None => false,
    }
}

/// `a` stands before `b` in the order of characters.
pub open spec fn text_before(a: Text, b: Text) -> bool
    decreases a.len(),
{
    if b.len() == 0 {
        false
    } else if a.len() == 0 {
        true
    } else if a[0] != b[0] {
        (a[0] as u32) < (b[0] as u32)
    } else {
        text_before(a.skip(1), b.skip(1))
    }
}

pub fn before(a: &str, b: &str) -> (r: bool)
    ensures
        r == text_before(a@, b@),
{
    let x = chars_of(a);
    let y = chars_of(b);
    let mut i: usize = 0;
    proof {
        assert(x@.skip(0) =~= a@);
        assert(y@.skip(0) =~= b@);
    }
    while i < x.len() && i < y.len()
        invariant
            i <= x@.len(),
            i <= y@.len(),
            text_before(a@, b@) == text_before(x@.skip(i as int), y@.skip(i as int)),
        decreases x@.len() - i,
    {
        proof {
            assert(x@.skip(i as int).skip(1) =~= x@.skip(i + 1));
            assert(y@.skip(i as int).skip(1) =~= y@.skip(i + 1));
        }
        if x[i] != y[i] {
            return (x[i] as u32) < (y[i] as u32);
        }
        i = i + 1;
    }
    i < y.len()
}

// ---------------------------------------------------------------------- parts

/// `p` stands in `s` at position `i`.
pub open spec fn occurs_at(s: Text, p: Text, i: int) -> bool {
    0 <= i && i + p.len() <= s.len() && s.subrange(i, i + p.len()) == p
}

pub open spec fn text_starts(s: Text, p: Text) -> bool {
    occurs_at(s, p, 0)
}

pub open spec fn text_ends(s: Text, p: Text) -> bool {
    occurs_at(s, p, s.len() - p.len())
}

pub open spec fn text_has(s: Text, p: Text) -> bool {
    exists|i: int| occurs_at(s, p, i)
}

/// The first position from `i` on at which `p` stands in `s`.
pub open spec fn find_from(s: Text, p: Text, i: int) -> Option<int>
    decreases s.len() + 1 - i,
{
    if i < 0 || i + p.len() > s.len() {
        None
    } else if occurs_at(s, p, i) {
        Some(i)
    } else {
        find_from(s, p, i + 1)
    }
}

/// What stands before and behind the first `p` in `s`.
pub open spec fn cut_at(s: Text, p: Text) -> Option<(Text, Text)> {
    match find_from(s, p, 0) {
        Some(i) => Some((s.take(i), s.skip(i + p.len()))),
        None => None,
    }
}

pub proof fn lemma_find_from(s: Text, p: Text, i: int)
    requires
        0 <= i,
    ensures
        match find_from(s, p, i) {
            Some(k) => i <= k && occurs_at(s, p, k) && forall|j: int| i <= j < k ==> !occurs_at(s, p, j),
            None => forall|j: int| i <= j ==> !occurs_at(s, p, j),
        },
    decreases s.len() + 1 - i,
{
    if i + p.len() <= s.len() && !occurs_at(s, p, i) {
        lemma_find_from(s, p, i + 1);
    }
}

fn occurs(s: &Vec<char>, p: &Vec<char>, i: usize) -> (r: bool)
    ensures
        r == occurs_at(s@, p@, i as int),
{
    if i > s.len() || s.len() - i < p.len() {
        return false;
    }
    let mut k: usize = 0;
    while k < p.len()
        invariant
            k <= p@.len(),
            i + p@.len() <= s@.len() <= usize::MAX,
            forall|j: int| 0 <= j < k ==> s@[i + j] == p@[j],
        decreases p@.len() - k,
    {
        if s[i + k] != p[k] {
            proof {
                let sub = s@.subrange(i as int, i + p@.len());
                assert(sub[k as int] == s@[i + k]);
            }
            return false;
        }
        k = k + 1;
    }
    proof {
        assert(s@.subrange(i as int, i + p@.len()) =~= p@);
    }
    true
}

pub fn starts_with(s: &str, p: &str) -> (r: bool)
    ensures
        r == text_starts(s@, p@),
{
    occurs(&chars_of(s), &chars_of(p), 0)
}

pub fn ends_with(s: &str, p: &str) -> (r: bool)
    ensures
        r == text_ends(s@, p@),
{
    let a = chars_of(s);
    let b = chars_of(p);
    if a.len() < b.len() {
        return false;
    }
    occurs(&a, &b, a.len() - b.len())
}

fn find_in(a: &Vec<char>, b: &Vec<char>) -> (r: Option<usize>)
    ensures
        match r {
            Some(i) => find_from(a@, b@, 0) == Some(i as int),
            None => find_from(a@, b@, 0) is None,
        },
{
    let mut i: usize = 0;
    while i <= a.len() && b.len() <= a.len() - i
        invariant
            find_from(a@, b@, 0) == find_from(a@, b@, i as int),
        decreases a@.len() + 1 - i,
    {
        if occurs(a, b, i) {
            return Some(i);
        }
        proof {
            if b@.len() == 0 {
                assert(a@.subrange(i as int, i as int) =~= b@);
            }
        }
        i = i + 1;
    }
    None
}

pub fn contains(s: &str, p: &str) -> (r: bool)
    ensures
        r == text_has(s@, p@),
{
    proof {
        lemma_find_from(s@, p@, 0);
    }
    match find_in(&chars_of(s), &chars_of(p)) {
        Some(i) => {
            proof {
                assert(occurs_at(s@, p@, i as int));
            }
            true
        },
        None => {
            proof {
                assert forall|j: int| !occurs_at(s@, p@, j) by {}
            }
            false
        },
    }
}

pub fn split_once(s: &str, p: &str) -> (r: Option<(String, String)>)
    ensures
        match r {
            Some((a, b)) => cut_at(s@, p@) == Some((a@, b@)),
            None => cut_at(s@, p@) is None,
        },
{
    let a = chars_of(s);
    let b = chars_of(p);
    proof {
        lemma_find_from(s@, p@, 0);
    }
    match find_in(&a, &b) {
        Some(i) => {
            let end: usize = a.len();
            proof {
                assert(a@.subrange(0, i as int) =~= s@.take(i as int));
                assert(a@.subrange(i + b@.len(), a@.len() as int) =~= s@.skip(i + p@.len()));
            }
            Some((string_of(&a, 0, i), string_of(&a, i + b.len(), end)))
        },
        None => None,
    }
}

/// The first position from `i` on at which a character of `seps` stands.
pub open spec fn find_any(s: Text, seps: Text, i: int) -> Option<int>
    decreases s.len() - i,
{
    if i < 0 || i >= s.len() {
        None
    } else if seps.contains(s[i]) {
        Some(i)
    } else {
        find_any(s, seps, i + 1)
    }
}

/// What stands before and behind the first character of `seps` in `s`.
pub open spec fn cut_at_any(s: Text, seps: Text) -> Option<(Text, Text)> {
    match find_any(s, seps, 0) {
        Some(i) => Some((s.take(i), s.skip(i + 1))),
        None => None,
    }
}

pub fn split_once_any(s: &str, seps: &str) -> (r: Option<(String, String)>)
    ensures
        match r {
            Some((a, b)) => cut_at_any(s@, seps@) == Some((a@, b@)),
            None => cut_at_any(s@, seps@) is None,
        },
{
    let a = chars_of(s);
    let b = chars_of(seps);
    let mut i: usize = 0;
    while i < a.len()
        invariant
            i <= a@.len(),
            a@ == s@,
            b@ == seps@,
            find_any(s@, seps@, 0) == find_any(s@, seps@, i as int),
        decreases a@.len() - i,
    {
        if has_char(&b, a[i]) {
            proof {
                assert(a@.subrange(0, i as int) =~= s@.take(i as int));
                assert(a@.subrange(i + 1, a@.len() as int) =~= s@.skip(i + 1));
            }
            return Some((string_of(&a, 0, i), string_of(&a, i + 1, a.len())));
        }
        i = i + 1;
    }
    None
}

/// `s` from character `n` on.
pub fn skip_chars(s: &str, n: usize) -> (r: String)
    requires
        n <= s@.len(),
    ensures
        r@ == s@.skip(n as int),
{
    let a = chars_of(s);
    proof {
        assert(a@.subrange(n as int, a@.len() as int) =~= s@.skip(n as int));
    }
    string_of(&a, n, a.len())
}

/// The first `n` characters, or all where there are fewer.
pub open spec fn first_chars(s: Text, n: nat) -> Text {
    if n < s.len() {
        s.take(n as int)
    } else {
        s
    }
}

pub fn take_chars(s: &str, n: usize) -> (r: String)
    ensures
        r@ == first_chars(s@, n as nat),
{
    let a = chars_of(s);
    let to = if n < a.len() { n } else { a.len() };
    proof {
        assert(a@.subrange(0, to as int) =~= first_chars(s@, n as nat));
    }
    string_of(&a, 0, to)
}

/// `s` without `p` in front.
pub open spec fn without_prefix(s: Text, p: Text) -> Option<Text> {
    if text_starts(s, p) {
        Some(s.skip(p.len() as int))
    } else {
        None
    }
}

pub fn strip_prefix(s: &str, p: &str) -> (r: Option<String>)
    ensures
        opt_text(r) == without_prefix(s@, p@),
{
    let a = chars_of(s);
    let b = chars_of(p);
    if occurs(&a, &b, 0) {
        proof {
            assert(a@.subrange(b@.len() as int, a@.len() as int) =~= s@.skip(p@.len() as int));
        }
        Some(string_of(&a, b.len(), a.len()))
    } else {
        None
    }
}

/// `s` with every `p` replaced by `by`, from the front on.
pub open spec fn replaced(s: Text, p: Text, by: Text) -> Text
    decreases s.len(),
{
    if s.len() == 0 || p.len() == 0 {
        s
    } else if text_starts(s, p) {
        by + replaced(s.skip(p.len() as int), p, by)
    } else {
        seq![s[0]] + replaced(s.skip(1), p, by)
    }
}

pub fn replace(s: &str, p: &str, by: &str) -> (r: String)
    requires
        p@.len() > 0,
    ensures
        r@ == replaced(s@, p@, by@),
{
    let a = chars_of(s);
    let b = chars_of(p);
    let mut out = String::new();
    let mut i: usize = 0;
    proof {
        assert(a@.skip(0) =~= s@);
        assert(out@ + replaced(s@, p@, by@) =~= replaced(s@, p@, by@));
    }
    while i < a.len()
        invariant
            i <= a@.len(),
            b@ == p@,
            p@.len() > 0,
            out@ + replaced(a@.skip(i as int), p@, by@) == replaced(s@, p@, by@),
        decreases a@.len() - i,
    {
        let ghost rest = a@.skip(i as int);
        let ghost before = out@;
        let end: usize = a.len();
        if occurs(&a, &b, i) {
            proof {
                assert(rest.subrange(0, p@.len() as int) =~= a@.subrange(i as int, i + p@.len()));
                assert(rest.skip(p@.len() as int) =~= a@.skip(i + p@.len()));
            }
            out.append(by);
            i = i + b.len();
        } else {
            proof {
                if text_starts(rest, p@) {
                    assert(a@.subrange(i as int, i + p@.len()) =~= rest.subrange(0, p@.len() as int));
                }
                assert(rest.skip(1) =~= a@.skip(i + 1));
            }
            out.push(a[i]);
            i = i + 1;
        }
        proof {
            assert(before + replaced(rest, p@, by@) =~= out@ + replaced(a@.skip(i as int), p@, by@));
        }
    }
    proof {
        assert(a@.skip(i as int) =~= Seq::<char>::empty());
        assert(out@ + Seq::<char>::empty() =~= out@);
    }
    out
}

/// One of the parts of `s` between every `p` is `t`.
pub open spec fn has_part(s: Text, p: Text, t: Text) -> bool
    decreases s.len(),
{
    match cut_at(s, p) {
        Some((a, b)) if b.len() < s.len() => a == t || has_part(b, p, t),
        _ => s == t,
    }
}

pub fn part_of(s: &str, p: &str, t: &str) -> (r: bool)
    requires
        p@.len() > 0,
    ensures
        r == has_part(s@, p@, t@),
{
    let mut rest = s.to_string();
    loop
        invariant
            p@.len() > 0,
            has_part(s@, p@, t@) == has_part(rest@, p@, t@),
        decreases rest@.len(),
    {
        match split_once(&rest, p) {
            Some((a, b)) => {
                proof {
                    lemma_find_from(rest@, p@, 0);
                }
                if same(&a, t) {
                    return true;
                }
                rest = b;
            },
            None => {
                return same(&rest, t);
            },
        }
    }
}

// ---------------------------------------------------------------------- pieces and lines

/// `s` cut at every character of `seps`, the separators left out.
pub open spec fn pieces(s: Text, seps: Text) -> Seq<Text>
    decreases s.len(),
{
    if s.len() == 0 {
        seq![Seq::<char>::empty()]
    } else {
        let before = pieces(s.drop_last(), seps);
        if seps.contains(s.last()) {
            before.push(Seq::<char>::empty())
        } else {
            before.drop_last().push(before.last().push(s.last()))
        }
    }
}

/// Whether `c` is one of the characters of `v`.
fn has_char(v: &Vec<char>, c: char) -> (r: bool)
    ensures
        r == v@.contains(c),
{
    let mut i: usize = 0;
    while i < v.len()
        invariant
            i <= v@.len(),
            forall|k: int| 0 <= k < i ==> v@[k] != c,
        decreases v@.len() - i,
    {
        if v[i] == c {
            proof {
                assert(v@[i as int] == c);
            }
            return true;
        }
        i = i + 1;
    }
    false
}

pub fn split_on(s: &str, seps: &str) -> (r: Vec<String>)
    ensures
        views(r@) == pieces(s@, seps@),
        r@.len() > 0,
{
    broadcast use group_views;
    let a = chars_of(s);
    let sep = chars_of(seps);
    let mut out: Vec<String> = Vec::new();
    let mut cur = String::new();
    let mut i: usize = 0;
    proof {
        assert(s@.take(0) =~= Seq::<char>::empty());
        assert(views(out@).push(cur@) =~= pieces(s@.take(0), seps@));
    }
    while i < a.len()
        invariant
            a@ == s@,
            sep@ == seps@,
            i <= a@.len(),
            views(out@).push(cur@) == pieces(s@.take(i as int), seps@),
        decreases a@.len() - i,
    {
        broadcast use group_views;
        let ghost before = pieces(s@.take(i as int), seps@);
        proof {
            assert(s@.take(i + 1).drop_last() =~= s@.take(i as int));
            assert(s@.take(i + 1).last() == a@[i as int]);
            assert(before.drop_last() =~= views(out@));
            assert(before.last() == cur@);
        }
        let c = a[i];
        if has_char(&sep, c) {
            out.push(cur);
            cur = String::new();
            proof {
                assert(views(out@) =~= before);
            }
        } else {
            cur.push(c);
        }
        i = i + 1;
    }
    out.push(cur);
    proof {
        assert(s@.take(s@.len() as int) =~= s@);
    }
    out
}

/// A line without the `\r` of a `\r\n` ending.
pub open spec fn without_cr(s: Text) -> Text {
    if s.len() > 0 && s.last() == '\r' {
        s.drop_last()
    } else {
        s
    }
}

/// The lines of a text: `\n` ends a line, a `\r` in front of it belongs to the ending, and
/// nothing behind the last ending is no line.
pub open spec fn text_lines(s: Text) -> Seq<Text> {
    let p = pieces(s, seq!['\n']);
    let ended = p.drop_last().map_values(|l: Text| without_cr(l));
    if p.last().len() == 0 {
        ended
    } else {
        ended.push(p.last())
    }
}

fn strip_cr(s: String) -> (r: String)
    ensures
        r@ == without_cr(s@),
{
    let v = chars_of(&s);
    if v.len() > 0 && v[v.len() - 1] == '\r' {
        let n = v.len() - 1;
        proof {
            assert(v@.subrange(0, n as int) =~= s@.drop_last());
        }
        string_of(&v, 0, n)
    } else {
        s
    }
}

pub fn lines(s: &str) -> (r: Vec<String>)
    ensures
        views(r@) == text_lines(s@),
{
    broadcast use group_views;
    proof {
        reveal_strlit("\n");
        assert("\n"@ =~= seq!['\n']);
    }
    let p = split_on(s, "\n");
    let ghost all = pieces(s@, seq!['\n']);
    let n = p.len() - 1;
    let mut out: Vec<String> = Vec::new();
    let mut i: usize = 0;
    let ghost f = |l: Text| without_cr(l);
    proof {
        assert(views(p@) == all);
        assert(all.drop_last().take(0).map_values(f) =~= Seq::<Text>::empty());
    }
    while i < n
        invariant
            n == p@.len() - 1,
            i <= n,
            views(p@) == all,
            f == (|l: Text| without_cr(l)),
            views(out@) == all.drop_last().take(i as int).map_values(f),
        decreases n - i,
    {
        broadcast use group_views;
        let l = strip_cr(p[i].clone());
        out.push(l);
        proof {
            assert(all[i as int] == p@[i as int]@);
            assert(all.drop_last().take(i + 1).map_values(f) =~= all.drop_last().take(i as int).map_values(f).push(l@));
        }
        i = i + 1;
    }
    proof {
        assert(all.drop_last().take(n as int) =~= all.drop_last());
        assert(all.last() == p@[n as int]@);
    }
    if !p[n].as_str().is_empty() {
        out.push(p[n].clone());
    }
    out
}

proof fn lemma_pieces_count(s: Text, seps: Text)
    ensures
        pieces(s, seps).len() > 0,
        pieces(s, seps).len() - 1 + (if pieces(s, seps).last().len() > 0 {
            1int
        } else {
            0int
        }) <= s.len(),
    decreases s.len(),
{
    if s.len() > 0 {
        lemma_pieces_count(s.drop_last(), seps);
    }
}

/// The lines of a text with their endings: `\n` ends a line, and nothing behind the last ending is no
/// line.
pub open spec fn ended_lines(s: Text) -> Seq<Text> {
    let p = pieces(s, seq!['\n']);
    let ended = p.drop_last().map_values(|l: Text| l.push('\n'));
    if p.last().len() == 0 {
        ended
    } else {
        ended.push(p.last())
    }
}

/// The parts one behind the other.
pub open spec fn flat(parts: Seq<Text>) -> Text
    decreases parts.len(),
{
    if parts.len() == 0 {
        Seq::empty()
    } else {
        flat(parts.drop_last()) + parts.last()
    }
}

proof fn lemma_no_feed(s: Text, i: int, k: int)
    requires
        0 <= i < pieces(s, seq!['\n']).len(),
        0 <= k < pieces(s, seq!['\n'])[i].len(),
    ensures
        pieces(s, seq!['\n'])[i][k] != '\n',
    decreases s.len(),
{
    if s.len() > 0 {
        let d = s.drop_last();
        let p = pieces(d, seq!['\n']);
        lemma_pieces_count(d, seq!['\n']);
        assert(seq!['\n'][0] == '\n');
        if i < p.len() - 1 || (i == p.len() - 1 && k < p[i].len()) {
            lemma_no_feed(d, i, k);
        }
    }
}

/// A text is made of its lines with their endings.
pub proof fn lemma_flat_lines(s: Text)
    ensures
        flat(ended_lines(s)) == s,
    decreases s.len(),
{
    let p = pieces(s, seq!['\n']);
    let e = ended_lines(s);
    if s.len() == 0 {
        assert(e =~= Seq::<Text>::empty());
        assert(flat(e) =~= s);
    } else {
        let d = s.drop_last();
        let c = s.last();
        let q = pieces(d, seq!['\n']);
        let f = ended_lines(d);
        lemma_pieces_count(d, seq!['\n']);
        lemma_flat_lines(d);
        assert(seq!['\n'][0] == '\n');
        assert(seq!['\n'].contains(c) == (c == '\n'));
        if q.last().len() == 0 {
            assert(q.last() =~= Seq::<char>::empty());
            assert(e.drop_last() =~= f);
            assert(e.last() =~= seq![c]);
            assert(flat(e) =~= d + seq![c]);
        } else {
            assert(e.drop_last() =~= f.drop_last());
            assert(e.last() =~= f.last().push(c));
            assert(flat(e) =~= d + seq![c]);
        }
        assert(d + seq![c] =~= s);
    }
}

/// Lines that are the same with their endings are the same without them.
pub proof fn lemma_same_lines(a: Text, b: Text, i: int, j: int)
    requires
        0 <= i < ended_lines(a).len(),
        0 <= j < ended_lines(b).len(),
        ended_lines(a)[i] == ended_lines(b)[j],
    ensures
        text_lines(a)[i] == text_lines(b)[j],
{
    let p = pieces(a, seq!['\n']);
    let q = pieces(b, seq!['\n']);
    lemma_pieces_count(a, seq!['\n']);
    lemma_pieces_count(b, seq!['\n']);
    let x = ended_lines(a)[i];
    if i < p.len() - 1 {
        assert(x == p[i].push('\n'));
        assert(x.drop_last() =~= p[i]);
        if j == q.len() - 1 {
            lemma_no_feed(b, j, x.len() - 1);
        } else {
            assert(x == q[j].push('\n'));
            assert(x.drop_last() =~= q[j]);
        }
    } else if j < q.len() - 1 {
        assert(x == q[j].push('\n'));
        lemma_no_feed(a, i, x.len() - 1);
    }
}

/// A text has at most as many lines as characters.
pub proof fn lemma_lines_count(s: Text)
    ensures
        text_lines(s).len() <= s.len(),
{
    lemma_pieces_count(s, seq!['\n']);
}

/// The parts in order with `sep` between two.
pub open spec fn joined(parts: Seq<Text>, sep: Text) -> Text
    decreases parts.len(),
{
    if parts.len() == 0 {
        Seq::<char>::empty()
    } else if parts.len() == 1 {
        parts[0]
    } else {
        joined(parts.drop_last(), sep) + sep + parts.last()
    }
}

pub fn join(parts: &Vec<String>, sep: &str) -> (r: String)
    ensures
        r@ == joined(views(parts@), sep@),
{
    let mut out = String::new();
    let mut i: usize = 0;
    let ghost all = views(parts@);
    proof {
        assert(all.take(0) =~= Seq::<Text>::empty());
    }
    while i < parts.len()
        invariant
            i <= parts@.len(),
            all == views(parts@),
            out@ == joined(all.take(i as int), sep@),
        decreases parts@.len() - i,
    {
        proof {
            assert(all.take(i + 1).drop_last() =~= all.take(i as int));
            assert(all.take(i + 1).last() == parts@[i as int]@);
            if i == 0 {
                assert(out@ + parts@[0]@ =~= parts@[0]@);
            }
        }
        if i > 0 {
            out.append(sep);
        }
        out.append(&parts[i]);
        i = i + 1;
    }
    proof {
        assert(all.take(all.len() as int) =~= all);
    }
    out
}

// ---------------------------------------------------------------------- white space

/// Unicode's White_Space property.
pub open spec fn is_space(c: char) -> bool {
    let u = c as u32;
    (0x9 <= u <= 0xd) || u == 0x20 || u == 0x85 || u == 0xa0 || u == 0x1680 || (0x2000 <= u <= 0x200a) || u == 0x2028
        || u == 0x2029 || u == 0x202f || u == 0x205f || u == 0x3000
}

pub fn space(c: char) -> (r: bool)
    ensures
        r == is_space(c),
{
    let u = c as u32;
    (0x9 <= u && u <= 0xd) || u == 0x20 || u == 0x85 || u == 0xa0 || u == 0x1680 || (0x2000 <= u && u <= 0x200a)
        || u == 0x2028 || u == 0x2029 || u == 0x202f || u == 0x205f || u == 0x3000
}

/// `s` without the white space in front.
pub open spec fn trimmed_start(s: Text) -> Text
    decreases s.len(),
{
    if s.len() > 0 && is_space(s[0]) {
        trimmed_start(s.skip(1))
    } else {
        s
    }
}

/// `s` without the white space at its end.
pub open spec fn trimmed_end(s: Text) -> Text
    decreases s.len(),
{
    if s.len() > 0 && is_space(s.last()) {
        trimmed_end(s.drop_last())
    } else {
        s
    }
}

pub open spec fn trimmed(s: Text) -> Text {
    trimmed_end(trimmed_start(s))
}

/// How many characters of white space stand in front.
fn lead(v: &Vec<char>) -> (r: usize)
    ensures
        r <= v@.len(),
        trimmed_start(v@) == v@.skip(r as int),
{
    let mut i: usize = 0;
    proof {
        assert(v@.skip(0) =~= v@);
    }
    while i < v.len() && space(v[i])
        invariant
            i <= v@.len(),
            trimmed_start(v@) == trimmed_start(v@.skip(i as int)),
        decreases v@.len() - i,
    {
        proof {
            assert(v@.skip(i as int).skip(1) =~= v@.skip(i + 1));
        }
        i = i + 1;
    }
    i
}

/// The end of `v[from..]` without its white space.
fn tail(v: &Vec<char>, from: usize) -> (r: usize)
    requires
        from <= v@.len(),
    ensures
        from <= r <= v@.len(),
        trimmed_end(v@.skip(from as int)) == v@.subrange(from as int, r as int),
{
    let mut e: usize = v.len();
    proof {
        assert(v@.subrange(from as int, e as int) =~= v@.skip(from as int));
    }
    while e > from && space(v[e - 1])
        invariant
            from <= e <= v@.len(),
            trimmed_end(v@.skip(from as int)) == trimmed_end(v@.subrange(from as int, e as int)),
        decreases e,
    {
        proof {
            assert(v@.subrange(from as int, e as int).drop_last() =~= v@.subrange(from as int, e - 1));
        }
        e = e - 1;
    }
    e
}

pub fn trim(s: &str) -> (r: String)
    ensures
        r@ == trimmed(s@),
{
    let v = chars_of(s);
    let a = lead(&v);
    let b = tail(&v, a);
    string_of(&v, a, b)
}

pub fn trim_start(s: &str) -> (r: String)
    ensures
        r@ == trimmed_start(s@),
{
    let v = chars_of(s);
    let a = lead(&v);
    proof {
        assert(v@.subrange(a as int, v@.len() as int) =~= v@.skip(a as int));
    }
    string_of(&v, a, v.len())
}

pub fn trim_end(s: &str) -> (r: String)
    ensures
        r@ == trimmed_end(s@),
{
    let v = chars_of(s);
    let b = tail(&v, 0);
    proof {
        assert(v@.skip(0) =~= s@);
    }
    string_of(&v, 0, b)
}

/// The words of a text: what stands between white space, and the word begun at its end.
pub open spec fn cut_words(s: Text) -> (Seq<Text>, Text)
    decreases s.len(),
{
    if s.len() == 0 {
        (Seq::empty(), Seq::empty())
    } else {
        let (done, cur) = cut_words(s.drop_last());
        if !is_space(s.last()) {
            (done, cur.push(s.last()))
        } else if cur.len() > 0 {
            (done.push(cur), Seq::empty())
        } else {
            (done, cur)
        }
    }
}

/// The words of a text.
pub open spec fn text_words(s: Text) -> Seq<Text> {
    let (done, cur) = cut_words(s);
    if cur.len() > 0 {
        done.push(cur)
    } else {
        done
    }
}

pub fn words(s: &str) -> (r: Vec<String>)
    ensures
        views(r@) == text_words(s@),
{
    broadcast use group_views;
    let v = chars_of(s);
    let mut out: Vec<String> = Vec::new();
    let mut cur = String::new();
    let mut empty = true;
    let mut i: usize = 0;
    proof {
        assert(s@.take(0) =~= Seq::<char>::empty());
        assert(cur@ =~= Seq::<char>::empty());
    }
    while i < v.len()
        invariant
            i <= v@.len(),
            v@ == s@,
            cut_words(s@.take(i as int)) == (views(out@), cur@),
            empty == (cur@.len() == 0),
        decreases v@.len() - i,
    {
        broadcast use group_views;
        let c = v[i];
        proof {
            assert(s@.take(i + 1).drop_last() =~= s@.take(i as int));
            assert(s@.take(i + 1).last() == c);
        }
        if !space(c) {
            cur.push(c);
            empty = false;
        } else if !empty {
            out.push(cur);
            cur = String::new();
            empty = true;
        }
        i = i + 1;
    }
    proof {
        assert(s@.take(s@.len() as int) =~= s@);
    }
    if !empty {
        out.push(cur);
    }
    out
}

/// White space stands neither in front of a trimmed text nor at its end.
pub proof fn lemma_trimmed_ends(s: Text)
    ensures
        trimmed(s).len() > 0 ==> !is_space(trimmed(s)[0]) && !is_space(trimmed(s).last()),
{
    lemma_start_ends(s);
    lemma_end_ends(trimmed_start(s));
}

proof fn lemma_start_ends(s: Text)
    ensures
        trimmed_start(s).len() > 0 ==> !is_space(trimmed_start(s)[0]),
    decreases s.len(),
{
    if s.len() > 0 && is_space(s[0]) {
        lemma_start_ends(s.skip(1));
    }
}

proof fn lemma_end_ends(s: Text)
    ensures
        trimmed_end(s).len() <= s.len(),
        trimmed_end(s) == s.take(trimmed_end(s).len() as int),
        trimmed_end(s).len() > 0 ==> !is_space(trimmed_end(s).last()) && trimmed_end(s)[0] == s[0],
    decreases s.len(),
{
    if s.len() > 0 && is_space(s.last()) {
        lemma_end_ends(s.drop_last());
        let n = trimmed_end(s).len() as int;
        assert(s.drop_last().take(n) =~= s.take(n));
    } else {
        assert(s.take(s.len() as int) =~= s);
    }
}

/// Trimming a trimmed text changes nothing.
pub proof fn lemma_trimmed_twice(s: Text)
    ensures
        trimmed(trimmed(s)) == trimmed(s),
{
    lemma_trimmed_ends(s);
}

/// A text put behind one that begins without white space, and that needs no trimming itself,
/// needs none.
pub proof fn lemma_trimmed_prefixed(head: Text, s: Text)
    requires
        head.len() > 0,
        !is_space(head[0]),
        !is_space(head.last()),
        s.len() > 0 ==> !is_space(s.last()),
    ensures
        trimmed(head + s) == head + s,
{
    let t = head + s;
    assert(t[0] == head[0]);
    if s.len() > 0 {
        assert(t.last() == s.last());
    } else {
        assert(t =~= head);
    }
}

/// `s` without any `c` at its end.
pub open spec fn trimmed_end_of(s: Text, c: char) -> Text
    decreases s.len(),
{
    if s.len() > 0 && s.last() == c {
        trimmed_end_of(s.drop_last(), c)
    } else {
        s
    }
}

pub fn trim_end_of(s: &str, c: char) -> (r: String)
    ensures
        r@ == trimmed_end_of(s@, c),
{
    let v = chars_of(s);
    let mut e: usize = v.len();
    proof {
        assert(v@.take(e as int) =~= s@);
    }
    while e > 0 && v[e - 1] == c
        invariant
            e <= v@.len(),
            v@ == s@,
            trimmed_end_of(s@, c) == trimmed_end_of(v@.take(e as int), c),
        decreases e,
    {
        proof {
            assert(v@.take(e as int).drop_last() =~= v@.take(e - 1));
        }
        e = e - 1;
    }
    proof {
        assert(v@.subrange(0, e as int) =~= v@.take(e as int));
    }
    string_of(&v, 0, e)
}

/// `s` with every `p` in front taken off.
pub open spec fn without_prefixes(s: Text, p: Text) -> Text
    decreases s.len(),
{
    if p.len() > 0 && text_starts(s, p) {
        without_prefixes(s.skip(p.len() as int), p)
    } else {
        s
    }
}

pub fn trim_prefixes(s: &str, p: &str) -> (r: String)
    ensures
        r@ == without_prefixes(s@, p@),
    decreases s@.len(),
{
    if p.is_empty() {
        return s.to_string();
    }
    match strip_prefix(s, p) {
        Some(rest) => trim_prefixes(&rest, p),
        None => s.to_string(),
    }
}

// ---------------------------------------------------------------------- ASCII case

pub open spec fn lower_char(c: char) -> char {
    if 'A' <= c <= 'Z' {
        ((c as u8) + 32) as char
    } else {
        c
    }
}

pub open spec fn upper_char(c: char) -> char {
    if 'a' <= c <= 'z' {
        ((c as u8) - 32) as char
    } else {
        c
    }
}

/// `s` with the ASCII capitals made small.
pub open spec fn lowered(s: Text) -> Text {
    s.map_values(|c: char| lower_char(c))
}

/// `s` with the small ASCII letters made capital.
pub open spec fn uppered(s: Text) -> Text {
    s.map_values(|c: char| upper_char(c))
}

pub fn to_lower(c: char) -> (r: char)
    ensures
        r == lower_char(c),
{
    if 'A' <= c && c <= 'Z' {
        ((c as u8) + 32) as char
    } else {
        c
    }
}

pub fn to_upper(c: char) -> (r: char)
    ensures
        r == upper_char(c),
{
    if 'a' <= c && c <= 'z' {
        ((c as u8) - 32) as char
    } else {
        c
    }
}

pub fn lowercase(s: &str) -> (r: String)
    ensures
        r@ == lowered(s@),
{
    let mut out = String::new();
    for c in it: s.chars()
        invariant
            it.seq() == s@,
            out@ == lowered(s@.take(it.index() as int)),
    {
        let l = to_lower(c);
        proof {
            assert(lowered(s@.take(it.index() + 1)) =~= lowered(s@.take(it.index() as int)).push(l));
        }
        out.push(l);
    }
    proof {
        assert(s@.take(s@.len() as int) =~= s@);
    }
    out
}

pub fn uppercase(s: &str) -> (r: String)
    ensures
        r@ == uppered(s@),
{
    let mut out = String::new();
    for c in it: s.chars()
        invariant
            it.seq() == s@,
            out@ == uppered(s@.take(it.index() as int)),
    {
        let l = to_upper(c);
        proof {
            assert(uppered(s@.take(it.index() + 1)) =~= uppered(s@.take(it.index() as int)).push(l));
        }
        out.push(l);
    }
    proof {
        assert(s@.take(s@.len() as int) =~= s@);
    }
    out
}

/// Whether two strings are the same but for the case of ASCII letters.
pub fn same_ignoring_case(a: &str, b: &str) -> (r: bool)
    ensures
        r == (lowered(a@) == lowered(b@)),
{
    same(&lowercase(a), &lowercase(b))
}

// ---------------------------------------------------------------------- numbers

pub open spec fn digit(d: nat) -> char {
    ((48 + d) as u8) as char
}

/// The decimal digits of `n`.
pub open spec fn dec(n: nat) -> Text
    decreases n,
{
    if n < 10 {
        seq![digit(n)]
    } else {
        dec(n / 10).push(digit(n % 10))
    }
}

/// `i` in decimal, with a minus sign in front where it is negative.
pub open spec fn dec_int(i: int) -> Text {
    if i < 0 {
        seq!['-'] + dec((-i) as nat)
    } else {
        dec(i as nat)
    }
}

fn digit_char(d: u8) -> (r: char)
    requires
        d < 10,
    ensures
        r == digit(d as nat),
{
    (48 + d) as char
}

/// `n` in decimal.
pub fn decimal(n: u128) -> (r: String)
    ensures
        r@ == dec(n as nat),
    decreases n,
{
    if n < 10 {
        let mut s = String::new();
        s.push(digit_char(n as u8));
        proof {
            assert(s@ =~= seq![digit(n as nat)]);
        }
        s
    } else {
        let mut s = decimal(n / 10);
        s.push(digit_char((n % 10) as u8));
        s
    }
}

/// `i` in decimal.
pub fn decimal_int(i: i128) -> (r: String)
    ensures
        r@ == dec_int(i as int),
{
    if i < 0 {
        let mut s = String::new();
        s.push('-');
        proof {
            assert(s@ =~= seq!['-']);
        }
        let size: u128 = ((-(i + 1)) as u128) + 1;
        s.append(&decimal(size));
        s
    } else {
        decimal(i as u128)
    }
}

/// Different numbers are written differently.
pub proof fn lemma_dec_injective(m: nat, n: nat)
    requires
        dec(m) == dec(n),
    ensures
        m == n,
    decreases m,
{
    if m >= 10 {
        lemma_dec_long(m);
    }
    if n >= 10 {
        lemma_dec_long(n);
    }
    if m < 10 || n < 10 {
        assert(dec(m)[0] == dec(n)[0]);
        if m < 10 && n < 10 {
            assert(dec(m)[0] == digit(m) && dec(n)[0] == digit(n));
            lemma_digit_injective(m, n);
        }
    } else {
        assert(dec(m).drop_last() =~= dec(m / 10));
        assert(dec(n).drop_last() =~= dec(n / 10));
        assert(dec(m).last() == digit(m % 10));
        assert(dec(n).last() == digit(n % 10));
        lemma_digit_injective(m % 10, n % 10);
        lemma_dec_injective(m / 10, n / 10);
    }
}

proof fn lemma_dec_long(n: nat)
    requires
        n >= 10,
    ensures
        dec(n).len() >= 2,
    decreases n,
{
    if n / 10 >= 10 {
        lemma_dec_long(n / 10);
    } else {
        assert(dec(n / 10).len() == 1);
    }
}

proof fn lemma_digit_injective(a: nat, b: nat)
    requires
        a < 10,
        b < 10,
        digit(a) == digit(b),
    ensures
        a == b,
{
}

/// Decimal digits, with zeros in front up to a width.
pub open spec fn padded(digits: Text, width: nat) -> Text
    decreases width,
{
    if digits.len() >= width {
        digits
    } else {
        seq!['0'] + padded(digits, (width - 1) as nat)
    }
}

/// `n` in decimal with zeros in front up to six digits.
pub fn six_digits(n: u128) -> (r: String)
    ensures
        r@ == padded(dec(n as nat), 6),
{
    let d = decimal(n);
    let v = chars_of(&d);
    let mut s = String::new();
    let mut w: usize = 6;
    proof {
        assert(s@ + padded(d@, 6) =~= padded(d@, 6));
    }
    while v.len() < w
        invariant
            v@ == d@,
            w <= 6,
            s@ + padded(d@, w as nat) == padded(d@, 6),
        decreases w,
    {
        s.push('0');
        proof {
            assert(s@.drop_last() + padded(d@, w as nat) =~= s@ + padded(d@, (w - 1) as nat));
        }
        w = w - 1;
    }
    s.append(&d);
    s
}

pub open spec fn is_digit(c: char) -> bool {
    '0' <= c <= '9'
}

/// The number that a row of decimal digits writes.
pub open spec fn digits_value(s: Text) -> Option<nat>
    decreases s.len(),
{
    if s.len() == 0 {
        Some(0)
    } else if !is_digit(s.last()) {
        None
    } else {
        match digits_value(s.drop_last()) {
            Some(n) => Some((n * 10 + (s.last() as u8 - 48)) as nat),
            None => None,
        }
    }
}

/// The number that a text writes: decimal digits, at least one, with a plus sign in front or
/// without.
pub open spec fn number_value(s: Text) -> Option<nat> {
    let d = if s.len() > 0 && s[0] == '+' {
        s.skip(1)
    } else {
        s
    };
    if d.len() == 0 {
        None
    } else {
        digits_value(d)
    }
}

proof fn lemma_digits_prefix(s: Text, n: int)
    requires
        0 <= n <= s.len(),
        digits_value(s) is Some,
    ensures
        digits_value(s.take(n)) is Some,
        digits_value(s.take(n))->0 <= digits_value(s)->0,
    decreases s.len(),
{
    if n < s.len() {
        assert(s.drop_last().take(n) =~= s.take(n));
        lemma_digits_prefix(s.drop_last(), n);
    } else {
        assert(s.take(n) =~= s);
    }
}

/// The number that a text writes, where it is at most `max`.
pub fn parse_number(s: &str, max: u64) -> (r: Option<u64>)
    ensures
        match r {
            Some(n) => number_value(s@) == Some(n as nat) && n <= max,
            None => number_value(s@) is None || number_value(s@)->0 > max,
        },
{
    let v = chars_of(s);
    let from: usize = if v.len() > 0 && v[0] == '+' { 1 } else { 0 };
    if from == v.len() {
        return None;
    }
    let ghost d = v@.skip(from as int);
    proof {
        if from == 0 {
            assert(d =~= s@);
        }
    }
    let mut n: u64 = 0;
    let mut i: usize = from;
    proof {
        assert(d.take(0) =~= Seq::<char>::empty());
    }
    while i < v.len()
        invariant
            from <= i <= v@.len(),
            from < v@.len(),
            v@ == s@,
            d == v@.skip(from as int),
            number_value(s@) == digits_value(d),
            digits_value(d.take(i - from)) == Some(n as nat),
            n <= max,
        decreases v@.len() - i,
    {
        let c = v[i];
        proof {
            assert(d.take(i - from + 1).drop_last() =~= d.take(i - from));
            assert(d.take(i - from + 1).last() == c);
        }
        if !('0' <= c && c <= '9') {
            proof {
                if digits_value(d) is Some {
                    lemma_digits_prefix(d, i - from + 1);
                }
            }
            return None;
        }
        let x: u64 = ((c as u8) - 48) as u64;
        let next: u128 = (n as u128) * 10 + x as u128;
        if next > max as u128 {
            proof {
                if digits_value(d) is Some {
                    lemma_digits_prefix(d, i - from + 1);
                }
            }
            return None;
        }
        n = next as u64;
        i = i + 1;
    }
    proof {
        assert(d.take(d.len() as int) =~= d);
    }
    Some(n)
}

// ---------------------------------------------------------------------- bytes

/// How many bytes of UTF-8 a text takes.
pub open spec fn byte_len(s: Text) -> nat {
    encode_utf8(s).len()
}

/// How many bytes of UTF-8 a character takes.
pub open spec fn char_bytes(c: char) -> nat {
    if (c as u32) < 0x80 {
        1
    } else if (c as u32) < 0x800 {
        2
    } else if (c as u32) < 0x10000 {
        3
    } else {
        4
    }
}

pub proof fn lemma_bytes_add(a: Text, b: Text)
    ensures
        byte_len(a + b) == byte_len(a) + byte_len(b),
    decreases a.len(),
{
    if a.len() == 0 {
        assert(a + b =~= b);
    } else {
        assert((a + b).drop_first() =~= a.drop_first() + b);
        lemma_bytes_add(a.drop_first(), b);
    }
}

pub proof fn lemma_bytes_push(a: Text, c: char)
    ensures
        byte_len(a.push(c)) == byte_len(a) + char_bytes(c),
{
    assert(a.push(c) =~= a + seq![c]);
    lemma_bytes_add(a, seq![c]);
    assert(seq![c].drop_first() =~= Seq::<char>::empty());
    reveal_with_fuel(encode_utf8, 2);
    assert(encode_utf8(seq![c]) =~= encode_scalar(c as u32));
}

/// A text has at most as many characters as bytes.
pub proof fn lemma_chars_bytes(s: Text)
    ensures
        s.len() <= byte_len(s),
    decreases s.len(),
{
    if s.len() > 0 {
        lemma_chars_bytes(s.drop_last());
        lemma_bytes_push(s.drop_last(), s.last());
        assert(s.drop_last().push(s.last()) =~= s);
    }
}

pub proof fn lemma_trimmed_start(s: Text)
    ensures
        trimmed_start(s).len() <= s.len(),
        trimmed_start(s) == s.skip(s.len() - trimmed_start(s).len()),
    decreases s.len(),
{
    if s.len() > 0 && is_space(s[0]) {
        lemma_trimmed_start(s.skip(1));
        let t = trimmed_start(s);
        assert(s.skip(1).skip(s.len() - 1 - t.len()) =~= s.skip(s.len() - t.len()));
    } else {
        assert(s.skip(0) =~= s);
    }
}

/// How many bytes of UTF-8 `s` takes.
pub fn bytes(s: &str) -> (r: usize)
    ensures
        r == byte_len(s@),
{
    s.as_bytes().len()
}

/// Bytes of one's own.
pub fn copy_bytes(b: &[u8]) -> (r: Vec<u8>)
    ensures
        r@ == b@,
{
    let mut out: Vec<u8> = Vec::new();
    let mut i: usize = 0;
    while i < b.len()
        invariant
            i <= b@.len(),
            out@ == b@.take(i as int),
        decreases b@.len() - i,
    {
        proof {
            assert(b@.take(i + 1) =~= b@.take(i as int).push(b@[i as int]));
        }
        out.push(b[i]);
        i = i + 1;
    }
    proof {
        assert(b@.take(b@.len() as int) =~= b@);
    }
    out
}

// ---------------------------------------------------------------------- laws of texts

/// A text is cut at the first place where the separator stands, and the separator is left out; a text
/// without it is not cut.
pub proof fn law_cut_at_the_first(s: Text, p: Text)
    ensures
        match cut_at(s, p) {
            Some((a, b)) => s == a + p + b && forall|j: int| 0 <= j < a.len() ==> !occurs_at(s, p, j),
            None => !text_has(s, p),
        },
{
    lemma_find_from(s, p, 0);
    match find_from(s, p, 0) {
        Some(i) => {
            assert(s =~= s.take(i) + s.subrange(i, i + p.len()) + s.skip(i + p.len()));
        },
        None => {},
    }
}

/// Where the separator's first character does not stand before it, a text is cut there.
pub proof fn law_cut_where_it_stands(a: Text, p: Text, b: Text)
    requires
        p.len() > 0,
        !a.contains(p[0]),
    ensures
        cut_at(a + p + b, p) == Some((a, b)),
{
    let s = a + p + b;
    lemma_find_from(s, p, 0);
    assert(s.subrange(a.len() as int, (a.len() + p.len()) as int) =~= p);
    assert(occurs_at(s, p, a.len() as int));
    let i = find_from(s, p, 0)->0;
    if i < a.len() {
        assert(s.subrange(i, i + p.len())[0] == p[0]);
        assert(a[i] == p[0]);
    }
    assert(s.take(i) =~= a);
    assert(s.skip(i + p.len()) =~= b);
}

proof fn lemma_find_any(s: Text, seps: Text, i: int)
    requires
        0 <= i,
    ensures
        match find_any(s, seps, i) {
            Some(k) => i <= k < s.len() && seps.contains(s[k]) && forall|j: int| i <= j < k ==> !seps.contains(#[trigger] s[j]),
            None => forall|j: int| i <= j < s.len() ==> !seps.contains(#[trigger] s[j]),
        },
    decreases s.len() - i,
{
    if i < s.len() && !seps.contains(s[i]) {
        lemma_find_any(s, seps, i + 1);
    }
}

/// A text is cut at the first of several separators, and it is left out.
pub proof fn law_cut_at_the_first_of(s: Text, seps: Text)
    ensures
        match cut_at_any(s, seps) {
            Some((a, b)) => a.len() < s.len() && seps.contains(s[a.len() as int]) && s == a.push(s[a.len() as int]) + b
                && forall|j: int| 0 <= j < a.len() ==> !seps.contains(#[trigger] a[j]),
            None => forall|j: int| 0 <= j < s.len() ==> !seps.contains(#[trigger] s[j]),
        },
{
    lemma_find_any(s, seps, 0);
    match find_any(s, seps, 0) {
        Some(i) => {
            assert(s =~= s.take(i).push(s[i]) + s.skip(i + 1));
        },
        None => {},
    }
}

/// The pieces of a text hold no separator, there is one more of them than there are separators, and they
/// are all of the text but the separators.
pub proof fn law_pieces_hold_no_separator(s: Text, seps: Text, i: int, k: int)
    ensures
        pieces(s, seps).len() > 0,
        0 <= i < pieces(s, seps).len() && 0 <= k < pieces(s, seps)[i].len() ==> !seps.contains(pieces(s, seps)[i][k]),
        flat(pieces(s, seps)) == s.filter(|c: char| !seps.contains(c)),
        pieces(s, seps).len() - 1 == s.len() - flat(pieces(s, seps)).len(),
    decreases s.len(),
{
    reveal(Seq::filter);
    let f = |c: char| !seps.contains(c);
    let p = pieces(s, seps);
    if s.len() == 0 {
        assert(p.drop_last() =~= Seq::<Text>::empty());
        assert(flat(p.drop_last()) == Seq::<char>::empty());
        assert(p.last() == Seq::<char>::empty());
        assert(flat(p) == flat(p.drop_last()) + p.last());
        assert(flat(p) =~= Seq::<char>::empty());
    } else {
        let d = s.drop_last();
        let q = pieces(d, seps);
        let c = s.last();
        law_pieces_hold_no_separator(d, seps, i, k);
        if seps.contains(c) {
            assert(p.drop_last() =~= q);
            assert(flat(p) =~= flat(q));
            assert(s.filter(f) =~= d.filter(f));
            if 0 <= i < q.len() {
                assert(p[i] == q[i]);
            }
        } else {
            assert(p.drop_last() =~= q.drop_last());
            assert(flat(p) =~= flat(q).push(c));
            assert(s.filter(f) =~= d.filter(f).push(c));
            if i == q.len() - 1 {
                assert(p[i] == q[i].push(c));
            } else if 0 <= i < q.len() {
                assert(p[i] == q[i]);
            }
        }
    }
}

proof fn lemma_pieces_plain(a: Text, seps: Text)
    requires
        forall|k: int| 0 <= k < a.len() ==> !seps.contains(#[trigger] a[k]),
    ensures
        pieces(a, seps) == seq![a],
    decreases a.len(),
{
    if a.len() > 0 {
        let d = a.drop_last();
        assert forall|k: int| 0 <= k < d.len() implies !seps.contains(#[trigger] d[k]) by {
            assert(a[k] == d[k]);
        }
        lemma_pieces_plain(d, seps);
        assert(!seps.contains(a[a.len() - 1]));
        assert(pieces(a, seps) =~= seq![d.push(a.last())]);
        assert(d.push(a.last()) =~= a);
    } else {
        assert(a =~= Seq::<char>::empty());
    }
}

/// The first piece of a text ends at the first separator, and the others are the pieces of what stands
/// behind it.
pub proof fn law_pieces_end_at_separators(a: Text, c: char, b: Text, seps: Text)
    requires
        seps.contains(c),
        forall|k: int| 0 <= k < a.len() ==> !seps.contains(#[trigger] a[k]),
    ensures
        pieces(a, seps) == seq![a],
        pieces(a.push(c) + b, seps) == seq![a] + pieces(b, seps),
    decreases b.len(),
{
    let s = a.push(c) + b;
    lemma_pieces_plain(a, seps);
    if b.len() == 0 {
        assert(s.drop_last() =~= a);
        assert(s.last() == c);
        assert(pieces(s, seps) =~= seq![a] + pieces(b, seps));
    } else {
        let e = b.drop_last();
        law_pieces_end_at_separators(a, c, e, seps);
        lemma_pieces_count(e, seps);
        assert(s.drop_last() =~= a.push(c) + e);
        assert(s.last() == b.last());
        assert(pieces(s, seps) =~= seq![a] + pieces(b, seps));
    }
}

/// The first line of a text ends at the first line feed, without the carriage return that may stand before
/// it, and the other lines are those of what stands behind it; nothing behind the last line feed is no
/// line.
pub proof fn law_lines_end_at_feeds(a: Text, b: Text)
    requires
        !a.contains('\n'),
    ensures
        a.len() > 0 ==> text_lines(a) == seq![a],
        text_lines(Seq::empty()) == Seq::<Text>::empty(),
        text_lines(a.push('\n') + b) == seq![
            if a.len() > 0 && a.last() == '\r' {
                a.drop_last()
            } else {
                a
            },
        ] + text_lines(b),
{
    let n = seq!['\n'];
    assert(n[0] == '\n');
    assert forall|k: int| 0 <= k < a.len() implies !n.contains(#[trigger] a[k]) by {
        assert(a.contains(a[k]));
    }
    law_pieces_end_at_separators(a, '\n', b, n);
    lemma_pieces_count(b, n);
    let p = pieces(b, n);
    let q = pieces(a.push('\n') + b, n);
    assert(q.last() == p.last());
    assert(q.drop_last() =~= seq![a] + p.drop_last());
    assert(text_lines(a.push('\n') + b) =~= seq![without_cr(a)] + text_lines(b));
    assert(text_lines(Seq::<char>::empty()) =~= Seq::<Text>::empty());
    if a.len() > 0 {
        assert(text_lines(a) =~= seq![a]);
    }
}

/// Parts are put together in order, with the separator between two and nowhere else.
pub proof fn law_parts_are_joined(parts: Seq<Text>, sep: Text, last: Text)
    ensures
        joined(Seq::empty(), sep) == Seq::<char>::empty(),
        joined(seq![last], sep) == last,
        parts.len() > 0 ==> joined(parts.push(last), sep) == joined(parts, sep) + sep + last,
{
    assert(parts.push(last).drop_last() =~= parts);
}

proof fn lemma_joined_pieces(s: Text, c: char)
    ensures
        joined(pieces(s, seq![c]), seq![c]) == s,
    decreases s.len(),
{
    let n = seq![c];
    let p = pieces(s, n);
    assert(n[0] == c);
    if s.len() == 0 {
        assert(joined(p, n) =~= s);
    } else {
        let d = s.drop_last();
        let q = pieces(d, n);
        lemma_joined_pieces(d, c);
        lemma_pieces_count(d, n);
        if s.last() == c {
            assert(n.contains(s.last()));
            assert(p.drop_last() =~= q);
            assert(joined(p, n) =~= s);
        } else {
            assert(!n.contains(s.last()));
            assert(p.drop_last() =~= q.drop_last());
            assert(p.last() == q.last().push(s.last()));
            assert(joined(p, n) =~= joined(q, n).push(s.last()));
            assert(d.push(s.last()) =~= s);
        }
    }
}

/// What was cut at a separator and put together with it again is the same text.
pub proof fn law_pieces_join_again(s: Text, c: char)
    ensures
        joined(pieces(s, seq![c]), seq![c]) == s,
{
    lemma_joined_pieces(s, c);
}

/// Trimming takes white space off both ends, all of it, and nothing else.
pub proof fn law_trimming(before: Text, s: Text, behind: Text)
    requires
        forall|i: int| 0 <= i < before.len() ==> is_space(#[trigger] before[i]),
        forall|i: int| 0 <= i < behind.len() ==> is_space(#[trigger] behind[i]),
        s.len() > 0 ==> !is_space(s[0]) && !is_space(s.last()),
    ensures
        trimmed(before + s + behind) == s,
        trimmed_start(before + s) == s,
        trimmed_end(s + behind) == s,
{
    lemma_trim_front(before, s + behind);
    lemma_trim_front(before, s);
    lemma_trim_back(s, behind);
    assert(before + s + behind =~= before + (s + behind));
    if s.len() == 0 {
        lemma_all_space(before + s + behind);
        assert(s =~= Seq::<char>::empty());
        lemma_trim_front(before, Seq::empty());
        assert(before + s =~= before);
    }
}

proof fn lemma_all_space(s: Text)
    requires
        forall|i: int| 0 <= i < s.len() ==> is_space(#[trigger] s[i]),
    ensures
        trimmed_start(s) == Seq::<char>::empty(),
    decreases s.len(),
{
    if s.len() > 0 {
        assert(is_space(s[0]));
        assert forall|i: int| 0 <= i < s.skip(1).len() implies is_space(#[trigger] s.skip(1)[i]) by {
            assert(s[i + 1] == s.skip(1)[i]);
        }
        lemma_all_space(s.skip(1));
    } else {
        assert(s =~= Seq::<char>::empty());
    }
}

proof fn lemma_trim_front(before: Text, s: Text)
    requires
        forall|i: int| 0 <= i < before.len() ==> is_space(#[trigger] before[i]),
    ensures
        s.len() > 0 && !is_space(s[0]) ==> trimmed_start(before + s) == s,
        s.len() == 0 ==> trimmed_start(before + s) == s,
    decreases before.len(),
{
    let t = before + s;
    if before.len() == 0 {
        assert(t =~= s);
    } else {
        let b = before.skip(1);
        assert(is_space(before[0]));
        assert(t[0] == before[0]);
        assert forall|i: int| 0 <= i < b.len() implies is_space(#[trigger] b[i]) by {
            assert(before[i + 1] == b[i]);
        }
        lemma_trim_front(b, s);
        assert(t.skip(1) =~= b + s);
    }
}

proof fn lemma_trim_back(s: Text, behind: Text)
    requires
        forall|i: int| 0 <= i < behind.len() ==> is_space(#[trigger] behind[i]),
        s.len() > 0 ==> !is_space(s.last()),
    ensures
        trimmed_end(s + behind) == s,
    decreases behind.len(),
{
    let t = s + behind;
    if behind.len() == 0 {
        assert(t =~= s);
    } else {
        let b = behind.drop_last();
        assert(is_space(behind[behind.len() - 1]));
        assert(t.last() == behind.last());
        assert forall|i: int| 0 <= i < b.len() implies is_space(#[trigger] b[i]) by {
            assert(behind[i] == b[i]);
        }
        lemma_trim_back(s, b);
        assert(t.drop_last() =~= s + b);
    }
}

/// A word ends at white space, however much of it there is, and the other words are those of what stands
/// before it.
pub proof fn law_words_stand_between_spaces(s: Text, space: Text, word: Text)
    requires
        space.len() > 0,
        forall|i: int| 0 <= i < space.len() ==> is_space(#[trigger] space[i]),
        word.len() > 0,
        forall|i: int| 0 <= i < word.len() ==> !is_space(#[trigger] word[i]),
    ensures
        text_words(Seq::empty()) == Seq::<Text>::empty(),
        text_words(word) == seq![word],
        text_words(s + space) == text_words(s),
        text_words(s + space + word) == text_words(s).push(word),
{
    lemma_words_space(s, space);
    lemma_words_word(s + space, word);
    lemma_words_word(Seq::empty(), word);
    assert(Seq::<char>::empty() + word =~= word);
    assert(cut_words(Seq::<char>::empty()).1 + word =~= word);
    assert(cut_words(s + space).1 + word =~= word);
    assert(Seq::<Text>::empty().push(word) =~= seq![word]);
}

proof fn lemma_words_space(s: Text, space: Text)
    requires
        space.len() > 0,
        forall|i: int| 0 <= i < space.len() ==> is_space(#[trigger] space[i]),
    ensures
        cut_words(s + space) == (text_words(s), Seq::<char>::empty()),
    decreases space.len(),
{
    let d = space.drop_last();
    assert(is_space(space[space.len() - 1]));
    assert((s + space).drop_last() =~= s + d);
    assert((s + space).last() == space.last());
    if d.len() > 0 {
        assert forall|i: int| 0 <= i < d.len() implies is_space(#[trigger] d[i]) by {
            assert(space[i] == d[i]);
        }
        lemma_words_space(s, d);
    } else {
        assert(s + d =~= s);
        if cut_words(s).1.len() == 0 {
            assert(cut_words(s).1 =~= Seq::<char>::empty());
        }
    }
}

proof fn lemma_words_word(s: Text, word: Text)
    requires
        forall|i: int| 0 <= i < word.len() ==> !is_space(#[trigger] word[i]),
    ensures
        cut_words(s + word) == (cut_words(s).0, cut_words(s).1 + word),
    decreases word.len(),
{
    if word.len() == 0 {
        assert(s + word =~= s);
        assert(cut_words(s).1 + word =~= cut_words(s).1);
    } else {
        let d = word.drop_last();
        assert(!is_space(word[word.len() - 1]));
        assert forall|i: int| 0 <= i < d.len() implies !is_space(#[trigger] d[i]) by {
            assert(word[i] == d[i]);
        }
        lemma_words_word(s, d);
        assert((s + word).drop_last() =~= s + d);
        assert((s + word).last() == word.last());
        assert((cut_words(s).1 + d).push(word.last()) =~= cut_words(s).1 + word);
    }
}

/// A number that is written is read back, with a plus sign in front too.
pub proof fn law_numbers_are_read_back(n: nat)
    ensures
        number_value(dec(n)) == Some(n),
        number_value(seq!['+'] + dec(n)) == Some(n),
        dec(n).len() > 0,
        forall|i: int| 0 <= i < dec(n).len() ==> '0' <= #[trigger] dec(n)[i] <= '9',
{
    lemma_dec_digits(n);
    assert((seq!['+'] + dec(n)).skip(1) =~= dec(n));
    assert(dec(n)[0] != '+');
}

proof fn lemma_dec_digits(n: nat)
    ensures
        dec(n).len() > 0,
        digits_value(dec(n)) == Some(n),
        forall|i: int| 0 <= i < dec(n).len() ==> '0' <= #[trigger] dec(n)[i] <= '9',
    decreases n,
{
    if n < 10 {
        let d = dec(n);
        assert(d.drop_last() =~= Seq::<char>::empty());
        assert(digits_value(d.drop_last()) == Some(0nat));
        assert(d.last() == digit(n));
        assert(digit(n) as u8 == 48 + n);
    } else {
        lemma_dec_digits(n / 10);
        let d = dec(n);
        assert(d.drop_last() =~= dec(n / 10));
        assert(d.last() == digit(n % 10));
        assert(digit(n % 10) as u8 == 48 + n % 10);
        assert forall|i: int| 0 <= i < d.len() implies '0' <= #[trigger] d[i] <= '9' by {
            if i < d.len() - 1 {
                assert(d[i] == dec(n / 10)[i]);
            }
        }
    }
}

/// A text is no number where it has no digit or anything but digits behind the plus sign that it may
/// begin with.
pub proof fn law_only_digits_are_numbers(s: Text, i: int)
    ensures
        number_value(Seq::empty()) is None,
        number_value(seq!['+']) is None,
        0 <= i < s.len() && !('0' <= s[i] <= '9') && (i > 0 || s[i] != '+') ==> number_value(s) is None,
{
    assert(seq!['+'].skip(1).len() == 0);
    if 0 <= i < s.len() && !('0' <= s[i] <= '9') && (i > 0 || s[i] != '+') {
        if s[0] == '+' {
            assert(s.skip(1)[i - 1] == s[i]);
            lemma_no_digits(s.skip(1), i - 1);
        } else {
            lemma_no_digits(s, i);
        }
    }
}

proof fn lemma_no_digits(s: Text, i: int)
    requires
        0 <= i < s.len(),
        !is_digit(s[i]),
    ensures
        digits_value(s) is None,
    decreases s.len(),
{
    if i < s.len() - 1 {
        assert(s.drop_last()[i] == s[i]);
        lemma_no_digits(s.drop_last(), i);
    }
}

/// Negative numbers have a minus sign in front of their digits.
pub proof fn law_minus_signs(i: int)
    ensures
        i >= 0 ==> dec_int(i) == dec(i as nat),
        i < 0 ==> dec_int(i) == seq!['-'] + dec((-i) as nat),
{
}

/// Digits are filled up with zeros in front, and stay the same number.
pub proof fn law_padding(digits: Text, width: nat)
    ensures
        padded(digits, width).len() == if digits.len() >= width {
            digits.len()
        } else {
            width
        },
        padded(digits, width).skip(padded(digits, width).len() - digits.len()) == digits,
        forall|i: int| 0 <= i < padded(digits, width).len() - digits.len() ==> #[trigger] padded(digits, width)[i] == '0',
    decreases width,
{
    let p = padded(digits, width);
    if digits.len() >= width {
        assert(p.skip(0) =~= digits);
    } else {
        let q = padded(digits, (width - 1) as nat);
        law_padding(digits, (width - 1) as nat);
        assert(p == seq!['0'] + q);
        assert(q.len() == p.len() - 1);
        assert(p.skip(p.len() - digits.len()) =~= q.skip(q.len() - digits.len()));
        assert forall|i: int| 0 <= i < p.len() - digits.len() implies #[trigger] p[i] == '0' by {
            if i > 0 {
                assert(p[i] == q[i - 1]);
            }
        }
    }
}

/// Letters change their case and nothing else changes: the small letters are those behind the capitals.
pub proof fn law_letter_case(s: Text, i: int)
    requires
        0 <= i < s.len(),
    ensures
        lowered(s).len() == s.len() && uppered(s).len() == s.len(),
        'A' <= s[i] <= 'Z' ==> lowered(s)[i] as u32 == s[i] as u32 + 32,
        !('A' <= s[i] <= 'Z') ==> lowered(s)[i] == s[i],
        'a' <= s[i] <= 'z' ==> uppered(s)[i] as u32 == s[i] as u32 - 32,
        !('a' <= s[i] <= 'z') ==> uppered(s)[i] == s[i],
{
}

/// What stands in a text is replaced, from the front on, each time; a text without it stays as it is.
pub proof fn law_replacing(s: Text, p: Text, by: Text)
    requires
        p.len() > 0,
    ensures
        replaced(p + s, p, by) == by + replaced(s, p, by),
        !text_has(s, p) ==> replaced(s, p, by) == s,
{
    let t = p + s;
    assert(t.subrange(0, p.len() as int) =~= p);
    assert(text_starts(t, p));
    assert(t.skip(p.len() as int) =~= s);
    if !text_has(s, p) {
        lemma_replaces_nothing(s, p, by);
    }
}

proof fn lemma_replaces_nothing(s: Text, p: Text, by: Text)
    requires
        p.len() > 0,
        !text_has(s, p),
    ensures
        replaced(s, p, by) == s,
    decreases s.len(),
{
    if s.len() > 0 {
        assert(!occurs_at(s, p, 0));
        let t = s.skip(1);
        if text_has(t, p) {
            let i = choose|i: int| occurs_at(t, p, i);
            assert(s.subrange(i + 1, i + 1 + p.len()) =~= t.subrange(i, i + p.len()));
            assert(occurs_at(s, p, i + 1));
        }
        lemma_replaces_nothing(t, p, by);
        assert(seq![s[0]] + t =~= s);
    }
}

/// A beginning is taken off a text that has it, and off no other; and again where it stands there again.
pub proof fn law_prefixes_come_off(s: Text, p: Text)
    ensures
        without_prefix(p + s, p) == Some(s),
        !text_starts(s, p) ==> without_prefix(s, p) is None,
        p.len() > 0 ==> without_prefixes(p + s, p) == without_prefixes(s, p),
        !text_starts(s, p) ==> without_prefixes(s, p) == s,
{
    let t = p + s;
    assert(t.subrange(0, p.len() as int) =~= p);
    assert(t.skip(p.len() as int) =~= s);
}

/// Where a text begins, ends or has another.
pub proof fn law_texts_in_texts(a: Text, p: Text, b: Text)
    ensures
        text_starts(p + b, p),
        text_ends(a + p, p),
        text_has(a + p + b, p),
        text_starts(a, p) ==> a.take(p.len() as int) == p,
        text_ends(a, p) ==> a.skip(a.len() - p.len()) == p,
{
    assert((p + b).subrange(0, p.len() as int) =~= p);
    assert((a + p).subrange((a + p).len() - p.len(), (a + p).len() as int) =~= p);
    assert((a + p + b).subrange(a.len() as int, (a.len() + p.len()) as int) =~= p);
    assert(occurs_at(a + p + b, p, a.len() as int));
    if text_starts(a, p) {
        assert(a.take(p.len() as int) =~= a.subrange(0, p.len() as int));
    }
    if text_ends(a, p) {
        assert(a.skip(a.len() - p.len()) =~= a.subrange(a.len() - p.len(), a.len() as int));
    }
}

/// The first characters of a text: as many as are asked for, or all.
pub proof fn law_first_characters(s: Text, n: nat)
    ensures
        n <= s.len() ==> first_chars(s, n) == s.take(n as int),
        n > s.len() ==> first_chars(s, n) == s,
{
    if n == s.len() {
        assert(s.take(n as int) =~= s);
    }
}

/// The characters that are taken off the end of a text: all of a kind, and nothing else.
pub proof fn law_ends_come_off(s: Text, c: char)
    ensures
        trimmed_end_of(s.push(c), c) == trimmed_end_of(s, c),
        s.len() > 0 && s.last() != c ==> trimmed_end_of(s, c) == s,
        trimmed_end_of(Seq::empty(), c) == Seq::<char>::empty(),
{
    assert(s.push(c).drop_last() =~= s);
}

/// Texts stand in one order: one of two different texts stands before the other, and a text does not stand
/// before itself.
pub proof fn law_order_of_texts(a: Text, b: Text)
    ensures
        !text_before(a, a),
        a != b ==> text_before(a, b) != text_before(b, a),
        b.len() > 0 ==> text_before(a, a + b),
    decreases a.len(),
{
    if b.len() > 0 {
        lemma_before_longer(a, b);
    }
    if a.len() > 0 && b.len() > 0 {
        law_order_of_texts(a.skip(1), b.skip(1));
        if a[0] != b[0] {
            lemma_different_chars(a[0], b[0]);
            assert(text_before(a, b) == ((a[0] as u32) < (b[0] as u32)));
            assert(text_before(b, a) == ((b[0] as u32) < (a[0] as u32)));
        } else if a.skip(1) == b.skip(1) {
            assert(a =~= seq![a[0]] + a.skip(1));
            assert(b =~= seq![b[0]] + b.skip(1));
        }
    } else if a.len() > 0 {
        law_order_of_texts(a.skip(1), b);
    } else if b.len() == 0 {
        assert(a =~= b);
    }
}

proof fn lemma_different_chars(c: char, d: char)
    requires
        c != d,
    ensures
        c as u32 != d as u32,
{
}

proof fn lemma_before_longer(a: Text, b: Text)
    requires
        b.len() > 0,
    ensures
        text_before(a, a + b),
    decreases a.len(),
{
    if a.len() > 0 {
        assert((a + b).skip(1) =~= a.skip(1) + b);
        lemma_before_longer(a.skip(1), b);
    }
}

/// White space is the tab, the line ends, the space, and the other blanks of Unicode.
pub proof fn law_white_space(c: char)
    ensures
        is_space(c) <==> c == '\t' || c == '\n' || c == '\u{b}' || c == '\u{c}' || c == '\r' || c == ' ' || c == '\u{85}'
            || c == '\u{a0}' || c == '\u{1680}' || '\u{2000}' <= c <= '\u{200a}' || c == '\u{2028}' || c == '\u{2029}' || c
            == '\u{202f}' || c == '\u{205f}' || c == '\u{3000}',
{
}

/// The parts of a text stand between the separators: the first of them ends at the first separator, and the
/// others are those of what stands behind it.
pub proof fn law_parts_between(a: Text, p: Text, b: Text, t: Text)
    requires
        p.len() > 0,
        !a.contains(p[0]),
    ensures
        has_part(a, p, t) == (a == t),
        has_part(a + p + b, p, t) == (a == t || has_part(b, p, t)),
{
    law_cut_where_it_stands(a, p, b);
    law_cut_at_the_first(a, p);
    if cut_at(a, p) is Some {
        let (x, y) = cut_at(a, p)->0;
        assert((x + p + y)[x.len() as int] == p[0]);
        assert(a[x.len() as int] == p[0]);
    }
}

} // verus!
