//! Unix paths as text.

use crate::text;
use crate::text::Text;
use vstd::prelude::*;

verus! {

/// `b` under the directory `a`; an absolute `b` stands for itself.
pub open spec fn joined_path(a: Text, b: Text) -> Text {
    if b.len() > 0 && b[0] == '/' {
        b
    } else if a.len() == 0 || a.last() == '/' {
        a + b
    } else {
        a + "/"@ + b
    }
}

pub fn join(a: &str, b: &str) -> (r: String)
    ensures
        r@ == joined_path(a@, b@),
{
    let x = text::chars_of(a);
    let y = text::chars_of(b);
    if y.len() > 0 && y[0] == '/' {
        b.to_string()
    } else if x.len() == 0 || x[x.len() - 1] == '/' {
        text::concat(a, b)
    } else {
        let mut s = a.to_string();
        s.append("/");
        s.append(b);
        s
    }
}

/// The path is absolute.
pub open spec fn is_absolute_path(p: Text) -> bool {
    p.len() > 0 && p[0] == '/'
}

/// The path without what names no component at its end: separators, and `.` behind a separator.
pub open spec fn clean_end(p: Text) -> Text
    decreases p.len(),
{
    if p.len() > 1 && p.last() == '/' {
        clean_end(p.drop_last())
    } else if p.len() > 1 && p.last() == '.' && p[p.len() - 2] == '/' {
        clean_end(p.drop_last())
    } else {
        p
    }
}

/// Where the last component of a path begins.
pub open spec fn name_start(p: Text) -> nat
    decreases p.len(),
{
    if p.len() == 0 {
        0
    } else if p.last() == '/' {
        p.len()
    } else {
        name_start(p.drop_last())
    }
}

/// The last component of a path, where it is a name.
pub open spec fn file_name(p: Text) -> Option<Text> {
    let c = clean_end(p);
    let n = c.skip(name_start(c) as int);
    if n.len() == 0 || n == "."@ || n == ".."@ {
        None
    } else {
        Some(n)
    }
}

/// The path with another name in the place of its last component.
pub open spec fn with_name(p: Text, name: Text) -> Text {
    if file_name(p) is Some {
        let c = clean_end(p);
        joined_path(clean_end(c.take(name_start(c) as int)), name)
    } else {
        joined_path(p, name)
    }
}

/// Where the last dot of a name stands.
pub open spec fn last_dot(n: Text) -> Option<int>
    decreases n.len(),
{
    if n.len() == 0 {
        None
    } else if n.last() == '.' {
        Some(n.len() - 1)
    } else {
        last_dot(n.drop_last())
    }
}

/// A name without its extension.
pub open spec fn stem(n: Text) -> Text {
    match last_dot(n) {
        Some(i) if i > 0 => n.take(i),
        _ => n,
    }
}

/// The extension of a name: what stands behind its last dot, where something stands in front.
pub open spec fn extension(n: Text) -> Option<Text> {
    match last_dot(n) {
        Some(i) if i > 0 => Some(n.skip(i + 1)),
        _ => None,
    }
}

/// The path with another extension.
pub open spec fn with_ext(p: Text, ext: Text) -> Text {
    let c = clean_end(p);
    match file_name(p) {
        Some(n) => c.take(name_start(c) as int) + stem(n) + "."@ + ext,
        None => p,
    }
}

/// The directory a path stands in.
pub open spec fn parent_dir(p: Text) -> Text {
    let c = clean_end(p);
    clean_end(c.take(name_start(c) as int))
}

fn cleaned(p: &str) -> (r: String)
    ensures
        r@ == clean_end(p@),
{
    let v = text::chars_of(p);
    let mut e: usize = v.len();
    proof {
        assert(v@.take(e as int) =~= p@);
    }
    while e > 1 && (v[e - 1] == '/' || (v[e - 1] == '.' && v[e - 2] == '/'))
        invariant
            e <= v@.len(),
            clean_end(p@) == clean_end(v@.take(e as int)),
        decreases e,
    {
        proof {
            assert(v@.take(e as int).drop_last() =~= v@.take(e - 1));
        }
        e = e - 1;
    }
    proof {
        assert(v@.subrange(0, e as int) =~= v@.take(e as int));
    }
    text::string_of(&v, 0, e)
}

/// A path in two: up to its last component, and that component.
fn split(c: &str) -> (r: (String, String))
    ensures
        name_start(c@) <= c@.len(),
        r.0@ == c@.take(name_start(c@) as int),
        r.1@ == c@.skip(name_start(c@) as int),
{
    let v = text::chars_of(c);
    let mut e: usize = v.len();
    proof {
        assert(v@.take(e as int) =~= c@);
    }
    while e > 0 && v[e - 1] != '/'
        invariant
            e <= v@.len(),
            name_start(c@) == name_start(v@.take(e as int)),
        decreases e,
    {
        proof {
            assert(v@.take(e as int).drop_last() =~= v@.take(e - 1));
        }
        e = e - 1;
    }
    proof {
        assert(v@.subrange(0, e as int) =~= c@.take(e as int));
        assert(v@.subrange(e as int, v@.len() as int) =~= c@.skip(e as int));
    }
    (text::string_of(&v, 0, e), text::string_of(&v, e, v.len()))
}

/// The last component of a path, where it is a name.
pub fn name_of(p: &str) -> (r: Option<String>)
    ensures
        text::opt_text(r) == file_name(p@),
{
    let (_, n) = split(&cleaned(p));
    if text::bytes(&n) == 0 || text::same(&n, ".") || text::same(&n, "..") {
        proof {
            text::lemma_chars_bytes(n@);
        }
        None
    } else {
        proof {
            assert(vstd::utf8::encode_utf8(Seq::<char>::empty()).len() == 0);
            if n@.len() == 0 {
                assert(n@ =~= Seq::<char>::empty());
            }
        }
        Some(n)
    }
}

/// The directory a path stands in.
pub fn parent(p: &str) -> (r: String)
    ensures
        r@ == parent_dir(p@),
{
    let (d, _) = split(&cleaned(p));
    cleaned(&d)
}

/// The path with another name in the place of its last component.
pub fn with_file_name(p: &str, name: &str) -> (r: String)
    ensures
        r@ == with_name(p@, name@),
{
    match name_of(p) {
        Some(_) => join(&parent(p), name),
        None => join(p, name),
    }
}

/// A name in two: its stem and its extension.
pub fn split_name(n: &str) -> (r: (String, Option<String>))
    ensures
        r.0@ == stem(n@),
        text::opt_text(r.1) == extension(n@),
{
    let v = text::chars_of(n);
    let mut e: usize = v.len();
    proof {
        assert(v@.take(e as int) =~= n@);
    }
    while e > 0 && v[e - 1] != '.'
        invariant
            e <= v@.len(),
            last_dot(n@) == last_dot(v@.take(e as int)),
        decreases e,
    {
        proof {
            assert(v@.take(e as int).drop_last() =~= v@.take(e - 1));
        }
        e = e - 1;
    }
    if e > 1 {
        proof {
            assert(v@.subrange(0, e - 1) =~= n@.take(e - 1));
            assert(v@.subrange(e as int, v@.len() as int) =~= n@.skip(e as int));
        }
        (text::string_of(&v, 0, e - 1), Some(text::string_of(&v, e, v.len())))
    } else {
        (n.to_string(), None)
    }
}

/// The path with another extension.
pub fn with_extension(p: &str, ext: &str) -> (r: String)
    requires
        ext@.len() > 0,
    ensures
        r@ == with_ext(p@, ext@),
{
    match name_of(p) {
        Some(n) => {
            let (mut s, _) = split(&cleaned(p));
            let (base, _) = split_name(&n);
            s.append(&base);
            s.append(".");
            s.append(ext);
            s
        },
        None => p.to_string(),
    }
}

// ---------------------------------------------------------------------- names that are free

/// The name of the `i`th choice for a path.
pub open spec fn choice_name(p: Text, i: nat) -> Text {
    let (base, ext) = match file_name(p) {
        Some(n) => (
            stem(n),
            match extension(n) {
                Some(e) => "."@ + e,
                None => Seq::empty(),
            },
        ),
        None => (Seq::empty(), Seq::empty()),
    };
    base + " ("@ + text::dec(i) + ")"@ + ext
}

/// The `i`th choice for a path: the path itself, then with (1), (2) and so on behind its stem.
pub open spec fn choice(p: Text, i: nat) -> Text {
    if i == 0 {
        p
    } else {
        with_name(p, choice_name(p, i))
    }
}

proof fn lemma_choices_differ(p: Text, i: nat, j: nat)
    requires
        1 <= i,
        1 <= j,
        choice(p, i) == choice(p, j),
    ensures
        i == j,
{
    let (base, ext) = match file_name(p) {
        Some(n) => (
            stem(n),
            match extension(n) {
                Some(e) => "."@ + e,
                None => Seq::empty(),
            },
        ),
        None => (Seq::empty(), Seq::empty()),
    };
    reveal_strlit(" (");
    reveal_strlit(")");
    let a = choice_name(p, i);
    let b = choice_name(p, j);
    let head = base + " ("@;
    assert(a[0] == head[0] && b[0] == head[0]);
    let dir = if file_name(p) is Some {
        parent_dir(p)
    } else {
        p
    };
    assert(choice(p, i) == joined_path(dir, a));
    assert(choice(p, j) == joined_path(dir, b));
    let cut = if a[0] == '/' {
        0
    } else if dir.len() == 0 || dir.last() == '/' {
        dir.len() as int
    } else {
        (dir + "/"@).len() as int
    };
    assert(joined_path(dir, a).skip(cut) =~= a);
    assert(joined_path(dir, b).skip(cut) =~= b);
    assert(a == b);
    let n = a.len() - head.len() - 1 - ext.len();
    assert(a.subrange(head.len() as int, head.len() + n) =~= text::dec(i));
    assert(b.subrange(head.len() as int, head.len() + n) =~= text::dec(j));
    text::lemma_dec_injective(i, j);
}

/// The first `n` choices behind the path itself.
spec fn choices(p: Text, n: nat) -> Seq<Text> {
    Seq::new(n, |k: int| choice(p, (k + 1) as nat))
}

proof fn lemma_choices_bound(p: Text, n: nat, taken: Seq<Text>)
    requires
        forall|k: nat| 1 <= k <= n ==> taken.contains(#[trigger] choice(p, k)),
    ensures
        n <= taken.len(),
{
    let c = choices(p, n);
    assert(c.no_duplicates()) by {
        assert forall|x: int, y: int| 0 <= x < c.len() && 0 <= y < c.len() && x != y implies c[x] != c[y] by {
            if c[x] == c[y] {
                lemma_choices_differ(p, (x + 1) as nat, (y + 1) as nat);
            }
        }
    }
    c.unique_seq_to_set();
    assert(c.to_set().subset_of(taken.to_set())) by {
        assert forall|t: Text| c.to_set().contains(t) implies taken.to_set().contains(t) by {
            let k = choose|k: int| 0 <= k < c.len() && c[k] == t;
            assert(taken.contains(choice(p, (k + 1) as nat)));
        }
    }
    vstd::seq_lib::seq_to_set_is_finite(taken);
    vstd::set_lib::lemma_len_subset(c.to_set(), taken.to_set());
    taken.lemma_cardinality_of_set();
}

fn nth_choice(p: &str, i: u128) -> (r: String)
    requires
        i > 0,
    ensures
        r@ == choice(p@, i as nat),
{
    let (base, ext) = match name_of(p) {
        Some(n) => {
            let (s, e) = split_name(&n);
            let x = match e {
                Some(e) => text::concat(".", &e),
                None => String::new(),
            };
            (s, x)
        },
        None => (String::new(), String::new()),
    };
    proof {
        if file_name(p@) is None {
            assert(base@ =~= Seq::<char>::empty());
            assert(ext@ =~= Seq::<char>::empty());
        } else if extension(file_name(p@)->0) is None {
            assert(ext@ =~= Seq::<char>::empty());
        }
    }
    let mut name = base;
    name.append(" (");
    name.append(&text::decimal(i));
    name.append(")");
    name.append(&ext);
    with_file_name(p, &name)
}

/// The first choice for a path that is not taken.
pub fn unique_path(p: &str, taken: &Vec<String>) -> (r: String)
    ensures
        exists|i: nat| #[trigger]
            choice(p@, i) == r@ && !text::views(taken@).contains(r@) && forall|j: nat|
            j < i ==> text::views(taken@).contains(#[trigger] choice(p@, j)),
{
    if !text::one_of(p, taken) {
        proof {
            assert(choice(p@, 0) == p@);
        }
        return p.to_string();
    }
    let ghost t = text::views(taken@);
    let mut i: usize = 0;
    loop
        invariant
            t == text::views(taken@),
            i <= taken@.len(),
            forall|j: nat| j <= i ==> t.contains(#[trigger] choice(p@, j)),
        decreases taken@.len() - i,
    {
        let n: u128 = i as u128 + 1;
        let c = nth_choice(p, n);
        if !text::one_of(&c, taken) {
            proof {
                assert(choice(p@, n as nat) == c@);
            }
            return c;
        }
        proof {
            assert forall|j: nat| j <= i + 1 implies t.contains(#[trigger] choice(p@, j)) by {
                if j == i + 1 {
                    assert(choice(p@, j) == c@);
                }
            }
            lemma_choices_bound(p@, (i + 1) as nat, t);
        }
        let size: usize = taken.len();
        i = i + 1;
    }
}

// ---------------------------------------------------------------------- laws of paths

/// A name under a directory stands behind it and one separator; an absolute path stands for itself.
pub proof fn law_paths_are_joined(dir: Text, name: Text)
    ensures
        name.len() > 0 && name[0] == '/' ==> joined_path(dir, name) == name,
        !(name.len() > 0 && name[0] == '/') && dir.len() > 0 && dir.last() != '/' ==> joined_path(dir, name) == dir + "/"@
            + name,
        !(name.len() > 0 && name[0] == '/') && dir.len() > 0 && dir.last() == '/' ==> joined_path(dir, name) == dir + name,
        !(name.len() > 0 && name[0] == '/') && dir.len() == 0 ==> joined_path(dir, name) == dir + name,
        is_absolute_path(name) <==> name.len() > 0 && name[0] == '/',
{
}

proof fn lemma_name_start(dir: Text, name: Text)
    requires
        !name.contains('/'),
    ensures
        name_start(dir.push('/') + name) == dir.len() + 1,
    decreases name.len(),
{
    let p = dir.push('/') + name;
    if name.len() == 0 {
        assert(p.last() == '/');
    } else {
        let n = name.drop_last();
        assert forall|i: int| 0 <= i < n.len() implies n[i] != '/' by {
            assert(name.contains(name[i]));
        }
        lemma_name_start(dir, n);
        assert(p.drop_last() =~= dir.push('/') + n);
        assert(name.contains(name.last()));
        assert(p.last() == name.last());
    }
}

/// A name is not one of the two that stand for directories, and holds no separator.
pub open spec fn is_name(name: Text) -> bool {
    name.len() > 0 && !name.contains('/') && name != "."@ && name != ".."@
}

proof fn lemma_clean_name(dir: Text, name: Text)
    requires
        is_name(name),
    ensures
        clean_end(dir.push('/') + name) == dir.push('/') + name,
{
    let p = dir.push('/') + name;
    reveal_strlit(".");
    assert("."@.len() == 1 && "."@[0] == '.');
    assert(name.contains(name.last()));
    assert(p.last() == name.last());
    if name.last() == '.' {
        if name.len() == 1 {
            assert(name =~= "."@);
        } else {
            assert(name.contains(name[name.len() - 2]));
            assert(p[p.len() - 2] == name[name.len() - 2]);
        }
    }
}

/// The name of a file is what stands behind the last separator, and its directory what stands before it.
pub proof fn law_names_of_paths(dir: Text, name: Text)
    requires
        is_name(name),
    ensures
        file_name(dir.push('/') + name) == Some(name),
        parent_dir(dir.push('/') + name) == clean_end(dir.push('/')),
{
    let p = dir.push('/') + name;
    lemma_clean_name(dir, name);
    lemma_name_start(dir, name);
    assert(p.skip(dir.len() as int + 1) =~= name);
    assert(p.take(dir.len() as int + 1) =~= dir.push('/'));
}

proof fn lemma_last_dot(base: Text, ext: Text)
    requires
        !ext.contains('.'),
    ensures
        last_dot(base.push('.') + ext) == Some(base.len() as int),
    decreases ext.len(),
{
    let n = base.push('.') + ext;
    if ext.len() == 0 {
        assert(n.last() == '.');
    } else {
        let e = ext.drop_last();
        assert forall|i: int| 0 <= i < e.len() implies e[i] != '.' by {
            assert(ext.contains(ext[i]));
        }
        lemma_last_dot(base, e);
        assert(n.drop_last() =~= base.push('.') + e);
        assert(ext.contains(ext.last()));
        assert(n.last() == ext.last());
    }
}

proof fn lemma_no_dot(n: Text)
    requires
        !n.contains('.'),
    ensures
        last_dot(n) is None,
    decreases n.len(),
{
    if n.len() > 0 {
        let d = n.drop_last();
        assert forall|i: int| 0 <= i < d.len() implies d[i] != '.' by {
            assert(n.contains(n[i]));
        }
        lemma_no_dot(d);
        assert(n.contains(n.last()));
    }
}

/// The extension of a name is what stands behind its last dot; a name without a dot, or with none but the one
/// it begins with, has none.
pub proof fn law_extensions(base: Text, ext: Text)
    requires
        !ext.contains('.'),
    ensures
        base.len() > 0 ==> stem(base.push('.') + ext) == base && extension(base.push('.') + ext) == Some(ext),
        stem(ext) == ext && extension(ext) is None,
        stem(seq!['.'] + ext) == seq!['.'] + ext && extension(seq!['.'] + ext) is None,
{
    let n = base.push('.') + ext;
    lemma_last_dot(base, ext);
    lemma_no_dot(ext);
    assert(n.take(base.len() as int) =~= base);
    assert(n.skip(base.len() as int + 1) =~= ext);
    lemma_last_dot(Seq::empty(), ext);
    assert(Seq::<char>::empty().push('.') + ext =~= seq!['.'] + ext);
}

/// Another extension takes the place of the one that a file has, or stands behind a name without one, in the
/// same directory.
pub proof fn law_other_extensions(dir: Text, base: Text, old: Text, ext: Text)
    requires
        base.len() > 0,
        !old.contains('.'),
        is_name(base.push('.') + old),
    ensures
        with_ext(dir.push('/') + (base.push('.') + old), ext) == dir.push('/') + base + "."@ + ext,
{
    let name = base.push('.') + old;
    let p = dir.push('/') + name;
    lemma_clean_name(dir, name);
    lemma_name_start(dir, name);
    law_names_of_paths(dir, name);
    law_extensions(base, old);
    assert(p.take(dir.len() as int + 1) =~= dir.push('/'));
}

/// The choices for a file's name: the name itself, and then with a number in brackets before its extension, in
/// the same directory.
pub proof fn law_choices_of_names(dir: Text, base: Text, ext: Text, i: nat)
    requires
        base.len() > 0,
        !ext.contains('.'),
        is_name(base.push('.') + ext),
        i > 0,
    ensures
        ({
            let p = dir.push('/') + (base.push('.') + ext);
            &&& choice(p, 0) == p
            &&& choice_name(p, i) == base + " ("@ + text::dec(i) + ")"@ + ("."@ + ext)
            &&& choice(p, i) == joined_path(clean_end(dir.push('/')), choice_name(p, i))
        }),
{
    let name = base.push('.') + ext;
    let p = dir.push('/') + name;
    lemma_clean_name(dir, name);
    lemma_name_start(dir, name);
    law_names_of_paths(dir, name);
    law_extensions(base, ext);
    assert(p.take(dir.len() as int + 1) =~= dir.push('/'));
}

/// Separators at the end of a directory do not count, but for the root.
pub proof fn law_separators_at_the_end(dir: Text)
    requires
        dir.len() > 0,
        dir.last() != '/',
        dir.len() > 1 && dir.last() == '.' ==> dir[dir.len() - 2] != '/',
    ensures
        clean_end(dir) == dir,
        clean_end(dir.push('/')) == dir,
        clean_end(seq!['/']) == seq!['/'],
{
    assert(clean_end(dir) == dir);
    assert(dir.push('/').last() == '/');
    assert(dir.push('/').drop_last() =~= dir);
}

} // verus!
