//! Regular expressions and URL globs.

use crate::text;
use crate::text::Text;
use vstd::prelude::*;

verus! {

/// `regex::Regex`, a compiled expression.
#[verifier::external_type_specification]
#[verifier::external_body]
pub struct ExRegex(regex::Regex);

/// A compiled regular expression together with what it was compiled from.
pub struct Pattern {
    source: String,
    fold: bool,
    re: regex::Regex,
}

/// The message with which `regex::RegexBuilder::build` refuses an expression, if it does, on a
/// machine whose pointers have `bits` bits (the size limit counts memory).
pub uninterp spec fn regex_error(source: Text, fold: bool, bits: nat) -> Option<Text>;

/// Whether the expression `source` matches somewhere in `s`, letter case told apart or not.
pub uninterp spec fn regex_finds(source: Text, fold: bool, s: Text) -> bool;

/// The message with which an expression is refused here.
pub open spec fn refusal(source: Text, fold: bool) -> Option<Text> {
    regex_error(source, fold, usize::BITS as nat)
}

// ---------------------------------------------------------------------- literals

/// A character that means something in an expression.
pub open spec fn is_meta(c: char) -> bool {
    c == '\\' || c == '.' || c == '+' || c == '*' || c == '?' || c == '(' || c == ')' || c == '|' || c == '[' || c == ']'
        || c == '{' || c == '}' || c == '^' || c == '$' || c == '#' || c == '&' || c == '-' || c == '~'
}

/// The expression for one character.
pub open spec fn literal(c: char) -> Text {
    if is_meta(c) {
        seq!['\\', c]
    } else {
        seq![c]
    }
}

/// The expression that matches the text `s` itself.
pub open spec fn literals(s: Text) -> Text
    decreases s.len(),
{
    if s.len() == 0 {
        Seq::empty()
    } else {
        literals(s.drop_last()) + literal(s.last())
    }
}

/// `regex::escape`: every character that means something in an expression gets a backslash in
/// front, every other character stands as it is.
#[verifier::external_body]
fn escape(s: &str) -> (r: String)
    ensures
        r@ == literals(s@),
{
    regex::escape(s)
}

// ---------------------------------------------------------------------- globs

/// A part of a glob.
pub enum Node {
    /// Any characters.
    Any,
    /// Any characters but `/`.
    Part,
    /// One character.
    One,
    /// This character.
    Lit(char),
    /// One of these.
    Alt(Seq<Seq<Node>>),
}

/// `s` is made of what the parts stand for, one behind the other. Wildcards for any character
/// stand for all but a line feed.
pub open spec fn node_match(g: Seq<Node>, s: Text) -> bool
    decreases g,
{
    if g.len() == 0 {
        s.len() == 0
    } else {
        match g[0] {
            Node::Any => exists|k: int|
                0 <= k <= s.len() && !s.take(k).contains('\n') && #[trigger] node_match(g.skip(1), s.skip(k)),
            Node::Part => exists|k: int|
                0 <= k <= s.len() && !s.take(k).contains('/') && #[trigger] node_match(g.skip(1), s.skip(k)),
            Node::One => s.len() > 0 && s[0] != '\n' && node_match(g.skip(1), s.skip(1)),
            Node::Lit(c) => s.len() > 0 && s[0] == c && node_match(g.skip(1), s.skip(1)),
            Node::Alt(alts) => exists|a: int, k: int|
                0 <= a < alts.len() && 0 <= k <= s.len() && #[trigger] node_match(alts[a], s.take(k))
                    && #[trigger] node_match(g.skip(1), s.skip(k)),
        }
    }
}

/// The expression for a part.
pub open spec fn render(n: Node) -> Text
    decreases n,
{
    match n {
        Node::Any => ".*"@,
        Node::Part => "[^/]*"@,
        Node::One => "."@,
        Node::Lit(c) => literal(c),
        Node::Alt(alts) => "(?:"@ + render_alts(alts) + ")"@,
    }
}

/// The expression for parts one behind the other.
pub open spec fn render_all(g: Seq<Node>) -> Text
    decreases g,
{
    if g.len() == 0 {
        Seq::empty()
    } else {
        render_all(g.drop_last()) + render(g.last())
    }
}

/// The expression for alternatives.
pub open spec fn render_alts(alts: Seq<Seq<Node>>) -> Text
    decreases alts,
{
    if alts.len() == 0 {
        Seq::empty()
    } else if alts.len() == 1 {
        render_all(alts[0])
    } else {
        render_alts(alts.drop_last()) + "|"@ + render_all(alts.last())
    }
}

/// The expression that a whole text must match part by part.
pub open spec fn anchored(g: Seq<Node>) -> Text {
    "^"@ + render_all(g) + "$"@
}

/// Every choice among alternatives has one to choose.
pub open spec fn choosable(g: Seq<Node>) -> bool
    decreases g,
{
    forall|i: int|
        0 <= i < g.len() ==> match #[trigger] g[i] {
            Node::Alt(alts) => alts.len() > 0 && forall|a: int| 0 <= a < alts.len() ==> choosable(#[trigger] alts[a]),
            _ => true,
        }
}

// ---------------------------------------------------------------------- compiling and matching

impl Pattern {
    /// The expression this was compiled from.
    pub closed spec fn source(&self) -> Text {
        self.source@
    }

    /// Letter case is not told apart.
    pub closed spec fn fold(&self) -> bool {
        self.fold
    }

    /// `regex::RegexBuilder::new`, `case_insensitive` and `build` (`regex::Regex::new` is the same
    /// without the middle one): compiles an expression, or refuses it with a message. The outcome
    /// is a function of the expression, the flag and the width of pointers.
    #[verifier::external_body]
    fn compile(source: &str, fold: bool) -> (r: Result<Pattern, String>)
        ensures
            match r {
                Ok(p) => regex_error(source@, fold, usize::BITS as nat) is None && p.source() == source@ && p.fold() == fold,
                Err(e) => regex_error(source@, fold, usize::BITS as nat) == Some(e@),
            },
    {
        match regex::RegexBuilder::new(source).case_insensitive(fold).build() {
            Ok(re) => Ok(Pattern { source: source.to_string(), fold, re }),
            Err(e) => Err(e.to_string()),
        }
    }

    /// `regex::Regex::is_match`: whether the expression matches somewhere in `s`, a function of
    /// the expression, the flag and the text. An expression that escapes a text matches where that
    /// text stands. An anchored expression made of `.*`, `[^/]*`, `.`, escaped characters and
    /// groups of alternatives matches the texts that are made of what these stand for.
    #[verifier::external_body]
    pub(crate) fn is_match(&self, s: &str) -> (r: bool)
        ensures
            r == regex_finds(self.source(), self.fold(), s@),
            forall|t: Text| !self.fold() && self.source() == #[trigger] literals(t) ==> r == text::text_has(s@, t),
            forall|g: Seq<Node>|
                !self.fold() && choosable(g) && self.source() == #[trigger] anchored(g) ==> r == node_match(g, s@),
    {
        self.re.is_match(s)
    }

    /// Compiles an expression.
    pub fn new(source: &str) -> (r: Result<Pattern, String>)
        ensures
            match r {
                Ok(p) => refusal(source@, false) is None && p.source() == source@ && !p.fold(),
                Err(e) => refusal(source@, false) == Some(e@),
            },
    {
        Pattern::compile(source, false)
    }

    /// Compiles an expression that matches the text `s` in any letter case.
    pub fn containing(s: &str) -> (r: Result<Pattern, String>)
        ensures
            match r {
                Ok(p) => refusal(literals(s@), true) is None && p.source() == literals(s@) && p.fold(),
                Err(e) => refusal(literals(s@), true) == Some(e@),
            },
    {
        Pattern::compile(&escape(s), true)
    }
}

// ---------------------------------------------------------------------- from globs to expressions

/// The glob has a wildcard.
pub open spec fn has_wildcard(glob: Text) -> bool {
    glob.contains('*') || glob.contains('?') || glob.contains('{')
}

/// The expression for the rest of a glob, inside a group or outside of one.
pub open spec fn glob_body(s: Text, in_group: bool) -> Text
    decreases s.len(),
{
    if s.len() == 0 {
        Seq::empty()
    } else if s[0] == '*' && s.len() > 1 && s[1] == '*' {
        ".*"@ + glob_body(s.skip(2), in_group)
    } else if s[0] == '*' {
        "[^/]*"@ + glob_body(s.skip(1), in_group)
    } else if s[0] == '?' {
        "."@ + glob_body(s.skip(1), in_group)
    } else if s[0] == '{' {
        "(?:"@ + glob_body(s.skip(1), true)
    } else if s[0] == '}' && in_group {
        ")"@ + glob_body(s.skip(1), false)
    } else if s[0] == ',' && in_group {
        "|"@ + glob_body(s.skip(1), in_group)
    } else {
        literal(s[0]) + glob_body(s.skip(1), in_group)
    }
}

/// The expression for a glob. Without a wildcard it matches the glob's text anywhere.
pub open spec fn glob_source(glob: Text) -> Text {
    if has_wildcard(glob) {
        "^"@ + glob_body(glob, false) + "$"@
    } else {
        literals(glob)
    }
}

fn wild(v: &Vec<char>) -> (r: bool)
    ensures
        r == has_wildcard(v@),
{
    let mut i: usize = 0;
    while i < v.len()
        invariant
            i <= v@.len(),
            forall|k: int| 0 <= k < i ==> v@[k] != '*' && v@[k] != '?' && v@[k] != '{',
        decreases v@.len() - i,
    {
        if v[i] == '*' || v[i] == '?' || v[i] == '{' {
            proof {
                assert(v@[i as int] == v[i as int]);
            }
            return true;
        }
        i = i + 1;
    }
    false
}

/// The expression for one character.
fn escape_char(c: char) -> (r: String)
    ensures
        r@ == literal(c),
{
    let mut s = String::new();
    s.push(c);
    proof {
        reveal_with_fuel(literals, 2);
        assert(s@ =~= seq![c]);
        assert(seq![c].drop_last() =~= Seq::<char>::empty());
        assert(literals(seq![c]) =~= literal(c));
    }
    escape(&s)
}

/// The expression for a glob.
fn glob_expression(glob: &str) -> (r: String)
    ensures
        r@ == glob_source(glob@),
{
    let chars = text::chars_of(glob);
    if !wild(&chars) {
        return escape(glob);
    }
    let mut re = "^".to_string();
    let mut i: usize = 0;
    let mut in_group = false;
    let ghost all = glob_body(glob@, false);
    proof {
        assert(chars@.skip(0) =~= glob@);
        assert("^"@ + all =~= re@ + all);
    }
    while i < chars.len()
        invariant
            i <= chars@.len(),
            "^"@ + all == re@ + glob_body(chars@.skip(i as int), in_group),
        decreases chars@.len() - i,
    {
        let ghost rest = chars@.skip(i as int);
        let ghost before = re@;
        let ghost inside = in_group;
        proof {
            assert(rest[0] == chars@[i as int]);
            assert(rest.skip(1) =~= chars@.skip(i + 1));
            if i + 1 < chars@.len() {
                assert(rest[1] == chars@[i + 1]);
                assert(rest.skip(2) =~= chars@.skip(i + 2));
            }
        }
        let c = chars[i];
        if c == '*' && chars.len() - i > 1 && chars[i + 1] == '*' {
            re.append(".*");
            i = i + 1;
        } else if c == '*' {
            re.append("[^/]*");
        } else if c == '?' {
            re.append(".");
        } else if c == '{' {
            in_group = true;
            re.append("(?:");
        } else if c == '}' && in_group {
            in_group = false;
            re.append(")");
        } else if c == ',' && in_group {
            re.append("|");
        } else {
            re.append(&escape_char(c));
        }
        i = i + 1;
        proof {
            assert(before + glob_body(rest, inside) =~= re@ + glob_body(chars@.skip(i as int), in_group));
        }
    }
    proof {
        assert(chars@.skip(i as int) =~= Seq::<char>::empty());
        assert(re@ =~= "^"@ + all);
    }
    re.append("$");
    re
}

/// Compiles a URL glob: `**` stands for any characters, `*` for any characters except `/`, `?` for
/// one character, `{a,b}` for one of the alternatives. A glob without wildcards matches as a
/// substring of the URL.
pub fn glob_to_regex(glob: &str) -> (r: Result<Pattern, String>)
    ensures
        match r {
            Ok(p) => refusal(glob_source(glob@), false) is None && p.source() == glob_source(glob@) && !p.fold(),
            Err(e) => refusal(glob_source(glob@), false) == Some(e@),
        },
{
    Pattern::new(&glob_expression(glob))
}

// ---------------------------------------------------------------------- what globs mean

/// The part that a glob begins with where that is no group, and how many characters it takes.
pub open spec fn first_node(s: Text) -> (Node, int) {
    if s[0] == '*' && s.len() > 1 && s[1] == '*' {
        (Node::Any, 2)
    } else if s[0] == '*' {
        (Node::Part, 1)
    } else if s[0] == '?' {
        (Node::One, 1)
    } else {
        (Node::Lit(s[0]), 1)
    }
}

/// The alternatives of a group whose text, behind the opening brace, begins with `s`, and what
/// stands behind the closing brace. Groups do not stand inside groups.
pub open spec fn group_nodes(s: Text, done: Seq<Seq<Node>>, cur: Seq<Node>) -> Option<(Seq<Seq<Node>>, Text)>
    decreases s.len(),
{
    if s.len() == 0 || s[0] == '{' {
        None
    } else if s[0] == '}' {
        Some((done.push(cur), s.skip(1)))
    } else if s[0] == ',' {
        group_nodes(s.skip(1), done.push(cur), Seq::empty())
    } else {
        group_nodes(s.skip(first_node(s).1), done, cur.push(first_node(s).0))
    }
}

/// The parts of a glob; `None` where a group does not close or stands inside another.
pub open spec fn glob_nodes(s: Text) -> Option<Seq<Node>>
    decreases s.len(),
{
    if s.len() == 0 {
        Some(Seq::empty())
    } else if s[0] == '{' {
        match group_nodes(s.skip(1), Seq::empty(), Seq::empty()) {
            Some((alts, rest)) if rest.len() < s.len() => match glob_nodes(rest) {
                Some(g) => Some(seq![Node::Alt(alts)] + g),
                None => None,
            },
            _ => None,
        }
    } else {
        match glob_nodes(s.skip(first_node(s).1)) {
            Some(g) => Some(seq![first_node(s).0] + g),
            None => None,
        }
    }
}

proof fn lemma_render_cons(n: Node, g: Seq<Node>)
    ensures
        render_all(seq![n] + g) == render(n) + render_all(g),
    decreases g.len(),
{
    if g.len() == 0 {
        reveal_with_fuel(render_all, 2);
        assert(seq![n] + g =~= seq![n]);
        assert(seq![n].drop_last() =~= Seq::<Node>::empty());
        assert(render_all(seq![n]) =~= render(n));
        assert(render(n) + render_all(g) =~= render(n));
    } else {
        lemma_render_cons(n, g.drop_last());
        assert((seq![n] + g).drop_last() =~= seq![n] + g.drop_last());
        assert(render_all(seq![n] + g) =~= render(n) + render_all(g));
    }
}

proof fn lemma_render_push(g: Seq<Node>, n: Node)
    ensures
        render_all(g.push(n)) == render_all(g) + render(n),
{
    assert(g.push(n).drop_last() =~= g);
}

proof fn lemma_alts_push(done: Seq<Seq<Node>>, cur: Seq<Node>)
    ensures
        render_alts(done.push(cur)) == (if done.len() == 0 {
            render_all(cur)
        } else {
            render_alts(done) + "|"@ + render_all(cur)
        }),
{
    assert(done.push(cur).drop_last() =~= done);
}

/// No part is a group.
spec fn flat(g: Seq<Node>) -> bool {
    forall|i: int| 0 <= i < g.len() ==> !((#[trigger] g[i]) is Alt)
}

proof fn lemma_group(s: Text, done: Seq<Seq<Node>>, cur: Seq<Node>)
    requires
        group_nodes(s, done, cur) is Some,
        flat(cur),
        forall|a: int| 0 <= a < done.len() ==> flat(#[trigger] done[a]),
    ensures
        ({
            let (alts, rest) = group_nodes(s, done, cur)->0;
            &&& rest.len() < s.len()
            &&& alts.len() > 0
            &&& forall|a: int| 0 <= a < alts.len() ==> flat(#[trigger] alts[a])
            &&& render_alts(done.push(cur)) + glob_body(s, true) == render_alts(alts) + ")"@ + glob_body(rest, false)
        }),
    decreases s.len(),
{
    let (alts, rest) = group_nodes(s, done, cur)->0;
    let so_far = render_alts(done.push(cur));
    if s[0] == '}' {
        assert(so_far + glob_body(s, true) =~= render_alts(alts) + ")"@ + glob_body(rest, false));
    } else if s[0] == ',' {
        let none = Seq::<Node>::empty();
        lemma_alts_push(done.push(cur), none);
        lemma_group(s.skip(1), done.push(cur), none);
        assert(so_far + glob_body(s, true) =~= render_alts(done.push(cur).push(none)) + glob_body(s.skip(1), true));
    } else {
        let (n, k) = first_node(s);
        lemma_alts_push(done, cur);
        lemma_alts_push(done, cur.push(n));
        lemma_render_push(cur, n);
        lemma_group(s.skip(k), done, cur.push(n));
        assert(so_far + glob_body(s, true) =~= render_alts(done.push(cur.push(n))) + glob_body(s.skip(k), true));
    }
}

proof fn lemma_glob_body(s: Text)
    requires
        glob_nodes(s) is Some,
    ensures
        glob_body(s, false) == render_all(glob_nodes(s)->0),
        choosable(glob_nodes(s)->0),
    decreases s.len(),
{
    let g = glob_nodes(s)->0;
    if s.len() > 0 {
        let (n, rest) = if s[0] == '{' {
            lemma_group(s.skip(1), Seq::empty(), Seq::empty());
            let (alts, rest) = group_nodes(s.skip(1), Seq::empty(), Seq::empty())->0;
            lemma_alts_push(Seq::empty(), Seq::empty());
            let inner = glob_body(s.skip(1), true);
            assert(render_alts(Seq::<Seq<Node>>::empty().push(Seq::empty())) + inner =~= inner);
            assert(glob_body(s, false) =~= render(Node::Alt(alts)) + glob_body(rest, false));
            assert forall|a: int| 0 <= a < alts.len() implies choosable(#[trigger] alts[a]) by {
                assert(flat(alts[a]));
            }
            (Node::Alt(alts), rest)
        } else {
            (first_node(s).0, s.skip(first_node(s).1))
        };
        lemma_glob_body(rest);
        lemma_render_cons(n, glob_nodes(rest)->0);
        assert(g == seq![n] + glob_nodes(rest)->0);
        assert forall|i: int| 0 <= i < g.len() implies match #[trigger] g[i] {
            Node::Alt(alts) => alts.len() > 0 && forall|a: int| 0 <= a < alts.len() ==> choosable(#[trigger] alts[a]),
            _ => true,
        } by {
            if i > 0 {
                assert(g[i] == (glob_nodes(rest)->0)[i - 1]);
            }
        }
    }
}

/// A glob whose groups close, and that has a wildcard, is compiled to the expression that matches
/// what its parts stand for.
pub proof fn law_glob_source(glob: Text)
    requires
        has_wildcard(glob),
        glob_nodes(glob) is Some,
    ensures
        glob_source(glob) == anchored(glob_nodes(glob)->0),
        choosable(glob_nodes(glob)->0),
{
    lemma_glob_body(glob);
}

/// What a glob stands for: without a wildcard the URLs that contain it, otherwise the URLs that are
/// made of what its parts stand for.
pub open spec fn glob_match(glob: Text, url: Text) -> bool {
    if has_wildcard(glob) {
        glob_nodes(glob) is Some && node_match(glob_nodes(glob)->0, url)
    } else {
        text::text_has(url, glob)
    }
}

/// Whether a URL matches a pattern that was compiled from a glob.
pub fn url_matches(glob: &str, pattern: &Pattern, url: &str) -> (r: bool)
    requires
        pattern.source() == glob_source(glob@),
        !pattern.fold(),
    ensures
        r == regex_finds(glob_source(glob@), false, url@),
        !has_wildcard(glob@) || glob_nodes(glob@) is Some ==> r == glob_match(glob@, url@),
{
    proof {
        if has_wildcard(glob@) && glob_nodes(glob@) is Some {
            law_glob_source(glob@);
        }
    }
    pattern.is_match(url)
}

/// A glob has a wildcard where a star, a question mark or an opening brace stands in it.
pub proof fn law_wildcards(glob: Text)
    ensures
        has_wildcard(glob) <==> exists|i: int|
            0 <= i < glob.len() && (#[trigger] glob[i] == '*' || glob[i] == '?' || glob[i] == '{'),
{
    if has_wildcard(glob) {
        let c = if glob.contains('*') {
            '*'
        } else if glob.contains('?') {
            '?'
        } else {
            '{'
        };
        let i = choose|i: int| 0 <= i < glob.len() && glob[i] == c;
        assert(glob[i] == '*' || glob[i] == '?' || glob[i] == '{');
    }
    if exists|i: int| 0 <= i < glob.len() && (#[trigger] glob[i] == '*' || glob[i] == '?' || glob[i] == '{') {
        let i = choose|i: int| 0 <= i < glob.len() && (#[trigger] glob[i] == '*' || glob[i] == '?' || glob[i] == '{');
        assert(glob.contains(glob[i]));
    }
}

/// The parts of a glob: two stars stand for anything, one star for anything without a slash, a question mark
/// for one character, and any other character for itself; the rest of the glob stands for the rest.
pub proof fn law_parts_of_globs(c: char, rest: Text)
    requires
        glob_nodes(rest) is Some,
    ensures
        glob_nodes(Seq::empty()) == Some(Seq::<Node>::empty()),
        glob_nodes(seq!['*', '*'] + rest) == Some(seq![Node::Any] + glob_nodes(rest)->0),
        rest.len() == 0 || rest[0] != '*' ==> glob_nodes(seq!['*'] + rest) == Some(seq![Node::Part] + glob_nodes(rest)->0),
        glob_nodes(seq!['?'] + rest) == Some(seq![Node::One] + glob_nodes(rest)->0),
        c != '*' && c != '?' && c != '{' ==> glob_nodes(seq![c] + rest) == Some(seq![Node::Lit(c)] + glob_nodes(rest)->0),
{
    assert((seq!['*', '*'] + rest).skip(2) =~= rest);
    assert((seq!['*'] + rest).skip(1) =~= rest);
    assert((seq!['?'] + rest).skip(1) =~= rest);
    assert((seq![c] + rest).skip(1) =~= rest);
}

/// The text stands for itself, character by character.
pub open spec fn text_nodes(s: Text) -> Seq<Node>
    decreases s.len(),
{
    if s.len() == 0 {
        Seq::empty()
    } else {
        seq![Node::Lit(s[0])] + text_nodes(s.skip(1))
    }
}

/// A character that means nothing in a glob, inside a group or outside of one.
pub open spec fn plain_in_globs(s: Text) -> bool {
    forall|i: int|
        0 <= i < s.len() ==> #[trigger] s[i] != '*' && s[i] != '?' && s[i] != '{' && s[i] != '}' && s[i] != ','
}

proof fn lemma_group_text(s: Text, t: Text, done: Seq<Seq<Node>>, cur: Seq<Node>)
    requires
        plain_in_globs(s),
    ensures
        group_nodes(s + t, done, cur) == group_nodes(t, done, cur + text_nodes(s)),
    decreases s.len(),
{
    if s.len() == 0 {
        assert(s + t =~= t);
        assert(cur + text_nodes(s) =~= cur);
    } else {
        let a = s + t;
        assert(a[0] == s[0]);
        assert(s[0] != '*');
        assert(a.skip(1) =~= s.skip(1) + t);
        assert forall|i: int| 0 <= i < s.skip(1).len() implies #[trigger] s.skip(1)[i] != '*' && s.skip(1)[i] != '?'
            && s.skip(1)[i] != '{' && s.skip(1)[i] != '}' && s.skip(1)[i] != ',' by {
            assert(s[i + 1] == s.skip(1)[i]);
        }
        lemma_group_text(s.skip(1), t, done, cur.push(Node::Lit(s[0])));
        let one = seq![Node::Lit(s[0])];
        assert(text_nodes(s) == one + text_nodes(s.skip(1)));
        assert(cur.push(Node::Lit(s[0])) =~= cur + one);
        assert(cur + one + text_nodes(s.skip(1)) =~= cur + (one + text_nodes(s.skip(1))));
    }
}

/// A group in braces stands for either of its texts, which a comma separates.
pub proof fn law_groups_of_globs(a: Text, b: Text, rest: Text)
    requires
        plain_in_globs(a),
        plain_in_globs(b),
        glob_nodes(rest) is Some,
    ensures
        glob_nodes(seq!['{'] + a + seq![','] + b + seq!['}'] + rest) == Some(
            seq![Node::Alt(seq![text_nodes(a), text_nodes(b)])] + glob_nodes(rest)->0,
        ),
{
    let s = seq!['{'] + a + seq![','] + b + seq!['}'] + rest;
    let none = Seq::<Node>::empty();
    let t3 = seq!['}'] + rest;
    let t2 = b + t3;
    let t1 = seq![','] + t2;
    assert(s.skip(1) =~= a + t1);
    lemma_group_text(a, t1, Seq::empty(), none);
    assert(none + text_nodes(a) =~= text_nodes(a));
    assert(t1.skip(1) =~= t2);
    assert(Seq::<Seq<Node>>::empty().push(text_nodes(a)) =~= seq![text_nodes(a)]);
    lemma_group_text(b, t3, seq![text_nodes(a)], none);
    assert(none + text_nodes(b) =~= text_nodes(b));
    assert(t3.skip(1) =~= rest);
    assert(seq![text_nodes(a)].push(text_nodes(b)) =~= seq![text_nodes(a), text_nodes(b)]);
}

/// What the parts of a glob match: a character itself, a question mark any character of a line, one star no
/// text with a slash, and two stars no text of several lines.
pub proof fn law_parts_match(g: Seq<Node>, c: char, s: Text)
    ensures
        node_match(Seq::empty(), s) <==> s.len() == 0,
        node_match(seq![Node::Lit(c)] + g, s) <==> s.len() > 0 && s[0] == c && node_match(g, s.skip(1)),
        node_match(seq![Node::One] + g, s) <==> s.len() > 0 && s[0] != '\n' && node_match(g, s.skip(1)),
        node_match(seq![Node::Part], s) ==> !s.contains('/'),
        node_match(seq![Node::Any], s) ==> !s.contains('\n'),
{
    reveal_with_fuel(node_match, 2);
    assert((seq![Node::Lit(c)] + g).skip(1) =~= g);
    assert((seq![Node::One] + g).skip(1) =~= g);
    let p = seq![Node::Part];
    let q = seq![Node::Any];
    assert(p.skip(1) =~= Seq::<Node>::empty());
    assert(q.skip(1) =~= Seq::<Node>::empty());
    assert(p[0] == Node::Part && q[0] == Node::Any);
    if node_match(p, s) {
        let k = choose|k: int|
            0 <= k <= s.len() && !s.take(k).contains('/') && node_match(p.skip(1), #[trigger] s.skip(k));
        assert(s.skip(k).len() == 0);
        assert(s.take(k) =~= s);
    }
    if node_match(q, s) {
        let k = choose|k: int|
            0 <= k <= s.len() && !s.take(k).contains('\n') && node_match(q.skip(1), #[trigger] s.skip(k));
        assert(s.skip(k).len() == 0);
        assert(s.take(k) =~= s);
    }
}

/// A glob without a wildcard matches wherever its text stands in a URL; one with a wildcard matches whole URLs
/// by its parts.
pub proof fn law_globs_match(glob: Text, url: Text)
    ensures
        !has_wildcard(glob) ==> (glob_match(glob, url) <==> text::text_has(url, glob)),
        has_wildcard(glob) && glob_nodes(glob) is Some ==> (glob_match(glob, url) <==> node_match(
            glob_nodes(glob)->0,
            url,
        )),
{
}

} // verus!
