//! Base64, and what kind of value a JSON text holds.

use crate::text::Text;
use base64::Engine;
use vstd::prelude::*;

verus! {

// ---------------------------------------------------------------------- base64

/// The digit of base64 for six bits.
pub open spec fn base64_digit(n: int) -> char {
    if n < 26 {
        ((65 + n) as u8) as char
    } else if n < 52 {
        ((71 + n) as u8) as char
    } else if n < 62 {
        ((n - 4) as u8) as char
    } else if n == 62 {
        '+'
    } else {
        '/'
    }
}

/// Base64 with the standard alphabet and padding: three bytes in four digits.
pub open spec fn base64_text(b: Seq<u8>) -> Text
    decreases b.len(),
{
    if b.len() == 0 {
        Seq::empty()
    } else if b.len() == 1 {
        seq![base64_digit(b[0] as int / 4), base64_digit((b[0] as int % 4) * 16), '=', '=']
    } else if b.len() == 2 {
        seq![
            base64_digit(b[0] as int / 4),
            base64_digit((b[0] as int % 4) * 16 + b[1] as int / 16),
            base64_digit((b[1] as int % 16) * 4),
            '=',
        ]
    } else {
        seq![
            base64_digit(b[0] as int / 4),
            base64_digit((b[0] as int % 4) * 16 + b[1] as int / 16),
            base64_digit((b[1] as int % 16) * 4 + b[2] as int / 64),
            base64_digit(b[2] as int % 64),
        ] + base64_text(b.skip(3))
    }
}

/// `Engine::encode` of `base64::engine::general_purpose::STANDARD`: the standard alphabet with
/// padding.
#[verifier::external_body]
pub(crate) fn encode(data: &[u8]) -> (r: String)
    ensures
        r@ == base64_text(data@),
{
    base64::engine::general_purpose::STANDARD.encode(data)
}

/// What base64 says of a text that it refuses.
pub uninterp spec fn base64_error(s: Text) -> Text;

/// `Engine::decode` of `base64::engine::general_purpose::STANDARD`: gives the bytes that encode to
/// the text, and refuses every text that no bytes encode to. What the error says is a function of
/// the text alone.
#[verifier::external_body]
fn decode_standard(s: &str) -> (r: Result<Vec<u8>, String>)
    ensures
        match r {
            Ok(b) => s@ == base64_text(b@),
            Err(e) => e@ == base64_error(s@) && forall|b: Seq<u8>| s@ != #[trigger] base64_text(b),
        },
{
    base64::engine::general_purpose::STANDARD.decode(s).map_err(|e| e.to_string())
}

/// The bytes that encode to a text, if there are some.
pub open spec fn base64_bytes(s: Text) -> Option<Seq<u8>> {
    if exists|b: Seq<u8>| s == #[trigger] base64_text(b) {
        Some(choose|b: Seq<u8>| s == #[trigger] base64_text(b))
    } else {
        None
    }
}

/// The bytes inside an option.
pub open spec fn opt_bytes(o: Option<Vec<u8>>) -> Option<Seq<u8>> {
    match o {
        Some(b) => Some(b@),
        None => None,
    }
}

/// Reads base64, and says what is wrong with any other text.
pub fn decode_checked(s: &str) -> (r: Result<Vec<u8>, String>)
    ensures
        match (base64_bytes(s@), r) {
            (Some(b), Ok(v)) => v@ == b,
            (None, Err(e)) => e@ == base64_error(s@),
            _ => false,
        },
{
    let r = decode_standard(s);
    proof {
        if r is Ok {
            law_base64_round_trip(r->Ok_0@, base64_bytes(s@)->0);
        }
    }
    r
}

/// Reads base64.
pub fn decode(s: &str) -> (r: Option<Vec<u8>>)
    ensures
        opt_bytes(r) == base64_bytes(s@),
{
    match decode_checked(s) {
        Ok(b) => Some(b),
        Err(_) => None,
    }
}

proof fn lemma_digit(m: int, n: int)
    requires
        0 <= m < 64,
        0 <= n < 64,
        base64_digit(m) == base64_digit(n),
    ensures
        m == n,
{
}

/// Different bytes have different texts: what was encoded is read back.
pub proof fn law_base64_round_trip(a: Seq<u8>, b: Seq<u8>)
    requires
        base64_text(a) == base64_text(b),
    ensures
        a == b,
    decreases a.len(),
{
    let s = base64_text(a);
    let t = base64_text(b);
    if a.len() == 0 || b.len() == 0 {
        if a.len() != 0 {
            assert(s.len() >= 4);
        }
        if b.len() != 0 {
            assert(t.len() >= 4);
        }
        assert(a =~= b);
    } else {
        assert(s[0] == t[0] && s[1] == t[1] && s[2] == t[2] && s[3] == t[3]);
        lemma_digit(a[0] as int / 4, b[0] as int / 4);
        if a.len() == 1 {
            assert(b.len() == 1);
            lemma_digit((a[0] as int % 4) * 16, (b[0] as int % 4) * 16);
            assert(a =~= b);
        } else if a.len() == 2 {
            assert(b.len() == 2);
            lemma_digit((a[0] as int % 4) * 16 + a[1] as int / 16, (b[0] as int % 4) * 16 + b[1] as int / 16);
            lemma_digit((a[1] as int % 16) * 4, (b[1] as int % 16) * 4);
            assert(a =~= b);
        } else {
            assert(b.len() >= 3);
            lemma_digit((a[0] as int % 4) * 16 + a[1] as int / 16, (b[0] as int % 4) * 16 + b[1] as int / 16);
            lemma_digit((a[1] as int % 16) * 4 + a[2] as int / 64, (b[1] as int % 16) * 4 + b[2] as int / 64);
            lemma_digit(a[2] as int % 64, b[2] as int % 64);
            assert(s.skip(4) =~= base64_text(a.skip(3)));
            assert(t.skip(4) =~= base64_text(b.skip(3)));
            law_base64_round_trip(a.skip(3), b.skip(3));
            assert(a =~= a.take(3) + a.skip(3));
            assert(b =~= b.take(3) + b.skip(3));
            assert(a.take(3) =~= b.take(3));
        }
    }
}

// ---------------------------------------------------------------------- JSON texts

/// What kind of value a JSON text holds.
#[derive(Clone, Copy, PartialEq, Eq, Structural)]
pub enum JsonKind {
    /// The text is no JSON.
    Invalid,
    Object,
    Array,
    /// Null, a truth value, a number or a string.
    Other,
}

/// What `serde_json::from_str` makes of a text, by its kind.
pub uninterp spec fn json_kind_of(s: Text) -> JsonKind;

/// `serde_json::from_str` into a `serde_json::Value`: which kind of value the text holds, or that
/// it holds none; a function of the text alone.
#[verifier::external_body]
pub(crate) fn json_kind(s: &str) -> (r: JsonKind)
    ensures
        r == json_kind_of(s@),
{
    match serde_json::from_str::<serde_json::Value>(s) {
        Ok(serde_json::Value::Object(_)) => JsonKind::Object,
        Ok(serde_json::Value::Array(_)) => JsonKind::Array,
        Ok(_) => JsonKind::Other,
        Err(_) => JsonKind::Invalid,
    }
}

} // verus!
