//! Keyboard definitions for `Input.dispatchKeyEvent`: key names ("Enter", "ArrowLeft", "a",
//! "Control+Shift+K", "ControlOrMeta+A") resolved to key, code, key code and text.

use crate::text;
use crate::text::Text;
use vstd::prelude::*;

verus! {

pub const ALT: i64 = 1;

pub const CONTROL: i64 = 2;

pub const META: i64 = 4;

pub const SHIFT: i64 = 8;

pub struct KeyDef {
    pub key: String,
    pub code: String,
    pub key_code: i64,
    /// Text inserted by the key, if any (only sent when no Control/Meta modifier is held).
    pub text: Option<String>,
    pub location: i64,
}

/// What a `KeyDef` holds.
#[verifier::ext_equal]
pub struct KeyDefV {
    pub key: Text,
    pub code: Text,
    pub key_code: int,
    pub text: Option<Text>,
    pub location: int,
}

impl View for KeyDef {
    type V = KeyDefV;

    open spec fn view(&self) -> KeyDefV {
        KeyDefV {
            key: self.key@,
            code: self.code@,
            key_code: self.key_code as int,
            text: text::opt_text(self.text),
            location: self.location as int,
        }
    }
}

impl Clone for KeyDef {
    fn clone(&self) -> (r: KeyDef)
        ensures
            r@ == self@,
    {
        KeyDef {
            key: self.key.clone(),
            code: self.code.clone(),
            key_code: self.key_code,
            text: match &self.text {
                Some(t) => Some(t.clone()),
                None => None,
            },
            location: self.location,
        }
    }
}

pub struct Combo {
    pub modifiers: Vec<KeyDef>,
    pub mask: i64,
    pub key: KeyDef,
}

/// What a `Combo` holds.
#[verifier::ext_equal]
pub struct ComboV {
    pub modifiers: Seq<KeyDefV>,
    pub mask: i64,
    pub key: KeyDefV,
}

impl View for Combo {
    type V = ComboV;

    open spec fn view(&self) -> ComboV {
        ComboV { modifiers: text::views(self.modifiers@), mask: self.mask, key: self.key@ }
    }
}

// ---------------------------------------------------------------------- named keys

/// The key code of a key that is called by its own code and types nothing.
pub open spec fn plain_code(name: Text) -> Option<int> {
    if name == "Tab"@ {
        Some(9)
    } else if name == "Backspace"@ {
        Some(8)
    } else if name == "Delete"@ {
        Some(46)
    } else if name == "Escape"@ {
        Some(27)
    } else if name == "ArrowUp"@ {
        Some(38)
    } else if name == "ArrowDown"@ {
        Some(40)
    } else if name == "ArrowLeft"@ {
        Some(37)
    } else if name == "ArrowRight"@ {
        Some(39)
    } else if name == "Home"@ {
        Some(36)
    } else if name == "End"@ {
        Some(35)
    } else if name == "PageUp"@ {
        Some(33)
    } else if name == "PageDown"@ {
        Some(34)
    } else if name == "Insert"@ {
        Some(45)
    } else if name == "CapsLock"@ {
        Some(20)
    } else {
        None
    }
}

/// The number of a function key, F1 to F12.
pub open spec fn function_key(name: Text) -> Option<nat> {
    if name.len() > 0 && name[0] == 'F' {
        match text::number_value(name.skip(1)) {
            Some(n) if 1 <= n <= 12 => Some(n),
            _ => None,
        }
    } else {
        None
    }
}

/// A modifier key, on the left side.
pub open spec fn modifier_key(name: Text, code: Text, key_code: int) -> KeyDefV {
    KeyDefV { key: name, code, key_code, text: None, location: 1 }
}

/// The key of a name.
pub open spec fn named_key(name: Text) -> Option<KeyDefV> {
    if name == "Enter"@ {
        Some(KeyDefV { key: "Enter"@, code: "Enter"@, key_code: 13, text: Some("\r"@), location: 0 })
    } else if name == "Space"@ || name == " "@ {
        Some(KeyDefV { key: " "@, code: "Space"@, key_code: 32, text: Some(" "@), location: 0 })
    } else if name == "Shift"@ {
        Some(modifier_key("Shift"@, "ShiftLeft"@, 16))
    } else if name == "Control"@ {
        Some(modifier_key("Control"@, "ControlLeft"@, 17))
    } else if name == "Alt"@ {
        Some(modifier_key("Alt"@, "AltLeft"@, 18))
    } else if name == "Meta"@ {
        Some(modifier_key("Meta"@, "MetaLeft"@, 91))
    } else {
        match plain_code(name) {
            Some(c) => Some(KeyDefV { key: name, code: name, key_code: c, text: None, location: 0 }),
            None => match function_key(name) {
                Some(n) => Some(KeyDefV { key: name, code: name, key_code: 111 + n as int, text: None, location: 0 }),
                None => None,
            },
        }
    }
}

/// The view inside an option.
pub open spec fn opt_key(o: Option<KeyDef>) -> Option<KeyDefV> {
    match o {
        Some(k) => Some(k@),
        None => None,
    }
}

fn plain(name: &str) -> (r: Option<i64>)
    ensures
        match r {
            Some(c) => plain_code(name@) == Some(c as int),
            None => plain_code(name@) is None,
        },
{
    if text::same(name, "Tab") {
        Some(9)
    } else if text::same(name, "Backspace") {
        Some(8)
    } else if text::same(name, "Delete") {
        Some(46)
    } else if text::same(name, "Escape") {
        Some(27)
    } else if text::same(name, "ArrowUp") {
        Some(38)
    } else if text::same(name, "ArrowDown") {
        Some(40)
    } else if text::same(name, "ArrowLeft") {
        Some(37)
    } else if text::same(name, "ArrowRight") {
        Some(39)
    } else if text::same(name, "Home") {
        Some(36)
    } else if text::same(name, "End") {
        Some(35)
    } else if text::same(name, "PageUp") {
        Some(33)
    } else if text::same(name, "PageDown") {
        Some(34)
    } else if text::same(name, "Insert") {
        Some(45)
    } else if text::same(name, "CapsLock") {
        Some(20)
    } else {
        None
    }
}

fn function_number(name: &str) -> (r: Option<u64>)
    ensures
        match r {
            Some(n) => function_key(name@) == Some(n as nat) && 1 <= n <= 12,
            None => function_key(name@) is None,
        },
{
    let v = text::chars_of(name);
    if v.len() == 0 || v[0] != 'F' {
        return None;
    }
    match text::parse_number(&text::skip_chars(name, 1), 12) {
        Some(n) => if n >= 1 {
            Some(n)
        } else {
            None
        },
        None => None,
    }
}

fn key_def(key: &str, code: &str, key_code: i64, text: Option<&str>, location: i64) -> (r: KeyDef)
    ensures
        r@ == (KeyDefV {
            key: key@,
            code: code@,
            key_code: key_code as int,
            text: match text {
                Some(t) => Some(t@),
                None => None,
            },
            location: location as int,
        }),
{
    KeyDef {
        key: key.to_string(),
        code: code.to_string(),
        key_code,
        text: match text {
            Some(t) => Some(t.to_string()),
            None => None,
        },
        location,
    }
}

/// The key of a name.
pub fn named(name: &str) -> (r: Option<KeyDef>)
    ensures
        opt_key(r) == named_key(name@),
{
    if text::same(name, "Enter") {
        Some(key_def("Enter", "Enter", 13, Some("\r"), 0))
    } else if text::same(name, "Space") || text::same(name, " ") {
        Some(key_def(" ", "Space", 32, Some(" "), 0))
    } else if text::same(name, "Shift") {
        Some(key_def("Shift", "ShiftLeft", 16, None, 1))
    } else if text::same(name, "Control") {
        Some(key_def("Control", "ControlLeft", 17, None, 1))
    } else if text::same(name, "Alt") {
        Some(key_def("Alt", "AltLeft", 18, None, 1))
    } else if text::same(name, "Meta") {
        Some(key_def("Meta", "MetaLeft", 91, None, 1))
    } else {
        match plain(name) {
            Some(c) => Some(key_def(name, name, c, None, 0)),
            None => match function_number(name) {
                Some(n) => Some(key_def(name, name, 111 + n as i64, None, 0)),
                None => None,
            },
        }
    }
}

// ---------------------------------------------------------------------- character keys

/// Code and key code of a punctuation key of the US layout.
pub open spec fn punctuation(c: char) -> Option<(Text, int)> {
    if c == ' ' {
        Some(("Space"@, 32))
    } else if c == '-' {
        Some(("Minus"@, 189))
    } else if c == '=' {
        Some(("Equal"@, 187))
    } else if c == ',' {
        Some(("Comma"@, 188))
    } else if c == '.' {
        Some(("Period"@, 190))
    } else if c == '/' {
        Some(("Slash"@, 191))
    } else if c == ';' {
        Some(("Semicolon"@, 186))
    } else if c == '\'' {
        Some(("Quote"@, 222))
    } else if c == '[' {
        Some(("BracketLeft"@, 219))
    } else if c == ']' {
        Some(("BracketRight"@, 221))
    } else if c == '\\' {
        Some(("Backslash"@, 220))
    } else if c == '`' {
        Some(("Backquote"@, 192))
    } else {
        None
    }
}

/// Code and key code of a character; nothing and 0 where the US layout has no key for it.
pub open spec fn char_code(c: char) -> (Text, int) {
    if 'a' <= c <= 'z' || 'A' <= c <= 'Z' {
        ("Key"@.push(text::upper_char(c)), text::upper_char(c) as int)
    } else if '0' <= c <= '9' {
        ("Digit"@.push(c), c as int)
    } else {
        match punctuation(c) {
            Some(p) => p,
            None => (Seq::empty(), 0),
        }
    }
}

/// The key of a character.
pub open spec fn key_of_char(c: char) -> KeyDefV {
    if c == '\n' || c == '\r' {
        named_key("Enter"@)->0
    } else if c == '\t' {
        named_key("Tab"@)->0
    } else {
        KeyDefV { key: seq![c], code: char_code(c).0, key_code: char_code(c).1, text: Some(seq![c]), location: 0 }
    }
}

fn punctuation_code(c: char) -> (r: Option<(&'static str, i64)>)
    ensures
        match r {
            Some((s, k)) => punctuation(c) == Some((s@, k as int)),
            None => punctuation(c) is None,
        },
{
    if c == ' ' {
        Some(("Space", 32))
    } else if c == '-' {
        Some(("Minus", 189))
    } else if c == '=' {
        Some(("Equal", 187))
    } else if c == ',' {
        Some(("Comma", 188))
    } else if c == '.' {
        Some(("Period", 190))
    } else if c == '/' {
        Some(("Slash", 191))
    } else if c == ';' {
        Some(("Semicolon", 186))
    } else if c == '\'' {
        Some(("Quote", 222))
    } else if c == '[' {
        Some(("BracketLeft", 219))
    } else if c == ']' {
        Some(("BracketRight", 221))
    } else if c == '\\' {
        Some(("Backslash", 220))
    } else if c == '`' {
        Some(("Backquote", 192))
    } else {
        None
    }
}

/// A single character as its US-layout key.
pub fn char_key(c: char) -> (r: KeyDef)
    ensures
        r@ == key_of_char(c),
{
    if c == '\n' || c == '\r' {
        return key_def("Enter", "Enter", 13, Some("\r"), 0);
    }
    if c == '\t' {
        proof {
            reveal_strlit("Tab");
            reveal_strlit("Enter");
            reveal_strlit("Space");
            reveal_strlit(" ");
            reveal_strlit("Shift");
            reveal_strlit("Control");
            reveal_strlit("Alt");
            reveal_strlit("Meta");
            assert("Tab"@[0] != "Alt"@[0]);
            assert("Tab"@.len() != "Enter"@.len());
        }
        return key_def("Tab", "Tab", 9, None, 0);
    }
    let mut s = String::new();
    s.push(c);
    proof {
        assert(s@ =~= seq![c]);
    }
    let (code, key_code): (String, i64) = if ('a' <= c && c <= 'z') || ('A' <= c && c <= 'Z') {
        let mut k = "Key".to_string();
        let u = text::to_upper(c);
        k.push(u);
        (k, u as u32 as i64)
    } else if '0' <= c && c <= '9' {
        let mut k = "Digit".to_string();
        k.push(c);
        (k, c as u32 as i64)
    } else {
        match punctuation_code(c) {
            Some((k, n)) => (k.to_string(), n),
            None => (String::new(), 0),
        }
    };
    KeyDef { key: s.clone(), code, key_code, text: Some(s), location: 0 }
}

// ---------------------------------------------------------------------- combinations

/// The names before the last plus sign that ends one, and the name begun behind it. A plus sign
/// ends a name only where one has begun.
pub open spec fn cut_names(s: Text) -> (Seq<Text>, Text)
    decreases s.len(),
{
    if s.len() == 0 {
        (Seq::empty(), Seq::empty())
    } else {
        let (done, cur) = cut_names(s.drop_last());
        if s.last() == '+' && cur.len() > 0 {
            (done.push(cur), Seq::empty())
        } else {
            (done, cur.push(s.last()))
        }
    }
}

/// The names in a combination.
pub open spec fn key_names(s: Text) -> Seq<Text> {
    let (done, cur) = cut_names(s);
    if cur.len() > 0 {
        done.push(cur)
    } else {
        done
    }
}

/// The modifier that a name stands for.
pub open spec fn canonical(m: Text, mac: bool) -> Text {
    if m == "ControlOrMeta"@ {
        if mac {
            "Meta"@
        } else {
            "Control"@
        }
    } else if m == "Ctrl"@ {
        "Control"@
    } else if m == "Cmd"@ || m == "Command"@ {
        "Meta"@
    } else if m == "Option"@ {
        "Alt"@
    } else {
        m
    }
}

pub open spec fn modifier_bit(m: Text) -> Option<i64> {
    if m == "Alt"@ {
        Some(ALT)
    } else if m == "Control"@ {
        Some(CONTROL)
    } else if m == "Meta"@ {
        Some(META)
    } else if m == "Shift"@ {
        Some(SHIFT)
    } else {
        None
    }
}

/// The bits of some modifiers.
pub open spec fn mask_of(mods: Seq<Text>) -> i64
    decreases mods.len(),
{
    if mods.len() == 0 {
        0
    } else {
        mask_of(mods.drop_last()) | modifier_bit(mods.last())->0
    }
}

/// The first name that is no modifier.
pub open spec fn no_modifier(mods: Seq<Text>) -> Option<Text>
    decreases mods.len(),
{
    if mods.len() == 0 {
        None
    } else {
        match no_modifier(mods.drop_last()) {
            Some(m) => Some(m),
            None => if modifier_bit(mods.last()) is None {
                Some(mods.last())
            } else {
                None
            },
        }
    }
}

/// The key that a name or a single character stands for.
pub open spec fn base_key(name: Text) -> Option<KeyDefV> {
    match named_key(name) {
        Some(k) => Some(k),
        None => if name.len() == 1 {
            Some(key_of_char(name[0]))
        } else {
            None
        },
    }
}

/// A key under held modifiers: Shift makes a letter capital, Control and Meta take its text away.
pub open spec fn under(k: KeyDefV, mask: i64) -> KeyDefV {
    let shifted = if mask & SHIFT != 0 && text::byte_len(k.key) == 1 {
        KeyDefV {
            key: text::uppered(k.key),
            text: match k.text {
                Some(t) => Some(text::uppered(t)),
                None => None,
            },
            ..k
        }
    } else {
        k
    };
    if mask & (CONTROL | META) != 0 {
        KeyDefV { text: None, ..shifted }
    } else {
        shifted
    }
}

/// The modifiers of a combination.
pub open spec fn modifier_names(combo: Text, mac: bool) -> Seq<Text> {
    key_names(combo).drop_last().map_values(|m: Text| canonical(m, mac))
}

/// What a combination stands for, or why it stands for nothing.
pub open spec fn parsed(combo: Text, mac: bool) -> Result<ComboV, Text> {
    let names = key_names(combo);
    let mods = modifier_names(combo, mac);
    if names.len() == 0 {
        Err("empty key"@)
    } else {
        match no_modifier(mods) {
            Some(m) => Err("unknown modifier \""@ + m + "\" in \""@ + combo + "\""@),
            None => match base_key(names.last()) {
                None => Err("unknown key \""@ + names.last() + "\""@),
                Some(k) => Ok(
                    ComboV {
                        modifiers: mods.map_values(|m: Text| named_key(m)->0),
                        mask: mask_of(mods),
                        key: under(k, mask_of(mods)),
                    },
                ),
            },
        }
    }
}

/// What a result holds.
pub open spec fn combo_result(r: Result<Combo, String>) -> Result<ComboV, Text> {
    match r {
        Ok(c) => Ok(c@),
        Err(e) => Err(e@),
    }
}

fn split_names(combo: &str) -> (r: Vec<String>)
    ensures
        text::views(r@) == key_names(combo@),
{
    broadcast use text::group_views;
    let chars = text::chars_of(combo);
    let mut parts: Vec<String> = Vec::new();
    let mut cur = String::new();
    let mut empty = true;
    let mut i: usize = 0;
    proof {
        assert(combo@.take(0) =~= Seq::<char>::empty());
        assert(cur@ =~= Seq::<char>::empty());
    }
    while i < chars.len()
        invariant
            i <= chars@.len(),
            chars@ == combo@,
            cut_names(combo@.take(i as int)) == (text::views(parts@), cur@),
            empty == (cur@.len() == 0),
        decreases chars@.len() - i,
    {
        broadcast use text::group_views;
        let c = chars[i];
        proof {
            assert(combo@.take(i + 1).drop_last() =~= combo@.take(i as int));
            assert(combo@.take(i + 1).last() == c);
        }
        if c == '+' && !empty {
            parts.push(cur);
            cur = String::new();
            empty = true;
        } else {
            cur.push(c);
            empty = false;
        }
        i = i + 1;
    }
    proof {
        assert(combo@.take(combo@.len() as int) =~= combo@);
    }
    if !empty {
        parts.push(cur);
    }
    parts
}

fn canonical_name(m: &str, mac: bool) -> (r: String)
    ensures
        r@ == canonical(m@, mac),
{
    if text::same(m, "ControlOrMeta") {
        if mac {
            "Meta".to_string()
        } else {
            "Control".to_string()
        }
    } else if text::same(m, "Ctrl") {
        "Control".to_string()
    } else if text::same(m, "Cmd") || text::same(m, "Command") {
        "Meta".to_string()
    } else if text::same(m, "Option") {
        "Alt".to_string()
    } else {
        m.to_string()
    }
}

/// The bit of a modifier.
pub fn bit_of(m: &str) -> (r: Option<i64>)
    ensures
        r == modifier_bit(m@),
{
    if text::same(m, "Alt") {
        Some(ALT)
    } else if text::same(m, "Control") {
        Some(CONTROL)
    } else if text::same(m, "Meta") {
        Some(META)
    } else if text::same(m, "Shift") {
        Some(SHIFT)
    } else {
        None
    }
}

proof fn lemma_modifier_named(m: Text)
    requires
        modifier_bit(m) is Some,
    ensures
        named_key(m) is Some,
{
}

proof fn lemma_no_modifier(mods: Seq<Text>, n: int)
    requires
        0 <= n <= mods.len(),
        no_modifier(mods.take(n)) is Some,
    ensures
        no_modifier(mods) == no_modifier(mods.take(n)),
    decreases mods.len(),
{
    if n < mods.len() {
        assert(mods.drop_last().take(n) =~= mods.take(n));
        lemma_no_modifier(mods.drop_last(), n);
    } else {
        assert(mods.take(n) =~= mods);
    }
}

fn shift_key(key: KeyDef, mask: i64) -> (r: KeyDef)
    ensures
        r@ == under(key@, mask),
{
    let shifted = if mask & SHIFT != 0 && text::bytes(&key.key) == 1 {
        KeyDef {
            key: text::uppercase(&key.key),
            text: match &key.text {
                Some(t) => Some(text::uppercase(t)),
                None => None,
            },
            code: key.code,
            key_code: key.key_code,
            location: key.location,
        }
    } else {
        key
    };
    if mask & (CONTROL | META) != 0 {
        KeyDef {
            key: shifted.key,
            code: shifted.code,
            key_code: shifted.key_code,
            text: None,
            location: shifted.location,
        }
    } else {
        shifted
    }
}

/// Resolves a combination such as "Control+Shift+K". "Control++" means Control and the plus key:
/// plus signs separate only between names. "ControlOrMeta" is Meta on a Mac and Control elsewhere.
pub fn parse(combo: &str, mac: bool) -> (r: Result<Combo, String>)
    ensures
        combo_result(r) == parsed(combo@, mac),
{
    broadcast use text::group_views;
    let mut parts = split_names(combo);
    let ghost names = key_names(combo@);
    let ghost mods = modifier_names(combo@, mac);
    if parts.len() == 0 {
        return Err("empty key".to_string());
    }
    let last = parts[parts.len() - 1].clone();
    let n = parts.len() - 1;
    let mut modifiers: Vec<KeyDef> = Vec::new();
    let mut mask: i64 = 0;
    let mut i: usize = 0;
    proof {
        assert(names.last() == last@);
        assert(mods.take(0) =~= Seq::<Text>::empty());
        assert(text::views(modifiers@) =~= mods.take(0).map_values(|m: Text| named_key(m)->0));
    }
    while i < n
        invariant
            i <= n,
            n == parts@.len() - 1,
            names == text::views(parts@),
            names == key_names(combo@),
            mods == modifier_names(combo@, mac),
            no_modifier(mods.take(i as int)) is None,
            mask == mask_of(mods.take(i as int)),
            text::views(modifiers@) == mods.take(i as int).map_values(|m: Text| named_key(m)->0),
        decreases n - i,
    {
        broadcast use text::group_views;
        let m = canonical_name(&parts[i], mac);
        proof {
            assert(names[i as int] == parts@[i as int]@);
            assert(mods[i as int] == m@);
            assert(mods.take(i + 1).drop_last() =~= mods.take(i as int));
            assert(mods.take(i + 1).last() == m@);
        }
        match bit_of(&m) {
            Some(b) => {
                mask = mask | b;
            },
            None => {
                proof {
                    lemma_no_modifier(mods, i + 1);
                }
                let mut e = "unknown modifier \"".to_string();
                e.append(&m);
                e.append("\" in \"");
                e.append(combo);
                e.append("\"");
                return Err(e);
            },
        }
        match named(&m) {
            Some(k) => {
                modifiers.push(k);
            },
            None => {
                proof {
                    lemma_modifier_named(m@);
                }
            },
        }
        proof {
            assert(text::views(modifiers@) =~= mods.take(i + 1).map_values(|m: Text| named_key(m)->0));
        }
        i = i + 1;
    }
    proof {
        assert(mods.take(n as int) =~= mods);
    }
    let base = match named(&last) {
        Some(k) => k,
        None => {
            let chars = text::chars_of(&last);
            if chars.len() == 1 {
                char_key(chars[0])
            } else {
                let mut e = "unknown key \"".to_string();
                e.append(&last);
                e.append("\"");
                return Err(e);
            }
        },
    };
    Ok(Combo { modifiers, mask, key: shift_key(base, mask) })
}

/// The bit of a modifier is set in the mask of a combination where that modifier is held, and
/// only there.
pub proof fn law_mask_holds_modifiers(mods: Seq<Text>)
    requires
        no_modifier(mods) is None,
    ensures
        (mask_of(mods) & ALT != 0) == mods.contains("Alt"@),
        (mask_of(mods) & CONTROL != 0) == mods.contains("Control"@),
        (mask_of(mods) & META != 0) == mods.contains("Meta"@),
        (mask_of(mods) & SHIFT != 0) == mods.contains("Shift"@),
    decreases mods.len(),
{
    reveal_strlit("Alt");
    reveal_strlit("Control");
    reveal_strlit("Meta");
    reveal_strlit("Shift");
    assert("Alt"@.len() == 3 && "Meta"@.len() == 4 && "Shift"@.len() == 5 && "Control"@.len() == 7);
    if mods.len() == 0 {
        assert(0i64 & 1 == 0 && 0i64 & 2 == 0 && 0i64 & 4 == 0 && 0i64 & 8 == 0) by (bit_vector);
    } else {
        let rest = mods.drop_last();
        law_mask_holds_modifiers(rest);
        let m = mask_of(rest);
        assert((m | 1) & 1 != 0 && (m | 1) & 2 == m & 2 && (m | 1) & 4 == m & 4 && (m | 1) & 8 == m & 8) by (bit_vector);
        assert((m | 2) & 2 != 0 && (m | 2) & 1 == m & 1 && (m | 2) & 4 == m & 4 && (m | 2) & 8 == m & 8) by (bit_vector);
        assert((m | 4) & 4 != 0 && (m | 4) & 1 == m & 1 && (m | 4) & 2 == m & 2 && (m | 4) & 8 == m & 8) by (bit_vector);
        assert((m | 8) & 8 != 0 && (m | 8) & 1 == m & 1 && (m | 8) & 2 == m & 2 && (m | 8) & 4 == m & 4) by (bit_vector);
        assert forall|x: Text| #[trigger] mods.contains(x) == (rest.contains(x) || x == mods.last()) by {
            if rest.contains(x) {
                let k = choose|k: int| 0 <= k < rest.len() && rest[k] == x;
                assert(mods[k] == x);
            }
            if x == mods.last() {
                assert(mods[mods.len() - 1] == x);
            }
            if mods.contains(x) {
                let k = choose|k: int| 0 <= k < mods.len() && mods[k] == x;
                if k < mods.len() - 1 {
                    assert(rest[k] == x);
                }
            }
        }
    }
}

/// Where Control or Meta is held no text is sent with the key.
pub proof fn law_no_text_with_control(combo: Text, mac: bool)
    requires
        parsed(combo, mac) is Ok,
        modifier_names(combo, mac).contains("Control"@) || modifier_names(combo, mac).contains("Meta"@),
    ensures
        (parsed(combo, mac)->Ok_0).key.text is None,
{
    let mods = modifier_names(combo, mac);
    law_mask_holds_modifiers(mods);
    let m = mask_of(mods);
    assert(m & 2 != 0 || m & 4 != 0 ==> m & (2i64 | 4i64) != 0) by (bit_vector);
}

proof fn lemma_cut_plain(s: Text, t: Text)
    requires
        !t.contains('+'),
    ensures
        cut_names(s + t) == (cut_names(s).0, cut_names(s).1 + t),
    decreases t.len(),
{
    if t.len() == 0 {
        assert(s + t =~= s);
        assert(cut_names(s).1 + t =~= cut_names(s).1);
    } else {
        let d = t.drop_last();
        assert(t[t.len() - 1] == t.last());
        assert forall|i: int| 0 <= i < d.len() implies d[i] != '+' by {
            assert(t[i] == d[i]);
        }
        lemma_cut_plain(s, d);
        assert((s + t).drop_last() =~= s + d);
        assert((cut_names(s).1 + d).push(t.last()) =~= cut_names(s).1 + t);
    }
}

/// Names stand in a combination as they were put together with plus signs.
pub proof fn law_names_between_plus_signs(names: Seq<Text>)
    requires
        names.len() > 0,
        forall|i: int| 0 <= i < names.len() ==> (#[trigger] names[i]).len() > 0 && !names[i].contains('+'),
    ensures
        cut_names(text::joined(names, "+"@)) == (names.drop_last(), names.last()),
        key_names(text::joined(names, "+"@)) == names,
    decreases names.len(),
{
    reveal_strlit("+");
    let last = names.last();
    assert(last == names[names.len() - 1]);
    if names.len() == 1 {
        lemma_cut_plain(Seq::empty(), last);
        assert(Seq::<char>::empty() + last =~= last);
        assert(names.drop_last() =~= Seq::<Text>::empty());
    } else {
        let rest = names.drop_last();
        law_names_between_plus_signs(rest);
        let head = text::joined(rest, "+"@);
        let sign = head + "+"@;
        assert("+"@ =~= seq!['+']);
        assert(sign.drop_last() =~= head);
        assert(sign.last() == '+');
        assert(rest.last() == names[names.len() - 2]);
        assert(rest.drop_last().push(rest.last()) =~= rest);
        assert(cut_names(sign) == (rest, Seq::<char>::empty()));
        lemma_cut_plain(sign, last);
        assert(Seq::<char>::empty() + last =~= last);
    }
    assert(names.drop_last().push(last) =~= names);
}

/// A plus sign behind the one that ends a modifier's name is the plus key.
pub proof fn law_plus_key(name: Text)
    requires
        name.len() > 0,
        !name.contains('+'),
    ensures
        key_names(name.push('+').push('+')) == seq![name, seq!['+']],
{
    lemma_cut_plain(Seq::empty(), name);
    assert(Seq::<char>::empty() + name =~= name);
    let one = name.push('+');
    let two = one.push('+');
    assert(one.drop_last() =~= name);
    assert(two.drop_last() =~= one);
    assert(cut_names(one) == (seq![name], Seq::<char>::empty()));
    assert(Seq::<char>::empty().push('+') =~= seq!['+']);
    assert(seq![name].push(seq!['+']) =~= seq![name, seq!['+']]);
}

/// A modifier is a key of its own: it can be pressed and released by its name.
pub proof fn law_modifiers_are_keys(m: Text, mac: bool)
    requires
        modifier_bit(m) is Some,
    ensures
        named_key(m) is Some,
        (named_key(m)->0).key == m,
        parsed(m, mac) == Ok::<ComboV, Text>(ComboV { modifiers: Seq::empty(), mask: 0, key: named_key(m)->0 }),
{
    reveal_strlit("Alt");
    reveal_strlit("Control");
    reveal_strlit("Meta");
    reveal_strlit("Shift");
    reveal_strlit("Enter");
    reveal_strlit("Space");
    reveal_strlit(" ");
    assert(m.len() > 0 && !m.contains('+'));
    law_names_between_plus_signs(seq![m]);
    assert(text::joined(seq![m], "+"@) == m);
    let mods = modifier_names(m, mac);
    assert(mods =~= Seq::<Text>::empty());
    assert(key_names(m).last() == m);
    assert(0i64 & 8i64 == 0 && 0i64 & (2i64 | 4i64) == 0) by (bit_vector);
    assert(mods.map_values(|x: Text| named_key(x)->0) =~= Seq::<KeyDefV>::empty());
}

// ---------------------------------------------------------------------- editing commands

/// The editing command that a key press under Meta stands for on a Mac.
pub open spec fn edit_command(key: Text, shift: bool) -> Seq<Text> {
    if key == "a"@ {
        seq!["selectAll"@]
    } else if key == "c"@ {
        seq!["copy"@]
    } else if key == "x"@ {
        seq!["cut"@]
    } else if key == "v"@ {
        seq!["paste"@]
    } else if key == "z"@ && !shift {
        seq!["undo"@]
    } else if key == "z"@ {
        seq!["redo"@]
    } else if key == "backspace"@ {
        seq!["deleteToBeginningOfLine"@]
    } else if key == "arrowleft"@ && !shift {
        seq!["moveToBeginningOfLine"@]
    } else if key == "arrowright"@ && !shift {
        seq!["moveToEndOfLine"@]
    } else {
        Seq::empty()
    }
}

/// The editing commands that go with a key event.
pub open spec fn commands_for(mask: i64, key: Text, mac: bool) -> Seq<Text> {
    if !mac || mask & META == 0 {
        Seq::empty()
    } else {
        edit_command(text::lowered(key), mask & SHIFT != 0)
    }
}

fn single(s: &str) -> (r: Vec<String>)
    ensures
        text::views(r@) == seq![s@],
{
    let mut v: Vec<String> = Vec::new();
    v.push(s.to_string());
    proof {
        assert(text::views(v@) =~= seq![s@]);
    }
    v
}

/// Editing commands a real macOS keypress would trigger through the responder chain; synthetic
/// key events need them spelled out or Cmd+A/C/V/X/Z do nothing in text fields.
pub fn mac_commands(mask: i64, key: &str, mac: bool) -> (r: Vec<String>)
    ensures
        text::views(r@) == commands_for(mask, key@, mac),
{
    broadcast use text::group_views;
    if !mac || mask & META == 0 {
        return Vec::new();
    }
    let k = text::lowercase(key);
    let shift = mask & SHIFT != 0;
    if text::same(&k, "a") {
        single("selectAll")
    } else if text::same(&k, "c") {
        single("copy")
    } else if text::same(&k, "x") {
        single("cut")
    } else if text::same(&k, "v") {
        single("paste")
    } else if text::same(&k, "z") && !shift {
        single("undo")
    } else if text::same(&k, "z") {
        single("redo")
    } else if text::same(&k, "backspace") {
        single("deleteToBeginningOfLine")
    } else if text::same(&k, "arrowleft") && !shift {
        single("moveToBeginningOfLine")
    } else if text::same(&k, "arrowright") && !shift {
        single("moveToEndOfLine")
    } else {
        Vec::new()
    }
}

// ---------------------------------------------------------------------- characters that share a key

/// Two characters of one key: a letter in its two cases, or the two line ends.
pub open spec fn share_key(a: char, b: char) -> bool {
    ||| is_letter(a) && is_letter(b) && text::upper_char(a) == text::upper_char(b)
    ||| a == '\n' && b == '\r'
    ||| a == '\r' && b == '\n'
}

/// A letter of the alphabet from A to Z, in either case.
pub open spec fn is_letter(c: char) -> bool {
    'a' <= c <= 'z' || 'A' <= c <= 'Z'
}

/// The number of the key that stands at a place of the keyboard.
spec fn number_of(code: Text) -> int {
    if code == "Space"@ {
        32
    } else if code == "Minus"@ {
        189
    } else if code == "Equal"@ {
        187
    } else if code == "Comma"@ {
        188
    } else if code == "Period"@ {
        190
    } else if code == "Slash"@ {
        191
    } else if code == "Semicolon"@ {
        186
    } else if code == "Quote"@ {
        222
    } else if code == "BracketLeft"@ {
        219
    } else if code == "BracketRight"@ {
        221
    } else if code == "Backslash"@ {
        220
    } else if code == "Backquote"@ {
        192
    } else if code == "Enter"@ {
        13
    } else if code == "Tab"@ {
        9
    } else if code.len() == 4 {
        code[3] as int
    } else if code.len() == 6 {
        code[5] as int
    } else {
        0
    }
}

proof fn lemma_places_differ()
    ensures
        number_of("Period"@) == 190,
        number_of("Space"@) == 32,
        number_of("Minus"@) == 189,
        number_of("Equal"@) == 187,
        number_of("Comma"@) == 188,
        number_of("Slash"@) == 191,
        number_of("Semicolon"@) == 186,
        number_of("Quote"@) == 222,
        number_of("BracketLeft"@) == 219,
        number_of("BracketRight"@) == 221,
        number_of("Backslash"@) == 220,
        number_of("Backquote"@) == 192,
        number_of("Enter"@) == 13,
        number_of("Tab"@) == 9,
        forall|c: char| #[trigger] number_of("Key"@.push(c)) == c as int,
        forall|c: char| #[trigger] number_of("Digit"@.push(c)) == c as int,
        number_of(Seq::empty()) == 0,
{
    reveal_strlit("Space");
    reveal_strlit("Minus");
    reveal_strlit("Equal");
    reveal_strlit("Comma");
    reveal_strlit("Period");
    reveal_strlit("Slash");
    reveal_strlit("Semicolon");
    reveal_strlit("Quote");
    reveal_strlit("BracketLeft");
    reveal_strlit("BracketRight");
    reveal_strlit("Backslash");
    reveal_strlit("Backquote");
    reveal_strlit("Enter");
    reveal_strlit("Tab");
    reveal_strlit("Key");
    reveal_strlit("Digit");
    assert("Space"@[0] != "Minus"@[0]);
    assert("Space"@[0] != "Equal"@[0]);
    assert("Space"@[0] != "Comma"@[0]);
    assert("Space"@[1] != "Slash"@[1]);
    assert("Space"@[0] != "Quote"@[0]);
    assert("Space"@[0] != "Enter"@[0]);
    assert("Minus"@[0] != "Equal"@[0]);
    assert("Minus"@[0] != "Comma"@[0]);
    assert("Minus"@[0] != "Slash"@[0]);
    assert("Minus"@[0] != "Quote"@[0]);
    assert("Minus"@[0] != "Enter"@[0]);
    assert("Equal"@[0] != "Comma"@[0]);
    assert("Equal"@[0] != "Slash"@[0]);
    assert("Equal"@[0] != "Quote"@[0]);
    assert("Equal"@[1] != "Enter"@[1]);
    assert("Comma"@[0] != "Slash"@[0]);
    assert("Comma"@[0] != "Quote"@[0]);
    assert("Comma"@[0] != "Enter"@[0]);
    assert("Slash"@[0] != "Quote"@[0]);
    assert("Slash"@[0] != "Enter"@[0]);
    assert("Semicolon"@[0] != "Backslash"@[0]);
    assert("Semicolon"@[0] != "Backquote"@[0]);
    assert("Quote"@[0] != "Enter"@[0]);
    assert("Backslash"@[4] != "Backquote"@[4]);
    assert("BracketLeft"@.len() == 11);
    assert("BracketRight"@.len() == 12);
    assert("Tab"@.len() == 3);
    assert(Seq::<char>::empty().len() == 0);
    assert forall|c: char| #[trigger] number_of("Key"@.push(c)) == c as int by {
        assert("Key"@.push(c).len() == 4);
    }
    assert forall|c: char| #[trigger] number_of("Digit"@.push(c)) == c as int by {
        let t = "Digit"@.push(c);
        assert(t.len() == 6);
        assert(t[0] == "Digit"@[0]);
        assert("Period"@[0] != "Digit"@[0]);
    }
}

proof fn lemma_key_number(c: char)
    ensures
        number_of(key_of_char(c).code) == key_of_char(c).key_code,
        key_of_char(c).code.len() == 0 <==> key_of_char(c).key_code == 0,
{
    lemma_places_differ();
    lemma_line_keys();
    reveal_strlit("Space");
    reveal_strlit("Minus");
    reveal_strlit("Equal");
    reveal_strlit("Comma");
    reveal_strlit("Period");
    reveal_strlit("Slash");
    reveal_strlit("Semicolon");
    reveal_strlit("Quote");
    reveal_strlit("BracketLeft");
    reveal_strlit("BracketRight");
    reveal_strlit("Backslash");
    reveal_strlit("Backquote");
    reveal_strlit("Enter");
    reveal_strlit("Tab");
    reveal_strlit("Key");
    reveal_strlit("Digit");
}

proof fn lemma_line_keys()
    ensures
        named_key("Enter"@)->0 == (KeyDefV {
            key: "Enter"@,
            code: "Enter"@,
            key_code: 13,
            text: Some("\r"@),
            location: 0,
        }),
        named_key("Tab"@)->0 == (KeyDefV { key: "Tab"@, code: "Tab"@, key_code: 9, text: None, location: 0 }),
{
    reveal_strlit("Enter");
    reveal_strlit("Tab");
    reveal_strlit("Space");
    reveal_strlit(" ");
    reveal_strlit("Shift");
    reveal_strlit("Control");
    reveal_strlit("Alt");
    reveal_strlit("Meta");
    assert("Tab"@[0] != "Alt"@[0]);
}

/// A character has a place on the keyboard exactly where it has a key number. Two different characters
/// share the number, or the place, exactly where they are one letter in its two cases or the two line
/// ends.
pub proof fn law_characters_that_share_a_key(a: char, b: char)
    requires
        a != b,
    ensures
        key_of_char(a).code.len() == 0 <==> key_of_char(a).key_code == 0,
        key_of_char(a).key_code == key_of_char(b).key_code && key_of_char(a).key_code != 0 <==> share_key(a, b),
        key_of_char(a).code == key_of_char(b).code && key_of_char(a).code.len() > 0 <==> share_key(a, b),
{
    lemma_key_number(a);
    lemma_key_number(b);
    lemma_line_keys();
}

// ---------------------------------------------------------------------- the keyboard

proof fn lemma_key_names()
    ensures
        " "@.len() == 1,
        "Tab"@.len() == 3 && "Tab"@[0] == 'T',
        "End"@.len() == 3 && "End"@[0] == 'E',
        "Alt"@.len() == 3 && "Alt"@[0] == 'A',
        "Home"@.len() == 4 && "Home"@[0] == 'H',
        "Meta"@.len() == 4 && "Meta"@[0] == 'M',
        "Enter"@.len() == 5 && "Enter"@[1] == 'n',
        "Space"@.len() == 5 && "Space"@[1] == 'p',
        "Shift"@.len() == 5 && "Shift"@[1] == 'h',
        "Delete"@.len() == 6 && "Delete"@[0] == 'D',
        "Escape"@.len() == 6 && "Escape"@[0] == 'E',
        "PageUp"@.len() == 6 && "PageUp"@[0] == 'P',
        "Insert"@.len() == 6 && "Insert"@[0] == 'I',
        "ArrowUp"@.len() == 7 && "ArrowUp"@[0] == 'A',
        "Control"@.len() == 7 && "Control"@[0] == 'C',
        "PageDown"@.len() == 8 && "PageDown"@[0] == 'P',
        "CapsLock"@.len() == 8 && "CapsLock"@[0] == 'C',
        "Backspace"@.len() == 9 && "Backspace"@[5] == 'p',
        "ArrowDown"@.len() == 9 && "ArrowDown"@[5] == 'D',
        "ArrowLeft"@.len() == 9 && "ArrowLeft"@[5] == 'L',
        "ArrowRight"@.len() == 10,
{
    reveal_strlit("Tab");
    reveal_strlit("Backspace");
    reveal_strlit("Delete");
    reveal_strlit("Escape");
    reveal_strlit("ArrowUp");
    reveal_strlit("ArrowDown");
    reveal_strlit("ArrowLeft");
    reveal_strlit("ArrowRight");
    reveal_strlit("Home");
    reveal_strlit("End");
    reveal_strlit("PageUp");
    reveal_strlit("PageDown");
    reveal_strlit("Insert");
    reveal_strlit("CapsLock");
    reveal_strlit("Enter");
    reveal_strlit("Space");
    reveal_strlit(" ");
    reveal_strlit("Shift");
    reveal_strlit("Control");
    reveal_strlit("Alt");
    reveal_strlit("Meta");
    assert(" "@.len() == 1);
    assert("Tab"@.len() == 3 && "Tab"@[0] == 'T');
    assert("End"@.len() == 3 && "End"@[0] == 'E');
    assert("Alt"@.len() == 3 && "Alt"@[0] == 'A');
    assert("Home"@.len() == 4 && "Home"@[0] == 'H');
    assert("Meta"@.len() == 4 && "Meta"@[0] == 'M');
    assert("Enter"@.len() == 5 && "Enter"@[1] == 'n');
    assert("Space"@.len() == 5 && "Space"@[1] == 'p');
    assert("Shift"@.len() == 5 && "Shift"@[1] == 'h');
    assert("Delete"@.len() == 6 && "Delete"@[0] == 'D');
    assert("Escape"@.len() == 6 && "Escape"@[0] == 'E');
    assert("PageUp"@.len() == 6 && "PageUp"@[0] == 'P');
    assert("Insert"@.len() == 6 && "Insert"@[0] == 'I');
    assert("ArrowUp"@.len() == 7 && "ArrowUp"@[0] == 'A');
    assert("Control"@.len() == 7 && "Control"@[0] == 'C');
    assert("PageDown"@.len() == 8 && "PageDown"@[0] == 'P');
    assert("CapsLock"@.len() == 8 && "CapsLock"@[0] == 'C');
    assert("Backspace"@.len() == 9 && "Backspace"@[5] == 'p');
    assert("ArrowDown"@.len() == 9 && "ArrowDown"@[5] == 'D');
    assert("ArrowLeft"@.len() == 9 && "ArrowLeft"@[5] == 'L');
    assert("ArrowRight"@.len() == 10);
}

/// Keys that move, edit or escape are called by their own names, have the codes of the keyboard, and type
/// nothing.
pub proof fn law_editing_keys(name: Text)
    requires
        name == "Tab"@ || name == "Backspace"@ || name == "Delete"@ || name == "Escape"@ || name == "ArrowUp"@ || name == "ArrowDown"@ || name == "ArrowLeft"@ || name == "ArrowRight"@ || name == "Home"@ || name == "End"@ || name == "PageUp"@ || name == "PageDown"@ || name == "Insert"@ || name == "CapsLock"@,
    ensures
        named_key(name) == Some(
            KeyDefV {
                key: name,
                code: name,
                key_code: if name == "Tab"@ {
                9
            } else if name == "Backspace"@ {
                8
            } else if name == "Delete"@ {
                46
            } else if name == "Escape"@ {
                27
            } else if name == "ArrowUp"@ {
                38
            } else if name == "ArrowDown"@ {
                40
            } else if name == "ArrowLeft"@ {
                37
            } else if name == "ArrowRight"@ {
                39
            } else if name == "Home"@ {
                36
            } else if name == "End"@ {
                35
            } else if name == "PageUp"@ {
                33
            } else if name == "PageDown"@ {
                34
            } else if name == "Insert"@ {
                45
            } else if name == "CapsLock"@ {
                20
            } else {
                0int
            },
                text: None,
                location: 0,
            },
        ),
{
    lemma_key_names();
}

/// Enter types a carriage return and the space bar a space; the modifiers are those on the left, and type
/// nothing.
pub proof fn law_special_keys()
    ensures
        named_key("Enter"@) == Some(
            KeyDefV { key: "Enter"@, code: "Enter"@, key_code: 13, text: Some("\r"@), location: 0 },
        ),
        named_key("Space"@) == Some(
            KeyDefV { key: " "@, code: "Space"@, key_code: 32, text: Some(" "@), location: 0 },
        ),
        named_key(" "@) == named_key("Space"@),
        named_key("Shift"@) == Some(
            KeyDefV { key: "Shift"@, code: "ShiftLeft"@, key_code: 16, text: None, location: 1 },
        ),
        named_key("Control"@) == Some(
            KeyDefV { key: "Control"@, code: "ControlLeft"@, key_code: 17, text: None, location: 1 },
        ),
        named_key("Alt"@) == Some(KeyDefV { key: "Alt"@, code: "AltLeft"@, key_code: 18, text: None, location: 1 }),
        named_key("Meta"@) == Some(KeyDefV { key: "Meta"@, code: "MetaLeft"@, key_code: 91, text: None, location: 1 }),
{
    lemma_key_names();
}

/// The function keys F1 to F12 have key codes in a row, and there are no others.
pub proof fn law_function_keys(digits: Text)
    ensures
        ({
            let name = "F"@ + digits;
            match text::number_value(digits) {
                Some(n) if 1 <= n <= 12 => named_key(name) == Some(
                    KeyDefV { key: name, code: name, key_code: 111 + n as int, text: None, location: 0 },
                ),
                _ => named_key(name) is None,
            }
        }),
{
    lemma_key_names();
    reveal_strlit("F");
    let name = "F"@ + digits;
    assert("F"@.len() == 1 && "F"@[0] == 'F');
    assert(name[0] == 'F');
    assert(name.skip(1) =~= digits);
    lemma_not_f();
}

proof fn lemma_not_f()
    ensures
        "Tab"@[0] != 'F',
        "Backspace"@[0] != 'F',
        "Delete"@[0] != 'F',
        "Escape"@[0] != 'F',
        "ArrowUp"@[0] != 'F',
        "ArrowDown"@[0] != 'F',
        "ArrowLeft"@[0] != 'F',
        "ArrowRight"@[0] != 'F',
        "Home"@[0] != 'F',
        "End"@[0] != 'F',
        "PageUp"@[0] != 'F',
        "PageDown"@[0] != 'F',
        "Insert"@[0] != 'F',
        "CapsLock"@[0] != 'F',
        "Enter"@[0] != 'F',
        "Space"@[0] != 'F',
        " "@[0] != 'F',
        "Shift"@[0] != 'F',
        "Control"@[0] != 'F',
        "Alt"@[0] != 'F',
        "Meta"@[0] != 'F',
{
    reveal_strlit("Tab");
    assert("Tab"@[0] == 'T');
    reveal_strlit("Backspace");
    assert("Backspace"@[0] == 'B');
    reveal_strlit("Delete");
    assert("Delete"@[0] == 'D');
    reveal_strlit("Escape");
    assert("Escape"@[0] == 'E');
    reveal_strlit("ArrowUp");
    assert("ArrowUp"@[0] == 'A');
    reveal_strlit("ArrowDown");
    assert("ArrowDown"@[0] == 'A');
    reveal_strlit("ArrowLeft");
    assert("ArrowLeft"@[0] == 'A');
    reveal_strlit("ArrowRight");
    assert("ArrowRight"@[0] == 'A');
    reveal_strlit("Home");
    assert("Home"@[0] == 'H');
    reveal_strlit("End");
    assert("End"@[0] == 'E');
    reveal_strlit("PageUp");
    assert("PageUp"@[0] == 'P');
    reveal_strlit("PageDown");
    assert("PageDown"@[0] == 'P');
    reveal_strlit("Insert");
    assert("Insert"@[0] == 'I');
    reveal_strlit("CapsLock");
    assert("CapsLock"@[0] == 'C');
    reveal_strlit("Enter");
    assert("Enter"@[0] == 'E');
    reveal_strlit("Space");
    assert("Space"@[0] == 'S');
    reveal_strlit(" ");
    assert(" "@[0] == ' ');
    reveal_strlit("Shift");
    assert("Shift"@[0] == 'S');
    reveal_strlit("Control");
    assert("Control"@[0] == 'C');
    reveal_strlit("Alt");
    assert("Alt"@[0] == 'A');
    reveal_strlit("Meta");
    assert("Meta"@[0] == 'M');
}

/// Letters and digits have the codes of their keys, in either case, and their own numbers; punctuation has
/// that of the US layout; and any other character has no key.
pub proof fn law_character_codes(c: char)
    ensures
        'a' <= c <= 'z' || 'A' <= c <= 'Z' ==> char_code(c) == ("Key"@.push(text::upper_char(c)), text::upper_char(c) as int),
        '0' <= c <= '9' ==> char_code(c) == ("Digit"@.push(c), c as int),
        char_code(' ') == ("Space"@, 32int),
        char_code('-') == ("Minus"@, 189int),
        char_code('=') == ("Equal"@, 187int),
        char_code(',') == ("Comma"@, 188int),
        char_code('.') == ("Period"@, 190int),
        char_code('/') == ("Slash"@, 191int),
        char_code(';') == ("Semicolon"@, 186int),
        char_code('\'') == ("Quote"@, 222int),
        char_code('[') == ("BracketLeft"@, 219int),
        char_code(']') == ("BracketRight"@, 221int),
        char_code('\\') == ("Backslash"@, 220int),
        char_code('`') == ("Backquote"@, 192int),
        !('a' <= c <= 'z' || 'A' <= c <= 'Z' || '0' <= c <= '9') && c != ' ' && c != '-' && c != '=' && c != ',' && c != '.' && c != '/' && c != ';' && c != '\'' && c != '[' && c != ']' && c != '\\' && c != '`' ==> char_code(c)
            == (Seq::<char>::empty(), 0int),
{
}

/// A character is its own key and types itself; a line end is Enter and a tab is Tab.
pub proof fn law_characters_type_themselves(c: char)
    ensures
        c != '\n' && c != '\r' && c != '\t' ==> key_of_char(c) == (KeyDefV {
            key: seq![c],
            code: char_code(c).0,
            key_code: char_code(c).1,
            text: Some(seq![c]),
            location: 0,
        }),
        c == '\n' || c == '\r' ==> Some(key_of_char(c)) == named_key("Enter"@),
        c == '\t' ==> Some(key_of_char(c)) == named_key("Tab"@),
{
    lemma_key_names();
}

/// What modifiers may be called: besides their own names `Ctrl`, `Cmd`, `Command` and `Option`, and
/// `ControlOrMeta` for the one that commands go with on this system.
pub proof fn law_modifier_aliases(m: Text, mac: bool)
    ensures
        canonical("ControlOrMeta"@, true) == "Meta"@,
        canonical("ControlOrMeta"@, false) == "Control"@,
        canonical("Ctrl"@, mac) == "Control"@,
        canonical("Cmd"@, mac) == "Meta"@ && canonical("Command"@, mac) == "Meta"@,
        canonical("Option"@, mac) == "Alt"@,
        m != "ControlOrMeta"@ && m != "Ctrl"@ && m != "Cmd"@ && m != "Command"@ && m != "Option"@ ==> canonical(m, mac)
            == m,
        modifier_bit("Alt"@) == Some(1i64) && modifier_bit("Control"@) == Some(2i64) && modifier_bit("Meta"@) == Some(
            4i64,
        ) && modifier_bit("Shift"@) == Some(8i64),
        m != "Alt"@ && m != "Control"@ && m != "Meta"@ && m != "Shift"@ ==> modifier_bit(m) is None,
{
    lemma_key_names();
    reveal_strlit("ControlOrMeta");
    reveal_strlit("Ctrl");
    reveal_strlit("Cmd");
    reveal_strlit("Command");
    reveal_strlit("Option");
    assert("Cmd"@.len() == 3);
    assert("Ctrl"@.len() == 4);
    assert("Option"@.len() == 6);
    assert("Command"@.len() == 7);
    assert("ControlOrMeta"@.len() == 13);
}

/// A combination is refused where it is empty, where a name before the last is no modifier, the first such
/// name being told, and where its last name is no key; else it has its modifiers in order, their mask, and
/// its key.
pub proof fn law_combinations(combo: Text, mac: bool)
    ensures
        ({
            let names = key_names(combo);
            let mods = modifier_names(combo, mac);
            let p = parsed(combo, mac);
            &&& names.len() == 0 ==> p == Err::<ComboV, Text>("empty key"@)
            &&& names.len() > 0 ==> mods.len() == names.len() - 1 && forall|i: int|
                0 <= i < mods.len() ==> #[trigger] mods[i] == canonical(names[i], mac)
            &&& p is Ok <==> names.len() > 0 && base_key(names.last()) is Some && forall|i: int|
                0 <= i < mods.len() ==> modifier_bit(#[trigger] mods[i]) is Some
            &&& p is Ok ==> (p->Ok_0).modifiers.len() == mods.len() && forall|i: int|
                0 <= i < mods.len() ==> Some(#[trigger] (p->Ok_0).modifiers[i]) == named_key(mods[i])
            &&& p is Ok ==> (p->Ok_0).mask == mask_of(mods)
        }),
{
    let names = key_names(combo);
    let mods = modifier_names(combo, mac);
    lemma_no_modifier_means(mods);
    if parsed(combo, mac) is Ok {
        let c = parsed(combo, mac)->Ok_0;
        assert forall|i: int| 0 <= i < mods.len() implies Some(#[trigger] c.modifiers[i]) == named_key(mods[i]) by {
            assert(modifier_bit(mods[i]) is Some);
            lemma_modifier_named(mods[i]);
        }
    }
}

proof fn lemma_no_modifier_means(mods: Seq<Text>)
    ensures
        no_modifier(mods) is None <==> forall|i: int| 0 <= i < mods.len() ==> modifier_bit(#[trigger] mods[i]) is Some,
    decreases mods.len(),
{
    if mods.len() > 0 {
        let rest = mods.drop_last();
        lemma_no_modifier_means(rest);
        assert forall|i: int| 0 <= i < rest.len() implies #[trigger] rest[i] == mods[i] by {}
        assert(mods.last() == mods[mods.len() - 1]);
        if no_modifier(mods) is None {
            assert forall|i: int| 0 <= i < mods.len() implies modifier_bit(#[trigger] mods[i]) is Some by {
                if i < rest.len() {
                    assert(rest[i] == mods[i]);
                }
            }
        } else if forall|i: int| 0 <= i < mods.len() ==> modifier_bit(#[trigger] mods[i]) is Some {
            assert forall|i: int| 0 <= i < rest.len() implies modifier_bit(#[trigger] rest[i]) is Some by {
                assert(modifier_bit(mods[i]) is Some);
            }
        }
    }
}

/// The first name that is no modifier is the one that a refusal tells.
pub proof fn law_first_unknown_modifier(mods: Seq<Text>, i: int)
    requires
        0 <= i < mods.len(),
        modifier_bit(mods[i]) is None,
        forall|k: int| 0 <= k < i ==> modifier_bit(#[trigger] mods[k]) is Some,
    ensures
        no_modifier(mods) == Some(mods[i]),
    decreases mods.len(),
{
    let rest = mods.drop_last();
    if i < rest.len() {
        assert(rest[i] == mods[i]);
        assert forall|k: int| 0 <= k < i implies modifier_bit(#[trigger] rest[k]) is Some by {
            assert(rest[k] == mods[k]);
        }
        law_first_unknown_modifier(rest, i);
    } else {
        assert forall|k: int| 0 <= k < rest.len() implies modifier_bit(#[trigger] rest[k]) is Some by {
            assert(rest[k] == mods[k]);
        }
        lemma_no_modifier_means(rest);
    }
}

/// A key that is called by a name of the keyboard, or by its character.
pub proof fn law_keys_by_name_or_character(name: Text)
    ensures
        named_key(name) is Some ==> base_key(name) == named_key(name),
        named_key(name) is None && name.len() == 1 ==> base_key(name) == Some(key_of_char(name[0])),
        named_key(name) is None && name.len() != 1 ==> base_key(name) is None,
{
}

/// Shift makes a key of one character, and its text, capital; Control and Meta take the text away; without
/// them a key types what it types.
pub proof fn law_keys_under_modifiers(k: KeyDefV, mask: i64)
    ensures
        under(k, mask).code == k.code && under(k, mask).key_code == k.key_code && under(k, mask).location == k.location,
        mask & (2i64 | 4i64) != 0 ==> under(k, mask).text is None,
        mask & 8 == 0 ==> under(k, mask).key == k.key,
        mask & 8 == 0 && mask & (2i64 | 4i64) == 0 ==> under(k, mask) == k,
        mask & 8 != 0 && text::byte_len(k.key) == 1 ==> under(k, mask).key == text::uppered(k.key),
        mask & 8 != 0 && text::byte_len(k.key) != 1 ==> under(k, mask).key == k.key,
        mask & 8 != 0 && mask & (2i64 | 4i64) == 0 && text::byte_len(k.key) == 1 && k.text is Some ==> under(k, mask).text
            == Some(text::uppered(k.text->0)),
        mask & 8 != 0 && mask & (2i64 | 4i64) == 0 && text::byte_len(k.key) != 1 ==> under(k, mask).text == k.text,
        k.text is None ==> under(k, mask).text is None,
{
}

/// On a Mac, keys under Meta carry the editing command that they stand for; elsewhere, and without Meta,
/// none does.
pub proof fn law_editing_commands(mask: i64, key: Text, mac: bool)
    ensures
        !mac || mask & 4 == 0 ==> commands_for(mask, key, mac).len() == 0,
        mac && mask & 4 != 0 ==> {
            let k = text::lowered(key);
            let shift = mask & 8 != 0;
            let c = commands_for(mask, key, mac);
            &&& k == "a"@ ==> c == seq!["selectAll"@]
            &&& k == "c"@ ==> c == seq!["copy"@]
            &&& k == "x"@ ==> c == seq!["cut"@]
            &&& k == "v"@ ==> c == seq!["paste"@]
            &&& k == "z"@ && !shift ==> c == seq!["undo"@]
            &&& k == "z"@ && shift ==> c == seq!["redo"@]
            &&& k == "backspace"@ ==> c == seq!["deleteToBeginningOfLine"@]
            &&& k == "arrowleft"@ && !shift ==> c == seq!["moveToBeginningOfLine"@]
            &&& k == "arrowright"@ && !shift ==> c == seq!["moveToEndOfLine"@]
            &&& (k == "arrowleft"@ || k == "arrowright"@) && shift ==> c.len() == 0
            &&& k != "a"@ && k != "c"@ && k != "x"@ && k != "v"@ && k != "z"@ && k != "backspace"@ && k != "arrowleft"@ && k
                != "arrowright"@ ==> c.len() == 0
        },
{
    reveal_strlit("a");
    reveal_strlit("c");
    reveal_strlit("x");
    reveal_strlit("v");
    reveal_strlit("z");
    reveal_strlit("backspace");
    reveal_strlit("arrowleft");
    reveal_strlit("arrowright");
    assert("a"@.len() == 1 && "a"@[0] == 'a');
    assert("c"@.len() == 1 && "c"@[0] == 'c');
    assert("x"@.len() == 1 && "x"@[0] == 'x');
    assert("v"@.len() == 1 && "v"@[0] == 'v');
    assert("z"@.len() == 1 && "z"@[0] == 'z');
    assert("backspace"@.len() == 9 && "backspace"@[0] == 'b');
    assert("arrowleft"@.len() == 9 && "arrowleft"@[0] == 'a');
    assert("arrowright"@.len() == 10);
}

} // verus!
