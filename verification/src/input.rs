//! Trusted input: the commands that move the mouse, hold its buttons and press keys.

use crate::cdp;
use crate::cdp::Command;
use crate::cdp::CommandV;
use crate::json;
use crate::json::Json;
use crate::json::JsonV;
use crate::keys;
use crate::keys::ComboV;
use crate::keys::KeyDef;
use crate::keys::KeyDefV;
use crate::state::State;
use crate::state::StateV;
use crate::text;
use crate::text::Text;
use vstd::prelude::*;

verus! {

// ---------------------------------------------------------------------- modifiers

/// The bits of the modifiers in some combinations, and the names of their keys; or why one of them
/// is no combination.
pub open spec fn held_modifiers(mods: Seq<Text>, mac: bool) -> Result<(i64, Seq<Text>), Text>
    decreases mods.len(),
{
    if mods.len() == 0 {
        Ok((0, Seq::empty()))
    } else {
        match held_modifiers(mods.drop_last(), mac) {
            Err(e) => Err(e),
            Ok((mask, names)) => match keys::parsed(mods.last() + "+a"@, mac) {
                Err(e) => Err(e),
                Ok(c) => Ok((mask | c.mask, names + c.modifiers.map_values(|k: KeyDefV| k.key))),
            },
        }
    }
}

proof fn lemma_held_error(mods: Seq<Text>, mac: bool, n: int)
    requires
        0 <= n <= mods.len(),
        held_modifiers(mods.take(n), mac) is Err,
    ensures
        held_modifiers(mods, mac) == held_modifiers(mods.take(n), mac),
    decreases mods.len(),
{
    if n < mods.len() {
        assert(mods.drop_last().take(n) =~= mods.take(n));
        lemma_held_error(mods.drop_last(), mac, n);
    } else {
        assert(mods.take(n) =~= mods);
    }
}

/// The bits of the modifiers to hold during a click, and the names of their keys.
pub fn modifier_mask(mods: &Vec<String>, mac: bool) -> (r: Result<(i64, Vec<String>), String>)
    ensures
        match r {
            Ok((mask, names)) => held_modifiers(text::views(mods@), mac) == Ok::<(i64, Seq<Text>), Text>(
                (mask, text::views(names@)),
            ),
            Err(e) => held_modifiers(text::views(mods@), mac) == Err::<(i64, Seq<Text>), Text>(e@),
        },
{
    broadcast use text::group_views;
    let ghost all = text::views(mods@);
    let mut mask: i64 = 0;
    let mut names: Vec<String> = Vec::new();
    let mut i: usize = 0;
    proof {
        assert(all.take(0) =~= Seq::<Text>::empty());
    }
    while i < mods.len()
        invariant
            i <= mods@.len(),
            all == text::views(mods@),
            held_modifiers(all.take(i as int), mac) == Ok::<(i64, Seq<Text>), Text>((mask, text::views(names@))),
        decreases mods@.len() - i,
    {
        proof {
            assert(all.take(i + 1).drop_last() =~= all.take(i as int));
            assert(all.take(i + 1).last() == mods@[i as int]@);
        }
        match keys::parse(&text::concat(&mods[i], "+a"), mac) {
            Err(e) => {
                proof {
                    lemma_held_error(all, mac, i + 1);
                }
                return Err(e);
            },
            Ok(c) => {
                mask = mask | c.mask;
                let ghost before = text::views(names@);
                let ghost ks = text::views(c.modifiers@).map_values(|k: KeyDefV| k.key);
                let mut j: usize = 0;
                while j < c.modifiers.len()
                    invariant
                        j <= c.modifiers@.len(),
                        ks == text::views(c.modifiers@).map_values(|k: KeyDefV| k.key),
                        text::views(names@) == before + ks.take(j as int),
                    decreases c.modifiers@.len() - j,
                {
                    let ghost held = names@;
                    names.push(c.modifiers[j].key.clone());
                    proof {
                        assert(names@.drop_last() =~= held);
                        assert(text::views(names@) =~= text::views(held).push(c.modifiers@[j as int].key@));
                        assert(ks.take(j + 1) =~= ks.take(j as int).push(c.modifiers@[j as int].key@));
                        assert(text::views(names@) =~= before + ks.take(j + 1));
                    }
                    j = j + 1;
                }
                proof {
                    assert(ks.take(ks.len() as int) =~= ks);
                    assert(c@.modifiers == text::views(c.modifiers@));
                }
            },
        }
        i = i + 1;
    }
    proof {
        assert(all.take(all.len() as int) =~= all);
    }
    Ok((mask, names))
}

// ---------------------------------------------------------------------- mouse

/// The bit of a mouse button.
pub open spec fn button_bit(button: Text) -> i64 {
    if button == "left"@ {
        1
    } else if button == "right"@ {
        2
    } else if button == "middle"@ {
        4
    } else {
        0
    }
}

pub fn button_mask(button: &str) -> (r: i64)
    ensures
        r == button_bit(button@),
{
    if text::same(button, "left") {
        1
    } else if text::same(button, "right") {
        2
    } else if text::same(button, "middle") {
        4
    } else {
        0
    }
}

/// The button that a mouse move is reported with: moves must report held buttons, or Chrome never
/// starts a drag.
pub open spec fn held_button(buttons: i64) -> Text {
    if buttons & 1 != 0 {
        "left"@
    } else if buttons & 2 != 0 {
        "right"@
    } else if buttons & 4 != 0 {
        "middle"@
    } else {
        "none"@
    }
}

/// A mouse command.
pub open spec fn mouse_command(session: Text, params: JsonV) -> CommandV {
    cdp::to_session(session, "Input.dispatchMouseEvent"@, params)
}

/// The mouse moves to a point, with the buttons that are held.
pub open spec fn move_command(st: StateV, session: Text, x: JsonV, y: JsonV) -> CommandV {
    mouse_command(
        session,
        JsonV::obj().with("type"@, JsonV::Str("mouseMoved"@)).with("x"@, x).with("y"@, y).with(
            "button"@,
            JsonV::Str(held_button(st.buttons)),
        ).with("buttons"@, JsonV::Int(st.buttons as int)),
    )
}

/// A button goes down or up where the mouse is.
pub open spec fn button_command(
    st: StateV,
    session: Text,
    down: bool,
    button: Text,
    count: int,
    modifiers: int,
) -> CommandV {
    mouse_command(
        session,
        JsonV::obj().with(
            "type"@,
            JsonV::Str(
                if down {
                    "mousePressed"@
                } else {
                    "mouseReleased"@
                },
            ),
        ).with("x"@, st.mouse.0).with("y"@, st.mouse.1).with("button"@, JsonV::Str(button)).with(
            "buttons"@,
            JsonV::Int(buttons_after(st.buttons, button, down) as int),
        ).with("clickCount"@, JsonV::Int(count)).with("modifiers"@, JsonV::Int(modifiers)),
    )
}

/// The wheel turns where the mouse is.
pub open spec fn wheel_command(st: StateV, session: Text, dx: JsonV, dy: JsonV) -> CommandV {
    mouse_command(
        session,
        JsonV::obj().with("type"@, JsonV::Str("mouseWheel"@)).with("x"@, st.mouse.0).with("y"@, st.mouse.1).with(
            "deltaX"@,
            dx,
        ).with("deltaY"@, dy),
    )
}

/// The buttons held after one goes down or up.
pub open spec fn buttons_after(buttons: i64, button: Text, down: bool) -> i64 {
    if down {
        buttons | button_bit(button)
    } else {
        buttons & !button_bit(button)
    }
}

impl State {
    /// Moves the mouse to a point.
    pub fn mouse_move(&self, session: &str, x: &Json, y: &Json) -> (r: Command)
        ensures
            r@ == mouse_command(
                session@,
                JsonV::obj().with("type"@, JsonV::Str("mouseMoved"@)).with("x"@, x@).with("y"@, y@).with(
                    "button"@,
                    JsonV::Str(held_button(self@.buttons)),
                ).with("buttons"@, JsonV::Int(self@.buttons as int)),
            ),
            r@ == move_command(self@, session@, x@, y@),
    {
        let b = self.buttons;
        let button = if b & 1 != 0 {
            "left"
        } else if b & 2 != 0 {
            "right"
        } else if b & 4 != 0 {
            "middle"
        } else {
            "none"
        };
        Command::session(
            session,
            "Input.dispatchMouseEvent",
            Json::obj().with("type", Json::str("mouseMoved")).with("x", x.clone()).with("y", y.clone()).with(
                "button",
                Json::str(button),
            ).with("buttons", Json::num(b)),
        )
    }

    /// The mouse has been moved to a point.
    pub fn mouse_moved(&mut self, x: Json, y: Json)
        requires
            old(self).wf(),
        ensures
            final(self)@ == (StateV { mouse: (x@, y@), ..old(self)@ }),
            final(self).wf(),
    {
        self.mouse = (x, y);
    }

    /// Presses or releases a mouse button where the mouse is.
    pub fn mouse_button(&mut self, session: &str, down: bool, button: &str, count: i64, modifiers: i64) -> (r: Command)
        requires
            old(self).wf(),
        ensures
            final(self)@ == (StateV { buttons: buttons_after(old(self)@.buttons, button@, down), ..old(self)@ }),
            final(self).wf(),
            r@ == mouse_command(
                session@,
                JsonV::obj().with(
                    "type"@,
                    JsonV::Str(
                        if down {
                            "mousePressed"@
                        } else {
                            "mouseReleased"@
                        },
                    ),
                ).with("x"@, old(self)@.mouse.0).with("y"@, old(self)@.mouse.1).with("button"@, JsonV::Str(button@)).with(
                    "buttons"@,
                    JsonV::Int(buttons_after(old(self)@.buttons, button@, down) as int),
                ).with("clickCount"@, JsonV::Int(count as int)).with("modifiers"@, JsonV::Int(modifiers as int)),
            ),
            r@ == button_command(old(self)@, session@, down, button@, count as int, modifiers as int),
    {
        let kind = if down {
            "mousePressed"
        } else {
            "mouseReleased"
        };
        let bit = button_mask(button);
        self.buttons = if down {
            self.buttons | bit
        } else {
            self.buttons & !bit
        };
        Command::session(
            session,
            "Input.dispatchMouseEvent",
            Json::obj().with("type", Json::str(kind)).with("x", self.mouse.0.clone()).with("y", self.mouse.1.clone()).with(
                "button",
                Json::str(button),
            ).with("buttons", Json::num(self.buttons)).with("clickCount", Json::num(count)).with(
                "modifiers",
                Json::num(modifiers),
            ),
        )
    }

    /// Turns the mouse wheel where the mouse is.
    pub fn wheel(&self, session: &str, dx: Json, dy: Json) -> (r: Command)
        ensures
            r@ == mouse_command(
                session@,
                JsonV::obj().with("type"@, JsonV::Str("mouseWheel"@)).with("x"@, self@.mouse.0).with(
                    "y"@,
                    self@.mouse.1,
                ).with("deltaX"@, dx@).with("deltaY"@, dy@),
            ),
            r@ == wheel_command(self@, session@, dx@, dy@),
    {
        Command::session(
            session,
            "Input.dispatchMouseEvent",
            Json::obj().with("type", Json::str("mouseWheel")).with("x", self.mouse.0.clone()).with(
                "y",
                self.mouse.1.clone(),
            ).with("deltaX", dx).with("deltaY", dy),
        )
    }
}

/// Releasing a button undoes pressing it, where it was not held before.
pub proof fn law_release_undoes_press(buttons: i64, button: Text)
    requires
        buttons & button_bit(button) == 0,
    ensures
        buttons_after(buttons_after(buttons, button, true), button, false) == buttons,
{
    let m = button_bit(button);
    assert(buttons & m == 0 ==> (buttons | m) & !m == buttons) by (bit_vector);
}

/// Pressing and releasing a button leaves the others as they are.
pub proof fn law_buttons_are_independent(buttons: i64, button: Text, other: Text, down: bool)
    requires
        button_bit(button) != button_bit(other),
    ensures
        buttons_after(buttons, button, down) & button_bit(other) == buttons & button_bit(other),
{
    let m = button_bit(button);
    let o = button_bit(other);
    assert(m & o == 0) by (bit_vector)
        requires
            m == 0 || m == 1 || m == 2 || m == 4,
            o == 0 || o == 1 || o == 2 || o == 4,
            m != o,
    ;
    assert(m & o == 0 ==> (buttons | m) & o == buttons & o) by (bit_vector);
    assert(m & o == 0 ==> (buttons & !m) & o == buttons & o) by (bit_vector);
}

// ---------------------------------------------------------------------- keys

/// The parameters of a key event. The native key code is deliberately left out: on macOS it is a
/// Carbon key code, where the Windows code 91 (Meta) means keypad 8 and would type "8"s.
pub open spec fn key_params(down: bool, k: KeyDefV, mask: i64, commands: Seq<Text>) -> JsonV {
    let kind = if down {
        if k.text is Some {
            "keyDown"@
        } else {
            "rawKeyDown"@
        }
    } else {
        "keyUp"@
    };
    let base = JsonV::obj().with("type"@, JsonV::Str(kind)).with("key"@, JsonV::Str(k.key)).with(
        "code"@,
        JsonV::Str(k.code),
    ).with("windowsVirtualKeyCode"@, JsonV::Int(k.key_code)).with("modifiers"@, JsonV::Int(mask as int)).with(
        "location"@,
        JsonV::Int(k.location),
    );
    let typed = match k.text {
        Some(t) if down => base.with("text"@, JsonV::Str(t)).with("unmodifiedText"@, JsonV::Str(t)),
        _ => base,
    };
    if down && commands.len() > 0 {
        typed.with("commands"@, json::str_list(commands))
    } else {
        typed
    }
}

/// A key event of a session.
pub open spec fn key_command(session: Text, params: JsonV) -> CommandV {
    cdp::to_session(session, "Input.dispatchKeyEvent"@, params)
}

/// A key goes down or up.
pub fn key_event(session: &str, down: bool, key: &KeyDef, mask: i64, commands: &Vec<String>) -> (r: Command)
    ensures
        r@ == key_command(session@, key_params(down, key@, mask, text::views(commands@))),
{
    let kind = if down {
        if key.text.is_some() {
            "keyDown"
        } else {
            "rawKeyDown"
        }
    } else {
        "keyUp"
    };
    let mut p = Json::obj().with("type", Json::str(kind)).with("key", Json::str(&key.key)).with(
        "code",
        Json::str(&key.code),
    ).with("windowsVirtualKeyCode", Json::num(key.key_code)).with("modifiers", Json::num(mask)).with(
        "location",
        Json::num(key.location),
    );
    if down {
        match &key.text {
            Some(t) => {
                p = p.with("text", Json::str(t)).with("unmodifiedText", Json::str(t));
            },
            None => {},
        }
        if commands.len() > 0 {
            p = p.with("commands", Json::strs(commands));
        }
    }
    Command::session(session, "Input.dispatchKeyEvent", p)
}

/// The bit of a modifier key.
pub open spec fn key_bit(k: KeyDefV) -> i64 {
    if k.key == "Alt"@ {
        keys::ALT
    } else if k.key == "Control"@ {
        keys::CONTROL
    } else if k.key == "Meta"@ {
        keys::META
    } else {
        keys::SHIFT
    }
}

fn modifier_bit(k: &KeyDef) -> (r: i64)
    ensures
        r == key_bit(k@),
{
    if text::same(&k.key, "Alt") {
        keys::ALT
    } else if text::same(&k.key, "Control") {
        keys::CONTROL
    } else if text::same(&k.key, "Meta") {
        keys::META
    } else {
        keys::SHIFT
    }
}

/// The bits of the modifier keys that are down after some went down.
pub open spec fn bits_of(mods: Seq<KeyDefV>) -> i64
    decreases mods.len(),
{
    if mods.len() == 0 {
        0
    } else {
        bits_of(mods.drop_last()) | key_bit(mods.last())
    }
}

/// Modifier keys go down, one after the other.
pub open spec fn downs(session: Text, mods: Seq<KeyDefV>) -> Seq<CommandV>
    decreases mods.len(),
{
    if mods.len() == 0 {
        Seq::empty()
    } else {
        downs(session, mods.drop_last()).push(
            key_command(session, key_params(true, mods.last(), bits_of(mods), Seq::empty())),
        )
    }
}

/// Modifier keys come up, the last first, where `mask` has the bits of those that are down.
pub open spec fn ups(session: Text, mods: Seq<KeyDefV>, mask: i64) -> Seq<CommandV>
    decreases mods.len(),
{
    if mods.len() == 0 {
        Seq::empty()
    } else {
        let left = mask & !key_bit(mods.last());
        seq![key_command(session, key_params(false, mods.last(), left, Seq::empty()))] + ups(
            session,
            mods.drop_last(),
            left,
        )
    }
}

/// The key events of a combination: its modifiers go down, the key goes down and comes up, and the
/// modifiers come up in the opposite order.
pub open spec fn press_commands(session: Text, c: ComboV, mac: bool) -> Seq<CommandV> {
    downs(session, c.modifiers) + seq![
        key_command(session, key_params(true, c.key, c.mask, keys::commands_for(c.mask, c.key.key, mac))),
        key_command(session, key_params(false, c.key, c.mask, Seq::empty())),
    ] + ups(session, c.modifiers, bits_of(c.modifiers))
}

/// The key events of a combination.
pub fn press(session: &str, combo: &str, mac: bool) -> (r: Result<Vec<Command>, String>)
    ensures
        match (keys::parsed(combo@, mac), r) {
            (Ok(c), Ok(v)) => text::views(v@) == press_commands(session@, c, mac),
            (Err(e), Err(x)) => x@ == e,
            _ => false,
        },
{
    broadcast use text::group_views;
    let c = match keys::parse(combo, mac) {
        Ok(c) => c,
        Err(e) => {
            return Err(e);
        },
    };
    let ghost mods = c@.modifiers;
    let none: Vec<String> = Vec::new();
    let mut out: Vec<Command> = Vec::new();
    let mut mask: i64 = 0;
    let mut i: usize = 0;
    proof {
        assert(mods.take(0) =~= Seq::<KeyDefV>::empty());
        assert(text::views(none@) =~= Seq::<Text>::empty());
    }
    while i < c.modifiers.len()
        invariant
            i <= c.modifiers@.len(),
            mods == text::views(c.modifiers@),
            text::views(none@) == Seq::<Text>::empty(),
            mask == bits_of(mods.take(i as int)),
            text::views(out@) == downs(session@, mods.take(i as int)),
        decreases c.modifiers@.len() - i,
    {
        broadcast use text::group_views;
        proof {
            assert(mods.take(i + 1).drop_last() =~= mods.take(i as int));
            assert(mods.take(i + 1).last() == c.modifiers@[i as int]@);
        }
        mask = mask | modifier_bit(&c.modifiers[i]);
        out.push(key_event(session, true, &c.modifiers[i], mask, &none));
        i = i + 1;
    }
    proof {
        assert(mods.take(mods.len() as int) =~= mods);
    }
    let ghost down = downs(session@, mods);
    let commands = keys::mac_commands(c.mask, &c.key.key, mac);
    out.push(key_event(session, true, &c.key, c.mask, &commands));
    out.push(key_event(session, false, &c.key, c.mask, &none));
    let ghost middle = text::views(out@);
    proof {
        assert(middle =~= down + seq![
            key_command(session@, key_params(true, c@.key, c@.mask, keys::commands_for(c@.mask, c@.key.key, mac))),
            key_command(session@, key_params(false, c@.key, c@.mask, Seq::empty())),
        ]);
        assert(middle + ups(session@, mods, mask) =~= press_commands(session@, c@, mac));
    }
    while i > 0
        invariant
            i <= c.modifiers@.len(),
            mods == text::views(c.modifiers@),
            text::views(none@) == Seq::<Text>::empty(),
            text::views(out@) + ups(session@, mods.take(i as int), mask) == press_commands(session@, c@, mac),
        decreases i,
    {
        broadcast use text::group_views;
        let ghost before = text::views(out@);
        let ghost held = mask;
        proof {
            assert(mods.take(i as int).drop_last() =~= mods.take(i - 1));
            assert(mods.take(i as int).last() == c.modifiers@[i - 1]@);
        }
        i = i - 1;
        mask = mask & !modifier_bit(&c.modifiers[i]);
        out.push(key_event(session, false, &c.modifiers[i], mask, &none));
        proof {
            assert(before + ups(session@, mods.take(i + 1), held) =~= text::views(out@) + ups(
                session@,
                mods.take(i as int),
                mask,
            ));
        }
    }
    proof {
        assert(mods.take(0) =~= Seq::<KeyDefV>::empty());
        assert(text::views(out@) + Seq::<CommandV>::empty() =~= text::views(out@));
    }
    Ok(out)
}

proof fn lemma_ups(session: Text, mods: Seq<KeyDefV>, mask: i64, i: int)
    requires
        0 <= i < mods.len(),
    ensures
        ups(session, mods, mask).len() == mods.len(),
        exists|m: i64|
            ups(session, mods, mask)[mods.len() - 1 - i] == key_command(
                session,
                #[trigger] key_params(false, mods[i], m, Seq::empty()),
            ),
    decreases mods.len(),
{
    let left = mask & !key_bit(mods.last());
    let rest = mods.drop_last();
    let all = ups(session, mods, mask);
    if rest.len() > 0 {
        lemma_ups(session, rest, left, 0);
    } else {
        assert(ups(session, rest, left).len() == 0);
    }
    if i == mods.len() - 1 {
        assert(all[0] == key_command(session, key_params(false, mods[i], left, Seq::empty())));
    } else {
        lemma_ups(session, rest, left, i);
        assert(all[mods.len() - 1 - i] == ups(session, rest, left)[rest.len() - 1 - i]);
        assert(rest[i] == mods[i]);
    }
}

proof fn lemma_downs(session: Text, mods: Seq<KeyDefV>, i: int)
    requires
        0 <= i < mods.len(),
    ensures
        downs(session, mods).len() == mods.len(),
        exists|m: i64|
            downs(session, mods)[i] == key_command(session, #[trigger] key_params(true, mods[i], m, Seq::empty())),
    decreases mods.len(),
{
    let rest = mods.drop_last();
    let all = downs(session, mods);
    if rest.len() > 0 {
        lemma_downs(session, rest, 0);
    } else {
        assert(downs(session, rest).len() == 0);
    }
    if i == mods.len() - 1 {
        assert(all[i] == key_command(session, key_params(true, mods[i], bits_of(mods), Seq::empty())));
    } else {
        lemma_downs(session, rest, i);
        assert(all[i] == downs(session, rest)[i]);
        assert(rest[i] == mods[i]);
    }
}

/// Every modifier key that a combination presses comes up again: the `i`th event presses the `i`th
/// modifier and the `i`th event from the end releases it.
pub proof fn law_press_releases_modifiers(session: Text, c: ComboV, mac: bool, i: int)
    requires
        0 <= i < c.modifiers.len(),
    ensures
        ({
            let p = press_commands(session, c, mac);
            &&& p.len() == 2 * c.modifiers.len() + 2
            &&& exists|m: i64| p[i] == key_command(session, #[trigger] key_params(true, c.modifiers[i], m, Seq::empty()))
            &&& exists|m: i64|
                p[p.len() - 1 - i] == key_command(session, #[trigger] key_params(false, c.modifiers[i], m, Seq::empty()))
        }),
{
    let p = press_commands(session, c, mac);
    let n = c.modifiers.len() as int;
    lemma_downs(session, c.modifiers, i);
    lemma_ups(session, c.modifiers, bits_of(c.modifiers), i);
    assert(p[i] == downs(session, c.modifiers)[i]);
    assert(p[p.len() - 1 - i] == ups(session, c.modifiers, bits_of(c.modifiers))[n - 1 - i]);
}

// ---------------------------------------------------------------------- holding, typing

/// The keys of names, or why one of them is no key.
pub open spec fn keys_of(names: Seq<Text>, mac: bool) -> Result<Seq<KeyDefV>, Text>
    decreases names.len(),
{
    if names.len() == 0 {
        Ok(Seq::empty())
    } else {
        match keys_of(names.drop_last(), mac) {
            Err(e) => Err(e),
            Ok(ks) => match keys::parsed(names.last(), mac) {
                Err(e) => Err(e),
                Ok(c) => Ok(ks.push(c.key)),
            },
        }
    }
}

/// Keys go down or come up, one after the other, without modifiers.
pub open spec fn hold_commands(session: Text, ks: Seq<KeyDefV>, down: bool) -> Seq<CommandV> {
    ks.map_values(|k: KeyDefV| key_command(session, key_params(down, k, 0, Seq::empty())))
}

/// The keys in the order in which they are held; they are let go in the opposite order.
pub open spec fn hold_order(names: Seq<Text>, down: bool) -> Seq<Text> {
    if down {
        names
    } else {
        names.reverse()
    }
}

proof fn lemma_keys_error(names: Seq<Text>, mac: bool, n: int)
    requires
        0 <= n <= names.len(),
        keys_of(names.take(n), mac) is Err,
    ensures
        keys_of(names, mac) == keys_of(names.take(n), mac),
    decreases names.len(),
{
    if n < names.len() {
        assert(names.drop_last().take(n) =~= names.take(n));
        lemma_keys_error(names.drop_last(), mac, n);
    } else {
        assert(names.take(n) =~= names);
    }
}

/// Holds modifier keys down around a click, or lets them go.
pub fn hold_modifiers(session: &str, names: &Vec<String>, down: bool, mac: bool) -> (r: Result<Vec<Command>, String>)
    ensures
        match (keys_of(hold_order(text::views(names@), down), mac), r) {
            (Ok(ks), Ok(v)) => text::views(v@) == hold_commands(session@, ks, down),
            (Err(e), Err(x)) => x@ == e,
            _ => false,
        },
{
    broadcast use text::group_views;
    let ghost order = hold_order(text::views(names@), down);
    let ghost mut ks: Seq<KeyDefV> = Seq::empty();
    let none: Vec<String> = Vec::new();
    let mut out: Vec<Command> = Vec::new();
    let mut i: usize = 0;
    let n = names.len();
    proof {
        assert(order.take(0) =~= Seq::<Text>::empty());
        assert(text::views(none@) =~= Seq::<Text>::empty());
        assert(text::views(out@) =~= hold_commands(session@, ks, down));
    }
    while i < n
        invariant
            i <= n,
            n == names@.len(),
            order == hold_order(text::views(names@), down),
            text::views(none@) == Seq::<Text>::empty(),
            keys_of(order.take(i as int), mac) == Ok::<Seq<KeyDefV>, Text>(ks),
            text::views(out@) == hold_commands(session@, ks, down),
        decreases n - i,
    {
        broadcast use text::group_views;
        let j: usize = if down {
            i
        } else {
            n - 1 - i
        };
        proof {
            assert(order[i as int] == names@[j as int]@);
            assert(order.take(i + 1).drop_last() =~= order.take(i as int));
            assert(order.take(i + 1).last() == names@[j as int]@);
        }
        match keys::parse(&names[j], mac) {
            Err(e) => {
                proof {
                    lemma_keys_error(order, mac, i + 1);
                }
                return Err(e);
            },
            Ok(c) => {
                out.push(key_event(session, down, &c.key, 0, &none));
                proof {
                    let before = ks;
                    ks = ks.push(c@.key);
                    assert(hold_commands(session@, ks, down) =~= hold_commands(session@, before, down).push(
                        key_command(session@, key_params(down, c@.key, 0, Seq::empty())),
                    ));
                }
            },
        }
        i = i + 1;
    }
    proof {
        assert(order.take(order.len() as int) =~= order);
    }
    Ok(out)
}

/// Text goes into the page as if an input method had produced it.
pub open spec fn insert_command(session: Text, t: Text) -> CommandV {
    cdp::to_session(session, "Input.insertText"@, JsonV::obj().with("text"@, JsonV::Str(t)))
}

pub fn insert_text(session: &str, t: &str) -> (r: Command)
    ensures
        r@ == insert_command(session@, t@),
{
    Command::session(session, "Input.insertText", Json::obj().with("text", Json::str(t)))
}

/// How a character is typed: by its key, or inserted where no US-layout key types it (emoji,
/// CJK...).
pub open spec fn type_char(session: Text, c: char) -> Seq<CommandV> {
    let k = keys::key_of_char(c);
    if k.code.len() == 0 && k.key_code == 0 {
        seq![insert_command(session, seq![c])]
    } else {
        let mask = if 'A' <= c <= 'Z' {
            keys::SHIFT
        } else {
            0
        };
        seq![
            key_command(session, key_params(true, k, mask, Seq::empty())),
            key_command(session, key_params(false, k, mask, Seq::empty())),
        ]
    }
}

/// How a text is typed.
pub open spec fn type_commands(session: Text, t: Text) -> Seq<CommandV>
    decreases t.len(),
{
    if t.len() == 0 {
        Seq::empty()
    } else {
        type_commands(session, t.drop_last()) + type_char(session, t.last())
    }
}

/// Types a text one character at a time.
pub fn type_slowly(session: &str, t: &str) -> (r: Vec<Command>)
    ensures
        text::views(r@) == type_commands(session@, t@),
{
    broadcast use text::group_views;
    let chars = text::chars_of(t);
    let none: Vec<String> = Vec::new();
    let mut out: Vec<Command> = Vec::new();
    let mut i: usize = 0;
    proof {
        assert(t@.take(0) =~= Seq::<char>::empty());
        assert(text::views(none@) =~= Seq::<Text>::empty());
    }
    while i < chars.len()
        invariant
            i <= chars@.len(),
            chars@ == t@,
            text::views(none@) == Seq::<Text>::empty(),
            text::views(out@) == type_commands(session@, t@.take(i as int)),
        decreases chars@.len() - i,
    {
        broadcast use text::group_views;
        let c = chars[i];
        let ghost before = text::views(out@);
        proof {
            assert(t@.take(i + 1).drop_last() =~= t@.take(i as int));
            assert(t@.take(i + 1).last() == c);
        }
        let k = keys::char_key(c);
        if k.code.as_str().is_empty() && k.key_code == 0 {
            let mut s = String::new();
            s.push(c);
            proof {
                assert(s@ =~= seq![c]);
            }
            out.push(insert_text(session, &s));
        } else {
            let mask: i64 = if 'A' <= c && c <= 'Z' {
                keys::SHIFT
            } else {
                0
            };
            out.push(key_event(session, true, &k, mask, &none));
            out.push(key_event(session, false, &k, mask, &none));
        }
        proof {
            assert(text::views(out@) =~= before + type_char(session@, c));
        }
        i = i + 1;
    }
    proof {
        assert(t@.take(t@.len() as int) =~= t@);
    }
    out
}

/// Input events block until the page handles them; if handling opens a dialog, the event has done
/// its job, so that refusal is a success.
pub fn input_done(error: &str) -> (r: bool)
    ensures
        r == text::text_has(error@, "dialog"@),
{
    text::contains(error, "dialog")
}

// ---------------------------------------------------------------------- held modifiers

proof fn lemma_no_modifier_here(mods: Seq<Text>, i: int)
    requires
        keys::no_modifier(mods) is None,
        0 <= i < mods.len(),
    ensures
        keys::modifier_bit(mods[i]) is Some,
    decreases mods.len(),
{
    if i < mods.len() - 1 {
        lemma_no_modifier_here(mods.drop_last(), i);
    }
}

proof fn lemma_held_names(mods: Seq<Text>, mac: bool, i: int)
    requires
        held_modifiers(mods, mac) is Ok,
        0 <= i < (held_modifiers(mods, mac)->Ok_0).1.len(),
    ensures
        keys::modifier_bit((held_modifiers(mods, mac)->Ok_0).1[i]) is Some,
    decreases mods.len(),
{
    let before = (held_modifiers(mods.drop_last(), mac)->Ok_0).1;
    if i < before.len() {
        lemma_held_names(mods.drop_last(), mac, i);
    } else {
        let combo = mods.last() + "+a"@;
        let names = keys::modifier_names(combo, mac);
        lemma_no_modifier_here(names, i - before.len());
        keys::law_modifiers_are_keys(names[i - before.len()], mac);
    }
}

proof fn lemma_keys_of(names: Seq<Text>, mac: bool)
    requires
        forall|i: int| 0 <= i < names.len() ==> keys::modifier_bit(#[trigger] names[i]) is Some,
    ensures
        keys_of(names, mac) is Ok,
        (keys_of(names, mac)->Ok_0).len() == names.len(),
        forall|i: int|
            0 <= i < names.len() ==> (#[trigger] (keys_of(names, mac)->Ok_0)[i]).key == names[i],
    decreases names.len(),
{
    if names.len() > 0 {
        assert forall|i: int| 0 <= i < names.drop_last().len() implies keys::modifier_bit(
            #[trigger] names.drop_last()[i],
        ) is Some by {
            assert(names.drop_last()[i] == names[i]);
        }
        lemma_keys_of(names.drop_last(), mac);
        assert(names.last() == names[names.len() - 1]);
        keys::law_modifiers_are_keys(names.last(), mac);
    }
}

/// No modifier stays down: whatever modifiers a click is made with, what presses them and what
/// releases them both succeed, and the keys that are released are the keys that were pressed, the
/// last one first.
pub proof fn law_held_modifiers_are_released(mods: Seq<Text>, mac: bool)
    requires
        held_modifiers(mods, mac) is Ok,
    ensures
        ({
            let names = (held_modifiers(mods, mac)->Ok_0).1;
            let down = keys_of(hold_order(names, true), mac);
            let up = keys_of(hold_order(names, false), mac);
            &&& down is Ok
            &&& up is Ok
            &&& (down->Ok_0).map_values(|k: KeyDefV| k.key) == names
            &&& (up->Ok_0).map_values(|k: KeyDefV| k.key) == names.reverse()
        }),
{
    let names = (held_modifiers(mods, mac)->Ok_0).1;
    assert forall|i: int| 0 <= i < names.len() implies keys::modifier_bit(#[trigger] names[i]) is Some by {
        lemma_held_names(mods, mac, i);
    }
    lemma_keys_of(names, mac);
    let back = names.reverse();
    assert forall|i: int| 0 <= i < back.len() implies keys::modifier_bit(#[trigger] back[i]) is Some by {
        assert(back[i] == names[names.len() - 1 - i]);
    }
    lemma_keys_of(back, mac);
    assert((keys_of(names, mac)->Ok_0).map_values(|k: KeyDefV| k.key) =~= names);
    assert((keys_of(back, mac)->Ok_0).map_values(|k: KeyDefV| k.key) =~= back);
}

// ---------------------------------------------------------------------- what key events do

/// The text that a command puts into the page.
pub open spec fn puts_text(c: CommandV) -> Text {
    if c.method == "Input.insertText"@ || (c.method == "Input.dispatchKeyEvent"@ && c.params.at("type"@) == JsonV::Str(
        "keyDown"@,
    )) {
        c.params.at("text"@).text()
    } else {
        Seq::empty()
    }
}

/// The text that commands put into the page, one behind the other.
pub open spec fn text_put(cmds: Seq<CommandV>) -> Text
    decreases cmds.len(),
{
    if cmds.len() == 0 {
        Seq::empty()
    } else {
        text_put(cmds.drop_last()) + puts_text(cmds.last())
    }
}

/// The codes of the keys that are down after commands, where those in `held` were down before; none
/// is told where a key goes down that is down, or comes up that is not.
pub open spec fn keys_down(cmds: Seq<CommandV>, held: Set<Text>) -> Option<Set<Text>>
    decreases cmds.len(),
{
    if cmds.len() == 0 {
        Some(held)
    } else {
        match keys_down(cmds.drop_last(), held) {
            None => None,
            Some(down) => {
                let c = cmds.last();
                let kind = c.params.at("type"@);
                let code = c.params.at("code"@).text();
                if c.method != "Input.dispatchKeyEvent"@ {
                    Some(down)
                } else if kind == JsonV::Str("keyDown"@) || kind == JsonV::Str("rawKeyDown"@) {
                    if down.contains(code) {
                        None
                    } else {
                        Some(down.insert(code))
                    }
                } else if kind == JsonV::Str("keyUp"@) {
                    if down.contains(code) {
                        Some(down.remove(code))
                    } else {
                        None
                    }
                } else {
                    None
                }
            },
        }
    }
}

proof fn lemma_key_names()
    ensures
        "type"@ != "key"@ && "type"@ != "code"@ && "type"@ != "text"@ && "type"@ != "modifiers"@,
        "key"@ != "code"@ && "key"@ != "text"@ && "key"@ != "modifiers"@,
        "code"@ != "text"@ && "code"@ != "modifiers"@ && "text"@ != "modifiers"@,
        "windowsVirtualKeyCode"@ != "text"@ && "windowsVirtualKeyCode"@ != "modifiers"@,
        "location"@ != "text"@ && "location"@ != "commands"@,
        "windowsVirtualKeyCode"@ != "commands"@ && "modifiers"@ != "commands"@ && "type"@ != "commands"@ && "key"@
            != "commands"@ && "code"@ != "commands"@ && "text"@ != "commands"@ && "unmodifiedText"@ != "commands"@,
        "unmodifiedText"@ != "text"@,
        "keyDown"@ != "rawKeyDown"@ && "keyDown"@ != "keyUp"@ && "rawKeyDown"@ != "keyUp"@,
        "Input.insertText"@ != "Input.dispatchKeyEvent"@,
{
    reveal_strlit("type");
    reveal_strlit("key");
    reveal_strlit("code");
    reveal_strlit("text");
    reveal_strlit("modifiers");
    reveal_strlit("windowsVirtualKeyCode");
    reveal_strlit("location");
    reveal_strlit("unmodifiedText");
    reveal_strlit("commands");
    reveal_strlit("keyDown");
    reveal_strlit("rawKeyDown");
    reveal_strlit("keyUp");
    reveal_strlit("Input.insertText");
    reveal_strlit("Input.dispatchKeyEvent");
    assert("type"@[1] == 'y' && "text"@[1] == 'e' && "code"@[1] == 'o');
    assert("type"@.len() == 4 && "text"@.len() == 4 && "code"@.len() == 4 && "key"@.len() == 3 && "modifiers"@.len() == 9);
    assert("windowsVirtualKeyCode"@.len() == 21 && "location"@.len() == 8 && "unmodifiedText"@.len() == 14);
    assert("commands"@.len() == 8 && "commands"@[0] == 'c' && "location"@[0] == 'l');
    assert("keyDown"@.len() == 7 && "rawKeyDown"@.len() == 10 && "keyUp"@.len() == 5);
    assert("Input.insertText"@.len() == 16 && "Input.dispatchKeyEvent"@.len() == 22);
}

/// What a key event says: which way the key goes, which key it is, the modifiers that are held, and
/// the text that the key types, as it goes down.
pub proof fn law_key_events(down: bool, k: KeyDefV, mask: i64, commands: Seq<Text>)
    ensures
        ({
            let p = key_params(down, k, mask, commands);
            &&& p.at("type"@) == JsonV::Str(
                if !down {
                    "keyUp"@
                } else if k.text is Some {
                    "keyDown"@
                } else {
                    "rawKeyDown"@
                },
            )
            &&& p.at("key"@) == JsonV::Str(k.key)
            &&& p.at("code"@) == JsonV::Str(k.code)
            &&& p.at("modifiers"@) == JsonV::Int(mask as int)
            &&& p.at("text"@) == if down && k.text is Some {
                JsonV::Str(k.text->0)
            } else {
                JsonV::Null
            }
            &&& p.at("commands"@) == if down && commands.len() > 0 {
                json::str_list(commands)
            } else {
                JsonV::Null
            }
        }),
{
    broadcast use json::group_with;

    lemma_key_names();
    assert(JsonV::obj().get("type"@) is None);
    assert(JsonV::obj().get("key"@) is None);
    assert(JsonV::obj().get("code"@) is None);
    assert(JsonV::obj().get("modifiers"@) is None);
    assert(JsonV::obj().get("text"@) is None);
    assert(JsonV::obj().get("commands"@) is None);
}

proof fn lemma_insert(session: Text, t: Text)
    ensures
        puts_text(insert_command(session, t)) == t,
        insert_command(session, t).method != "Input.dispatchKeyEvent"@,
{
    broadcast use json::group_with;

    lemma_key_names();
    assert(JsonV::obj().get("text"@) is None);
}

proof fn lemma_key_command(session: Text, down: bool, k: KeyDefV, mask: i64, commands: Seq<Text>)
    ensures
        puts_text(key_command(session, key_params(down, k, mask, commands))) == if down && k.text is Some {
            k.text->0
        } else {
            Seq::empty()
        },
{
    lemma_key_names();
    law_key_events(down, k, mask, commands);
}

proof fn lemma_text_put(a: Seq<CommandV>, b: Seq<CommandV>)
    ensures
        text_put(a + b) == text_put(a) + text_put(b),
    decreases b.len(),
{
    if b.len() == 0 {
        assert(a + b =~= a);
        assert(text_put(a) + text_put(b) =~= text_put(a));
    } else {
        assert((a + b).drop_last() =~= a + b.drop_last());
        lemma_text_put(a, b.drop_last());
        assert(text_put(a + b) =~= text_put(a) + text_put(b));
    }
}

proof fn lemma_keys_down(a: Seq<CommandV>, b: Seq<CommandV>, held: Set<Text>)
    requires
        keys_down(a, held) is Some,
    ensures
        keys_down(a + b, held) == keys_down(b, keys_down(a, held)->0),
    decreases b.len(),
{
    if b.len() == 0 {
        assert(a + b =~= a);
    } else {
        assert((a + b).drop_last() =~= a + b.drop_last());
        lemma_keys_down(a, b.drop_last(), held);
    }
}

proof fn lemma_one_key(session: Text, down: bool, k: KeyDefV, mask: i64, commands: Seq<Text>, held: Set<Text>)
    requires
        down != held.contains(k.code),
    ensures
        ({
            let c = seq![key_command(session, key_params(down, k, mask, commands))];
            &&& keys_down(c, held) == Some(
                if down {
                    held.insert(k.code)
                } else {
                    held.remove(k.code)
                },
            )
            &&& text_put(c) == if down && k.text is Some {
                k.text->0
            } else {
                Seq::empty()
            }
        }),
{
    let c = seq![key_command(session, key_params(down, k, mask, commands))];
    lemma_key_names();
    law_key_events(down, k, mask, commands);
    lemma_key_command(session, down, k, mask, commands);
    assert(c.drop_last() =~= Seq::<CommandV>::empty());
    assert(keys_down(c.drop_last(), held) == Some(held));
    assert(text_put(c.drop_last()) =~= Seq::<char>::empty());
    assert(text_put(c) =~= puts_text(c.last()));
}

proof fn lemma_type_char(session: Text, c: char)
    ensures
        keys_down(type_char(session, c), Set::empty()) == Some(Set::<Text>::empty()),
        c != '\t' ==> text_put(type_char(session, c)) == seq![
            if c == '\n' || c == '\r' {
                '\r'
            } else {
                c
            },
        ],
        forall|i: int| 0 <= i < type_char(session, c).len() ==> (#[trigger] type_char(session, c)[i]).session == Some(session),
{
    let k = keys::key_of_char(c);
    let all = type_char(session, c);
    let none = Set::<Text>::empty();
    reveal_strlit("Enter");
    reveal_strlit("\r");
    if k.code.len() == 0 && k.key_code == 0 {
        lemma_insert(session, seq![c]);
        assert(c != '\n' && c != '\r');
        assert(all.drop_last() =~= Seq::<CommandV>::empty());
        assert(keys_down(all.drop_last(), none) == Some(none));
        assert(text_put(all.drop_last()) =~= Seq::<char>::empty());
        assert(all.last() == insert_command(session, seq![c]));
        assert(text_put(all) == text_put(all.drop_last()) + puts_text(all.last()));
        assert(text_put(all) =~= seq![c]);
    } else {
        let a = seq![all[0]];
        let b = seq![all[1]];
        let mask = if 'A' <= c <= 'Z' {
            keys::SHIFT
        } else {
            0
        };
        assert(all =~= a + b);
        assert(a =~= seq![key_command(session, key_params(true, k, mask, Seq::empty()))]);
        assert(b =~= seq![key_command(session, key_params(false, k, mask, Seq::empty()))]);
        lemma_one_key(session, true, k, mask, Seq::empty(), none);
        lemma_one_key(session, false, k, mask, Seq::empty(), none.insert(k.code));
        lemma_keys_down(a, b, none);
        lemma_text_put(a, b);
        assert(none.insert(k.code).remove(k.code) =~= none);
        if c == '\n' || c == '\r' {
            assert("\r"@ =~= seq!['\r']);
        }
        if c != '\t' {
            assert(text_put(all) =~= k.text->0);
        }
    }
}

/// A text that is typed key by key gets into the page as it is, each character once, with a carriage
/// return for each line end; a tab moves on and puts no text. No key goes down that is down, and after
/// the text no key is down.
pub proof fn law_typing_puts_the_text(session: Text, t: Text)
    ensures
        keys_down(type_commands(session, t), Set::empty()) == Some(Set::<Text>::empty()),
        text_put(type_commands(session, t)) == t.filter(|c: char| c != '\t').map_values(
            |c: char|
                if c == '\n' {
                    '\r'
                } else {
                    c
                },
        ),
        forall|i: int|
            0 <= i < type_commands(session, t).len() ==> (#[trigger] type_commands(session, t)[i]).session == Some(
                session,
            ),
    decreases t.len(),
{
    let f = |c: char| c != '\t';
    let g = |c: char|
        if c == '\n' {
            '\r'
        } else {
            c
        };
    reveal(Seq::filter);
    let all = type_commands(session, t);
    if t.len() == 0 {
        assert(text_put(all) =~= t.filter(f).map_values(g));
    } else {
        let rest = t.drop_last();
        let c = t.last();
        let before = type_commands(session, rest);
        let one = type_char(session, c);
        law_typing_puts_the_text(session, rest);
        lemma_type_char(session, c);
        lemma_keys_down(before, one, Set::empty());
        lemma_text_put(before, one);
        if c == '\t' {
            lemma_tab_puts_nothing(session);
            assert(text_put(all) =~= text_put(before));
        } else {
            assert(t.filter(f) =~= rest.filter(f).push(c));
            assert(text_put(all) =~= t.filter(f).map_values(g));
        }
        assert forall|i: int| 0 <= i < all.len() implies (#[trigger] all[i]).session == Some(session) by {
            if i < before.len() {
                assert(all[i] == before[i]);
            } else {
                assert(all[i] == one[i - before.len()]);
            }
        }
    }
}

proof fn lemma_tab_puts_nothing(session: Text)
    ensures
        text_put(type_char(session, '\t')) == Seq::<char>::empty(),
{
    reveal_strlit("Tab");
    reveal_strlit("Enter");
    reveal_strlit("Space");
    reveal_strlit(" ");
    reveal_strlit("Shift");
    reveal_strlit("Control");
    reveal_strlit("Alt");
    reveal_strlit("Meta");
    assert("Tab"@[0] != "Alt"@[0]);
    assert("Tab"@.len() != "Enter"@.len());
    let k = keys::key_of_char('\t');
    assert(k.code == "Tab"@ && k.text is None);
    let all = type_char(session, '\t');
    let a = seq![all[0]];
    let b = seq![all[1]];
    assert(all =~= a + b);
    lemma_one_key(session, true, k, 0, Seq::empty(), Set::empty());
    lemma_one_key(session, false, k, 0, Seq::empty(), Set::<Text>::empty().insert(k.code));
    lemma_text_put(a, b);
    assert(text_put(all) =~= Seq::<char>::empty());
}

/// Capital letters are typed with Shift, and nothing else is typed with a modifier.
pub proof fn law_capitals_are_typed_with_shift(session: Text, c: char, i: int)
    requires
        0 <= i < type_char(session, c).len(),
        type_char(session, c)[i].method == "Input.dispatchKeyEvent"@,
    ensures
        type_char(session, c)[i].params.at("modifiers"@) == JsonV::Int(
            if 'A' <= c <= 'Z' {
                8
            } else {
                0
            },
        ),
{
    let k = keys::key_of_char(c);
    lemma_key_names();
    lemma_insert(session, seq![c]);
    let mask = if 'A' <= c <= 'Z' {
        keys::SHIFT
    } else {
        0
    };
    law_key_events(true, k, mask, Seq::empty());
    law_key_events(false, k, mask, Seq::empty());
}

/// The codes of keys.
pub open spec fn codes_of(ks: Seq<KeyDefV>) -> Seq<Text> {
    ks.map_values(|k: KeyDefV| k.code)
}

proof fn lemma_downs_down(session: Text, mods: Seq<KeyDefV>)
    requires
        codes_of(mods).no_duplicates(),
        forall|i: int| 0 <= i < mods.len() ==> (#[trigger] mods[i]).text is None,
    ensures
        keys_down(downs(session, mods), Set::empty()) == Some(codes_of(mods).to_set()),
        text_put(downs(session, mods)) == Seq::<char>::empty(),
    decreases mods.len(),
{
    let none = Set::<Text>::empty();
    let all = downs(session, mods);
    if mods.len() == 0 {
        assert(codes_of(mods).to_set() =~= none);
    } else {
        let rest = mods.drop_last();
        let k = mods.last();
        let before = downs(session, rest);
        assert forall|i: int, j: int| 0 <= i < j < rest.len() implies codes_of(rest)[i] != codes_of(rest)[j] by {
            assert(codes_of(mods)[i] != codes_of(mods)[j]);
        }
        lemma_downs_down(session, rest);
        let held = codes_of(rest).to_set();
        if held.contains(k.code) {
            let i = choose|i: int| 0 <= i < rest.len() && codes_of(rest)[i] == k.code;
            assert(codes_of(mods)[i] == codes_of(mods)[mods.len() - 1]);
        }
        let one = seq![key_command(session, key_params(true, k, bits_of(mods), Seq::empty()))];
        assert(all =~= before + one);
        lemma_one_key(session, true, k, bits_of(mods), Seq::empty(), held);
        lemma_keys_down(before, one, none);
        lemma_text_put(before, one);
        assert(codes_of(mods) =~= codes_of(rest).push(k.code));
        assert(codes_of(mods).to_set() =~= held.insert(k.code)) by {
            assert forall|x: Text| codes_of(mods).to_set().contains(x) == held.insert(k.code).contains(x) by {
                if held.contains(x) {
                    let i = choose|i: int| 0 <= i < rest.len() && codes_of(rest)[i] == x;
                    assert(codes_of(mods)[i] == x);
                }
                if x == k.code {
                    assert(codes_of(mods)[mods.len() - 1] == x);
                }
            }
        }
        assert(text_put(all) =~= Seq::<char>::empty());
    }
}

proof fn lemma_ups_up(session: Text, mods: Seq<KeyDefV>, mask: i64)
    requires
        codes_of(mods).no_duplicates(),
    ensures
        keys_down(ups(session, mods, mask), codes_of(mods).to_set()) == Some(Set::<Text>::empty()),
        text_put(ups(session, mods, mask)) == Seq::<char>::empty(),
    decreases mods.len(),
{
    let all = ups(session, mods, mask);
    let held = codes_of(mods).to_set();
    if mods.len() == 0 {
        assert(held =~= Set::<Text>::empty());
    } else {
        let rest = mods.drop_last();
        let k = mods.last();
        let left = mask & !key_bit(k);
        assert forall|i: int, j: int| 0 <= i < j < rest.len() implies codes_of(rest)[i] != codes_of(rest)[j] by {
            assert(codes_of(mods)[i] != codes_of(mods)[j]);
        }
        lemma_ups_up(session, rest, left);
        assert(codes_of(mods)[mods.len() - 1] == k.code);
        assert(held.contains(k.code));
        assert(held.remove(k.code) =~= codes_of(rest).to_set()) by {
            assert forall|x: Text| held.remove(k.code).contains(x) == codes_of(rest).to_set().contains(x) by {
                if codes_of(rest).contains(x) {
                    let i = choose|i: int| 0 <= i < rest.len() && codes_of(rest)[i] == x;
                    assert(codes_of(mods)[i] == x);
                    assert(codes_of(mods)[i] != codes_of(mods)[mods.len() - 1]);
                }
                if held.contains(x) && x != k.code {
                    let i = choose|i: int| 0 <= i < mods.len() && codes_of(mods)[i] == x;
                    assert(codes_of(rest)[i] == x);
                }
            }
        }
        let one = seq![key_command(session, key_params(false, k, left, Seq::empty()))];
        lemma_one_key(session, false, k, left, Seq::empty(), held);
        lemma_keys_down(one, ups(session, rest, left), held);
        lemma_text_put(one, ups(session, rest, left));
        assert(text_put(all) =~= Seq::<char>::empty());
    }
}

/// After a combination no key is down, and no key went down that was down; it puts the text of its key
/// into the page, once, where the key has one. The keys of the combination are different ones, and its
/// modifiers type nothing.
pub proof fn law_press_leaves_no_key_down(session: Text, c: ComboV, mac: bool)
    requires
        codes_of(c.modifiers).no_duplicates(),
        !codes_of(c.modifiers).contains(c.key.code),
        forall|i: int| 0 <= i < c.modifiers.len() ==> (#[trigger] c.modifiers[i]).text is None,
    ensures
        keys_down(press_commands(session, c, mac), Set::empty()) == Some(Set::<Text>::empty()),
        text_put(press_commands(session, c, mac)) == if c.key.text is Some {
            c.key.text->0
        } else {
            Seq::empty()
        },
{
    let none = Set::<Text>::empty();
    let held = codes_of(c.modifiers).to_set();
    let d = downs(session, c.modifiers);
    let u = ups(session, c.modifiers, bits_of(c.modifiers));
    let cs = keys::commands_for(c.mask, c.key.key, mac);
    let a = seq![key_command(session, key_params(true, c.key, c.mask, cs))];
    let b = seq![key_command(session, key_params(false, c.key, c.mask, Seq::empty()))];
    lemma_downs_down(session, c.modifiers);
    lemma_ups_up(session, c.modifiers, bits_of(c.modifiers));
    lemma_one_key(session, true, c.key, c.mask, cs, held);
    lemma_one_key(session, false, c.key, c.mask, Seq::empty(), held.insert(c.key.code));
    assert(press_commands(session, c, mac) =~= d + a + b + u);
    lemma_keys_down(d, a, none);
    lemma_keys_down(d + a, b, none);
    lemma_keys_down(d + a + b, u, none);
    lemma_text_put(d, a);
    lemma_text_put(d + a, b);
    lemma_text_put(d + a + b, u);
    assert(held.insert(c.key.code).remove(c.key.code) =~= held);
    assert(text_put(press_commands(session, c, mac)) =~= if c.key.text is Some {
        c.key.text->0
    } else {
        Seq::empty()
    });
}

/// The bits of the mouse buttons, and the button that a move reports: the left one before the right one
/// before the middle one, of those that are held.
pub proof fn law_mouse_buttons(buttons: i64)
    ensures
        button_bit("left"@) == 1 && button_bit("right"@) == 2 && button_bit("middle"@) == 4,
        forall|b: Text| b != "left"@ && b != "right"@ && b != "middle"@ ==> #[trigger] button_bit(b) == 0,
        buttons & 1 != 0 ==> held_button(buttons) == "left"@,
        buttons & 1 == 0 && buttons & 2 != 0 ==> held_button(buttons) == "right"@,
        buttons & 1 == 0 && buttons & 2 == 0 && buttons & 4 != 0 ==> held_button(buttons) == "middle"@,
        buttons & 1 == 0 && buttons & 2 == 0 && buttons & 4 == 0 ==> held_button(buttons) == "none"@,
{
    reveal_strlit("left");
    reveal_strlit("right");
    reveal_strlit("middle");
    assert("left"@.len() == 4);
    assert("right"@.len() == 5);
    assert("middle"@.len() == 6);
}

/// A button that goes down is held, and one that comes up is not.
pub proof fn law_buttons_are_held(buttons: i64, button: Text)
    ensures
        buttons_after(buttons, button, true) & button_bit(button) == button_bit(button),
        buttons_after(buttons, button, false) & button_bit(button) == 0,
{
    let m = button_bit(button);
    assert((buttons | m) & m == m) by (bit_vector);
    assert((buttons & !m) & m == 0) by (bit_vector);
}

/// The modifiers that the events of a combination report: each event that presses a modifier reports it and
/// those before it, the key reports all of the combination, and each event that releases one reports those
/// that are still down.
pub proof fn law_modifier_bits(k: KeyDefV, mods: Seq<KeyDefV>)
    ensures
        k.key == "Alt"@ ==> key_bit(k) == 1,
        k.key == "Control"@ ==> key_bit(k) == 2,
        k.key == "Meta"@ ==> key_bit(k) == 4,
        k.key == "Shift"@ ==> key_bit(k) == 8,
        bits_of(Seq::empty()) == 0,
        bits_of(mods.push(k)) == bits_of(mods) | key_bit(k),
{
    reveal_strlit("Alt");
    reveal_strlit("Control");
    reveal_strlit("Meta");
    reveal_strlit("Shift");
    assert("Alt"@.len() == 3);
    assert("Meta"@.len() == 4);
    assert("Shift"@.len() == 5);
    assert("Control"@.len() == 7);
    assert(mods.push(k).drop_last() =~= mods);
}

/// The events of a combination are those of its modifiers as they go down, of its key, with the mask of the
/// combination and the editing commands that it stands for, and of its modifiers as they come up.
pub proof fn law_press_reports_the_mask(session: Text, c: ComboV, mac: bool)
    ensures
        ({
            let p = press_commands(session, c, mac);
            let n = c.modifiers.len() as int;
            &&& p.len() == 2 * n + 2
            &&& p[n] == key_command(
                session,
                key_params(true, c.key, c.mask, keys::commands_for(c.mask, c.key.key, mac)),
            )
            &&& p[n + 1] == key_command(session, key_params(false, c.key, c.mask, Seq::empty()))
        }),
{
    lemma_press_lens(session, c.modifiers, bits_of(c.modifiers));
}

proof fn lemma_press_lens(session: Text, mods: Seq<KeyDefV>, mask: i64)
    ensures
        downs(session, mods).len() == mods.len(),
        ups(session, mods, mask).len() == mods.len(),
    decreases mods.len(),
{
    if mods.len() > 0 {
        lemma_press_lens(session, mods.drop_last(), mask & !key_bit(mods.last()));
    }
}

/// Keys that are held go down one after the other, and come up when they are let go: after both no key is
/// down.
pub proof fn law_held_keys_come_up(session: Text, ks: Seq<KeyDefV>)
    requires
        codes_of(ks).no_duplicates(),
    ensures
        keys_down(hold_commands(session, ks, true) + hold_commands(session, ks.reverse(), false), Set::empty()) == Some(
            Set::<Text>::empty(),
        ),
{
    lemma_hold_down(session, ks);
    let rev = ks.reverse();
    assert forall|i: int, j: int| 0 <= i < j < rev.len() implies codes_of(rev)[i] != codes_of(rev)[j] by {
        assert(codes_of(rev)[i] == codes_of(ks)[ks.len() - 1 - i]);
        assert(codes_of(rev)[j] == codes_of(ks)[ks.len() - 1 - j]);
    }
    assert(codes_of(rev).to_set() =~= codes_of(ks).to_set()) by {
        assert forall|x: Text| codes_of(rev).to_set().contains(x) == codes_of(ks).to_set().contains(x) by {
            if codes_of(ks).contains(x) {
                let i = choose|i: int| 0 <= i < ks.len() && codes_of(ks)[i] == x;
                assert(codes_of(rev)[ks.len() - 1 - i] == x);
            }
            if codes_of(rev).contains(x) {
                let i = choose|i: int| 0 <= i < rev.len() && codes_of(rev)[i] == x;
                assert(codes_of(ks)[ks.len() - 1 - i] == x);
            }
        }
    }
    lemma_hold_up(session, rev);
    lemma_keys_down(hold_commands(session, ks, true), hold_commands(session, rev, false), Set::empty());
}

proof fn lemma_code_sets(ks: Seq<KeyDefV>)
    requires
        ks.len() > 0,
        codes_of(ks).no_duplicates(),
    ensures
        codes_of(ks.drop_last()).no_duplicates(),
        codes_of(ks.drop_first()).no_duplicates(),
        !codes_of(ks.drop_last()).to_set().contains(ks.last().code),
        codes_of(ks).to_set() == codes_of(ks.drop_last()).to_set().insert(ks.last().code),
        codes_of(ks).to_set().contains(ks[0].code),
        codes_of(ks).to_set().remove(ks[0].code) == codes_of(ks.drop_first()).to_set(),
{
    let all = codes_of(ks);
    let a = ks.drop_last();
    let b = ks.drop_first();
    assert forall|i: int, j: int| 0 <= i < j < a.len() implies codes_of(a)[i] != codes_of(a)[j] by {
        assert(all[i] != all[j]);
    }
    assert forall|i: int, j: int| 0 <= i < j < b.len() implies codes_of(b)[i] != codes_of(b)[j] by {
        assert(all[i + 1] != all[j + 1]);
    }
    assert(all[0] == ks[0].code);
    assert(all[ks.len() - 1] == ks.last().code);
    if codes_of(a).contains(ks.last().code) {
        let i = choose|i: int| 0 <= i < a.len() && codes_of(a)[i] == ks.last().code;
        assert(all[i] == all[ks.len() - 1]);
    }
    assert forall|x: Text| all.to_set().contains(x) == codes_of(a).to_set().insert(ks.last().code).contains(x) by {
        if all.contains(x) {
            let i = choose|i: int| 0 <= i < all.len() && all[i] == x;
            if i < a.len() {
                assert(codes_of(a)[i] == x);
            }
        }
        if codes_of(a).contains(x) {
            let i = choose|i: int| 0 <= i < a.len() && codes_of(a)[i] == x;
            assert(all[i] == x);
        }
    }
    assert(all.to_set() =~= codes_of(a).to_set().insert(ks.last().code));
    assert forall|x: Text| all.to_set().remove(ks[0].code).contains(x) == codes_of(b).to_set().contains(x) by {
        if all.contains(x) && x != ks[0].code {
            let i = choose|i: int| 0 <= i < all.len() && all[i] == x;
            assert(codes_of(b)[i - 1] == x);
        }
        if codes_of(b).contains(x) {
            let i = choose|i: int| 0 <= i < b.len() && codes_of(b)[i] == x;
            assert(all[i + 1] == x);
            assert(all[0] != all[i + 1]);
        }
    }
    assert(all.to_set().remove(ks[0].code) =~= codes_of(b).to_set());
}

proof fn lemma_hold_down(session: Text, ks: Seq<KeyDefV>)
    requires
        codes_of(ks).no_duplicates(),
    ensures
        keys_down(hold_commands(session, ks, true), Set::empty()) == Some(codes_of(ks).to_set()),
    decreases ks.len(),
{
    if ks.len() == 0 {
        assert(codes_of(ks).to_set() =~= Set::<Text>::empty());
    } else {
        let rest = ks.drop_last();
        lemma_code_sets(ks);
        lemma_hold_down(session, rest);
        let one = seq![key_command(session, key_params(true, ks.last(), 0, Seq::empty()))];
        assert(hold_commands(session, ks, true) =~= hold_commands(session, rest, true) + one);
        lemma_one_key(session, true, ks.last(), 0, Seq::empty(), codes_of(rest).to_set());
        lemma_keys_down(hold_commands(session, rest, true), one, Set::empty());
    }
}

proof fn lemma_hold_up(session: Text, ks: Seq<KeyDefV>)
    requires
        codes_of(ks).no_duplicates(),
    ensures
        keys_down(hold_commands(session, ks, false), codes_of(ks).to_set()) == Some(Set::<Text>::empty()),
    decreases ks.len(),
{
    if ks.len() == 0 {
        assert(codes_of(ks).to_set() =~= Set::<Text>::empty());
    } else {
        let rest = ks.drop_first();
        lemma_code_sets(ks);
        lemma_hold_up(session, rest);
        let one = seq![key_command(session, key_params(false, ks[0], 0, Seq::empty()))];
        assert(hold_commands(session, ks, false) =~= one + hold_commands(session, rest, false));
        lemma_one_key(session, false, ks[0], 0, Seq::empty(), codes_of(ks).to_set());
        lemma_keys_down(one, hold_commands(session, rest, false), codes_of(ks).to_set());
    }
}

/// The modifiers that a click is made with: the mask has the bits of the names that are held, and of no
/// other modifier.
pub proof fn law_click_mask_holds_modifiers(mods: Seq<Text>, mac: bool)
    requires
        held_modifiers(mods, mac) is Ok,
    ensures
        ({
            let (mask, names) = held_modifiers(mods, mac)->Ok_0;
            &&& (mask & 1 != 0) == names.contains("Alt"@)
            &&& (mask & 2 != 0) == names.contains("Control"@)
            &&& (mask & 4 != 0) == names.contains("Meta"@)
            &&& (mask & 8 != 0) == names.contains("Shift"@)
        }),
    decreases mods.len(),
{
    if mods.len() == 0 {
        assert(0i64 & 1 == 0 && 0i64 & 2 == 0 && 0i64 & 4 == 0 && 0i64 & 8 == 0) by (bit_vector);
    } else {
        law_click_mask_holds_modifiers(mods.drop_last(), mac);
        let (a, before) = held_modifiers(mods.drop_last(), mac)->Ok_0;
        let (all, names) = held_modifiers(mods, mac)->Ok_0;
        let combo = mods.last() + "+a"@;
        let c = keys::parsed(combo, mac)->Ok_0;
        let own = keys::modifier_names(combo, mac);
        keys::law_mask_holds_modifiers(own);
        assert forall|i: int| 0 <= i < own.len() implies (#[trigger] keys::named_key(own[i])->0).key == own[i] by {
            lemma_no_modifier_here(own, i);
            keys::law_modifiers_are_keys(own[i], mac);
        }
        let added = c.modifiers.map_values(|k: KeyDefV| k.key);
        assert(added =~= own) by {
            assert forall|i: int| 0 <= i < own.len() implies added[i] == own[i] by {
                assert((keys::named_key(own[i])->0).key == own[i]);
            }
        }
        let b = c.mask;
        assert((a | b) & 1 != 0 <==> a & 1 != 0 || b & 1 != 0) by (bit_vector);
        assert((a | b) & 2 != 0 <==> a & 2 != 0 || b & 2 != 0) by (bit_vector);
        assert((a | b) & 4 != 0 <==> a & 4 != 0 || b & 4 != 0) by (bit_vector);
        assert((a | b) & 8 != 0 <==> a & 8 != 0 || b & 8 != 0) by (bit_vector);
        assert forall|x: Text| #[trigger] names.contains(x) == (before.contains(x) || own.contains(x)) by {
            if before.contains(x) {
                let i = choose|i: int| 0 <= i < before.len() && before[i] == x;
                assert(names[i] == x);
            }
            if own.contains(x) {
                let i = choose|i: int| 0 <= i < own.len() && own[i] == x;
                assert(names[before.len() + i] == x);
            }
            if names.contains(x) {
                let i = choose|i: int| 0 <= i < names.len() && names[i] == x;
                if i < before.len() {
                    assert(before[i] == x);
                } else {
                    assert(own[i - before.len()] == x);
                }
            }
        }
    }
}

// ---------------------------------------------------------------------- what mouse events do

proof fn lemma_mouse_names()
    ensures
        "x"@.len() == 1 && "x"@[0] == 'x',
        "y"@.len() == 1 && "y"@[0] == 'y',
        "type"@.len() == 4,
        "button"@.len() == 6 && "button"@[5] == 'n',
        "deltaX"@.len() == 6 && "deltaX"@[5] == 'X',
        "deltaY"@.len() == 6 && "deltaY"@[5] == 'Y',
        "buttons"@.len() == 7,
        "modifiers"@.len() == 9,
        "clickCount"@.len() == 10,
{
    reveal_strlit("type");
    reveal_strlit("x");
    reveal_strlit("y");
    reveal_strlit("button");
    reveal_strlit("buttons");
    reveal_strlit("clickCount");
    reveal_strlit("modifiers");
    reveal_strlit("deltaX");
    reveal_strlit("deltaY");
    assert("x"@.len() == 1 && "x"@[0] == 'x');
    assert("y"@.len() == 1 && "y"@[0] == 'y');
    assert("type"@.len() == 4);
    assert("button"@.len() == 6 && "button"@[5] == 'n');
    assert("deltaX"@.len() == 6 && "deltaX"@[5] == 'X');
    assert("deltaY"@.len() == 6 && "deltaY"@[5] == 'Y');
    assert("buttons"@.len() == 7);
    assert("modifiers"@.len() == 9);
    assert("clickCount"@.len() == 10);
}

/// A move goes to its point and reports the buttons that are held, so that a page sees a drag; the wheel turns
/// where the mouse is.
pub proof fn law_moves_and_wheels(st: StateV, session: Text, x: JsonV, y: JsonV)
    ensures
        ({
            let m = move_command(st, session, x, y);
            let w = wheel_command(st, session, x, y);
            &&& m.session == Some(session) && w.session == Some(session)
            &&& m.method == "Input.dispatchMouseEvent"@ && w.method == "Input.dispatchMouseEvent"@
            &&& m.params.at("type"@) == JsonV::Str("mouseMoved"@) && w.params.at("type"@) == JsonV::Str("mouseWheel"@)
            &&& m.params.at("x"@) == x && m.params.at("y"@) == y
            &&& m.params.at("buttons"@) == JsonV::Int(st.buttons as int)
            &&& m.params.at("button"@) == JsonV::Str(held_button(st.buttons))
            &&& w.params.at("x"@) == st.mouse.0 && w.params.at("y"@) == st.mouse.1
            &&& w.params.at("deltaX"@) == x && w.params.at("deltaY"@) == y
        }),
{
    broadcast use json::group_with;

    lemma_mouse_names();
    assert(JsonV::obj().get("type"@) is None);
    assert(JsonV::obj().get("x"@) is None);
    assert(JsonV::obj().get("y"@) is None);
    assert(JsonV::obj().get("button"@) is None);
    assert(JsonV::obj().get("buttons"@) is None);
    assert(JsonV::obj().get("clickCount"@) is None);
    assert(JsonV::obj().get("modifiers"@) is None);
    assert(JsonV::obj().get("deltaX"@) is None);
    assert(JsonV::obj().get("deltaY"@) is None);
}

/// A click presses a button and releases it again, both where the mouse is, with the same button, count and
/// modifiers; while it is pressed the button is held, and after the click the buttons are held that were held
/// before.
pub proof fn law_clicks_press_and_release(st: StateV, session: Text, button: Text, count: int, modifiers: int)
    requires
        st.buttons & button_bit(button) == 0,
    ensures
        ({
            let down = button_command(st, session, true, button, count, modifiers);
            let held = StateV { buttons: buttons_after(st.buttons, button, true), ..st };
            let up = button_command(held, session, false, button, count, modifiers);
            &&& down.session == Some(session) && up.session == Some(session)
            &&& down.method == "Input.dispatchMouseEvent"@ && up.method == "Input.dispatchMouseEvent"@
            &&& down.params.at("type"@) == JsonV::Str("mousePressed"@)
            &&& up.params.at("type"@) == JsonV::Str("mouseReleased"@)
            &&& down.params.at("x"@) == st.mouse.0 && down.params.at("y"@) == st.mouse.1
            &&& up.params.at("x"@) == st.mouse.0 && up.params.at("y"@) == st.mouse.1
            &&& down.params.at("button"@) == JsonV::Str(button) && up.params.at("button"@) == JsonV::Str(button)
            &&& down.params.at("clickCount"@) == JsonV::Int(count) && up.params.at("clickCount"@) == JsonV::Int(count)
            &&& down.params.at("modifiers"@) == JsonV::Int(modifiers) && up.params.at("modifiers"@) == JsonV::Int(
                modifiers,
            )
            &&& down.params.at("buttons"@) == JsonV::Int((st.buttons | button_bit(button)) as int)
            &&& up.params.at("buttons"@) == JsonV::Int(st.buttons as int)
        }),
{
    broadcast use json::group_with;

    lemma_mouse_names();
    law_release_undoes_press(st.buttons, button);
    assert(JsonV::obj().get("type"@) is None);
    assert(JsonV::obj().get("x"@) is None);
    assert(JsonV::obj().get("y"@) is None);
    assert(JsonV::obj().get("button"@) is None);
    assert(JsonV::obj().get("buttons"@) is None);
    assert(JsonV::obj().get("clickCount"@) is None);
    assert(JsonV::obj().get("modifiers"@) is None);
    assert(JsonV::obj().get("deltaX"@) is None);
    assert(JsonV::obj().get("deltaY"@) is None);
}

/// A text that is inserted is the text that the page gets.
pub proof fn law_inserted_text(session: Text, t: Text)
    ensures
        puts_text(insert_command(session, t)) == t,
        insert_command(session, t).session == Some(session),
        insert_command(session, t).method == "Input.insertText"@,
{
    lemma_insert(session, t);
}

} // verus!
