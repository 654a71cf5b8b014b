use browser_mcp_rs::input::{button_mask, hold_modifiers, input_done, insert_text, key_event, modifier_mask, press, type_slowly};
use browser_mcp_rs::json::Json;
use browser_mcp_rs::keys::{bit_of, char_key, mac_commands, named, parse, ALT, CONTROL, META, SHIFT};
use browser_mcp_rs::state::State;

fn kinds(v: &[browser_mcp_rs::cdp::Command]) -> Vec<String> {
    v.iter().map(|c| format!("{} {} {}", c.params.at("type").text(), c.params.at("key").text(), c.params.at("modifiers").to_text())).collect()
}

#[test]
fn named_keys() {
    let k = named("Enter").unwrap();
    assert_eq!((k.key.as_str(), k.code.as_str(), k.key_code, k.text.as_deref()), ("Enter", "Enter", 13, Some("\r")));
    assert!(named("NoSuchKey").is_none());
}

#[test]
fn characters_are_keys() {
    let a = char_key('a');
    assert_eq!((a.key.as_str(), a.code.as_str(), a.key_code, a.text.as_deref()), ("a", "KeyA", 65, Some("a")));
    let big = char_key('A');
    assert_eq!((big.code.as_str(), big.key_code), ("KeyA", 65));
    let d = char_key('7');
    assert_eq!((d.code.as_str(), d.key_code), ("Digit7", 55));
    let e = char_key('é');
    assert_eq!((e.key.as_str(), e.code.as_str(), e.key_code), ("é", "", 0));
}

#[test]
fn characters_of_one_key() {
    let code = |c| browser_mcp_rs::keys::char_key(c).key_code;
    assert_eq!((code('q'), code('Q'), code('\n'), code('\r')), (81, 81, 13, 13));
    let all: Vec<char> = (0u8..128).map(char::from).collect();
    for &a in &all {
        assert_eq!(browser_mcp_rs::keys::char_key(a).code.is_empty(), code(a) == 0);
        for &b in &all {
            let one = (a.is_ascii_alphabetic() && a.eq_ignore_ascii_case(&b)) || (a == '\n' && b == '\r') || (a == '\r' && b == '\n');
            assert_eq!(a != b && code(a) != 0 && code(a) == code(b), a != b && one);
        }
    }
}

#[test]
fn combinations() {
    let c = parse("Control+Shift+K", false).unwrap();
    assert_eq!(c.mask, CONTROL | SHIFT);
    assert_eq!(c.modifiers.len(), 2);
    assert_eq!(c.key.text, None);
    assert_eq!(parse("ControlOrMeta+a", true).unwrap().mask, META);
    assert_eq!(parse("ControlOrMeta+a", false).unwrap().mask, CONTROL);
    assert_eq!(parse("a", false).unwrap().key.text.as_deref(), Some("a"));
    assert_eq!(parse("+", false).unwrap().key.key, "+");
    let plus = parse("Control++", false).unwrap();
    assert_eq!((plus.mask, plus.key.key.as_str()), (CONTROL, "+"));
    let upper = parse("Shift+a", false).unwrap();
    assert_eq!((upper.key.key.as_str(), upper.key.text.as_deref()), ("A", Some("A")));
    assert_eq!(parse("Cmd+a", false).unwrap().mask, META);
    assert_eq!(parse("Option+a", false).unwrap().mask, ALT);
    assert_eq!(parse("Ctrl+a", true).unwrap().mask, CONTROL);
    assert_eq!(parse("", false).err().unwrap(), "empty key");
    assert_eq!(parse("Foo+a", false).err().unwrap(), "unknown modifier \"Foo\" in \"Foo+a\"");
    assert_eq!(parse("NoSuchKey", false).err().unwrap(), "unknown key \"NoSuchKey\"");
}

#[test]
fn modifier_bits() {
    assert_eq!(bit_of("Alt"), Some(ALT));
    assert_eq!(bit_of("Shift"), Some(SHIFT));
    assert_eq!(bit_of("x"), None);
}

#[test]
fn editing_commands_on_macs_only() {
    assert_eq!(mac_commands(META, "a", true), vec!["selectAll"]);
    assert!(mac_commands(META, "a", false).is_empty());
    assert!(mac_commands(0, "a", true).is_empty());
    assert_eq!(mac_commands(META, "z", true), vec!["undo"]);
    assert_eq!(mac_commands(META | SHIFT, "Z", true), vec!["redo"]);
    assert_eq!(mac_commands(META, "ArrowLeft", true), vec!["moveToBeginningOfLine"]);
    assert!(mac_commands(META | SHIFT, "ArrowLeft", true).is_empty());
    assert!(mac_commands(META, "q", true).is_empty());
}

#[test]
fn a_press_goes_down_and_up_again() {
    let v = press("s", "Control+Shift+a", false).unwrap();
    assert_eq!(
        kinds(&v),
        vec![
            "rawKeyDown Control 2",
            "rawKeyDown Shift 10",
            "rawKeyDown A 10",
            "keyUp A 10",
            "keyUp Shift 2",
            "keyUp Control 0",
        ]
    );
    assert!(press("s", "Bad+a", false).is_err());
}

#[test]
fn a_letter_carries_its_text() {
    let v = press("s", "a", false).unwrap();
    assert_eq!(v.len(), 2);
    assert_eq!(v[0].method, "Input.dispatchKeyEvent");
    assert_eq!(v[0].session.as_deref(), Some("s"));
    assert_eq!(v[0].params.at("type").text(), "keyDown");
    assert_eq!(v[0].params.at("text").text(), "a");
    assert_eq!(v[0].params.at("unmodifiedText").text(), "a");
    assert!(v[1].params.get("text").is_none());
}

#[test]
fn held_modifiers_are_released_in_reverse() {
    let names = vec!["Control".to_string(), "Shift".to_string()];
    assert_eq!(kinds(&hold_modifiers("s", &names, true, false).unwrap()), vec!["rawKeyDown Control 0", "rawKeyDown Shift 0"]);
    assert_eq!(kinds(&hold_modifiers("s", &names, false, false).unwrap()), vec!["keyUp Shift 0", "keyUp Control 0"]);
    assert!(hold_modifiers("s", &vec!["Nope".to_string()], true, false).is_err());
}

#[test]
fn modifiers_of_a_click() {
    let (mask, names) = modifier_mask(&vec!["Alt".to_string(), "ControlOrMeta".to_string()], false).unwrap();
    assert_eq!((mask, names), (ALT | CONTROL, vec!["Alt".to_string(), "Control".to_string()]));
    assert!(modifier_mask(&vec!["Hyper".to_string()], false).is_err());
}

#[test]
fn typing_slowly() {
    let v = type_slowly("s", "Aé");
    assert_eq!(v.len(), 3);
    assert_eq!(v[0].params.at("modifiers").to_text(), "8");
    assert_eq!(v[2].method, "Input.insertText");
    assert_eq!(v[2].params.at("text").text(), "é");
    assert_eq!(insert_text("s", "x").params.to_text(), r#"{"text":"x"}"#);
}

#[test]
fn key_events_with_commands() {
    let k = char_key('a');
    let c = key_event("s", true, &k, META, &vec!["selectAll".to_string()]);
    assert_eq!(c.params.at("commands").to_text(), r#"["selectAll"]"#);
    let up = key_event("s", false, &k, META, &vec!["selectAll".to_string()]);
    assert!(up.params.get("commands").is_none());
}

#[test]
fn mouse_buttons_are_held_and_released() {
    let mut st = State::new(None);
    st.mouse_moved(Json::num(10), Json::num(20));
    let down = st.mouse_button("s", true, "left", 1, 0);
    assert_eq!(down.params.at("type").text(), "mousePressed");
    assert_eq!(down.params.at("buttons").to_text(), "1");
    assert_eq!(down.params.at("x").to_text(), "10");
    st.mouse_button("s", true, "right", 1, 0);
    assert_eq!(st.buttons, 3);
    let moved = st.mouse_move("s", &Json::num(1), &Json::num(2));
    assert_eq!((moved.params.at("button").text(), moved.params.at("buttons").to_text()), ("left".to_string(), "3".to_string()));
    st.mouse_button("s", false, "left", 1, 0);
    let moved = st.mouse_move("s", &Json::num(1), &Json::num(2));
    assert_eq!(moved.params.at("button").text(), "right");
    st.mouse_button("s", false, "right", 1, 0);
    assert_eq!(st.buttons, 0);
    assert_eq!(st.mouse_move("s", &Json::num(1), &Json::num(2)).params.at("button").text(), "none");
    assert_eq!((button_mask("middle"), button_mask("other")), (4, 0));
}

#[test]
fn the_wheel_turns_where_the_mouse_is() {
    let mut st = State::new(None);
    st.mouse_moved(Json::num(3), Json::num(4));
    let c = st.wheel("s", Json::num(0), Json::num(-5));
    assert_eq!(c.params.to_text(), r#"{"type":"mouseWheel","x":3,"y":4,"deltaX":0,"deltaY":-5}"#);
}

#[test]
fn a_dialog_ends_an_input_well() {
    assert!(input_done("a \"alert\" dialog is open"));
    assert!(!input_done("the tab was closed"));
}
