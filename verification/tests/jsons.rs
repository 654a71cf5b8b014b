use browser_mcp_rs::json::{js, Json};
use browser_mcp_rs::project::{field, project};
use serde_json::Value;

fn from(v: &Value) -> Json {
    match v {
        Value::Null => Json::Null,
        Value::Bool(b) => Json::Bool(*b),
        Value::Number(n) => match n.as_i64() {
            Some(i) => Json::Int(i as i128),
            None => Json::Float(n.to_string()),
        },
        Value::String(s) => Json::Str(s.clone()),
        Value::Array(a) => Json::Arr(a.iter().map(from).collect()),
        Value::Object(m) => Json::Obj(m.iter().map(|(k, v)| (k.clone(), from(v))).collect()),
    }
}

fn j(s: &str) -> Json {
    from(&serde_json::from_str(s).unwrap())
}

fn names(v: &[&str]) -> Vec<String> {
    v.iter().map(|s| s.to_string()).collect()
}

#[test]
fn strings_are_quoted_for_scripts() {
    assert_eq!(js("a\"b\\c\n\u{1}é"), "\"a\\\"b\\\\c\\n\\u0001é\"");
    assert_eq!(js(""), "\"\"");
    assert_eq!(js("\u{8}\u{c}\r\t\u{1f}\u{7f}"), "\"\\b\\f\\r\\t\\u001f\u{7f}\"");
}

#[test]
fn compact_text_is_what_serde_writes() {
    let s = r#"{"a":[1,-2,3.5,"x\ny",null,true,false],"b":{"c":{}},"d":[]}"#;
    assert_eq!(j(s).to_text(), s);
    assert_eq!(Json::Int(u64::MAX as i128).to_text(), "18446744073709551615");
}

#[test]
fn members_and_elements() {
    let v = j(r#"{"name":"n","list":[1,"two"],"flag":true,"none":null}"#);
    assert_eq!(v.at("name").text(), "n");
    assert_eq!(v.at("missing").text(), "");
    assert_eq!(v.at("missing").text_or("d"), "d");
    assert_eq!(v.at("list").nth(1).as_str(), Some("two"));
    assert!(v.at("list").nth(2).is_null());
    assert_eq!(v.at("list").nth(0).as_i64(), Some(1));
    assert_eq!(v.at("list").nth(0).as_u64(), Some(1));
    assert_eq!(Json::Int(-1).as_u64(), None);
    assert_eq!(Json::Int(i64::MAX as i128 + 1).as_i64(), None);
    assert_eq!(v.at("flag").as_bool(), Some(true));
    assert!(v.get("none").is_some());
    assert!(v.get("other").is_none());
    assert!(v.at("name").is_str("n"));
    assert!(!v.at("flag").is_str("n"));
}

#[test]
fn members_are_put_in_order() {
    let v = Json::obj().put("b", Json::num(1)).put("a", Json::num(2)).put("c", Json::num(3)).put("b", Json::num(4));
    assert_eq!(v.to_text(), r#"{"a":2,"b":4,"c":3}"#);
    assert_eq!(Json::Null.put("t", Json::str("frame")).to_text(), r#"{"t":"frame"}"#);
}

#[test]
fn same_values() {
    assert!(j(r#"{"a":[1,2.5]}"#).same(&j(r#"{"a":[1,2.5]}"#)));
    assert!(!j(r#"{"a":[1,2.5]}"#).same(&j(r#"{"a":[1,2]}"#)));
    assert!(!Json::Int(1).same(&Json::str("1")));
}

#[test]
fn paths_lead_to_fields() {
    let v = j(r#"{"user":{"login":"me","tags":["x","y"]},"a/b":1,"a.b":2,"~":3}"#);
    assert_eq!(field(&v, "user.login").unwrap().text(), "me");
    assert_eq!(field(&v, "user/login").unwrap().text(), "me");
    assert_eq!(field(&v, "user.tags.1").unwrap().text(), "y");
    assert!(field(&v, "user.tags.01").is_none());
    assert!(field(&v, "user.tags.+1").is_none());
    assert!(field(&v, "user.tags.2").is_none());
    assert!(field(&v, "user.name").is_none());
    assert!(field(&v, "a.b").is_none());
    assert_eq!(field(&v, "a~1b").unwrap().to_text(), "1");
    assert_eq!(field(&v, "~0").unwrap().to_text(), "3");
}

#[test]
fn projecting_objects_and_arrays() {
    let v = j(r#"[{"number":1,"title":"a","user":{"login":"x"}},{"number":2,"title":"b","user":{"login":"y"}}]"#);
    assert_eq!(
        project(&v, &names(&["number", "user.login"])).to_text(),
        r#"[{"number":1,"user.login":"x"},{"number":2,"user.login":"y"}]"#
    );
    assert_eq!(project(&j(r#"{"a":1}"#), &names(&["a", "b"])).to_text(), r#"{"a":1,"b":null}"#);
    assert_eq!(project(&Json::num(3), &names(&["a"])).to_text(), "3");
}

#[test]
fn projecting_the_items_of_a_wrapper() {
    let v = j(r#"{"items":[{"title":"a","id":1},{"title":"b","id":2}],"meta":{"x":1},"total_count":142}"#);
    assert_eq!(
        project(&v, &names(&["total_count", "title"])).to_text(),
        r#"{"items":[{"title":"a"},{"title":"b"}],"total_count":142}"#
    );
    assert_eq!(
        project(&v, &names(&["title"])).to_text(),
        r#"{"items":[{"title":"a"},{"title":"b"}],"total_count":142}"#
    );
    assert_eq!(project(&v, &names(&["total_count"])).to_text(), r#"{"total_count":142}"#);
}

#[test]
fn indented_texts() {
    assert_eq!(j(r#"{"a":[1,{"b":null}],"c":[]}"#).pretty(), "{\n  \"a\": [\n    1,\n    {\n      \"b\": null\n    }\n  ],\n  \"c\": []\n}");
    assert_eq!(Json::str("x\n").pretty(), "\"x\\n\"");
    assert_eq!(Json::Float("no number".into()).pretty(), "no number");
    assert_eq!(j("[1,[2]]").elements().len(), 2);
    assert!(j("{}").elements().is_empty());
}
