use browser_mcp_rs::cdp::{frame, read_message, timeout_error, unframe, Cdp, Command, Incoming, Message, Waiter};
use browser_mcp_rs::encoding::decode;
use browser_mcp_rs::json::Json;
use browser_mcp_rs::reply::{finish, Reply};
use browser_mcp_rs::state::State;

fn reply(id: i64) -> Json {
    Json::obj().with("id", Json::num(id)).with("result", Json::obj().with("ok", Json::Bool(true)))
}

#[test]
fn messages_are_framed() {
    assert_eq!(frame(b"{}".to_vec()), b"{}\0");
    assert_eq!(unframe(frame(b"abc".to_vec())), b"abc");
    assert_eq!(unframe(b"abc".to_vec()), b"abc");
    assert!(unframe(Vec::new()).is_empty());
}

#[test]
fn commands_become_messages() {
    let mut c = Cdp::new();
    let (id, m) = c.send_full(&Command::session("s", "Page.enable", Json::obj())).ok().unwrap();
    assert_eq!((id, m.to_text().as_str()), (1, r#"{"id":1,"method":"Page.enable","params":{},"sessionId":"s"}"#));
    let (id, m) = c.send_full(&Command::browser("Target.x", Json::obj())).ok().unwrap();
    assert_eq!((id, m.to_text().as_str()), (2, r#"{"id":2,"method":"Target.x","params":{}}"#));
}

#[test]
fn a_reply_reaches_its_request_once() {
    let mut c = Cdp::new();
    c.send_full(&Command::browser("A", Json::obj())).ok().unwrap();
    c.send_full(&Command::browser("B", Json::obj())).ok().unwrap();
    let r = c.on_message(&reply(1), &vec![]);
    assert!(matches!(&r, Incoming::Reply { id: 1, result: Ok(v) } if v.at("ok").as_bool() == Some(true)));
    assert!(matches!(c.on_message(&reply(1), &vec![]), Incoming::Stray));
    assert!(matches!(c.on_message(&reply(2), &vec![]), Incoming::Reply { id: 2, .. }));
}

#[test]
fn errors_of_the_browser() {
    let e = Json::obj().with("id", Json::num(1)).with("error", Json::obj().with("message", Json::str("no")));
    assert!(matches!(read_message(&e), Message::Reply { id: 1, result: Err(m) } if m == "no"));
    let e = Json::obj().with("id", Json::num(1)).with("error", Json::obj());
    assert!(matches!(read_message(&e), Message::Reply { result: Err(m), .. } if m == "protocol error"));
}

#[test]
fn forgotten_requests_get_no_reply() {
    let mut c = Cdp::new();
    c.send_full(&Command::browser("A", Json::obj())).ok().unwrap();
    c.forget(1);
    assert!(matches!(c.on_message(&reply(1), &vec![]), Incoming::Stray));
}

#[test]
fn those_who_wait_are_woken() {
    let mut c = Cdp::new();
    let w = |id, session: Option<&str>, param| Waiter { id, method: "E".into(), session: session.map(str::to_string), param };
    c.wait_for(w(1, Some("s"), None));
    c.wait_for(w(2, Some("t"), None));
    c.wait_for(w(3, None, Some(("name".to_string(), Some("x".to_string())))));
    c.wait_for(w(4, None, None));
    let ev = Json::obj().with("method", Json::str("E")).with("params", Json::obj().with("name", Json::str("x"))).with("sessionId", Json::str("s"));
    let r = c.on_message(&ev, &vec![4]);
    assert!(matches!(&r, Incoming::Event { event, woken } if event.method == "E" && woken == &vec![1, 3]));
    let r = c.on_message(&ev, &vec![]);
    assert!(matches!(&r, Incoming::Event { woken, .. } if woken.is_empty()));
    assert_eq!(c.waiters.len(), 1);
}

#[test]
fn a_closed_connection_refuses() {
    let mut c = Cdp::new();
    c.send_full(&Command::browser("A", Json::obj())).ok().unwrap();
    let (ids, ev) = c.close();
    assert_eq!((ids, ev.method.as_str()), (vec![1], "__closed"));
    assert!(c.is_closed());
    assert_eq!(c.send_full(&Command::browser("A", Json::obj())).err().unwrap(), "browser is closed");
    assert_eq!(timeout_error("Page.navigate", 30000), "Page.navigate timed out after 30000ms");
}

fn encode(data: &[u8]) -> String {
    let mut r = Reply::raw(String::new());
    r.images.push((data.to_vec(), "image/png"));
    finish(&mut State::new(None), &r, &None, &None).images[0].0.clone()
}

#[test]
fn base64() {
    assert_eq!(encode(b""), "");
    assert_eq!(encode(b"f"), "Zg==");
    assert_eq!(encode(b"fo"), "Zm8=");
    assert_eq!(encode(b"foo"), "Zm9v");
    assert_eq!(encode(&[0xff, 0xfe, 0xfd]), "//79");
    assert_eq!(decode("Zm8="), Some(b"fo".to_vec()));
    assert_eq!(decode("Zm8"), None);
    assert_eq!(decode("Zm9="), None);
    assert_eq!(decode("Z m8="), None);
    assert_eq!(decode(&encode(b"round trip")), Some(b"round trip".to_vec()));
}
