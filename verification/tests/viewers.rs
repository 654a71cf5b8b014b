use browser_mcp_rs::browser::Browser;
use browser_mcp_rs::config::Config;
use browser_mcp_rs::encoding::JsonKind;
use browser_mcp_rs::events::Frame;
use browser_mcp_rs::json::Json;
use browser_mcp_rs::liveview::{self, Control, HandOff, Look, Outcome, Outgoing, Resource, Tick, ViewerEvent};
use browser_mcp_rs::state::{Dialog, State, Tab};
use serde_json::Value;

fn from(v: &Value) -> Json {
    match v {
        Value::Null => Json::Null,
        Value::Bool(b) => Json::Bool(*b),
        Value::Number(n) => match n.as_i64() {
            Some(i) => Json::Int(i as i128),
            None => Json::Float(n.to_string()),
        },
        Value::String(s) => Json::Str(s.clone()),
        Value::Array(a) => Json::Arr(a.iter().map(from).collect()),
        Value::Object(m) => Json::Obj(m.iter().map(|(k, v)| (k.clone(), from(v))).collect()),
    }
}

fn j(s: &str) -> Json {
    from(&serde_json::from_str(s).unwrap())
}

fn tabs(n: usize) -> State {
    let mut st = Browser::new(Config::new(None, "/tmp")).state;
    for i in 0..n {
        st.tabs.push(Tab::new(format!("T{i}"), format!("s{i}"), format!("http://{i}/"), format!("t{i}")));
    }
    st
}

fn tick(elapsed: u64, connections: usize) -> Tick {
    Tick { elapsed, timeout_seconds: 10, browser_closed: false, connections }
}

#[test]
fn input_of_the_viewer() {
    let m = j(r#"{"t":"mouse","type":"mousePressed","x":1.5,"y":2,"modifiers":0,"button":"left","clickCount":1,"deltaX":null}"#);
    assert_eq!(liveview::mouse_params(&m).to_text(), r#"{"type":"mousePressed","x":1.5,"y":2,"modifiers":0,"button":"left","clickCount":1}"#);
    let k = j(r#"{"t":"key","type":"keyDown","key":"a","modifiers":4,"keyCode":65,"text":"a","code":null}"#);
    let p = liveview::key_params(&k, true);
    assert_eq!((p.at("type").text(), p.at("key").text(), p.at("text").text(), p.at("unmodifiedText").text()), ("keyDown".into(), "a".into(), "a".into(), "a".into()));
    assert_eq!((p.at("modifiers").to_text(), p.at("windowsVirtualKeyCode").to_text()), ("4".to_string(), "65".to_string()));
    assert_eq!(p.at("commands").to_text(), r#"["selectAll"]"#);
    assert!(p.get("code").is_none());
    assert!(liveview::key_params(&k, false).get("commands").is_none());
    assert!(liveview::key_params(&j(r#"{"type":"keyUp","key":"a","modifiers":4}"#), true).get("commands").is_none());
}

#[test]
fn messages_of_the_viewer() {
    let c = |s: &str| liveview::on_control("s", &j(s), false);
    assert!(matches!(c(r#"{"t":"mouse"}"#), Control::Input(x) if x.method == "Input.dispatchMouseEvent"));
    assert!(matches!(c(r#"{"t":"key"}"#), Control::Input(x) if x.method == "Input.dispatchKeyEvent"));
    assert!(matches!(c(r#"{"t":"text","text":"x"}"#), Control::Input(x) if x.params.to_text() == r#"{"text":"x"}"#));
    assert!(matches!(c(r#"{"t":"reload"}"#), Control::Input(x) if x.method == "Page.reload"));
    assert!(matches!(c(r#"{"t":"back"}"#), Control::Back));
    assert!(matches!(c(r#"{"t":"tab","index":2}"#), Control::SelectTab(2)));
    assert!(matches!(c(r#"{"t":"tab"}"#), Control::Nothing));
    assert!(matches!(c(r#"{"t":"dialog","accept":true,"text":"a"}"#), Control::Dialog(x) if x.params.to_text() == r#"{"accept":true,"promptText":"a"}"#));
    assert!(matches!(c(r#"{"t":"dialog"}"#), Control::Dialog(x) if x.params.to_text() == r#"{"accept":false}"#));
    assert!(matches!(c(r#"{"t":"done"}"#), Control::Done));
    assert!(matches!(c(r#"{"t":"closed"}"#), Control::ViewerClosed));
    assert!(matches!(c(r#"{"t":"?"}"#), Control::Nothing));
}

#[test]
fn a_hand_off_tells_what_is_new() {
    let mut st = tabs(1);
    let mut h = HandOff::new("s0", 1);
    match h.look(&mut st, &tick(0, 1)) {
        Look::Go { page: Some(p), dialog: None, switch_to: None } => {
            assert_eq!(p.to_text(), r#"{"current":0,"t":"page","tabs":["t0"],"url":"http://0/"}"#)
        }
        _ => panic!("another look"),
    }
    assert!(matches!(h.look(&mut st, &tick(1, 1)), Look::Go { page: None, dialog: None, switch_to: None }));
    st.tabs[0].dialog = Some(Dialog { kind: "prompt".into(), message: "m".into(), default_prompt: "d".into() });
    assert!(matches!(
        h.look(&mut st, &tick(2, 1)),
        Look::Go { page: None, dialog: Some(d), switch_to: None } if d.to_text() == r#"{"default":"d","kind":"prompt","message":"m","t":"dialog"}"#
    ));
}

#[test]
fn a_hand_off_follows_new_tabs() {
    let mut st = tabs(1);
    let mut h = HandOff::new("s0", 1);
    st.tabs.push(Tab::new("N".into(), "n".into(), "http://n/".into(), "n".into()));
    assert!(matches!(h.look(&mut st, &tick(0, 1)), Look::Go { switch_to: Some(s), .. } if s == "n"));
    assert_eq!(st.current, 1);
}

#[test]
fn a_hand_off_ends() {
    let mut st = tabs(1);
    let mut h = HandOff::new("s0", 1);
    assert!(matches!(h.look(&mut st, &tick(10000, 1)), Look::Go { .. }));
    assert!(matches!(h.look(&mut st, &tick(10001, 1)), Look::End(Outcome::Timeout)));
    let gone = Tick { elapsed: 0, timeout_seconds: 10, browser_closed: true, connections: 1 };
    assert!(matches!(h.look(&mut st, &gone), Look::End(Outcome::BrowserGone)));
    h.viewer_closed(100);
    assert!(matches!(h.look(&mut st, &tick(2100, 0)), Look::Go { .. }));
    assert!(matches!(h.look(&mut st, &tick(2101, 0)), Look::End(Outcome::Closed)));
}

#[test]
fn a_viewer_that_reloads_is_not_gone() {
    let mut st = tabs(1);
    let mut h = HandOff::new("s0", 1);
    h.viewer_closed(100);
    assert!(matches!(h.look(&mut st, &tick(200, 1)), Look::Go { .. }));
    assert!(matches!(h.look(&mut st, &tick(9000, 0)), Look::Go { .. }));
}

#[test]
fn what_is_said_of_a_hand_off() {
    let over = |o| {
        let mut st = tabs(1);
        st.watch("s0");
        let said = liveview::hand_off(&mut st, o, 5);
        assert!(st.live.is_none());
        said
    };
    assert_eq!(over(Outcome::Done), "The user finished and handed control back. The page kept its exact state.");
    assert_eq!(over(Outcome::Closed), "The user closed the viewer, which counts as done. The page kept its exact state.");
    assert_eq!(over(Outcome::Timeout), "The user did not finish within 5s; continuing with the page as it is now.");
    assert_eq!(over(Outcome::BrowserGone), "The browser closed during the hand-off; it restarts on the next call.");
}

#[test]
fn the_viewer_is_served_behind_a_token() {
    assert_eq!(liveview::token_text(&[0, 15, 255]), "000fff");
    assert_eq!(liveview::viewer_url(8080, "tok"), "http://127.0.0.1:8080/handoff/tok");
    assert!(liveview::route_text("GET /handoff/tok HTTP/1.1\r\n", "tok") == Resource::Viewer);
    assert!(liveview::route_text("GET /ws/tok HTTP/1.1\r\n", "tok") == Resource::Socket);
    assert!(liveview::route_text("GET /handoff/other HTTP/1.1\r\n", "tok") == Resource::NotFound);
    assert!(liveview::route_text("", "tok") == Resource::NotFound);
    assert!(liveview::viewer_header(12).contains("Content-Length: 12\r\n"));
    assert!(liveview::route_request(b"GET /handoff/tok HTTP/1.1\r\n", "tok") == Resource::Viewer);
    assert!(liveview::route_request(b"GET /ws/tok HTTP/1.1\r\nX: \xff\xfe\r\n", "tok") == Resource::Socket);
    assert!(liveview::route_request("GET /ws/tök".as_bytes(), "tök") == Resource::Socket);
    assert!(liveview::route_request(b"GET /ws/t\xff", "t") == Resource::NotFound);
    assert!(liveview::route_request(b"GET /ws/t\xff", "t\u{fffd}") == Resource::Socket);
    assert!(liveview::route_request(b"", "tok") == Resource::NotFound);
}

#[test]
fn requests_are_read_to_the_end() {
    assert!(liveview::request_line_complete(b"", 1024));
    assert!(!liveview::request_line_complete(b"GET /", 1024));
    assert!(liveview::request_line_complete(b"GET / HTTP/1.1\r\n", 1024));
    assert!(liveview::request_line_complete(b"GET /", 5));
    assert!(!liveview::request_head_complete(b"GET / HTTP/1.1\r\nA: b\r\n"));
    assert!(liveview::request_head_complete(b"GET / HTTP/1.1\r\nA: b\r\n\r\n"));
    assert!(liveview::request_head_complete(&vec![b'x'; 65536]));
    assert!(liveview::contains_bytes(b"abc", b"bc") && !liveview::contains_bytes(b"abc", b"cb"));
}

#[test]
fn a_viewer_is_greeted() {
    let f = Some(Frame { meta: "{}".into(), jpeg: vec![1, 2] });
    let v = liveview::greeting("do \"it\"", &j(r#"{"t":"page"}"#), &f);
    assert!(matches!(&v[0], Outgoing::Text(t) if t == r#"{"message":"do \"it\"","t":"info"}"#));
    assert!(matches!(&v[1], Outgoing::Text(t) if t == r#"{"t":"page"}"#));
    assert!(matches!(&v[2], Outgoing::Text(t) if t == "{}"));
    assert!(matches!(&v[3], Outgoing::Binary(b) if b == &vec![1, 2]));
    assert_eq!(liveview::greeting("x", &Json::Null, &None).len(), 1);
}

#[test]
fn a_viewer_is_kept_up_to_date() {
    let s = liveview::viewer_session(ViewerEvent::Frame(Some(Frame { meta: "m".into(), jpeg: vec![3] })));
    assert!(s.send.len() == 2 && !s.end && s.control.is_none());
    assert!(liveview::viewer_session(ViewerEvent::Frame(None)).send.is_empty());
    assert_eq!(liveview::viewer_session(ViewerEvent::Page(j("{}"))).send.len(), 1);
    assert!(liveview::viewer_session(ViewerEvent::Dialog(Json::Null)).send.is_empty());
    assert_eq!(liveview::viewer_session(ViewerEvent::Dialog(j("{}"))).send.len(), 1);
    let s = liveview::viewer_session(ViewerEvent::Finished);
    assert!(s.end && matches!(&s.send[..], [Outgoing::Text(t)] if t == r#"{"t":"finished"}"#));
    assert_eq!(liveview::viewer_session(ViewerEvent::Received("{}".into())).control.as_deref(), Some("{}"));
    assert!(liveview::viewer_session(ViewerEvent::Received("{".into())).control.is_none());
    assert_eq!(liveview::heard("1".into(), JsonKind::Other).as_deref(), Some("1"));
    assert!(liveview::heard("1".into(), JsonKind::Invalid).is_none());
    let s = liveview::viewer_session(ViewerEvent::Other);
    assert!(!s.end && s.send.is_empty());
    assert!(liveview::viewer_session(ViewerEvent::Gone).end);
}

#[test]
fn the_first_frame() {
    let layout = j(r#"{"cssVisualViewport":{"clientWidth":800,"clientHeight":600}}"#);
    let shot = j(r#"{"data":"aGk="}"#);
    let mut st = State::new(None);
    assert!(st.first_picture("s", &layout, &shot).is_none());
    st.watch("s");
    assert!(st.first_picture("t", &layout, &shot).is_none());
    assert!(st.first_picture("s", &layout, &j(r#"{"data":"!"}"#)).is_none());
    let f = st.first_picture("s", &layout, &shot).unwrap();
    assert_eq!(f.jpeg, b"hi");
    assert_eq!(f.meta, r#"{"deviceHeight":600,"deviceWidth":800,"offsetTop":0,"pageScaleFactor":1,"t":"frame"}"#);
    assert_eq!(liveview::start_screencast("s").params.at("quality").to_text(), "85");
    let c = liveview::first_shot("s");
    assert_eq!((c.method.as_str(), c.params.to_text().as_str()), ("Page.captureScreenshot", r#"{"format":"jpeg","quality":85,"optimizeForSpeed":true}"#));
}

#[test]
fn hand_offs_in_a_window() {
    assert_eq!(liveview::banner("hi"), "__bmcp.showHandoff(\"hi\")");
    assert_eq!(
        liveview::banner_script("s", "hi").params.to_text(),
        r#"{"source":"addEventListener('DOMContentLoaded', () => __bmcp.showHandoff(\"hi\"))","worldName":"__bmcp"}"#
    );
    assert!(liveview::window_ended(true, 0, 5) == Some(Outcome::Closed));
    assert!(liveview::window_ended(false, 5001, 5) == Some(Outcome::Timeout));
    assert!(liveview::window_ended(false, 5000, 5).is_none());
    assert!(liveview::goes_back(Outcome::Done, true, true));
    assert!(!liveview::goes_back(Outcome::Closed, true, true));
    assert!(!liveview::goes_back(Outcome::Done, true, false));
    assert_eq!(liveview::window_message(Outcome::Done, 5, true), "The user finished and handed control back. Back in headless mode.");
    assert_eq!(liveview::window_message(Outcome::Timeout, 5, false), "The user did not click Done within 5s; continuing.");
}

#[test]
fn the_banner_leaves_every_tab() {
    let scripts = vec![("s0".to_string(), "7".to_string())];
    let sessions = vec!["s0".to_string(), "s1".to_string()];
    let e = liveview::window_end(Outcome::Done, &scripts, &sessions, true, true, 5);
    assert_eq!((e.remove.len(), e.remove[0].params.to_text().as_str()), (1, r#"{"identifier":"7"}"#));
    let hide = |s: &str| (s.to_string(), "__bmcp.hideHandoff()".to_string());
    assert_eq!(e.hide, vec![hide("s0"), hide("s1")]);
    assert!(e.back && e.message == "The user finished and handed control back. Back in headless mode.");
    let e = liveview::window_end(Outcome::Done, &scripts, &sessions, true, false, 5);
    assert!(!e.back && e.message == "The user finished and handed control back." && e.hide.len() == 2);
    let e = liveview::window_end(Outcome::Closed, &scripts, &sessions, true, true, 5);
    assert!(e.remove.is_empty() && e.hide.is_empty() && !e.back);
}

#[test]
fn a_tab_is_watched_until_the_end() {
    let mut st = tabs(1);
    st.watch("s0");
    assert_eq!(st.live.as_deref(), Some("s0"));
    st.watch("s1");
    assert_eq!(st.live.as_deref(), Some("s1"));
    st.unwatch();
    assert!(st.live.is_none());
}
