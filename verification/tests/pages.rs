use browser_mcp_rs::actions;
use browser_mcp_rs::browser::{self, Browser, TabWait};
use browser_mcp_rs::capture;
use browser_mcp_rs::config::Config;
use browser_mcp_rs::elements::{self, CheckStep, Checking, TypeStep};
use browser_mcp_rs::gesture::{self, Waiting};
use browser_mcp_rs::json::Json;
use browser_mcp_rs::liveview::{self, HandOff};
use browser_mcp_rs::mode::{self, OriginSetup};
use browser_mcp_rs::network;
use browser_mcp_rs::params::{ChapterParams, HandoffParams, NetworkStateParams, ShowActionsParams};
use browser_mcp_rs::reading::{self, PageRead, Scrape};
use browser_mcp_rs::reply::Reply;
use browser_mcp_rs::server::BrowserServer;
use browser_mcp_rs::state::{Request, Tab};
use browser_mcp_rs::tabs;
use serde_json::Value;

fn from(v: &Value) -> Json {
    match v {
        Value::Null => Json::Null,
        Value::Bool(b) => Json::Bool(*b),
        Value::Number(n) => match n.as_i64() {
            Some(i) => Json::Int(i as i128),
            None => Json::Float(n.to_string()),
        },
        Value::String(s) => Json::Str(s.clone()),
        Value::Array(a) => Json::Arr(a.iter().map(from).collect()),
        Value::Object(m) => Json::Obj(m.iter().map(|(k, v)| (k.clone(), from(v))).collect()),
    }
}

fn j(s: &str) -> Json {
    from(&serde_json::from_str(s).unwrap())
}

fn browser(tabs: usize) -> Browser {
    let mut b = Browser::new(Config::new(None, "/tmp"));
    for i in 0..tabs {
        b.state.tabs.push(Tab::new(format!("T{i}"), format!("s{i}"), format!("http://{i}/"), format!("t{i}")));
    }
    b
}

fn says(r: &Reply) -> (&str, bool, bool) {
    (r.result[0].as_str(), r.page_state, r.snapshot)
}

#[test]
fn elements_are_called() {
    let c = elements::call("s", "o", "f");
    assert_eq!((c.method.as_str(), c.params.at("objectId").text().as_str()), ("Runtime.callFunctionOn", "o"));
    assert_eq!(c.params.at("arguments").to_text(), "[]");
    let c = elements::select_option("s", "o", &vec!["a".into(), "b".into()]);
    assert_eq!(c.params.at("arguments").to_text(), r#"[{"value":["a","b"]}]"#);
    assert!(elements::measure("s", "o").params.at("functionDeclaration").text().contains("getBoundingClientRect"));
    assert!(elements::focus("s", "o").params.at("functionDeclaration").text().contains("focusForTyping"));
    let c = browser(0).locator_for("s", "o");
    assert_eq!(c.params.at("arguments").to_text(), r#"[{"value":"data-testid"}]"#);
}

#[test]
fn fields_are_filled() {
    let c = elements::begin_fill("s", "o", "x");
    assert_eq!(c.params.at("arguments").to_text(), r#"[{"value":"x"}]"#);
    assert_eq!(elements::fill("s", "x", &Json::str("insert")).unwrap().method, "Input.insertText");
    assert!(elements::fill("s", "x", &Json::str("done")).is_none());
}

#[test]
fn steps_of_typing() {
    let steps = elements::type_into("s", "a", false, false);
    assert!(matches!(&steps[..], [TypeStep::Fill]));
    let steps = elements::type_into("s", "ab", true, true);
    assert!(matches!(&steps[..], [TypeStep::Focus, TypeStep::Keys(k), TypeStep::Submit] if k.len() == 4));
}

#[test]
fn a_box_is_clicked_once() {
    assert!(elements::checked_state("s", "o").params.at("functionDeclaration").text().contains("checkedState"));
    let mut c = Checking::new("e1", false);
    assert!(matches!(c.set_checked(&Json::Bool(false)), CheckStep::Done));
    assert!(matches!(c.set_checked(&Json::Bool(true)), CheckStep::Click));
    assert!(matches!(c.set_checked(&Json::Bool(true)), CheckStep::Fail(e) if e == "clicking e1 did not uncheck it"));
    let mut c = Checking::new("e2", true);
    assert!(matches!(c.set_checked(&Json::Null), CheckStep::Click));
    assert!(matches!(c.set_checked(&Json::Null), CheckStep::Fail(e) if e == "clicking e2 did not check it"));
}

#[test]
fn nodes_of_elements() {
    assert_eq!(elements::describe_node("s", "o").params.to_text(), r#"{"objectId":"o"}"#);
    let c = elements::resolve_node("s", &j(r#"{"node":{"backendNodeId":7}}"#));
    assert_eq!((c.method.as_str(), c.params.to_text().as_str()), ("DOM.resolveNode", r#"{"backendNodeId":7}"#));
    assert_eq!(elements::resolved(&j(r#"{"object":{"objectId":"p"}}"#)), Ok("p".to_string()));
    assert_eq!(elements::resolved(&j("{}")), Err("could not resolve element in page world".to_string()));
    let c = elements::set_files("s", 3, &vec!["/a".into()]);
    assert_eq!(c.params.to_text(), r#"{"files":["/a"],"backendNodeId":3}"#);
}

#[test]
fn waiting_for_elements_and_addresses() {
    assert!(matches!(gesture::wait_element("e", "visible", &Json::str("visible"), false), Waiting::Done(s) if s == "e is visible"));
    assert!(matches!(gesture::wait_element("e", "visible", &Json::str("hidden"), false), Waiting::Again));
    assert!(matches!(gesture::wait_element("e", "visible", &Json::str("hidden"), true), Waiting::Fail(s) if s == "e did not become visible in time"));
    assert!(matches!(gesture::wait_element("e", "red", &Json::Null, false), Waiting::Fail(s) if s.starts_with("unknown state \"red\"")));
    assert!(matches!(gesture::wait_url("**", "u", true, true), Waiting::Done(s) if s == "URL is u"));
    assert!(matches!(gesture::wait_url("g", "u", false, false), Waiting::Again));
    assert!(matches!(gesture::wait_url("g", "u", false, true), Waiting::Fail(s) if s == "the URL is u, which does not match g"));
    let waits = actions::wait_expressions(&Some("a".into()), &Some("b".into()), 9);
    assert_eq!(waits, vec!["__bmcp.waitForText(\"b\", true, 9)", "__bmcp.waitForText(\"a\", false, 9)"]);
    assert!(actions::wait_expressions(&None, &None, 9).is_empty());
}

#[test]
fn tabs_are_opened_and_waited_for() {
    assert_eq!(browser::create_target(false).params.to_text(), r#"{"url":"about:blank"}"#);
    assert_eq!(browser::create_target(true).params.to_text(), r#"{"url":"about:blank","background":true}"#);
    assert!(browser::new_tab_raw("http://a/") && !browser::new_tab_raw("about:blank"));
    let mut b = browser(1);
    assert!(matches!(b.wait_tab_ready("T9", false, false), TabWait::Wait));
    assert!(matches!(b.wait_tab_ready("T9", true, false), TabWait::Fail(e) if e == "tab did not attach"));
    assert!(matches!(b.wait_tab_ready("T0", true, false), TabWait::Wait));
    assert!(matches!(b.wait_tab_ready("T0", false, true), TabWait::Over));
    b.state.tabs[0].ready = true;
    assert!(matches!(b.wait_tab_ready("T0", false, false), TabWait::Over));
    assert!(matches!(b.wait_loaded("s0", true, false), TabWait::Over));
    b.state.tabs[0].loading = true;
    assert!(matches!(b.wait_loaded("s0", true, false), TabWait::Wait));
    assert!(matches!(b.wait_loaded("s0", false, true), TabWait::Fail(e) if e == "page did not finish loading"));
    assert!(matches!(b.wait_loaded("s9", true, false), TabWait::Fail(e) if e == "the tab was closed"));
    assert!(matches!(b.wait_loaded("s9", false, false), TabWait::Over));
    assert_eq!(b.bring_to_front().unwrap().session.as_deref(), Some("s0"));
    assert!(browser(0).bring_to_front().is_none());
    assert_eq!(browser::inject("s", 4, "x").params.to_text(), r#"{"expression":"x","contextId":4}"#);
}

#[test]
fn commands_for_tabs() {
    assert_eq!(tabs::close_target("T").params.to_text(), r#"{"targetId":"T"}"#);
    assert_eq!(tabs::window_question("T").method, "Browser.getWindowForTarget");
    assert_eq!(tabs::remove_script("s", "7").params.to_text(), r#"{"identifier":"7"}"#);
    assert_eq!((tabs::recording_expression(true), tabs::recording_expression(false)), ("__bmcp.setRecording(true)", "__bmcp.setRecording(false)"));
    assert_eq!(liveview::stop_screencast("s").method, "Page.stopScreencast");
    let mut h = HandOff::new("s", 1);
    h.moved("t");
    assert_eq!(h.session, "t");
}

#[test]
fn storage_of_origins() {
    let o = OriginSetup { pattern: "http://a/*".into(), url: "http://a/".into(), script: "x".into() };
    assert_eq!(o.hold_back("s").params.to_text(), r#"{"patterns":[{"urlPattern":"http://a/*","requestStage":"Request"}]}"#);
    assert_eq!(o.open("s").params.to_text(), r#"{"url":"http://a/"}"#);
    assert_eq!(OriginSetup::answer("s", &j(r#"{"requestId":"r"}"#)).params.to_text(), r#"{"requestId":"r","responseCode":200,"body":""}"#);
    assert_eq!(o.store("s").params.to_text(), r#"{"expression":"x"}"#);
    assert_eq!(mode::cookies_question().method, "Storage.getCookies");
    assert!(mode::local_storage_question("s").params.at("expression").text().contains("location.origin"));
    assert_eq!(mode::cookies(&j(r#"{"cookies":[1,2]}"#)).len(), 2);
    assert!(mode::cookies(&j(r#"{"cookies":7}"#)).is_empty());
}

#[test]
fn documents_and_traces() {
    assert_eq!(capture::pdf("s").params.to_text(), r#"{"printBackground":true,"preferCSSPageSize":true}"#);
    assert_eq!(capture::stop_tracing(&j(r#"{"stream":"1"}"#)), Ok("1".to_string()));
    assert_eq!(capture::stop_tracing(&j("{}")), Err("no trace stream".to_string()));
    assert_eq!(capture::read_stream("1").params.to_text(), r#"{"handle":"1","size":1048576}"#);
    assert_eq!(capture::close_stream("1").params.to_text(), r#"{"handle":"1"}"#);
}

#[test]
fn bodies_that_were_sent() {
    let mut b = browser(1);
    let mut r = Request {
        id: "r".into(),
        method: "POST".into(),
        url: "http://a/".into(),
        resource_type: "XHR".into(),
        request_headers: Json::Null,
        post_data: None,
        status: None,
        status_text: String::new(),
        response_headers: Json::Null,
        mime: String::new(),
        failure: None,
        finished: false,
        from_route: false,
    };
    assert_eq!(network::sent_body_question("s", &r).params.to_text(), r#"{"requestId":"r"}"#);
    assert_eq!(network::response_body_question("s", &r).method, "Network.getResponseBody");
    assert_eq!(network::sent_body(&r, &Some(j(r#"{"postData":"p"}"#))), "p");
    assert_eq!(network::sent_body(&r, &None), "");
    r.post_data = Some("q".into());
    assert_eq!(network::sent_body(&r, &Some(j(r#"{"postData":"p"}"#))), "q");
    b.state.tabs[0].requests.push(r);
    assert_eq!(b.state.tabs[0].find_request(1).ok().unwrap().id, "r");
    assert_eq!(b.state.tabs[0].find_request(2).err().unwrap(), "request #2 does not exist");
}

#[test]
fn requests_with_cookies() {
    let cookies = mode::cookies(&j(r#"{"cookies":[{"name":"a","value":"1"},{"name":"b","value":"2"}]}"#));
    assert_eq!(reading::cookie_header(&cookies), "a=1; b=2");
    assert_eq!(reading::cookie_header(&Vec::new()), "");
    assert_eq!(reading::response_head(404, "text/html"), "HTTP 404 text/html");
    assert_eq!(Scrape::section("u", &PageRead::Text("x".into()), 9), "## u\nx");
    assert_eq!(Scrape::section("u", &PageRead::Failed("x".into()), 9), "## u\nfailed: x");
    assert_eq!(Scrape::section("u", &PageRead::TimedOut, 9), "## u\ntimed out after 9ms");
    assert_eq!(says(&Scrape::reply(&vec!["a".into(), "b".into()])), ("a\n\nb", false, false));
}

#[test]
fn replies_of_capabilities() {
    assert_eq!(says(&BrowserServer::network_state(&NetworkStateParams { state: "offline".into() })), ("Network is offline", false, false));
    assert_eq!(BrowserServer::clear_cookies().method, "Storage.clearCookies");
    assert_eq!(says(&BrowserServer::browser_cookie_clear()).0, "Cleared all cookies");
    assert_eq!(says(&BrowserServer::shown_cookies(None)).0, "No cookies");
    assert_eq!(says(&BrowserServer::shown_cookies(Some("[]".into()))).0, "[]");
    assert_eq!(says(&BrowserServer::storage_op(&j("[1]"))).0, "[1]");
    assert_eq!(says(&BrowserServer::storage_op(&Json::str("ok"))).0, "ok");
    assert_eq!(says(&BrowserServer::browser_set_storage_state("/a")).0, "Restored storage state from /a");
    assert_eq!(says(&BrowserServer::browser_storage_state("/a")).0, "Saved storage state to /a");
    assert_eq!(says(&BrowserServer::browser_mouse_down()), ("Mouse down", true, true));
    assert_eq!(says(&BrowserServer::browser_mouse_up()), ("Mouse up", true, true));
    assert_eq!(says(&BrowserServer::browser_pdf_save("/a")).0, "Saved page as /a");
    assert_eq!(says(&BrowserServer::browser_start_tracing()).0, "Tracing started");
    assert_eq!(says(&BrowserServer::browser_stop_tracing("/a")).0, "Trace saved to /a");
    assert_eq!(says(&BrowserServer::browser_start_video("/a")).0, "Recording video to /a");
    assert_eq!(says(&BrowserServer::browser_video_chapter(&ChapterParams { title: "x".into(), description: None })).0, "Chapter \"x\" added");
    assert_eq!(says(&BrowserServer::browser_start_recording()).0, "Recording user actions");
    assert_eq!(says(&BrowserServer::browser_stop_recording(&Vec::new())).0, "No actions were recorded");
    assert_eq!(says(&BrowserServer::browser_install(&vec!["a".into(), "b".into()])).0, "a\nb");
    assert_eq!(says(&BrowserServer::snapshot_saved("/a")), ("Snapshot saved to /a", true, false));
    let hand_off = |s| BrowserServer::browser_handoff(&HandoffParams { message: "m".into(), timeout_seconds: s });
    assert_eq!((hand_off(None), hand_off(Some(5))), (600, 5));
    let mut server = BrowserServer::new(browser(0));
    assert_eq!(says(&server.browser_route_list()).0, "No active routes");
    let show = |d| ShowActionsParams { duration: d, position: None, cursor: None };
    assert_eq!(says(&server.browser_video_show_actions(&show(None))).0, "Actions will be annotated");
    assert_eq!(server.browser.state.show_actions, Some(800));
    server.browser_video_show_actions(&show(Some(5)));
    assert_eq!(server.browser.state.show_actions, Some(5));
    assert_eq!(says(&server.browser_video_hide_actions()).0, "Actions will no longer be annotated");
    assert_eq!(server.browser.state.show_actions, None);
}
