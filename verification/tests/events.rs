use browser_mcp_rs::browser::Browser;
use browser_mcp_rs::cdp::{Command, Event};
use browser_mcp_rs::config::Config;
use browser_mcp_rs::encoding::JsonKind;
use browser_mcp_rs::events::{content_type, fulfill_route, on_event, Action};
use browser_mcp_rs::json::Json;
use browser_mcp_rs::params::RouteParams;
use browser_mcp_rs::server::BrowserServer;
use browser_mcp_rs::state::State;
use serde_json::Value;

fn from(v: &Value) -> Json {
    match v {
        Value::Null => Json::Null,
        Value::Bool(b) => Json::Bool(*b),
        Value::Number(n) => match n.as_i64() {
            Some(i) => Json::Int(i as i128),
            None => Json::Float(n.to_string()),
        },
        Value::String(s) => Json::Str(s.clone()),
        Value::Array(a) => Json::Arr(a.iter().map(from).collect()),
        Value::Object(m) => Json::Obj(m.iter().map(|(k, v)| (k.clone(), from(v))).collect()),
    }
}

fn ev(session: Option<&str>, method: &str, params: &str) -> Event {
    Event { method: method.into(), params: from(&serde_json::from_str(params).unwrap()), session_id: session.map(str::to_string) }
}

fn cfg() -> Config {
    Config::new(None, "/tmp")
}

fn feed(st: &mut State, session: Option<&str>, method: &str, params: &str) -> Vec<Action> {
    on_event(&ev(session, method, params), st, true, &cfg())
}

fn attach(st: &mut State, session: &str, target: &str) -> Vec<Action> {
    let p = format!(r#"{{"sessionId":"{session}","targetInfo":{{"type":"page","targetId":"{target}","url":"u-{target}","title":"t"}}}}"#);
    feed(st, None, "Target.attachedToTarget", &p)
}

/// A state with one tab whose main frame is `F`.
fn one_tab() -> State {
    let mut st = Browser::new(cfg()).state;
    attach(&mut st, "s", "T");
    feed(&mut st, Some("s"), "Page.frameNavigated", r##"{"frame":{"id":"F","url":"http://a/","loaderId":"L","urlFragment":"#x"}}"##);
    st
}

fn sent(v: Vec<Action>) -> Vec<Command> {
    v.into_iter().map(|a| if let Action::Send(c) = a { c } else { panic!("another action") }).collect()
}

fn route(pattern: &str, status: Option<i64>, body: Option<&str>, headers: &[&str], remove: Option<&str>) -> browser_mcp_rs::state::Route {
    BrowserServer::browser_route(&RouteParams {
        pattern: pattern.into(),
        status,
        body: body.map(str::to_string),
        content_type: None,
        headers: Some(headers.iter().map(|s| s.to_string()).collect()),
        remove_headers: remove.map(str::to_string),
    })
    .ok()
    .unwrap()
}

#[test]
fn pages_become_tabs() {
    let mut st = State::new(None);
    let a = attach(&mut st, "s1", "T1");
    assert!(matches!(&a[..], [Action::Init(s)] if s == "s1"));
    attach(&mut st, "s2", "T2");
    assert_eq!(st.tabs.len(), 2);
    assert_eq!((st.tabs[0].url.as_str(), st.tabs[0].title.as_str(), st.tabs[0].ready), ("u-T1", "t", false));
    assert_eq!(st.sessions(), vec!["s1", "s2"]);
    assert_eq!(st.tab_by_session("s2"), Some(1));
    assert_eq!(st.tab_by_session("s3"), None);
    assert!(st.notices.is_empty());
}

#[test]
fn workers_only_go_on() {
    let mut st = State::new(None);
    let a = feed(&mut st, None, "Target.attachedToTarget", r#"{"sessionId":"w","targetInfo":{"type":"worker","targetId":"W"}}"#);
    let c = sent(a);
    assert_eq!((c[0].method.as_str(), c[0].session.as_deref()), ("Runtime.runIfWaitingForDebugger", Some("w")));
    assert!(st.tabs.is_empty());
}

#[test]
fn nothing_attaches_without_a_connection() {
    let mut st = State::new(None);
    let p = r#"{"sessionId":"s","targetInfo":{"type":"page","targetId":"T"}}"#;
    assert!(on_event(&ev(None, "Target.attachedToTarget", p), &mut st, false, &cfg()).is_empty());
    assert!(st.tabs.is_empty());
}

#[test]
fn a_tab_of_the_page_is_noticed() {
    let mut st = one_tab();
    feed(&mut st, None, "Target.attachedToTarget", r#"{"sessionId":"p","targetInfo":{"type":"page","targetId":"P","openerId":"T"}}"#);
    assert_eq!(st.notices, vec!["A new tab was opened by the page (tab 1); use browser_tabs to switch to it"]);
}

#[test]
fn a_detached_tab_is_gone() {
    let mut st = State::new(None);
    for i in 0..3 {
        attach(&mut st, &format!("s{i}"), &format!("T{i}"));
    }
    st.current = 2;
    feed(&mut st, None, "Target.detachedFromTarget", r#"{"sessionId":"s0"}"#);
    assert_eq!((st.tabs.len(), st.current, st.tabs[st.current].session_id.as_str()), (2, 1, "s2"));
    feed(&mut st, None, "Target.detachedFromTarget", r#"{"sessionId":"s2"}"#);
    assert_eq!((st.tabs.len(), st.current), (1, 0));
    feed(&mut st, None, "Target.detachedFromTarget", r#"{"sessionId":"zz"}"#);
    assert_eq!(st.tabs.len(), 1);
    attach(&mut st, "n", "N");
    feed(&mut st, None, "Target.detachedFromTarget", r#"{"sessionId":"n"}"#);
    assert_eq!((st.tabs.len(), st.current, st.tabs[0].session_id.as_str()), (1, 0, "s1"));
}

#[test]
fn target_infos_are_taken_over() {
    let mut st = one_tab();
    feed(&mut st, None, "Target.targetInfoChanged", r#"{"targetInfo":{"targetId":"T","url":"http://b/","title":"B"}}"#);
    assert_eq!((st.tabs[0].url.as_str(), st.tabs[0].title.as_str()), ("http://b/", "B"));
    feed(&mut st, None, "Target.targetInfoChanged", r#"{"targetInfo":{"targetId":"T","title":"C"}}"#);
    assert_eq!((st.tabs[0].url.as_str(), st.tabs[0].title.as_str()), ("http://b/", "C"));
}

#[test]
fn downloads() {
    let mut st = State::new(None);
    feed(&mut st, None, "Browser.downloadWillBegin", r#"{"guid":"g","url":"http://d","suggestedFilename":"f.txt"}"#);
    assert_eq!(st.downloads[0].state, "inProgress");
    assert!(feed(&mut st, None, "Browser.downloadProgress", r#"{"guid":"g","state":"inProgress"}"#).is_empty());
    let a = feed(&mut st, None, "Browser.downloadProgress", r#"{"guid":"g","state":"completed"}"#);
    assert!(matches!(&a[..], [Action::NameDownload { guid, filename }] if guid == "g" && filename == "f.txt"));
    assert_eq!(st.downloads[0].state, "completed");
    st.download_named("f.txt", "/tmp/f.txt");
    feed(&mut st, None, "Browser.downloadProgress", r#"{"guid":"g","state":"canceled"}"#);
    assert_eq!(st.notices, vec!["Downloaded \"f.txt\" to /tmp/f.txt", "Download of \"f.txt\" canceled"]);
}

#[test]
fn recordings_keep_json() {
    let mut st = one_tab();
    let call = r#"{"name":"__bmcpRecord","payload":"{\"action\":\"click\"}"}"#;
    feed(&mut st, Some("s"), "Runtime.bindingCalled", call);
    assert!(st.recording.is_none());
    st.set_recording(true);
    feed(&mut st, Some("s"), "Runtime.bindingCalled", call);
    feed(&mut st, Some("s"), "Runtime.bindingCalled", r#"{"name":"__bmcpRecord","payload":"{broken"}"#);
    feed(&mut st, Some("s"), "Runtime.bindingCalled", r#"{"name":"other","payload":"1"}"#);
    assert_eq!(st.set_recording(false), Some(vec!["{\"action\":\"click\"}".to_string()]));
}

#[test]
fn paused_requests_go_on() {
    let mut st = one_tab();
    let c = sent(feed(&mut st, Some("s"), "Fetch.requestPaused", r#"{"requestId":"r1","request":{"url":"http://x/"}}"#));
    assert_eq!((c[0].method.as_str(), c[0].params.to_text().as_str()), ("Fetch.continueRequest", r#"{"requestId":"r1"}"#));
}

#[test]
fn blocked_requests_fail_even_where_a_route_is() {
    let mut st = one_tab();
    st.add_route(route("**", Some(200), None, &[], None));
    let mut c = cfg();
    c.blocked_origins = vec!["x.com".into()];
    let a = on_event(&ev(Some("s"), "Fetch.requestPaused", r#"{"requestId":"r1","request":{"url":"http://x.com/a"}}"#), &mut st, true, &c);
    let cmd = sent(a);
    assert_eq!(cmd[0].params.to_text(), r#"{"requestId":"r1","errorReason":"BlockedByClient"}"#);
    assert_eq!(cmd[0].method, "Fetch.failRequest");
}

#[test]
fn routes_answer_requests() {
    let mut st = one_tab();
    st.add_route(route("**/api", None, Some("{\"a\":1}"), &["X-Y: z"], None));
    feed(&mut st, Some("s"), "Network.requestWillBeSent", r#"{"requestId":"n1","request":{"url":"http://x/api"},"type":"XHR"}"#);
    let c = sent(feed(&mut st, Some("s"), "Fetch.requestPaused", r#"{"requestId":"r1","networkId":"n1","request":{"url":"http://x/api"}}"#));
    assert_eq!(c[0].method, "Fetch.fulfillRequest");
    assert_eq!(c[0].params.at("responseCode").to_text(), "200");
    assert_eq!(c[0].params.at("body").text(), "eyJhIjoxfQ==");
    assert_eq!(
        c[0].params.at("responseHeaders").to_text(),
        r#"[{"name":"X-Y","value":"z"},{"name":"Content-Type","value":"application/json"},{"name":"Access-Control-Allow-Origin","value":"*"}]"#
    );
    assert!(st.tabs[0].requests[0].from_route);
}

#[test]
fn bodies_have_a_content_type() {
    for (body, kind) in [(" [1] ", "application/json"), ("{\"a\":1}", "application/json"), ("1", "text/plain"), ("{a}", "text/plain"), ("", "text/plain")] {
        let mut st = one_tab();
        st.add_route(route("**", Some(200), Some(body), &[], None));
        let c = sent(feed(&mut st, Some("s"), "Fetch.requestPaused", r#"{"requestId":"r1","request":{"url":"http://x/t"}}"#));
        assert_eq!(c[0].params.at("responseHeaders").nth(0).at("value").text(), kind, "{body}");
    }
}

#[test]
fn kinds_of_content() {
    let given = Some("text/css".to_string());
    assert_eq!(content_type(&given, JsonKind::Object), "text/css");
    assert_eq!(content_type(&None, JsonKind::Array), "application/json");
    assert_eq!(content_type(&None, JsonKind::Other), "text/plain");
    assert_eq!(content_type(&None, JsonKind::Invalid), "text/plain");
}

#[test]
fn only_json_is_recorded() {
    let mut st = one_tab();
    st.record("1", JsonKind::Other);
    assert!(st.recording.is_none());
    st.set_recording(true);
    st.record("1", JsonKind::Other);
    st.record("{", JsonKind::Invalid);
    st.record("{}", JsonKind::Object);
    assert_eq!(st.set_recording(false), Some(vec!["1".to_string(), "{}".to_string()]));
}

#[test]
fn answers_to_paused_requests() {
    let mut st = one_tab();
    st.add_route(route("**", None, Some("b"), &[], None));
    let p = from(&serde_json::from_str(r#"{"requestId":"r1","request":{"url":"http://x/","headers":{}}}"#).unwrap());
    assert_eq!(st.answer_paused("s", &p, true, Some(0), JsonKind::Array).method, "Fetch.failRequest");
    assert_eq!(st.answer_paused("s", &p, false, None, JsonKind::Array).method, "Fetch.continueRequest");
    let c = st.answer_paused("s", &p, false, Some(0), JsonKind::Array);
    assert_eq!((c.method.as_str(), c.params.at("responseCode").to_text().as_str()), ("Fetch.fulfillRequest", "200"));
    assert_eq!(c.params.at("responseHeaders").nth(0).at("value").text(), "application/json");
    assert_eq!(c.params.at("body").text(), "Yg==");
    let c = fulfill_route("s", &Json::str("r1"), &st.routes[0], &Json::Null);
    assert_eq!(c.params.at("responseHeaders").nth(0).at("value").text(), "text/plain");
}

#[test]
fn plain_bodies_are_text() {
    let mut st = one_tab();
    st.add_route(route("**/t", Some(404), Some("7"), &[], None));
    let c = sent(feed(&mut st, Some("s"), "Fetch.requestPaused", r#"{"requestId":"r1","request":{"url":"http://x/t"}}"#));
    assert_eq!(c[0].params.at("responseCode").to_text(), "404");
    assert_eq!(c[0].params.at("responseHeaders").nth(0).at("value").text(), "text/plain");
}

#[test]
fn the_newest_route_wins() {
    let mut st = one_tab();
    st.add_route(route("**/x*", Some(201), None, &[], None));
    st.add_route(route("**/xy", Some(202), None, &[], None));
    let c = sent(feed(&mut st, Some("s"), "Fetch.requestPaused", r#"{"requestId":"r","request":{"url":"http://h/xy"}}"#));
    assert_eq!(c[0].params.at("responseCode").to_text(), "202");
}

#[test]
fn header_routes_change_the_request() {
    let mut st = one_tab();
    st.add_route(route("**", None, None, &["Accept: new", "X-A: 1"], Some("cookie, x-b")));
    let p = r#"{"requestId":"r","request":{"url":"http://h/","headers":{"ACCEPT":"old","Cookie":"c","Keep":"k","X-B":"b"}}}"#;
    let c = sent(feed(&mut st, Some("s"), "Fetch.requestPaused", p));
    assert_eq!(c[0].method, "Fetch.continueRequest");
    assert_eq!(
        c[0].params.at("headers").to_text(),
        r#"[{"name":"Keep","value":"k"},{"name":"Accept","value":"new"},{"name":"X-A","value":"1"}]"#
    );
}

#[test]
fn pictures_of_a_video_are_written() {
    let mut st = one_tab();
    assert!(st.start_video("s", "/v/a.webm", None).is_ok());
    let p = r#"{"sessionId":9,"data":"aGk=","metadata":{"a":1}}"#;
    let a = feed(&mut st, Some("s"), "Page.screencastFrame", p);
    assert!(matches!(&a[0], Action::WriteFrame { path, data } if path == "/v/a.frames/frame-000000.jpg" && data == b"hi"));
    st.frame_written(5, "/v/a.frames/frame-000000.jpg".into());
    let b = feed(&mut st, Some("s"), "Page.screencastFrame", p);
    assert!(matches!(&b[0], Action::WriteFrame { path, .. } if path == "/v/a.frames/frame-000001.jpg"));
    assert!(matches!(&b[1], Action::Send(c) if c.method == "Page.screencastFrameAck" && c.params.to_text() == r#"{"sessionId":9}"#));
}

#[test]
fn pictures_are_shown_to_whoever_watches() {
    let mut st = one_tab();
    st.watch("s");
    let a = feed(&mut st, Some("s"), "Page.screencastFrame", r#"{"sessionId":9,"data":"aGk=","metadata":{"a":1}}"#);
    assert!(a.iter().any(|x| matches!(x, Action::Publish(f) if f.meta == r#"{"a":1,"t":"frame"}"# && f.jpeg == b"hi")));
    let b = feed(&mut st, Some("s"), "Page.screencastFrame", r#"{"sessionId":9,"data":"***"}"#);
    assert!(!b.iter().any(|x| matches!(x, Action::Publish(_))));
    st.unwatch();
    let c = feed(&mut st, Some("s"), "Page.screencastFrame", r#"{"sessionId":9,"data":"aGk=","metadata":{"a":1}}"#);
    assert!(!c.iter().any(|x| matches!(x, Action::Publish(_))));
}

#[test]
fn a_closed_browser_has_no_tabs() {
    let mut st = one_tab();
    feed(&mut st, None, "__closed", "null");
    assert!(st.tabs.is_empty());
}

#[test]
fn a_navigation_starts_the_logs_afresh() {
    let mut st = one_tab();
    let t = &st.tabs[0];
    assert_eq!((t.main_frame.as_str(), t.url.as_str(), t.loader_id.as_str()), ("F", "http://a/#x", "L"));
    feed(&mut st, Some("s"), "Log.entryAdded", r#"{"entry":{"level":"error","text":"e"}}"#);
    st.set_snapshot("s", "snap".into());
    feed(&mut st, Some("s"), "Page.frameNavigated", r#"{"frame":{"id":"F","url":"http://b/","loaderId":"M"}}"#);
    let t = &st.tabs[0];
    assert_eq!((t.console_nav_start, t.console_reported, t.last_snapshot.is_none()), (1, 1, true));
    feed(&mut st, Some("s"), "Page.frameNavigated", r#"{"frame":{"id":"C","parentId":"F","url":"http://c/","loaderId":"N"}}"#);
    assert_eq!(st.tabs[0].url, "http://b/");
    feed(&mut st, Some("s"), "Page.navigatedWithinDocument", r#"{"frameId":"F","url":"http://b/#y"}"#);
    assert_eq!(st.tabs[0].url, "http://b/#y");
}

#[test]
fn loading_is_followed() {
    let mut st = one_tab();
    feed(&mut st, Some("s"), "Page.frameStartedLoading", r#"{"frameId":"F"}"#);
    assert!(st.tabs[0].loading && st.tabs[0].nav_seq == 1);
    feed(&mut st, Some("s"), "Page.frameStartedNavigating", r#"{"frameId":"F"}"#);
    feed(&mut st, Some("s"), "Page.frameStartedNavigating", r#"{"frameId":"other"}"#);
    assert_eq!(st.tabs[0].nav_seq, 2);
    feed(&mut st, Some("s"), "Page.frameStoppedLoading", r#"{"frameId":"other"}"#);
    assert!(st.tabs[0].loading);
    feed(&mut st, Some("s"), "Page.lifecycleEvent", r#"{"frameId":"F","name":"load"}"#);
    assert!(!st.tabs[0].loading);
}

#[test]
fn dialogs_and_choosers() {
    let mut st = one_tab();
    feed(&mut st, Some("s"), "Page.javascriptDialogOpening", r#"{"type":"prompt","message":"m","defaultPrompt":"d"}"#);
    let d = st.tabs[0].dialog.as_ref().unwrap();
    assert_eq!((d.kind.as_str(), d.message.as_str(), d.default_prompt.as_str()), ("prompt", "m", "d"));
    feed(&mut st, Some("s"), "Page.javascriptDialogClosed", "{}");
    assert!(st.tabs[0].dialog.is_none());
    feed(&mut st, Some("s"), "Page.fileChooserOpened", r#"{"backendNodeId":7}"#);
    assert_eq!(st.tabs[0].file_chooser, Some((7, "selectSingle".to_string())));
}

#[test]
fn the_world_of_the_injected_script() {
    let mut st = one_tab();
    feed(&mut st, Some("s"), "Runtime.executionContextCreated", r#"{"context":{"id":3,"name":"__bmcp","auxData":{"frameId":"F"}}}"#);
    assert_eq!(st.tabs[0].world_ctx, Some(3));
    feed(&mut st, Some("s"), "Runtime.executionContextCreated", r#"{"context":{"id":4,"name":"other","auxData":{"frameId":"F"}}}"#);
    feed(&mut st, Some("s"), "Runtime.executionContextDestroyed", r#"{"executionContextId":9}"#);
    assert_eq!(st.tabs[0].world_ctx, Some(3));
    feed(&mut st, Some("s"), "Runtime.executionContextDestroyed", r#"{"executionContextId":3}"#);
    assert_eq!(st.tabs[0].world_ctx, None);
}

#[test]
fn console_messages() {
    let mut st = one_tab();
    feed(
        &mut st,
        Some("s"),
        "Runtime.consoleAPICalled",
        r#"{"type":"warning","args":[{"value":"a"},{"value":{"x":1}},{"unserializableValue":"NaN"},{"preview":{"subtype":"array","properties":[{"name":"0","value":"p"},{"name":"1","value":"q"}]}},{"preview":{"properties":[{"name":"k","value":"v"}]}},{"description":"fn"},{}],"stackTrace":{"callFrames":[{"url":"http://a/x.js","lineNumber":4}]}}"#,
    );
    let m = &st.tabs[0].console[0];
    assert_eq!((m.level, m.text.as_str(), m.location.as_str()), ("warning", "a {\"x\":1} NaN [p, q] {k: v} fn undefined", "http://a/x.js:5"));
    feed(&mut st, Some("s"), "Runtime.exceptionThrown", r#"{"exceptionDetails":{"text":"Uncaught","exception":{"description":"Error: e"},"url":"u"}}"#);
    let m = &st.tabs[0].console[1];
    assert_eq!((m.level, m.text.as_str(), m.location.as_str()), ("error", "Error: e", "u"));
    feed(&mut st, Some("s"), "Log.entryAdded", r#"{"entry":{"level":"verbose","text":"v","url":"w"}}"#);
    assert_eq!(st.tabs[0].console[2].level, "debug");
}

#[test]
fn requests_are_logged() {
    let mut st = one_tab();
    feed(&mut st, Some("s"), "Network.requestWillBeSent", r##"{"requestId":"1","type":"Document","frameId":"F","request":{"method":"POST","url":"http://a/","urlFragment":"#f","headers":{"h":"v"},"postData":"d"}}"##);
    assert_eq!(st.tabs[0].inflight, vec!["1"]);
    feed(&mut st, Some("s"), "Network.requestWillBeSent", r#"{"requestId":"1","type":"Document","frameId":"F","redirectResponse":{"status":302,"statusText":"Found","headers":{"l":"x"}},"request":{"url":"http://b/"}}"#);
    let r = &st.tabs[0].requests;
    assert_eq!((r[0].method.as_str(), r[0].url.as_str(), r[0].status, r[0].finished, r[0].post_data.as_deref()), ("POST", "http://a/#f", Some(302), true, Some("d")));
    assert_eq!((r[1].method.as_str(), r[1].status, st.tabs[0].requests_nav_start), ("GET", None, 0));
    feed(&mut st, Some("s"), "Network.responseReceived", r#"{"requestId":"1","response":{"status":200,"statusText":"OK","headers":{},"mimeType":"text/html"}}"#);
    feed(&mut st, Some("s"), "Network.loadingFinished", r#"{"requestId":"1"}"#);
    let r = &st.tabs[0].requests[1];
    assert_eq!((r.status, r.mime.as_str(), r.finished, r.failure.is_none()), (Some(200), "text/html", true, true));
    assert!(st.tabs[0].inflight.is_empty());
    assert_eq!(st.tabs[0].document_status(), Some(200));
    feed(&mut st, Some("s"), "Network.requestWillBeSent", r#"{"requestId":"2","type":"Image","request":{"url":"http://i/"}}"#);
    feed(&mut st, Some("s"), "Network.loadingFailed", r#"{"requestId":"2","errorText":"net::ERR"}"#);
    assert_eq!(st.tabs[0].requests[2].failure.as_deref(), Some("net::ERR"));
}

#[test]
fn the_request_log_is_bounded() {
    let mut st = one_tab();
    for i in 0..5001 {
        let kind = if i == 2000 { r#""type":"Document","frameId":"F","# } else { "" };
        feed(&mut st, Some("s"), "Network.requestWillBeSent", &format!(r#"{{{kind}"requestId":"{i}","request":{{"url":"u{i}"}}}}"#));
    }
    let t = &st.tabs[0];
    assert_eq!((t.requests.len(), t.requests[0].id.as_str(), t.requests_nav_start), (4001, "1000", 1000));
    feed(&mut st, Some("s"), "Network.responseReceived", r#"{"requestId":"5000","response":{"status":204}}"#);
    assert_eq!(st.tabs[0].requests[4000].status, Some(204));
}
