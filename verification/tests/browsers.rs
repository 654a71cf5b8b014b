use browser_mcp_rs::actions;
use browser_mcp_rs::browser::{self, Browser, Connect, Loading, Navigation, PageStep, Running, Overrides, TabWait};
use browser_mcp_rs::cdp::Event;
use browser_mcp_rs::config::Config;
use browser_mcp_rs::json::Json;
use browser_mcp_rs::launch::{command_all, device_metrics, emulated_network, init_session, Startup};
use browser_mcp_rs::mode::{self, Switch};
use browser_mcp_rs::state::{Dialog, Download, Request, Tab};
use serde_json::Value;

fn from(v: &Value) -> Json {
    match v {
        Value::Null => Json::Null,
        Value::Bool(b) => Json::Bool(*b),
        Value::Number(n) => match n.as_i64() {
            Some(i) => Json::Int(i as i128),
            None => Json::Float(n.to_string()),
        },
        Value::String(s) => Json::Str(s.clone()),
        Value::Array(a) => Json::Arr(a.iter().map(from).collect()),
        Value::Object(m) => Json::Obj(m.iter().map(|(k, v)| (k.clone(), from(v))).collect()),
    }
}

fn j(s: &str) -> Json {
    from(&serde_json::from_str(s).unwrap())
}

fn new() -> Browser {
    Browser::new(Config::new(None, "/tmp"))
}

fn tab(n: usize) -> Tab {
    Tab::new(format!("T{n}"), format!("s{n}"), format!("http://{n}/"), format!("title {n}"))
}

fn with_tabs(n: usize) -> Browser {
    let mut b = new();
    for i in 0..n {
        b.state.tabs.push(tab(i));
    }
    b
}

fn running(headless: bool) -> Option<Running> {
    Some(Running { headless, profile: "/p".into(), temp_profile: true, closed: false })
}

fn request(kind: &str, finished: bool) -> Request {
    Request {
        id: "r".into(),
        method: "GET".into(),
        url: "u".into(),
        resource_type: kind.into(),
        request_headers: Json::Null,
        post_data: None,
        status: None,
        status_text: String::new(),
        response_headers: Json::Null,
        mime: String::new(),
        failure: None,
        finished,
        from_route: false,
    }
}

#[test]
fn a_browser_is_launched_on_first_use() {
    let mut b = new();
    assert!(!b.is_running());
    assert!(b.is_headless());
    assert!(matches!(b.cdp(), Connect::Launch { headless: true, stale: None }));
    b.note_closed(true);
    assert!(b.running.is_none());
    b.connected(running(false).unwrap());
    assert!(b.is_running() && !b.is_headless());
    assert!(matches!(b.cdp(), Connect::Use));
    b.note_closed(true);
    assert!(!b.is_running() && b.is_headless());
    assert!(matches!(b.cdp(), Connect::Launch { headless: true, stale: Some(r) } if r.profile == "/p"));
    assert!(b.running.is_none());
}

#[test]
fn closing_takes_the_browser_away() {
    let mut b = with_tabs(2);
    assert!(b.close().is_none());
    assert_eq!(b.state.tabs.len(), 2);
    b.running = running(true);
    assert!(b.close().is_some());
    assert!(b.running.is_none() && b.state.tabs.is_empty());
}

#[test]
fn the_page_that_tools_act_on() {
    let mut b = with_tabs(2);
    b.state.current = 1;
    assert!(matches!(b.page(false), PageStep::Found(p) if p.session == "s1" && p.target_id == "T1"));
    b.starting();
    assert!(matches!(b.page(false), PageStep::OpenTab));
    assert!(matches!(b.page(true), PageStep::GiveUp(e) if e == "browser has no open page"));
    let mut b = with_tabs(1);
    assert!(matches!(b.page_ready("s0", false), TabWait::Wait));
    assert!(matches!(b.page_ready("s0", true), TabWait::Fail(e) if e == "tab did not become ready"));
    assert!(matches!(b.page_ready("zz", true), TabWait::Over));
    b.state.tabs[0].ready = true;
    assert!(matches!(b.page_ready("s0", true), TabWait::Over));
}

#[test]
fn a_tab_comes_to_the_front_once() {
    let mut b = with_tabs(1);
    let c = b.to_front("s0").unwrap();
    assert_eq!((c.method.as_str(), c.session.as_deref()), ("Page.bringToFront", Some("s0")));
    assert!(b.to_front("s0").is_none());
}

#[test]
fn tabs_by_target() {
    let mut b = with_tabs(3);
    assert_eq!(b.find_target("T2"), Some(2));
    assert_eq!(b.find_target("T9"), None);
    b.select_target("T2");
    assert_eq!(b.state.current, 2);
    b.select_target("T9");
    assert_eq!(b.state.current, 2);
    assert_eq!(b.tab_read("s1"), Ok(1));
    assert_eq!(b.tab_read("zz").unwrap_err(), "the tab was closed");
}

#[test]
fn navigations() {
    let mut b = with_tabs(1);
    let c = b.navigate("s0", "example.com").ok().unwrap();
    assert_eq!((c.method.as_str(), c.params.to_text().as_str()), ("Page.navigate", r#"{"url":"https://example.com"}"#));
    b.cfg.blocked_origins = vec!["example.com".into()];
    assert_eq!(b.navigate("s0", "example.com").err().unwrap(), "access to https://example.com is blocked by --blocked-origins");
    assert!(b.check_origin("https://other.com").is_ok());
    assert!(matches!(b.navigated("u", &j(r#"{"loaderId":"L"}"#)), Navigation::Wait(l) if l == "L"));
    assert!(matches!(b.navigated("u", &j("{}")), Navigation::Done));
    assert!(matches!(b.navigated("u", &j(r#"{"errorText":"net::ERR_X","loaderId":"L"}"#)), Navigation::Fail(e) if e == "navigation to u failed: net::ERR_X"));
    b.state.downloads.push(Download { guid: "g".into(), url: "u".into(), filename: "f".into(), state: "inProgress".into() });
    assert!(matches!(b.navigated("u", &j(r#"{"errorText":"net::ERR_ABORTED"}"#)), Navigation::Done));
    assert!(matches!(b.navigated("v", &j(r#"{"errorText":"net::ERR_ABORTED"}"#)), Navigation::Fail(_)));
    assert_eq!(b.navigation_timeout("u"), "navigation to u timed out after 60000ms");
}

#[test]
fn a_document_finishes_loading() {
    let mut b = with_tabs(1);
    b.state.tabs[0].loader_id = "L".into();
    assert!(matches!(b.loading("s0", "L"), Loading::Done));
    assert!(matches!(b.loading("s0", "M"), Loading::Busy));
    b.state.tabs[0].loading = true;
    assert!(matches!(b.loading("s0", "L"), Loading::Busy));
    assert!(matches!(b.loading("zz", "L"), Loading::Closed(e) if e == "tab closed during navigation"));
}

#[test]
fn actions_settle() {
    let mut b = with_tabs(1);
    let mark = b.settle_mark("s0").ok().unwrap();
    assert!(b.settle("s0", mark, 0));
    b.state.tabs[0].requests.push(request("Image", false));
    assert!(b.settle("s0", mark, 0));
    b.state.tabs[0].requests.push(request("XHR", false));
    assert!(!b.settle("s0", mark, 500));
    assert!(b.settle("s0", mark, 501));
    b.state.tabs[0].requests[1].finished = true;
    assert!(b.settle("s0", mark, 0));
    b.state.tabs[0].loading = true;
    assert!(b.settle("s0", mark, 0));
    b.state.tabs[0].nav_seq = 1;
    assert!(!b.settle("s0", mark, 60000));
    assert!(b.settle("s0", mark, 60001));
    b.state.tabs[0].dialog = Some(Dialog { kind: "alert".into(), message: "m".into(), default_prompt: String::new() });
    assert!(b.settle("s0", mark, 0));
    assert!(b.settle("zz", mark, 0));
    assert!(b.settle_mark("zz").is_err());
}

#[test]
fn exceptions_are_told() {
    let e = |s: &str| browser::exception_to_err(j(s)).err().unwrap();
    assert_eq!(e(r#"{"exceptionDetails":{"exception":{"description":"Error: no element\n at x"}}}"#), "no element");
    assert_eq!(e(r#"{"exceptionDetails":{"exception":{"value":"thrown"}}}"#), "thrown");
    assert_eq!(e(r#"{"exceptionDetails":{"text":"Uncaught"}}"#), "Uncaught");
    assert_eq!(e(r#"{"exceptionDetails":{}}"#), "JavaScript exception");
    assert_eq!(browser::exception_to_err(j(r#"{"result":{"value":1}}"#)).ok().unwrap().to_text(), r#"{"result":{"value":1}}"#);
}

#[test]
fn evaluating_again() {
    assert!(browser::is_context_gone("Cannot find context with specified id"));
    assert!(browser::eval_again(0, "Execution context was destroyed."));
    assert!(browser::eval_again(1, "Inspected target navigated or closed"));
    assert!(!browser::eval_again(2, "Execution context was destroyed."));
    assert!(!browser::eval_again(0, "other"));
    assert!(browser::world_again(0) && browser::world_again(9) && !browser::world_again(10));
}

#[test]
fn evaluations() {
    let c = browser::eval_raw("s", "1+1", 5, true, false);
    assert_eq!(c.params.to_text(), r#"{"expression":"1+1","contextId":5,"returnByValue":true,"awaitPromise":false,"userGesture":true}"#);
    assert_eq!(browser::eval_world(&j(r#"{"result":{"value":[1]}}"#)).to_text(), "[1]");
    assert_eq!(browser::eval_world_handle(&j(r#"{"result":{"objectId":"o"}}"#)).ok().unwrap(), "o");
    assert_eq!(browser::eval_world_handle(&j("{}")).err().unwrap(), "expression did not produce an object");
    let c = browser::call_on("s", "o", "f", &vec![Json::num(1), Json::str("x")]);
    assert_eq!(c.params.at("arguments").to_text(), r#"[{"value":1},{"value":"x"}]"#);
    assert_eq!(browser::created_world(&j(r#"{"executionContextId":4}"#)), Ok(4));
    assert_eq!(browser::created_world(&j("{}")).unwrap_err(), "no isolated world");
    assert_eq!(browser::create_world("s", "F").params.at("worldName").text(), "__bmcp");
}

#[test]
fn dialogs_block_a_page() {
    let mut b = with_tabs(1);
    assert_eq!(b.send_page("s0"), None);
    assert_eq!(b.send_page("zz").as_deref(), Some("the tab was closed"));
    b.state.tabs[0].dialog = Some(Dialog { kind: "alert".into(), message: "m".into(), default_prompt: String::new() });
    assert_eq!(b.send_page("s0").as_deref(), Some("a \"alert\" dialog is open (m); handle it with browser_handle_dialog first"));
    let ev = Event { method: "x".into(), params: j(r#"{"type":"confirm","message":"sure?"}"#), session_id: None };
    assert_eq!(browser::opened_dialog(&ev), "the action opened a \"confirm\" dialog (sure?); handle it with browser_handle_dialog");
}

#[test]
fn worlds() {
    let mut b = with_tabs(1);
    b.set_world("s0", Some(3));
    assert_eq!(b.world_context("s0"), Ok(Some(3)));
    b.set_world("zz", Some(4));
    assert_eq!(b.world_context("s0"), Ok(Some(3)));
    assert!(b.world_context("zz").is_err());
}

#[test]
fn the_first_tab_at_the_start() {
    let mut b = new();
    assert!(matches!(b.started(false), Startup::Wait));
    assert!(matches!(b.started(true), Startup::OpenTab));
    b.state.tabs.push(tab(0));
    assert!(matches!(b.started(true), Startup::Fail(e) if e == "browser started but its first page never became ready"));
    b.state.session_ready("s0", &Some(j(r#"{"frameTree":{"frame":{"id":"F","loaderId":"L"}}}"#)));
    assert!(matches!(b.started(false), Startup::Ready));
    assert_eq!((b.state.tabs[0].main_frame.as_str(), b.state.tabs[0].loader_id.as_str()), ("F", "L"));
    b.state.session_ready("s0", &Some(j(r#"{"frameTree":{"frame":{"id":"G","loaderId":"M"}}}"#)));
    assert_eq!(b.state.tabs[0].main_frame, "F");
}

#[test]
fn sessions_are_prepared() {
    let mut b = with_tabs(1);
    let m = |b: &Browser| init_session("s", "code", &b.state, &b.cfg).iter().map(|c| c.method.clone()).collect::<Vec<_>>();
    let plain = m(&b);
    assert_eq!(plain.len(), 9);
    assert_eq!(plain[0], "Page.enable");
    assert_eq!(plain[8], "Page.setInterceptFileChooserDialog");
    b.cfg.init_scripts = vec!["x".into()];
    b.state.viewport = Some((1, 2));
    b.cfg.block_service_workers = true;
    b.cfg.allowed_origins = vec!["a.com".into()];
    b.state.offline = true;
    assert_eq!(
        m(&b)[9..],
        ["Page.addScriptToEvaluateOnNewDocument", "Emulation.setDeviceMetricsOverride", "Network.setBypassServiceWorker", "Fetch.enable", "Network.emulateNetworkConditions"]
    );
    assert_eq!(device_metrics(3, 4).to_text(), r#"{"width":3,"height":4,"deviceScaleFactor":0,"mobile":false}"#);
    assert_eq!(emulated_network(true).at("offline").as_bool(), Some(true));
    assert_eq!(command_all(&vec!["a".into(), "b".into()], "M", &Json::Null).len(), 2);
}

#[test]
fn requests_are_intercepted_where_needed() {
    let mut b = with_tabs(2);
    let c = b.sync_fetch();
    assert_eq!((c.len(), c[0].method.as_str()), (2, "Fetch.disable"));
    b.cfg.blocked_origins = vec!["x".into()];
    assert_eq!(b.sync_fetch()[1].params.to_text(), r#"{"patterns":[{"urlPattern":"*","requestStage":"Request"}]}"#);
}

#[test]
fn switching_modes() {
    let mut b = with_tabs(2);
    assert!(matches!(b.set_headless(false), Switch::Later(m) if m == "browser will start headed"));
    assert!(!b.want_headless);
    b.running = running(true);
    assert!(matches!(b.set_headless(true), Switch::Already { message, to_front: false } if message == "already headless"));
    b.state.current = 1;
    match b.set_headless(false) {
        Switch::Relaunch { tabs, current } => {
            assert_eq!(tabs, vec![("s0".to_string(), "http://0/".to_string()), ("s1".to_string(), "http://1/".to_string())]);
            assert_eq!(current, 1);
        }
        _ => panic!("no relaunch"),
    }
    let before = b.close().unwrap();
    b.relaunched(Running { headless: false, profile: "/new".into(), temp_profile: false, closed: false }, &before);
    let r = b.running.as_ref().unwrap();
    assert_eq!((r.headless, r.profile.as_str(), r.temp_profile), (false, "/p", true));
    b.state.tabs.push(tab(0));
    b.restore_current(1);
    assert_eq!(b.state.current, 0);
    assert_eq!(mode::switched(true, 2), "switched to headless mode (2 tab(s) restored)");
}

#[test]
fn tabs_are_restored() {
    assert_eq!(mode::saved_storage(&Some(j(r#"{"result":{"value":"[[1]]"}}"#))), "[[1]]");
    assert_eq!(mode::saved_storage(&None), "[]");
    let c = mode::restore_tab("s", "http://a/", r#"[["k","v"]]"#);
    assert_eq!(c.len(), 2);
    assert_eq!(
        c[0].params.at("source").text(),
        r#"(() => { try { if (!sessionStorage.length && location.href === "http://a/") for (const [k, v] of [["k","v"]]) sessionStorage.setItem(k, v); } catch {} })()"#
    );
    assert_eq!(c[1].method, "Page.navigate");
    assert!(mode::restore_tab("s", "about:blank", "[]").is_empty());
    assert!(mode::restore_tab("s", "", "[]").is_empty());
    assert!(mode::set_cookies(&j("[]")).is_none());
    assert_eq!(mode::set_cookies(&j(r#"[{"name":"a"}]"#)).unwrap().params.to_text(), r#"{"cookies":[{"name":"a"}]}"#);
}

#[test]
fn storage_states() {
    let v = vec![j(r#"{"origin":"http://a","localStorage":[]}"#), j(r#"{"origin":"null"}"#), j(r#"{"origin":"http://a","localStorage":[1]}"#), j("{}")];
    assert_eq!(mode::storage_state(&j("[]"), &v).to_text(), r#"{"cookies":[],"origins":[{"localStorage":[],"origin":"http://a"}]}"#);
    let c = mode::set_storage_state(&j(r#"{"cookies":[{"name":"a","expires":-1},{"name":"b","expires":5},{"name":"c","expires":-0.5}]}"#)).unwrap();
    assert_eq!(c.params.to_text(), r#"{"cookies":[{"name":"a"},{"expires":5,"name":"b"},{"name":"c"}]}"#);
    assert!(mode::set_storage_state(&j("{}")).is_none());
    let s = mode::origin_setup(&j(r#"{"origin":"http://a","localStorage":[{"name":"k","value":"v"}]}"#)).unwrap();
    assert_eq!((s.pattern.as_str(), s.url.as_str()), ("http://a/*", "http://a/"));
    assert_eq!(s.script, r#"for (const {name, value} of [{"name":"k","value":"v"}]) localStorage.setItem(name, value)"#);
    assert!(mode::origin_setup(&j("{}")).is_none());
}

#[test]
fn elements_and_their_expressions() {
    let mut b = with_tabs(1);
    assert_eq!(actions::element("text=\"x\""), r#"__bmcp.resolve("text=\"x\"")"#);
    let ready = b.prepare("s", "o", true, false).params;
    assert_eq!(ready.at("functionDeclaration").text(), "function(o) { return __bmcp.prepare(this, o); }");
    assert_eq!(ready.at("arguments").to_text(), r#"[{"value":{"timeout":5000,"enabled":true,"hitTest":false}}]"#);
    b.set_timeout(Some(7));
    assert_eq!(b.action_timeout(), 7);
    assert_eq!(b.wait_timeout(), 7);
    b.set_overrides(Overrides { snapshot: Some("full".into()), timeout: None });
    assert_eq!(b.overrides.snapshot.as_deref(), Some("full"));
    assert_eq!(b.wait_timeout(), 30000);
    b.cfg.timeout_navigation = 100;
    assert_eq!(b.wait_timeout(), 100);
    assert_eq!(b.show_action("click"), None);
    b.state.show_actions = Some(800);
    assert!(b.show_action("click").unwrap().ends_with("removeHighlight('action'), 800); return \"click\"; }"));
    assert_eq!(actions::point(&j(r#"{"x":1.5,"y":2}"#)).0.to_text(), "1.5");
    assert_eq!(actions::point(&j(r#"{"x":1.5}"#)).1.to_text(), "0.0");
}

#[test]
fn functions_and_expressions() {
    for f in ["() => 1", "function () {}", "async (a) => a", "x => x", " async function f() {}"] {
        assert_eq!(actions::is_function(f), Ok(true), "{f}");
    }
    for f in ["document.title", "(() => 1)()", "functional", "1"] {
        assert_eq!(actions::is_function(f), Ok(false), "{f}");
    }
    assert_eq!(actions::evaluate_page("s", " () => 1 ", true).params.at("expression").text(), "(() => 1)()");
    assert_eq!(actions::evaluate_page("s", "1", false).params.at("expression").text(), "1");
    let c = actions::evaluate_element("s", "e.x", false, "o");
    assert_eq!(c.params.at("functionDeclaration").text(), "function() { return (e.x); }");
    assert_eq!(c.params.at("arguments").to_text(), r#"[{"objectId":"o"}]"#);
}

#[test]
fn results_of_evaluations() {
    let ok = |s: &str| actions::evaluate(&j(s)).ok().unwrap().to_text();
    assert_eq!(ok(r#"{"result":{"value":null}}"#), "null");
    assert_eq!(ok(r#"{"result":{"unserializableValue":"NaN"}}"#), "\"NaN\"");
    assert_eq!(ok(r#"{"result":{"description":"Symbol()"}}"#), "\"Symbol()\"");
    assert_eq!(ok(r#"{"result":{}}"#), "\"undefined\"");
    assert_eq!(actions::evaluate(&j(r#"{"exceptionDetails":{"exception":{"description":"E\nat"}}}"#)).err().unwrap(), "E\nat");
    assert_eq!(actions::evaluate(&j(r#"{"exceptionDetails":{}}"#)).err().unwrap(), "exception");
    assert_eq!(actions::plain(&j("[1]")), "[1]");
    assert_eq!(actions::plain(&j("\"a\"")), "a");
}

#[test]
fn drops_and_uploads() {
    assert_eq!(
        actions::drop_data(&vec!["/f".into()], &j(r#"{"text/plain":"x","y":{"a":1}}"#)).to_text(),
        r#"{"items":[{"mimeType":"text/plain","data":"x"},{"mimeType":"y","data":"{\"a\":1}"}],"files":["/f"],"dragOperationsMask":19}"#
    );
    let c = actions::drop_at("s", &Json::num(1), &Json::num(2), &Json::Null);
    let kinds: Vec<String> = c.iter().map(|c| c.params.at("type").text()).collect();
    assert_eq!(kinds, vec!["dragEnter", "dragOver", "drop"]);
    assert_eq!(actions::missing_file(&vec!["a".into(), "b".into()], &vec![true, false]).as_deref(), Some("file not found: b"));
    assert_eq!(actions::missing_file(&vec!["a".into()], &vec![true]), None);
    let mut b = with_tabs(1);
    let one = vec!["a".to_string()];
    assert!(matches!(b.state.upload("s0", &one), actions::Upload::Fail(e) if e.starts_with("no file chooser is open")));
    b.state.tabs[0].file_chooser = Some((5, "selectSingle".into()));
    assert!(matches!(b.state.upload("s0", &vec!["a".into(), "b".into()]), actions::Upload::Fail(e) if e == "this file input accepts a single file"));
    assert!(b.state.tabs[0].file_chooser.is_none());
    b.state.tabs[0].file_chooser = Some((5, "selectMultiple".into()));
    assert!(matches!(b.state.upload("s0", &vec!["a".into(), "b".into()]), actions::Upload::Files(5)));
    b.state.tabs[0].file_chooser = Some((5, "selectSingle".into()));
    assert!(matches!(b.state.upload("s0", &vec![]), actions::Upload::Cancelled(m) if m == "file chooser cancelled"));
    assert_eq!(actions::uploaded(2), "uploaded 2 file(s)");
}

#[test]
fn dialogs_are_handled() {
    let mut b = with_tabs(1);
    assert_eq!(b.state.handle_dialog("s0", true, &None).err().unwrap(), "no dialog is open");
    b.state.tabs[0].dialog = Some(Dialog { kind: "prompt".into(), message: "m".into(), default_prompt: "d".into() });
    let (c, m) = b.state.handle_dialog("s0", true, &None).ok().unwrap();
    assert_eq!((c.params.to_text().as_str(), m.as_str()), (r#"{"accept":true,"promptText":"d"}"#, "accepted \"prompt\" dialog"));
    let (c, m) = b.state.handle_dialog("s0", false, &None).ok().unwrap();
    assert_eq!((c.params.to_text().as_str(), m.as_str()), (r#"{"accept":false}"#, "dismissed \"prompt\" dialog"));
    let (c, _) = b.state.handle_dialog("s0", false, &Some("t".into())).ok().unwrap();
    assert_eq!(c.params.to_text(), r#"{"accept":false,"promptText":"t"}"#);
    b.state.dialog_closed("s0");
    assert!(b.state.tabs[0].dialog.is_none());
}

#[test]
fn waiting() {
    let s = |t: &str| Some(t.to_string());
    assert_eq!(actions::wait_for(&s("2"), &s("a"), &s("b")), Ok("Text \"a\" appeared".to_string()));
    assert_eq!(actions::wait_for(&s("2"), &None, &s("b")), Ok("Text \"b\" disappeared".to_string()));
    assert_eq!(actions::wait_for(&s("1.5"), &None, &None), Ok("Waited 1.5s".to_string()));
    assert_eq!(actions::wait_for(&None, &None, &None).unwrap_err(), "pass time, text or textGone");
    assert_eq!(actions::wait_expression("x", true, 30000), "__bmcp.waitForText(\"x\", true, 30000)");
    assert_eq!(actions::snapshot_expression(&s("main"), Some(2), true), r#"__bmcp.snapshot({"boxes":true,"depth":2,"target":"main"})"#);
}
