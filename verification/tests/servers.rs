use browser_mcp_rs::actions::Shot;
use browser_mcp_rs::browser::Browser;
use browser_mcp_rs::config::Config;
use browser_mcp_rs::gesture::{self, Clicks, Drag, DragStep};
use browser_mcp_rs::json::Json;
use browser_mcp_rs::params::{
    BatchParams, BatchStep, ClickParams, ConsoleParams, CookieListParams, CookieSetParams, DragParams, DropParams, ExtractParams, FetchParams,
    FormField, HighlightParams, KeyParams, LinksParams, ModeParams, NameParams, NavigateParams, NetworkRequestsParams, NetworkStateParams,
    OptTargetParams, ReadParams, RouteParams, ScrapeParams, ScrapeTarget, ScreenshotParams, SelectParams, SnapshotParams, TableParams,
    TabsParams, TargetParams, TextParams, TypeParams, VerifyElementParams, VerifyListParams, VerifyTextParams, VerifyValueParams, WaitParams,
};
use browser_mcp_rs::reading::{truncate_chars, FetchResult, Shape};
use browser_mcp_rs::reply::Reply;
use browser_mcp_rs::server::{count_or_bool, elapsed, overrides, trace_line, Batch, BrowserServer};
use browser_mcp_rs::stores::{self, StorageOp};
use browser_mcp_rs::tools::{self, Filling, TabsStep};
use serde_json::Value;

fn from(v: &Value) -> Json {
    match v {
        Value::Null => Json::Null,
        Value::Bool(b) => Json::Bool(*b),
        Value::Number(n) => match n.as_i64() {
            Some(i) => Json::Int(i as i128),
            None => Json::Float(n.to_string()),
        },
        Value::String(s) => Json::Str(s.clone()),
        Value::Array(a) => Json::Arr(a.iter().map(from).collect()),
        Value::Object(m) => Json::Obj(m.iter().map(|(k, v)| (k.clone(), from(v))).collect()),
    }
}

fn j(s: &str) -> Json {
    from(&serde_json::from_str(s).unwrap())
}

fn some(s: &str) -> Option<String> {
    Some(s.to_string())
}

fn strings(v: &[&str]) -> Vec<String> {
    v.iter().map(|s| s.to_string()).collect()
}

fn server(caps: &[&str]) -> BrowserServer {
    let mut c = Config::new(None, "/tmp");
    c.caps = strings(caps);
    BrowserServer::new(Browser::new(c))
}

fn says(r: &Reply) -> (&str, bool, bool) {
    (r.result[0].as_str(), r.page_state, r.snapshot)
}

fn step(tool: &str, arguments: &str) -> BatchStep {
    BatchStep { tool: tool.into(), arguments: j(arguments) }
}

fn batch(stop: Option<bool>, timeout: Option<u64>) -> Batch {
    let steps = vec![step("a", r#"{"timeout":7}"#), step("b", "{}"), step("c", "null")];
    Batch::new(BatchParams { steps, stop_on_error: stop, snapshot: None, timeout: None }, timeout)
}

// ---------------------------------------------------------------------- the server

#[test]
fn tools_of_capabilities() {
    let none = server(&[]);
    assert!(none.has_route("browser_click") && none.has_route("browser_batch") && none.has_route("browser_close"));
    for t in ["browser_mouse_wheel", "browser_pdf_save", "browser_route", "browser_cookie_get", "browser_start_video", "browser_verify_value", "browser_get_config", "browser_nothing"] {
        assert!(!none.has_route(t), "{t}");
    }
    let some_caps = server(&["vision", "testing"]);
    assert!(some_caps.has_route("browser_mouse_wheel") && some_caps.has_route("browser_generate_locator") && !some_caps.has_route("browser_route"));
    let all = server(&["all"]);
    assert!(all.has_route("browser_route") && all.has_route("browser_storage_state") && !all.has_route("browser_nothing"));
}

#[test]
fn tools_of_a_batch() {
    let s = server(&["config"]);
    assert!(s.dispatch("browser_click").is_ok());
    assert_eq!(s.dispatch("browser_batch").unwrap_err(), "browser_batch cannot be used in a batch");
    assert_eq!(s.dispatch("browser_handoff").unwrap_err(), "browser_handoff cannot be used in a batch");
    assert_eq!(s.dispatch("browser_mouse_wheel").unwrap_err(), "browser_mouse_wheel cannot be used in a batch");
    assert_eq!(s.dispatch("nope").unwrap_err(), "nope cannot be used in a batch");
    assert_eq!(s.dispatch("browser_close").unwrap_err(), "browser_close is not supported in browser_batch");
    assert_eq!(s.dispatch("browser_get_config").unwrap_err(), "browser_get_config is not supported in browser_batch");
}

#[test]
fn a_batch_runs_its_steps() {
    let mut b = batch(None, Some(9));
    let s = b.next().unwrap();
    assert_eq!((s.tool.as_str(), s.timeout), ("a", Some(7)));
    let mut r = Reply::action(" one ".into());
    r.result.push("two".into());
    r.images.push((vec![1], "image/png"));
    b.step_done(Ok(r));
    assert_eq!(b.next().unwrap().timeout, Some(9));
    b.step_done(Ok(Reply::raw("x".into())));
    b.step_done(Ok(Reply::raw("y".into())));
    assert!(b.next().is_none());
    let (r, error) = b.finish();
    assert_eq!(r.result, vec!["1. a: one  two", "2. b: x", "3. c: y"]);
    assert!(!error && r.snapshot && r.page_state && r.images.len() == 1);
}

#[test]
fn a_batch_stops_at_a_failure() {
    let mut b = batch(None, None);
    b.step_done(Err("bad".into()));
    assert!(b.next().is_none());
    let (r, error) = b.finish();
    assert_eq!((r.result, error, r.error), (vec!["1. a: ERROR bad".to_string()], true, false));
}

#[test]
fn a_batch_can_go_on() {
    let mut b = batch(Some(false), None);
    b.step_done(Err("bad".into()));
    assert_eq!(b.next().unwrap().tool, "b");
    b.step_done(Ok(Reply::raw("x".into())));
    b.step_done(Ok(Reply::raw("y".into())));
    let (r, error) = b.finish();
    assert_eq!((r.result.len(), error), (3, false));
}

#[test]
fn every_call() {
    let o = overrides(&j(r#"{"snapshot":"none","timeout":5}"#));
    assert_eq!((o.snapshot.as_deref(), o.timeout), (Some("none"), Some(5)));
    let o = overrides(&j(r#"{"snapshot":1,"timeout":-5}"#));
    assert_eq!((o.snapshot, o.timeout), (None, None));
    assert_eq!(elapsed(12), "\nelapsed_ms: 12");
    assert_eq!(trace_line("t", 1, 2, 3, true), "{\"args_chars\":3,\"error\":true,\"ms\":1,\"reply_chars\":2,\"tool\":\"t\"}\n");
    assert_eq!(count_or_bool(&Json::Bool(true)), Some(1));
    assert_eq!(count_or_bool(&Json::Bool(false)), None);
    assert_eq!(count_or_bool(&Json::num(3)), Some(3));
    assert_eq!(count_or_bool(&Json::num(-3)), None);
    assert_eq!(count_or_bool(&Json::num(4294967297)), Some(1));
    assert_eq!(count_or_bool(&Json::str("3")), None);
}

// ---------------------------------------------------------------------- acting

#[test]
fn replies_of_navigations() {
    let p = NavigateParams { url: "a.com".into(), snapshot: None };
    assert_eq!(says(&BrowserServer::navigate(&p, None)), ("Navigated to https://a.com", true, true));
    assert_eq!(says(&BrowserServer::navigate(&p, Some(200))).0, "Navigated to https://a.com (HTTP 200)");
    assert_eq!(says(&BrowserServer::navigate(&p, Some(404))).0, "Navigated to https://a.com: HTTP 404, the server returned an error page");
    assert_eq!(says(&BrowserServer::back(true)).0, "Went back");
    assert_eq!(says(&BrowserServer::back(false)).0, "No previous page in history");
}

#[test]
fn replies_of_actions() {
    let mut c = ClickParams { element: None, target: "e1".into(), double_click: None, button: None, modifiers: None, snapshot: None, timeout: None };
    assert_eq!(says(&BrowserServer::click(&c)), ("Clicked e1", true, true));
    c.double_click = Some(true);
    c.element = some("the button");
    assert_eq!(says(&BrowserServer::click(&c)).0, "Double-clicked the button");
    let h = TargetParams { element: None, target: "e2".into(), snapshot: None, timeout: None };
    assert_eq!(says(&BrowserServer::hover(&h)).0, "Hovered e2");
    let mut t = TypeParams { element: None, target: "e3".into(), text: "x".into(), submit: None, slowly: None, snapshot: None, timeout: None };
    assert_eq!(says(&BrowserServer::type_text(&t)).0, "Typed into e3");
    t.submit = Some(true);
    assert_eq!(says(&BrowserServer::type_text(&t)).0, "Typed into e3 and pressed Enter");
    assert_eq!(says(&BrowserServer::fill_form(2)).0, "Filled 2 field(s)");
    let s = SelectParams { element: None, target: "e4".into(), values: vec![], snapshot: None, timeout: None };
    assert_eq!(says(&BrowserServer::select(&s, &j(r#"["a"]"#))).0, "Selected [\"a\"] in e4");
    assert_eq!(says(&BrowserServer::press_key(&KeyParams { key: "Enter".into(), snapshot: None })).0, "Pressed Enter");
    let d = DragParams { start_element: some("x"), start_target: "a".into(), end_element: None, end_target: "b".into(), snapshot: None, timeout: None };
    assert_eq!(says(&BrowserServer::drag(&d)).0, "Dragged x to b");
    assert_eq!(says(&BrowserServer::resize(800, 600)).0, "Resized viewport to 800x600");
    assert_eq!(says(&BrowserServer::mouse_click("1", "2.5")).0, "Clicked at (1, 2.5)");
    assert_eq!(says(&BrowserServer::mouse_move("1", "2")).0, "Moved mouse to (1, 2)");
    assert_eq!(says(&BrowserServer::mouse_wheel("0", "-3")).0, "Scrolled by (0, -3)");
    assert_eq!(says(&BrowserServer::browser_mouse_drag_xy("1", "2", "3", "4")).0, "Dragged from (1, 2) to (3, 4)");
    assert_eq!(says(&BrowserServer::browser_close(true)), ("Browser closed", false, false));
    assert_eq!(says(&BrowserServer::browser_close(false)).0, "Browser was not running");
}

#[test]
fn what_is_dropped() {
    let mut p = DropParams { element: None, target: "e".into(), paths: None, data: None };
    assert_eq!(BrowserServer::dropped(&p).err().unwrap(), "pass paths or data to drop");
    p.data = Some(Json::obj());
    assert!(BrowserServer::dropped(&p).is_err());
    p.data = Some(j(r#"{"text/plain":"x"}"#));
    assert_eq!(BrowserServer::dropped(&p).ok().unwrap().1.to_text(), r#"{"text/plain":"x"}"#);
    p.data = None;
    p.paths = Some(strings(&["/f"]));
    assert_eq!(BrowserServer::dropped(&p).ok().unwrap().0, vec!["/f"]);
    assert_eq!(says(&BrowserServer::drop_(&p)).0, "Dropped onto e");
}

#[test]
fn fields_of_a_form() {
    let f = |kind: &str, value: &str| FormField { name: "n".into(), kind: kind.into(), target: "e".into(), value: value.into() };
    assert!(matches!(tools::filling(&f("checkbox", "true")), Filling::Check(true)));
    assert!(matches!(tools::filling(&f("radio", "yes")), Filling::Check(false)));
    assert!(matches!(tools::filling(&f("combobox", "x")), Filling::Choose));
    assert!(matches!(tools::filling(&f("slider", "5")), Filling::Fill));
    assert_eq!(tools::field_error(&f("slider", "5"), "bad"), "field \"n\": bad");
}

#[test]
fn what_is_waited_for() {
    let mut p = WaitParams { time: None, text: None, text_gone: None, selector: None, state: None, url: None, snapshot: None, timeout: None };
    assert!(BrowserServer::waits_plainly(&p));
    p.url = some("**");
    assert!(!BrowserServer::waits_plainly(&p));
    p.text = some("x");
    assert!(BrowserServer::waits_plainly(&p));
    assert_eq!(BrowserServer::wait_state(&p), "visible");
    assert_eq!(says(&BrowserServer::wait(&strings(&["a", "b"]))).0, "a; b");
    assert_eq!(gesture::wait_selector("hidden", &Json::str("detached")), Ok(true));
    assert_eq!(gesture::wait_selector("visible", &Json::str("hidden")), Ok(false));
    assert_eq!(gesture::wait_selector("attached", &Json::str("hidden")), Ok(true));
    assert_eq!(gesture::wait_selector("detached", &Json::str("visible")), Ok(false));
    assert!(gesture::wait_selector("gone", &Json::Null).unwrap_err().starts_with("unknown state \"gone\""));
    assert!(gesture::selector_expression("a\"").contains("__bmcp.resolve(\"a\\\"\")"));
}

#[test]
fn clicks_go_down_and_up() {
    let mut c = Clicks::new(2);
    let mut seen = Vec::new();
    while let Some(e) = c.next() {
        seen.push(e);
    }
    assert_eq!(seen, vec![(true, 1), (false, 1), (true, 2), (false, 2)]);
    let mut c = Clicks::new(0);
    assert_eq!((c.next(), c.next(), c.next()), (Some((true, 1)), Some((false, 1)), None));
}

#[test]
fn drags() {
    let mut d = Drag::new();
    for n in 1..=5 {
        assert!(matches!(d.next(), DragStep::Move(m) if m == n));
    }
    assert!(matches!(d.next(), DragStep::Wait));
    assert!(matches!(d.next(), DragStep::Release));
    let mut d = Drag::new();
    d.next();
    d.intercepted(&j(r#"{"data":1}"#));
    d.intercepted(&j(r#"{"data":2}"#));
    for _ in 0..4 {
        d.next();
    }
    assert!(matches!(d.next(), DragStep::Replay(x) if x.to_text() == "1"));
    assert!(matches!(d.next(), DragStep::Release));
    assert_eq!(gesture::intercept_drags("s", true).params.to_text(), r#"{"enabled":true}"#);
}

#[test]
fn tabs_to_list_open_select_and_close() {
    let starts = |action: &str| BrowserServer::tabs_start_browser(&TabsParams { action: action.into(), index: None, url: None, snapshot: None });
    assert!(starts("list") && starts("new") && starts("select") && starts("close"));
    assert!(!starts("open") && !starts(""));
    let p = |action: &str, index, url: Option<&str>| BrowserServer::tabs(&TabsParams { action: action.into(), index, url: url.map(str::to_string), snapshot: None });
    assert!(matches!(p("list", None, None), Ok(TabsStep::List)));
    assert!(matches!(p("new", None, None), Ok(TabsStep::New(u)) if u == "about:blank"));
    assert!(matches!(p("new", None, Some("x")), Ok(TabsStep::New(u)) if u == "x"));
    assert!(matches!(p("select", Some(2), None), Ok(TabsStep::Select(2))));
    assert!(matches!(p("close", None, None), Ok(TabsStep::Close(None))));
    assert_eq!(p("select", None, None).err().unwrap(), "select needs an index");
    assert_eq!(p("x", None, None).err().unwrap(), "unknown tabs action \"x\"; use list, new, close or select");
}

#[test]
fn modes_and_states() {
    let m = |s: &str| BrowserServer::set_mode(&ModeParams { mode: s.into() });
    assert_eq!((m("headless"), m("headed")), (Ok(true), Ok(false)));
    assert_eq!(m("x").unwrap_err(), "unknown mode \"x\"; use headless or headed");
    let n = |s: &str| BrowserServer::browser_network_state_set(&NetworkStateParams { state: s.into() });
    assert_eq!((n("offline"), n("online")), (Ok(true), Ok(false)));
    assert_eq!(n("x").unwrap_err(), "unknown state \"x\"");
}

// ---------------------------------------------------------------------- looking and reading

#[test]
fn snapshots_and_logs() {
    let mut p = SnapshotParams { target: None, filename: None, depth: None, boxes: None };
    assert!(BrowserServer::is_baseline(&p));
    p.depth = Some(1);
    assert!(!BrowserServer::is_baseline(&p));
    assert_eq!(BrowserServer::snapshot_file("- a"), "```yaml\n- a\n```\n");
    assert_eq!(says(&BrowserServer::save_or("t".into(), &None)), ("t", true, false));
    assert_eq!(says(&BrowserServer::save_or("t".into(), &some("/f"))), ("Saved to /f", true, false));
    assert_eq!(says(&BrowserServer::save_log("t".into(), &None)), ("t", false, false));
    let c = ConsoleParams { level: None, all: None, filename: None };
    assert_eq!(BrowserServer::console(&c), ("info".to_string(), false));
    let n = NetworkRequestsParams { include_static: false, filter: None, failed: Some(true), filename: None };
    let f = BrowserServer::network_requests(&n);
    assert!(f.include_static && f.failed);
}

#[test]
fn replies_with_pictures() {
    let mut p = ScreenshotParams { element: None, target: None, kind: None, filename: None, full_page: None, scale: None };
    assert_eq!(BrowserServer::screenshot_kind(&p), ("png".to_string(), true));
    let shot = |path: &str| Shot { data: vec![1], mime: "image/png", path: path.into() };
    let r = BrowserServer::screenshot(&p, shot("/f.png"));
    assert_eq!(says(&r), ("Took a screenshot of the viewport and saved it as /f.png", false, false));
    assert_eq!(r.images, vec![(vec![1], "image/png")]);
    p.full_page = Some(true);
    p.scale = some("device");
    assert!(!BrowserServer::screenshot_kind(&p).1);
    assert!(says(&BrowserServer::screenshot(&p, shot("f"))).0.contains("the full page and"));
    p.target = some("e1");
    assert!(says(&BrowserServer::screenshot(&p, shot("f"))).0.contains("the e1 and"));
}

#[test]
fn links_are_listed() {
    let p = LinksParams { scope: None, filter: some("x"), region: None, include_hidden: Some(true), limit: Some(5) };
    assert_eq!(BrowserServer::links_expression(&p), r#"__bmcp.links({"filter":"x","limit":5,"region":null,"scope":null,"visibleOnly":false})"#);
    let long = "y".repeat(90);
    let l = j(&format!(
        r#"[{{"ref":"e1","region":"main","text":"A","href":"https://a.com/x","visible":true}},{{"ref":"e2","region":"nav","text":"{long}","href":"https://a.community/","visible":false}}]"#
    ));
    let r = BrowserServer::links(&l, "https://a.com/page/1");
    let cut = "y".repeat(80);
    assert_eq!(
        r.result[0],
        format!("2 links (refs work as targets; relative URLs are on https://a.com):\ne1 [main] A -> /x\ne2 [nav] {cut} (hidden) -> https://a.community/")
    );
    assert_eq!(BrowserServer::links(&Json::Null, "u").result[0], "No matching links");
}

#[test]
fn texts_tables_and_items() {
    let t = TextParams { target: None, heading: some("h"), lead: Some(1), links: Some(true), max_chars: None };
    assert_eq!(BrowserServer::text_expression(&t), r#"__bmcp.text({"heading":"h","lead":1,"links":true,"maxChars":null,"target":null})"#);
    let t = TableParams { target: "e\"".into(), format: None, max_rows: Some(3) };
    assert_eq!(BrowserServer::table_expression(&t), r#"__bmcp.tableText(__bmcp.resolve("e\""), {"format":null,"maxRows":3})"#);
    assert_eq!(BrowserServer::text(&Json::str("t")).result[0], "t");
    assert_eq!(BrowserServer::text(&Json::Null).result[0], "");
    let mut e = ExtractParams { selector: ".i".into(), fields: None, limit: None };
    assert_eq!(BrowserServer::extract_expression(&e), r#"__bmcp.extract({"fields":null,"limit":null,"selector":".i"})"#);
    e.fields = Some(vec![("a".into(), "b@c".into())]);
    assert_eq!(BrowserServer::extract_expression(&e), r#"__bmcp.extract({"fields":{"a":"b@c"},"limit":null,"selector":".i"})"#);
    assert_eq!(BrowserServer::extract(&e, &j(r#"[{"a":1},{"a":2}]"#)).result[0], "2 items:\n{\"a\":1}\n{\"a\":2}");
    assert_eq!(BrowserServer::extract(&e, &j("[]")).result[0], "No elements match .i");
}

#[test]
fn values_are_read_and_expected() {
    let mut p = ReadParams { target: "e".into(), prop: None, all: None, equals: None, contains: None };
    assert_eq!(BrowserServer::read_expression(&p), r#"__bmcp.read("e", "text", false)"#);
    p.prop = some("value");
    p.all = Some(true);
    assert_eq!(BrowserServer::read_expression(&p), r#"__bmcp.read("e", "value", true)"#);
    assert_eq!(BrowserServer::read(&p, &j("[1]")).ok().unwrap().result[0], "[1]");
    p.equals = some("x");
    assert_eq!(BrowserServer::read(&p, &Json::str("y")).err().unwrap(), "e is \"y\", expected \"x\"");
    assert!(BrowserServer::read(&p, &Json::str("x")).is_ok());
    p.equals = None;
    p.contains = some("x");
    assert_eq!(BrowserServer::read(&p, &Json::str("y")).err().unwrap(), "e is \"y\", which does not contain \"x\"");
    assert!(BrowserServer::read(&p, &Json::str("axb")).is_ok());
}

#[test]
fn urls_to_fetch() {
    let mut p = FetchParams { url: None, urls: None, fields: None, transform: None, method: None, headers: None, body: None, max_chars: None };
    assert_eq!(BrowserServer::fetch_urls(&p).err().unwrap(), "pass url or urls");
    p.urls = Some(strings(&["b", "c"]));
    p.url = some("a");
    assert_eq!(BrowserServer::fetch_urls(&p).ok().unwrap(), (strings(&["a", "b", "c"]), "GET".to_string()));
    let one = vec![Ok(("HTTP 200".to_string(), "body".to_string()))];
    assert_eq!(BrowserServer::fetch(&strings(&["a"]), &one, Some(2)).result[0], "HTTP 200\n\nbo");
    let two = vec![Ok(("H".to_string(), "b".to_string())), Err("no".to_string())];
    assert_eq!(BrowserServer::fetch(&strings(&["a", "b"]), &two, None).result[0], "## a\nH\n\nb\n\n## b\nfailed: no");
    assert_eq!(truncate_chars("äöü", 2), "äö");
}

#[test]
fn bodies_take_shape() {
    let json = FetchResult { head: "h".into(), json: Some(j(r#"{"a":1,"b":2}"#)), text: "{ }".into() };
    let plain = FetchResult { head: "h".into(), json: None, text: "t\"".into() };
    let f = some("(d) => d");
    assert!(matches!(BrowserServer::shape_body(&json, &f, &None), Shape::Run(e) if e == r#"((d) => d)({"a":1,"b":2})"#));
    assert!(matches!(BrowserServer::shape_body(&plain, &f, &None), Shape::Run(e) if e == r#"((d) => d)("t\"")"#));
    assert!(matches!(BrowserServer::shape_body(&json, &None, &Some(strings(&["b"]))), Shape::Show(s) if s == r#"{"b":2}"#));
    assert!(matches!(BrowserServer::shape_body(&json, &None, &None), Shape::Show(s) if s == r#"{"a":1,"b":2}"#));
    assert!(matches!(BrowserServer::shape_body(&plain, &None, &Some(strings(&["b"]))), Shape::Show(s) if s == "t\""));
}

#[test]
fn pages_to_scrape() {
    let mut p = ScrapeParams { urls: vec![], function: some("f"), max_chars: None, concurrency: None, lead: None, page_timeout: None };
    assert_eq!(BrowserServer::scrape(&p).err().unwrap(), "pass at least one URL");
    p.urls = vec![ScrapeTarget::Url("a".into()), ScrapeTarget::Spec { url: "b".into(), function: some("g"), max_chars: Some(9) }, ScrapeTarget::Spec { url: "c".into(), function: None, max_chars: None }];
    let s = BrowserServer::scrape(&p).ok().unwrap();
    assert_eq!(s.targets, vec![("a".to_string(), some("f"), 4000), ("b".to_string(), some("g"), 9), ("c".to_string(), some("f"), 4000)]);
    assert_eq!((s.concurrency, s.page_timeout), (4, 15000));
    p.concurrency = Some(99);
    p.page_timeout = Some(1);
    p.max_chars = Some(5);
    let s = BrowserServer::scrape(&p).ok().unwrap();
    assert_eq!((s.concurrency, s.page_timeout, s.targets[0].2), (8, 1, 5));
}

// ---------------------------------------------------------------------- capabilities

#[test]
fn cookies() {
    let all = vec![j(r#"{"name":"a","domain":".x.com","path":"/p"}"#), j(r#"{"name":"b","domain":"y.com","path":"/"}"#), j(r#"{"name":"a","domain":"z"}"#)];
    let a = NameParams { name: "a".into() };
    assert_eq!(BrowserServer::named_cookies(&all, &a).len(), 2);
    let l = |d: Option<&str>, p: Option<&str>| {
        BrowserServer::listed_cookies(&all, &CookieListParams { domain: d.map(str::to_string), path: p.map(str::to_string) }).iter().map(|c| c.at("domain").text()).collect::<Vec<_>>()
    };
    assert_eq!(l(None, None).len(), 3);
    assert_eq!(l(Some("x.com"), None), vec![".x.com"]);
    assert_eq!(l(None, Some("/")), vec![".x.com", "y.com"]);
    assert_eq!(l(Some("y"), Some("/p")), Vec::<String>::new());
    assert_eq!(BrowserServer::delete_cookie("s", &all[2]).params.to_text(), r#"{"name":"a","domain":"z","path":null}"#);
    assert_eq!(BrowserServer::browser_cookie_delete(&a, 2).result[0], "Deleted 2 cookie(s) named a");
    assert_eq!(BrowserServer::shown_cookie(&a, None).result[0], "No cookie named a");
    assert_eq!(BrowserServer::shown_cookie(&a, some("[]")).result[0], "[]");
    let c = NameParams { name: "c".into() };
    assert_eq!(says(&BrowserServer::browser_cookie_get(&c, &all)), ("No cookie named c", false, false));
    let b = NameParams { name: "b".into() };
    let one = "[\n  {\n    \"domain\": \"y.com\",\n    \"name\": \"b\",\n    \"path\": \"/\"\n  }\n]";
    assert_eq!(says(&BrowserServer::browser_cookie_get(&b, &all)), (one, false, false));
    let at = |d: &str| BrowserServer::browser_cookie_list(&CookieListParams { domain: some(d), path: None }, &all).result[0].clone();
    assert_eq!(at("y.com"), one);
    assert_eq!(at("other"), "No cookies");
}

#[test]
fn a_cookie_is_set() {
    let mut p = CookieSetParams { name: "n".into(), value: "v".into(), domain: None, path: None, expires: None, http_only: None, secure: None, same_site: None };
    assert_eq!(BrowserServer::browser_cookie_set(&p, "about:blank").err().unwrap(), "pass a domain; the current page has no host");
    let c = BrowserServer::browser_cookie_set(&p, "http://a/").ok().unwrap();
    assert_eq!(c.params.to_text(), r#"{"cookies":[{"name":"n","path":"/","url":"http://a/","value":"v"}]}"#);
    p.domain = some("d");
    p.path = some("/p");
    p.expires = Some(Json::num(5));
    p.http_only = Some(true);
    p.secure = Some(false);
    p.same_site = some("Lax");
    let c = BrowserServer::browser_cookie_set(&p, "about:blank").ok().unwrap();
    assert_eq!(c.params.to_text(), r#"{"cookies":[{"domain":"d","expires":5,"httpOnly":true,"name":"n","path":"/p","sameSite":"Lax","secure":false,"value":"v"}]}"#);
    assert_eq!(c.method, "Storage.setCookies");
}

#[test]
fn storages_of_pages() {
    let k = || "k\"".to_string();
    assert_eq!(stores::web_storage(true, &StorageOp::List), "JSON.stringify(Object.fromEntries(Object.entries(localStorage)), null, 1)");
    assert_eq!(stores::web_storage(false, &StorageOp::Get(k())), "(() => { const v = sessionStorage.getItem(\"k\\\"\"); return v === null ? 'Key not found' : v; })()");
    assert_eq!(stores::web_storage(true, &StorageOp::Put("a".into(), "b".into())), "(localStorage.setItem(\"a\", \"b\"), 'ok')");
    assert_eq!(stores::web_storage(true, &StorageOp::Delete("a".into())), "(localStorage.removeItem(\"a\"), 'ok')");
    assert_eq!(stores::web_storage(false, &StorageOp::Clear), "(sessionStorage.clear(), 'ok')");
}

#[test]
fn routes_that_are_asked_for() {
    let mut p = RouteParams { pattern: "**/a".into(), status: Some(1), body: some("b"), content_type: some("t"), headers: Some(strings(&["A : b:c "])), remove_headers: some("x, ,y") };
    let r = BrowserServer::browser_route(&p).ok().unwrap();
    assert_eq!(r.headers, vec![("A".to_string(), "b:c".to_string())]);
    assert_eq!(r.remove_headers, vec!["x", "y"]);
    assert!(r.matches("http://h/a"));
    p.headers = Some(strings(&["A: b", "bad"]));
    assert_eq!(BrowserServer::browser_route(&p).err().unwrap(), "header \"bad\" is not \"Name: Value\"");
    p.headers = None;
    p.pattern = "{".into();
    assert!(BrowserServer::browser_route(&p).is_err());
    assert_eq!(BrowserServer::browser_unroute(3).result[0], "Removed 3 route(s)");
}

#[test]
fn settings_are_shown() {
    let mut s = server(&["config"]);
    s.browser.cfg.viewport = Some((1, 2));
    let v = s.config_json();
    let shown = s.browser_get_config();
    assert_eq!(says(&shown), (serde_json::to_string_pretty(&serde_json::from_str::<Value>(&v.to_text()).unwrap()).unwrap().as_str(), false, false));
    assert!(shown.result[0].starts_with("{\n  \"browser\": {\n    \"engine\": \"chromium\",\n"));
    assert_eq!(v.at("browser").at("viewport").to_text(), "[1,2]");
    assert_eq!(v.at("browser").at("headless").as_bool(), Some(true));
    assert_eq!(v.at("browser").at("version").text(), "153.0.8010.36");
    assert_eq!(v.at("capabilities").to_text(), r#"["config"]"#);
    assert_eq!(v.at("timeouts").to_text(), r#"{"action":5000,"navigation":60000,"settle":500}"#);
    assert_eq!(v.at("outputDir").text(), "/tmp/browser-mcp-rs");
    assert!(v.at("storageState").is_null());
    assert_eq!(v.at("network").to_text(), r#"{"allowedOrigins":[],"blockServiceWorkers":false,"blockedOrigins":[]}"#);
}

#[test]
fn highlights() {
    let mut p = HighlightParams { element: None, target: "e".into(), style: None };
    let c = stores::highlight("s", "o", &p);
    assert_eq!(c.params.at("functionDeclaration").text(), "function(s, k) { __bmcp.highlight(this, s, k); }");
    assert_eq!(c.params.at("arguments").to_text(), r#"[{"value":""},{"value":"e"}]"#);
    p.style = some("s");
    assert_eq!(stores::highlight("s", "o", &p).params.at("arguments").to_text(), r#"[{"value":"s"},{"value":"e"}]"#);
    assert_eq!(BrowserServer::browser_highlight(&p).result[0], "Highlighted e");
    assert_eq!(stores::hide_highlight(&None), "__bmcp.removeHighlight(undefined)");
    assert_eq!(stores::hide_highlight(&some("e")), "__bmcp.removeHighlight(\"e\")");
    assert_eq!(BrowserServer::browser_hide_highlight(&OptTargetParams { element: None, target: None }).result[0], "Removed highlight (all)");
    assert_eq!(BrowserServer::browser_hide_highlight(&OptTargetParams { element: None, target: some("e") }).result[0], "Removed highlight e");
}

#[test]
fn checks_of_elements_and_texts() {
    let e = VerifyElementParams { role: "button".into(), accessible_name: "OK".into() };
    assert_eq!(BrowserServer::visible_expression(&e), "__bmcp.isRoleVisible(\"button\", \"OK\")");
    assert_eq!(BrowserServer::browser_verify_element_visible(&e, &Json::Bool(true)).ok().unwrap().result[0], "Done: button \"OK\" is visible");
    assert_eq!(BrowserServer::browser_verify_element_visible(&e, &Json::Null).err().unwrap(), "Verification failed: button \"OK\" is visible");
    let t = VerifyTextParams { text: "hi".into() };
    assert_eq!(BrowserServer::browser_verify_text_visible(&t, &Json::str("oh hi")).ok().unwrap().result[0], "Done: text \"hi\" is visible");
    assert!(BrowserServer::browser_verify_text_visible(&t, &Json::Null).is_err());
}

#[test]
fn checks_of_lists() {
    let p = VerifyListParams { element: "the list".into(), target: "e".into(), items: strings(&["a", "b\"c"]) };
    assert_eq!(BrowserServer::browser_verify_list_visible(&p, &Json::str("a b\"c")).ok().unwrap().result[0], "Done: the list contains [\"a\", \"b\\\"c\"]");
    assert_eq!(
        BrowserServer::browser_verify_list_visible(&p, &Json::str("a")).err().unwrap(),
        "Verification failed: the list contains [\"a\", \"b\\\"c\"] (missing [\"b\\\"c\"])"
    );
    assert_eq!(BrowserServer::items_checked("l", "[x]", &None).ok().unwrap().result[0], "Done: l contains [x]");
    assert_eq!(BrowserServer::items_checked("l", "[x]", &some("[y]")).err().unwrap(), "Verification failed: l contains [x] (missing [y])");
}

#[test]
fn checks_of_values() {
    let p = |kind: &str, value: &str| VerifyValueParams { kind: kind.into(), element: "x".into(), target: "e".into(), value: value.into() };
    assert!(BrowserServer::value_function(&p("radio", "")).starts_with("(e) => String(e.checked"));
    assert!(BrowserServer::value_function(&p("combobox", "")).contains("selectedOptions"));
    assert_eq!(BrowserServer::value_function(&p("textbox", "")), "(e) => e.value ?? e.textContent");
    assert_eq!(BrowserServer::browser_verify_value(&p("textbox", "v"), &Json::str("v")).ok().unwrap().result[0], "Done: x has value \"v\"");
    assert_eq!(BrowserServer::browser_verify_value(&p("textbox", "v"), &Json::num(1)).err().unwrap(), "Verification failed: x has value \"v\" (actual: \"1\")");
    assert!(BrowserServer::browser_verify_value(&p("combobox", "b"), &Json::str("a, b")).is_ok());
    assert!(BrowserServer::browser_verify_value(&p("textbox", "b"), &Json::str("a, b")).is_err());
}
