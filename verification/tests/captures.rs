use browser_mcp_rs::browser::{Browser, Running};
use browser_mcp_rs::capture;
use browser_mcp_rs::config::Config;
use browser_mcp_rs::json::Json;
use browser_mcp_rs::params::RouteParams;
use browser_mcp_rs::server::BrowserServer;
use browser_mcp_rs::state::{State, Tab};
use browser_mcp_rs::tabs::{go_back, record_script, recorded_code};
use serde_json::Value;

fn from(v: &Value) -> Json {
    match v {
        Value::Null => Json::Null,
        Value::Bool(b) => Json::Bool(*b),
        Value::Number(n) => match n.as_i64() {
            Some(i) => Json::Int(i as i128),
            None => Json::Float(n.to_string()),
        },
        Value::String(s) => Json::Str(s.clone()),
        Value::Array(a) => Json::Arr(a.iter().map(from).collect()),
        Value::Object(m) => Json::Obj(m.iter().map(|(k, v)| (k.clone(), from(v))).collect()),
    }
}

fn j(s: &str) -> Json {
    from(&serde_json::from_str(s).unwrap())
}

fn some(s: &str) -> Option<String> {
    Some(s.to_string())
}

fn with_tabs(n: usize) -> Browser {
    let mut b = Browser::new(Config::new(None, "/tmp"));
    for i in 0..n {
        b.state.tabs.push(Tab::new(format!("T{i}"), format!("s{i}"), format!("http://{i}/"), format!("t{i}")));
    }
    b
}

fn add(st: &mut State, pattern: &str, status: Option<i64>, headers: &[&str]) {
    let p = RouteParams {
        pattern: pattern.into(),
        status,
        body: None,
        content_type: None,
        headers: Some(headers.iter().map(|s| s.to_string()).collect()),
        remove_headers: None,
    };
    st.add_route(BrowserServer::browser_route(&p).ok().unwrap());
}

#[test]
fn where_files_go() {
    let c = Config::new(None, "/tmp");
    assert_eq!(capture::output_path(&c, &some("/abs/f.png"), "page", "png", 5), "/abs/f.png");
    assert_eq!(capture::output_path(&c, &some("f.png"), "page", "png", 5), "/tmp/browser-mcp-rs/f.png");
    assert_eq!(capture::output_path(&c, &None, "page", "png", 5), "/tmp/browser-mcp-rs/page-5.png");
}

#[test]
fn screenshots() {
    assert_eq!(capture::format_of("jpg"), ("jpeg", "image/jpeg"));
    assert_eq!(capture::format_of("webp"), ("webp", "image/webp"));
    assert_eq!(capture::format_of("gif"), ("png", "image/png"));
    let layout = j(r#"{"cssVisualViewport":{"pageX":1,"pageY":2,"clientWidth":3,"clientHeight":4},"cssContentSize":{"width":5,"height":6}}"#);
    let scale = Json::Float("0.5".into());
    let view = capture::screenshot("png", false, &None, &layout, &scale).ok().unwrap();
    assert_eq!(view.to_text(), r#"{"format":"png","clip":{"x":1,"y":2,"width":3,"height":4,"scale":0.5},"captureBeyondViewport":false,"optimizeForSpeed":true}"#);
    let full = capture::screenshot("jpeg", true, &None, &layout, &scale).ok().unwrap();
    assert_eq!(full.at("clip").to_text(), r#"{"x":0,"y":0,"width":5,"height":6,"scale":0.5}"#);
    assert_eq!((full.at("quality").to_text(), full.at("captureBeyondViewport").as_bool()), ("80".to_string(), Some(true)));
    let element = Some(j(r#"{"x":7,"y":8,"w":9.5,"h":10}"#));
    let part = capture::screenshot("png", false, &element, &layout, &scale).ok().unwrap();
    assert_eq!(part.at("clip").to_text(), r#"{"x":7,"y":8,"width":9.5,"height":10,"scale":0.5}"#);
    for empty in [r#"{"w":0}"#, r#"{"w":-1}"#, r#"{"w":0.0}"#, r#"{}"#, r#"{"w":"x"}"#] {
        assert_eq!(capture::screenshot("png", false, &Some(j(empty)), &layout, &scale).err().unwrap(), "element has no size; it cannot be captured");
    }
    assert_eq!(capture::received(&j(r#"{"data":"aGk="}"#)), Ok(b"hi".to_vec()));
    assert_eq!(capture::received(&j(r#"{"data":"aGk=!"}"#)), Err("Invalid symbol 33, offset 4.".to_string()));
    assert_eq!(capture::received(&j(r#"{"data":"aGk"}"#)), Err("Invalid padding".to_string()));
    let c = capture::layout_question("s");
    assert_eq!((c.method.as_str(), c.params.to_text().as_str()), ("Page.getLayoutMetrics", "{}"));
}

#[test]
fn traces() {
    let c = capture::trace_chunk(&j(r#"{"data":"héy","eof":false}"#)).ok().unwrap();
    assert_eq!((c.data, c.last), ("héy".as_bytes().to_vec(), false));
    let c = capture::trace_chunk(&j(r#"{"data":"aGk=","base64Encoded":true,"eof":true}"#)).ok().unwrap();
    assert_eq!((c.data, c.last), (b"hi".to_vec(), true));
    assert!(capture::trace_chunk(&j(r#"{"data":"?","base64Encoded":true}"#)).is_err());
    assert_eq!(capture::start_tracing().params.at("transferMode").text(), "ReturnAsStream");
}

#[test]
fn videos() {
    let mut st = State::new(None);
    assert_eq!(st.video_chapter(1, "a", &None).unwrap_err(), "no video is recording");
    assert_eq!(st.stop_video().err().unwrap(), "no video is recording");
    assert!(st.video_busy().is_none());
    let c = st.start_video("s", "/v/a.webm", Some((640, 480))).unwrap();
    assert_eq!(c.params.to_text(), r#"{"format":"jpeg","quality":80,"maxWidth":640,"maxHeight":480,"everyNthFrame":1}"#);
    assert_eq!(st.video_busy().as_deref(), Some("a video is already recording; stop it first"));
    assert_eq!(st.start_video("t", "/v/b.webm", None).err().unwrap(), "a video is already recording; stop it first");
    assert_eq!(st.video.as_ref().unwrap().filename, "/v/a.webm");
    st.video_chapter(7, "title", &some("more")).unwrap();
    st.video_chapter(8, "plain", &None).unwrap();
    st.frame_written(1, "/v/a.frames/1.jpg".into());
    st.frame_written(2, "/v/a.frames/2.jpg".into());
    let v = st.stop_video().ok().unwrap();
    assert_eq!(v.chapters, vec![(7, "title — more".to_string()), (8, "plain".to_string())]);
    assert_eq!(v.dir, "/v/a.frames");
    assert_eq!(
        capture::concat_list(&v, &vec!["0.100".into(), "0.200".into()]),
        "file '/v/a.frames/1.jpg'\nduration 0.100\nfile '/v/a.frames/2.jpg'\nduration 0.200\nfile '/v/a.frames/2.jpg'\n"
    );
    assert_eq!(capture::video_saved(&v, "1.5"), "Video saved to /v/a.webm (2 frames, 1.5s)");
    assert_eq!(capture::video_kept(&v), "ffmpeg is not available, so the 2 frames were kept as JPEGs in /v/a.frames (frames.txt is an ffmpeg concat list)");
    assert!(st.video.is_none() && capture::no_frames(&v).is_none());
    assert!(st.start_video("s", "/v/c.webm", None).is_ok());
    let empty = st.stop_video().ok().unwrap();
    assert_eq!(capture::no_frames(&empty).as_deref(), Some("no frames were captured (the page did not repaint)"));
}

#[test]
fn tabs_are_listed_selected_and_closed() {
    let mut b = with_tabs(2);
    assert_eq!(b.state.tabs_list(), "- 0: (current) [t0](http://0/)\n- 1: [t1](http://1/)");
    assert_eq!(b.state.tab_select(1), Ok("s1".to_string()));
    assert_eq!(b.state.current, 1);
    assert_eq!(b.state.tab_select(2).unwrap_err(), "tab 2 does not exist (2 open)");
    assert_eq!(b.state.tab_close(None), Ok(("T1".to_string(), "s1".to_string())));
    assert_eq!(b.state.tab_close(Some(0)), Ok(("T0".to_string(), "s0".to_string())));
    assert_eq!(b.state.tab_close(Some(5)).unwrap_err(), "tab 5 does not exist");
    assert_eq!(State::new(None).tabs_list(), "No open tabs");
}

#[test]
fn the_history() {
    let h = j(r#"{"currentIndex":1,"entries":[{"id":10},{"id":11}]}"#);
    assert_eq!(go_back("s", &h).unwrap().params.to_text(), r#"{"entryId":10}"#);
    assert!(go_back("s", &j(r#"{"currentIndex":0,"entries":[{"id":10}]}"#)).is_none());
    assert!(go_back("s", &j("{}")).is_none());
}

#[test]
fn windows_are_fitted() {
    let mut b = with_tabs(2);
    let c = b.resize(800, 600);
    assert_eq!((c.len(), c[1].session.as_deref(), c[1].method.as_str()), (2, Some("s1"), "Emulation.setDeviceMetricsOverride"));
    assert_eq!(b.state.viewport, Some((800, 600)));
    let w = j(r#"{"windowId":3}"#);
    assert_eq!(b.fit_window(&w, 800, 600)[1].params.to_text(), r#"{"windowId":3,"bounds":{"width":800,"height":600}}"#);
    b.running = Some(Running { headless: false, profile: "p".into(), temp_profile: false, closed: false });
    let c = b.fit_window(&w, 800, 600);
    assert_eq!(c[0].params.to_text(), r#"{"windowId":3,"bounds":{"windowState":"normal"}}"#);
    assert_eq!(c[1].params.at("bounds").to_text(), r#"{"width":800,"height":687}"#);
}

#[test]
fn going_offline() {
    let mut b = with_tabs(1);
    let c = b.set_offline(true);
    assert!(b.state.offline);
    assert_eq!(c[0].params.to_text(), r#"{"offline":true,"latency":0,"downloadThroughput":-1,"uploadThroughput":-1}"#);
}

#[test]
fn routes_are_added_and_removed() {
    let mut st = State::new(None);
    assert_eq!(st.route_list(), "No active routes");
    add(&mut st, "**/a", Some(404), &[]);
    add(&mut st, "**/b", None, &["X: y"]);
    assert_eq!(st.route_list(), "- **/a => [404] mocked response\n- **/b => modified headers");
    add(&mut st, "**/a", Some(500), &[]);
    assert_eq!(st.route_list(), "- **/b => modified headers\n- **/a => [500] mocked response");
    assert_eq!(st.remove_routes(&some("**/a")), 1);
    assert_eq!(st.remove_routes(&some("**/a")), 0);
    assert_eq!(st.remove_routes(&None), 1);
    assert!(st.routes.is_empty());
}

#[test]
fn recordings() {
    let mut b = with_tabs(1);
    b.state.tabs[0].handoff_scripts.push("other".into());
    b.state.record_script_added("s0", "42");
    assert_eq!(b.state.tabs[0].handoff_scripts, vec!["other", "rec:42"]);
    assert_eq!(b.state.take_record_scripts("s0"), vec!["42"]);
    assert_eq!(b.state.tabs[0].handoff_scripts, vec!["other"]);
    assert!(b.state.take_record_scripts("zz").is_empty());
    assert_eq!(record_script("s").params.to_text(), r#"{"source":"__bmcp.setRecording(true)","worldName":"__bmcp"}"#);
}

#[test]
fn recorded_actions_become_code() {
    assert_eq!(recorded_code(&vec![]), "No actions were recorded");
    let v = vec![
        j(r#"{"action":"click","locator":"getByText('a')"}"#),
        j(r#"{"action":"fill","locator":"l","value":"x\"y"}"#),
        j(r#"{"action":"check","locator":"l"}"#),
        j(r#"{"action":"uncheck"}"#),
        j(r#"{"action":"selectOption","locator":"l","value":["a"]}"#),
        j(r#"{"action":"press","key":"Enter"}"#),
        j(r#"{"action":"scroll"}"#),
    ];
    assert_eq!(
        recorded_code(&v),
        "```js\nawait page.getByText('a').click();\nawait page.l.fill(\"x\\\"y\");\nawait page.l.check();\nawait page.locator('body').uncheck();\nawait page.l.selectOption([\"a\"]);\nawait page.keyboard.press(\"Enter\");\n// scroll\n```"
    );
}
