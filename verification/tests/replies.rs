use browser_mcp_rs::browser::Browser;
use browser_mcp_rs::config::Config;
use browser_mcp_rs::json::Json;
use browser_mcp_rs::network::{self, Filter};
use browser_mcp_rs::reply::{self, Reply, Saved, Shown, SnapshotMode};
use browser_mcp_rs::state::{ConsoleMsg, Dialog, Request, State, Tab};

fn cfg() -> Config {
    Config::new(None, "/tmp")
}

fn some(s: &str) -> Option<String> {
    Some(s.to_string())
}

fn one_tab() -> State {
    let mut st = Browser::new(cfg()).state;
    st.tabs.push(Tab::new("T".into(), "s".into(), "http://a/".into(), "A".into()));
    st
}

fn msg(level: &'static str, text: &str) -> ConsoleMsg {
    ConsoleMsg { level, text: text.into(), location: String::new() }
}

fn request(url: &str, kind: &str, status: Option<i64>) -> Request {
    Request {
        id: url.into(),
        method: "GET".into(),
        url: url.into(),
        resource_type: kind.into(),
        request_headers: Json::obj().with("a", Json::str("1")).with("b", Json::num(2)),
        post_data: None,
        status,
        status_text: "OK".into(),
        response_headers: Json::obj().with("c", Json::str("3")),
        mime: "text/html".into(),
        failure: None,
        finished: true,
        from_route: false,
    }
}

#[test]
fn a_reply_with_the_state_of_the_page() {
    let mut st = one_tab();
    let r = reply::finish(&mut st, &Reply::text("done".into()), &some("s"), &None);
    assert_eq!(r.text, "### Result\ndone\n### Page\n- Page URL: http://a/\n- Page Title: A");
    assert!(!r.error);
}

#[test]
fn a_plain_reply_and_an_error() {
    let mut st = one_tab();
    assert_eq!(reply::finish(&mut st, &Reply::raw("x".into()), &None, &None).text, "### Result\nx");
    let r = reply::finish(&mut st, &Reply::error("bad".into()), &None, &None);
    assert_eq!((r.text.as_str(), r.error), ("### Error\nbad", true));
}

#[test]
fn notices_are_told_once() {
    let mut st = one_tab();
    st.notices.push("n1".into());
    let r = reply::finish(&mut st, &Reply::text("x".into()), &some("s"), &None);
    assert!(r.text.contains("### Events\n- n1\n### Page"));
    let r = reply::finish(&mut st, &Reply::text("x".into()), &some("s"), &None);
    assert!(!r.text.contains("### Events"));
}

#[test]
fn new_messages_are_counted_once() {
    let mut st = one_tab();
    st.tabs[0].console = vec![msg("error", "e"), msg("warning", "w"), msg("info", "i"), msg("error", "Failed to load resource: x")];
    let r = reply::finish(&mut st, &Reply::text("x".into()), &some("s"), &None);
    assert!(r.text.contains("- Console: 1 new error(s), 1 warning(s) (browser_console_messages)"));
    let r = reply::finish(&mut st, &Reply::text("x".into()), &some("s"), &None);
    assert!(!r.text.contains("Console"));
}

#[test]
fn tabs_and_modal_states() {
    let mut st = one_tab();
    st.tabs.push(Tab::new("U".into(), "t".into(), "http://b/".into(), "B".into()));
    st.tabs[0].file_chooser = Some((1, "selectSingle".into()));
    let r = reply::finish(&mut st, &Reply::text("x".into()), &some("s"), &some("### Snapshot\nS\n"));
    assert!(r.text.contains("- Tabs: 2 open, current is 0\n"));
    assert!(r.text.ends_with("### Modal state\n- [File chooser]: can be handled by browser_file_upload\n### Snapshot\nS"));
    st.tabs[0].dialog = Some(Dialog { kind: "alert".into(), message: "m".into(), default_prompt: String::new() });
    let r = reply::finish(&mut st, &Reply::text("x".into()), &some("s"), &None);
    assert!(r.text.ends_with("### Modal state\n- [\"alert\" dialog with message \"m\"]: can be handled by browser_handle_dialog"));
}

#[test]
fn a_reply_for_a_tab_that_went_away() {
    let mut st = one_tab();
    st.notices.push("n".into());
    let mut r = Reply::error("bad".into());
    r.images.push((vec![1], "image/png"));
    let out = reply::finish(&mut st, &r, &some("zz"), &some("### Snapshot\n"));
    assert_eq!((out.text.as_str(), out.error, out.images.len()), ("### Error\nbad\n", false, 0));
    assert!(st.notices.is_empty());
}

#[test]
fn pictures_are_encoded() {
    let mut st = one_tab();
    let mut r = Reply::raw("x".into());
    r.images.push((b"hi".to_vec(), "image/png"));
    assert_eq!(reply::finish(&mut st, &r, &None, &None).images, vec![("aGk=".to_string(), "image/png")]);
}

#[test]
fn long_snapshots_are_cut_at_a_line() {
    let path = Saved::Path("/f".into());
    assert_eq!(reply::snapshot_block_capped("- a\n- b", 0, &path), "```yaml\n- a\n- b\n```");
    assert_eq!(reply::snapshot_block_capped("- a\n- b", 7, &path), "```yaml\n- a\n- b\n```");
    assert_eq!(
        reply::snapshot_block_capped("- a\n- b", 6, &path),
        "```yaml\n- a\n```\nTruncated: showing 3 of 7 chars; the full snapshot is in /f. Use browser_find to locate elements, or browser_snapshot with target/depth for one part of the page."
    );
    let failed = Saved::Failed("e".into());
    assert_eq!(reply::snapshot_block_capped("ééé", 3, &failed), "```yaml\nééé\n```");
    assert!(reply::snapshot_block_capped("éé", 1, &failed).starts_with("```yaml\né\n```\nTruncated: showing 1 of 2 chars; saving the full snapshot failed: e."));
    assert!(reply::snapshot_block_capped("é\né", 2, &failed).starts_with("```yaml\né\n```\nTruncated: showing 1 of 3 chars; "));
    assert!(!reply::is_too_long("ééé", 3) && reply::is_too_long("ééé", 2));
    assert!(reply::is_too_long("abc", 2) && !reply::is_too_long("abc", 3) && !reply::is_too_long("abc", 0));
}

#[test]
fn snapshots_that_are_asked_for() {
    let c = cfg();
    let m = |s: &str| reply::snapshot_mode(&some(s), &c);
    assert!(m("none") == SnapshotMode::Nothing && m("off") == SnapshotMode::Nothing && m("false") == SnapshotMode::Nothing);
    assert!(m("full") == SnapshotMode::Full && m("main") == SnapshotMode::Main && m("diff") == SnapshotMode::Diff);
    assert!(reply::snapshot_mode(&None, &c) == SnapshotMode::Diff);
    let action = Reply::action("x".into());
    assert!(reply::tells_of_page(&action, true) && !reply::tells_of_page(&action, false));
    assert!(!reply::tells_of_page(&Reply::raw("x".into()), true));
    assert!(reply::takes_snapshot(&action, SnapshotMode::Diff, false));
    assert!(!reply::takes_snapshot(&action, SnapshotMode::Diff, true));
    assert!(!reply::takes_snapshot(&action, SnapshotMode::Nothing, false));
    assert!(!reply::takes_snapshot(&Reply::text("x".into()), SnapshotMode::Diff, false));
}

#[test]
fn what_is_captured_and_kept() {
    let main = some("main, [role=main], article");
    assert_eq!(reply::snapshot_targets(SnapshotMode::Main), vec![main, None]);
    assert_eq!(reply::snapshot_targets(SnapshotMode::Diff), vec![None]);
    let mut st = one_tab();
    st.keep_snapshot("s", SnapshotMode::Main, "- part".into());
    assert_eq!(st.tabs[0].last_snapshot, None);
    st.keep_snapshot("s", SnapshotMode::Full, "- a".into());
    assert_eq!(st.tabs[0].last_snapshot.as_deref(), Some("- a"));
    st.keep_snapshot("s", SnapshotMode::Main, "- part".into());
    assert_eq!(st.tabs[0].last_snapshot.as_deref(), Some("- a"));
}

#[test]
fn what_a_reply_shows_of_a_snapshot() {
    let mut c = cfg();
    let prev = some("- a\n- b\n- c");
    assert!(matches!(reply::plan_snapshot(SnapshotMode::Diff, &prev, "- a\n- b\n- c", &c), Some(Shown::NoChanges)));
    assert!(matches!(reply::plan_snapshot(SnapshotMode::Diff, &prev, "- a\n- b\n- d", &c), Some(Shown::Changes(d)) if d == "- d"));
    assert!(matches!(reply::plan_snapshot(SnapshotMode::Diff, &None, "- a", &c), Some(Shown::Whole(16000))));
    assert!(matches!(reply::plan_snapshot(SnapshotMode::Main, &prev, "- a", &c), Some(Shown::Whole(16000))));
    assert!(matches!(reply::plan_snapshot(SnapshotMode::Full, &prev, "- a", &c), Some(Shown::Whole(50000))));
    c.snapshot_max_chars = 100;
    assert!(matches!(reply::show(SnapshotMode::Diff, None, &c), Shown::Whole(100)));
    c.snapshot_max_chars = 0;
    assert!(matches!(reply::show(SnapshotMode::Diff, None, &c), Shown::Whole(16000)));
    let saved = Saved::Path(String::new());
    assert_eq!(reply::snapshot_section(&Shown::NoChanges, "x", &saved), "### Snapshot\nNo changes since the last snapshot.\n");
    assert_eq!(reply::snapshot_section(&Shown::Changes("- d".into()), "x", &saved), "### Snapshot (changes)\n```yaml\n- d\n```\n");
    assert_eq!(reply::snapshot_section(&Shown::Whole(9), "- x", &saved), "### Snapshot\n```yaml\n- x\n```\n");
    assert_eq!(reply::failed_section("e"), "### Snapshot\nCould not capture a snapshot: e\n");
}

#[test]
fn console_logs() {
    let mut st = one_tab();
    let t = &mut st.tabs[0];
    assert_eq!(t.console_text("debug", true), "No console messages");
    t.console = vec![msg("error", "old"), msg("warning", "w"), msg("info", "i"), msg("debug", "d")];
    t.console[1].location = "u:1".into();
    t.console_nav_start = 1;
    assert_eq!(t.console_text("info", false), "[WARNING] w @ u:1\n[INFO] i");
    assert_eq!(t.console_text("error", true), "[ERROR] old");
    assert_eq!(t.console_text("debug", true), "[ERROR] old\n[WARNING] w @ u:1\n[INFO] i\n[DEBUG] d");
}

#[test]
fn network_logs() {
    let mut st = one_tab();
    let t = &mut st.tabs[0];
    let all = Filter { include_static: true, failed: false };
    let some_of = Filter { include_static: false, failed: false };
    let failed = Filter { include_static: true, failed: true };
    assert_eq!(t.network_text(&all, &None), Ok("No network requests".to_string()));
    t.requests = vec![request("http://old", "Document", Some(200)), request("http://a", "Document", Some(200)), request("http://b.png", "Image", Some(200)), request("http://c.js", "Script", Some(404))];
    t.requests.push(request("http://d", "XHR", None));
    t.requests[4].failure = Some("net::ERR".into());
    t.requests[1].from_route = true;
    t.requests_nav_start = 1;
    assert_eq!(
        t.network_text(&some_of, &None).unwrap(),
        "1. [GET] http://a => [200] OK (mocked)\n3. [GET] http://c.js => [404] OK\n4. [GET] http://d => [FAILED] net::ERR"
    );
    assert_eq!(t.network_text(&all, &some("png$")).unwrap(), "2. [GET] http://b.png => [200] OK");
    assert_eq!(t.network_text(&failed, &None).unwrap(), "3. [GET] http://c.js => [404] OK\n4. [GET] http://d => [FAILED] net::ERR");
    assert!(t.network_text(&all, &some("(")).unwrap_err().starts_with("invalid filter regex: "));
    assert_eq!(
        t.network_list(&all, &vec![false, true, false, true]),
        "2. [GET] http://b.png => [200] OK\n4. [GET] http://d => [FAILED] net::ERR"
    );
    assert_eq!(t.network_list(&some_of, &vec![false, true, false, false]), "No network requests");
    assert_eq!(t.request_at(2).unwrap().url, "http://b.png");
    assert_eq!(t.request_at(4).unwrap().url, "http://d");
    assert_eq!(t.request_at(0).unwrap().url, "http://a");
    assert!(t.request_at(5).is_none());
}

#[test]
fn one_request_in_full() {
    let r = request("http://a", "XHR", Some(200));
    assert_eq!(
        network::network_request(&r, "in".into(), "out".into(), &None),
        "#### request-headers\nGET http://a\na: 1\nb: \n\n#### request-body\nin\n\n#### response-headers\n200 OK\nc: 3\n\n#### response-body\nout"
    );
    assert_eq!(network::network_request(&r, "in".into(), "out".into(), &some("request-body")), "#### request-body\nin");
    assert_eq!(network::network_request(&r, "in".into(), "out".into(), &some("nothing")), "");
    assert!(!network::wants_request_body(&r));
    let mut p = request("http://a", "XHR", None);
    p.method = "POST".into();
    assert!(network::wants_request_body(&p));
    assert!(network::wants_response_body(&r, &None) && network::wants_response_body(&r, &some("response-body")));
    assert!(!network::wants_response_body(&r, &some("request-body")));
    p.finished = false;
    assert!(!network::wants_response_body(&p, &None));
    assert!(network::network_request(&p, String::new(), String::new(), &some("response-headers")).starts_with("#### response-headers\npending OK"));
}

#[test]
fn bodies_of_responses() {
    let plain = Ok(Json::obj().with("body", Json::str("text")));
    assert_eq!(network::response_body(&plain, "text/html"), "text");
    let binary = Ok(Json::obj().with("body", Json::str("aGk=")).with("base64Encoded", Json::Bool(true)));
    assert_eq!(network::response_body(&binary, "image/png"), "<binary, 2 bytes, image/png>");
    assert_eq!(network::response_body(&Err("gone".to_string()), "x"), "<unavailable: gone>");
}
