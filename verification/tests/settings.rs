use browser_mcp_rs::config::{list, parse_args, ArgStep, Config};
use browser_mcp_rs::install::{self, Product};
use browser_mcp_rs::launch::{self, launch_args, lock_holder, lock_pid, profile_dir, program, startup, Program};
use browser_mcp_rs::origin::{normalize_url, origin_blocked, origin_matches, origin_of};
use browser_mcp_rs::path;

fn args(v: &[&str]) -> Vec<String> {
    v.iter().map(|s| s.to_string()).collect()
}

fn cfg() -> Config {
    Config::new(None, "/tmp")
}

fn run(v: &[&str]) -> Config {
    match parse_args(&args(v), 0, cfg()) {
        ArgStep::Run(c) => c,
        ArgStep::Fail(e) => panic!("{}", e.message()),
        _ => panic!("another step"),
    }
}

fn refusal(v: &[&str]) -> String {
    match parse_args(&args(v), 0, cfg()) {
        ArgStep::Fail(e) => e.message(),
        _ => panic!("no refusal"),
    }
}

#[test]
fn default_settings() {
    let c = run(&[]);
    assert!(c.headless && !c.isolated);
    assert_eq!(c.output_dir, "/tmp/browser-mcp-rs");
    assert_eq!((c.timeout_action, c.timeout_navigation, c.timeout_settle), (5000, 60000, 500));
    assert_eq!((c.snapshot_mode.as_str(), c.snapshot_max_chars), ("incremental", 50000));
    assert_eq!(c.test_id_attribute, "data-testid");
}

#[test]
fn options_set_the_settings() {
    let c = run(&[
        "--headed", "--caps=vision, pdf", "--capabilities", "pdf;network", "--viewport-size", "1280x720", "--user-agent=a=b",
        "--allowed-origins", "a.com;b.com", "--blocked-origins=c.com", "--timeout-action", "7", "--snapshot-mode", "full",
        "--snapshot-max-chars", "0", "--isolated", "--proxy-server", "p", "--proxy-bypass", "q", "--ignore-https-errors",
        "--block-service-workers", "--output-dir", "/out", "--test-id-attribute", "data-x", "--browser", "chrome",
        "--storage-state", "s.json", "--user-data-dir", "/u", "--executable-path", "/e", "--timeout-navigation=8", "--timeout-settle=9",
    ]);
    assert!(!c.headless && c.isolated && c.ignore_https_errors && c.block_service_workers);
    assert!(c.has_cap("vision") && c.has_cap("pdf") && c.has_cap("network") && !c.has_cap("storage"));
    assert_eq!(c.caps, vec!["vision", "pdf", "network"]);
    assert_eq!(c.viewport, Some((1280, 720)));
    assert_eq!(c.user_agent.as_deref(), Some("a=b"));
    assert_eq!(c.allowed_origins, vec!["a.com", "b.com"]);
    assert_eq!(c.blocked_origins, vec!["c.com"]);
    assert_eq!((c.timeout_action, c.timeout_navigation, c.timeout_settle), (7, 8, 9));
    assert_eq!((c.snapshot_mode.as_str(), c.snapshot_max_chars), ("full", 0));
    assert_eq!((c.proxy_server.as_deref(), c.proxy_bypass.as_deref()), (Some("p"), Some("q")));
    assert_eq!((c.output_dir.as_str(), c.test_id_attribute.as_str()), ("/out", "data-x"));
    assert_eq!((c.storage_state.as_deref(), c.user_data_dir.as_deref(), c.executable.as_deref()), (Some("s.json"), Some("/u"), Some("/e")));
}

#[test]
fn an_inline_value_is_the_next_argument() {
    assert_eq!(run(&["--output-dir=/a=b"]).output_dir, run(&["--output-dir", "/a=b"]).output_dir);
}

#[test]
fn refused_options() {
    assert_eq!(refusal(&["--caps"]), "--caps needs a value");
    assert_eq!(refusal(&["--viewport-size", "1280"]), "--viewport-size must look like 1280x720");
    assert_eq!(refusal(&["--snapshot-mode", "some"]), "--snapshot-mode must be incremental, full or none");
    assert_eq!(refusal(&["--browser=firefox"]), "only chromium is supported");
    assert_eq!(refusal(&["--nope"]), "unknown option --nope; see --help");
    assert!(refusal(&["--timeout-action", "soon"]).starts_with("--timeout-action: not a number"));
    assert!(refusal(&["--snapshot-max-chars", "-1"]).starts_with("--snapshot-max-chars: not a number"));
    assert_eq!(refusal(&["--viewport-size", "ax720"]), "a".parse::<u32>().unwrap_err().to_string());
    assert_eq!(refusal(&["--viewport-size", "1x"]), "".parse::<u32>().unwrap_err().to_string());
}

#[test]
fn steps_of_the_command_line() {
    assert!(matches!(parse_args(&args(&["install"]), 0, cfg()), ArgStep::Install));
    assert!(matches!(parse_args(&args(&["-h"]), 0, cfg()), ArgStep::Help));
    assert!(matches!(parse_args(&args(&["--version"]), 0, cfg()), ArgStep::Version));
    match parse_args(&args(&["--headed", "--init-script", "x.js", "--isolated"]), 0, cfg()) {
        ArgStep::Read { path, next, cfg } => {
            assert_eq!((path.as_str(), next, cfg.headless, cfg.isolated), ("x.js", 3, false, false));
            assert!(matches!(parse_args(&args(&["--headed", "--init-script", "x.js", "--isolated"]), next, cfg), ArgStep::Run(c) if c.isolated));
        }
        _ => panic!("no script is read"),
    }
}

#[test]
fn lists_leave_blanks_out() {
    assert_eq!(list(" a ;, b,"), vec!["a", "b"]);
}

#[test]
fn urls_are_completed() {
    assert_eq!(normalize_url(" example.com "), "https://example.com");
    assert_eq!(normalize_url("localhost:3000"), "http://localhost:3000");
    assert_eq!(normalize_url("127.0.0.1/x"), "http://127.0.0.1/x");
    assert_eq!(normalize_url("[::1]"), "http://[::1]");
    assert_eq!(normalize_url("about:blank"), "about:blank");
    assert_eq!(normalize_url("ftp://x"), "ftp://x");
    assert_eq!(normalize_url(&normalize_url("example.com")), "https://example.com");
}

#[test]
fn origins() {
    assert_eq!(origin_of("https://a.com:8080/x?y#z").as_deref(), Some("https://a.com:8080"));
    assert_eq!(origin_of("https://a.com?x").as_deref(), Some("https://a.com"));
    assert_eq!(origin_of("about:blank"), None);
    assert!(origin_matches("https://a.com", "https://a.com/"));
    assert!(!origin_matches("https://a.com:8080", "https://a.com"));
    assert!(origin_matches("https://sub.a.com:8080", "a.com"));
    assert!(!origin_matches("https://xa.com", "a.com"));
}

#[test]
fn origins_that_are_let_through() {
    let mut c = cfg();
    assert_eq!(origin_blocked("https://a.com/", &c), None);
    c.allowed_origins = args(&["a.com", "b.com"]);
    c.blocked_origins = args(&["b.com"]);
    assert_eq!(origin_blocked("https://a.com/", &c), None);
    assert_eq!(origin_blocked("https://b.com/", &c).as_deref(), Some("access to https://b.com is blocked by --blocked-origins"));
    assert_eq!(origin_blocked("https://c.com/", &c).as_deref(), Some("access to https://c.com is not in --allowed-origins"));
    assert_eq!(origin_blocked("ftp://c.com/", &c), None);
    assert_eq!(origin_blocked("about:blank", &c), None);
}

#[test]
fn paths() {
    assert_eq!(path::join("/a", "b"), "/a/b");
    assert_eq!(path::join("/a/", "b"), "/a/b");
    assert_eq!(path::join("/a", "/b"), "/b");
    assert_eq!(path::with_extension("/v/video.webm", "frames"), "/v/video.frames");
    assert_eq!(path::with_extension("/v/video", "chapters.txt"), "/v/video.chapters.txt");
    assert_eq!(path::unique_path("/d/f.tar.gz", &vec![]), "/d/f.tar.gz");
    assert_eq!(path::unique_path("/d/f.tar.gz", &args(&["/d/f.tar.gz", "/d/f.tar (1).gz"])), "/d/f.tar (2).gz");
    assert_eq!(path::unique_path("/d/noext", &args(&["/d/noext"])), "/d/noext (1)");
    assert_eq!(path::unique_path("/d/.hidden", &args(&["/d/.hidden"])), "/d/.hidden (1)");
}

#[test]
fn builds() {
    assert_eq!(install::platform("linux", "x86_64"), Ok("linux64"));
    assert_eq!(install::platform("macos", "aarch64"), Ok("mac-arm64"));
    assert_eq!(install::platform("plan9", "mips").unwrap_err(), "no bundled Chromium for plan9/mips; pass --executable-path");
    let none = None;
    let home = Some("/home/me".to_string());
    assert_eq!(install::cache_root(&Some("/c".into()), &home, &none, false), "/c");
    assert_eq!(install::cache_root(&none, &home, &none, false), "/home/me/.cache/browser-mcp-rs");
    assert_eq!(install::cache_root(&none, &home, &Some("/x".into()), false), "/x/browser-mcp-rs");
    assert_eq!(install::cache_root(&none, &home, &Some("/x".into()), true), "/home/me/Library/Caches/browser-mcp-rs");
    assert_eq!(install::cache_root(&none, &none, &none, false), "./.cache/browser-mcp-rs");
    assert_eq!(install::folder(Product::HeadlessShell, "linux64"), "chrome-headless-shell-linux64");
    assert_eq!(install::executable_in("/r", Product::HeadlessShell, "linux64"), "/r/chrome-headless-shell-linux64/chrome-headless-shell");
    assert_eq!(install::executable_in("/r", Product::Chrome, "linux64"), "/r/chrome-linux64/chrome");
    assert_eq!(
        install::executable_in("/r", Product::Chrome, "mac-x64"),
        "/r/chrome-mac-x64/Google Chrome for Testing.app/Contents/MacOS/Google Chrome for Testing"
    );
    assert_eq!(
        install::download_url(Product::Chrome, "linux64"),
        "https://storage.googleapis.com/chrome-for-testing-public/153.0.8010.36/linux64/chrome-linux64.zip"
    );
    assert_eq!(install::version_dir("/c"), "/c/chromium/153.0.8010.36");
    assert_eq!(install::staging("/d", 7, 99).zip, "/d/.download-7-99.zip");
    assert_eq!(install::staging("/d", 7, 99).dir, "/d/.staging-7-99");
    assert_eq!(install::progress(25, 100, 10), Some(25));
    assert_eq!(install::progress(19, 100, 10), None);
    assert_eq!(install::progress(5, 0, 0), None);
    assert_eq!(install::installed(Product::Chrome, "/p", true), "Chrome 153.0.8010.36 is installed at /p");
    assert_eq!(install::installed(Product::HeadlessShell, "/p", false), "HeadlessShell 153.0.8010.36 installed at /p");
}

#[test]
fn arguments_of_the_browser() {
    let mut c = cfg();
    c.user_agent = Some("ua".into());
    c.proxy_server = Some("p".into());
    c.proxy_bypass = Some("b".into());
    c.ignore_https_errors = true;
    let a = launch_args(&c, "/prof", true);
    assert_eq!(a[0], "--remote-debugging-pipe");
    assert_eq!(a[1], "--user-data-dir=/prof");
    assert!(a.contains(&"--window-size=1280,800".to_string()));
    assert!(a.contains(&"--headless".to_string()));
    let n = a.len();
    assert_eq!(a[n - 5..], args(&["--user-agent=ua", "--proxy-server=p", "--proxy-bypass-list=b", "--ignore-certificate-errors", "about:blank"])[..]);
    c.viewport = Some((640, 480));
    let b = launch_args(&c, "/prof", false);
    assert!(b.contains(&"--window-size=640,567".to_string()));
    assert!(!b.contains(&"--headless".to_string()));
}

#[test]
fn what_is_launched() {
    let mut c = cfg();
    assert!(matches!(program(&c, true), Program::Bundled(Product::HeadlessShell)));
    assert!(matches!(program(&c, false), Program::Bundled(Product::Chrome)));
    c.executable = Some("/usr/bin/chromium".into());
    assert!(matches!(program(&c, true), Program::Own(p) if p == "/usr/bin/chromium"));
    assert!(matches!(program(&c, false), Program::Own(p) if p == "/usr/bin/chromium"));
    let r = launch::launched(true, launch::Profile { dir: "/p".into(), temp: true });
    assert_eq!(launch::startup_error(true, "e"), "browser did not start: e");
    assert_eq!(launch::startup_error(false, "e"), "e");
    assert!(r.headless && r.temp_profile && !r.closed && r.profile == "/p");
}

#[test]
fn profiles() {
    let mut c = cfg();
    let p = profile_dir(&c, "/cache", "/tmp", 5, None).ok().unwrap();
    assert_eq!((p.dir.as_str(), p.temp), ("/cache/profile", false));
    let p = profile_dir(&c, "/cache", "/tmp", 5, Some(9)).ok().unwrap();
    assert_eq!((p.dir.as_str(), p.temp), ("/tmp/browser-mcp-rs-profile-5", true));
    c.user_data_dir = Some("/mine".into());
    assert_eq!(profile_dir(&c, "/cache", "/tmp", 5, Some(9)).err().unwrap(), "profile /mine is in use by another browser (pid 9)");
    c.isolated = true;
    assert!(profile_dir(&c, "/cache", "/tmp", 5, Some(9)).ok().unwrap().temp);
    assert_eq!(lock_pid("host-name-1234"), 1234);
    assert_eq!(lock_pid("host"), 0);
    assert_eq!(lock_pid("host-99999999999"), 0);
    assert_eq!(lock_holder("host-12", None), Some(12));
    assert_eq!(lock_holder("host-12", Some(12)), None);
    assert_eq!(lock_holder("host-12", Some(13)), Some(12));
    assert_eq!(lock_holder("host-0", None), None);
}

#[test]
fn commands_at_the_start() {
    let v = startup("/dl");
    let m: Vec<&str> = v.iter().map(|c| c.method.as_str()).collect();
    assert_eq!(m, vec!["Target.setDiscoverTargets", "Target.setAutoAttach", "Browser.setDownloadBehavior"]);
    assert_eq!(v[2].params.at("downloadPath").text(), "/dl");
    assert_eq!(launch::downloads_dir(&cfg()), "/tmp/browser-mcp-rs/downloads");
}
