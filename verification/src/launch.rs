//! Launching the browser: its command line and profile, the commands at the start, and what a new
//! session is prepared with.

use crate::browser::Browser;
use crate::browser::Running;
use crate::browser::RunningV;
use crate::cdp;
use crate::cdp::Command;
use crate::cdp::CommandV;
use crate::config::Config;
use crate::config::ConfigV;
use crate::install;
use crate::install::Product;
use crate::json::Json;
use crate::json::JsonV;
use crate::page_events::WORLD;
use crate::path;
use crate::state::State;
use crate::state::StateV;
use crate::state::Tab;
use crate::state::TabV;
use crate::text;
use crate::text::Text;
use vstd::prelude::*;

verus! {

// ---------------------------------------------------------------------- command line

/// What every launch says.
pub open spec fn fixed_args() -> Seq<Text> {
    seq![
        "--no-first-run"@,
        "--no-default-browser-check"@,
        "--disable-background-networking"@,
        "--disable-background-timer-throttling"@,
        "--disable-backgrounding-occluded-windows"@,
        "--disable-renderer-backgrounding"@,
        "--disable-breakpad"@,
        "--disable-back-forward-cache"@,
        "--disable-component-extensions-with-background-pages"@,
        "--disable-field-trial-config"@,
        "--disable-updater-scheduler"@,
        "--allow-pre-commit-input"@,
        "--force-color-profile=srgb"@,
        "--disable-infobars"@,
        "--disable-client-side-phishing-detection"@,
        "--disable-component-update"@,
        "--disable-default-apps"@,
        "--disable-dev-shm-usage"@,
        "--disable-extensions"@,
        "--disable-hang-monitor"@,
        "--disable-ipc-flooding-protection"@,
        "--disable-popup-blocking"@,
        "--disable-prompt-on-repost"@,
        "--disable-sync"@,
        "--disable-search-engine-choice-screen"@,
        "--disable-blink-features=AutomationControlled"@,
        "--disable-features=Translate,OptimizationHints,MediaRouter,DialMediaRouteProvider,AutofillServerCommunication,CertificateTransparencyComponentUpdater,InterestFeedContentSuggestions,PrivacySandboxSettings4,AcceptCHFrame,LensOverlay"@,
        "--metrics-recording-only"@,
        "--password-store=basic"@,
        "--use-mock-keychain"@,
        "--no-service-autorun"@,
        "--export-tagged-pdf"@,
    ]
}

/// How much taller the window is than the page in it.
pub const CHROME_UI: u32 = 87;

/// The page's size where the settings give none.
pub const DEFAULT_WIDTH: u32 = 1280;

pub const DEFAULT_HEIGHT: u32 = 800;

/// The size of the page in the window.
pub open spec fn page_size(cfg: ConfigV) -> (u32, u32) {
    match cfg.viewport {
        Some(v) => v,
        None => (DEFAULT_WIDTH, DEFAULT_HEIGHT),
    }
}

/// The window's size: a visible one has the browser's controls above the page.
pub open spec fn window_arg(cfg: ConfigV, headless: bool) -> Text {
    let (w, h) = page_size(cfg);
    "--window-size="@ + text::dec(w as nat) + ","@ + text::dec(
        (if headless {
            h as int
        } else {
            h + CHROME_UI
        }) as nat,
    )
}

/// An option where there is a value for it.
pub open spec fn option_arg(name: Text, value: Option<Text>) -> Seq<Text> {
    match value {
        Some(v) => seq![name + v],
        None => Seq::empty(),
    }
}

/// The arguments of a launch.
pub open spec fn launch_line(cfg: ConfigV, profile: Text, headless: bool) -> Seq<Text> {
    seq!["--remote-debugging-pipe"@, "--user-data-dir="@ + profile] + fixed_args() + seq![window_arg(cfg, headless)] + (
    if headless {
        seq!["--headless"@, "--hide-scrollbars"@, "--mute-audio"@]
    } else {
        Seq::empty()
    }) + option_arg("--user-agent="@, cfg.user_agent) + option_arg("--proxy-server="@, cfg.proxy_server) + option_arg(
        "--proxy-bypass-list="@,
        cfg.proxy_bypass,
    ) + (if cfg.ignore_https_errors {
        seq!["--ignore-certificate-errors"@]
    } else {
        Seq::empty()
    }) + seq!["about:blank"@]
}

fn push_fixed(out: &mut Vec<String>)
    ensures
        text::views(final(out)@) == text::views(old(out)@) + fixed_args(),
{
    let ghost before = out@;
    out.push("--no-first-run".to_string());
    out.push("--no-default-browser-check".to_string());
    out.push("--disable-background-networking".to_string());
    out.push("--disable-background-timer-throttling".to_string());
    out.push("--disable-backgrounding-occluded-windows".to_string());
    out.push("--disable-renderer-backgrounding".to_string());
    out.push("--disable-breakpad".to_string());
    // Pages left behind by navigation would otherwise stay alive in the back/forward cache, and
    // component extensions run background workers nobody uses here.
    out.push("--disable-back-forward-cache".to_string());
    out.push("--disable-component-extensions-with-background-pages".to_string());
    out.push("--disable-field-trial-config".to_string());
    out.push("--disable-updater-scheduler".to_string());
    out.push("--allow-pre-commit-input".to_string());
    out.push("--force-color-profile=srgb".to_string());
    out.push("--disable-infobars".to_string());
    out.push("--disable-client-side-phishing-detection".to_string());
    out.push("--disable-component-update".to_string());
    out.push("--disable-default-apps".to_string());
    out.push("--disable-dev-shm-usage".to_string());
    out.push("--disable-extensions".to_string());
    out.push("--disable-hang-monitor".to_string());
    out.push("--disable-ipc-flooding-protection".to_string());
    out.push("--disable-popup-blocking".to_string());
    out.push("--disable-prompt-on-repost".to_string());
    out.push("--disable-sync".to_string());
    out.push("--disable-search-engine-choice-screen".to_string());
    out.push("--disable-blink-features=AutomationControlled".to_string());
    out.push(
        "--disable-features=Translate,OptimizationHints,MediaRouter,DialMediaRouteProvider,AutofillServerCommunication,CertificateTransparencyComponentUpdater,InterestFeedContentSuggestions,PrivacySandboxSettings4,AcceptCHFrame,LensOverlay".to_string(),
    );
    out.push("--metrics-recording-only".to_string());
    out.push("--password-store=basic".to_string());
    out.push("--use-mock-keychain".to_string());
    out.push("--no-service-autorun".to_string());
    out.push("--export-tagged-pdf".to_string());
    proof {
        assert(text::views(out@) =~= text::views(before) + fixed_args());
    }
}

fn push_option(out: &mut Vec<String>, name: &str, value: &Option<String>)
    ensures
        text::views(final(out)@) == text::views(old(out)@) + option_arg(name@, text::opt_text(*value)),
{
    let ghost before = out@;
    match value {
        Some(v) => {
            out.push(text::concat(name, v));
            proof {
                assert(text::views(out@) =~= text::views(before) + seq![name@ + v@]);
            }
        },
        None => {
            proof {
                assert(text::views(out@) =~= text::views(before) + Seq::<Text>::empty());
            }
        },
    }
}

/// The arguments of a launch with a profile.
pub fn launch_args(cfg: &Config, profile: &str, headless: bool) -> (r: Vec<String>)
    requires
        headless || page_size(cfg@).1 + CHROME_UI <= u32::MAX,
    ensures
        text::views(r@) == launch_line(cfg@, profile@, headless),
{
    let (w, h): (u32, u32) = match cfg.viewport {
        Some(v) => v,
        None => (DEFAULT_WIDTH, DEFAULT_HEIGHT),
    };
    let mut out: Vec<String> = Vec::new();
    out.push("--remote-debugging-pipe".to_string());
    out.push(text::concat("--user-data-dir=", profile));
    proof {
        assert(text::views(out@) =~= seq!["--remote-debugging-pipe"@, "--user-data-dir="@ + profile@]);
    }
    push_fixed(&mut out);
    let mut size = "--window-size=".to_string();
    size.append(&text::decimal(w as u128));
    size.append(",");
    let tall: u32 = if headless {
        h
    } else {
        h + CHROME_UI
    };
    size.append(&text::decimal(tall as u128));
    let ghost a = text::views(out@);
    out.push(size);
    proof {
        assert(text::views(out@) =~= a + seq![window_arg(cfg@, headless)]);
    }
    let ghost b = text::views(out@);
    if headless {
        out.push("--headless".to_string());
        out.push("--hide-scrollbars".to_string());
        out.push("--mute-audio".to_string());
    }
    proof {
        let more = if headless {
            seq!["--headless"@, "--hide-scrollbars"@, "--mute-audio"@]
        } else {
            Seq::<Text>::empty()
        };
        assert(text::views(out@) =~= b + more);
    }
    push_option(&mut out, "--user-agent=", &cfg.user_agent);
    push_option(&mut out, "--proxy-server=", &cfg.proxy_server);
    push_option(&mut out, "--proxy-bypass-list=", &cfg.proxy_bypass);
    let ghost c = text::views(out@);
    if cfg.ignore_https_errors {
        out.push("--ignore-certificate-errors".to_string());
    }
    let ghost more = if cfg.ignore_https_errors {
        seq!["--ignore-certificate-errors"@]
    } else {
        Seq::<Text>::empty()
    };
    proof {
        assert(text::views(out@) =~= c + more);
    }
    out.push("about:blank".to_string());
    proof {
        assert(text::views(out@) =~= c + more + seq!["about:blank"@]);
    }
    out
}

// ---------------------------------------------------------------------- profile

/// The number behind the last dash of a lock's target; 0 where there is none.
pub open spec fn pid_of(target: Text) -> int {
    let parts = text::pieces(target, "-"@);
    match text::number_value(parts.last()) {
        Some(n) if n <= i32::MAX => n as int,
        _ => 0,
    }
}

/// The process that a profile's lock names; 0 where it names none.
pub fn lock_pid(target: &str) -> (r: i32)
    ensures
        r == pid_of(target@),
        r >= 0,
{
    let parts = text::split_on(target, "-");
    proof {
        assert(text::views(parts@).last() == parts@[parts@.len() - 1]@);
    }
    match text::parse_number(&parts[parts.len() - 1], i32::MAX as u64) {
        Some(n) => n as i32,
        None => 0,
    }
}

/// The process to ask for when a profile's lock is there: the one that it names, unless it is the
/// browser's own.
pub fn lock_holder(target: &str, own: Option<i32>) -> (r: Option<i32>)
    ensures
        r == if pid_of(target@) > 0 && own != Some(pid_of(target@) as i32) {
            Some(pid_of(target@) as i32)
        } else {
            None
        },
{
    let pid: i32 = lock_pid(target);
    let ours = match own {
        Some(p) => p == pid,
        None => false,
    };
    if pid > 0 && !ours {
        Some(pid)
    } else {
        None
    }
}

/// The persistent profile of the settings.
pub open spec fn profile_path(cfg: ConfigV, cache_root: Text) -> Text {
    match cfg.user_data_dir {
        Some(d) => d,
        None => path::joined_path(cache_root, "profile"@),
    }
}

/// A throwaway profile of the process `pid`.
pub open spec fn temp_profile(temp_dir: Text, pid: nat) -> Text {
    path::joined_path(temp_dir, "browser-mcp-rs-profile-"@ + text::dec(pid))
}

pub fn persistent_profile(cfg: &Config, cache_root: &str) -> (r: String)
    ensures
        r@ == profile_path(cfg@, cache_root@),
{
    match &cfg.user_data_dir {
        Some(d) => d.clone(),
        None => path::join(cache_root, "profile"),
    }
}

/// A directory for the browser's profile.
pub struct Profile {
    pub dir: String,
    /// It is thrown away when the browser is closed.
    pub temp: bool,
}

/// The profile to launch with: the persistent one, unless another live browser holds it (then a
/// throwaway one). `holder` is the process that holds the persistent one, if a living one other than
/// our own browser does. A profile that was asked for by name is not replaced.
pub fn profile_dir(cfg: &Config, cache_root: &str, temp_dir: &str, pid: u32, holder: Option<i32>) -> (r: Result<
    Profile,
    String,
>)
    requires
        holder is Some ==> holder->0 > 0,
    ensures
        ({
            let dir = profile_path(cfg@, cache_root@);
            let temp = temp_profile(temp_dir@, pid as nat);
            if cfg@.isolated {
                r matches Ok(p) && p.dir@ == temp && p.temp
            } else {
                match holder {
                    None => r matches Ok(p) && p.dir@ == dir && !p.temp,
                    Some(h) => if cfg@.user_data_dir is Some {
                        r matches Err(e) && e@ == "profile "@ + dir + " is in use by another browser (pid "@
                            + text::dec_int(h as int) + ")"@
                    } else {
                        r matches Ok(p) && p.dir@ == temp && p.temp
                    },
                }
            }
        }),
{
    let temp = path::join(temp_dir, &text::concat("browser-mcp-rs-profile-", &text::decimal(pid as u128)));
    if cfg.isolated {
        return Ok(Profile { dir: temp, temp: true });
    }
    let dir = persistent_profile(cfg, cache_root);
    match holder {
        None => Ok(Profile { dir, temp: false }),
        Some(h) => {
            if cfg.user_data_dir.is_some() {
                let mut e = "profile ".to_string();
                e.append(&dir);
                e.append(" is in use by another browser (pid ");
                e.append(&text::decimal_int(h as i128));
                e.append(")");
                return Err(e);
            }
            Ok(Profile { dir: temp, temp: true })
        },
    }
}

// ---------------------------------------------------------------------- the first commands

/// What is sent to a browser that was launched.
pub open spec fn startup_commands(downloads: Text) -> Seq<CommandV> {
    seq![
        cdp::to_browser("Target.setDiscoverTargets"@, JsonV::obj().with("discover"@, JsonV::Bool(true))),
        cdp::to_browser(
            "Target.setAutoAttach"@,
            JsonV::obj().with("autoAttach"@, JsonV::Bool(true)).with("waitForDebuggerOnStart"@, JsonV::Bool(true)).with(
                "flatten"@,
                JsonV::Bool(true),
            ),
        ),
        cdp::to_browser(
            "Browser.setDownloadBehavior"@,
            JsonV::obj().with("behavior"@, JsonV::Str("allowAndName"@)).with("downloadPath"@, JsonV::Str(downloads)).with(
                "eventsEnabled"@,
                JsonV::Bool(true),
            ),
        ),
    ]
}

/// Where downloads go.
pub fn downloads_dir(cfg: &Config) -> (r: String)
    ensures
        r@ == path::joined_path(cfg@.output_dir, "downloads"@),
{
    path::join(&cfg.output_dir, "downloads")
}

pub fn startup(downloads: &str) -> (r: Vec<Command>)
    ensures
        text::views(r@) == startup_commands(downloads@),
{
    let mut out: Vec<Command> = Vec::new();
    out.push(Command::browser("Target.setDiscoverTargets", Json::obj().with("discover", Json::Bool(true))));
    out.push(
        Command::browser(
            "Target.setAutoAttach",
            Json::obj().with("autoAttach", Json::Bool(true)).with("waitForDebuggerOnStart", Json::Bool(true)).with(
                "flatten",
                Json::Bool(true),
            ),
        ),
    );
    out.push(
        Command::browser(
            "Browser.setDownloadBehavior",
            Json::obj().with("behavior", Json::str("allowAndName")).with("downloadPath", Json::str(downloads)).with(
                "eventsEnabled",
                Json::Bool(true),
            ),
        ),
    );
    proof {
        assert(text::views(out@) =~= startup_commands(downloads@));
    }
    out
}

/// Where waiting for the first tab has come to.
pub enum Startup {
    Ready,
    Wait,
    /// No tab came: open one.
    OpenTab,
    /// A tab came and did not become ready.
    Fail(String),
}

impl Browser {
    /// Whether the startup tab is attached and initialized. `late` tells that the time for it is
    /// over.
    pub fn started(&self, late: bool) -> (r: Startup)
        ensures
            if self@.state.tabs.len() > 0 && self@.state.tabs[0].ready {
                r is Ready
            } else if !late {
                r is Wait
            } else if self@.state.tabs.len() == 0 {
                r is OpenTab
            } else {
                r matches Startup::Fail(e) && e@ == "browser started but its first page never became ready"@
            },
    {
        if self.state.tabs.len() > 0 {
            proof {
                assert(self@.state.tabs[0] == self.state.tabs@[0]@);
            }
            if self.state.tabs[0].ready {
                return Startup::Ready;
            }
        }
        if !late {
            Startup::Wait
        } else if self.state.tabs.len() == 0 {
            Startup::OpenTab
        } else {
            Startup::Fail("browser started but its first page never became ready".to_string())
        }
    }
}

// ---------------------------------------------------------------------- preparing a session

/// Requests are held for routes or for lists of origins.
pub open spec fn intercepts(st: StateV, cfg: ConfigV) -> bool {
    st.routes.len() > 0 || cfg.allowed_origins.len() > 0 || cfg.blocked_origins.len() > 0
}

/// Every request is held before it is sent.
pub open spec fn fetch_all() -> JsonV {
    JsonV::obj().with(
        "patterns"@,
        JsonV::Arr(
            seq![
                JsonV::obj().with("urlPattern"@, JsonV::Str("*"@)).with("requestStage"@, JsonV::Str("Request"@)),
            ],
        ),
    )
}

fn fetch_patterns() -> (r: Json)
    ensures
        r@ == fetch_all(),
{
    Json::obj().with(
        "patterns",
        Json::one(Json::obj().with("urlPattern", Json::str("*")).with("requestStage", Json::str("Request"))),
    )
}

/// The page's size.
pub open spec fn metrics(w: u32, h: u32) -> JsonV {
    JsonV::obj().with("width"@, JsonV::Int(w as int)).with("height"@, JsonV::Int(h as int)).with(
        "deviceScaleFactor"@,
        JsonV::Int(0),
    ).with("mobile"@, JsonV::Bool(false))
}

pub fn device_metrics(w: u32, h: u32) -> (r: Json)
    ensures
        r@ == metrics(w, h),
{
    Json::obj().with("width", Json::num(w as i64)).with("height", Json::num(h as i64)).with(
        "deviceScaleFactor",
        Json::num(0),
    ).with("mobile", Json::Bool(false))
}

/// The network is there or is not.
pub open spec fn network_conditions(offline: bool) -> JsonV {
    JsonV::obj().with("offline"@, JsonV::Bool(offline)).with("latency"@, JsonV::Int(0)).with(
        "downloadThroughput"@,
        JsonV::Int(-1),
    ).with("uploadThroughput"@, JsonV::Int(-1))
}

pub fn emulated_network(offline: bool) -> (r: Json)
    ensures
        r@ == network_conditions(offline),
{
    Json::obj().with("offline", Json::Bool(offline)).with("latency", Json::num(0)).with(
        "downloadThroughput",
        Json::num(-1),
    ).with("uploadThroughput", Json::num(-1))
}

/// A script that runs in every document of a tab.
pub open spec fn own_script(session: Text, source: Text) -> CommandV {
    cdp::to_session(
        session,
        "Page.addScriptToEvaluateOnNewDocument"@,
        JsonV::obj().with("source"@, JsonV::Str(source)).with("runImmediately"@, JsonV::Bool(true)),
    )
}

/// A function that the injected runtime can call.
pub open spec fn binding(session: Text, name: Text) -> CommandV {
    cdp::to_session(
        session,
        "Runtime.addBinding"@,
        JsonV::obj().with("name"@, JsonV::Str(name)).with("executionContextName"@, JsonV::Str(WORLD@)),
    )
}

/// What every session is prepared with.
pub open spec fn base_commands(s: Text, injected: Text) -> Seq<CommandV> {
    seq![
        cdp::to_session(s, "Page.enable"@, JsonV::obj()),
        cdp::to_session(s, "Page.setLifecycleEventsEnabled"@, JsonV::obj().with("enabled"@, JsonV::Bool(true))),
        cdp::to_session(s, "Runtime.enable"@, JsonV::obj()),
        cdp::to_session(s, "Network.enable"@, JsonV::obj().with("maxPostDataSize"@, JsonV::Int(65536))),
        cdp::to_session(s, "Log.enable"@, JsonV::obj()),
        cdp::to_session(
            s,
            "Page.addScriptToEvaluateOnNewDocument"@,
            JsonV::obj().with("source"@, JsonV::Str(injected)).with("worldName"@, JsonV::Str(WORLD@)).with(
                "runImmediately"@,
                JsonV::Bool(true),
            ),
        ),
        binding(s, "__bmcpHandoff"@),
        binding(s, "__bmcpRecord"@),
        cdp::to_session(s, "Page.setInterceptFileChooserDialog"@, JsonV::obj().with("enabled"@, JsonV::Bool(true))),
    ]
}

/// One command where a condition holds.
pub open spec fn only_if(b: bool, c: CommandV) -> Seq<CommandV> {
    if b {
        seq![c]
    } else {
        Seq::empty()
    }
}

/// What a session is prepared with: the base, the user's scripts, and what the settings and the
/// state ask for.
pub open spec fn init_commands(s: Text, injected: Text, st: StateV, cfg: ConfigV) -> Seq<CommandV> {
    base_commands(s, injected) + cfg.init_scripts.map_values(|x: Text| own_script(s, x)) + (match st.viewport {
        Some((w, h)) => seq![cdp::to_session(s, "Emulation.setDeviceMetricsOverride"@, metrics(w, h))],
        None => Seq::empty(),
    }) + only_if(
        cfg.block_service_workers,
        cdp::to_session(s, "Network.setBypassServiceWorker"@, JsonV::obj().with("bypass"@, JsonV::Bool(true))),
    ) + only_if(intercepts(st, cfg), cdp::to_session(s, "Fetch.enable"@, fetch_all())) + only_if(
        st.offline,
        cdp::to_session(s, "Network.emulateNetworkConditions"@, network_conditions(true)),
    )
}

fn push_base(out: &mut Vec<Command>, s: &str, injected: &str)
    ensures
        text::views(final(out)@) == text::views(old(out)@) + base_commands(s@, injected@),
{
    let ghost before = out@;
    out.push(Command::session(s, "Page.enable", Json::obj()));
    out.push(Command::session(s, "Page.setLifecycleEventsEnabled", Json::obj().with("enabled", Json::Bool(true))));
    out.push(Command::session(s, "Runtime.enable", Json::obj()));
    out.push(Command::session(s, "Network.enable", Json::obj().with("maxPostDataSize", Json::num(65536))));
    out.push(Command::session(s, "Log.enable", Json::obj()));
    out.push(
        Command::session(
            s,
            "Page.addScriptToEvaluateOnNewDocument",
            Json::obj().with("source", Json::str(injected)).with("worldName", Json::str(WORLD)).with(
                "runImmediately",
                Json::Bool(true),
            ),
        ),
    );
    out.push(
        Command::session(
            s,
            "Runtime.addBinding",
            Json::obj().with("name", Json::str("__bmcpHandoff")).with("executionContextName", Json::str(WORLD)),
        ),
    );
    out.push(
        Command::session(
            s,
            "Runtime.addBinding",
            Json::obj().with("name", Json::str("__bmcpRecord")).with("executionContextName", Json::str(WORLD)),
        ),
    );
    out.push(Command::session(s, "Page.setInterceptFileChooserDialog", Json::obj().with("enabled", Json::Bool(true))));
    proof {
        assert(text::views(out@) =~= text::views(before) + base_commands(s@, injected@));
    }
}

fn push_if(out: &mut Vec<Command>, b: bool, c: Command)
    ensures
        text::views(final(out)@) == text::views(old(out)@) + only_if(b, c@),
{
    let ghost before = out@;
    if b {
        out.push(c);
        proof {
            assert(text::views(out@) =~= text::views(before) + seq![c@]);
        }
    } else {
        proof {
            assert(text::views(out@) =~= text::views(before) + Seq::<CommandV>::empty());
        }
    }
}

/// What the session of a new tab is prepared with; `injected` is the runtime that every document
/// gets.
pub fn init_session(session: &str, injected: &str, st: &State, cfg: &Config) -> (r: Vec<Command>)
    ensures
        text::views(r@) == init_commands(session@, injected@, st@, cfg@),
{
    let mut out: Vec<Command> = Vec::new();
    let ghost scripts = cfg@.init_scripts.map_values(|x: Text| own_script(session@, x));
    proof {
        assert(text::views(out@) =~= Seq::<CommandV>::empty());
    }
    push_base(&mut out, session, injected);
    let ghost base = text::views(out@);
    proof {
        assert(base =~= base_commands(session@, injected@));
        assert(base =~= base + scripts.take(0));
    }
    let mut i: usize = 0;
    while i < cfg.init_scripts.len()
        invariant
            i <= cfg.init_scripts@.len(),
            scripts == cfg@.init_scripts.map_values(|x: Text| own_script(session@, x)),
            text::views(out@) == base + scripts.take(i as int),
        decreases cfg.init_scripts@.len() - i,
    {
        let ghost before = out@;
        out.push(
            Command::session(
                session,
                "Page.addScriptToEvaluateOnNewDocument",
                Json::obj().with("source", Json::str(&cfg.init_scripts[i])).with("runImmediately", Json::Bool(true)),
            ),
        );
        proof {
            assert(scripts.take(i + 1) =~= scripts.take(i as int).push(
                own_script(session@, cfg.init_scripts@[i as int]@),
            ));
            assert(text::views(out@) =~= text::views(before).push(own_script(session@, cfg.init_scripts@[i as int]@)));
            assert(text::views(out@) =~= base + scripts.take(i + 1));
        }
        i = i + 1;
    }
    proof {
        assert(scripts.take(scripts.len() as int) =~= scripts);
    }
    let ghost a = text::views(out@);
    match st.viewport {
        Some((w, h)) => {
            out.push(Command::session(session, "Emulation.setDeviceMetricsOverride", device_metrics(w, h)));
            proof {
                assert(text::views(out@) =~= a + seq![
                    cdp::to_session(session@, "Emulation.setDeviceMetricsOverride"@, metrics(w, h)),
                ]);
            }
        },
        None => {
            proof {
                assert(text::views(out@) =~= a + Seq::<CommandV>::empty());
            }
        },
    }
    push_if(
        &mut out,
        cfg.block_service_workers,
        Command::session(session, "Network.setBypassServiceWorker", Json::obj().with("bypass", Json::Bool(true))),
    );
    let active = st.routes.len() > 0 || cfg.allowed_origins.len() > 0 || cfg.blocked_origins.len() > 0;
    push_if(&mut out, active, Command::session(session, "Fetch.enable", fetch_patterns()));
    push_if(
        &mut out,
        st.offline,
        Command::session(session, "Network.emulateNetworkConditions", emulated_network(true)),
    );
    out
}

/// A tab whose session is prepared; `tree` is the reply to the question for its frames.
pub open spec fn initialized(t: TabV, tree: Option<JsonV>) -> TabV {
    let f = match tree {
        Some(x) => x.at("frameTree"@).at("frame"@),
        None => JsonV::Null,
    };
    TabV {
        main_frame: if tree is Some && t.main_frame.len() == 0 {
            f.at("id"@).text()
        } else {
            t.main_frame
        },
        loader_id: if tree is Some && t.loader_id.len() == 0 {
            f.at("loaderId"@).text()
        } else {
            t.loader_id
        },
        ready: true,
        ..t
    }
}

fn finish_tab(t: &mut Tab, tree: &Option<Json>)
    ensures
        final(t)@ == initialized(
            old(t)@,
            match tree {
                Some(j) => Some(j@),
                None => None,
            },
        ),
{
    match tree {
        Some(x) => {
            let f = x.at("frameTree").at("frame");
            if t.main_frame.as_str().is_empty() {
                t.main_frame = f.at("id").text();
            }
            if t.loader_id.as_str().is_empty() {
                t.loader_id = f.at("loaderId").text();
            }
        },
        None => {},
    }
    t.ready = true;
}

impl State {
    /// The session of a tab is prepared.
    pub fn session_ready(&mut self, session: &str, tree: &Option<Json>)
        requires
            old(self).wf(),
        ensures
            final(self).wf(),
            final(self)@ == match old(self)@.tab_index(session@) {
                Some(i) => old(self)@.with_tab(
                    i,
                    initialized(
                        old(self)@.tabs[i],
                        match tree {
                            Some(j) => Some(j@),
                            None => None,
                        },
                    ),
                ),
                None => old(self)@,
            },
    {
        broadcast use text::group_views;
        let ghost before = self@;
        match self.tab_by_session(session) {
            Some(i) => {
                proof {
                    assert(before.tabs[i as int] == self.tabs@[i as int]@);
                    assert(before.tabs[i as int].wf());
                }
                finish_tab(&mut self.tabs[i], tree);
                proof {
                    crate::browser::lemma_tabs_wf(before, self@, i as int);
                }
            },
            None => {},
        }
    }
}

/// A command to every session.
pub open spec fn to_all(sessions: Seq<Text>, method: Text, params: JsonV) -> Seq<CommandV> {
    sessions.map_values(|s: Text| cdp::to_session(s, method, params))
}

pub fn command_all(sessions: &Vec<String>, method: &str, params: &Json) -> (r: Vec<Command>)
    ensures
        text::views(r@) == to_all(text::views(sessions@), method@, params@),
{
    let mut out: Vec<Command> = Vec::new();
    let mut i: usize = 0;
    while i < sessions.len()
        invariant
            i <= sessions@.len(),
            out@.len() == i,
            forall|k: int|
                0 <= k < i ==> (#[trigger] out@[k])@ == cdp::to_session(sessions@[k]@, method@, params@),
        decreases sessions@.len() - i,
    {
        out.push(Command::session(&sessions[i], method, params.clone()));
        i = i + 1;
    }
    proof {
        assert(text::views(out@) =~= to_all(text::views(sessions@), method@, params@));
    }
    out
}

impl Browser {
    /// Turns the holding of requests on or off in every tab, as routes and lists of origins ask.
    pub fn sync_fetch(&self) -> (r: Vec<Command>)
        ensures
            text::views(r@) == {
                let sessions = crate::state::session_ids(self@.state.tabs);
                if intercepts(self@.state, self@.cfg) {
                    to_all(sessions, "Fetch.enable"@, fetch_all())
                } else {
                    to_all(sessions, "Fetch.disable"@, JsonV::obj())
                }
            },
    {
        let sessions = self.state.sessions();
        if self.state.routes.len() > 0 || self.cfg.allowed_origins.len() > 0 || self.cfg.blocked_origins.len() > 0 {
            command_all(&sessions, "Fetch.enable", &fetch_patterns())
        } else {
            command_all(&sessions, "Fetch.disable", &Json::obj())
        }
    }
}

// ---------------------------------------------------------------------- what is launched

/// The program that a launch starts.
pub enum Program {
    /// The one of the settings.
    Own(String),
    /// A bundled build.
    Bundled(Product),
}

/// The program that a launch starts: the one of the settings, else the bundled build for the mode.
pub fn program(cfg: &Config, headless: bool) -> (r: Program)
    ensures
        match cfg@.executable {
            Some(e) => r matches Program::Own(p) && p@ == e,
            None => r matches Program::Bundled(b) && b == if headless {
                Product::HeadlessShell
            } else {
                Product::Chrome
            },
        },
{
    match &cfg.executable {
        Some(e) => Program::Own(e.clone()),
        None => Program::Bundled(install::product_for(headless)),
    }
}

/// What is said of a command at the start, the first or a later one, that failed.
pub fn startup_error(first: bool, e: &str) -> (r: String)
    ensures
        r@ == if first {
            "browser did not start: "@ + e@
        } else {
            e@
        },
{
    if first {
        text::concat("browser did not start: ", e)
    } else {
        e.to_string()
    }
}

/// A browser that was launched.
pub fn launched(headless: bool, profile: Profile) -> (r: Running)
    ensures
        r@ == (RunningV {
            headless,
            profile: profile.dir@,
            temp_profile: profile.temp,
            closed: false,
        }),
{
    Running { headless, profile: profile.dir, temp_profile: profile.temp, closed: false }
}

proof fn lemma_not_headless(t: Text)
    requires
        text::text_starts(t, "--user-data-dir="@) || text::text_starts(t, "--window-size="@) || text::text_starts(
            t,
            "--user-agent="@,
        ) || text::text_starts(t, "--proxy-server="@) || text::text_starts(t, "--proxy-bypass-list="@),
    ensures
        t != "--headless"@,
{
    reveal_strlit("--headless");
    reveal_strlit("--user-data-dir=");
    reveal_strlit("--window-size=");
    reveal_strlit("--user-agent=");
    reveal_strlit("--proxy-server=");
    reveal_strlit("--proxy-bypass-list=");
}

proof fn lemma_added<T>(a: Seq<T>, b: Seq<T>, x: T)
    ensures
        (a + b).contains(x) == (a.contains(x) || b.contains(x)),
{
    if a.contains(x) {
        let k = choose|k: int| 0 <= k < a.len() && a[k] == x;
        assert((a + b)[k] == x);
    }
    if b.contains(x) {
        let k = choose|k: int| 0 <= k < b.len() && b[k] == x;
        assert((a + b)[a.len() + k] == x);
    }
    if (a + b).contains(x) {
        let k = choose|k: int| 0 <= k < (a + b).len() && (a + b)[k] == x;
        if k < a.len() {
            assert(a[k] == x);
        } else {
            assert(b[k - a.len()] == x);
        }
    }
}

proof fn lemma_fixed_args()
    ensures
        !fixed_args().contains("--headless"@),
{
    reveal_strlit("--headless");
    reveal_strlit("--no-first-run");
    reveal_strlit("--no-default-browser-check");
    reveal_strlit("--disable-background-networking");
    reveal_strlit("--disable-background-timer-throttling");
    reveal_strlit("--disable-backgrounding-occluded-windows");
    reveal_strlit("--disable-renderer-backgrounding");
    reveal_strlit("--disable-breakpad");
    reveal_strlit("--disable-back-forward-cache");
    reveal_strlit("--disable-component-extensions-with-background-pages");
    reveal_strlit("--disable-field-trial-config");
    reveal_strlit("--disable-updater-scheduler");
    reveal_strlit("--allow-pre-commit-input");
    reveal_strlit("--force-color-profile=srgb");
    reveal_strlit("--disable-infobars");
    reveal_strlit("--disable-client-side-phishing-detection");
    reveal_strlit("--disable-component-update");
    reveal_strlit("--disable-default-apps");
    reveal_strlit("--disable-dev-shm-usage");
    reveal_strlit("--disable-extensions");
    reveal_strlit("--disable-hang-monitor");
    reveal_strlit("--disable-ipc-flooding-protection");
    reveal_strlit("--disable-popup-blocking");
    reveal_strlit("--disable-prompt-on-repost");
    reveal_strlit("--disable-sync");
    reveal_strlit("--disable-search-engine-choice-screen");
    reveal_strlit("--disable-blink-features=AutomationControlled");
    reveal_strlit("--disable-features=Translate,OptimizationHints,MediaRouter,DialMediaRouteProvider,AutofillServerCommunication,CertificateTransparencyComponentUpdater,InterestFeedContentSuggestions,PrivacySandboxSettings4,AcceptCHFrame,LensOverlay");
    reveal_strlit("--metrics-recording-only");
    reveal_strlit("--password-store=basic");
    reveal_strlit("--use-mock-keychain");
    reveal_strlit("--no-service-autorun");
    reveal_strlit("--export-tagged-pdf");
    let f = fixed_args();
    assert(f.len() == 32);
    assert(f[0] == "--no-first-run"@);
    assert(f[1] == "--no-default-browser-check"@);
    assert(f[2] == "--disable-background-networking"@);
    assert(f[3] == "--disable-background-timer-throttling"@);
    assert(f[4] == "--disable-backgrounding-occluded-windows"@);
    assert(f[5] == "--disable-renderer-backgrounding"@);
    assert(f[6] == "--disable-breakpad"@);
    assert(f[7] == "--disable-back-forward-cache"@);
    assert(f[8] == "--disable-component-extensions-with-background-pages"@);
    assert(f[9] == "--disable-field-trial-config"@);
    assert(f[10] == "--disable-updater-scheduler"@);
    assert(f[11] == "--allow-pre-commit-input"@);
    assert(f[12] == "--force-color-profile=srgb"@);
    assert(f[13] == "--disable-infobars"@);
    assert(f[14] == "--disable-client-side-phishing-detection"@);
    assert(f[15] == "--disable-component-update"@);
    assert(f[16] == "--disable-default-apps"@);
    assert(f[17] == "--disable-dev-shm-usage"@);
    assert(f[18] == "--disable-extensions"@);
    assert(f[19] == "--disable-hang-monitor"@);
    assert(f[20] == "--disable-ipc-flooding-protection"@);
    assert(f[21] == "--disable-popup-blocking"@);
    assert(f[22] == "--disable-prompt-on-repost"@);
    assert(f[23] == "--disable-sync"@);
    assert(f[24] == "--disable-search-engine-choice-screen"@);
    assert(f[25] == "--disable-blink-features=AutomationControlled"@);
    assert(f[26] == "--disable-features=Translate,OptimizationHints,MediaRouter,DialMediaRouteProvider,AutofillServerCommunication,CertificateTransparencyComponentUpdater,InterestFeedContentSuggestions,PrivacySandboxSettings4,AcceptCHFrame,LensOverlay"@);
    assert(f[27] == "--metrics-recording-only"@);
    assert(f[28] == "--password-store=basic"@);
    assert(f[29] == "--use-mock-keychain"@);
    assert(f[30] == "--no-service-autorun"@);
    assert(f[31] == "--export-tagged-pdf"@);
    assert forall|i: int| 0 <= i < f.len() implies f[i].len() != "--headless"@.len() by {
    }
}

proof fn lemma_option_arg(name: Text, value: Option<Text>)
    requires
        name == "--user-agent="@ || name == "--proxy-server="@ || name == "--proxy-bypass-list="@,
    ensures
        !option_arg(name, value).contains("--headless"@),
{
    if value is Some {
        let t = name + value->0;
        assert(t.subrange(0, name.len() as int) =~= name);
        lemma_not_headless(t);
    }
}

/// A launch works on its profile, begins with a blank page, and has no window exactly where it is
/// headless.
pub proof fn law_launch_line(cfg: ConfigV, profile: Text, headless: bool)
    ensures
        launch_line(cfg, profile, headless).contains("--headless"@) == headless,
        launch_line(cfg, profile, headless).contains("--user-data-dir="@ + profile),
        launch_line(cfg, profile, headless).last() == "about:blank"@,
{
    let x = "--headless"@;
    let first = seq!["--remote-debugging-pipe"@, "--user-data-dir="@ + profile];
    let window = seq![window_arg(cfg, headless)];
    let mode = if headless {
        seq!["--headless"@, "--hide-scrollbars"@, "--mute-audio"@]
    } else {
        Seq::empty()
    };
    let agent = option_arg("--user-agent="@, cfg.user_agent);
    let proxy = option_arg("--proxy-server="@, cfg.proxy_server);
    let bypass = option_arg("--proxy-bypass-list="@, cfg.proxy_bypass);
    let certs = if cfg.ignore_https_errors {
        seq!["--ignore-certificate-errors"@]
    } else {
        Seq::empty()
    };
    let blank = seq!["about:blank"@];
    let a = first + fixed_args();
    let b = a + window;
    let c = b + mode;
    let d = c + agent;
    let e = d + proxy;
    let f = e + bypass;
    let g = f + certs;
    let line = g + blank;
    assert(line == launch_line(cfg, profile, headless));
    let dir = "--user-data-dir="@ + profile;
    assert(line[1] == dir);
    lemma_added(first, fixed_args(), x);
    lemma_added(a, window, x);
    lemma_added(b, mode, x);
    lemma_added(c, agent, x);
    lemma_added(d, proxy, x);
    lemma_added(e, bypass, x);
    lemma_added(f, certs, x);
    lemma_added(g, blank, x);
    lemma_fixed_args();
    lemma_option_arg("--user-agent="@, cfg.user_agent);
    lemma_option_arg("--proxy-server="@, cfg.proxy_server);
    lemma_option_arg("--proxy-bypass-list="@, cfg.proxy_bypass);
    assert(dir.subrange(0, "--user-data-dir="@.len() as int) =~= "--user-data-dir="@);
    lemma_not_headless(dir);
    let w = window_arg(cfg, headless);
    assert(w.subrange(0, "--window-size="@.len() as int) =~= "--window-size="@);
    lemma_not_headless(w);
    reveal_strlit("--headless");
    reveal_strlit("--remote-debugging-pipe");
    reveal_strlit("--ignore-certificate-errors");
    reveal_strlit("about:blank");
    assert(first[0].len() != x.len());
    assert(blank[0].len() != x.len());
    assert(first[1] != x && window[0] != x);
    if cfg.ignore_https_errors {
        assert(certs[0].len() != x.len());
    }
    if headless {
        assert(mode[0] == x);
    }
}

/// A launch talks over a pipe and works on its profile, with its window's size; a headless one is silent;
/// and the agent, the proxy, what goes around it and bad certificates are as the settings say.
pub proof fn law_launch_line_follows_the_settings(cfg: ConfigV, profile: Text, headless: bool)
    ensures
        ({
            let line = launch_line(cfg, profile, headless);
            &&& line[0] == "--remote-debugging-pipe"@
            &&& line[1] == "--user-data-dir="@ + profile
            &&& forall|i: int| 0 <= i < fixed_args().len() ==> line[2 + i] == #[trigger] fixed_args()[i]
            &&& line[2 + fixed_args().len() as int] == window_arg(cfg, headless)
            &&& headless ==> line.contains("--hide-scrollbars"@) && line.contains("--mute-audio"@)
            &&& cfg.user_agent is Some ==> line.contains("--user-agent="@ + cfg.user_agent->0)
            &&& cfg.proxy_server is Some ==> line.contains("--proxy-server="@ + cfg.proxy_server->0)
            &&& cfg.proxy_bypass is Some ==> line.contains("--proxy-bypass-list="@ + cfg.proxy_bypass->0)
            &&& cfg.ignore_https_errors ==> line.contains("--ignore-certificate-errors"@)
            &&& line.len() == 4 + fixed_args().len() + (if headless {
                3int
            } else {
                0
            }) + (if cfg.user_agent is Some {
                1int
            } else {
                0
            }) + (if cfg.proxy_server is Some {
                1int
            } else {
                0
            }) + (if cfg.proxy_bypass is Some {
                1int
            } else {
                0
            }) + (if cfg.ignore_https_errors {
                1int
            } else {
                0
            })
        }),
{
    let mode = if headless {
        seq!["--headless"@, "--hide-scrollbars"@, "--mute-audio"@]
    } else {
        Seq::empty()
    };
    let agent = option_arg("--user-agent="@, cfg.user_agent);
    let proxy = option_arg("--proxy-server="@, cfg.proxy_server);
    let bypass = option_arg("--proxy-bypass-list="@, cfg.proxy_bypass);
    let line = launch_line(cfg, profile, headless);
    let a = 3 + fixed_args().len() as int;
    let b = a + mode.len();
    let c = b + agent.len();
    let d = c + proxy.len();
    let e = d + bypass.len();
    if headless {
        assert(line[a + 1] == "--hide-scrollbars"@);
        assert(line[a + 2] == "--mute-audio"@);
    }
    if cfg.user_agent is Some {
        assert(line[b] == agent[0]);
    }
    if cfg.proxy_server is Some {
        assert(line[c] == proxy[0]);
    }
    if cfg.proxy_bypass is Some {
        assert(line[d] == bypass[0]);
    }
    if cfg.ignore_https_errors {
        assert(line[e] == "--ignore-certificate-errors"@);
    }
}

/// Every launch carries all of what makes the browser quiet and steady.
pub proof fn law_launches_are_quiet()
    ensures
        fixed_args().len() == 32,
        fixed_args()[0] == "--no-first-run"@,
        fixed_args()[1] == "--no-default-browser-check"@,
        fixed_args()[2] == "--disable-background-networking"@,
        fixed_args()[3] == "--disable-background-timer-throttling"@,
        fixed_args()[4] == "--disable-backgrounding-occluded-windows"@,
        fixed_args()[5] == "--disable-renderer-backgrounding"@,
        fixed_args()[6] == "--disable-breakpad"@,
        fixed_args()[7] == "--disable-back-forward-cache"@,
        fixed_args()[8] == "--disable-component-extensions-with-background-pages"@,
        fixed_args()[9] == "--disable-field-trial-config"@,
        fixed_args()[10] == "--disable-updater-scheduler"@,
        fixed_args()[11] == "--allow-pre-commit-input"@,
        fixed_args()[12] == "--force-color-profile=srgb"@,
        fixed_args()[13] == "--disable-infobars"@,
        fixed_args()[14] == "--disable-client-side-phishing-detection"@,
        fixed_args()[15] == "--disable-component-update"@,
        fixed_args()[16] == "--disable-default-apps"@,
        fixed_args()[17] == "--disable-dev-shm-usage"@,
        fixed_args()[18] == "--disable-extensions"@,
        fixed_args()[19] == "--disable-hang-monitor"@,
        fixed_args()[20] == "--disable-ipc-flooding-protection"@,
        fixed_args()[21] == "--disable-popup-blocking"@,
        fixed_args()[22] == "--disable-prompt-on-repost"@,
        fixed_args()[23] == "--disable-sync"@,
        fixed_args()[24] == "--disable-search-engine-choice-screen"@,
        fixed_args()[25] == "--disable-blink-features=AutomationControlled"@,
        fixed_args()[26] == "--disable-features=Translate,OptimizationHints,MediaRouter,DialMediaRouteProvider,AutofillServerCommunication,CertificateTransparencyComponentUpdater,InterestFeedContentSuggestions,PrivacySandboxSettings4,AcceptCHFrame,LensOverlay"@,
        fixed_args()[27] == "--metrics-recording-only"@,
        fixed_args()[28] == "--password-store=basic"@,
        fixed_args()[29] == "--use-mock-keychain"@,
        fixed_args()[30] == "--no-service-autorun"@,
        fixed_args()[31] == "--export-tagged-pdf"@,
{
}

/// The window has the size of the page, 1280 by 800 where none is given, and a visible one the browser's
/// controls above that.
pub proof fn law_window_sizes(cfg: ConfigV, w: u32, h: u32)
    ensures
        cfg.viewport == Some((w, h)) ==> window_arg(cfg, true) == "--window-size="@ + text::dec(w as nat) + ","@
            + text::dec(h as nat),
        cfg.viewport == Some((w, h)) ==> window_arg(cfg, false) == "--window-size="@ + text::dec(w as nat) + ","@
            + text::dec((h + 87) as nat),
        cfg.viewport is None ==> page_size(cfg) == (1280u32, 800u32),
        cfg.viewport == Some((w, h)) ==> page_size(cfg) == (w, h),
{
}

/// The process that holds a profile is named behind the last dash of its lock; a lock that names none is
/// held by no process.
pub proof fn law_locks_name_processes(host: Text, n: nat, target: Text)
    ensures
        0 < n <= i32::MAX ==> pid_of(host + "-"@ + text::dec(n)) == n,
        text::number_value(text::pieces(target, "-"@).last()) is None ==> pid_of(target) == 0,
        0 <= pid_of(target) <= i32::MAX,
{
    if 0 < n <= i32::MAX {
        reveal_strlit("-");
        let seps = "-"@;
        let d = text::dec(n);
        assert(seps.len() == 1 && seps[0] == '-');
        text::law_numbers_are_read_back(n);
        lemma_last_piece(host, d);
    }
}

proof fn lemma_last_piece(host: Text, d: Text)
    requires
        forall|k: int| 0 <= k < d.len() ==> #[trigger] d[k] != '-',
    ensures
        text::pieces(host + "-"@ + d, "-"@).last() == d,
    decreases d.len(),
{
    reveal_strlit("-");
    let seps = "-"@;
    assert(seps.len() == 1 && seps[0] == '-');
    let s = host + "-"@ + d;
    if d.len() == 0 {
        assert(s.last() == '-');
        assert(seps.contains(s.last()));
        assert(d =~= Seq::<char>::empty());
    } else {
        let e = d.drop_last();
        assert forall|k: int| 0 <= k < e.len() implies #[trigger] e[k] != '-' by {
            assert(d[k] == e[k]);
        }
        lemma_last_piece(host, e);
        assert(s.drop_last() =~= host + "-"@ + e);
        assert(s.last() == d.last());
        assert(d[d.len() - 1] != '-');
        assert(!seps.contains(s.last()));
        assert(e.push(d.last()) =~= d);
    }
}

/// Where profiles are: the one that is given, or one that lasts in the cache; and a throwaway one of this
/// process.
pub proof fn law_profiles(cfg: ConfigV, cache_root: Text, temp_dir: Text, pid: nat)
    ensures
        cfg.user_data_dir is Some ==> profile_path(cfg, cache_root) == cfg.user_data_dir->0,
        cfg.user_data_dir is None ==> profile_path(cfg, cache_root) == path::joined_path(cache_root, "profile"@),
        temp_profile(temp_dir, pid) == path::joined_path(temp_dir, "browser-mcp-rs-profile-"@ + text::dec(pid)),
{
}

/// Requests are held where a route or a list of origins may have something to say of them, and only there.
pub proof fn law_requests_are_held(st: StateV, cfg: ConfigV)
    ensures
        intercepts(st, cfg) <==> st.routes.len() > 0 || cfg.allowed_origins.len() > 0 || cfg.blocked_origins.len() > 0,
        fetch_all() == JsonV::obj().with(
            "patterns"@,
            JsonV::Arr(
                seq![JsonV::obj().with("urlPattern"@, JsonV::Str("*"@)).with("requestStage"@, JsonV::Str("Request"@))],
            ),
        ),
{
}

/// A browser that was launched attaches to every page by itself, which waits until it is prepared, and saves
/// downloads under names of its own in the given directory.
pub proof fn law_browsers_attach_to_pages(downloads: Text)
    ensures
        ({
            let c = startup_commands(downloads);
            &&& c.len() == 3
            &&& c[0].method == "Target.setDiscoverTargets"@ && c[1].method == "Target.setAutoAttach"@ && c[2].method
                == "Browser.setDownloadBehavior"@
            &&& c[0].session is None && c[1].session is None && c[2].session is None
            &&& c[0].params == JsonV::obj().with("discover"@, JsonV::Bool(true))
            &&& c[1].params == JsonV::obj().with("autoAttach"@, JsonV::Bool(true)).with(
                "waitForDebuggerOnStart"@,
                JsonV::Bool(true),
            ).with("flatten"@, JsonV::Bool(true))
            &&& c[2].params == JsonV::obj().with("behavior"@, JsonV::Str("allowAndName"@)).with(
                "downloadPath"@,
                JsonV::Str(downloads),
            ).with("eventsEnabled"@, JsonV::Bool(true))
        }),
{
}

/// Every session is prepared before its page runs: the events of the page, its code, its network and its log
/// are told, the injected script and each script of the settings run in every document, file choosers are
/// told, and viewport, service workers, held requests and the network are as settings and state ask. All of
/// it goes to that session.
pub proof fn law_sessions_are_prepared(s: Text, injected: Text, st: StateV, cfg: ConfigV, k: int)
    ensures
        ({
            let c = init_commands(s, injected, st, cfg);
            let n = cfg.init_scripts.len() as int;
            &&& c[0].method == "Page.enable"@ && c[1].method == "Page.setLifecycleEventsEnabled"@
            &&& c[2].method == "Runtime.enable"@ && c[3].method == "Network.enable"@ && c[4].method == "Log.enable"@
            &&& c[5] == cdp::to_session(
                s,
                "Page.addScriptToEvaluateOnNewDocument"@,
                JsonV::obj().with("source"@, JsonV::Str(injected)).with("worldName"@, JsonV::Str("__bmcp"@)).with(
                    "runImmediately"@,
                    JsonV::Bool(true),
                ),
            )
            &&& c[6] == binding(s, "__bmcpHandoff"@) && c[7] == binding(s, "__bmcpRecord"@)
            &&& c[8] == cdp::to_session(
                s,
                "Page.setInterceptFileChooserDialog"@,
                JsonV::obj().with("enabled"@, JsonV::Bool(true)),
            )
            &&& 0 <= k < n ==> c[9 + k] == cdp::to_session(
                s,
                "Page.addScriptToEvaluateOnNewDocument"@,
                JsonV::obj().with("source"@, JsonV::Str(cfg.init_scripts[k])).with("runImmediately"@, JsonV::Bool(true)),
            )
            &&& st.viewport is Some ==> c[9 + n] == cdp::to_session(
                s,
                "Emulation.setDeviceMetricsOverride"@,
                JsonV::obj().with("width"@, JsonV::Int((st.viewport->0).0 as int)).with(
                    "height"@,
                    JsonV::Int((st.viewport->0).1 as int),
                ).with("deviceScaleFactor"@, JsonV::Int(0)).with("mobile"@, JsonV::Bool(false)),
            )
            &&& cfg.block_service_workers ==> c.contains(
                cdp::to_session(
                    s,
                    "Network.setBypassServiceWorker"@,
                    JsonV::obj().with("bypass"@, JsonV::Bool(true)),
                ),
            )
            &&& st.routes.len() > 0 || cfg.allowed_origins.len() > 0 || cfg.blocked_origins.len() > 0 ==> c.contains(
                cdp::to_session(s, "Fetch.enable"@, fetch_all()),
            )
            &&& st.offline ==> c.last() == cdp::to_session(
                s,
                "Network.emulateNetworkConditions"@,
                JsonV::obj().with("offline"@, JsonV::Bool(true)).with("latency"@, JsonV::Int(0)).with(
                    "downloadThroughput"@,
                    JsonV::Int(-1),
                ).with("uploadThroughput"@, JsonV::Int(-1)),
            )
            &&& c.len() == 9 + n + (if st.viewport is Some {
                1int
            } else {
                0
            }) + (if cfg.block_service_workers {
                1int
            } else {
                0
            }) + (if intercepts(st, cfg) {
                1int
            } else {
                0
            }) + (if st.offline {
                1int
            } else {
                0
            })
        }),
{
    let c = init_commands(s, injected, st, cfg);
    let n = cfg.init_scripts.len() as int;
    let v = if st.viewport is Some {
        1int
    } else {
        0
    };
    let w = if cfg.block_service_workers {
        1int
    } else {
        0
    };
    if cfg.block_service_workers {
        assert(c[9 + n + v] == cdp::to_session(
            s,
            "Network.setBypassServiceWorker"@,
            JsonV::obj().with("bypass"@, JsonV::Bool(true)),
        ));
    }
    if intercepts(st, cfg) {
        assert(c[9 + n + v + w] == cdp::to_session(s, "Fetch.enable"@, fetch_all()));
    }
}

/// Whatever a session is prepared with goes to that session.
pub proof fn law_preparations_go_to_their_session(s: Text, injected: Text, st: StateV, cfg: ConfigV, i: int)
    requires
        0 <= i < init_commands(s, injected, st, cfg).len(),
    ensures
        init_commands(s, injected, st, cfg)[i].session == Some(s),
{
}

/// The functions that a page can call are those of the injected script's world; the events of the whole life
/// of a page are told, and bodies of requests up to 64 KiB.
pub proof fn law_preparations_in_detail(s: Text, injected: Text, name: Text)
    ensures
        binding(s, name) == cdp::to_session(
            s,
            "Runtime.addBinding"@,
            JsonV::obj().with("name"@, JsonV::Str(name)).with("executionContextName"@, JsonV::Str("__bmcp"@)),
        ),
        base_commands(s, injected).len() == 9,
        base_commands(s, injected)[1].params == JsonV::obj().with("enabled"@, JsonV::Bool(true)),
        base_commands(s, injected)[3].params == JsonV::obj().with("maxPostDataSize"@, JsonV::Int(65536)),
        network_conditions(false) == JsonV::obj().with("offline"@, JsonV::Bool(false)).with("latency"@, JsonV::Int(0)).with(
            "downloadThroughput"@,
            JsonV::Int(-1),
        ).with("uploadThroughput"@, JsonV::Int(-1)),
{
}

/// A tab that is prepared is ready, and knows its frame and its loader by what the page tells, where it did
/// not know them before.
pub proof fn law_prepared_tabs_are_ready(t: TabV, tree: JsonV)
    ensures
        ({
            let f = tree.at("frameTree"@).at("frame"@);
            let a = initialized(t, Some(tree));
            &&& a == (TabV { ready: true, main_frame: a.main_frame, loader_id: a.loader_id, ..t })
            &&& a.main_frame == if t.main_frame.len() > 0 {
                t.main_frame
            } else {
                f.at("id"@).text()
            }
            &&& a.loader_id == if t.loader_id.len() > 0 {
                t.loader_id
            } else {
                f.at("loaderId"@).text()
            }
            &&& initialized(t, None) == (TabV { ready: true, ..t })
        }),
{
}

/// A command to every session goes to each of them once, in order.
pub proof fn law_commands_to_all(sessions: Seq<Text>, method: Text, params: JsonV, i: int)
    requires
        0 <= i < sessions.len(),
    ensures
        to_all(sessions, method, params).len() == sessions.len(),
        to_all(sessions, method, params)[i] == cdp::to_session(sessions[i], method, params),
{
}

} // verus!
