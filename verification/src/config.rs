//! The server's settings and how the command line sets them.

use crate::path;
use crate::positions;
use crate::text;
use crate::text::Text;
use vstd::prelude::*;

verus! {

pub struct Config {
    pub executable: Option<String>,
    pub headless: bool,
    pub user_data_dir: Option<String>,
    pub isolated: bool,
    pub viewport: Option<(u32, u32)>,
    pub user_agent: Option<String>,
    pub proxy_server: Option<String>,
    pub proxy_bypass: Option<String>,
    pub ignore_https_errors: bool,
    pub block_service_workers: bool,
    pub init_scripts: Vec<String>,
    pub allowed_origins: Vec<String>,
    pub blocked_origins: Vec<String>,
    pub output_dir: String,
    /// Timeouts are in milliseconds.
    pub timeout_action: u64,
    pub timeout_navigation: u64,
    pub timeout_settle: u64,
    pub test_id_attribute: String,
    pub storage_state: Option<String>,
    pub snapshot_mode: String,
    /// Snapshots longer than this are saved to a file and truncated in the reply.
    pub snapshot_max_chars: usize,
    pub caps: Vec<String>,
}

/// What a `Config` holds.
#[verifier::ext_equal]
pub struct ConfigV {
    pub executable: Option<Text>,
    pub headless: bool,
    pub user_data_dir: Option<Text>,
    pub isolated: bool,
    pub viewport: Option<(u32, u32)>,
    pub user_agent: Option<Text>,
    pub proxy_server: Option<Text>,
    pub proxy_bypass: Option<Text>,
    pub ignore_https_errors: bool,
    pub block_service_workers: bool,
    pub init_scripts: Seq<Text>,
    pub allowed_origins: Seq<Text>,
    pub blocked_origins: Seq<Text>,
    pub output_dir: Text,
    pub timeout_action: nat,
    pub timeout_navigation: nat,
    pub timeout_settle: nat,
    pub test_id_attribute: Text,
    pub storage_state: Option<Text>,
    pub snapshot_mode: Text,
    pub snapshot_max_chars: nat,
    pub caps: Set<Text>,
}

impl View for Config {
    type V = ConfigV;

    open spec fn view(&self) -> ConfigV {
        ConfigV {
            executable: text::opt_text(self.executable),
            headless: self.headless,
            user_data_dir: text::opt_text(self.user_data_dir),
            isolated: self.isolated,
            viewport: self.viewport,
            user_agent: text::opt_text(self.user_agent),
            proxy_server: text::opt_text(self.proxy_server),
            proxy_bypass: text::opt_text(self.proxy_bypass),
            ignore_https_errors: self.ignore_https_errors,
            block_service_workers: self.block_service_workers,
            init_scripts: text::views(self.init_scripts@),
            allowed_origins: text::views(self.allowed_origins@),
            blocked_origins: text::views(self.blocked_origins@),
            output_dir: self.output_dir@,
            timeout_action: self.timeout_action as nat,
            timeout_navigation: self.timeout_navigation as nat,
            timeout_settle: self.timeout_settle as nat,
            test_id_attribute: self.test_id_attribute@,
            storage_state: text::opt_text(self.storage_state),
            snapshot_mode: self.snapshot_mode@,
            snapshot_max_chars: self.snapshot_max_chars as nat,
            caps: text::views(self.caps@).to_set(),
        }
    }
}

/// The settings before any option: headless, no limits on origins, files under the system's
/// directory for temporary files.
pub open spec fn defaults(executable: Option<Text>, temp_dir: Text) -> ConfigV {
    ConfigV {
        executable,
        headless: true,
        user_data_dir: None,
        isolated: false,
        viewport: None,
        user_agent: None,
        proxy_server: None,
        proxy_bypass: None,
        ignore_https_errors: false,
        block_service_workers: false,
        init_scripts: Seq::empty(),
        allowed_origins: Seq::empty(),
        blocked_origins: Seq::empty(),
        output_dir: path::joined_path(temp_dir, "browser-mcp-rs"@),
        timeout_action: 5000,
        timeout_navigation: 60000,
        timeout_settle: 500,
        test_id_attribute: "data-testid"@,
        storage_state: None,
        snapshot_mode: "incremental"@,
        snapshot_max_chars: 50000,
        caps: Set::empty(),
    }
}

impl Config {
    /// No set of tools is listed twice.
    pub open spec fn wf(&self) -> bool {
        text::views(self.caps@).no_duplicates()
    }

    /// The settings before any option. `executable` is what the environment names.
    pub fn new(executable: Option<String>, temp_dir: &str) -> (r: Config)
        ensures
            r@ == defaults(text::opt_text(executable), temp_dir@),
            r.wf(),
    {
        broadcast use text::group_views;
        let r = Config {
            executable,
            headless: true,
            user_data_dir: None,
            isolated: false,
            viewport: None,
            user_agent: None,
            proxy_server: None,
            proxy_bypass: None,
            ignore_https_errors: false,
            block_service_workers: false,
            init_scripts: Vec::new(),
            allowed_origins: Vec::new(),
            blocked_origins: Vec::new(),
            output_dir: path::join(temp_dir, "browser-mcp-rs"),
            timeout_action: 5000,
            timeout_navigation: 60000,
            timeout_settle: 500,
            test_id_attribute: "data-testid".to_string(),
            storage_state: None,
            snapshot_mode: "incremental".to_string(),
            snapshot_max_chars: 50000,
            caps: Vec::new(),
        };
        proof {
            assert(text::views(r.caps@).to_set() =~= Set::<Text>::empty());
        }
        r
    }

    /// Whether an extra set of tools is asked for.
    pub fn has_cap(&self, cap: &str) -> (r: bool)
        ensures
            r == self@.caps.contains(cap@),
    {
        text::one_of(cap, &self.caps)
    }
}

impl Clone for Config {
    fn clone(&self) -> (r: Config)
        ensures
            r@ == self@,
            text::views(r.caps@) == text::views(self.caps@),
    {
        Config {
            executable: text::copy_opt(&self.executable),
            headless: self.headless,
            user_data_dir: text::copy_opt(&self.user_data_dir),
            isolated: self.isolated,
            viewport: self.viewport,
            user_agent: text::copy_opt(&self.user_agent),
            proxy_server: text::copy_opt(&self.proxy_server),
            proxy_bypass: text::copy_opt(&self.proxy_bypass),
            ignore_https_errors: self.ignore_https_errors,
            block_service_workers: self.block_service_workers,
            init_scripts: text::copies(&self.init_scripts),
            allowed_origins: text::copies(&self.allowed_origins),
            blocked_origins: text::copies(&self.blocked_origins),
            output_dir: self.output_dir.clone(),
            timeout_action: self.timeout_action,
            timeout_navigation: self.timeout_navigation,
            timeout_settle: self.timeout_settle,
            test_id_attribute: self.test_id_attribute.clone(),
            storage_state: text::copy_opt(&self.storage_state),
            snapshot_mode: self.snapshot_mode.clone(),
            snapshot_max_chars: self.snapshot_max_chars,
            caps: text::copies(&self.caps),
        }
    }
}

// ---------------------------------------------------------------------- options

/// Why a command line is refused.
pub enum ArgError {
    /// The option stands without a value.
    NeedsValue(String),
    /// The viewport is not two numbers with an `x` or a comma between them.
    Viewport,
    /// This side of the viewport is no number.
    ViewportNumber(String),
    /// The option's value is no number.
    NotANumber { name: String, value: String },
    /// No such snapshot mode.
    SnapshotMode,
    /// No such browser.
    Browser,
    /// No such option.
    Unknown(String),
}

/// What an `ArgError` holds.
pub enum ArgErrorV {
    NeedsValue(Text),
    Viewport,
    ViewportNumber(Text),
    NotANumber(Text, Text),
    SnapshotMode,
    Browser,
    Unknown(Text),
}

impl View for ArgError {
    type V = ArgErrorV;

    open spec fn view(&self) -> ArgErrorV {
        match self {
            ArgError::NeedsValue(n) => ArgErrorV::NeedsValue(n@),
            ArgError::Viewport => ArgErrorV::Viewport,
            ArgError::ViewportNumber(t) => ArgErrorV::ViewportNumber(t@),
            ArgError::NotANumber { name, value } => ArgErrorV::NotANumber(name@, value@),
            ArgError::SnapshotMode => ArgErrorV::SnapshotMode,
            ArgError::Browser => ArgErrorV::Browser,
            ArgError::Unknown(n) => ArgErrorV::Unknown(n@),
        }
    }
}

/// What is said of a text that is no 32-bit number.
pub uninterp spec fn u32_error(s: Text) -> Text;

/// `str::parse::<u32>`: the number that a text writes in decimal digits, with a plus sign in front or
/// without. What the error says of any other text is a function of that text.
#[verifier::external_body]
fn parse_u32(s: &str) -> (r: Result<u32, String>)
    ensures
        match r {
            Ok(n) => number_up_to(s@, u32::MAX as int) == Some(n as nat),
            Err(e) => number_up_to(s@, u32::MAX as int) is None && e@ == u32_error(s@),
        },
{
    match s.parse::<u32>() {
        Ok(n) => Ok(n),
        Err(e) => Err(e.to_string()),
    }
}

impl ArgErrorV {
    /// The message.
    pub open spec fn message(self) -> Text {
        match self {
            ArgErrorV::NeedsValue(n) => n + " needs a value"@,
            ArgErrorV::Viewport => "--viewport-size must look like 1280x720"@,
            ArgErrorV::ViewportNumber(t) => match number_up_to(t, u32::MAX as int) {
                Some(_) => t,
                None => u32_error(t),
            },
            ArgErrorV::NotANumber(n, _) => n + ": not a number"@,
            ArgErrorV::SnapshotMode => "--snapshot-mode must be incremental, full or none"@,
            ArgErrorV::Browser => "only chromium is supported"@,
            ArgErrorV::Unknown(n) => "unknown option "@ + n + "; see --help"@,
        }
    }
}

impl ArgError {
    pub fn message(&self) -> (r: String)
        ensures
            r@ == self@.message(),
    {
        match self {
            ArgError::NeedsValue(n) => text::concat(n, " needs a value"),
            ArgError::Viewport => "--viewport-size must look like 1280x720".to_string(),
            ArgError::ViewportNumber(t) => match parse_u32(t) {
                Ok(_) => t.clone(),
                Err(e) => e,
            },
            ArgError::NotANumber { name, .. } => text::concat(name, ": not a number"),
            ArgError::SnapshotMode => "--snapshot-mode must be incremental, full or none".to_string(),
            ArgError::Browser => "only chromium is supported".to_string(),
            ArgError::Unknown(n) => {
                let mut s = "unknown option ".to_string();
                s.append(n);
                s.append("; see --help");
                s
            },
        }
    }
}

/// An argument as an option's name and the value written behind `=`.
pub open spec fn option_parts(arg: Text) -> (Text, Option<Text>) {
    match text::cut_at(arg, "="@) {
        Some((n, v)) if text::text_starts(n, "--"@) => (n, Some(v)),
        _ => (arg, None),
    }
}

/// The parts that are not blank, trimmed.
pub open spec fn items(parts: Seq<Text>) -> Seq<Text>
    decreases parts.len(),
{
    if parts.len() == 0 {
        Seq::empty()
    } else {
        let t = text::trimmed(parts.last());
        if t.len() > 0 {
            items(parts.drop_last()).push(t)
        } else {
            items(parts.drop_last())
        }
    }
}

/// A list written with semicolons or commas.
pub open spec fn list_items(s: Text) -> Seq<Text> {
    items(text::pieces(s, ";,"@))
}

pub open spec fn is_flag(name: Text) -> bool {
    name == "--headless"@ || name == "--headed"@ || name == "--isolated"@ || name == "--ignore-https-errors"@ || name
        == "--block-service-workers"@
}

/// The settings after an option that takes no value.
pub open spec fn set_flag(cfg: ConfigV, name: Text) -> ConfigV {
    if name == "--headless"@ {
        ConfigV { headless: true, ..cfg }
    } else if name == "--headed"@ {
        ConfigV { headless: false, ..cfg }
    } else if name == "--isolated"@ {
        ConfigV { isolated: true, ..cfg }
    } else if name == "--ignore-https-errors"@ {
        ConfigV { ignore_https_errors: true, ..cfg }
    } else {
        ConfigV { block_service_workers: true, ..cfg }
    }
}

pub open spec fn takes_value(name: Text) -> bool {
    name == "--caps"@ || name == "--capabilities"@ || name == "--executable-path"@ || name == "--user-data-dir"@ || name
        == "--storage-state"@ || name == "--viewport-size"@ || name == "--user-agent"@ || name == "--proxy-server"@ || name
        == "--proxy-bypass"@ || name == "--allowed-origins"@ || name == "--blocked-origins"@ || name == "--init-script"@
        || name == "--output-dir"@ || name == "--snapshot-mode"@ || name == "--snapshot-max-chars"@ || name
        == "--timeout-action"@ || name == "--timeout-navigation"@ || name == "--timeout-settle"@ || name
        == "--test-id-attribute"@ || name == "--browser"@
}

/// A number of at most `max`.
pub open spec fn number_up_to(s: Text, max: int) -> Option<nat> {
    match text::number_value(s) {
        Some(n) if n <= max => Some(n),
        _ => None,
    }
}

/// A viewport such as 1280x720.
pub open spec fn viewport_of(s: Text) -> Result<(u32, u32), ArgErrorV> {
    match text::cut_at_any(s, "x,"@) {
        None => Err(ArgErrorV::Viewport),
        Some((w, h)) => match number_up_to(text::trimmed(w), u32::MAX as int) {
            None => Err(ArgErrorV::ViewportNumber(text::trimmed(w))),
            Some(x) => match number_up_to(text::trimmed(h), u32::MAX as int) {
                None => Err(ArgErrorV::ViewportNumber(text::trimmed(h))),
                Some(y) => Ok((x as u32, y as u32)),
            },
        },
    }
}

/// The settings after an option with a value (`--init-script`, whose value names a file, apart).
pub open spec fn set_value(cfg: ConfigV, name: Text, value: Text) -> Result<ConfigV, ArgErrorV> {
    if name == "--caps"@ || name == "--capabilities"@ {
        Ok(ConfigV { caps: cfg.caps.union(list_items(value).to_set()), ..cfg })
    } else if name == "--executable-path"@ {
        Ok(ConfigV { executable: Some(value), ..cfg })
    } else if name == "--user-data-dir"@ {
        Ok(ConfigV { user_data_dir: Some(value), ..cfg })
    } else if name == "--storage-state"@ {
        Ok(ConfigV { storage_state: Some(value), ..cfg })
    } else if name == "--viewport-size"@ {
        match viewport_of(value) {
            Ok(v) => Ok(ConfigV { viewport: Some(v), ..cfg }),
            Err(e) => Err(e),
        }
    } else if name == "--user-agent"@ {
        Ok(ConfigV { user_agent: Some(value), ..cfg })
    } else if name == "--proxy-server"@ {
        Ok(ConfigV { proxy_server: Some(value), ..cfg })
    } else if name == "--proxy-bypass"@ {
        Ok(ConfigV { proxy_bypass: Some(value), ..cfg })
    } else if name == "--allowed-origins"@ {
        Ok(ConfigV { allowed_origins: list_items(value), ..cfg })
    } else if name == "--blocked-origins"@ {
        Ok(ConfigV { blocked_origins: list_items(value), ..cfg })
    } else if name == "--output-dir"@ {
        Ok(ConfigV { output_dir: value, ..cfg })
    } else if name == "--snapshot-mode"@ {
        if value == "incremental"@ || value == "full"@ || value == "none"@ {
            Ok(ConfigV { snapshot_mode: value, ..cfg })
        } else {
            Err(ArgErrorV::SnapshotMode)
        }
    } else if name == "--snapshot-max-chars"@ {
        match number_up_to(value, usize::MAX as int) {
            Some(n) => Ok(ConfigV { snapshot_max_chars: n, ..cfg }),
            None => Err(ArgErrorV::NotANumber(name, value)),
        }
    } else if name == "--test-id-attribute"@ {
        Ok(ConfigV { test_id_attribute: value, ..cfg })
    } else if name == "--browser"@ {
        if value == "chromium"@ || value == "chrome"@ {
            Ok(cfg)
        } else {
            Err(ArgErrorV::Browser)
        }
    } else {
        match number_up_to(value, u64::MAX as int) {
            None => Err(ArgErrorV::NotANumber(name, value)),
            Some(n) => if name == "--timeout-action"@ {
                Ok(ConfigV { timeout_action: n, ..cfg })
            } else if name == "--timeout-navigation"@ {
                Ok(ConfigV { timeout_navigation: n, ..cfg })
            } else {
                Ok(ConfigV { timeout_settle: n, ..cfg })
            },
        }
    }
}

/// Where reading a command line has come to.
pub enum StepV {
    /// At its end: the server runs with these settings.
    Run(ConfigV),
    /// The bundled browsers are to be installed.
    Install,
    Help,
    Version,
    /// The script in a file is wanted; reading goes on with the arguments that are left.
    Read(Text, Seq<Text>, ConfigV),
    Fail(ArgErrorV),
}

/// Reads arguments, with the settings made so far.
pub open spec fn read_args(args: Seq<Text>, cfg: ConfigV) -> StepV
    decreases args.len(),
{
    if args.len() == 0 {
        StepV::Run(cfg)
    } else {
        let (name, inline) = option_parts(args[0]);
        if name == "install"@ {
            StepV::Install
        } else if name == "-h"@ || name == "--help"@ {
            StepV::Help
        } else if name == "-V"@ || name == "--version"@ {
            StepV::Version
        } else if is_flag(name) {
            read_args(args.skip(1), set_flag(cfg, name))
        } else if !takes_value(name) {
            StepV::Fail(ArgErrorV::Unknown(name))
        } else if inline is None && args.len() < 2 {
            StepV::Fail(ArgErrorV::NeedsValue(name))
        } else {
            let (value, rest) = match inline {
                Some(v) => (v, args.skip(1)),
                None => (args[1], args.skip(2)),
            };
            if name == "--init-script"@ {
                StepV::Read(value, rest, cfg)
            } else {
                match set_value(cfg, name, value) {
                    Ok(c) => read_args(rest, c),
                    Err(e) => StepV::Fail(e),
                }
            }
        }
    }
}

/// Where reading a command line has come to.
pub enum ArgStep {
    Run(Config),
    Install,
    Help,
    Version,
    /// The script in the file `path` is wanted: add it to `cfg.init_scripts` and read on from
    /// argument `next`.
    Read { path: String, next: usize, cfg: Config },
    Fail(ArgError),
}

/// What a step holds, of a command line `args`.
pub open spec fn step_of(s: ArgStep, args: Seq<Text>) -> StepV {
    match s {
        ArgStep::Run(c) => StepV::Run(c@),
        ArgStep::Install => StepV::Install,
        ArgStep::Help => StepV::Help,
        ArgStep::Version => StepV::Version,
        ArgStep::Read { path, next, cfg } => StepV::Read(path@, args.skip(next as int), cfg@),
        ArgStep::Fail(e) => StepV::Fail(e@),
    }
}

fn split_option(arg: &str) -> (r: (String, Option<String>))
    ensures
        (r.0@, text::opt_text(r.1)) == option_parts(arg@),
{
    match text::split_once(arg, "=") {
        Some((n, v)) => if text::starts_with(&n, "--") {
            (n, Some(v))
        } else {
            (arg.to_string(), None)
        },
        None => (arg.to_string(), None),
    }
}

/// The items of a list written with semicolons or commas.
pub fn list(s: &str) -> (r: Vec<String>)
    ensures
        text::views(r@) == list_items(s@),
{
    items_of(s, ";,")
}

/// The items of a list written with any of some separators.
pub fn items_of(s: &str, seps: &str) -> (r: Vec<String>)
    ensures
        text::views(r@) == items(text::pieces(s@, seps@)),
{
    broadcast use text::group_views;
    let parts = text::split_on(s, seps);
    let ghost all = text::views(parts@);
    let mut out: Vec<String> = Vec::new();
    let mut i: usize = 0;
    proof {
        assert(all.take(0) =~= Seq::<Text>::empty());
    }
    while i < parts.len()
        invariant
            i <= parts@.len(),
            all == text::views(parts@),
            text::views(out@) == items(all.take(i as int)),
        decreases parts@.len() - i,
    {
        broadcast use text::group_views;
        let t = text::trim(&parts[i]);
        proof {
            assert(all.take(i + 1).drop_last() =~= all.take(i as int));
            assert(all.take(i + 1).last() == parts@[i as int]@);
        }
        if !t.as_str().is_empty() {
            out.push(t);
        }
        i = i + 1;
    }
    proof {
        assert(all.take(all.len() as int) =~= all);
    }
    out
}

/// Adds names that are not listed yet, in their order.
fn add_caps(caps: Vec<String>, more: Vec<String>) -> (r: Vec<String>)
    ensures
        text::views(caps@).no_duplicates() ==> text::views(r@).no_duplicates(),
        text::views(r@).to_set() == text::views(caps@).to_set().union(text::views(more@).to_set()),
{
    let ghost before = text::views(caps@).to_set();
    let ghost all = text::views(more@);
    let mut out = caps;
    let mut i: usize = 0;
    proof {
        assert(text::views(out@).to_set() =~= before.union(all.take(0).to_set()));
    }
    while i < more.len()
        invariant
            i <= more@.len(),
            all == text::views(more@),
            text::views(out@).to_set() == before.union(all.take(i as int).to_set()),
            text::views(caps@).no_duplicates() ==> text::views(out@).no_duplicates(),
        decreases more@.len() - i,
    {
        broadcast use text::group_views;
        let ghost held = text::views(out@);
        if !text::one_of(&more[i], &out) {
            out.push(more[i].clone());
            proof {
                assert(text::views(out@) == held.push(more@[i as int]@));
                lemma_push_set(held, more@[i as int]@);
            }
        } else {
            proof {
                assert(held.to_set().contains(more@[i as int]@));
            }
        }
        proof {
            assert(all.take(i + 1) =~= all.take(i as int).push(more@[i as int]@));
            lemma_push_set(all.take(i as int), more@[i as int]@);
            assert(text::views(out@).to_set() =~= held.to_set().insert(more@[i as int]@));
            assert(text::views(out@).to_set() =~= before.union(all.take(i + 1).to_set()));
        }
        i = i + 1;
    }
    proof {
        assert(all.take(all.len() as int) =~= all);
    }
    out
}

proof fn lemma_push_set(s: Seq<Text>, x: Text)
    ensures
        s.push(x).to_set() == s.to_set().insert(x),
{
    assert forall|y: Text| s.push(x).to_set().contains(y) == s.to_set().insert(x).contains(y) by {
        if s.contains(y) {
            let k = choose|k: int| 0 <= k < s.len() && s[k] == y;
            assert(s.push(x)[k] == y);
        }
        if y == x {
            assert(s.push(x)[s.len() as int] == y);
        }
    }
    assert(s.push(x).to_set() =~= s.to_set().insert(x));
}

fn viewport(s: &str) -> (r: Result<(u32, u32), ArgError>)
    ensures
        match r {
            Ok(v) => viewport_of(s@) == Ok::<(u32, u32), ArgErrorV>(v),
            Err(e) => viewport_of(s@) == Err::<(u32, u32), ArgErrorV>(e@),
        },
{
    match text::split_once_any(s, "x,") {
        None => Err(ArgError::Viewport),
        Some((w, h)) => {
            let w = text::trim(&w);
            let h = text::trim(&h);
            match parse_u32(&w) {
                Err(_) => Err(ArgError::ViewportNumber(w)),
                Ok(x) => match parse_u32(&h) {
                    Err(_) => Err(ArgError::ViewportNumber(h)),
                    Ok(y) => Ok((x, y)),
                },
            }
        },
    }
}

fn flag(name: &str) -> (r: bool)
    ensures
        r == is_flag(name@),
{
    text::same(name, "--headless") || text::same(name, "--headed") || text::same(name, "--isolated") || text::same(
        name,
        "--ignore-https-errors",
    ) || text::same(name, "--block-service-workers")
}

fn valued(name: &str) -> (r: bool)
    ensures
        r == takes_value(name@),
{
    text::same(name, "--caps") || text::same(name, "--capabilities") || text::same(name, "--executable-path")
        || text::same(name, "--user-data-dir") || text::same(name, "--storage-state") || text::same(
        name,
        "--viewport-size",
    ) || text::same(name, "--user-agent") || text::same(name, "--proxy-server") || text::same(name, "--proxy-bypass")
        || text::same(name, "--allowed-origins") || text::same(name, "--blocked-origins") || text::same(
        name,
        "--init-script",
    ) || text::same(name, "--output-dir") || text::same(name, "--snapshot-mode") || text::same(
        name,
        "--snapshot-max-chars",
    ) || text::same(name, "--timeout-action") || text::same(name, "--timeout-navigation") || text::same(
        name,
        "--timeout-settle",
    ) || text::same(name, "--test-id-attribute") || text::same(name, "--browser")
}

impl Config {
    /// Sets what an option without a value sets.
    fn set_flag(self, name: &str) -> (r: Config)
        requires
            is_flag(name@),
        ensures
            r@ == set_flag(self@, name@),
            self.wf() ==> r.wf(),
    {
        let mut c = self;
        if text::same(name, "--headless") {
            c.headless = true;
        } else if text::same(name, "--headed") {
            c.headless = false;
        } else if text::same(name, "--isolated") {
            c.isolated = true;
        } else if text::same(name, "--ignore-https-errors") {
            c.ignore_https_errors = true;
        } else {
            c.block_service_workers = true;
        }
        c
    }

    /// Sets what an option with a value sets.
    fn set_value(self, name: &str, value: String) -> (r: Result<Config, ArgError>)
        requires
            takes_value(name@),
        ensures
            match r {
                Ok(c) => set_value(self@, name@, value@) == Ok::<ConfigV, ArgErrorV>(c@),
                Err(e) => set_value(self@, name@, value@) == Err::<ConfigV, ArgErrorV>(e@),
            },
            self.wf() ==> (r matches Ok(c) ==> c.wf()),
    {
        let mut c = self;
        if text::same(name, "--caps") || text::same(name, "--capabilities") {
            c.caps = add_caps(c.caps, list(&value));
        } else if text::same(name, "--executable-path") {
            c.executable = Some(value);
        } else if text::same(name, "--user-data-dir") {
            c.user_data_dir = Some(value);
        } else if text::same(name, "--storage-state") {
            c.storage_state = Some(value);
        } else if text::same(name, "--viewport-size") {
            match viewport(&value) {
                Ok(v) => {
                    c.viewport = Some(v);
                },
                Err(e) => {
                    return Err(e);
                },
            }
        } else if text::same(name, "--user-agent") {
            c.user_agent = Some(value);
        } else if text::same(name, "--proxy-server") {
            c.proxy_server = Some(value);
        } else if text::same(name, "--proxy-bypass") {
            c.proxy_bypass = Some(value);
        } else if text::same(name, "--allowed-origins") {
            c.allowed_origins = list(&value);
        } else if text::same(name, "--blocked-origins") {
            c.blocked_origins = list(&value);
        } else if text::same(name, "--output-dir") {
            c.output_dir = value;
        } else if text::same(name, "--snapshot-mode") {
            if !text::same(&value, "incremental") && !text::same(&value, "full") && !text::same(&value, "none") {
                return Err(ArgError::SnapshotMode);
            }
            c.snapshot_mode = value;
        } else if text::same(name, "--snapshot-max-chars") {
            match text::parse_number(&value, usize::MAX as u64) {
                Some(n) => {
                    c.snapshot_max_chars = n as usize;
                },
                None => {
                    return Err(ArgError::NotANumber { name: name.to_string(), value });
                },
            }
        } else if text::same(name, "--test-id-attribute") {
            c.test_id_attribute = value;
        } else if text::same(name, "--browser") {
            if !text::same(&value, "chromium") && !text::same(&value, "chrome") {
                return Err(ArgError::Browser);
            }
        } else {
            match text::parse_number(&value, u64::MAX) {
                None => {
                    return Err(ArgError::NotANumber { name: name.to_string(), value });
                },
                Some(n) => {
                    if text::same(name, "--timeout-action") {
                        c.timeout_action = n;
                    } else if text::same(name, "--timeout-navigation") {
                        c.timeout_navigation = n;
                    } else {
                        c.timeout_settle = n;
                    }
                },
            }
        }
        Ok(c)
    }
}

/// Reads the command line from argument `from` on, with the settings made so far. Where an option
/// names a script, reading stops until the file is read.
pub fn parse_args(args: &Vec<String>, from: usize, cfg: Config) -> (r: ArgStep)
    requires
        from <= args@.len(),
    ensures
        step_of(r, text::views(args@)) == read_args(text::views(args@).skip(from as int), cfg@),
        r is Read ==> from < r->next <= args@.len(),
        cfg.wf() ==> match r {
            ArgStep::Run(c) => c.wf(),
            ArgStep::Read { path, next, cfg: c } => c.wf(),
            _ => true,
        },
{
    let ghost all = text::views(args@);
    let ghost start = cfg@;
    let mut c = cfg;
    let mut i: usize = from;
    while i < args.len()
        invariant
            from <= i <= args@.len(),
            all == text::views(args@),
            start == cfg@,
            cfg.wf() ==> c.wf(),
            read_args(all.skip(from as int), start) == read_args(all.skip(i as int), c@),
        decreases args@.len() - i,
    {
        let ghost rest = all.skip(i as int);
        proof {
            assert(rest[0] == args@[i as int]@);
            assert(rest.skip(1) =~= all.skip(i + 1));
            if i + 1 < args@.len() {
                assert(rest[1] == args@[i + 1]@);
                assert(rest.skip(2) =~= all.skip(i + 2));
            }
        }
        let (name, inline) = split_option(&args[i]);
        if text::same(&name, "install") {
            return ArgStep::Install;
        }
        if text::same(&name, "-h") || text::same(&name, "--help") {
            return ArgStep::Help;
        }
        if text::same(&name, "-V") || text::same(&name, "--version") {
            return ArgStep::Version;
        }
        if flag(&name) {
            c = c.set_flag(&name);
            i = i + 1;
        } else if !valued(&name) {
            return ArgStep::Fail(ArgError::Unknown(name));
        } else {
            let (value, next): (String, usize) = match inline {
                Some(v) => (v, i + 1),
                None => {
                    if args.len() - i < 2 {
                        return ArgStep::Fail(ArgError::NeedsValue(name));
                    }
                    (args[i + 1].clone(), i + 2)
                },
            };
            if text::same(&name, "--init-script") {
                return ArgStep::Read { path: value, next, cfg: c };
            }
            match c.set_value(&name, value) {
                Ok(n) => {
                    c = n;
                },
                Err(e) => {
                    return ArgStep::Fail(e);
                },
            }
            i = next;
        }
    }
    ArgStep::Run(c)
}

/// `--name=value` sets what `--name value` sets.
pub proof fn law_inline_value(name: Text, value: Text, rest: Seq<Text>, cfg: ConfigV)
    requires
        takes_value(name),
    ensures
        read_args(seq![name + "="@ + value] + rest, cfg) == read_args(seq![name, value] + rest, cfg),
{
    let one = seq![name + "="@ + value] + rest;
    let two = seq![name, value] + rest;
    lemma_option_name(name);
    lemma_option_inline(name, value);
    assert(one[0] == name + "="@ + value);
    assert(two[0] == name && two[1] == value);
    assert(one.skip(1) =~= rest);
    assert(two.skip(2) =~= rest);
}

/// A text begins with two dashes and holds no equals sign.
spec fn plain_option(name: Text) -> bool {
    text::text_starts(name, "--"@) && !name.contains('=')
}

proof fn lemma_option_name(name: Text)
    requires
        takes_value(name),
    ensures
        plain_option(name),
        !is_flag(name),
        option_parts(name) == (name, None::<Text>),
{
    reveal_strlit("--headless");
    reveal_strlit("--headed");
    reveal_strlit("--isolated");
    reveal_strlit("--ignore-https-errors");
    reveal_strlit("--block-service-workers");
    reveal_strlit("--");
    reveal_strlit("=");
    reveal_strlit("--caps");
    reveal_strlit("--capabilities");
    reveal_strlit("--executable-path");
    reveal_strlit("--user-data-dir");
    reveal_strlit("--storage-state");
    reveal_strlit("--viewport-size");
    reveal_strlit("--user-agent");
    reveal_strlit("--proxy-server");
    reveal_strlit("--proxy-bypass");
    reveal_strlit("--allowed-origins");
    reveal_strlit("--blocked-origins");
    reveal_strlit("--init-script");
    reveal_strlit("--output-dir");
    reveal_strlit("--snapshot-mode");
    reveal_strlit("--snapshot-max-chars");
    reveal_strlit("--timeout-action");
    reveal_strlit("--timeout-navigation");
    reveal_strlit("--timeout-settle");
    reveal_strlit("--test-id-attribute");
    reveal_strlit("--browser");
    assert(name.subrange(0, 2) =~= "--"@);
    assert(!name.contains('='));
    text::lemma_find_from(name, "="@, 0);
    if text::find_from(name, "="@, 0) is Some {
        let k = text::find_from(name, "="@, 0)->0;
        assert(name.subrange(k, k + 1)[0] == '=');
        assert(name[k] == '=');
    }
}

proof fn lemma_option_inline(name: Text, value: Text)
    requires
        plain_option(name),
    ensures
        option_parts(name + "="@ + value) == (name, Some(value)),
{
    reveal_strlit("=");
    let s = name + "="@ + value;
    let n = name.len() as int;
    text::lemma_find_from(s, "="@, 0);
    assert(s.subrange(n, n + 1) =~= "="@);
    assert(text::occurs_at(s, "="@, n));
    let k = text::find_from(s, "="@, 0)->0;
    if k < n {
        assert(s.subrange(k, k + 1)[0] == '=');
        assert(name[k] == '=');
    }
    assert(s.take(n) =~= name);
    assert(s.skip(n + 1) =~= value);
}

// ---------------------------------------------------------------------- what options set

proof fn lemma_option_names()
    ensures
        "-h"@.len() == 2 && "-h"@[1] == 'h',
        "-V"@.len() == 2 && "-V"@[1] == 'V',
        "--caps"@.len() == 6 && "--caps"@[2] == 'c',
        "--help"@.len() == 6 && "--help"@[2] == 'h',
        "install"@.len() == 7,
        "--headed"@.len() == 8,
        "--browser"@.len() == 9 && "--browser"@[2] == 'b',
        "--version"@.len() == 9 && "--version"@[2] == 'v',
        "--headless"@.len() == 10 && "--headless"@[2] == 'h',
        "--isolated"@.len() == 10 && "--isolated"@[2] == 'i',
        "--user-agent"@.len() == 12 && "--user-agent"@[2] == 'u',
        "--output-dir"@.len() == 12 && "--output-dir"@[2] == 'o',
        "--init-script"@.len() == 13,
        "--capabilities"@.len() == 14 && "--capabilities"@[8] == 'l',
        "--proxy-server"@.len() == 14 && "--proxy-server"@[8] == 's',
        "--proxy-bypass"@.len() == 14 && "--proxy-bypass"@[8] == 'b',
        "--user-data-dir"@.len() == 15 && "--user-data-dir"@[3] == 's',
        "--storage-state"@.len() == 15 && "--storage-state"@[3] == 't',
        "--viewport-size"@.len() == 15 && "--viewport-size"@[3] == 'i',
        "--snapshot-mode"@.len() == 15 && "--snapshot-mode"@[3] == 'n',
        "--timeout-action"@.len() == 16 && "--timeout-action"@[10] == 'a',
        "--timeout-settle"@.len() == 16 && "--timeout-settle"@[10] == 's',
        "--executable-path"@.len() == 17 && "--executable-path"@[2] == 'e',
        "--allowed-origins"@.len() == 17 && "--allowed-origins"@[2] == 'a',
        "--blocked-origins"@.len() == 17 && "--blocked-origins"@[2] == 'b',
        "--test-id-attribute"@.len() == 19,
        "--snapshot-max-chars"@.len() == 20 && "--snapshot-max-chars"@[2] == 's',
        "--timeout-navigation"@.len() == 20 && "--timeout-navigation"@[2] == 't',
        "--ignore-https-errors"@.len() == 21,
        "--block-service-workers"@.len() == 23,
{
    reveal_strlit("--caps");
    reveal_strlit("--capabilities");
    reveal_strlit("--executable-path");
    reveal_strlit("--user-data-dir");
    reveal_strlit("--storage-state");
    reveal_strlit("--viewport-size");
    reveal_strlit("--user-agent");
    reveal_strlit("--proxy-server");
    reveal_strlit("--proxy-bypass");
    reveal_strlit("--allowed-origins");
    reveal_strlit("--blocked-origins");
    reveal_strlit("--init-script");
    reveal_strlit("--output-dir");
    reveal_strlit("--snapshot-mode");
    reveal_strlit("--snapshot-max-chars");
    reveal_strlit("--timeout-action");
    reveal_strlit("--timeout-navigation");
    reveal_strlit("--timeout-settle");
    reveal_strlit("--test-id-attribute");
    reveal_strlit("--browser");
    reveal_strlit("--headless");
    reveal_strlit("--headed");
    reveal_strlit("--isolated");
    reveal_strlit("--ignore-https-errors");
    reveal_strlit("--block-service-workers");
    reveal_strlit("install");
    reveal_strlit("-h");
    reveal_strlit("--help");
    reveal_strlit("-V");
    reveal_strlit("--version");
    assert("-h"@.len() == 2 && "-h"@[1] == 'h');
    assert("-V"@.len() == 2 && "-V"@[1] == 'V');
    assert("--caps"@.len() == 6 && "--caps"@[2] == 'c');
    assert("--help"@.len() == 6 && "--help"@[2] == 'h');
    assert("install"@.len() == 7);
    assert("--headed"@.len() == 8);
    assert("--browser"@.len() == 9 && "--browser"@[2] == 'b');
    assert("--version"@.len() == 9 && "--version"@[2] == 'v');
    assert("--headless"@.len() == 10 && "--headless"@[2] == 'h');
    assert("--isolated"@.len() == 10 && "--isolated"@[2] == 'i');
    assert("--user-agent"@.len() == 12 && "--user-agent"@[2] == 'u');
    assert("--output-dir"@.len() == 12 && "--output-dir"@[2] == 'o');
    assert("--init-script"@.len() == 13);
    assert("--capabilities"@.len() == 14 && "--capabilities"@[8] == 'l');
    assert("--proxy-server"@.len() == 14 && "--proxy-server"@[8] == 's');
    assert("--proxy-bypass"@.len() == 14 && "--proxy-bypass"@[8] == 'b');
    assert("--user-data-dir"@.len() == 15 && "--user-data-dir"@[3] == 's');
    assert("--storage-state"@.len() == 15 && "--storage-state"@[3] == 't');
    assert("--viewport-size"@.len() == 15 && "--viewport-size"@[3] == 'i');
    assert("--snapshot-mode"@.len() == 15 && "--snapshot-mode"@[3] == 'n');
    assert("--timeout-action"@.len() == 16 && "--timeout-action"@[10] == 'a');
    assert("--timeout-settle"@.len() == 16 && "--timeout-settle"@[10] == 's');
    assert("--executable-path"@.len() == 17 && "--executable-path"@[2] == 'e');
    assert("--allowed-origins"@.len() == 17 && "--allowed-origins"@[2] == 'a');
    assert("--blocked-origins"@.len() == 17 && "--blocked-origins"@[2] == 'b');
    assert("--test-id-attribute"@.len() == 19);
    assert("--snapshot-max-chars"@.len() == 20 && "--snapshot-max-chars"@[2] == 's');
    assert("--timeout-navigation"@.len() == 20 && "--timeout-navigation"@[2] == 't');
    assert("--ignore-https-errors"@.len() == 21);
    assert("--block-service-workers"@.len() == 23);
}

/// Each option with a value sets its own setting, to that value, and leaves all others as they are.
pub proof fn law_options_set_their_settings(cfg: ConfigV, value: Text)
    ensures
        set_value(cfg, "--executable-path"@, value) == Ok::<ConfigV, ArgErrorV>(
            ConfigV { executable: Some(value), ..cfg },
        ),
        set_value(cfg, "--user-data-dir"@, value) == Ok::<ConfigV, ArgErrorV>(
            ConfigV { user_data_dir: Some(value), ..cfg },
        ),
        set_value(cfg, "--storage-state"@, value) == Ok::<ConfigV, ArgErrorV>(
            ConfigV { storage_state: Some(value), ..cfg },
        ),
        set_value(cfg, "--user-agent"@, value) == Ok::<ConfigV, ArgErrorV>(ConfigV { user_agent: Some(value), ..cfg }),
        set_value(cfg, "--proxy-server"@, value) == Ok::<ConfigV, ArgErrorV>(
            ConfigV { proxy_server: Some(value), ..cfg },
        ),
        set_value(cfg, "--proxy-bypass"@, value) == Ok::<ConfigV, ArgErrorV>(
            ConfigV { proxy_bypass: Some(value), ..cfg },
        ),
        set_value(cfg, "--allowed-origins"@, value) == Ok::<ConfigV, ArgErrorV>(
            ConfigV { allowed_origins: list_items(value), ..cfg },
        ),
        set_value(cfg, "--blocked-origins"@, value) == Ok::<ConfigV, ArgErrorV>(
            ConfigV { blocked_origins: list_items(value), ..cfg },
        ),
        set_value(cfg, "--output-dir"@, value) == Ok::<ConfigV, ArgErrorV>(ConfigV { output_dir: value, ..cfg }),
        set_value(cfg, "--test-id-attribute"@, value) == Ok::<ConfigV, ArgErrorV>(
            ConfigV { test_id_attribute: value, ..cfg },
        ),
{
    lemma_option_names();
}

/// Capabilities add up, under either name of the option.
pub proof fn law_capabilities_add_up(cfg: ConfigV, value: Text, cap: Text)
    ensures
        ({
            let a = set_value(cfg, "--caps"@, value);
            &&& a == set_value(cfg, "--capabilities"@, value)
            &&& a is Ok
            &&& a->Ok_0 == (ConfigV { caps: (a->Ok_0).caps, ..cfg })
            &&& (a->Ok_0).caps.contains(cap) <==> cfg.caps.contains(cap) || list_items(value).contains(cap)
        }),
{
    lemma_option_names();
}

/// The numbers of options: decimal, of the size that the setting holds; any other text is refused.
pub proof fn law_numbers_of_options(cfg: ConfigV, value: Text)
    ensures
        ({
            let n = text::number_value(value);
            let fits = n is Some && n->0 <= u64::MAX;
            let counts = n is Some && n->0 <= usize::MAX;
            &&& fits ==> set_value(cfg, "--timeout-action"@, value) == Ok::<ConfigV, ArgErrorV>(
                ConfigV { timeout_action: n->0, ..cfg },
            )
            &&& fits ==> set_value(cfg, "--timeout-navigation"@, value) == Ok::<ConfigV, ArgErrorV>(
                ConfigV { timeout_navigation: n->0, ..cfg },
            )
            &&& fits ==> set_value(cfg, "--timeout-settle"@, value) == Ok::<ConfigV, ArgErrorV>(
                ConfigV { timeout_settle: n->0, ..cfg },
            )
            &&& counts ==> set_value(cfg, "--snapshot-max-chars"@, value) == Ok::<ConfigV, ArgErrorV>(
                ConfigV { snapshot_max_chars: n->0, ..cfg },
            )
            &&& !fits ==> set_value(cfg, "--timeout-action"@, value) is Err && set_value(
                cfg,
                "--timeout-navigation"@,
                value,
            ) is Err && set_value(cfg, "--timeout-settle"@, value) is Err
            &&& !counts ==> set_value(cfg, "--snapshot-max-chars"@, value) == Err::<ConfigV, ArgErrorV>(
                ArgErrorV::NotANumber("--snapshot-max-chars"@, value),
            )
        }),
{
    lemma_option_names();
}

/// Settings with a few values take these and no others.
pub proof fn law_choices_of_options(cfg: ConfigV, value: Text)
    ensures
        value == "incremental"@ || value == "full"@ || value == "none"@ ==> set_value(cfg, "--snapshot-mode"@, value)
            == Ok::<ConfigV, ArgErrorV>(ConfigV { snapshot_mode: value, ..cfg }),
        value != "incremental"@ && value != "full"@ && value != "none"@ ==> set_value(cfg, "--snapshot-mode"@, value)
            == Err::<ConfigV, ArgErrorV>(ArgErrorV::SnapshotMode),
        value == "chromium"@ || value == "chrome"@ ==> set_value(cfg, "--browser"@, value) == Ok::<ConfigV, ArgErrorV>(cfg),
        value != "chromium"@ && value != "chrome"@ ==> set_value(cfg, "--browser"@, value) == Err::<ConfigV, ArgErrorV>(
            ArgErrorV::Browser,
        ),
{
    lemma_option_names();
}

/// A viewport is two numbers with an `x` or a comma between them; blanks around them do not count.
pub proof fn law_viewports(cfg: ConfigV, w: u32, h: u32)
    ensures
        viewport_of(text::dec(w as nat) + "x"@ + text::dec(h as nat)) == Ok::<(u32, u32), ArgErrorV>((w, h)),
        set_value(cfg, "--viewport-size"@, text::dec(w as nat) + "x"@ + text::dec(h as nat)) == Ok::<ConfigV, ArgErrorV>(
            ConfigV { viewport: Some((w, h)), ..cfg },
        ),
        viewport_of(text::dec(w as nat)) == Err::<(u32, u32), ArgErrorV>(ArgErrorV::Viewport),
{
    lemma_option_names();
    reveal_strlit("x");
    reveal_strlit("x,");
    let a = text::dec(w as nat);
    let b = text::dec(h as nat);
    let s = a + "x"@ + b;
    let seps = "x,"@;
    assert("x"@.len() == 1 && "x"@[0] == 'x');
    assert(seps.len() == 2 && seps[0] == 'x' && seps[1] == ',');
    text::law_numbers_are_read_back(w as nat);
    text::law_numbers_are_read_back(h as nat);
    text::law_cut_at_the_first_of(s, seps);
    text::law_cut_at_the_first_of(a, seps);
    assert(s[a.len() as int] == 'x');
    assert(seps.contains(s[a.len() as int]));
    assert forall|j: int| 0 <= j < a.len() implies !seps.contains(#[trigger] s[j]) by {
        assert(s[j] == a[j]);
    }
    let (l, r) = text::cut_at_any(s, seps)->0;
    if l.len() < a.len() {
        assert(!seps.contains(s[l.len() as int]));
    } else if l.len() > a.len() {
        assert(s.take(l.len() as int)[a.len() as int] == s[a.len() as int]);
        assert(l[a.len() as int] == s[a.len() as int]);
    }
    assert(l =~= a) by {
        assert forall|i: int| 0 <= i < a.len() implies l[i] == a[i] by {
            assert(s[i] == a[i]);
        }
    }
    assert(r =~= b) by {
        assert forall|i: int| 0 <= i < b.len() implies r[i] == b[i] by {
            assert(s[a.len() + 1 + i] == b[i]);
        }
    }
    lemma_digits_trimmed(w as nat);
    lemma_digits_trimmed(h as nat);
    assert forall|j: int| 0 <= j < a.len() implies !seps.contains(#[trigger] a[j]) by {
        assert('0' <= a[j] <= '9');
    }
    if text::cut_at_any(a, seps) is Some {
        let (c, _) = text::cut_at_any(a, seps)->0;
        assert(seps.contains(a[c.len() as int]));
    }
}

proof fn lemma_digits_trimmed(n: nat)
    ensures
        text::trimmed(text::dec(n)) == text::dec(n),
{
    let d = text::dec(n);
    let none = Seq::<char>::empty();
    text::law_numbers_are_read_back(n);
    assert('0' <= d[0] <= '9' && '0' <= d[d.len() - 1] <= '9');
    text::law_trimming(none, d, none);
    assert(none + d + none =~= d);
}

/// Options without a value set their own setting, and leave all others as they are.
pub proof fn law_flags_set_their_settings(cfg: ConfigV)
    ensures
        set_flag(cfg, "--headless"@) == (ConfigV { headless: true, ..cfg }),
        set_flag(cfg, "--headed"@) == (ConfigV { headless: false, ..cfg }),
        set_flag(cfg, "--isolated"@) == (ConfigV { isolated: true, ..cfg }),
        set_flag(cfg, "--ignore-https-errors"@) == (ConfigV { ignore_https_errors: true, ..cfg }),
        set_flag(cfg, "--block-service-workers"@) == (ConfigV { block_service_workers: true, ..cfg }),
{
    lemma_option_names();
}

/// A list is written with semicolons or commas between its items; blanks around an item do not count, and
/// an item of blanks is none.
pub proof fn law_lists_have_items(parts: Seq<Text>)
    ensures
        positions::shows(
            items(parts),
            parts.len() as int,
            |j: int| text::trimmed(parts[j]).len() > 0,
            |j: int| text::trimmed(parts[j]),
        ),
{
    lemma_items(
        parts,
        parts.len() as int,
        |j: int| text::trimmed(parts[j]).len() > 0,
        |j: int| text::trimmed(parts[j]),
    );
    assert(parts.take(parts.len() as int) =~= parts);
}

proof fn lemma_items(parts: Seq<Text>, n: int, chosen: spec_fn(int) -> bool, show: spec_fn(int) -> Text)
    requires
        0 <= n <= parts.len(),
        forall|j: int| 0 <= j < parts.len() ==> #[trigger] chosen(j) == (text::trimmed(parts[j]).len() > 0),
        forall|j: int| 0 <= j < parts.len() ==> #[trigger] show(j) == text::trimmed(parts[j]),
    ensures
        positions::shows(items(parts.take(n)), n, chosen, show),
    decreases n,
{
    let list = items(parts.take(n));
    if n == 0 {
        positions::lemma_shows_none(list, chosen, show);
    } else {
        lemma_items(parts, n - 1, chosen, show);
        assert(parts.take(n).drop_last() =~= parts.take(n - 1));
        assert(parts.take(n).last() == parts[n - 1]);
        assert(chosen(n - 1) == (text::trimmed(parts[n - 1]).len() > 0));
        assert(show(n - 1) == text::trimmed(parts[n - 1]));
        positions::lemma_shows_next(items(parts.take(n - 1)), list, n - 1, chosen, show);
    }
}

/// The separators of a list are semicolons and commas.
pub proof fn law_list_separators(s: Text)
    ensures
        list_items(s) == items(text::pieces(s, seq![';', ','])),
{
    reveal_strlit(";,");
    assert(";,"@ =~= seq![';', ',']);
}

/// The command line is read from the front: without arguments the server runs with the settings made so
/// far, a flag is set and the rest is read, and what is no option is refused.
pub proof fn law_command_lines(cfg: ConfigV, rest: Seq<Text>, arg: Text)
    ensures
        read_args(Seq::empty(), cfg) == StepV::Run(cfg),
        read_args(seq!["--headless"@] + rest, cfg) == read_args(rest, ConfigV { headless: true, ..cfg }),
        read_args(seq!["--headed"@] + rest, cfg) == read_args(rest, ConfigV { headless: false, ..cfg }),
        read_args(seq!["--isolated"@] + rest, cfg) == read_args(rest, ConfigV { isolated: true, ..cfg }),
        read_args(seq!["--ignore-https-errors"@] + rest, cfg) == read_args(
            rest,
            ConfigV { ignore_https_errors: true, ..cfg },
        ),
        read_args(seq!["--block-service-workers"@] + rest, cfg) == read_args(
            rest,
            ConfigV { block_service_workers: true, ..cfg },
        ),
        read_args(seq!["install"@] + rest, cfg) == StepV::Install,
        read_args(seq!["-h"@] + rest, cfg) == StepV::Help && read_args(seq!["--help"@] + rest, cfg) == StepV::Help,
        read_args(seq!["-V"@] + rest, cfg) == StepV::Version && read_args(seq!["--version"@] + rest, cfg)
            == StepV::Version,
        !takes_value(arg) && !is_flag(arg) && !arg.contains('=') && arg != "install"@ && arg != "-h"@ && arg != "--help"@
            && arg != "-V"@ && arg != "--version"@ ==> read_args(seq![arg] + rest, cfg) == StepV::Fail(
            ArgErrorV::Unknown(arg),
        ),
{
    lemma_option_names();
    lemma_no_equals();
    lemma_read_plain("--headless"@, rest, cfg);
    lemma_read_plain("--headed"@, rest, cfg);
    lemma_read_plain("--isolated"@, rest, cfg);
    lemma_read_plain("--ignore-https-errors"@, rest, cfg);
    lemma_read_plain("--block-service-workers"@, rest, cfg);
    lemma_read_plain("install"@, rest, cfg);
    lemma_read_plain("-h"@, rest, cfg);
    lemma_read_plain("--help"@, rest, cfg);
    lemma_read_plain("-V"@, rest, cfg);
    lemma_read_plain("--version"@, rest, cfg);
    lemma_read_plain(arg, rest, cfg);
    law_flags_set_their_settings(cfg);
}

proof fn lemma_no_equals()
    ensures
        !"--headless"@.contains('='),
        !"--headed"@.contains('='),
        !"--isolated"@.contains('='),
        !"--ignore-https-errors"@.contains('='),
        !"--block-service-workers"@.contains('='),
        !"install"@.contains('='),
        !"-h"@.contains('='),
        !"--help"@.contains('='),
        !"-V"@.contains('='),
        !"--version"@.contains('='),
{
    reveal_strlit("--headless");
    reveal_strlit("--headed");
    reveal_strlit("--isolated");
    reveal_strlit("--ignore-https-errors");
    reveal_strlit("--block-service-workers");
    reveal_strlit("install");
    reveal_strlit("-h");
    reveal_strlit("--help");
    reveal_strlit("-V");
    reveal_strlit("--version");
}

proof fn lemma_read_plain(arg: Text, rest: Seq<Text>, cfg: ConfigV)
    ensures
        (seq![arg] + rest)[0] == arg,
        (seq![arg] + rest).skip(1) == rest,
        !arg.contains('=') ==> option_parts(arg) == (arg, None::<Text>),
{
    let all = seq![arg] + rest;
    assert(all.skip(1) =~= rest);
    reveal_strlit("=");
    assert("="@.len() == 1 && "="@[0] == '=');
    text::law_cut_at_the_first(arg, "="@);
    if text::cut_at(arg, "="@) is Some {
        let (a, b) = text::cut_at(arg, "="@)->0;
        assert((a + "="@ + b)[a.len() as int] == '=');
        assert(arg[a.len() as int] == '=');
    }
}

/// An option's value is the argument behind it, and the rest is read on with the setting made; an option
/// without one is refused, and so is one whose value is; the script of `--init-script` is read first.
pub proof fn law_option_values(name: Text, value: Text, rest: Seq<Text>, cfg: ConfigV)
    requires
        takes_value(name),
    ensures
        read_args(seq![name], cfg) == StepV::Fail(ArgErrorV::NeedsValue(name)),
        name == "--init-script"@ ==> read_args(seq![name, value] + rest, cfg) == StepV::Read(value, rest, cfg),
        name != "--init-script"@ ==> read_args(seq![name, value] + rest, cfg) == match set_value(cfg, name, value) {
            Ok(c) => read_args(rest, c),
            Err(e) => StepV::Fail(e),
        },
{
    lemma_option_name(name);
    lemma_option_names();
    let one = seq![name];
    let two = seq![name, value] + rest;
    assert(two[0] == name && two[1] == value);
    assert(two.skip(2) =~= rest);
    assert(one[0] == name);
    assert(name != "install"@ && name != "-h"@ && name != "--help"@ && name != "-V"@ && name != "--version"@);
}

/// The options that there are.
pub proof fn law_options(name: Text)
    ensures
        takes_value(name) <==> name == "--caps"@ || name == "--capabilities"@ || name == "--executable-path"@ || name == "--user-data-dir"@ || name == "--storage-state"@ || name == "--viewport-size"@ || name == "--user-agent"@ || name == "--proxy-server"@ || name == "--proxy-bypass"@ || name == "--allowed-origins"@ || name == "--blocked-origins"@ || name == "--init-script"@ || name == "--output-dir"@ || name == "--snapshot-mode"@ || name == "--snapshot-max-chars"@ || name == "--timeout-action"@ || name == "--timeout-navigation"@ || name == "--timeout-settle"@ || name == "--test-id-attribute"@ || name == "--browser"@,
        is_flag(name) <==> name == "--headless"@ || name == "--headed"@ || name == "--isolated"@ || name == "--ignore-https-errors"@ || name == "--block-service-workers"@,
{
}

/// What is said of arguments that are refused.
pub proof fn law_refusals(n: Text, v: Text)
    ensures
        ArgErrorV::NeedsValue(n).message() == n + " needs a value"@,
        ArgErrorV::Viewport.message() == "--viewport-size must look like 1280x720"@,
        ArgErrorV::NotANumber(n, v).message() == n + ": not a number"@,
        ArgErrorV::SnapshotMode.message() == "--snapshot-mode must be incremental, full or none"@,
        ArgErrorV::Browser.message() == "only chromium is supported"@,
        ArgErrorV::Unknown(n).message() == "unknown option "@ + n + "; see --help"@,
{
}

/// The settings before any option: headless, with a lasting profile, no lists of origins, and the
/// timeouts and limits that the help tells.
pub proof fn law_defaults(executable: Option<Text>, temp_dir: Text)
    ensures
        ({
            let c = defaults(executable, temp_dir);
            &&& c.executable == executable
            &&& c.headless && !c.isolated && !c.ignore_https_errors && !c.block_service_workers
            &&& c.user_data_dir is None && c.viewport is None && c.user_agent is None && c.proxy_server is None
            &&& c.proxy_bypass is None && c.storage_state is None
            &&& c.init_scripts.len() == 0 && c.allowed_origins.len() == 0 && c.blocked_origins.len() == 0
            &&& c.timeout_action == 5000 && c.timeout_navigation == 60000 && c.timeout_settle == 500
            &&& c.test_id_attribute == "data-testid"@ && c.snapshot_mode == "incremental"@ && c.snapshot_max_chars == 50000
            &&& c.caps == Set::<Text>::empty()
            &&& c.output_dir == path::joined_path(temp_dir, "browser-mcp-rs"@)
        }),
{
}

} // verus!
