//! The tools of the server's capabilities: cookies and storage, routes and the network's state,
//! settings, highlights, and checks for tests.

use crate::actions;
use crate::browser;
use crate::cdp;
use crate::cdp::Command;
use crate::config;
use crate::config::Config;
use crate::install;
use crate::json;
use crate::json::Json;
use crate::json::JsonV;
use crate::params::CookieListParams;
use crate::params::CookieSetParams;
use crate::params::HighlightParams;
use crate::params::NameParams;
use crate::params::NetworkStateParams;
use crate::params::OptTargetParams;
use crate::params::RouteParams;
use crate::params::VerifyElementParams;
use crate::params::VerifyListParams;
use crate::params::VerifyTextParams;
use crate::params::VerifyValueParams;
use crate::pattern;
use crate::project;
use crate::reply;
use crate::reply::Reply;
use crate::server::BrowserServer;
use crate::state;
use crate::state::Route;
use crate::state::RouteV;
use crate::text;
use crate::text::Text;
use crate::tools;
use vstd::prelude::*;

verus! {

// ---------------------------------------------------------------------- cookies

/// The cookies of a name.
pub open spec fn cookies_named(cookies: Seq<JsonV>, name: Text) -> Seq<JsonV> {
    cookies.filter(|c: JsonV| c.at("name"@) == JsonV::Str(name))
}

/// The cookies whose domain contains one text and whose path starts with another.
pub open spec fn cookies_at(cookies: Seq<JsonV>, domain: Option<Text>, path: Option<Text>) -> Seq<JsonV> {
    cookies.filter(
        |c: JsonV|
            (domain is Some ==> text::text_has(c.at("domain"@).text(), domain->0)) && (path is Some
                ==> text::text_starts(c.at("path"@).text(), path->0)),
    )
}

/// The indented text of a list that is not empty.
pub open spec fn shown_list(list: Seq<JsonV>) -> Option<Text> {
    if list.len() == 0 {
        None
    } else {
        Some(json::pretty_text(JsonV::Arr(list)))
    }
}

fn show(list: Vec<Json>) -> (r: Option<String>)
    ensures
        text::opt_text(r) == shown_list(text::views(list@)),
{
    if list.len() == 0 {
        return None;
    }
    proof {
        json::lemma_arr(list);
    }
    Some(Json::Arr(list).pretty())
}

proof fn lemma_filter_step<T>(s: Seq<T>, i: int, f: spec_fn(T) -> bool)
    requires
        0 <= i < s.len(),
    ensures
        s.take(i + 1).filter(f) == if f(s[i]) {
            s.take(i).filter(f).push(s[i])
        } else {
            s.take(i).filter(f)
        },
{
    reveal(Seq::filter);
    let t = s.take(i + 1);
    assert(t.drop_last() =~= s.take(i));
    assert(t.last() == s[i]);
}

impl BrowserServer {
    /// The cookies of a name.
    pub fn named_cookies(cookies: &Vec<Json>, p: &NameParams) -> (r: Vec<Json>)
        ensures
            text::views(r@) == cookies_named(text::views(cookies@), p.name@),
    {
        broadcast use text::group_views;

        let ghost all = text::views(cookies@);
        let ghost f = |c: JsonV| c.at("name"@) == JsonV::Str(p.name@);
        let mut out: Vec<Json> = Vec::new();
        let mut i: usize = 0;
        proof {
            reveal(Seq::filter);
            assert(all.take(0).filter(f) =~= Seq::empty());
        }
        while i < cookies.len()
            invariant
                i <= cookies@.len(),
                all == text::views(cookies@),
                f == (|c: JsonV| c.at("name"@) == JsonV::Str(p.name@)),
                text::views(out@) == all.take(i as int).filter(f),
            decreases cookies@.len() - i,
        {
            broadcast use text::group_views;

            proof {
                lemma_filter_step(all, i as int, f);
                assert(all[i as int] == cookies@[i as int]@);
            }
            if cookies[i].at("name").is_str(&p.name) {
                out.push(cookies[i].clone());
            }
            i = i + 1;
        }
        proof {
            assert(all.take(all.len() as int) =~= all);
        }
        out
    }

    /// The cookies that a list is asked for.
    pub fn listed_cookies(cookies: &Vec<Json>, p: &CookieListParams) -> (r: Vec<Json>)
        ensures
            text::views(r@) == cookies_at(text::views(cookies@), text::opt_text(p.domain), text::opt_text(p.path)),
    {
        broadcast use text::group_views;

        let ghost all = text::views(cookies@);
        let ghost domain = text::opt_text(p.domain);
        let ghost path = text::opt_text(p.path);
        let ghost f = |c: JsonV|
            (domain is Some ==> text::text_has(c.at("domain"@).text(), domain->0)) && (path is Some
                ==> text::text_starts(c.at("path"@).text(), path->0));
        let mut out: Vec<Json> = Vec::new();
        let mut i: usize = 0;
        proof {
            reveal(Seq::filter);
            assert(all.take(0).filter(f) =~= Seq::empty());
        }
        while i < cookies.len()
            invariant
                i <= cookies@.len(),
                all == text::views(cookies@),
                domain == text::opt_text(p.domain),
                path == text::opt_text(p.path),
                f == (|c: JsonV|
                    (domain is Some ==> text::text_has(c.at("domain"@).text(), domain->0)) && (path is Some
                        ==> text::text_starts(c.at("path"@).text(), path->0))),
                text::views(out@) == all.take(i as int).filter(f),
            decreases cookies@.len() - i,
        {
            broadcast use text::group_views;

            proof {
                lemma_filter_step(all, i as int, f);
                assert(all[i as int] == cookies@[i as int]@);
            }
            let in_domain = match &p.domain {
                Some(d) => text::contains(&cookies[i].at("domain").text(), d),
                None => true,
            };
            let in_path = match &p.path {
                Some(x) => text::starts_with(&cookies[i].at("path").text(), x),
                None => true,
            };
            if in_domain && in_path {
                out.push(cookies[i].clone());
            }
            i = i + 1;
        }
        proof {
            assert(all.take(all.len() as int) =~= all);
        }
        out
    }

    /// Deletes a cookie.
    pub fn delete_cookie(session: &str, c: &Json) -> (r: Command)
        ensures
            r@ == cdp::to_session(
                session@,
                "Network.deleteCookies"@,
                JsonV::obj().with("name"@, c@.at("name"@)).with("domain"@, c@.at("domain"@)).with(
                    "path"@,
                    c@.at("path"@),
                ),
            ),
    {
        Command::session(
            session,
            "Network.deleteCookies",
            Json::obj().with("name", c.at("name").clone()).with("domain", c.at("domain").clone()).with(
                "path",
                c.at("path").clone(),
            ),
        )
    }

    pub fn browser_cookie_delete(p: &NameParams, deleted: usize) -> (r: Reply)
        ensures
            r@ == reply::plain_reply("Deleted "@ + text::dec(deleted as nat) + " cookie(s) named "@ + p.name@),
    {
        let mut s = text::concat("Deleted ", &text::decimal(deleted as u128));
        s.append(" cookie(s) named ");
        s.append(&p.name);
        Reply::raw(s)
    }

    /// The reply that shows the cookies of a name, as they were printed, where there are any.
    pub fn shown_cookie(p: &NameParams, shown: Option<String>) -> (r: Reply)
        ensures
            r@ == reply::plain_reply(tools::or_text(text::opt_text(shown), "No cookie named "@ + p.name@)),
    {
        match shown {
            Some(s) => Reply::raw(s),
            None => Reply::raw(text::concat("No cookie named ", &p.name)),
        }
    }

    /// The reply that shows the cookies of a name out of all cookies.
    pub fn browser_cookie_get(p: &NameParams, cookies: &Vec<Json>) -> (r: Reply)
        ensures
            r@ == reply::plain_reply(
                tools::or_text(
                    shown_list(cookies_named(text::views(cookies@), p.name@)),
                    "No cookie named "@ + p.name@,
                ),
            ),
    {
        Self::shown_cookie(p, show(Self::named_cookies(cookies, p)))
    }

    /// The reply that shows cookies, as they were printed, where there are any.
    pub fn shown_cookies(shown: Option<String>) -> (r: Reply)
        ensures
            r@ == reply::plain_reply(tools::or_text(text::opt_text(shown), "No cookies"@)),
    {
        match shown {
            Some(s) => Reply::raw(s),
            None => Reply::raw("No cookies".to_string()),
        }
    }

    /// The reply that shows those of all cookies that a list is asked for.
    pub fn browser_cookie_list(p: &CookieListParams, cookies: &Vec<Json>) -> (r: Reply)
        ensures
            r@ == reply::plain_reply(
                tools::or_text(
                    shown_list(cookies_at(text::views(cookies@), text::opt_text(p.domain), text::opt_text(p.path))),
                    "No cookies"@,
                ),
            ),
    {
        Self::shown_cookies(show(Self::listed_cookies(cookies, p)))
    }

    /// The cookie to set, on the page at `url` where no domain is given.
    pub fn browser_cookie_set(p: &CookieSetParams, url: &str) -> (r: Result<Command, String>)
        ensures
            match r {
                Ok(c) => (p.domain is Some || text::text_starts(url@, "http"@)) && c@ == cdp::to_browser(
                    "Storage.setCookies"@,
                    JsonV::obj().with("cookies"@, JsonV::Arr(seq![new_cookie(*p, url@)])),
                ),
                Err(e) => p.domain is None && !text::text_starts(url@, "http"@) && e@
                    == "pass a domain; the current page has no host"@,
            },
    {
        let mut c = Json::obj().with("name", Json::str(&p.name)).with(
            "path",
            Json::Str(tools::or_str(&p.path, "/")),
        ).with("value", Json::str(&p.value));
        match &p.domain {
            Some(d) => {
                c = c.put("domain", Json::str(d));
            },
            None => {
                if !text::starts_with(url, "http") {
                    return Err("pass a domain; the current page has no host".to_string());
                }
                c = c.put("url", Json::str(url));
            },
        }
        match &p.expires {
            Some(e) => {
                c = c.put("expires", e.clone());
            },
            None => {},
        }
        match p.http_only {
            Some(h) => {
                c = c.put("httpOnly", Json::Bool(h));
            },
            None => {},
        }
        match p.secure {
            Some(s) => {
                c = c.put("secure", Json::Bool(s));
            },
            None => {},
        }
        match &p.same_site {
            Some(s) => {
                c = c.put("sameSite", Json::str(s));
            },
            None => {},
        }
        Ok(Command::browser("Storage.setCookies", Json::obj().with("cookies", Json::one(c))))
    }
}

/// The cookie that is set.
pub open spec fn new_cookie(p: CookieSetParams, url: Text) -> JsonV {
    let plain = JsonV::obj().with("name"@, JsonV::Str(p.name@)).with(
        "path"@,
        JsonV::Str(tools::or_text(text::opt_text(p.path), "/"@)),
    ).with("value"@, JsonV::Str(p.value@));
    let placed = match p.domain {
        Some(d) => plain.put("domain"@, JsonV::Str(d@)),
        None => plain.put("url"@, JsonV::Str(url)),
    };
    let expiring = match p.expires {
        Some(e) => placed.put("expires"@, e@),
        None => placed,
    };
    let http = match p.http_only {
        Some(h) => expiring.put("httpOnly"@, JsonV::Bool(h)),
        None => expiring,
    };
    let secured = match p.secure {
        Some(s) => http.put("secure"@, JsonV::Bool(s)),
        None => http,
    };
    match p.same_site {
        Some(s) => secured.put("sameSite"@, JsonV::Str(s@)),
        None => secured,
    }
}

// ---------------------------------------------------------------------- local and session storage

/// What is done with the storage of a page.
pub enum StorageOp {
    List,
    Get(String),
    Put(String, String),
    Delete(String),
    Clear,
}

/// The storage object.
pub open spec fn store_name(local: bool) -> Text {
    if local {
        "localStorage"@
    } else {
        "sessionStorage"@
    }
}

/// The expression that does something with the storage of a page.
pub fn web_storage(local: bool, op: &StorageOp) -> (r: String)
    ensures
        r@ == match op {
            StorageOp::List => "JSON.stringify(Object.fromEntries(Object.entries("@ + store_name(local)
                + ")), null, 1)"@,
            StorageOp::Get(k) => "(() => { const v = "@ + store_name(local) + ".getItem("@ + json::quoted(k@)
                + "); return v === null ? 'Key not found' : v; })()"@,
            StorageOp::Put(k, v) => "("@ + store_name(local) + ".setItem("@ + json::quoted(k@) + ", "@ + json::quoted(
                v@,
            ) + "), 'ok')"@,
            StorageOp::Delete(k) => "("@ + store_name(local) + ".removeItem("@ + json::quoted(k@) + "), 'ok')"@,
            StorageOp::Clear => "("@ + store_name(local) + ".clear(), 'ok')"@,
        },
{
    let store = if local {
        "localStorage"
    } else {
        "sessionStorage"
    };
    match op {
        StorageOp::List => {
            let mut s = text::concat("JSON.stringify(Object.fromEntries(Object.entries(", store);
            s.append(")), null, 1)");
            s
        },
        StorageOp::Get(k) => {
            let mut s = text::concat("(() => { const v = ", store);
            s.append(".getItem(");
            s.append(&json::js(k));
            s.append("); return v === null ? 'Key not found' : v; })()");
            s
        },
        StorageOp::Put(k, v) => {
            let mut s = text::concat("(", store);
            s.append(".setItem(");
            s.append(&json::js(k));
            s.append(", ");
            s.append(&json::js(v));
            s.append("), 'ok')");
            s
        },
        StorageOp::Delete(k) => {
            let mut s = text::concat("(", store);
            s.append(".removeItem(");
            s.append(&json::js(k));
            s.append("), 'ok')");
            s
        },
        StorageOp::Clear => {
            let mut s = text::concat("(", store);
            s.append(".clear(), 'ok')");
            s
        },
    }
}

// ---------------------------------------------------------------------- network

/// A header written as "Name: Value".
pub open spec fn header_of(h: Text) -> Option<(Text, Text)> {
    match text::cut_at(h, ":"@) {
        Some((k, v)) => Some((text::trimmed(k), text::trimmed(v))),
        None => None,
    }
}

/// The first header that is not written as "Name: Value".
pub open spec fn bad_header(headers: Seq<Text>) -> Option<int> {
    text::first_where(headers, |h: Text| header_of(h) is None)
}

/// The headers that are asked for.
pub open spec fn header_list(p: RouteParams) -> Seq<Text> {
    match p.headers {
        Some(v) => text::views(v@),
        None => Seq::empty(),
    }
}

/// The route that is asked for.
pub open spec fn new_route(p: RouteParams) -> RouteV {
    RouteV {
        pattern: p.pattern@,
        status: state::opt_int(p.status),
        body: text::opt_text(p.body),
        content_type: text::opt_text(p.content_type),
        headers: header_list(p).map_values(|h: Text| header_of(h)->0),
        remove_headers: match p.remove_headers {
            Some(s) => config::items(text::pieces(s@, ","@)),
            None => Seq::empty(),
        },
    }
}

fn headers_of(headers: &Vec<String>) -> (r: Result<Vec<(String, String)>, String>)
    ensures
        match r {
            Ok(v) => bad_header(text::views(headers@)) is None && state::pairs(v@) == text::views(
                headers@,
            ).map_values(|h: Text| header_of(h)->0),
            Err(e) => bad_header(text::views(headers@)) matches Some(i) && 0 <= i < headers@.len() && e@
                == "header \""@ + headers@[i]@ + "\" is not \"Name: Value\""@,
        },
{
    let ghost all = text::views(headers@);
    let ghost bad = |h: Text| header_of(h) is None;
    let ghost good = |h: Text| header_of(h)->0;
    let mut out: Vec<(String, String)> = Vec::new();
    let mut i: usize = 0;
    while i < headers.len()
        invariant
            i <= headers@.len(),
            all == text::views(headers@),
            bad == (|h: Text| header_of(h) is None),
            out@.len() == i,
            forall|k: int| 0 <= k < i ==> !bad(#[trigger] all[k]),
            forall|k: int|
                0 <= k < i ==> ((#[trigger] out@[k]).0@, out@[k].1@) == header_of(all[k])->0,
        decreases headers@.len() - i,
    {
        proof {
            assert(all[i as int] == headers@[i as int]@);
        }
        match text::split_once(&headers[i], ":") {
            Some((k, v)) => {
                out.push((text::trim(&k), text::trim(&v)));
            },
            None => {
                proof {
                    text::lemma_found(all, bad, i as int);
                }
                let mut s = text::concat("header \"", &headers[i]);
                s.append("\" is not \"Name: Value\"");
                return Err(s);
            },
        }
        i = i + 1;
    }
    proof {
        text::lemma_first_where(all, bad);
        assert(state::pairs(out@) =~= all.map_values(good));
    }
    Ok(out)
}

impl BrowserServer {
    /// Whether the network is to be offline.
    pub fn browser_network_state_set(p: &NetworkStateParams) -> (r: Result<bool, String>)
        ensures
            match r {
                Ok(true) => p.state@ == "offline"@,
                Ok(false) => p.state@ == "online"@,
                Err(e) => p.state@ != "offline"@ && p.state@ != "online"@ && e@ == "unknown state \""@ + p.state@
                    + "\""@,
            },
    {
        if text::same(&p.state, "offline") {
            Ok(true)
        } else if text::same(&p.state, "online") {
            Ok(false)
        } else {
            let mut s = text::concat("unknown state \"", &p.state);
            s.append("\"");
            Err(s)
        }
    }

    /// The route that is asked for.
    pub fn browser_route(p: &RouteParams) -> (r: Result<Route, String>)
        ensures
            match r {
                Ok(x) => {
                    &&& bad_header(header_list(*p)) is None
                    &&& pattern::refusal(pattern::glob_source(p.pattern@), false) is None
                    &&& x@ == new_route(*p)
                    &&& x.wf()
                },
                Err(e) => match bad_header(header_list(*p)) {
                    Some(i) => e@ == "header \""@ + header_list(*p)[i] + "\" is not \"Name: Value\""@,
                    None => pattern::refusal(pattern::glob_source(p.pattern@), false) == Some(e@),
                },
            },
    {
        broadcast use text::group_views;

        let empty: Vec<String> = Vec::new();
        let list = match &p.headers {
            Some(v) => v,
            None => &empty,
        };
        proof {
            assert(text::views(list@) =~= header_list(*p));
        }
        let headers = match headers_of(list) {
            Ok(v) => v,
            Err(e) => {
                return Err(e);
            },
        };
        let regex = match pattern::glob_to_regex(&p.pattern) {
            Ok(x) => x,
            Err(e) => {
                return Err(e);
            },
        };
        let remove_headers = match &p.remove_headers {
            Some(s) => config::items_of(s, ","),
            None => Vec::new(),
        };
        Ok(
            Route {
                pattern: p.pattern.clone(),
                regex,
                status: p.status,
                body: text::copy_opt(&p.body),
                content_type: text::copy_opt(&p.content_type),
                headers,
                remove_headers,
            },
        )
    }

    pub fn browser_unroute(removed: usize) -> (r: Reply)
        ensures
            r@ == reply::plain_reply("Removed "@ + text::dec(removed as nat) + " route(s)"@),
    {
        let mut s = text::concat("Removed ", &text::decimal(removed as u128));
        s.append(" route(s)");
        Reply::raw(s)
    }
}

// ---------------------------------------------------------------------- settings

/// The size of the viewport, as JSON.
pub open spec fn viewport_json(v: Option<(u32, u32)>) -> JsonV {
    match v {
        Some((w, h)) => JsonV::Arr(seq![JsonV::Int(w as int), JsonV::Int(h as int)]),
        None => JsonV::Null,
    }
}

/// What the settings say of the browser.
pub open spec fn browser_settings(cfg: Config, headless: bool) -> JsonV {
    JsonV::obj().with("engine"@, JsonV::Str("chromium"@)).with(
        "executablePath"@,
        json::opt_str(text::opt_text(cfg.executable)),
    ).with("headless"@, JsonV::Bool(headless)).with("ignoreHTTPSErrors"@, JsonV::Bool(cfg.ignore_https_errors)).with(
        "isolated"@,
        JsonV::Bool(cfg.isolated),
    ).with("proxyBypass"@, json::opt_str(text::opt_text(cfg.proxy_bypass))).with(
        "proxyServer"@,
        json::opt_str(text::opt_text(cfg.proxy_server)),
    ).with("userAgent"@, json::opt_str(text::opt_text(cfg.user_agent))).with(
        "userDataDir"@,
        json::opt_str(text::opt_text(cfg.user_data_dir)),
    ).with("version"@, JsonV::Str(install::CHROME_VERSION@)).with("viewport"@, viewport_json(cfg.viewport))
}

/// What the settings say of the network.
pub open spec fn network_settings(cfg: Config) -> JsonV {
    JsonV::obj().with("allowedOrigins"@, json::str_list(text::views(cfg.allowed_origins@))).with(
        "blockServiceWorkers"@,
        JsonV::Bool(cfg.block_service_workers),
    ).with("blockedOrigins"@, json::str_list(text::views(cfg.blocked_origins@)))
}

/// What the settings say of timeouts, in milliseconds.
pub open spec fn timeout_settings(cfg: Config) -> JsonV {
    JsonV::obj().with("action"@, JsonV::Int(cfg.timeout_action as int)).with(
        "navigation"@,
        JsonV::Int(cfg.timeout_navigation as int),
    ).with("settle"@, JsonV::Int(cfg.timeout_settle as int))
}

/// The settings of the server.
pub open spec fn settings(cfg: Config, headless: bool) -> JsonV {
    JsonV::obj().with("browser"@, browser_settings(cfg, headless)).with(
        "capabilities"@,
        json::str_list(text::views(cfg.caps@)),
    ).with("network"@, network_settings(cfg)).with("outputDir"@, JsonV::Str(cfg.output_dir@)).with(
        "snapshotMaxChars"@,
        JsonV::Int(cfg.snapshot_max_chars as int),
    ).with("snapshotMode"@, JsonV::Str(cfg.snapshot_mode@)).with(
        "storageState"@,
        json::opt_str(text::opt_text(cfg.storage_state)),
    ).with("testIdAttribute"@, JsonV::Str(cfg.test_id_attribute@)).with("timeouts"@, timeout_settings(cfg))
}

fn size_json(v: Option<(u32, u32)>) -> (r: Json)
    ensures
        r@ == viewport_json(v),
{
    match v {
        Some((w, h)) => {
            let mut out: Vec<Json> = Vec::new();
            out.push(Json::Int(w as i128));
            out.push(Json::Int(h as i128));
            proof {
                json::lemma_arr(out);
                assert(text::views(out@) =~= seq![JsonV::Int(w as int), JsonV::Int(h as int)]);
            }
            Json::Arr(out)
        },
        None => Json::Null,
    }
}

impl BrowserServer {
    /// The reply that shows the resolved settings of this server.
    pub fn browser_get_config(&self) -> (r: Reply)
        ensures
            r@ == reply::plain_reply(
                json::pretty_text(
                    settings(self.browser.cfg, if self.browser@.live() {
                        (self.browser@.running->0).headless
                    } else {
                        self.browser@.want_headless
                    }),
                ),
            ),
    {
        Reply::raw(self.config_json().pretty())
    }

    /// The resolved settings of this server.
    pub fn config_json(&self) -> (r: Json)
        ensures
            r@ == settings(self.browser.cfg, if self.browser@.live() {
                (self.browser@.running->0).headless
            } else {
                self.browser@.want_headless
            }),
    {
        let cfg = &self.browser.cfg;
        let browser = Json::obj().with("engine", Json::str("chromium")).with(
            "executablePath",
            Json::opt(&cfg.executable),
        ).with("headless", Json::Bool(self.browser.is_headless())).with(
            "ignoreHTTPSErrors",
            Json::Bool(cfg.ignore_https_errors),
        ).with("isolated", Json::Bool(cfg.isolated)).with("proxyBypass", Json::opt(&cfg.proxy_bypass)).with(
            "proxyServer",
            Json::opt(&cfg.proxy_server),
        ).with("userAgent", Json::opt(&cfg.user_agent)).with("userDataDir", Json::opt(&cfg.user_data_dir)).with(
            "version",
            Json::str(install::CHROME_VERSION),
        ).with("viewport", size_json(cfg.viewport));
        let network = Json::obj().with("allowedOrigins", Json::strs(&cfg.allowed_origins)).with(
            "blockServiceWorkers",
            Json::Bool(cfg.block_service_workers),
        ).with("blockedOrigins", Json::strs(&cfg.blocked_origins));
        let timeouts = Json::obj().with("action", Json::Int(cfg.timeout_action as i128)).with(
            "navigation",
            Json::Int(cfg.timeout_navigation as i128),
        ).with("settle", Json::Int(cfg.timeout_settle as i128));
        Json::obj().with("browser", browser).with("capabilities", Json::strs(&cfg.caps)).with("network", network).with(
            "outputDir",
            Json::str(&cfg.output_dir),
        ).with("snapshotMaxChars", Json::Int(cfg.snapshot_max_chars as i128)).with(
            "snapshotMode",
            Json::str(&cfg.snapshot_mode),
        ).with("storageState", Json::opt(&cfg.storage_state)).with(
            "testIdAttribute",
            Json::str(&cfg.test_id_attribute),
        ).with("timeouts", timeouts)
    }
}

// ---------------------------------------------------------------------- highlights

/// Highlights an element, in a style where one is given.
pub fn highlight(session: &str, object: &str, p: &HighlightParams) -> (r: Command)
    ensures
        r@ == browser::call_command(
            session@,
            object@,
            "function(s, k) { __bmcp.highlight(this, s, k); }"@,
            seq![
                JsonV::Str(tools::or_text(text::opt_text(p.style), Seq::empty())),
                JsonV::Str(p.target@),
            ],
        ),
{
    let style = match &p.style {
        Some(s) => s.clone(),
        None => String::new(),
    };
    proof {
        assert(p.style is None ==> style@ =~= Seq::<char>::empty());
    }
    let mut out: Vec<Json> = Vec::new();
    out.push(Json::Str(style));
    out.push(Json::str(&p.target));
    proof {
        assert(text::views(out@) =~= seq![
            JsonV::Str(tools::or_text(text::opt_text(p.style), Seq::empty())),
            JsonV::Str(p.target@),
        ]);
    }
    browser::call_on(session, object, "function(s, k) { __bmcp.highlight(this, s, k); }", &out)
}

/// The expression that removes a highlight, or all of them.
pub fn hide_highlight(target: &Option<String>) -> (r: String)
    ensures
        r@ == "__bmcp.removeHighlight("@ + (match target {
            Some(t) => json::quoted(t@),
            None => "undefined"@,
        }) + ")"@,
{
    let mut s = "__bmcp.removeHighlight(".to_string();
    s.append(
        &match target {
            Some(t) => json::js(t),
            None => "undefined".to_string(),
        },
    );
    s.append(")");
    s
}

impl BrowserServer {
    pub fn browser_highlight(p: &HighlightParams) -> (r: Reply)
        ensures
            r@ == reply::plain_reply("Highlighted "@ + tools::or_text(text::opt_text(p.element), p.target@)),
    {
        Reply::raw(text::concat("Highlighted ", &tools::or_str(&p.element, &p.target)))
    }

    pub fn browser_hide_highlight(p: &OptTargetParams) -> (r: Reply)
        ensures
            r@ == reply::plain_reply(
                "Removed highlight "@ + tools::or_text(
                    text::opt_text(p.element),
                    tools::or_text(text::opt_text(p.target), "(all)"@),
                ),
            ),
    {
        Reply::raw(text::concat("Removed highlight ", &tools::or_str(&p.element, &tools::or_str(&p.target, "(all)"))))
    }
}

// ---------------------------------------------------------------------- checks

/// A list of texts as `{:?}` of the standard library writes it.
pub uninterp spec fn debug_list(items: Seq<Text>) -> Text;

/// Calls the standard library's `Debug` of a vector of strings. The contract says only that the text
/// follows from the items: how characters are escaped is not stated.
#[verifier::external_body]
fn show_list(items: &Vec<String>) -> (r: String)
    ensures
        r@ == debug_list(text::views(items@)),
{
    format!("{items:?}")
}

/// The items that a text does not contain.
pub open spec fn missing_items(items: Seq<Text>, t: Text) -> Seq<Text> {
    items.filter(|i: Text| !text::text_has(t, i))
}

fn missing(items: &Vec<String>, t: &str) -> (r: Vec<String>)
    ensures
        text::views(r@) == missing_items(text::views(items@), t@),
{
    broadcast use text::group_views;

    let ghost all = text::views(items@);
    let ghost f = |i: Text| !text::text_has(t@, i);
    let mut out: Vec<String> = Vec::new();
    let mut i: usize = 0;
    proof {
        reveal(Seq::filter);
        assert(all.take(0).filter(f) =~= Seq::empty());
    }
    while i < items.len()
        invariant
            i <= items@.len(),
            all == text::views(items@),
            f == (|i: Text| !text::text_has(t@, i)),
            text::views(out@) == all.take(i as int).filter(f),
        decreases items@.len() - i,
    {
        broadcast use text::group_views;

        proof {
            lemma_filter_step(all, i as int, f);
            assert(all[i as int] == items@[i as int]@);
        }
        if !text::contains(t, &items[i]) {
            out.push(items[i].clone());
        }
        i = i + 1;
    }
    proof {
        assert(all.take(all.len() as int) =~= all);
    }
    out
}

/// What a check says, by whether it holds.
pub open spec fn verdict(ok: bool, what: Text) -> Result<Text, Text> {
    if ok {
        Ok("Done: "@ + what)
    } else {
        Err("Verification failed: "@ + what)
    }
}

/// What a check of a list says of items that are shown like this, and of those that are missing.
pub open spec fn items_verdict(element: Text, items: Text, lost: Option<Text>) -> Result<Text, Text> {
    verdict(
        lost is None,
        element + " contains "@ + items + match lost {
            Some(l) => " (missing "@ + l + ")"@,
            None => Seq::empty(),
        },
    )
}

/// What a check of a list says; `t` is the text of the list.
pub open spec fn list_verdict(p: VerifyListParams, t: Text) -> Result<Text, Text> {
    let lost = missing_items(text::views(p.items@), t);
    items_verdict(
        p.element@,
        debug_list(text::views(p.items@)),
        if lost.len() == 0 {
            None
        } else {
            Some(debug_list(lost))
        },
    )
}

/// Whether a value is the expected one; a combobox may have several.
pub open spec fn has_value(p: VerifyValueParams, actual: Text) -> bool {
    actual == p.value@ || (p.kind@ == "combobox"@ && text::has_part(actual, ", "@, p.value@))
}

/// What a check of a value says.
pub open spec fn value_verdict(p: VerifyValueParams, actual: Text) -> Result<Text, Text> {
    let ok = has_value(p, actual);
    verdict(
        ok,
        p.element@ + " has value \""@ + p.value@ + "\""@ + (if ok {
            Seq::empty()
        } else {
            " (actual: \""@ + actual + "\")"@
        }),
    )
}

/// A reply, or why there is none, says this.
pub open spec fn says(r: Result<Reply, String>, v: Result<Text, Text>) -> bool {
    match (r, v) {
        (Ok(x), Ok(t)) => x@ == reply::plain_reply(t),
        (Err(e), Err(t)) => e@ == t,
        _ => false,
    }
}

impl BrowserServer {
    /// The reply of a check.
    pub fn verify(ok: bool, what: &str) -> (r: Result<Reply, String>)
        ensures
            says(r, verdict(ok, what@)),
    {
        if ok {
            Ok(Reply::raw(text::concat("Done: ", what)))
        } else {
            Err(text::concat("Verification failed: ", what))
        }
    }

    /// The expression that tells whether an element of a role is visible.
    pub fn visible_expression(p: &VerifyElementParams) -> (r: String)
        ensures
            r@ == "__bmcp.isRoleVisible("@ + json::quoted(p.role@) + ", "@ + json::quoted(p.accessible_name@) + ")"@,
    {
        let mut s = text::concat("__bmcp.isRoleVisible(", &json::js(&p.role));
        s.append(", ");
        s.append(&json::js(&p.accessible_name));
        s.append(")");
        s
    }

    pub fn browser_verify_element_visible(p: &VerifyElementParams, v: &Json) -> (r: Result<Reply, String>)
        ensures
            says(
                r,
                verdict(v@ == JsonV::Bool(true), p.role@ + " \""@ + p.accessible_name@ + "\" is visible"@),
            ),
    {
        let ok = match v {
            Json::Bool(b) => *b,
            _ => false,
        };
        let mut what = text::concat(&p.role, " \"");
        what.append(&p.accessible_name);
        what.append("\" is visible");
        BrowserServer::verify(ok, &what)
    }

    /// The check of a list, by the text that the page gave for it.
    pub fn browser_verify_list_visible(p: &VerifyListParams, v: &Json) -> (r: Result<Reply, String>)
        ensures
            says(r, list_verdict(*p, v@.text())),
    {
        let t = v.text();
        let lost = missing(&p.items, &t);
        let shown = if lost.len() > 0 {
            Some(show_list(&lost))
        } else {
            None
        };
        BrowserServer::items_checked(&p.element, &show_list(&p.items), &shown)
    }

    /// The check of a list whose items are shown like this, and those that are missing.
    pub fn items_checked(element: &str, items: &str, lost: &Option<String>) -> (r: Result<Reply, String>)
        ensures
            says(r, items_verdict(element@, items@, text::opt_text(*lost))),
    {
        let mut what = text::concat(element, " contains ");
        what.append(items);
        match lost {
            Some(l) => {
                let mut more = text::concat(" (missing ", l);
                more.append(")");
                what.append(&more);
            },
            None => {
                proof {
                    assert(what@ + Seq::<char>::empty() =~= what@);
                }
            },
        }
        BrowserServer::verify(lost.is_none(), &what)
    }

    /// The check of a text, by the text of the page.
    pub fn browser_verify_text_visible(p: &VerifyTextParams, v: &Json) -> (r: Result<Reply, String>)
        ensures
            says(
                r,
                verdict(text::text_has(v@.text(), p.text@), "text \""@ + p.text@ + "\" is visible"@),
            ),
    {
        let mut what = text::concat("text \"", &p.text);
        what.append("\" is visible");
        BrowserServer::verify(text::contains(&v.text(), &p.text), &what)
    }

    /// The function that reads the value of an element of a kind.
    pub fn value_function(p: &VerifyValueParams) -> (r: &'static str)
        ensures
            r@ == if p.kind@ == "checkbox"@ || p.kind@ == "radio"@ {
                "(e) => String(e.checked ?? e.getAttribute('aria-checked') === 'true')"@
            } else if p.kind@ == "combobox"@ {
                "(e) => e.tagName === 'SELECT' ? [...e.selectedOptions].map(o => o.label).join(', ') : (e.value ?? e.textContent)"@
            } else {
                "(e) => e.value ?? e.textContent"@
            },
    {
        if text::same(&p.kind, "checkbox") || text::same(&p.kind, "radio") {
            "(e) => String(e.checked ?? e.getAttribute('aria-checked') === 'true')"
        } else if text::same(&p.kind, "combobox") {
            "(e) => e.tagName === 'SELECT' ? [...e.selectedOptions].map(o => o.label).join(', ') : (e.value ?? e.textContent)"
        } else {
            "(e) => e.value ?? e.textContent"
        }
    }

    /// The check of a value, by what the page gave for it.
    pub fn browser_verify_value(p: &VerifyValueParams, v: &Json) -> (r: Result<Reply, String>)
        ensures
            says(r, value_verdict(*p, actions::plain_text(v@))),
    {
        let actual = actions::plain(v);
        proof {
            reveal_strlit(", ");
        }
        let ok = text::same(&actual, &p.value) || (text::same(&p.kind, "combobox") && text::part_of(
            &actual,
            ", ",
            &p.value,
        ));
        let mut what = text::concat(&p.element, " has value \"");
        what.append(&p.value);
        what.append("\"");
        if ok {
            proof {
                assert(what@ + Seq::<char>::empty() =~= what@);
            }
        } else {
            let mut more = text::concat(" (actual: \"", &actual);
            more.append("\")");
            what.append(&more);
        }
        BrowserServer::verify(ok, &what)
    }
}

// ---------------------------------------------------------------------- what is stored and checked

/// The cookies of a name are all those of that name, and no others.
pub proof fn law_cookies_of_a_name(cookies: Seq<JsonV>, name: Text, c: JsonV)
    ensures
        cookies_named(cookies, name).contains(c) <==> cookies.contains(c) && c.at("name"@) == JsonV::Str(name),
{
    lemma_filtered(cookies, |c: JsonV| c.at("name"@) == JsonV::Str(name), c);
}

proof fn lemma_filtered<T>(s: Seq<T>, f: spec_fn(T) -> bool, x: T)
    ensures
        s.filter(f).contains(x) <==> s.contains(x) && f(x),
    decreases s.len(),
{
    reveal(Seq::filter);
    let d = s.drop_last();
    let r = s.filter(f);
    if s.len() > 0 {
        lemma_filtered(d, f, x);
        let q = d.filter(f);
        if q.contains(x) {
            let k = choose|k: int| 0 <= k < q.len() && q[k] == x;
            assert(r[k] == x);
        }
        if s.contains(x) {
            let k = choose|k: int| 0 <= k < s.len() && s[k] == x;
            if k < d.len() {
                assert(d[k] == x);
            } else if f(x) {
                assert(r[q.len() as int] == x);
            }
        }
        if d.contains(x) {
            let k = choose|k: int| 0 <= k < d.len() && d[k] == x;
            assert(s[k] == x);
        }
        if r.contains(x) {
            let k = choose|k: int| 0 <= k < r.len() && r[k] == x;
            if k < q.len() {
                assert(q[k] == x);
            } else {
                assert(s[s.len() - 1] == x);
            }
        }
    }
}

/// The cookies of a list are those whose domain contains the one that is asked for and whose path begins with
/// the one that is asked for; where neither is asked for, all of them.
pub proof fn law_cookies_of_a_list(cookies: Seq<JsonV>, domain: Text, path: Text, c: JsonV)
    ensures
        cookies_at(cookies, None, None).contains(c) <==> cookies.contains(c),
        cookies_at(cookies, Some(domain), None).contains(c) <==> cookies.contains(c) && text::text_has(
            c.at("domain"@).text(),
            domain,
        ),
        cookies_at(cookies, None, Some(path)).contains(c) <==> cookies.contains(c) && text::text_starts(
            c.at("path"@).text(),
            path,
        ),
        cookies_at(cookies, Some(domain), Some(path)).contains(c) <==> cookies.contains(c) && text::text_has(
            c.at("domain"@).text(),
            domain,
        ) && text::text_starts(c.at("path"@).text(), path),
{
    lemma_cookies_at(cookies, None, None, c);
    lemma_cookies_at(cookies, Some(domain), None, c);
    lemma_cookies_at(cookies, None, Some(path), c);
    lemma_cookies_at(cookies, Some(domain), Some(path), c);
}

proof fn lemma_cookies_at(cookies: Seq<JsonV>, domain: Option<Text>, path: Option<Text>, c: JsonV)
    ensures
        cookies_at(cookies, domain, path).contains(c) <==> cookies.contains(c) && (domain is Some ==> text::text_has(
            c.at("domain"@).text(),
            domain->0,
        )) && (path is Some ==> text::text_starts(c.at("path"@).text(), path->0)),
{
    lemma_filtered(
        cookies,
        |c: JsonV|
            (domain is Some ==> text::text_has(c.at("domain"@).text(), domain->0)) && (path is Some
                ==> text::text_starts(c.at("path"@).text(), path->0)),
        c,
    );
}

/// A list is shown where there is something in it, all of it.
pub proof fn law_lists_are_shown(list: Seq<JsonV>)
    ensures
        list.len() == 0 ==> shown_list(list) is None,
        list.len() > 0 ==> shown_list(list) == Some(json::pretty_text(JsonV::Arr(list))),
{
}

proof fn lemma_cookie_names()
    ensures
        "url"@.len() == 3,
        "name"@.len() == 4 && "name"@[0] == 'n',
        "path"@.len() == 4 && "path"@[0] == 'p',
        "value"@.len() == 5,
        "domain"@.len() == 6 && "domain"@[0] == 'd',
        "secure"@.len() == 6 && "secure"@[0] == 's',
        "expires"@.len() == 7,
        "httpOnly"@.len() == 8 && "httpOnly"@[0] == 'h',
        "sameSite"@.len() == 8 && "sameSite"@[0] == 's',
{
    reveal_strlit("name");
    reveal_strlit("path");
    reveal_strlit("value");
    reveal_strlit("domain");
    reveal_strlit("url");
    reveal_strlit("expires");
    reveal_strlit("httpOnly");
    reveal_strlit("secure");
    reveal_strlit("sameSite");
    assert("url"@.len() == 3);
    assert("name"@.len() == 4 && "name"@[0] == 'n');
    assert("path"@.len() == 4 && "path"@[0] == 'p');
    assert("value"@.len() == 5);
    assert("domain"@.len() == 6 && "domain"@[0] == 'd');
    assert("secure"@.len() == 6 && "secure"@[0] == 's');
    assert("expires"@.len() == 7);
    assert("httpOnly"@.len() == 8 && "httpOnly"@[0] == 'h');
    assert("sameSite"@.len() == 8 && "sameSite"@[0] == 's');
}

/// A cookie that is set has its name, its value, its path or that of the root, and its domain or the address
/// of the page; and its date, its flags and its policy where they are given.
pub proof fn law_new_cookies(p: CookieSetParams, url: Text)
    ensures
        ({
            let c = new_cookie(p, url);
            &&& c.get("name"@) == Some(JsonV::Str(p.name@))
            &&& c.get("value"@) == Some(JsonV::Str(p.value@))
            &&& c.get("path"@) == Some(
                JsonV::Str(
                    if p.path is Some {
                        (p.path->0)@
                    } else {
                        "/"@
                    },
                ),
            )
            &&& p.domain is Some ==> c.get("domain"@) == Some(JsonV::Str((p.domain->0)@)) && c.get("url"@) is None
            &&& p.domain is None ==> c.get("url"@) == Some(JsonV::Str(url)) && c.get("domain"@) is None
            &&& p.expires is Some ==> c.get("expires"@) == Some((p.expires->0)@)
            &&& p.expires is None ==> c.get("expires"@) is None
            &&& p.http_only is Some ==> c.get("httpOnly"@) == Some(JsonV::Bool(p.http_only->0))
            &&& p.http_only is None ==> c.get("httpOnly"@) is None
            &&& p.secure is Some ==> c.get("secure"@) == Some(JsonV::Bool(p.secure->0))
            &&& p.secure is None ==> c.get("secure"@) is None
            &&& p.same_site is Some ==> c.get("sameSite"@) == Some(JsonV::Str((p.same_site->0)@))
            &&& p.same_site is None ==> c.get("sameSite"@) is None
        }),
{
    lemma_new_cookie(p, url, "name"@);
    lemma_new_cookie(p, url, "path"@);
    lemma_new_cookie(p, url, "value"@);
    lemma_new_cookie(p, url, "domain"@);
    lemma_new_cookie(p, url, "url"@);
    lemma_new_cookie(p, url, "expires"@);
    lemma_new_cookie(p, url, "httpOnly"@);
    lemma_new_cookie(p, url, "secure"@);
    lemma_new_cookie(p, url, "sameSite"@);
    lemma_cookie_names();
}

proof fn lemma_new_cookie(p: CookieSetParams, url: Text, name: Text)
    ensures
        new_cookie(p, url).get(name) == if p.same_site is Some && name == "sameSite"@ {
            Some(JsonV::Str((p.same_site->0)@))
        } else if p.secure is Some && name == "secure"@ {
            Some(JsonV::Bool(p.secure->0))
        } else if p.http_only is Some && name == "httpOnly"@ {
            Some(JsonV::Bool(p.http_only->0))
        } else if p.expires is Some && name == "expires"@ {
            Some((p.expires->0)@)
        } else if p.domain is Some && name == "domain"@ {
            Some(JsonV::Str((p.domain->0)@))
        } else if p.domain is None && name == "url"@ {
            Some(JsonV::Str(url))
        } else if name == "name"@ {
            Some(JsonV::Str(p.name@))
        } else if name == "path"@ {
            Some(JsonV::Str(tools::or_text(text::opt_text(p.path), "/"@)))
        } else if name == "value"@ {
            Some(JsonV::Str(p.value@))
        } else {
            None
        },
{
    broadcast use json::group_with;

    lemma_cookie_names();
    assert(JsonV::obj().get(name) is None);
    let plain = JsonV::obj().with("name"@, JsonV::Str(p.name@)).with(
        "path"@,
        JsonV::Str(tools::or_text(text::opt_text(p.path), "/"@)),
    ).with("value"@, JsonV::Str(p.value@));
    let placed = match p.domain {
        Some(d) => plain.put("domain"@, JsonV::Str(d@)),
        None => plain.put("url"@, JsonV::Str(url)),
    };
    match p.domain {
        Some(d) => project::law_put_members_are_read(plain, "domain"@, JsonV::Str(d@), name),
        None => project::law_put_members_are_read(plain, "url"@, JsonV::Str(url), name),
    }
    let expiring = match p.expires {
        Some(e) => placed.put("expires"@, e@),
        None => placed,
    };
    if p.expires is Some {
        project::law_put_members_are_read(placed, "expires"@, (p.expires->0)@, name);
    }
    let http = match p.http_only {
        Some(h) => expiring.put("httpOnly"@, JsonV::Bool(h)),
        None => expiring,
    };
    if p.http_only is Some {
        project::law_put_members_are_read(expiring, "httpOnly"@, JsonV::Bool(p.http_only->0), name);
    }
    let secured = match p.secure {
        Some(s) => http.put("secure"@, JsonV::Bool(s)),
        None => http,
    };
    if p.secure is Some {
        project::law_put_members_are_read(http, "secure"@, JsonV::Bool(p.secure->0), name);
    }
    if p.same_site is Some {
        project::law_put_members_are_read(secured, "sameSite"@, JsonV::Str((p.same_site->0)@), name);
    }
}

/// The two storages of a page.
pub proof fn law_storages()
    ensures
        store_name(true) == "localStorage"@,
        store_name(false) == "sessionStorage"@,
{
}

/// A header is its name and its value, with the first colon between; blanks around them do not count; a text
/// without a colon is none.
pub proof fn law_headers(name: Text, value: Text)
    requires
        !name.contains(':'),
    ensures
        header_of(name + ":"@ + value) == Some((text::trimmed(name), text::trimmed(value))),
        header_of(name) is None,
{
    reveal_strlit(":");
    assert(":"@.len() == 1 && ":"@[0] == ':');
    text::law_cut_where_it_stands(name, ":"@, value);
    text::law_cut_at_the_first(name, ":"@);
    if text::cut_at(name, ":"@) is Some {
        let (a, b) = text::cut_at(name, ":"@)->0;
        assert((a + ":"@ + b)[a.len() as int] == ':');
        assert(name[a.len() as int] == ':');
    }
}

/// The first header that is none is told; where every header is one, none is.
pub proof fn law_bad_headers_are_told(headers: Seq<Text>, i: int)
    ensures
        (forall|k: int| 0 <= k < headers.len() ==> header_of(#[trigger] headers[k]) is Some) ==> bad_header(headers) is None,
        0 <= i < headers.len() && header_of(headers[i]) is None && (forall|k: int|
            0 <= k < i ==> header_of(#[trigger] headers[k]) is Some) ==> bad_header(headers) == Some(i),
{
    let f = |h: Text| header_of(h) is None;
    text::lemma_first_where(headers, f);
    match text::first_where(headers, f) {
        Some(k) => {
            assert(f(headers[k]));
            if 0 <= i < k {
                assert(!f(headers[i]));
            }
        },
        None => {
            if 0 <= i < headers.len() {
                assert(!f(headers[i]));
            }
        },
    }
}

/// A route is for its glob, and answers and changes what the call says: status, body, type of content, each
/// header, and the headers to remove, written with commas between.
pub proof fn law_new_routes(p: RouteParams, i: int)
    ensures
        ({
            let r = new_route(p);
            &&& r.pattern == p.pattern@
            &&& r.status == (if p.status is Some {
                Some(p.status->0 as int)
            } else {
                None
            })
            &&& p.body is Some ==> r.body == Some((p.body->0)@)
            &&& p.body is None ==> r.body is None
            &&& p.content_type is Some ==> r.content_type == Some((p.content_type->0)@)
            &&& p.content_type is None ==> r.content_type is None
            &&& p.headers is None ==> r.headers.len() == 0
            &&& p.headers is Some ==> r.headers.len() == (p.headers->0)@.len()
            &&& p.headers is Some && 0 <= i < (p.headers->0)@.len() && header_of((p.headers->0)@[i]@) is Some ==> Some(
                r.headers[i],
            ) == header_of((p.headers->0)@[i]@)
            &&& p.remove_headers is None ==> r.remove_headers.len() == 0
            &&& p.remove_headers is Some ==> r.remove_headers == config::items(
                text::pieces((p.remove_headers->0)@, ","@),
            )
        }),
{
    if p.headers is Some && 0 <= i < (p.headers->0)@.len() {
        assert(header_list(p)[i] == (p.headers->0)@[i]@);
    }
}

/// A check that holds says what was checked, and one that does not is refused with it.
pub proof fn law_verdicts(what: Text)
    ensures
        verdict(true, what) == Ok::<Text, Text>("Done: "@ + what),
        verdict(false, what) == Err::<Text, Text>("Verification failed: "@ + what),
{
}

/// A check of a list holds where the list's text has every item, and else says which are missing: all of those
/// that it does not have, and no others.
pub proof fn law_list_checks(p: VerifyListParams, t: Text, item: Text)
    ensures
        missing_items(text::views(p.items@), t).contains(item) <==> text::views(p.items@).contains(item) && !text::text_has(
            t,
            item,
        ),
        list_verdict(p, t) is Ok <==> forall|i: int| 0 <= i < p.items@.len() ==> text::text_has(t, (#[trigger] p.items@[i])@),
        list_verdict(p, t) is Ok ==> list_verdict(p, t) == Ok::<Text, Text>(
            "Done: "@ + (p.element@ + " contains "@ + debug_list(text::views(p.items@)) + Seq::<char>::empty()),
        ),
        list_verdict(p, t) is Err ==> list_verdict(p, t) == Err::<Text, Text>(
            "Verification failed: "@ + (p.element@ + " contains "@ + debug_list(text::views(p.items@)) + (
            " (missing "@ + debug_list(missing_items(text::views(p.items@), t)) + ")"@)),
        ),
{
    let items = text::views(p.items@);
    let f = |i: Text| !text::text_has(t, i);
    let lost = missing_items(items, t);
    lemma_filtered(items, f, item);
    if lost.len() > 0 {
        lemma_filtered(items, f, lost[0]);
        assert(lost.contains(lost[0]));
        let k = choose|k: int| 0 <= k < items.len() && items[k] == lost[0];
        assert(p.items@[k]@ == lost[0]);
        assert(!text::text_has(t, p.items@[k]@));
    } else {
        assert forall|i: int| 0 <= i < p.items@.len() implies text::text_has(t, (#[trigger] p.items@[i])@) by {
            lemma_filtered(items, f, items[i]);
            assert(items.contains(items[i]));
            assert(!lost.contains(items[i]));
        }
    }
}

/// A check of a value holds where the value is the expected one, or, for a combobox, one of those that it has;
/// and else says what the value is.
pub proof fn law_value_checks(p: VerifyValueParams, actual: Text)
    ensures
        actual == p.value@ ==> has_value(p, actual),
        actual != p.value@ && p.kind@ != "combobox"@ ==> !has_value(p, actual),
        p.kind@ == "combobox"@ ==> (has_value(p, actual) <==> actual == p.value@ || text::has_part(actual, ", "@, p.value@)),
        has_value(p, actual) ==> value_verdict(p, actual) == Ok::<Text, Text>(
            "Done: "@ + (p.element@ + " has value \""@ + p.value@ + "\""@ + Seq::<char>::empty()),
        ),
        !has_value(p, actual) ==> value_verdict(p, actual) == Err::<Text, Text>(
            "Verification failed: "@ + (p.element@ + " has value \""@ + p.value@ + "\""@ + (" (actual: \""@ + actual
                + "\")"@)),
        ),
{
}

/// The settings that are told are those of the server.
pub proof fn law_settings_are_told(cfg: Config, headless: bool)
    ensures
        settings(cfg, headless) == JsonV::Obj(
            seq![
                ("browser"@, browser_settings(cfg, headless)),
                ("capabilities"@, json::str_list(text::views(cfg.caps@))),
                ("network"@, network_settings(cfg)),
                ("outputDir"@, JsonV::Str(cfg.output_dir@)),
                ("snapshotMaxChars"@, JsonV::Int(cfg.snapshot_max_chars as int)),
                ("snapshotMode"@, JsonV::Str(cfg.snapshot_mode@)),
                ("storageState"@, json::opt_str(text::opt_text(cfg.storage_state))),
                ("testIdAttribute"@, JsonV::Str(cfg.test_id_attribute@)),
                ("timeouts"@, timeout_settings(cfg)),
            ],
        ),
        browser_settings(cfg, headless) == JsonV::Obj(
            seq![
                ("engine"@, JsonV::Str("chromium"@)),
                ("executablePath"@, json::opt_str(text::opt_text(cfg.executable))),
                ("headless"@, JsonV::Bool(headless)),
                ("ignoreHTTPSErrors"@, JsonV::Bool(cfg.ignore_https_errors)),
                ("isolated"@, JsonV::Bool(cfg.isolated)),
                ("proxyBypass"@, json::opt_str(text::opt_text(cfg.proxy_bypass))),
                ("proxyServer"@, json::opt_str(text::opt_text(cfg.proxy_server))),
                ("userAgent"@, json::opt_str(text::opt_text(cfg.user_agent))),
                ("userDataDir"@, json::opt_str(text::opt_text(cfg.user_data_dir))),
                ("version"@, JsonV::Str(install::CHROME_VERSION@)),
                ("viewport"@, viewport_json(cfg.viewport)),
            ],
        ),
        network_settings(cfg) == JsonV::Obj(
            seq![
                ("allowedOrigins"@, json::str_list(text::views(cfg.allowed_origins@))),
                ("blockServiceWorkers"@, JsonV::Bool(cfg.block_service_workers)),
                ("blockedOrigins"@, json::str_list(text::views(cfg.blocked_origins@))),
            ],
        ),
        timeout_settings(cfg) == JsonV::Obj(
            seq![
                ("action"@, JsonV::Int(cfg.timeout_action as int)),
                ("navigation"@, JsonV::Int(cfg.timeout_navigation as int)),
                ("settle"@, JsonV::Int(cfg.timeout_settle as int)),
            ],
        ),
{
    let s = settings(cfg, headless)->Obj_0;
    let b = browser_settings(cfg, headless)->Obj_0;
    let n = network_settings(cfg)->Obj_0;
    let t = timeout_settings(cfg)->Obj_0;
    assert(s =~= seq![s[0], s[1], s[2], s[3], s[4], s[5], s[6], s[7], s[8]]);
    assert(b =~= seq![b[0], b[1], b[2], b[3], b[4], b[5], b[6], b[7], b[8], b[9], b[10]]);
    assert(n =~= seq![n[0], n[1], n[2]]);
    assert(t =~= seq![t[0], t[1], t[2]]);
}

} // verus!
