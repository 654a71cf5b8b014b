//! Reading a page without snapshots: links, text, tables, items, single values, and what is fetched
//! with the browser's cookies.

use crate::actions;
use crate::json;
use crate::json::Json;
use crate::json::JsonV;
use crate::params::ExtractParams;
use crate::params::FetchParams;
use crate::params::LinksParams;
use crate::params::ReadParams;
use crate::params::ScrapeParams;
use crate::params::ScrapeTarget;
use crate::params::TableParams;
use crate::params::TextParams;
use crate::project;
use crate::reply;
use crate::reply::Reply;
use crate::server::BrowserServer;
use crate::state;
use crate::text;
use crate::text::Text;
use crate::tools;
use vstd::prelude::*;

verus! {

/// A call of a function of the page's helper with one argument.
pub open spec fn helper_call(name: Text, argument: JsonV) -> Text {
    "__bmcp."@ + name + "("@ + json::json_text(argument) + ")"@
}

fn helper(name: &str, argument: &Json) -> (r: String)
    ensures
        r@ == helper_call(name@, argument@),
{
    let mut s = text::concat("__bmcp.", name);
    s.append("(");
    s.append(&argument.to_text());
    s.append(")");
    s
}

// ---------------------------------------------------------------------- links

/// The start of a URL up to its host.
pub open spec fn url_start(url: Text) -> Text {
    let parts = text::pieces(url, "/"@);
    text::joined(
        if parts.len() > 3 {
            parts.take(3)
        } else {
            parts
        },
        "/"@,
    )
}

/// A URL without its start, where it is on the page's own host.
pub open spec fn short_href(href: Text, start: Text) -> Text {
    match text::without_prefix(href, start) {
        Some(h) => if text::text_starts(h, "/"@) {
            h
        } else {
            href
        },
        None => href,
    }
}

/// The most characters of a link's text that are shown.
pub const LINK_CHARS: usize = 80;

/// The line of a link: its reference, region, text and URL.
pub open spec fn link_line(l: JsonV, start: Text) -> Text {
    l.at("ref"@).text() + " ["@ + l.at("region"@).text() + "] "@ + text::first_chars(
        l.at("text"@).text(),
        LINK_CHARS as nat,
    ) + (if l.at("visible"@) == JsonV::Bool(false) {
        " (hidden)"@
    } else {
        Seq::empty()
    }) + " -> "@ + short_href(l.at("href"@).text(), start)
}

/// The links of a page, as the reply shows them.
pub open spec fn links_text(links: Seq<JsonV>, start: Text) -> Text {
    if links.len() == 0 {
        "No matching links"@
    } else {
        text::dec(links.len()) + " links (refs work as targets; relative URLs are on "@ + start + "):\n"@
            + text::joined(links.map_values(|l: JsonV| link_line(l, start)), "\n"@)
    }
}

fn start_of(url: &str) -> (r: String)
    ensures
        r@ == url_start(url@),
{
    let mut parts = text::split_on(url, "/");
    let ghost all = text::views(parts@);
    if parts.len() > 3 {
        parts.truncate(3);
        proof {
            assert(text::views(parts@) =~= all.take(3));
        }
    }
    text::join(&parts, "/")
}

fn shorten(href: &str, start: &str) -> (r: String)
    ensures
        r@ == short_href(href@, start@),
{
    match text::strip_prefix(href, start) {
        Some(h) => if text::starts_with(&h, "/") {
            h
        } else {
            href.to_string()
        },
        None => href.to_string(),
    }
}

fn format_link(l: &Json, start: &str) -> (r: String)
    ensures
        r@ == link_line(l@, start@),
{
    let mut s = l.at("ref").text();
    s.append(" [");
    s.append(&l.at("region").text());
    s.append("] ");
    s.append(&text::take_chars(&l.at("text").text(), LINK_CHARS));
    let hidden = match l.at("visible") {
        Json::Bool(b) => !*b,
        _ => false,
    };
    if hidden {
        s.append(" (hidden)");
    } else {
        proof {
            assert(s@ + Seq::<char>::empty() =~= s@);
        }
    }
    s.append(" -> ");
    s.append(&shorten(&l.at("href").text(), start));
    s
}

impl BrowserServer {
    /// The expression that lists links.
    pub fn links_expression(p: &LinksParams) -> (r: String)
        ensures
            r@ == helper_call(
                "links"@,
                JsonV::obj().with("filter"@, json::opt_str(text::opt_text(p.filter))).with(
                    "limit"@,
                    json::opt_num(p.limit),
                ).with("region"@, json::opt_str(text::opt_text(p.region))).with(
                    "scope"@,
                    json::opt_str(text::opt_text(p.scope)),
                ).with("visibleOnly"@, JsonV::Bool(!tools::is_on(p.include_hidden))),
            ),
    {
        let opts = Json::obj().with("filter", Json::opt(&p.filter)).with("limit", Json::opt_u32(p.limit)).with(
            "region",
            Json::opt(&p.region),
        ).with("scope", Json::opt(&p.scope)).with("visibleOnly", Json::Bool(!tools::flag(p.include_hidden)));
        helper("links", &opts)
    }

    /// The reply that lists the links of the page at `url`.
    pub fn links(links: &Json, url: &str) -> (r: Reply)
        ensures
            r@ == reply::plain_reply(links_text(links@.elements(), url_start(url@))),
    {
        broadcast use text::group_views;

        let start = start_of(url);
        let all = links.elements();
        if all.len() == 0 {
            return Reply::raw("No matching links".to_string());
        }
        let ghost f = |l: JsonV| link_line(l, start@);
        let mut lines: Vec<String> = Vec::new();
        let mut i: usize = 0;
        while i < all.len()
            invariant
                i <= all@.len(),
                lines@.len() == i,
                forall|k: int| 0 <= k < i ==> (#[trigger] lines@[k])@ == link_line(all@[k]@, start@),
            decreases all@.len() - i,
        {
            lines.push(format_link(&all[i], &start));
            i = i + 1;
        }
        proof {
            assert(text::views(lines@) =~= links@.elements().map_values(f));
        }
        let mut s = text::decimal(lines.len() as u128);
        s.append(" links (refs work as targets; relative URLs are on ");
        s.append(&start);
        s.append("):\n");
        s.append(&text::join(&lines, "\n"));
        Reply::raw(s)
    }
}

// ---------------------------------------------------------------------- text, tables, items

/// The members of an object of strings.
pub open spec fn string_members(s: Seq<(Text, Text)>) -> Seq<(Text, JsonV)> {
    s.map_values(|p: (Text, Text)| (p.0, JsonV::Str(p.1)))
}

/// The fields that are asked for, as JSON.
pub open spec fn fields_json(fields: Option<Vec<(String, String)>>) -> JsonV {
    match fields {
        Some(v) => JsonV::Obj(string_members(state::pairs(v@))),
        None => JsonV::Null,
    }
}

fn field_object(fields: &Option<Vec<(String, String)>>) -> (r: Json)
    ensures
        r@ == fields_json(*fields),
{
    match fields {
        Some(v) => {
            let mut out: Vec<(String, Json)> = Vec::new();
            let mut i: usize = 0;
            while i < v.len()
                invariant
                    i <= v@.len(),
                    out@.len() == i,
                    forall|k: int|
                        0 <= k < i ==> (#[trigger] out@[k]).0@ == v@[k].0@ && out@[k].1@ == JsonV::Str(v@[k].1@),
                decreases v@.len() - i,
            {
                out.push((v[i].0.clone(), Json::str(&v[i].1)));
                i = i + 1;
            }
            proof {
                json::lemma_obj(out);
                assert(json::members(out@) =~= string_members(state::pairs(v@)));
            }
            Json::Obj(out)
        },
        None => Json::Null,
    }
}

/// The extracted items, as the reply shows them: one JSON object per line.
pub open spec fn items_text(items: Seq<JsonV>, selector: Text) -> Text {
    if items.len() == 0 {
        "No elements match "@ + selector
    } else {
        text::dec(items.len()) + " items:\n"@ + text::joined(items.map_values(|j: JsonV| json::json_text(j)), "\n"@)
    }
}

impl BrowserServer {
    /// The expression that reads the page as Markdown.
    pub fn text_expression(p: &TextParams) -> (r: String)
        ensures
            r@ == helper_call(
                "text"@,
                JsonV::obj().with("heading"@, json::opt_str(text::opt_text(p.heading))).with(
                    "lead"@,
                    json::opt_num(p.lead),
                ).with("links"@, json::opt_bool(p.links)).with("maxChars"@, json::opt_num(p.max_chars)).with(
                    "target"@,
                    json::opt_str(text::opt_text(p.target)),
                ),
            ),
    {
        let opts = Json::obj().with("heading", Json::opt(&p.heading)).with("lead", Json::opt_u32(p.lead)).with(
            "links",
            Json::opt_truth(p.links),
        ).with("maxChars", Json::opt_usize(p.max_chars)).with("target", Json::opt(&p.target));
        helper("text", &opts)
    }

    /// The expression that reads a table.
    pub fn table_expression(p: &TableParams) -> (r: String)
        ensures
            r@ == "__bmcp.tableText(__bmcp.resolve("@ + json::quoted(p.target@) + "), "@ + json::json_text(
                JsonV::obj().with("format"@, json::opt_str(text::opt_text(p.format))).with(
                    "maxRows"@,
                    json::opt_num(p.max_rows),
                ),
            ) + ")"@,
    {
        let opts = Json::obj().with("format", Json::opt(&p.format)).with("maxRows", Json::opt_usize(p.max_rows));
        let mut s = text::concat("__bmcp.tableText(__bmcp.resolve(", &json::js(&p.target));
        s.append("), ");
        s.append(&opts.to_text());
        s.append(")");
        s
    }

    /// The reply of a text that the page gave.
    pub fn text(v: &Json) -> (r: Reply)
        ensures
            r@ == reply::plain_reply(v@.text()),
    {
        Reply::raw(v.text())
    }

    /// The expression that extracts repeated items.
    pub fn extract_expression(p: &ExtractParams) -> (r: String)
        ensures
            r@ == helper_call(
                "extract"@,
                JsonV::obj().with("fields"@, fields_json(p.fields)).with("limit"@, json::opt_num(p.limit)).with(
                    "selector"@,
                    JsonV::Str(p.selector@),
                ),
            ),
    {
        let opts = Json::obj().with("fields", field_object(&p.fields)).with("limit", Json::opt_usize(p.limit)).with(
            "selector",
            Json::str(&p.selector),
        );
        helper("extract", &opts)
    }

    pub fn extract(p: &ExtractParams, items: &Json) -> (r: Reply)
        ensures
            r@ == reply::plain_reply(items_text(items@.elements(), p.selector@)),
    {
        broadcast use text::group_views;

        let all = items.elements();
        if all.len() == 0 {
            return Reply::raw(text::concat("No elements match ", &p.selector));
        }
        let ghost f = |j: JsonV| json::json_text(j);
        let mut lines: Vec<String> = Vec::new();
        let mut i: usize = 0;
        while i < all.len()
            invariant
                i <= all@.len(),
                lines@.len() == i,
                forall|k: int| 0 <= k < i ==> (#[trigger] lines@[k])@ == json::json_text(all@[k]@),
            decreases all@.len() - i,
        {
            lines.push(all[i].to_text());
            i = i + 1;
        }
        proof {
            assert(text::views(lines@) =~= items@.elements().map_values(f));
        }
        let mut s = text::decimal(lines.len() as u128);
        s.append(" items:\n");
        s.append(&text::join(&lines, "\n"));
        Reply::raw(s)
    }
}

// ---------------------------------------------------------------------- one value

/// Why a value that was read is not what the call expects.
pub open spec fn unexpected(p: ReadParams, t: Text) -> Option<Text> {
    if p.equals is Some && t != (p.equals->0)@ {
        Some(p.target@ + " is \""@ + t + "\", expected \""@ + (p.equals->0)@ + "\""@)
    } else if p.contains is Some && !text::text_has(t, (p.contains->0)@) {
        Some(p.target@ + " is \""@ + t + "\", which does not contain \""@ + (p.contains->0)@ + "\""@)
    } else {
        None
    }
}

impl BrowserServer {
    /// The expression that reads a value, or every value, from the page.
    pub fn read_expression(p: &ReadParams) -> (r: String)
        ensures
            r@ == "__bmcp.read("@ + json::quoted(p.target@) + ", "@ + json::quoted(
                tools::or_text(text::opt_text(p.prop), "text"@),
            ) + (if tools::is_on(p.all) {
                ", true)"@
            } else {
                ", false)"@
            }),
    {
        let mut s = text::concat("__bmcp.read(", &json::js(&p.target));
        s.append(", ");
        s.append(&json::js(&tools::or_str(&p.prop, "text")));
        s.append(if tools::flag(p.all) { ", true)" } else { ", false)" });
        s
    }

    /// The value that was read: an error where it is not what the call expects.
    pub fn read(p: &ReadParams, v: &Json) -> (r: Result<Reply, String>)
        ensures
            match r {
                Ok(x) => unexpected(*p, actions::plain_text(v@)) is None && x@ == reply::plain_reply(
                    actions::plain_text(v@),
                ),
                Err(e) => unexpected(*p, actions::plain_text(v@)) == Some(e@),
            },
    {
        let t = actions::plain(v);
        match &p.equals {
            Some(want) => {
                if !text::same(&t, want) {
                    let mut s = text::concat(&p.target, " is \"");
                    s.append(&t);
                    s.append("\", expected \"");
                    s.append(want);
                    s.append("\"");
                    return Err(s);
                }
            },
            None => {},
        }
        match &p.contains {
            Some(want) => {
                if !text::contains(&t, want) {
                    let mut s = text::concat(&p.target, " is \"");
                    s.append(&t);
                    s.append("\", which does not contain \"");
                    s.append(want);
                    s.append("\"");
                    return Err(s);
                }
            },
            None => {},
        }
        Ok(Reply::raw(t))
    }
}

// ---------------------------------------------------------------------- fetching

/// What came back for a request.
pub struct FetchResult {
    /// Status and content type.
    pub head: String,
    /// The body, where it is JSON.
    pub json: Option<Json>,
    pub text: String,
}

/// How the body of a request is shown.
pub enum Shape {
    /// As the result of this expression, run in the page's isolated world.
    Run(String),
    Show(String),
}

/// The most characters of a body, where the call does not say.
pub const FETCH_CHARS: usize = 20_000;

/// A text cut to a number of characters.
pub fn truncate_chars(s: &str, max: usize) -> (r: String)
    ensures
        r@ == text::first_chars(s@, max as nat),
{
    text::take_chars(s, max)
}

/// What is said of one request.
pub open spec fn fetch_section(outcome: Result<(Text, Text), Text>, max: nat) -> Text {
    match outcome {
        Ok(f) => f.0 + "\n\n"@ + text::first_chars(f.1, max),
        Err(e) => "failed: "@ + e,
    }
}

/// What is said of one of several requests, or of the only one.
pub open spec fn titled_section(url: Text, section: Text, several: bool) -> Text {
    if several {
        "## "@ + url + "\n"@ + section
    } else {
        section
    }
}

/// The view of an outcome.
pub open spec fn fetched(r: Result<(String, String), String>) -> Result<(Text, Text), Text> {
    match r {
        Ok(f) => Ok((f.0@, f.1@)),
        Err(e) => Err(e@),
    }
}

/// The URLs that are asked for: the single one first.
pub open spec fn fetch_list(p: FetchParams) -> Seq<Text> {
    (match p.url {
        Some(u) => seq![u@],
        None => Seq::empty(),
    }) + (match p.urls {
        Some(v) => text::views(v@),
        None => Seq::empty(),
    })
}

/// The sections of several requests.
pub open spec fn fetch_sections(urls: Seq<Text>, outcomes: Seq<Result<(Text, Text), Text>>, max: nat) -> Seq<Text> {
    Seq::new(
        urls.len(),
        |i: int| titled_section(urls[i], fetch_section(outcomes[i], max), urls.len() > 1),
    )
}

/// The outcomes of several requests.
pub open spec fn outcomes_of(s: Seq<Result<(String, String), String>>) -> Seq<Result<(Text, Text), Text>> {
    s.map_values(|r: Result<(String, String), String>| fetched(r))
}

impl BrowserServer {
    /// The URLs to fetch, and the method.
    pub fn fetch_urls(p: &FetchParams) -> (r: Result<(Vec<String>, String), String>)
        ensures
            match r {
                Ok(x) => {
                    &&& fetch_list(*p).len() > 0
                    &&& text::views(x.0@) == fetch_list(*p)
                    &&& x.1@ == tools::or_text(text::opt_text(p.method), "GET"@)
                },
                Err(e) => fetch_list(*p).len() == 0 && e@ == "pass url or urls"@,
            },
    {
        broadcast use text::group_views;

        let mut urls: Vec<String> = Vec::new();
        match &p.url {
            Some(u) => {
                urls.push(u.clone());
            },
            None => {},
        }
        let ghost one = text::views(urls@);
        match &p.urls {
            Some(v) => {
                let mut more = text::copies(v);
                urls.append(&mut more);
                proof {
                    assert(text::views(urls@) =~= one + text::views(v@));
                }
            },
            None => {
                proof {
                    assert(one + Seq::<Text>::empty() =~= one);
                }
            },
        }
        proof {
            assert(text::views(urls@) =~= fetch_list(*p));
        }
        if urls.len() == 0 {
            return Err("pass url or urls".to_string());
        }
        Ok((urls, tools::or_str(&p.method, "GET")))
    }

    /// How to show a fetched body: what a function makes of it, some of its fields, or all of it.
    pub fn shape_body(f: &FetchResult, transform: &Option<String>, fields: &Option<Vec<String>>) -> (r: Shape)
        ensures
            match transform {
                Some(t) => r matches Shape::Run(e) && e@ == "("@ + t@ + ")("@ + (match f.json {
                    Some(v) => json::json_text(v@),
                    None => json::quoted(f.text@),
                }) + ")"@,
                None => r matches Shape::Show(s) && s@ == match (f.json, fields) {
                    (Some(v), Some(names)) => json::json_text(project::projected(v@, text::views(names@))),
                    (Some(v), None) => json::json_text(v@),
                    (None, _) => f.text@,
                },
            },
    {
        match transform {
            Some(t) => {
                let mut e = text::concat("(", t);
                e.append(")(");
                e.append(
                    &match &f.json {
                        Some(v) => v.to_text(),
                        None => json::js(&f.text),
                    },
                );
                e.append(")");
                Shape::Run(e)
            },
            None => match &f.json {
                Some(v) => match fields {
                    Some(names) => Shape::Show(project::project(v, names).to_text()),
                    None => Shape::Show(v.to_text()),
                },
                None => Shape::Show(f.text.clone()),
            },
        }
    }

    /// The reply of one or more requests; each came back with a head and a body, or failed.
    pub fn fetch(urls: &Vec<String>, outcomes: &Vec<Result<(String, String), String>>, max_chars: Option<usize>) -> (r:
        Reply)
        requires
            urls@.len() == outcomes@.len(),
        ensures
            r@ == reply::plain_reply(
                text::joined(
                    fetch_sections(
                        text::views(urls@),
                        outcomes_of(outcomes@),
                        match max_chars {
                            Some(n) => n as nat,
                            None => FETCH_CHARS as nat,
                        },
                    ),
                    "\n\n"@,
                ),
            ),
    {
        broadcast use text::group_views;

        let max: usize = match max_chars {
            Some(n) => n,
            None => FETCH_CHARS,
        };
        let several = urls.len() > 1;
        let mut sections: Vec<String> = Vec::new();
        let mut i: usize = 0;
        while i < urls.len()
            invariant
                i <= urls@.len(),
                urls@.len() == outcomes@.len(),
                several == (urls@.len() > 1),
                sections@.len() == i,
                forall|k: int|
                    0 <= k < i ==> (#[trigger] sections@[k])@ == titled_section(
                        urls@[k]@,
                        fetch_section(fetched(outcomes@[k]), max as nat),
                        several,
                    ),
            decreases urls@.len() - i,
        {
            let section = match &outcomes[i] {
                Ok(f) => {
                    let mut s = text::concat(&f.0, "\n\n");
                    s.append(&truncate_chars(&f.1, max));
                    s
                },
                Err(e) => text::concat("failed: ", e),
            };
            let titled = if several {
                let mut s = text::concat("## ", &urls[i]);
                s.append("\n");
                s.append(&section);
                s
            } else {
                section
            };
            sections.push(titled);
            i = i + 1;
        }
        proof {
            assert(text::views(sections@) =~= fetch_sections(
                text::views(urls@),
                outcomes_of(outcomes@),
                max as nat,
            ));
        }
        Reply::raw(text::join(&sections, "\n\n"))
    }
}

// ---------------------------------------------------------------------- many pages

/// A page to read: where it is, the function that reads it, and how much of that is kept.
pub open spec fn scrape_target(t: ScrapeTarget, function: Option<Text>, max: nat) -> (Text, Option<Text>, nat) {
    match t {
        ScrapeTarget::Url(u) => (u@, function, max),
        ScrapeTarget::Spec { url, function: own, max_chars } => (
            url@,
            match own {
                Some(f) => Some(f@),
                None => function,
            },
            match max_chars {
                Some(n) => n as nat,
                None => max,
            },
        ),
    }
}

/// The most characters of a page, where the call does not say.
pub const SCRAPE_CHARS: usize = 4_000;

/// The most pages that are loaded at the same time.
pub const SCRAPE_PAGES: usize = 8;

/// How pages are read.
pub struct Scrape {
    pub targets: Vec<(String, Option<String>, usize)>,
    /// Pages loaded at the same time.
    pub concurrency: usize,
    /// In milliseconds.
    pub page_timeout: u64,
}

/// Pages to read by their texts.
pub open spec fn target_views(s: Seq<(String, Option<String>, usize)>) -> Seq<(Text, Option<Text>, nat)> {
    s.map_values(|t: (String, Option<String>, usize)| (t.0@, text::opt_text(t.1), t.2 as nat))
}

impl BrowserServer {
    pub fn scrape(p: &ScrapeParams) -> (r: Result<Scrape, String>)
        ensures
            match r {
                Ok(s) => {
                    &&& p.urls@.len() > 0
                    &&& target_views(s.targets@) == p.urls@.map_values(
                        |t: ScrapeTarget|
                            scrape_target(
                                t,
                                text::opt_text(p.function),
                                match p.max_chars {
                                    Some(n) => n as nat,
                                    None => SCRAPE_CHARS as nat,
                                },
                            ),
                    )
                    &&& s.concurrency == match p.concurrency {
                        Some(n) => if n > SCRAPE_PAGES {
                            SCRAPE_PAGES
                        } else if n < 1 {
                            1
                        } else {
                            n
                        },
                        None => 4,
                    }
                    &&& s.page_timeout == match p.page_timeout {
                        Some(t) => t,
                        None => 15_000,
                    }
                },
                Err(e) => p.urls@.len() == 0 && e@ == "pass at least one URL"@,
            },
    {
        if p.urls.len() == 0 {
            return Err("pass at least one URL".to_string());
        }
        let max: usize = match p.max_chars {
            Some(n) => n,
            None => SCRAPE_CHARS,
        };
        let ghost f = |t: ScrapeTarget| scrape_target(t, text::opt_text(p.function), max as nat);
        let mut targets: Vec<(String, Option<String>, usize)> = Vec::new();
        let mut i: usize = 0;
        while i < p.urls.len()
            invariant
                i <= p.urls@.len(),
                targets@.len() == i,
                forall|k: int|
                    0 <= k < i ==> ((#[trigger] targets@[k]).0@, text::opt_text(targets@[k].1), targets@[k].2 as nat)
                        == scrape_target(p.urls@[k], text::opt_text(p.function), max as nat),
            decreases p.urls@.len() - i,
        {
            let t = match &p.urls[i] {
                ScrapeTarget::Url(u) => (u.clone(), text::copy_opt(&p.function), max),
                ScrapeTarget::Spec { url, function, max_chars } => (
                    url.clone(),
                    match function {
                        Some(own) => Some(own.clone()),
                        None => text::copy_opt(&p.function),
                    },
                    match max_chars {
                        Some(n) => *n,
                        None => max,
                    },
                ),
            };
            targets.push(t);
            i = i + 1;
        }
        proof {
            assert(target_views(targets@) =~= p.urls@.map_values(f));
        }
        let concurrency: usize = match p.concurrency {
            Some(n) => if n > SCRAPE_PAGES {
                SCRAPE_PAGES
            } else if n < 1 {
                1
            } else {
                n
            },
            None => 4,
        };
        let page_timeout: u64 = match p.page_timeout {
            Some(t) => t,
            None => 15_000,
        };
        Ok(Scrape { targets, concurrency, page_timeout })
    }
}

// ---------------------------------------------------------------------- requests with the browser's cookies

/// Cookies as a request sends them.
pub open spec fn cookie_text(cookies: Seq<JsonV>) -> Text {
    text::joined(
        cookies.map_values(|c: JsonV| c.at("name"@).text() + "="@ + c.at("value"@).text()),
        "; "@,
    )
}

/// Cookies as a request sends them.
pub fn cookie_header(cookies: &Vec<Json>) -> (r: String)
    ensures
        r@ == cookie_text(text::views(cookies@)),
{
    let mut out: Vec<String> = Vec::new();
    let mut i: usize = 0;
    while i < cookies.len()
        invariant
            i <= cookies@.len(),
            out@.len() == i,
            forall|k: int|
                0 <= k < i ==> (#[trigger] out@[k])@ == cookies@[k]@.at("name"@).text() + "="@ + cookies@[k]@.at(
                    "value"@,
                ).text(),
        decreases cookies@.len() - i,
    {
        let mut s = text::concat(&cookies[i].at("name").text(), "=");
        s.append(&cookies[i].at("value").text());
        out.push(s);
        i = i + 1;
    }
    proof {
        assert(text::views(out@) =~= text::views(cookies@).map_values(
            |c: JsonV| c.at("name"@).text() + "="@ + c.at("value"@).text(),
        ));
    }
    text::join(&out, "; ")
}

/// The head of a response: its status and the type of its content.
pub fn response_head(status: u16, content_type: &str) -> (r: String)
    ensures
        r@ == "HTTP "@ + text::dec(status as nat) + " "@ + content_type@,
{
    let mut s = text::concat("HTTP ", &text::decimal(status as u128));
    s.append(" ");
    s.append(content_type);
    s
}

/// What became of reading a page.
pub enum PageRead {
    Text(String),
    Failed(String),
    TimedOut,
}

/// What is said of a page that was read, or was not.
pub open spec fn page_section(url: Text, read: PageRead, timeout: nat) -> Text {
    "## "@ + url + "\n"@ + match read {
        PageRead::Text(t) => t@,
        PageRead::Failed(e) => "failed: "@ + e@,
        PageRead::TimedOut => "timed out after "@ + text::dec(timeout) + "ms"@,
    }
}

impl Scrape {
    /// What is said of a page that was read, or was not.
    pub fn section(url: &str, read: &PageRead, page_timeout: u64) -> (r: String)
        ensures
            r@ == page_section(url@, *read, page_timeout as nat),
    {
        let mut s = text::concat("## ", url);
        s.append("\n");
        match read {
            PageRead::Text(t) => {
                s.append(t);
            },
            PageRead::Failed(e) => {
                s.append(&text::concat("failed: ", e));
            },
            PageRead::TimedOut => {
                let mut late = text::concat("timed out after ", &text::decimal(page_timeout as u128));
                late.append("ms");
                s.append(&late);
            },
        }
        s
    }

    /// The reply of all pages that were read.
    pub fn reply(sections: &Vec<String>) -> (r: Reply)
        ensures
            r@ == reply::plain_reply(text::joined(text::views(sections@), "\n\n"@)),
    {
        Reply::raw(text::join(sections, "\n\n"))
    }
}

// ---------------------------------------------------------------------- what is read

/// How much is shown and read where a call does not say.
pub proof fn law_limits_of_reading()
    ensures
        LINK_CHARS == 80,
        FETCH_CHARS == 20000,
        SCRAPE_CHARS == 4000,
        SCRAPE_PAGES == 8,
{
}

/// A helper of the page is called by its name with its argument as JSON.
pub proof fn law_helpers_are_called(name: Text, argument: JsonV)
    ensures
        helper_call(name, argument) == "__bmcp."@ + name + "("@ + json::json_text(argument) + ")"@,
{
}

/// The start of an address ends before the third slash, and so behind its host.
pub proof fn law_starts_of_addresses(scheme: Text, host: Text, path: Text)
    requires
        !scheme.contains('/'),
        !host.contains('/'),
    ensures
        url_start(scheme + "//"@ + host) == scheme + "//"@ + host,
        url_start(scheme + "//"@ + host + "/"@ + path) == scheme + "//"@ + host,
{
    reveal_strlit("/");
    reveal_strlit("//");
    let seps = "/"@;
    let none = Seq::<char>::empty();
    assert(seps.len() == 1 && seps[0] == '/');
    assert("//"@.len() == 2 && "//"@[0] == '/' && "//"@[1] == '/');
    assert forall|k: int| 0 <= k < scheme.len() implies !seps.contains(#[trigger] scheme[k]) by {
        assert(scheme.contains(scheme[k]));
    }
    assert forall|k: int| 0 <= k < host.len() implies !seps.contains(#[trigger] host[k]) by {
        assert(host.contains(host[k]));
    }
    let a = scheme + "//"@ + host;
    let b = a + "/"@ + path;
    let ra = none.push('/') + host;
    let rest = host.push('/') + path;
    let rb = none.push('/') + rest;
    assert(a =~= scheme.push('/') + ra);
    assert(b =~= scheme.push('/') + rb);
    text::law_pieces_end_at_separators(scheme, '/', ra, seps);
    text::law_pieces_end_at_separators(scheme, '/', rb, seps);
    text::law_pieces_end_at_separators(none, '/', host, seps);
    text::law_pieces_end_at_separators(none, '/', rest, seps);
    text::law_pieces_end_at_separators(host, '/', path, seps);
    let three = seq![scheme, none, host];
    assert(text::pieces(a, seps) =~= three);
    let pb = text::pieces(b, seps);
    assert(pb =~= three + text::pieces(path, seps));
    text::law_pieces_hold_no_separator(path, seps, 0, 0);
    assert(pb.len() > 3);
    assert(pb.take(3) =~= three);
    assert(text::joined(three, "/"@) =~= a) by {
        let two = seq![scheme, none];
        assert(three.drop_last() =~= two);
        assert(two.drop_last() =~= seq![scheme]);
        assert(text::joined(seq![scheme], "/"@) == scheme);
        assert(text::joined(two, "/"@) == scheme + "/"@ + none);
        assert(text::joined(three, "/"@) == scheme + "/"@ + none + "/"@ + host);
    }
}

/// An address on the page's own host is shown without its start, and any other in full.
pub proof fn law_short_addresses(start: Text, path: Text, href: Text)
    ensures
        path.len() > 0 && path[0] == '/' ==> short_href(start + path, start) == path,
        path.len() > 0 && path[0] != '/' ==> short_href(start + path, start) == start + path,
        !text::text_starts(href, start) ==> short_href(href, start) == href,
{
    reveal_strlit("/");
    assert("/"@.len() == 1 && "/"@[0] == '/');
    text::law_prefixes_come_off(path, start);
    if path.len() > 0 && path[0] == '/' {
        assert(path.subrange(0, 1) =~= "/"@);
    } else if path.len() > 0 {
        assert(path.subrange(0, 1)[0] == path[0]);
    }
}

/// A link is shown with its reference, its region, its text as far as 80 characters, that it is hidden where
/// it is, and its address.
pub proof fn law_links_are_shown(l: JsonV, start: Text)
    ensures
        link_line(l, start) == l.at("ref"@).text() + " ["@ + l.at("region"@).text() + "] "@ + text::first_chars(
            l.at("text"@).text(),
            80,
        ) + (if l.at("visible"@) == JsonV::Bool(false) {
            " (hidden)"@
        } else {
            Seq::empty()
        }) + " -> "@ + short_href(l.at("href"@).text(), start),
{
}

/// All links are shown, each in a line, in their order, and how many they are; where there are none, that is
/// said. So are all items, as JSON.
pub proof fn law_all_links_and_items_are_shown(links: Seq<JsonV>, start: Text, selector: Text, i: int)
    requires
        0 <= i < links.len(),
    ensures
        exists|lines: Seq<Text>|
            links_text(links, start) == text::dec(links.len()) + " links (refs work as targets; relative URLs are on "@
                + start + "):\n"@ + #[trigger] text::joined(lines, "\n"@) && lines.len() == links.len() && lines[i]
                == link_line(links[i], start),
        exists|lines: Seq<Text>|
            items_text(links, selector) == text::dec(links.len()) + " items:\n"@ + #[trigger] text::joined(lines, "\n"@)
                && lines.len() == links.len() && lines[i] == json::json_text(links[i]),
        links_text(Seq::empty(), start) == "No matching links"@,
        items_text(Seq::empty(), selector) == "No elements match "@ + selector,
{
    let a = links.map_values(|l: JsonV| link_line(l, start));
    let b = links.map_values(|j: JsonV| json::json_text(j));
    assert(links_text(links, start) == text::dec(links.len()) + " links (refs work as targets; relative URLs are on "@
        + start + "):\n"@ + text::joined(a, "\n"@));
    assert(items_text(links, selector) == text::dec(links.len()) + " items:\n"@ + text::joined(b, "\n"@));
}

/// The fields to extract are named with their selectors, each of them, in order.
pub proof fn law_fields_to_extract(v: Vec<(String, String)>, i: int)
    ensures
        fields_json(None) == JsonV::Null,
        fields_json(Some(v)).fields().len() == v@.len(),
        0 <= i < v@.len() ==> fields_json(Some(v)).fields()[i] == (v@[i].0@, JsonV::Str(v@[i].1@)),
{
    if 0 <= i < v@.len() {
        assert(state::pairs(v@)[i] == (v@[i].0@, v@[i].1@));
    }
}

/// What was read is refused where it is not the text that the call expects, or does not contain it, and
/// only there; the refusal tells what was read and what was expected.
pub proof fn law_expectations(p: ReadParams, t: Text)
    ensures
        unexpected(p, t) is None <==> (p.equals is None || t == (p.equals->0)@) && (p.contains is None || text::text_has(
            t,
            (p.contains->0)@,
        )),
        p.equals is Some && t != (p.equals->0)@ ==> unexpected(p, t) == Some(
            p.target@ + " is \""@ + t + "\", expected \""@ + (p.equals->0)@ + "\""@,
        ),
        (p.equals is None || t == (p.equals->0)@) && p.contains is Some && !text::text_has(t, (p.contains->0)@)
            ==> unexpected(p, t) == Some(
            p.target@ + " is \""@ + t + "\", which does not contain \""@ + (p.contains->0)@ + "\""@,
        ),
{
}

/// What is fetched is shown below its head, as far as the limit; what failed is told; and of several requests
/// each has its address above it.
pub proof fn law_requests_are_shown(head: Text, body: Text, e: Text, max: nat, url: Text)
    ensures
        body.len() <= max ==> fetch_section(Ok((head, body)), max) == head + "\n\n"@ + body,
        body.len() > max ==> fetch_section(Ok((head, body)), max) == head + "\n\n"@ + body.take(max as int),
        fetch_section(Err(e), max) == "failed: "@ + e,
        titled_section(url, body, true) == "## "@ + url + "\n"@ + body,
        titled_section(url, body, false) == body,
{
    text::law_first_characters(body, max);
    if body.len() == max {
        assert(body.take(max as int) =~= body);
    }
}

/// Every request has its section, in the order in which they are asked for: the single address first.
pub proof fn law_all_requests_are_shown(
    p: FetchParams,
    urls: Seq<Text>,
    outcomes: Seq<Result<(Text, Text), Text>>,
    max: nat,
    i: int,
)
    ensures
        fetch_sections(urls, outcomes, max).len() == urls.len(),
        0 <= i < urls.len() ==> fetch_sections(urls, outcomes, max)[i] == titled_section(
            urls[i],
            fetch_section(outcomes[i], max),
            urls.len() > 1,
        ),
        p.url is Some && p.urls is Some ==> fetch_list(p) == seq![(p.url->0)@] + text::views((p.urls->0)@),
        p.url is Some && p.urls is None ==> fetch_list(p) == seq![(p.url->0)@],
        p.url is None && p.urls is Some ==> fetch_list(p) == text::views((p.urls->0)@),
        p.url is None && p.urls is None ==> fetch_list(p).len() == 0,
{
    if p.url is Some && p.urls is None {
        assert(fetch_list(p) =~= seq![(p.url->0)@]);
    }
    if p.url is None && p.urls is Some {
        assert(fetch_list(p) =~= text::views((p.urls->0)@));
    }
}

/// A page to read is read with its own function and limit, where it has them, and else with those of the call.
pub proof fn law_pages_to_read(
    url: String,
    own: Option<String>,
    max_chars: Option<usize>,
    function: Option<Text>,
    max: nat,
)
    ensures
        scrape_target(ScrapeTarget::Url(url), function, max) == (url@, function, max),
        ({
            let t = scrape_target(ScrapeTarget::Spec { url, function: own, max_chars }, function, max);
            &&& t.0 == url@
            &&& own is Some ==> t.1 == Some((own->0)@)
            &&& own is None ==> t.1 == function
            &&& max_chars is Some ==> t.2 == max_chars->0
            &&& max_chars is None ==> t.2 == max
        }),
{
}

/// Every cookie is sent, with its name and its value, in order.
pub proof fn law_cookies_are_sent(cookies: Seq<JsonV>, c: JsonV)
    ensures
        cookie_text(Seq::empty()) == Seq::<char>::empty(),
        cookie_text(seq![c]) == c.at("name"@).text() + "="@ + c.at("value"@).text(),
        cookies.len() > 0 ==> cookie_text(cookies.push(c)) == cookie_text(cookies) + "; "@ + (c.at("name"@).text() + "="@
            + c.at("value"@).text()),
{
    let f = |c: JsonV| c.at("name"@).text() + "="@ + c.at("value"@).text();
    assert(seq![c].map_values(f) =~= seq![f(c)]);
    assert(cookies.push(c).map_values(f) =~= cookies.map_values(f).push(f(c)));
    text::law_parts_are_joined(cookies.map_values(f), "; "@, f(c));
    assert(Seq::<JsonV>::empty().map_values(f) =~= Seq::<Text>::empty());
}

/// What is said of a page: its address, and what was read, why it could not be, or that it took too long.
pub proof fn law_pages_are_shown(url: Text, t: String, timeout: nat)
    ensures
        page_section(url, PageRead::Text(t), timeout) == "## "@ + url + "\n"@ + t@,
        page_section(url, PageRead::Failed(t), timeout) == "## "@ + url + "\n"@ + ("failed: "@ + t@),
        page_section(url, PageRead::TimedOut, timeout) == "## "@ + url + "\n"@ + ("timed out after "@ + text::dec(timeout)
            + "ms"@),
{
}

} // verus!
