//! What the tools that act on the page take from their parameters and say in their replies.

use crate::actions::Shot;
use crate::json;
use crate::json::Json;
use crate::json::JsonV;
use crate::network::Filter;
use crate::origin;
use crate::params::ClickParams;
use crate::params::ConsoleParams;
use crate::params::DragParams;
use crate::params::DropParams;
use crate::params::FormField;
use crate::params::KeyParams;
use crate::params::ModeParams;
use crate::params::NavigateParams;
use crate::params::NetworkRequestsParams;
use crate::params::ScreenshotParams;
use crate::params::SelectParams;
use crate::params::SnapshotParams;
use crate::params::TabsParams;
use crate::params::TargetParams;
use crate::params::TypeParams;
use crate::params::WaitParams;
use crate::reply;
use crate::reply::Reply;
use crate::reply::ReplyV;
use crate::server::BrowserServer;
use crate::text;
use crate::text::Text;
use vstd::prelude::*;

verus! {

/// What a text option holds, or a default.
pub open spec fn or_text(o: Option<Text>, d: Text) -> Text {
    match o {
        Some(t) => t,
        None => d,
    }
}

pub fn or_str(o: &Option<String>, d: &str) -> (r: String)
    ensures
        r@ == or_text(text::opt_text(*o), d@),
{
    match o {
        Some(s) => s.clone(),
        None => d.to_string(),
    }
}

/// The flag is set.
pub open spec fn is_on(o: Option<bool>) -> bool {
    o == Some(true)
}

pub fn flag(o: Option<bool>) -> (r: bool)
    ensures
        r == is_on(o),
{
    match o {
        Some(b) => b,
        None => false,
    }
}

// ---------------------------------------------------------------------- acting

impl BrowserServer {
    /// The reply of a navigation that the server answered with `status`.
    pub fn navigate(p: &NavigateParams, status: Option<i64>) -> (r: Reply)
        ensures
            r@ == reply::action_reply(
                "Navigated to "@ + origin::full_url(p.url@) + match status {
                    Some(s) => if s >= 400 {
                        ": HTTP "@ + text::dec_int(s as int) + ", the server returned an error page"@
                    } else {
                        " (HTTP "@ + text::dec_int(s as int) + ")"@
                    },
                    None => Seq::empty(),
                },
            ),
    {
        let mut s = text::concat("Navigated to ", &origin::normalize_url(&p.url));
        match status {
            Some(n) => {
                let mut more = if n >= 400 {
                    ": HTTP ".to_string()
                } else {
                    " (HTTP ".to_string()
                };
                more.append(&text::decimal_int(n as i128));
                if n >= 400 {
                    more.append(", the server returned an error page");
                } else {
                    more.append(")");
                }
                s.append(&more);
            },
            None => {
                proof {
                    assert(s@ + Seq::<char>::empty() =~= s@);
                }
            },
        }
        Reply::action(s)
    }

    /// The reply of going back, by whether there was a page to go back to.
    pub fn back(went: bool) -> (r: Reply)
        ensures
            r@ == reply::action_reply(if went {
                "Went back"@
            } else {
                "No previous page in history"@
            }),
    {
        Reply::action(if went {
            "Went back".to_string()
        } else {
            "No previous page in history".to_string()
        })
    }

    pub fn click(p: &ClickParams) -> (r: Reply)
        ensures
            r@ == reply::action_reply(
                (if is_on(p.double_click) {
                    "Double-clicked "@
                } else {
                    "Clicked "@
                }) + or_text(text::opt_text(p.element), p.target@),
            ),
    {
        let what = or_str(&p.element, &p.target);
        Reply::action(text::concat(if flag(p.double_click) { "Double-clicked " } else { "Clicked " }, &what))
    }

    pub fn hover(p: &TargetParams) -> (r: Reply)
        ensures
            r@ == reply::action_reply("Hovered "@ + or_text(text::opt_text(p.element), p.target@)),
    {
        Reply::action(text::concat("Hovered ", &or_str(&p.element, &p.target)))
    }

    pub fn type_text(p: &TypeParams) -> (r: Reply)
        ensures
            r@ == reply::action_reply(
                "Typed into "@ + or_text(text::opt_text(p.element), p.target@) + (if is_on(p.submit) {
                    " and pressed Enter"@
                } else {
                    Seq::empty()
                }),
            ),
    {
        let mut s = text::concat("Typed into ", &or_str(&p.element, &p.target));
        if flag(p.submit) {
            s.append(" and pressed Enter");
        } else {
            proof {
                assert(s@ + Seq::<char>::empty() =~= s@);
            }
        }
        Reply::action(s)
    }

    pub fn fill_form(fields: usize) -> (r: Reply)
        ensures
            r@ == reply::action_reply("Filled "@ + text::dec(fields as nat) + " field(s)"@),
    {
        let mut s = text::concat("Filled ", &text::decimal(fields as u128));
        s.append(" field(s)");
        Reply::action(s)
    }

    /// The reply of a selection; `selected` is what the page says was selected.
    pub fn select(p: &SelectParams, selected: &Json) -> (r: Reply)
        ensures
            r@ == reply::action_reply(
                "Selected "@ + json::json_text(selected@) + " in "@ + or_text(text::opt_text(p.element), p.target@),
            ),
    {
        let mut s = text::concat("Selected ", &selected.to_text());
        s.append(" in ");
        s.append(&or_str(&p.element, &p.target));
        Reply::action(s)
    }

    pub fn press_key(p: &KeyParams) -> (r: Reply)
        ensures
            r@ == reply::action_reply("Pressed "@ + p.key@),
    {
        Reply::action(text::concat("Pressed ", &p.key))
    }

    pub fn drag(p: &DragParams) -> (r: Reply)
        ensures
            r@ == reply::action_reply(
                "Dragged "@ + or_text(text::opt_text(p.start_element), p.start_target@) + " to "@ + or_text(
                    text::opt_text(p.end_element),
                    p.end_target@,
                ),
            ),
    {
        let mut s = text::concat("Dragged ", &or_str(&p.start_element, &p.start_target));
        s.append(" to ");
        s.append(&or_str(&p.end_element, &p.end_target));
        Reply::action(s)
    }

    /// What is to be dropped: files, and an object of data by its kinds.
    pub fn dropped(p: &DropParams) -> (r: Result<(Vec<String>, Json), String>)
        requires
            p.data is Some ==> (p.data->0)@ is Obj,
        ensures
            match r {
                Ok(d) => {
                    &&& text::views(d.0@) == drop_paths(*p)
                    &&& d.1@ == drop_members(*p)
                    &&& drop_paths(*p).len() > 0 || drop_members(*p).fields().len() > 0
                },
                Err(e) => {
                    &&& e@ == "pass paths or data to drop"@
                    &&& drop_paths(*p).len() == 0 && drop_members(*p).fields().len() == 0
                },
            },
    {
        broadcast use text::group_views;

        let paths = match &p.paths {
            Some(v) => text::copies(v),
            None => Vec::new(),
        };
        let data = match &p.data {
            Some(d) => d.clone(),
            None => Json::obj(),
        };
        let none = match &data {
            Json::Obj(m) => {
                proof {
                    json::lemma_obj(*m);
                }
                m.len() == 0
            },
            _ => true,
        };
        if paths.len() == 0 && none {
            return Err("pass paths or data to drop".to_string());
        }
        Ok((paths, data))
    }

    pub fn drop_(p: &DropParams) -> (r: Reply)
        ensures
            r@ == reply::action_reply("Dropped onto "@ + or_text(text::opt_text(p.element), p.target@)),
    {
        Reply::action(text::concat("Dropped onto ", &or_str(&p.element, &p.target)))
    }

    /// Whether to wait for a time or a text: where one of them is asked for, or nothing else was.
    pub fn waits_plainly(p: &WaitParams) -> (r: bool)
        ensures
            r == (p.time is Some || p.text is Some || p.text_gone is Some || (p.selector is None && p.url is None)),
    {
        p.time.is_some() || p.text.is_some() || p.text_gone.is_some() || (p.selector.is_none() && p.url.is_none())
    }

    /// The state that a selector is waited for in.
    pub fn wait_state(p: &WaitParams) -> (r: String)
        ensures
            r@ == or_text(text::opt_text(p.state), "visible"@),
    {
        or_str(&p.state, "visible")
    }

    /// The reply of waiting; `done` tells what was waited for, one after the other.
    pub fn wait(done: &Vec<String>) -> (r: Reply)
        ensures
            r@ == reply::action_reply(text::joined(text::views(done@), "; "@)),
    {
        Reply::action(text::join(done, "; "))
    }
}

/// The files of a drop.
pub open spec fn drop_paths(p: DropParams) -> Seq<Text> {
    match p.paths {
        Some(v) => text::views(v@),
        None => Seq::empty(),
    }
}

/// The data of a drop.
pub open spec fn drop_members(p: DropParams) -> JsonV {
    match p.data {
        Some(d) => d@,
        None => JsonV::obj(),
    }
}

/// How a field of a form is filled in.
pub enum Filling {
    /// Checked or not.
    Check(bool),
    /// An option is selected where the element is a `<select>`; otherwise it is filled in.
    Choose,
    /// Filled in with text.
    Fill,
}

/// How a field of a kind takes a value.
pub open spec fn filling_of(kind: Text, value: Text) -> Filling {
    if kind == "checkbox"@ || kind == "radio"@ || kind == "switch"@ {
        Filling::Check(value == "true"@)
    } else if kind == "combobox"@ || kind == "listbox"@ {
        Filling::Choose
    } else {
        Filling::Fill
    }
}

/// How to fill in a field, by its kind.
pub fn filling(f: &FormField) -> (r: Filling)
    ensures
        r == if f.kind@ == "checkbox"@ || f.kind@ == "radio"@ || f.kind@ == "switch"@ {
            Filling::Check(f.value@ == "true"@)
        } else if f.kind@ == "combobox"@ || f.kind@ == "listbox"@ {
            Filling::Choose
        } else {
            Filling::Fill
        },
        r == filling_of(f.kind@, f.value@),
{
    if text::same(&f.kind, "checkbox") || text::same(&f.kind, "radio") || text::same(&f.kind, "switch") {
        Filling::Check(text::same(&f.value, "true"))
    } else if text::same(&f.kind, "combobox") || text::same(&f.kind, "listbox") {
        Filling::Choose
    } else {
        Filling::Fill
    }
}

/// What is said when a field could not be filled in.
pub fn field_error(f: &FormField, e: &str) -> (r: String)
    ensures
        r@ == "field \""@ + f.name@ + "\": "@ + e@,
{
    let mut s = text::concat("field \"", &f.name);
    s.append("\": ");
    s.append(e);
    s
}

// ---------------------------------------------------------------------- looking

impl BrowserServer {
    /// Whether a snapshot is what later ones are compared with: one of the whole page.
    pub fn is_baseline(p: &SnapshotParams) -> (r: bool)
        ensures
            r == (p.target is None && p.depth is None),
    {
        p.target.is_none() && p.depth.is_none()
    }

    /// The file that a snapshot is saved as.
    pub fn snapshot_file(snap: &str) -> (r: String)
        ensures
            r@ == "```yaml\n"@ + snap@ + "\n```\n"@,
    {
        let mut s = text::concat("```yaml\n", snap);
        s.append("\n```\n");
        s
    }

    /// The image format, and whether there is one image pixel per CSS pixel.
    pub fn screenshot_kind(p: &ScreenshotParams) -> (r: (String, bool))
        ensures
            r.0@ == or_text(text::opt_text(p.kind), "png"@),
            r.1 == (text::opt_text(p.scale) != Some("device"@)),
    {
        (or_str(&p.kind, "png"), !text::same_opt(&p.scale, "device"))
    }

    pub fn screenshot(p: &ScreenshotParams, shot: Shot) -> (r: Reply)
        ensures
            r@ == (ReplyV {
                images: seq![(shot.data@, shot.mime@)],
                ..reply::plain_reply(
                    "Took a screenshot of the "@ + or_text(
                        text::opt_text(p.element),
                        or_text(
                            text::opt_text(p.target),
                            if is_on(p.full_page) {
                                "full page"@
                            } else {
                                "viewport"@
                            },
                        ),
                    ) + " and saved it as "@ + shot.path@,
                )
            }),
    {
        let whole = if flag(p.full_page) {
            "full page"
        } else {
            "viewport"
        };
        let mut s = text::concat("Took a screenshot of the ", &or_str(&p.element, &or_str(&p.target, whole)));
        s.append(" and saved it as ");
        s.append(&shot.path);
        let mut r = Reply::raw(s);
        r.images.push((shot.data, shot.mime));
        proof {
            assert(r@.images =~= seq![(shot.data@, shot.mime@)]);
        }
        r
    }

    /// The reply of a text that may have been saved to a file in place of returning it.
    pub fn save_or(t: String, saved: &Option<String>) -> (r: Reply)
        ensures
            r@ == reply::page_reply(saved_or(t@, text::opt_text(*saved))),
    {
        match saved {
            Some(path) => Reply::text(text::concat("Saved to ", path)),
            None => Reply::text(t),
        }
    }

    /// The reply of a log that may have been saved to a file: without the state of the page.
    pub fn save_log(t: String, saved: &Option<String>) -> (r: Reply)
        ensures
            r@ == reply::plain_reply(saved_or(t@, text::opt_text(*saved))),
    {
        let mut r = BrowserServer::save_or(t, saved);
        r.page_state = false;
        r
    }

    /// The level of console messages to return, and whether to return all of them.
    pub fn console(p: &ConsoleParams) -> (r: (String, bool))
        ensures
            r.0@ == or_text(text::opt_text(p.level), "info"@),
            r.1 == is_on(p.all),
    {
        (or_str(&p.level, "info"), flag(p.all))
    }

    /// Which requests to list.
    pub fn network_requests(p: &NetworkRequestsParams) -> (r: Filter)
        ensures
            r == (Filter { include_static: p.include_static || is_on(p.failed), failed: is_on(p.failed) }),
    {
        let failed = flag(p.failed);
        Filter { include_static: p.include_static || failed, failed }
    }
}

/// What is said of a text: itself, or where it was saved.
pub open spec fn saved_or(t: Text, saved: Option<Text>) -> Text {
    match saved {
        Some(path) => "Saved to "@ + path,
        None => t,
    }
}

// ---------------------------------------------------------------------- tabs, window, mouse

/// What is to be done with the tabs.
pub enum TabsStep {
    List,
    New(String),
    Select(usize),
    Close(Option<usize>),
}

impl BrowserServer {
    /// Whether a call on tabs starts the browser: one with an unknown action is refused without it.
    pub fn tabs_start_browser(p: &TabsParams) -> (r: bool)
        ensures
            r == (p.action@ == "list"@ || p.action@ == "new"@ || p.action@ == "select"@ || p.action@ == "close"@),
    {
        text::same(&p.action, "list") || text::same(&p.action, "new") || text::same(&p.action, "select") || text::same(
            &p.action,
            "close",
        )
    }

    pub fn tabs(p: &TabsParams) -> (r: Result<TabsStep, String>)
        ensures
            match r {
                Ok(TabsStep::List) => p.action@ == "list"@,
                Ok(TabsStep::New(url)) => p.action@ == "new"@ && url@ == or_text(
                    text::opt_text(p.url),
                    "about:blank"@,
                ),
                Ok(TabsStep::Select(i)) => p.action@ == "select"@ && p.index == Some(i),
                Ok(TabsStep::Close(i)) => p.action@ == "close"@ && p.index == i,
                Err(e) => if p.action@ == "select"@ {
                    p.index is None && e@ == "select needs an index"@
                } else {
                    &&& p.action@ != "list"@ && p.action@ != "new"@ && p.action@ != "close"@
                    &&& e@ == "unknown tabs action \""@ + p.action@ + "\"; use list, new, close or select"@
                },
            },
    {
        if text::same(&p.action, "list") {
            Ok(TabsStep::List)
        } else if text::same(&p.action, "new") {
            Ok(TabsStep::New(or_str(&p.url, "about:blank")))
        } else if text::same(&p.action, "select") {
            match p.index {
                Some(i) => Ok(TabsStep::Select(i)),
                None => Err("select needs an index".to_string()),
            }
        } else if text::same(&p.action, "close") {
            Ok(TabsStep::Close(p.index))
        } else {
            let mut s = text::concat("unknown tabs action \"", &p.action);
            s.append("\"; use list, new, close or select");
            Err(s)
        }
    }

    pub fn resize(w: u32, h: u32) -> (r: Reply)
        ensures
            r@ == reply::action_reply("Resized viewport to "@ + text::dec(w as nat) + "x"@ + text::dec(h as nat)),
    {
        let mut s = text::concat("Resized viewport to ", &text::decimal(w as u128));
        s.append("x");
        s.append(&text::decimal(h as u128));
        Reply::action(s)
    }

    /// The reply of a click at a point; numbers stand as they are shown.
    pub fn mouse_click(x: &str, y: &str) -> (r: Reply)
        ensures
            r@ == reply::action_reply("Clicked at "@ + shown_point(x@, y@)),
    {
        Reply::action(text::concat("Clicked at ", &point_text(x, y)))
    }

    pub fn mouse_move(x: &str, y: &str) -> (r: Reply)
        ensures
            r@ == reply::action_reply("Moved mouse to "@ + shown_point(x@, y@)),
    {
        Reply::action(text::concat("Moved mouse to ", &point_text(x, y)))
    }

    pub fn mouse_wheel(dx: &str, dy: &str) -> (r: Reply)
        ensures
            r@ == reply::action_reply("Scrolled by "@ + shown_point(dx@, dy@)),
    {
        Reply::action(text::concat("Scrolled by ", &point_text(dx, dy)))
    }

    pub fn browser_mouse_drag_xy(start_x: &str, start_y: &str, end_x: &str, end_y: &str) -> (r: Reply)
        ensures
            r@ == reply::action_reply(
                "Dragged from "@ + shown_point(start_x@, start_y@) + " to "@ + shown_point(end_x@, end_y@),
            ),
    {
        let mut s = text::concat("Dragged from ", &point_text(start_x, start_y));
        s.append(" to ");
        s.append(&point_text(end_x, end_y));
        Reply::action(s)
    }

    /// Whether the mode that is asked for is headless.
    pub fn set_mode(p: &ModeParams) -> (r: Result<bool, String>)
        ensures
            match r {
                Ok(true) => p.mode@ == "headless"@,
                Ok(false) => p.mode@ == "headed"@,
                Err(e) => {
                    &&& p.mode@ != "headless"@ && p.mode@ != "headed"@
                    &&& e@ == "unknown mode \""@ + p.mode@ + "\"; use headless or headed"@
                },
            },
    {
        if text::same(&p.mode, "headless") {
            Ok(true)
        } else if text::same(&p.mode, "headed") {
            Ok(false)
        } else {
            let mut s = text::concat("unknown mode \"", &p.mode);
            s.append("\"; use headless or headed");
            Err(s)
        }
    }

    /// The reply of closing the browser, by whether it was running.
    pub fn browser_close(closed: bool) -> (r: Reply)
        ensures
            r@ == reply::plain_reply(if closed {
                "Browser closed"@
            } else {
                "Browser was not running"@
            }),
    {
        Reply::raw(if closed {
            "Browser closed".to_string()
        } else {
            "Browser was not running".to_string()
        })
    }
}

/// A point as it is shown.
pub open spec fn shown_point(x: Text, y: Text) -> Text {
    "("@ + x + ", "@ + y + ")"@
}

fn point_text(x: &str, y: &str) -> (r: String)
    ensures
        r@ == shown_point(x@, y@),
{
    let mut s = text::concat("(", x);
    s.append(", ");
    s.append(y);
    s.append(")");
    s
}

/// What is given counts, and a default where nothing is.
pub proof fn law_defaults_of_parameters(t: Text, d: Text, o: Option<bool>)
    ensures
        or_text(Some(t), d) == t,
        or_text(None, d) == d,
        is_on(o) <==> o == Some(true),
        saved_or(t, Some(d)) == "Saved to "@ + d,
        saved_or(t, None) == t,
        shown_point(t, d) == "("@ + t + ", "@ + d + ")"@,
{
}

/// What is dropped: the files and the data that the call names, and none where it names none.
pub proof fn law_what_is_dropped(p: DropParams)
    ensures
        p.paths is Some ==> drop_paths(p) == text::views((p.paths->0)@),
        p.paths is None ==> drop_paths(p).len() == 0,
        p.data is Some ==> drop_members(p) == (p.data->0)@,
        p.data is None ==> drop_members(p) == JsonV::obj(),
{
}

/// Boxes, radios and switches are set, lists and comboboxes have an option chosen, and any other field is
/// filled in.
pub proof fn law_fields_are_filled(kind: Text, value: Text)
    ensures
        filling_of("checkbox"@, value) == Filling::Check(value == "true"@),
        filling_of("radio"@, value) == Filling::Check(value == "true"@),
        filling_of("switch"@, value) == Filling::Check(value == "true"@),
        filling_of("combobox"@, value) == Filling::Choose && filling_of("listbox"@, value) == Filling::Choose,
        kind != "checkbox"@ && kind != "radio"@ && kind != "switch"@ && kind != "combobox"@ && kind != "listbox"@
            ==> filling_of(kind, value) == Filling::Fill,
{
    reveal_strlit("checkbox");
    reveal_strlit("radio");
    reveal_strlit("switch");
    reveal_strlit("combobox");
    reveal_strlit("listbox");
    assert("radio"@.len() == 5);
    assert("switch"@.len() == 6);
    assert("listbox"@.len() == 7);
    assert("checkbox"@.len() == 8 && "checkbox"@[1] == 'h');
    assert("combobox"@.len() == 8 && "combobox"@[1] == 'o');
}

} // verus!
