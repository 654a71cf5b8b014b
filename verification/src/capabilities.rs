//! What the tools of the capabilities say in their replies, and the settings that they change.

use crate::actions;
use crate::browser::BrowserV;
use crate::cdp;
use crate::cdp::Command;
use crate::json::Json;
use crate::json::JsonV;
use crate::params::ChapterParams;
use crate::params::CookieSetParams;
use crate::params::HandoffParams;
use crate::params::NetworkStateParams;
use crate::params::RouteParams;
use crate::params::ShowActionsParams;
use crate::reply;
use crate::reply::Reply;
use crate::server::BrowserServer;
use crate::state::StateV;
use crate::tabs;
use crate::text;
use vstd::prelude::*;

verus! {

/// How long an annotation of an action stays, in milliseconds, where the call does not say.
pub const SHOW_MS: u64 = 800;

/// How long a person has, in seconds, where the call does not say.
pub const HAND_OFF_SECONDS: u64 = 600;

impl BrowserServer {
    // ------------------------------------------------------------------ network

    /// The reply of a change of the network's state.
    pub fn network_state(p: &NetworkStateParams) -> (r: Reply)
        ensures
            r@ == reply::plain_reply("Network is "@ + p.state@),
    {
        Reply::raw(text::concat("Network is ", &p.state))
    }

    /// The reply of a route that was added.
    pub fn route_added(p: &RouteParams) -> (r: Reply)
        ensures
            r@ == reply::plain_reply("Route added for "@ + p.pattern@),
    {
        Reply::raw(text::concat("Route added for ", &p.pattern))
    }

    /// The reply that lists the routes.
    pub fn browser_route_list(&self) -> (r: Reply)
        ensures
            r@ == reply::plain_reply(tabs::routes_text(self.browser@.state.routes)),
    {
        Reply::raw(self.browser.state.route_list())
    }

    // ------------------------------------------------------------------ storage

    /// The command that clears all cookies.
    pub fn clear_cookies() -> (r: Command)
        ensures
            r@ == cdp::to_browser("Storage.clearCookies"@, JsonV::obj()),
    {
        Command::browser("Storage.clearCookies", Json::obj())
    }

    /// The reply of clearing the cookies.
    pub fn browser_cookie_clear() -> (r: Reply)
        ensures
            r@ == reply::plain_reply("Cleared all cookies"@),
    {
        Reply::raw("Cleared all cookies".to_string())
    }

    /// The reply of a cookie that was set.
    pub fn cookie_set(p: &CookieSetParams) -> (r: Reply)
        ensures
            r@ == reply::plain_reply("Set cookie "@ + p.name@),
    {
        Reply::raw(text::concat("Set cookie ", &p.name))
    }

    /// The reply of an operation on a storage.
    pub fn storage_op(v: &Json) -> (r: Reply)
        ensures
            r@ == reply::plain_reply(actions::plain_text(v@)),
    {
        Reply::raw(actions::plain(v))
    }

    /// The reply of a storage state that was read from a file.
    pub fn browser_set_storage_state(path: &str) -> (r: Reply)
        ensures
            r@ == reply::plain_reply("Restored storage state from "@ + path@),
    {
        Reply::raw(text::concat("Restored storage state from ", path))
    }

    /// The reply of a storage state that was saved to a file.
    pub fn browser_storage_state(path: &str) -> (r: Reply)
        ensures
            r@ == reply::plain_reply("Saved storage state to "@ + path@),
    {
        Reply::raw(text::concat("Saved storage state to ", path))
    }

    // ------------------------------------------------------------------ vision and pdf

    /// The reply of a button that went down.
    pub fn browser_mouse_down() -> (r: Reply)
        ensures
            r@ == reply::action_reply("Mouse down"@),
    {
        Reply::action("Mouse down".to_string())
    }

    /// The reply of a button that went up.
    pub fn browser_mouse_up() -> (r: Reply)
        ensures
            r@ == reply::action_reply("Mouse up"@),
    {
        Reply::action("Mouse up".to_string())
    }

    /// The reply of a page that was saved.
    pub fn browser_pdf_save(path: &str) -> (r: Reply)
        ensures
            r@ == reply::plain_reply("Saved page as "@ + path@),
    {
        Reply::raw(text::concat("Saved page as ", path))
    }

    // ------------------------------------------------------------------ devtools

    /// The reply of a trace that began.
    pub fn browser_start_tracing() -> (r: Reply)
        ensures
            r@ == reply::plain_reply("Tracing started"@),
    {
        Reply::raw("Tracing started".to_string())
    }

    /// The reply of a trace that was saved.
    pub fn browser_stop_tracing(path: &str) -> (r: Reply)
        ensures
            r@ == reply::plain_reply("Trace saved to "@ + path@),
    {
        Reply::raw(text::concat("Trace saved to ", path))
    }

    /// The reply of a video that began.
    pub fn browser_start_video(path: &str) -> (r: Reply)
        ensures
            r@ == reply::plain_reply("Recording video to "@ + path@),
    {
        Reply::raw(text::concat("Recording video to ", path))
    }

    /// The reply of a chapter that was added to a video.
    pub fn browser_video_chapter(p: &ChapterParams) -> (r: Reply)
        ensures
            r@ == reply::plain_reply("Chapter \""@ + p.title@ + "\" added"@),
    {
        let mut s = text::concat("Chapter \"", &p.title);
        s.append("\" added");
        Reply::raw(s)
    }

    /// The elements that actions act on are annotated from now on.
    pub fn browser_video_show_actions(&mut self, p: &ShowActionsParams) -> (r: Reply)
        requires
            old(self).browser.wf(),
        ensures
            final(self).browser.wf(),
            final(self).browser@ == (BrowserV {
                state: StateV {
                    show_actions: Some(
                        match p.duration {
                            Some(ms) => ms,
                            None => SHOW_MS,
                        },
                    ),
                    ..old(self).browser@.state
                },
                ..old(self).browser@
            }),
            r@ == reply::plain_reply("Actions will be annotated"@),
    {
        self.browser.state.show_actions = Some(
            match p.duration {
                Some(ms) => ms,
                None => SHOW_MS,
            },
        );
        Reply::raw("Actions will be annotated".to_string())
    }

    /// Actions are annotated no longer.
    pub fn browser_video_hide_actions(&mut self) -> (r: Reply)
        requires
            old(self).browser.wf(),
        ensures
            final(self).browser.wf(),
            final(self).browser@ == (BrowserV {
                state: StateV { show_actions: None, ..old(self).browser@.state },
                ..old(self).browser@
            }),
            r@ == reply::plain_reply("Actions will no longer be annotated"@),
    {
        self.browser.state.show_actions = None;
        Reply::raw("Actions will no longer be annotated".to_string())
    }

    /// The reply of a recording that began.
    pub fn browser_start_recording() -> (r: Reply)
        ensures
            r@ == reply::plain_reply("Recording user actions"@),
    {
        Reply::raw("Recording user actions".to_string())
    }

    /// The reply of a recording that ended: what was recorded, as code.
    pub fn browser_stop_recording(events: &Vec<Json>) -> (r: Reply)
        ensures
            r@ == reply::plain_reply(tabs::recorded_text(text::views(events@))),
    {
        Reply::raw(tabs::recorded_code(events))
    }

    // ------------------------------------------------------------------ the rest

    /// The reply of builds that are installed.
    pub fn browser_install(lines: &Vec<String>) -> (r: Reply)
        ensures
            r@ == reply::plain_reply(text::joined(text::views(lines@), "\n"@)),
    {
        Reply::raw(text::join(lines, "\n"))
    }

    /// The reply of a snapshot that was saved.
    pub fn snapshot_saved(path: &str) -> (r: Reply)
        ensures
            r@ == reply::page_reply("Snapshot saved to "@ + path@),
    {
        Reply::text(text::concat("Snapshot saved to ", path))
    }

    /// How long a person has, in seconds.
    pub fn browser_handoff(p: &HandoffParams) -> (r: u64)
        ensures
            r == match p.timeout_seconds {
                Some(s) => s,
                None => HAND_OFF_SECONDS,
            },
    {
        match p.timeout_seconds {
            Some(s) => s,
            None => HAND_OFF_SECONDS,
        }
    }
}

/// How long an annotation stays and how long a person has, where a call does not say.
pub proof fn law_times_without_a_word()
    ensures
        SHOW_MS == 800,
        HAND_OFF_SECONDS == 600,
{
}

} // verus!
