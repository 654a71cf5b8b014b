//! The parameters of the tools. Numbers that need not be whole stand as JSON numbers.

use crate::json::Json;
use vstd::prelude::*;

verus! {

pub struct NavigateParams {
    /// The URL to navigate to.
    pub url: String,
    /// Snapshot in the reply: "diff" (default), "main", "full" or "none".
    pub snapshot: Option<String>,
}

pub struct ClickParams {
    /// Human-readable description of the element.
    pub element: Option<String>,
    /// Element reference from a snapshot, or a selector.
    pub target: String,
    /// A double click instead of a single click.
    pub double_click: Option<bool>,
    /// Button to click, defaults to left.
    pub button: Option<String>,
    /// Modifier keys to hold.
    pub modifiers: Option<Vec<String>>,
    pub snapshot: Option<String>,
    /// Milliseconds to wait for the element.
    pub timeout: Option<u64>,
}

pub struct TargetParams {
    pub element: Option<String>,
    pub target: String,
    pub snapshot: Option<String>,
    pub timeout: Option<u64>,
}

pub struct OptTargetParams {
    pub element: Option<String>,
    pub target: Option<String>,
}

pub struct DragParams {
    pub start_element: Option<String>,
    pub start_target: String,
    pub end_element: Option<String>,
    pub end_target: String,
    pub snapshot: Option<String>,
    pub timeout: Option<u64>,
}

pub struct DropParams {
    pub element: Option<String>,
    pub target: String,
    /// Files to drop.
    pub paths: Option<Vec<String>>,
    /// Data to drop: an object from MIME types to values.
    pub data: Option<Json>,
}

pub struct EvaluateParams {
    pub element: Option<String>,
    pub target: Option<String>,
    /// JavaScript function.
    pub function: String,
    /// Save the result to this file.
    pub filename: Option<String>,
}

pub struct UploadParams {
    /// Files to upload; none cancels the file chooser.
    pub paths: Option<Vec<String>>,
    pub snapshot: Option<String>,
}

pub struct FormField {
    /// Human-readable name.
    pub name: String,
    /// textbox, checkbox, radio, combobox or slider.
    pub kind: String,
    pub target: String,
    pub value: String,
}

pub struct FillFormParams {
    pub fields: Vec<FormField>,
    pub snapshot: Option<String>,
    pub timeout: Option<u64>,
}

pub struct FindParams {
    pub text: Option<String>,
    pub regex: Option<String>,
}

pub struct DialogParams {
    pub accept: bool,
    pub prompt_text: Option<String>,
    pub snapshot: Option<String>,
}

pub struct NetworkRequestParams {
    /// 1-based index of the request.
    pub index: usize,
    pub part: Option<String>,
    pub filename: Option<String>,
}

pub struct NetworkRequestsParams {
    pub include_static: bool,
    pub filter: Option<String>,
    /// Only failed requests.
    pub failed: Option<bool>,
    pub filename: Option<String>,
}

pub struct ConsoleParams {
    pub level: Option<String>,
    /// Messages since the session started, not just since the last navigation.
    pub all: Option<bool>,
    pub filename: Option<String>,
}

pub struct KeyParams {
    pub key: String,
    pub snapshot: Option<String>,
}

pub struct ResizeParams {
    pub width: Json,
    pub height: Json,
}

pub struct SelectParams {
    pub element: Option<String>,
    pub target: String,
    pub values: Vec<String>,
    pub snapshot: Option<String>,
    pub timeout: Option<u64>,
}

pub struct SnapshotParams {
    pub target: Option<String>,
    pub filename: Option<String>,
    pub depth: Option<u32>,
    pub boxes: Option<bool>,
}

pub struct ScreenshotParams {
    pub element: Option<String>,
    pub target: Option<String>,
    /// png (default), jpeg or webp.
    pub kind: Option<String>,
    pub filename: Option<String>,
    pub full_page: Option<bool>,
    /// "css" (default) or "device".
    pub scale: Option<String>,
}

pub struct TypeParams {
    pub element: Option<String>,
    pub target: String,
    pub text: String,
    /// Press Enter after typing.
    pub submit: Option<bool>,
    /// Type one character at a time.
    pub slowly: Option<bool>,
    pub snapshot: Option<String>,
    pub timeout: Option<u64>,
}

pub struct WaitParams {
    /// Seconds, as they are written.
    pub time: Option<String>,
    pub text: Option<String>,
    pub text_gone: Option<String>,
    pub selector: Option<String>,
    pub state: Option<String>,
    pub url: Option<String>,
    pub snapshot: Option<String>,
    pub timeout: Option<u64>,
}

pub struct TabsParams {
    /// list, new, close or select.
    pub action: String,
    pub index: Option<usize>,
    pub url: Option<String>,
    pub snapshot: Option<String>,
}

pub struct NetworkStateParams {
    /// "offline" or "online".
    pub state: String,
}

pub struct RouteParams {
    pub pattern: String,
    pub status: Option<i64>,
    pub body: Option<String>,
    pub content_type: Option<String>,
    /// In "Name: Value" format.
    pub headers: Option<Vec<String>>,
    /// Comma-separated header names.
    pub remove_headers: Option<String>,
}

pub struct UnrouteParams {
    pub pattern: Option<String>,
}

pub struct NameParams {
    pub name: String,
}

pub struct CookieListParams {
    /// Only cookies whose domain contains this.
    pub domain: Option<String>,
    /// Only cookies whose path starts with this.
    pub path: Option<String>,
}

pub struct CookieSetParams {
    pub name: String,
    pub value: String,
    pub domain: Option<String>,
    pub path: Option<String>,
    /// A Unix timestamp in seconds.
    pub expires: Option<Json>,
    pub http_only: Option<bool>,
    pub secure: Option<bool>,
    pub same_site: Option<String>,
}

pub struct KeyOnlyParams {
    pub key: String,
}

pub struct KeyValueParams {
    pub key: String,
    pub value: String,
}

pub struct FilenameParams {
    pub filename: String,
}

pub struct OptFilenameParams {
    pub filename: Option<String>,
}

pub struct HighlightParams {
    pub element: Option<String>,
    pub target: String,
    /// More CSS for the overlay.
    pub style: Option<String>,
}

pub struct VideoSize {
    pub width: u32,
    pub height: u32,
}

pub struct VideoParams {
    pub filename: Option<String>,
    pub size: Option<VideoSize>,
}

pub struct ChapterParams {
    pub title: String,
    pub description: Option<String>,
}

pub struct ShowActionsParams {
    /// How long an annotation stays, in milliseconds.
    pub duration: Option<u64>,
    pub position: Option<String>,
    pub cursor: Option<String>,
}

pub struct MouseClickParams {
    pub x: Json,
    pub y: Json,
    pub button: Option<String>,
    pub click_count: Option<i64>,
    /// Milliseconds between mouse down and up.
    pub delay: Option<u64>,
}

pub struct MouseButtonParams {
    pub button: Option<String>,
}

pub struct MouseMoveParams {
    pub x: Json,
    pub y: Json,
}

pub struct MouseDragParams {
    pub start_x: Json,
    pub start_y: Json,
    pub end_x: Json,
    pub end_y: Json,
}

pub struct WheelParams {
    pub delta_x: Json,
    pub delta_y: Json,
}

pub struct VerifyElementParams {
    pub role: String,
    pub accessible_name: String,
}

pub struct VerifyTextParams {
    pub text: String,
}

pub struct VerifyListParams {
    pub element: String,
    pub target: String,
    pub items: Vec<String>,
}

pub struct VerifyValueParams {
    /// textbox, checkbox, radio, combobox or slider.
    pub kind: String,
    pub element: String,
    pub target: String,
    pub value: String,
}

pub struct HandoffParams {
    /// What the human should do.
    pub message: String,
    /// How long to wait for the human.
    pub timeout_seconds: Option<u64>,
}

pub struct ModeParams {
    /// "headless" or "headed".
    pub mode: String,
}

pub struct BatchStep {
    pub tool: String,
    pub arguments: Json,
}

pub struct BatchParams {
    pub steps: Vec<BatchStep>,
    /// Stop at the first step that fails (default).
    pub stop_on_error: Option<bool>,
    pub snapshot: Option<String>,
    pub timeout: Option<u64>,
}

pub struct LinksParams {
    pub scope: Option<String>,
    pub filter: Option<String>,
    pub region: Option<String>,
    pub include_hidden: Option<bool>,
    pub limit: Option<u32>,
}

pub struct TextParams {
    pub target: Option<String>,
    pub heading: Option<String>,
    /// Only the first paragraphs.
    pub lead: Option<u32>,
    pub links: Option<bool>,
    pub max_chars: Option<usize>,
}

pub struct TableParams {
    pub target: String,
    /// "tsv" (default), "md" or "json".
    pub format: Option<String>,
    pub max_rows: Option<usize>,
}

pub struct ExtractParams {
    pub selector: String,
    /// Names of fields with selectors inside the item, in the order of the names.
    pub fields: Option<Vec<(String, String)>>,
    pub limit: Option<usize>,
}

pub struct FetchParams {
    pub url: Option<String>,
    pub urls: Option<Vec<String>>,
    /// For JSON: keep only these dot paths.
    pub fields: Option<Vec<String>>,
    pub transform: Option<String>,
    pub method: Option<String>,
    pub headers: Option<Json>,
    pub body: Option<String>,
    pub max_chars: Option<usize>,
}

pub enum ScrapeTarget {
    /// Just the URL.
    Url(String),
    /// A URL with its own function and limit.
    Spec { url: String, function: Option<String>, max_chars: Option<usize> },
}

pub struct ScrapeParams {
    pub urls: Vec<ScrapeTarget>,
    pub function: Option<String>,
    pub max_chars: Option<usize>,
    pub concurrency: Option<usize>,
    pub lead: Option<u32>,
    pub page_timeout: Option<u64>,
}

pub struct ReadParams {
    pub target: String,
    /// "text" (default), "value", "checked", "html", "attr:NAME", or a property name.
    pub prop: Option<String>,
    pub all: Option<bool>,
    pub equals: Option<String>,
    pub contains: Option<String>,
}

} // verus!
