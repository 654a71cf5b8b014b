//! Files that tools write: where they go, screenshots, PDFs, traces and videos.

use crate::cdp;
use crate::cdp::Command;
use crate::config::Config;
use crate::config::ConfigV;
use crate::encoding;
use crate::json;
use crate::json::Json;
use crate::json::JsonV;
use crate::path;
use crate::state;
use crate::state::State;
use crate::state::StateV;
use crate::state::Video;
use crate::state::VideoV;
use crate::text;
use crate::text::Text;
use vstd::prelude::*;

verus! {

// ---------------------------------------------------------------------- where files go

/// Where a file goes: an absolute name stands for itself, others are under the output directory, and
/// without a name the file is called by its kind and the time.
pub open spec fn output_file(cfg: ConfigV, filename: Option<Text>, stem: Text, ext: Text, millis: nat) -> Text {
    match filename {
        Some(f) => path::joined_path(cfg.output_dir, f),
        None => path::joined_path(cfg.output_dir, stem + "-"@ + text::dec(millis) + "."@ + ext),
    }
}

/// Where a file goes; `millis` is the time in milliseconds.
pub fn output_path(cfg: &Config, filename: &Option<String>, stem: &str, ext: &str, millis: u128) -> (r: String)
    ensures
        r@ == output_file(cfg@, text::opt_text(*filename), stem@, ext@, millis as nat),
{
    match filename {
        Some(f) => path::join(&cfg.output_dir, f),
        None => {
            let mut n = stem.to_string();
            n.append("-");
            n.append(&text::decimal(millis));
            n.append(".");
            n.append(ext);
            path::join(&cfg.output_dir, &n)
        },
    }
}

/// An absolute name is where the file goes.
pub proof fn law_absolute_names_stand(cfg: ConfigV, f: Text, stem: Text, ext: Text, millis: nat)
    requires
        path::is_absolute_path(f),
    ensures
        output_file(cfg, Some(f), stem, ext, millis) == f,
{
}

// ---------------------------------------------------------------------- screenshots

/// The format of a picture, by the name it is asked for with; it is the file's extension too.
pub open spec fn image_format(kind: Text) -> Text {
    if kind == "jpeg"@ || kind == "jpg"@ {
        "jpeg"@
    } else if kind == "webp"@ {
        "webp"@
    } else {
        "png"@
    }
}

/// The kind of content of a picture.
pub open spec fn image_mime(kind: Text) -> Text {
    if kind == "jpeg"@ || kind == "jpg"@ {
        "image/jpeg"@
    } else if kind == "webp"@ {
        "image/webp"@
    } else {
        "image/png"@
    }
}

pub fn format_of(kind: &str) -> (r: (&'static str, &'static str))
    ensures
        r.0@ == image_format(kind@),
        r.1@ == image_mime(kind@),
{
    if text::same(kind, "jpeg") || text::same(kind, "jpg") {
        ("jpeg", "image/jpeg")
    } else if text::same(kind, "webp") {
        ("webp", "image/webp")
    } else {
        ("png", "image/png")
    }
}

/// A number above zero.
pub open spec fn positive(j: JsonV) -> bool {
    match j {
        JsonV::Int(i) => i > 0,
        JsonV::Float(s) => s.len() > 0 && s[0] != '-' && json::nonzero_digits(s),
        _ => false,
    }
}

fn is_positive(j: &Json) -> (r: bool)
    ensures
        r == positive(j@),
{
    match j {
        Json::Int(i) => *i > 0,
        Json::Float(s) => {
            let v = text::chars_of(s);
            if v.len() == 0 || v[0] == '-' {
                return false;
            }
            proof {
                assert(v@.skip(0) =~= v@);
            }
            json::has_nonzero(&v, 0)
        },
        _ => false,
    }
}

/// The command that asks how the page is laid out.
pub fn layout_question(session: &str) -> (r: Command)
    ensures
        r@ == cdp::to_session(session@, "Page.getLayoutMetrics"@, JsonV::obj()),
{
    Command::session(session, "Page.getLayoutMetrics", Json::obj())
}

/// A part of the page to capture.
pub open spec fn clip(x: JsonV, y: JsonV, w: JsonV, h: JsonV, scale: JsonV) -> JsonV {
    JsonV::obj().with("x"@, x).with("y"@, y).with("width"@, w).with("height"@, h).with("scale"@, scale)
}

fn make_clip(x: &Json, y: &Json, w: &Json, h: &Json, scale: &Json) -> (r: Json)
    ensures
        r@ == clip(x@, y@, w@, h@, scale@),
{
    Json::obj().with("x", x.clone()).with("y", y.clone()).with("width", w.clone()).with("height", h.clone()).with(
        "scale",
        scale.clone(),
    )
}

/// The part of the page that a screenshot shows: an element's box, the whole page, or what is in
/// view.
pub open spec fn clip_of(target: Option<JsonV>, full_page: bool, layout: JsonV, scale: JsonV) -> Result<JsonV, Text> {
    match target {
        Some(b) => if !positive(b.at("w"@)) {
            Err("element has no size; it cannot be captured"@)
        } else {
            Ok(clip(b.at("x"@), b.at("y"@), b.at("w"@), b.at("h"@), scale))
        },
        None => if full_page {
            let size = layout.at("cssContentSize"@);
            Ok(clip(JsonV::Int(0), JsonV::Int(0), size.at("width"@), size.at("height"@), scale))
        } else {
            let v = layout.at("cssVisualViewport"@);
            Ok(clip(v.at("pageX"@), v.at("pageY"@), v.at("clientWidth"@), v.at("clientHeight"@), scale))
        },
    }
}

/// The view inside an option.
pub open spec fn opt_json(o: Option<Json>) -> Option<JsonV> {
    match o {
        Some(j) => Some(j@),
        None => None,
    }
}

/// The parameters of a screenshot. `target` is the box of an element, where one is captured, `layout`
/// the reply to the question for the page's measures.
pub fn screenshot(kind: &str, full_page: bool, target: &Option<Json>, layout: &Json, scale: &Json) -> (r: Result<
    Json,
    String,
>)
    ensures
        match clip_of(opt_json(*target), full_page, layout@, scale@) {
            Err(m) => r matches Err(e) && e@ == m,
            Ok(c) => {
                let base = JsonV::obj().with("format"@, JsonV::Str(image_format(kind@))).with("clip"@, c).with(
                    "captureBeyondViewport"@,
                    JsonV::Bool(full_page || target is Some),
                ).with("optimizeForSpeed"@, JsonV::Bool(true));
                r matches Ok(p) && p@ == if image_format(kind@) != "png"@ {
                    base.with("quality"@, JsonV::Int(80))
                } else {
                    base
                }
            },
        },
{
    let area = match target {
        Some(b) => {
            if !is_positive(b.at("w")) {
                return Err("element has no size; it cannot be captured".to_string());
            }
            make_clip(b.at("x"), b.at("y"), b.at("w"), b.at("h"), scale)
        },
        None => {
            if full_page {
                let size = layout.at("cssContentSize");
                make_clip(&Json::num(0), &Json::num(0), size.at("width"), size.at("height"), scale)
            } else {
                let v = layout.at("cssVisualViewport");
                make_clip(v.at("pageX"), v.at("pageY"), v.at("clientWidth"), v.at("clientHeight"), scale)
            }
        },
    };
    let (format, _) = format_of(kind);
    let mut p = Json::obj().with("format", Json::str(format)).with("clip", area).with(
        "captureBeyondViewport",
        Json::Bool(full_page || target.is_some()),
    ).with("optimizeForSpeed", Json::Bool(true));
    if !text::same(format, "png") {
        p = p.with("quality", Json::num(80));
    }
    Ok(p)
}

/// The bytes that the browser sends in base64, of a screenshot or a PDF.
pub fn received(res: &Json) -> (r: Result<Vec<u8>, String>)
    ensures
        match (encoding::base64_bytes(res@.at("data"@).text()), r) {
            (Some(b), Ok(v)) => v@ == b,
            (None, Err(e)) => e@ == encoding::base64_error(res@.at("data"@).text()),
            _ => false,
        },
{
    encoding::decode_checked(&res.at("data").text())
}

// ---------------------------------------------------------------------- traces

/// A part of a trace.
pub struct Chunk {
    pub data: Vec<u8>,
    /// It is the last one.
    pub last: bool,
}

/// The bytes of a part of a stream.
pub open spec fn chunk_bytes(chunk: JsonV) -> Option<Seq<u8>> {
    let data = chunk.at("data"@).text();
    if chunk.at("base64Encoded"@) == JsonV::Bool(true) {
        encoding::base64_bytes(data)
    } else {
        Some(vstd::utf8::encode_utf8(data))
    }
}

fn is_true(j: &Json) -> (r: bool)
    ensures
        r == (j@ == JsonV::Bool(true)),
{
    match j.as_bool() {
        Some(b) => b,
        None => false,
    }
}

/// Reads a part of a trace; what is wrong with its base64 where that cannot be read.
pub fn trace_chunk(chunk: &Json) -> (r: Result<Chunk, String>)
    ensures
        match (chunk_bytes(chunk@), r) {
            (Some(b), Ok(c)) => c.data@ == b && c.last == (chunk@.at("eof"@) == JsonV::Bool(true)),
            (None, Err(e)) => e@ == encoding::base64_error(chunk@.at("data"@).text()),
            _ => false,
        },
{
    let s = chunk.at("data").text();
    let last = is_true(chunk.at("eof"));
    if is_true(chunk.at("base64Encoded")) {
        match encoding::decode_checked(&s) {
            Ok(data) => Ok(Chunk { data, last }),
            Err(e) => Err(e),
        }
    } else {
        Ok(Chunk { data: text::copy_bytes(s.as_str().as_bytes()), last })
    }
}

/// What a trace records.
pub open spec fn trace_categories() -> Seq<Text> {
    seq![
        "devtools.timeline"@,
        "disabled-by-default-devtools.timeline"@,
        "disabled-by-default-devtools.timeline.frame"@,
        "disabled-by-default-devtools.screenshot"@,
        "blink.user_timing"@,
        "loading"@,
        "latencyInfo"@,
        "v8.execute"@,
        "disabled-by-default-v8.cpu_profiler"@,
    ]
}

/// The command that starts a trace.
pub fn start_tracing() -> (r: Command)
    ensures
        r@ == cdp::to_browser(
            "Tracing.start"@,
            JsonV::obj().with("transferMode"@, JsonV::Str("ReturnAsStream"@)).with(
                "traceConfig"@,
                JsonV::obj().with("includedCategories"@, crate::json::str_list(trace_categories())),
            ),
        ),
{
    let mut c: Vec<String> = Vec::new();
    c.push("devtools.timeline".to_string());
    c.push("disabled-by-default-devtools.timeline".to_string());
    c.push("disabled-by-default-devtools.timeline.frame".to_string());
    c.push("disabled-by-default-devtools.screenshot".to_string());
    c.push("blink.user_timing".to_string());
    c.push("loading".to_string());
    c.push("latencyInfo".to_string());
    c.push("v8.execute".to_string());
    c.push("disabled-by-default-v8.cpu_profiler".to_string());
    proof {
        assert(text::views(c@) =~= trace_categories());
    }
    Command::browser(
        "Tracing.start",
        Json::obj().with("transferMode", Json::str("ReturnAsStream")).with(
            "traceConfig",
            Json::obj().with("includedCategories", Json::strs(&c)),
        ),
    )
}

// ---------------------------------------------------------------------- video

/// Nothing is recorded of a video yet.
pub open spec fn new_video(filename: Text, session: Text) -> VideoV {
    VideoV {
        dir: path::with_ext(filename, "frames"@),
        filename,
        session,
        frames: Seq::empty(),
        chapters: Seq::empty(),
    }
}

impl State {
    /// Whether a video is recording already.
    pub fn video_busy(&self) -> (r: Option<String>)
        ensures
            text::opt_text(r) == if self@.video is Some {
                Some("a video is already recording; stop it first"@)
            } else {
                None
            },
    {
        if self.video.is_some() {
            Some("a video is already recording; stop it first".to_string())
        } else {
            None
        }
    }

    /// A video of a session's tab begins, unless one is recording already; its pictures go to a
    /// directory beside its file.
    pub fn start_video(&mut self, session: &str, filename: &str, size: Option<(u32, u32)>) -> (r: Result<
        Command,
        String,
    >)
        requires
            old(self).wf(),
        ensures
            final(self).wf(),
            if old(self)@.video is Some {
                &&& final(self)@ == old(self)@
                &&& r matches Err(e) && e@ == "a video is already recording; stop it first"@
            } else {
                let (w, h) = match size {
                    Some(s) => s,
                    None => (crate::launch::DEFAULT_WIDTH, crate::launch::DEFAULT_HEIGHT),
                };
                &&& final(self)@ == (StateV { video: Some(new_video(filename@, session@)), ..old(self)@ })
                &&& r matches Ok(c) && c@ == cdp::to_session(
                    session@,
                    "Page.startScreencast"@,
                    JsonV::obj().with("format"@, JsonV::Str("jpeg"@)).with("quality"@, JsonV::Int(80)).with(
                        "maxWidth"@,
                        JsonV::Int(w as int),
                    ).with("maxHeight"@, JsonV::Int(h as int)).with("everyNthFrame"@, JsonV::Int(1)),
                )
            },
    {
        match self.video_busy() {
            Some(e) => {
                return Err(e);
            },
            None => {},
        }
        let frames: Vec<(u64, String)> = Vec::new();
        let chapters: Vec<(u64, String)> = Vec::new();
        proof {
            reveal_strlit("frames");
            assert(state::timed(frames@) =~= Seq::empty());
            assert(state::timed(chapters@) =~= Seq::empty());
        }
        self.video = Some(
            Video {
                dir: path::with_extension(filename, "frames"),
                filename: filename.to_string(),
                session: session.to_string(),
                frames,
                chapters,
            },
        );
        let (w, h): (u32, u32) = match size {
            Some(s) => s,
            None => (crate::launch::DEFAULT_WIDTH, crate::launch::DEFAULT_HEIGHT),
        };
        Ok(
            Command::session(
                session,
                "Page.startScreencast",
                Json::obj().with("format", Json::str("jpeg")).with("quality", Json::num(80)).with(
                    "maxWidth",
                    Json::num(w as i64),
                ).with("maxHeight", Json::num(h as i64)).with("everyNthFrame", Json::num(1)),
            ),
        )
    }

    /// Marks a chapter of the running video, `at` nanoseconds after it started.
    pub fn video_chapter(&mut self, at: u64, title: &str, description: &Option<String>) -> (r: Result<(), String>)
        requires
            old(self).wf(),
        ensures
            final(self).wf(),
            match old(self)@.video {
                None => r matches Err(e) && e@ == "no video is recording"@ && final(self)@ == old(self)@,
                Some(v) => r is Ok && final(self)@ == (StateV {
                    video: Some(
                        VideoV {
                            chapters: v.chapters.push(
                                (
                                    at as nat,
                                    match text::opt_text(*description) {
                                        Some(d) => title@ + " — "@ + d,
                                        None => title@,
                                    },
                                ),
                            ),
                            ..v
                        },
                    ),
                    ..old(self)@
                }),
            },
    {
        let mut s = title.to_string();
        match description {
            Some(d) => {
                s.append(" — ");
                s.append(d);
            },
            None => {},
        }
        match &mut self.video {
            None => Err("no video is recording".to_string()),
            Some(v) => {
                let ghost before = v.chapters@;
                v.chapters.push((at, s));
                proof {
                    assert(state::timed(v.chapters@) =~= state::timed(before).push((at as nat, s@)));
                }
                Ok(())
            },
        }
    }

    /// Takes the running video away to be encoded.
    pub fn stop_video(&mut self) -> (r: Result<Video, String>)
        requires
            old(self).wf(),
        ensures
            final(self).wf(),
            final(self)@ == (StateV { video: None, ..old(self)@ }),
            match (old(self)@.video, r) {
                (Some(v), Ok(x)) => x@ == v,
                (None, Err(e)) => e@ == "no video is recording"@,
                _ => false,
            },
    {
        match self.video.take() {
            Some(v) => Ok(v),
            None => Err("no video is recording".to_string()),
        }
    }
}

/// Why a video without pictures is refused.
pub fn no_frames(v: &Video) -> (r: Option<String>)
    ensures
        text::opt_text(r) == if v@.frames.len() == 0 {
            Some("no frames were captured (the page did not repaint)"@)
        } else {
            None
        },
{
    if v.frames.len() == 0 {
        Some("no frames were captured (the page did not repaint)".to_string())
    } else {
        None
    }
}

/// What is said when a video could not be encoded: its pictures are kept.
pub fn video_kept(v: &Video) -> (r: String)
    ensures
        r@ == "ffmpeg is not available, so the "@ + text::dec(v@.frames.len()) + " frames were kept as JPEGs in "@
            + v@.dir + " (frames.txt is an ffmpeg concat list)"@,
{
    let mut s = "ffmpeg is not available, so the ".to_string();
    s.append(&text::decimal(v.frames.len() as u128));
    s.append(" frames were kept as JPEGs in ");
    s.append(&v.dir);
    s.append(" (frames.txt is an ffmpeg concat list)");
    s
}

/// What is said when a video was encoded; `seconds` is its length as it is written.
pub fn video_saved(v: &Video, seconds: &str) -> (r: String)
    ensures
        r@ == "Video saved to "@ + v@.filename + " ("@ + text::dec(v@.frames.len()) + " frames, "@ + seconds@ + "s)"@,
{
    let mut s = "Video saved to ".to_string();
    s.append(&v.filename);
    s.append(" (");
    s.append(&text::decimal(v.frames.len() as u128));
    s.append(" frames, ");
    s.append(seconds);
    s.append("s)");
    s
}

/// The list of a video's pictures for the encoder: each with how long it is shown, and the last one
/// again. `durations` are written in seconds.
pub open spec fn concat_lines(frames: Seq<(nat, Text)>, durations: Seq<Text>) -> Text
    decreases frames.len(),
{
    if frames.len() == 0 {
        Seq::empty()
    } else {
        concat_lines(frames.drop_last(), durations.drop_last()) + "file '"@ + frames.last().1 + "'\nduration "@
            + durations.last() + "\n"@
    }
}

/// The list of a video's pictures for the encoder.
pub fn concat_list(v: &Video, durations: &Vec<String>) -> (r: String)
    requires
        durations@.len() == v.frames@.len(),
        v.frames@.len() > 0,
    ensures
        r@ == concat_lines(v@.frames, text::views(durations@)) + "file '"@ + v@.frames.last().1 + "'\n"@,
{
    let ghost all = v@.frames;
    let ghost times = text::views(durations@);
    let mut out = String::new();
    let mut i: usize = 0;
    proof {
        assert(all.take(0) =~= Seq::empty());
        assert(out@ =~= concat_lines(all.take(0), times.take(0)));
    }
    while i < v.frames.len()
        invariant
            i <= v.frames@.len(),
            durations@.len() == v.frames@.len(),
            all == state::timed(v.frames@),
            times == text::views(durations@),
            out@ == concat_lines(all.take(i as int), times.take(i as int)),
        decreases v.frames@.len() - i,
    {
        proof {
            assert(all.take(i + 1).drop_last() =~= all.take(i as int));
            assert(times.take(i + 1).drop_last() =~= times.take(i as int));
            assert(all.take(i + 1).last().1 == v.frames@[i as int].1@);
            assert(times.take(i + 1).last() == durations@[i as int]@);
        }
        out.append("file '");
        out.append(&v.frames[i].1);
        out.append("'\nduration ");
        out.append(&durations[i]);
        out.append("\n");
        i = i + 1;
    }
    proof {
        assert(all.take(all.len() as int) =~= all);
        assert(times.take(times.len() as int) =~= times);
        assert(all.last().1 == v.frames@[v.frames@.len() - 1].1@);
    }
    out.append("file '");
    out.append(&v.frames[v.frames.len() - 1].1);
    out.append("'\n");
    out
}

// ---------------------------------------------------------------------- commands for captures

/// The command that prints a page.
pub fn pdf(session: &str) -> (r: Command)
    ensures
        r@ == cdp::to_session(
            session@,
            "Page.printToPDF"@,
            JsonV::obj().with("printBackground"@, JsonV::Bool(true)).with("preferCSSPageSize"@, JsonV::Bool(true)),
        ),
{
    Command::session(
        session,
        "Page.printToPDF",
        Json::obj().with("printBackground", Json::Bool(true)).with("preferCSSPageSize", Json::Bool(true)),
    )
}

/// The stream that holds a trace that is complete.
pub fn stop_tracing(params: &Json) -> (r: Result<String, String>)
    ensures
        match (params@.at("stream"@).as_text(), r) {
            (Some(t), Ok(s)) => s@ == t,
            (None, Err(e)) => e@ == "no trace stream"@,
            _ => false,
        },
{
    match params.at("stream").as_text() {
        Some(t) => Ok(t),
        None => Err("no trace stream".to_string()),
    }
}

/// The command that reads the next part of a stream: at most a mebibyte.
pub fn read_stream(stream: &str) -> (r: Command)
    ensures
        r@ == cdp::to_browser(
            "IO.read"@,
            JsonV::obj().with("handle"@, JsonV::Str(stream@)).with("size"@, JsonV::Int(1048576)),
        ),
{
    Command::browser("IO.read", Json::obj().with("handle", Json::str(stream)).with("size", Json::num(1048576)))
}

/// The command that closes a stream.
pub fn close_stream(stream: &str) -> (r: Command)
    ensures
        r@ == cdp::to_browser("IO.close"@, JsonV::obj().with("handle"@, JsonV::Str(stream@))),
{
    Command::browser("IO.close", Json::obj().with("handle", Json::str(stream)))
}

// ---------------------------------------------------------------------- what is captured

/// A file without a name is called by its kind and the time, in the output directory.
pub proof fn law_files_are_named(cfg: ConfigV, f: Text, stem: Text, ext: Text, millis: nat)
    ensures
        output_file(cfg, None, stem, ext, millis) == path::joined_path(
            cfg.output_dir,
            stem + "-"@ + text::dec(millis) + "."@ + ext,
        ),
        output_file(cfg, Some(f), stem, ext, millis) == path::joined_path(cfg.output_dir, f),
{
}

/// The formats of pictures: JPEG under either of its names, WebP, and PNG for anything else.
pub proof fn law_picture_formats(kind: Text)
    ensures
        kind == "jpeg"@ || kind == "jpg"@ ==> image_format(kind) == "jpeg"@ && image_mime(kind) == "image/jpeg"@,
        kind == "webp"@ ==> image_format(kind) == "webp"@ && image_mime(kind) == "image/webp"@,
        kind != "jpeg"@ && kind != "jpg"@ && kind != "webp"@ ==> image_format(kind) == "png"@ && image_mime(kind)
            == "image/png"@,
{
    reveal_strlit("jpeg");
    reveal_strlit("jpg");
    reveal_strlit("webp");
    assert("jpg"@.len() == 3);
    assert("jpeg"@.len() == 4 && "jpeg"@[0] == 'j');
    assert("webp"@.len() == 4 && "webp"@[0] == 'w');
}

/// A screenshot shows the box of its element, which must have a size; without an element the whole page where
/// that is asked for, and else what is in view.
pub proof fn law_screenshots_show(b: JsonV, full_page: bool, layout: JsonV, scale: JsonV)
    ensures
        positive(b.at("w"@)) ==> clip_of(Some(b), full_page, layout, scale) == Ok::<JsonV, Text>(
            JsonV::obj().with("x"@, b.at("x"@)).with("y"@, b.at("y"@)).with("width"@, b.at("w"@)).with(
                "height"@,
                b.at("h"@),
            ).with("scale"@, scale),
        ),
        !positive(b.at("w"@)) ==> clip_of(Some(b), full_page, layout, scale) == Err::<JsonV, Text>(
            "element has no size; it cannot be captured"@,
        ),
        clip_of(None, true, layout, scale) == Ok::<JsonV, Text>(
            JsonV::obj().with("x"@, JsonV::Int(0)).with("y"@, JsonV::Int(0)).with(
                "width"@,
                layout.at("cssContentSize"@).at("width"@),
            ).with("height"@, layout.at("cssContentSize"@).at("height"@)).with("scale"@, scale),
        ),
        clip_of(None, false, layout, scale) == Ok::<JsonV, Text>(
            JsonV::obj().with("x"@, layout.at("cssVisualViewport"@).at("pageX"@)).with(
                "y"@,
                layout.at("cssVisualViewport"@).at("pageY"@),
            ).with("width"@, layout.at("cssVisualViewport"@).at("clientWidth"@)).with(
                "height"@,
                layout.at("cssVisualViewport"@).at("clientHeight"@),
            ).with("scale"@, scale),
        ),
{
}

/// A number lies above zero where no minus sign stands in front and it is not zero.
pub proof fn law_positive_numbers(i: int, s: Text)
    ensures
        positive(JsonV::Int(i)) <==> i > 0,
        s.len() > 0 && s[0] != '-' ==> (positive(JsonV::Float(s)) <==> exists|i: int|
            0 <= i < s.len() && '1' <= #[trigger] s[i] <= '9' && forall|k: int|
                0 <= k < i ==> #[trigger] s[k] != 'e' && s[k] != 'E'),
        s.len() > 0 && s[0] == '-' ==> !positive(JsonV::Float(s)),
        !positive(JsonV::Null) && !positive(JsonV::Str(s)),
{
    json::law_nonzero_digits(s);
}

/// The bytes of a part of a stream: those that its base64 holds where it is base64, and else those of its
/// text.
pub proof fn law_stream_parts(chunk: JsonV, b: Seq<u8>)
    ensures
        chunk.at("base64Encoded"@) == JsonV::Bool(true) && chunk.at("data"@).text() == encoding::base64_text(b)
            ==> chunk_bytes(chunk) == Some(b),
        chunk.at("base64Encoded"@) != JsonV::Bool(true) ==> chunk_bytes(chunk) == Some(
            vstd::utf8::encode_utf8(chunk.at("data"@).text()),
        ),
{
    if chunk.at("data"@).text() == encoding::base64_text(b) {
        let got = encoding::base64_bytes(chunk.at("data"@).text());
        assert(got is Some);
        encoding::law_base64_round_trip(got->0, b);
    }
}

/// A trace records what the page paints, loads and runs.
pub proof fn law_traces_record()
    ensures
        trace_categories().len() == 9,
        trace_categories()[0] == "devtools.timeline"@,
        trace_categories()[1] == "disabled-by-default-devtools.timeline"@,
        trace_categories()[2] == "disabled-by-default-devtools.timeline.frame"@,
        trace_categories()[3] == "disabled-by-default-devtools.screenshot"@,
        trace_categories()[4] == "blink.user_timing"@,
        trace_categories()[5] == "loading"@,
        trace_categories()[6] == "latencyInfo"@,
        trace_categories()[7] == "v8.execute"@,
        trace_categories()[8] == "disabled-by-default-v8.cpu_profiler"@,
{
}

/// A video is of one tab, begins without pictures and chapters, and keeps its pictures beside its file.
pub proof fn law_videos_begin_empty(filename: Text, session: Text)
    ensures
        ({
            let v = new_video(filename, session);
            &&& v.frames.len() == 0 && v.chapters.len() == 0
            &&& v.filename == filename && v.session == session
            &&& v.dir == path::with_ext(filename, "frames"@)
        }),
{
}

/// Every picture of a video is listed for the encoder, in order, with how long it is shown.
pub proof fn law_pictures_are_listed(frames: Seq<(nat, Text)>, durations: Seq<Text>, frame: (nat, Text), d: Text)
    ensures
        concat_lines(Seq::empty(), Seq::empty()) == Seq::<char>::empty(),
        concat_lines(frames.push(frame), durations.push(d)) == concat_lines(frames, durations) + "file '"@ + frame.1
            + "'\nduration "@ + d + "\n"@,
{
    assert(frames.push(frame).drop_last() =~= frames);
    assert(durations.push(d).drop_last() =~= durations);
}

} // verus!
