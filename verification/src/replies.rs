//! Turning the outcome of an action into the response: evaluation replies, screenshots,
//! recordings, downloads and resizes.
use vstd::prelude::*;
use crate::http::{ok_json, err_json};
use crate::json::{json_quoted, json_string};
use crate::numbers::{decimal, decimal_text};
use crate::routes::{Reply, ok_response, error_response, ok_true};
use crate::script::concat;

verus! {

/// The body answering an evaluation's reply `data`.
pub open spec fn reply_body(reply: Reply, data: Seq<char>) -> Seq<char> {
    match reply {
        Reply::Data => data,
        Reply::Done => ok_true(),
        Reply::WaitDone => "{\"ok\":"@ + data + "}"@,
    }
}

/// The response to an evaluation: its reply shaped as `reply` says, or `500` with the
/// error message.
pub fn eval_reply(reply: Reply, result: Result<String, String>) -> (r: Vec<u8>)
    ensures
        r@ == match result {
            Ok(d) => ok_response(reply_body(reply, d@)),
            Err(e) => error_response(500, e@),
        },
{
    match result {
        Ok(d) => match reply {
            Reply::Data => ok_json(d.as_str()),
            Reply::Done => ok_json("{\"ok\":true}"),
            Reply::WaitDone => {
                let mut b = concat("{\"ok\":", d.as_str());
                b.append("}");
                ok_json(b.as_str())
            },
        },
        Err(e) => err_json(500, e.as_str()),
    }
}

/// `{"ok":true}`, for a finished wait or resize.
pub fn done_reply() -> (r: Vec<u8>)
    ensures
        r@ == ok_response(ok_true()),
{
    ok_json("{\"ok\":true}")
}

/// The answer when the main web view cannot be found.
pub fn missing_webview_reply() -> (r: Vec<u8>)
    ensures
        r@ == error_response(500, "No main webview found"@),
{
    err_json(500, "No main webview found")
}

/// The expression that measures the whole page, for a full-page screenshot.
pub fn page_size_expr() -> (r: String)
    ensures
        r@ == "JSON.stringify({w:document.documentElement.scrollWidth,h:document.documentElement.scrollHeight})"@,
{
    String::from_str(
        "JSON.stringify({w:document.documentElement.scrollWidth,h:document.documentElement.scrollHeight})",
    )
}

/// The answer to a resize of the web view; the error as text.
pub fn resize_reply(result: Result<(), String>) -> (r: Vec<u8>)
    ensures
        r@ == match result {
            Ok(_) => ok_response(ok_true()),
            Err(e) => error_response(500, "resize error: "@ + e@),
        },
{
    match result {
        Ok(_) => ok_json("{\"ok\":true}"),
        Err(e) => {
            let m = concat("resize error: ", e.as_str());
            err_json(500, m.as_str())
        },
    }
}

/// How an outside program ran.
pub enum ProgramOutcome {
    /// It ran and exited successfully.
    Succeeded,
    /// It ran and failed; what it wrote to its error stream.
    Failed(String),
    /// It could not be run; the error as text.
    NotStarted(String),
}

/// Where a screenshot goes: the path asked for, else a file in `/tmp` named by the time in
/// milliseconds since the Unix epoch.
pub open spec fn screenshot_file(path: Option<Seq<char>>, now_ms: nat) -> Seq<char> {
    match path {
        Some(p) => p,
        None => "/tmp/agent-control-screenshot-"@ + decimal(now_ms) + ".png"@,
    }
}

pub fn screenshot_path(path: Option<String>, now_ms: u128) -> (r: String)
    ensures
        r@ == screenshot_file(crate::routes::opt_view(path), now_ms as nat),
{
    match path {
        Some(p) => p,
        None => {
            let t = decimal_text(now_ms);
            let mut s = concat("/tmp/agent-control-screenshot-", t.as_str());
            s.append(".png");
            s
        },
    }
}

/// `{"path":<path>}` once `screencapture` succeeded, else `500` with its error.
pub fn screenshot_reply(path: &str, outcome: ProgramOutcome) -> (r: Vec<u8>)
    ensures
        r@ == match outcome {
            ProgramOutcome::Succeeded => ok_response("{\"path\":"@ + json_quoted(path@) + "}"@),
            ProgramOutcome::Failed(e) => error_response(500, "screencapture failed: "@ + e@),
            ProgramOutcome::NotStarted(e) => error_response(500, "screencapture error: "@ + e@),
        },
{
    match outcome {
        ProgramOutcome::Succeeded => {
            let q = json_string(path);
            let mut b = concat("{\"path\":", q.as_str());
            b.append("}");
            ok_json(b.as_str())
        },
        ProgramOutcome::Failed(e) => {
            let m = concat("screencapture failed: ", e.as_str());
            err_json(500, m.as_str())
        },
        ProgramOutcome::NotStarted(e) => {
            let m = concat("screencapture error: ", e.as_str());
            err_json(500, m.as_str())
        },
    }
}

/// `{"ok":true,"path":<path>}` once the download succeeded, else `500` with its error.
pub fn download_reply(path: &str, outcome: ProgramOutcome) -> (r: Vec<u8>)
    ensures
        r@ == match outcome {
            ProgramOutcome::Succeeded => ok_response("{\"ok\":true,\"path\":"@ + json_quoted(path@) + "}"@),
            ProgramOutcome::Failed(e) => error_response(500, "download failed: "@ + e@),
            ProgramOutcome::NotStarted(e) => error_response(500, "download error: "@ + e@),
        },
{
    match outcome {
        ProgramOutcome::Succeeded => {
            let q = json_string(path);
            let mut b = concat("{\"ok\":true,\"path\":", q.as_str());
            b.append("}");
            ok_json(b.as_str())
        },
        ProgramOutcome::Failed(e) => {
            let m = concat("download failed: ", e.as_str());
            err_json(500, m.as_str())
        },
        ProgramOutcome::NotStarted(e) => {
            let m = concat("download error: ", e.as_str());
            err_json(500, m.as_str())
        },
    }
}

/// Where a recording goes: a file in `/tmp` named by the time in milliseconds since the
/// Unix epoch.
pub open spec fn recording_file(now_ms: nat) -> Seq<char> {
    "/tmp/agent-control-recording-"@ + decimal(now_ms) + ".mov"@
}

pub fn recording_path(now_ms: u128) -> (r: String)
    ensures
        r@ == recording_file(now_ms as nat),
{
    let t = decimal_text(now_ms);
    let mut s = concat("/tmp/agent-control-recording-", t.as_str());
    s.append(".mov");
    s
}

/// The screen recording in progress, if any: the recorder's process id and its file.
pub struct Recording {
    current: Option<(u32, String)>,
}

impl View for Recording {
    type V = Option<(u32, Seq<char>)>;

    closed spec fn view(&self) -> Option<(u32, Seq<char>)> {
        match self.current {
            Some((pid, path)) => Some((pid, path@)),
            None => None,
        }
    }
}

impl Recording {
    /// No recording in progress.
    pub fn new() -> (r: Self)
        ensures
            r@ is None,
    {
        Recording { current: None }
    }

    /// Notes that the recorder `pid` started writing to `path` (forgetting any earlier
    /// recording), and answers `{"ok":true,"pid":<pid>,"path":<path>}`.
    pub fn started(&mut self, pid: u32, path: String) -> (r: Vec<u8>)
        ensures
            final(self)@ == Some((pid, path@)),
            r@ == ok_response(
                "{\"ok\":true,\"pid\":"@ + decimal(pid as nat) + ",\"path\":"@ + json_quoted(path@) + "}"@,
            ),
    {
        let q = json_string(path.as_str());
        let n = decimal_text(pid as u128);
        let mut b = concat("{\"ok\":true,\"pid\":", n.as_str());
        b.append(",\"path\":");
        b.append(q.as_str());
        b.append("}");
        self.current = Some((pid, path));
        ok_json(b.as_str())
    }

    /// Ends the recording in progress: hands out its process id and file, and leaves no
    /// recording; without one, the answer is `400` `no recording in progress`.
    pub fn stop(&mut self) -> (r: Result<(u32, String), Vec<u8>>)
        ensures
            (final(self)@, stopped(r)) == stop_outcome(old(self)@),
            match r {
                Ok((pid, path)) => old(self)@ == Some((pid, path@)),
                Err(resp) => old(self)@ is None && resp@ == error_response(
                    400,
                    "no recording in progress"@,
                ),
            },
    {
        match self.current.take() {
            Some(entry) => Ok(entry),
            None => Err(err_json(400, "no recording in progress")),
        }
    }
}

/// The recording a stop handed out, as values.
pub open spec fn stopped(r: Result<(u32, String), Vec<u8>>) -> Option<(u32, Seq<char>)> {
    match r {
        Ok((pid, path)) => Some((pid, path@)),
        Err(_) => None,
    }
}

/// A stop ends any recording and hands out the one that was in progress.
pub open spec fn stop_outcome(state: Option<(u32, Seq<char>)>) -> (
    Option<(u32, Seq<char>)>,
    Option<(u32, Seq<char>)>,
) {
    (None, state)
}

/// Stopping after a start hands back the recorder and file of that start; a second stop
/// finds no recording.
pub proof fn lemma_stop_after_start(pid: u32, path: Seq<char>)
    ensures
        stop_outcome(Some((pid, path))) == (None::<(u32, Seq<char>)>, Some((pid, path))),
        stop_outcome(stop_outcome(Some((pid, path))).0).1 is None,
{
}

/// The answer when the recorder could not be started; the error as text.
pub fn recording_failed_reply(error: &str) -> (r: Vec<u8>)
    ensures
        r@ == error_response(500, "failed to start recording: "@ + error@),
{
    let m = concat("failed to start recording: ", error);
    err_json(500, m.as_str())
}

/// `{"ok":true,"path":<path>}` once the recording is stopped.
pub fn recording_stopped_reply(path: &str) -> (r: Vec<u8>)
    ensures
        r@ == ok_response("{\"ok\":true,\"path\":"@ + json_quoted(path@) + "}"@),
{
    let q = json_string(path);
    let mut b = concat("{\"ok\":true,\"path\":", q.as_str());
    b.append("}");
    ok_json(b.as_str())
}

} // verus!
