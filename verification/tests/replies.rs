use agent_control::http::{err_json, ok_json};
use agent_control::replies::{
    done_reply, download_reply, eval_reply, missing_webview_reply, page_size_expr,
    recording_failed_reply, recording_path, recording_stopped_reply, resize_reply, screenshot_path,
    screenshot_reply, ProgramOutcome, Recording,
};
use agent_control::routes::Reply;

#[test]
fn eval_replies_take_their_shape() {
    assert_eq!(eval_reply(Reply::Data, Ok("\"t\"".into())), ok_json("\"t\""));
    assert_eq!(eval_reply(Reply::Done, Ok("null".into())), ok_json("{\"ok\":true}"));
    assert_eq!(eval_reply(Reply::WaitDone, Ok("true".into())), ok_json("{\"ok\":true}"));
    assert_eq!(eval_reply(Reply::WaitDone, Ok("false".into())), ok_json("{\"ok\":false}"));
    assert_eq!(eval_reply(Reply::Data, Err("Channel closed".into())), err_json(500, "Channel closed"));
}

#[test]
fn simple_replies() {
    assert_eq!(done_reply(), ok_json("{\"ok\":true}"));
    assert_eq!(missing_webview_reply(), err_json(500, "No main webview found"));
    assert_eq!(resize_reply(Ok(())), ok_json("{\"ok\":true}"));
    assert_eq!(resize_reply(Err("denied".into())), err_json(500, "resize error: denied"));
    assert_eq!(
        page_size_expr(),
        "JSON.stringify({w:document.documentElement.scrollWidth,h:document.documentElement.scrollHeight})"
    );
}

#[test]
fn screenshot_paths_and_replies() {
    assert_eq!(screenshot_path(Some("/tmp/shot.png".into()), 5), "/tmp/shot.png");
    assert_eq!(
        screenshot_path(None, 1_700_000_000_123),
        "/tmp/agent-control-screenshot-1700000000123.png"
    );
    assert_eq!(
        screenshot_reply("/tmp/s.png", ProgramOutcome::Succeeded),
        ok_json("{\"path\":\"/tmp/s.png\"}")
    );
    assert_eq!(
        screenshot_reply("/tmp/s.png", ProgramOutcome::Failed("no display".into())),
        err_json(500, "screencapture failed: no display")
    );
    assert_eq!(
        screenshot_reply("/tmp/s.png", ProgramOutcome::NotStarted("not found".into())),
        err_json(500, "screencapture error: not found")
    );
}

#[test]
fn download_replies() {
    assert_eq!(
        download_reply("/tmp/f.zip", ProgramOutcome::Succeeded),
        ok_json("{\"ok\":true,\"path\":\"/tmp/f.zip\"}")
    );
    assert_eq!(
        download_reply("/tmp/f.zip", ProgramOutcome::Failed("404".into())),
        err_json(500, "download failed: 404")
    );
    assert_eq!(
        download_reply("/tmp/f.zip", ProgramOutcome::NotStarted("no curl".into())),
        err_json(500, "download error: no curl")
    );
}

#[test]
fn recording_start_then_stop() {
    let mut rec = Recording::new();
    assert_eq!(recording_path(42), "/tmp/agent-control-recording-42.mov");
    let r = rec.started(1234, recording_path(42));
    assert_eq!(
        r,
        ok_json("{\"ok\":true,\"pid\":1234,\"path\":\"/tmp/agent-control-recording-42.mov\"}")
    );
    assert_eq!(rec.stop(), Ok((1234, "/tmp/agent-control-recording-42.mov".to_string())));
    assert_eq!(rec.stop(), Err(err_json(400, "no recording in progress")));
    assert_eq!(
        recording_stopped_reply("/tmp/r.mov"),
        ok_json("{\"ok\":true,\"path\":\"/tmp/r.mov\"}")
    );
    assert_eq!(recording_failed_reply("busy"), err_json(500, "failed to start recording: busy"));
}

#[test]
fn second_start_replaces_first() {
    let mut rec = Recording::new();
    rec.started(1, "/a".into());
    rec.started(2, "/b".into());
    assert_eq!(rec.stop(), Ok((2, "/b".to_string())));
}
