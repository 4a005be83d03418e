use agent_control::http::{err_json, ok_json, HttpRequest};
use agent_control::routes::{
    bad_body, fits, handle_get_route, handle_is_route, handle_storage_get, plan_command, route,
    Action, Command, Endpoint, Reply,
};

fn req(method: &str, path: &str, query: &[(&str, &str)]) -> HttpRequest {
    HttpRequest {
        method: method.to_string(),
        path: path.to_string(),
        query: query.iter().map(|(k, v)| (k.to_string(), v.to_string())).collect(),
        body: String::new(),
    }
}

fn q(s: &str) -> String {
    serde_json::to_string(s).unwrap()
}

fn eval(expr: &str, timeout_ms: u64, reply: Reply) -> Action {
    Action::Eval { expr: expr.to_string(), timeout_ms, reply }
}

fn chars(s: &str) -> Vec<char> {
    s.chars().collect()
}

#[test]
fn preflight_is_answered_for_any_path() {
    assert_eq!(route(&req("OPTIONS", "/anything", &[])), Action::Respond(ok_json("{}")));
    assert_eq!(route(&req("OPTIONS", "/health", &[])), Action::Respond(ok_json("{}")));
}

#[test]
fn health_answers_ok() {
    assert_eq!(route(&req("GET", "/health", &[])), Action::Respond(ok_json("{\"ok\":true}")));
    assert_eq!(route(&req("POST", "/health", &[])), Action::Respond(err_json(404, "not found")));
}

#[test]
fn unknown_routes_and_methods_are_not_found() {
    assert_eq!(route(&req("GET", "/nope", &[])), Action::Respond(err_json(404, "not found")));
    assert_eq!(route(&req("PUT", "/click", &[])), Action::Respond(err_json(404, "not found")));
    assert_eq!(route(&req("DELETE", "/health", &[])), Action::Respond(err_json(404, "not found")));
}

#[test]
fn snapshot_defaults_to_json_format() {
    assert_eq!(
        route(&req("GET", "/snapshot", &[])),
        eval("window.__DEVTOOLS__.snapshot({format:'json'})", 5000, Reply::Data)
    );
}

#[test]
fn snapshot_collects_query_options() {
    let r = route(&req(
        "GET",
        "/snapshot",
        &[("format", "compact"), ("scope", "#main \"x\""), ("depth", "+3"), ("interactive", "no")],
    ));
    let expected = format!(
        "window.__DEVTOOLS__.snapshot({{format:'compact',scope:{},depth:3,interactive:true}})",
        q("#main \"x\"")
    );
    assert_eq!(r, eval(&expected, 5000, Reply::Data));
    let r = route(&req("GET", "/snapshot", &[("depth", "x"), ("interactive", "false"), ("format", "a"), ("format", "b")]));
    assert_eq!(
        r,
        eval("window.__DEVTOOLS__.snapshot({format:'b',interactive:false})", 5000, Reply::Data)
    );
    let r = route(&req("GET", "/snapshot", &[("depth", "4294967296")]));
    assert_eq!(r, eval("window.__DEVTOOLS__.snapshot({format:'json'})", 5000, Reply::Data));
}

#[test]
fn screenshot_reads_path_and_full() {
    assert_eq!(
        route(&req("GET", "/screenshot", &[("path", "/tmp/a.png"), ("full", "true")])),
        Action::Screenshot { path: Some("/tmp/a.png".to_string()), full: true }
    );
    assert_eq!(
        route(&req("GET", "/screenshot", &[("full", "yes")])),
        Action::Screenshot { path: None, full: false }
    );
}

#[test]
fn fixed_get_routes() {
    for (path, method) in [
        ("/console", "getConsole"),
        ("/errors", "getErrors"),
        ("/cookies", "getCookies"),
        ("/dialogs", "getDialogs"),
        ("/network/requests", "networkRequests"),
    ] {
        assert_eq!(
            route(&req("GET", path, &[])),
            eval(&format!("window.__DEVTOOLS__.{method}()"), 5000, Reply::Data)
        );
    }
}

#[test]
fn fixed_post_routes() {
    let done = [
        ("/cookies/clear", "window.__DEVTOOLS__.clearCookies()"),
        ("/back", "history.back()"),
        ("/forward", "history.forward()"),
        ("/reload", "location.reload()"),
        ("/network/intercept", "window.__DEVTOOLS__.networkIntercept()"),
        ("/network/reset", "window.__DEVTOOLS__.networkReset()"),
        ("/trace/start", "window.__DEVTOOLS__.traceStart()"),
    ];
    for (path, expr) in done {
        assert_eq!(route(&req("POST", path, &[])), eval(expr, 5000, Reply::Done));
    }
    assert_eq!(
        route(&req("POST", "/state/save", &[])),
        eval("window.__DEVTOOLS__.saveState()", 5000, Reply::Data)
    );
    assert_eq!(
        route(&req("POST", "/trace/stop", &[])),
        eval("window.__DEVTOOLS__.traceStop()", 5000, Reply::Data)
    );
    assert_eq!(route(&req("POST", "/record/start", &[])), Action::StartRecording);
    assert_eq!(route(&req("POST", "/record/stop", &[])), Action::StopRecording);
}

#[test]
fn body_routes_ask_for_their_body() {
    let table = [
        ("/click", Endpoint::Click),
        ("/dblclick", Endpoint::DblClick),
        ("/hover", Endpoint::Hover),
        ("/focus", Endpoint::Focus),
        ("/check", Endpoint::Check),
        ("/uncheck", Endpoint::Uncheck),
        ("/scrollintoview", Endpoint::ScrollIntoView),
        ("/fill", Endpoint::Fill),
        ("/type", Endpoint::Type),
        ("/press", Endpoint::Press),
        ("/select", Endpoint::Select),
        ("/scroll", Endpoint::Scroll),
        ("/drag", Endpoint::Drag),
        ("/upload", Endpoint::Upload),
        ("/wait", Endpoint::Wait),
        ("/eval", Endpoint::Eval),
        ("/cookies/set", Endpoint::CookieSet),
        ("/storage/set", Endpoint::StorageSet),
        ("/storage/clear", Endpoint::StorageClear),
        ("/find", Endpoint::Find),
        ("/mouse", Endpoint::Mouse),
        ("/keydown", Endpoint::KeyDown),
        ("/keyup", Endpoint::KeyUp),
        ("/highlight", Endpoint::Highlight),
        ("/dialog", Endpoint::Dialog),
        ("/viewport", Endpoint::Viewport),
        ("/state/load", Endpoint::StateLoad),
        ("/download", Endpoint::Download),
        ("/network/route", Endpoint::NetworkRoute),
        ("/geo", Endpoint::Geo),
        ("/offline", Endpoint::Offline),
        ("/headers", Endpoint::Headers),
    ];
    for (path, e) in table {
        assert_eq!(route(&req("POST", path, &[])), Action::ParseBody(e));
        let expected_get = if path.starts_with("/storage/") {
            err_json(404, "unknown storage route")
        } else {
            err_json(404, "not found")
        };
        assert_eq!(route(&req("GET", path, &[])), Action::Respond(expected_get));
    }
}

#[test]
fn get_routes_by_segment() {
    assert_eq!(handle_get_route(&chars("/get/title")), eval("document.title", 5000, Reply::Data));
    assert_eq!(handle_get_route(&chars("/get/url")), eval("location.href", 5000, Reply::Data));
    assert_eq!(
        handle_get_route(&chars("/get/text/@e1")),
        eval(&format!("window.__DEVTOOLS__.getText({})", q("@e1")), 5000, Reply::Data)
    );
    assert_eq!(
        handle_get_route(&chars("/get/attr/@e2/data-x")),
        eval(&format!("window.__DEVTOOLS__.getAttr({},{})", q("@e2"), q("data-x")), 5000, Reply::Data)
    );
    assert_eq!(
        handle_get_route(&chars("/get/attr/@e2/a/b")),
        eval(&format!("window.__DEVTOOLS__.getAttr({},{})", q("@e2"), q("a/b")), 5000, Reply::Data)
    );
    assert_eq!(
        handle_get_route(&chars("/get/count/div%20.item")),
        eval(&format!("window.__DEVTOOLS__.getCount({})", q("div .item")), 5000, Reply::Data)
    );
    assert_eq!(
        handle_get_route(&chars("/get/text/a/b")),
        Action::Respond(err_json(404, "unknown get route"))
    );
    assert_eq!(
        handle_get_route(&chars("/get/title/x")),
        Action::Respond(err_json(404, "unknown get route"))
    );
    assert_eq!(handle_get_route(&chars("/get//get/url")), eval("location.href", 5000, Reply::Data));
    for (seg, m) in [("html", "getHtml"), ("value", "getValue"), ("styles", "getStyles"), ("box", "getBox")] {
        assert_eq!(
            handle_get_route(&chars(&format!("/get/{seg}/@e3"))),
            eval(&format!("window.__DEVTOOLS__.{m}({})", q("@e3")), 5000, Reply::Data)
        );
    }
    assert_eq!(
        route(&req("GET", "/get/title", &[])),
        eval("document.title", 5000, Reply::Data)
    );
}

#[test]
fn is_routes_by_segment() {
    assert_eq!(
        handle_is_route(&chars("/is/visible/@e1")),
        eval(&format!("window.__DEVTOOLS__.isVisible({})", q("@e1")), 5000, Reply::Data)
    );
    assert_eq!(
        handle_is_route(&chars("/is/enabled/a/b")),
        eval(&format!("window.__DEVTOOLS__.isEnabled({})", q("a/b")), 5000, Reply::Data)
    );
    assert_eq!(
        handle_is_route(&chars("/is/checked/@e4")),
        eval(&format!("window.__DEVTOOLS__.isChecked({})", q("@e4")), 5000, Reply::Data)
    );
    assert_eq!(handle_is_route(&chars("/is/visible")), Action::Respond(err_json(404, "unknown is route")));
}

#[test]
fn storage_routes_by_segment() {
    assert_eq!(
        handle_storage_get(&chars("/storage/local")),
        eval("window.__DEVTOOLS__.getStorage(\"local\")", 5000, Reply::Data)
    );
    assert_eq!(
        handle_storage_get(&chars("/storage/session")),
        eval("window.__DEVTOOLS__.getStorage(\"session\")", 5000, Reply::Data)
    );
    assert_eq!(
        handle_storage_get(&chars("/storage/local/my%20key")),
        eval(&format!("window.__DEVTOOLS__.getStorageKey(\"local\",{})", q("my key")), 5000, Reply::Data)
    );
    assert_eq!(
        handle_storage_get(&chars("/storage/session/a/b")),
        eval(&format!("window.__DEVTOOLS__.getStorageKey(\"session\",{})", q("a/b")), 5000, Reply::Data)
    );
    assert_eq!(
        handle_storage_get(&chars("/storage/cookies")),
        Action::Respond(err_json(404, "unknown storage route"))
    );
    assert_eq!(
        route(&req("GET", "/storage/set", &[])),
        Action::Respond(err_json(404, "unknown storage route"))
    );
}

#[test]
fn ref_commands() {
    assert_eq!(
        plan_command(Command::OnRef { endpoint: Endpoint::ScrollIntoView, ref_id: Some("@e1".into()) }),
        eval(&format!("window.__DEVTOOLS__.scrollIntoView({})", q("@e1")), 5000, Reply::Done)
    );
    assert_eq!(
        plan_command(Command::OnRef { endpoint: Endpoint::DblClick, ref_id: Some("@e\"2".into()) }),
        eval(&format!("window.__DEVTOOLS__.dblclick({})", q("@e\"2")), 5000, Reply::Done)
    );
    assert_eq!(
        plan_command(Command::OnRef { endpoint: Endpoint::Click, ref_id: None }),
        Action::Respond(err_json(400, "missing 'ref' field"))
    );
}

#[test]
fn text_commands() {
    assert_eq!(
        plan_command(Command::Fill { ref_id: "@e2".into(), text: "hello world".into() }),
        eval(&format!("window.__DEVTOOLS__.fill({},{})", q("@e2"), q("hello world")), 5000, Reply::Done)
    );
    assert_eq!(
        plan_command(Command::Type { ref_id: "@e2".into(), text: "a\nb".into() }),
        eval(&format!("window.__DEVTOOLS__.type({},{})", q("@e2"), q("a\nb")), 5000, Reply::Done)
    );
    assert_eq!(
        plan_command(Command::Press { key: "Control+a".into() }),
        eval(&format!("window.__DEVTOOLS__.press({})", q("Control+a")), 5000, Reply::Done)
    );
    assert_eq!(
        plan_command(Command::Select { ref_id: "@e1".into(), values: vec!["opt1".into(), "o\"2".into()] }),
        eval(
            &format!(
                "window.__DEVTOOLS__.select({},{})",
                q("@e1"),
                serde_json::to_string(&vec!["opt1".to_string(), "o\"2".to_string()]).unwrap()
            ),
            5000,
            Reply::Done
        )
    );
    assert_eq!(
        plan_command(Command::Select { ref_id: "@e1".into(), values: vec![] }),
        eval(&format!("window.__DEVTOOLS__.select({},[])", q("@e1")), 5000, Reply::Done)
    );
}

#[test]
fn scroll_command() {
    assert_eq!(
        plan_command(Command::Scroll { direction: "down".into(), amount: format!("{}", 500.0f64), selector: None }),
        eval("window.__DEVTOOLS__.scroll({direction:\"down\",amount:500,selector:undefined})", 5000, Reply::Done)
    );
    assert_eq!(
        plan_command(Command::Scroll { direction: "up".into(), amount: format!("{}", 2.5f64), selector: Some(".list".into()) }),
        eval("window.__DEVTOOLS__.scroll({direction:\"up\",amount:2.5,selector:\".list\"})", 5000, Reply::Done)
    );
}

#[test]
fn wait_commands() {
    let w = |ms, selector: Option<&str>, text: Option<&str>, url: Option<&str>, func: Option<&str>, timeout| Command::Wait {
        ms,
        selector: selector.map(|s| s.to_string()),
        text: text.map(|s| s.to_string()),
        url: url.map(|s| s.to_string()),
        func: func.map(|s| s.to_string()),
        timeout,
    };
    assert_eq!(plan_command(w(Some(1000), None, None, None, None, None)), Action::Sleep { ms: 1000 });
    assert_eq!(
        plan_command(w(None, Some(".loaded"), None, None, None, None)),
        eval(&format!("window.__DEVTOOLS__.wait({{selector:{},timeout:5000}})", q(".loaded")), 6000, Reply::WaitDone)
    );
    assert_eq!(
        plan_command(w(Some(5), Some(".x"), Some("Hi"), Some("**/d"), Some("f()"), Some(10000))),
        eval(
            &format!(
                "window.__DEVTOOLS__.wait({{selector:{},text:{},url:{},fn:{},timeout:10000}})",
                q(".x"),
                q("Hi"),
                q("**/d"),
                q("f()")
            ),
            11000,
            Reply::WaitDone
        )
    );
    assert_eq!(
        plan_command(w(None, None, None, None, None, None)),
        eval("window.__DEVTOOLS__.wait({timeout:5000})", 6000, Reply::WaitDone)
    );
}

#[test]
fn wait_time_limits_that_fit() {
    let w = |ms: Option<u64>, selector: Option<&str>, timeout: Option<u64>| Command::Wait {
        ms,
        selector: selector.map(|s| s.to_string()),
        text: None,
        url: None,
        func: None,
        timeout,
    };
    assert!(fits(&w(Some(10), None, Some(u64::MAX))));
    assert_eq!(plan_command(w(Some(10), None, Some(u64::MAX))), Action::Sleep { ms: 10 });
    assert!(!fits(&w(Some(10), Some("#a"), Some(u64::MAX))));
    assert!(!fits(&w(None, None, Some(u64::MAX - 999))));
    assert!(fits(&w(None, None, Some(u64::MAX - 1000))));
    assert!(fits(&w(None, Some("#a"), None)));
    assert!(fits(&Command::Eval { code: "1".into() }));
    assert_eq!(
        plan_command(w(None, None, Some(u64::MAX - 1000))),
        eval(&format!("window.__DEVTOOLS__.wait({{timeout:{}}})", u64::MAX - 1000), u64::MAX, Reply::WaitDone)
    );
}

#[test]
fn pass_through_commands() {
    assert_eq!(plan_command(Command::Eval { code: "1+1".into() }), eval("1+1", 5000, Reply::Data));
    assert_eq!(
        plan_command(Command::Find { json: "{\"by\":\"role\"}".into() }),
        eval("window.__DEVTOOLS__.find({\"by\":\"role\"})", 5000, Reply::Data)
    );
    assert_eq!(
        plan_command(Command::Mouse { json: "{\"action\":\"move\"}".into() }),
        eval("window.__DEVTOOLS__.mouse({\"action\":\"move\"})", 5000, Reply::Done)
    );
    assert_eq!(
        plan_command(Command::StateLoad { json: "{}".into() }),
        eval("window.__DEVTOOLS__.loadState({})", 5000, Reply::Done)
    );
    assert_eq!(
        plan_command(Command::NetworkRoute { json: "{\"url\":\"/api\"}".into() }),
        eval("window.__DEVTOOLS__.networkRoute({\"url\":\"/api\"})", 5000, Reply::Done)
    );
    assert_eq!(
        plan_command(Command::Headers { json: "{\"A\":\"b\"}".into() }),
        eval("window.__DEVTOOLS__.setHeaders({\"A\":\"b\"})", 5000, Reply::Done)
    );
    assert_eq!(
        plan_command(Command::Geo { lat: format!("{}", 37.7749f64), lng: format!("{}", -122.4194f64) }),
        eval("window.__DEVTOOLS__.setGeo(37.7749,-122.4194)", 5000, Reply::Done)
    );
    assert_eq!(
        plan_command(Command::Offline { enabled: true }),
        eval("window.__DEVTOOLS__.setOffline(true)", 5000, Reply::Done)
    );
    assert_eq!(
        plan_command(Command::Offline { enabled: false }),
        eval("window.__DEVTOOLS__.setOffline(false)", 5000, Reply::Done)
    );
}

#[test]
fn storage_and_cookie_commands() {
    assert_eq!(
        plan_command(Command::CookieSet { name: "x".into(), value: "y".into() }),
        eval(&format!("window.__DEVTOOLS__.setCookie({},{})", q("x"), q("y")), 5000, Reply::Done)
    );
    assert_eq!(
        plan_command(Command::StorageSet { storage_type: "local".into(), key: "k".into(), value: "v".into() }),
        eval(&format!("window.__DEVTOOLS__.setStorage({},{},{})", q("local"), q("k"), q("v")), 5000, Reply::Done)
    );
    assert_eq!(
        plan_command(Command::StorageClear { storage_type: "session".into() }),
        eval(&format!("window.__DEVTOOLS__.clearStorage({})", q("session")), 5000, Reply::Done)
    );
}

#[test]
fn element_commands() {
    assert_eq!(
        plan_command(Command::Drag { from: "@e1".into(), to: "@e2".into() }),
        eval(&format!("window.__DEVTOOLS__.drag({},{})", q("@e1"), q("@e2")), 5000, Reply::Done)
    );
    assert_eq!(
        plan_command(Command::Upload { ref_id: "@e1".into(), data_url: "data:,x".into() }),
        eval(&format!("window.__DEVTOOLS__.upload({},{})", q("@e1"), q("data:,x")), 5000, Reply::Done)
    );
    assert_eq!(
        plan_command(Command::KeyDown { key: "Shift".into() }),
        eval(&format!("window.__DEVTOOLS__.keydown({})", q("Shift")), 5000, Reply::Done)
    );
    assert_eq!(
        plan_command(Command::KeyUp { key: "Shift".into() }),
        eval(&format!("window.__DEVTOOLS__.keyup({})", q("Shift")), 5000, Reply::Done)
    );
    assert_eq!(
        plan_command(Command::Highlight { ref_id: "@e9".into() }),
        eval(&format!("window.__DEVTOOLS__.highlight({})", q("@e9")), 5000, Reply::Done)
    );
}

#[test]
fn dialog_commands() {
    assert_eq!(
        plan_command(Command::Dialog { action: "accept".into(), text: Some("input".into()) }),
        eval(&format!("window.__DEVTOOLS__.dialogAccept({})", q("input")), 5000, Reply::Done)
    );
    assert_eq!(
        plan_command(Command::Dialog { action: "accept".into(), text: None }),
        eval("window.__DEVTOOLS__.dialogAccept()", 5000, Reply::Done)
    );
    assert_eq!(
        plan_command(Command::Dialog { action: "dismiss".into(), text: Some("ignored".into()) }),
        eval("window.__DEVTOOLS__.dialogDismiss()", 5000, Reply::Done)
    );
    assert_eq!(
        plan_command(Command::Dialog { action: "maybe".into(), text: None }),
        Action::Respond(err_json(400, "unknown dialog action: maybe"))
    );
}

#[test]
fn outside_work_commands() {
    assert_eq!(
        plan_command(Command::Viewport { width: 375, height: 812 }),
        Action::Resize { width: 375, height: 812 }
    );
    assert_eq!(
        plan_command(Command::Download { url: "https://x/y.zip".into(), path: "/tmp/y.zip".into() }),
        Action::Download { url: "https://x/y.zip".into(), path: "/tmp/y.zip".into() }
    );
}

#[test]
fn bad_body_answers_400() {
    assert_eq!(bad_body("EOF while parsing"), err_json(400, "bad json: EOF while parsing"));
}
