//! The bridge's routes: what each request asks for, decided from its method, path, query
//! and (parsed) body, and how each outcome becomes a response.
use vstd::prelude::*;
use crate::http::{RequestView, HttpRequest, response_bytes, error_body, ok_json, err_json, query_value, pairs_view};
use crate::json::{json_quoted, json_string_array, json_string, json_array};
use crate::numbers::{decimal, decimal_text, parse_unsigned, parse_unsigned_chars};
use crate::percent::{url_decoded_or_empty, decode_or_empty};
use crate::script::{devtools, object, bool_text, texts, devtools_call0, devtools_call1, devtools_call2, devtools_call3, object_literal, bool_literal, concat, labelled_quote, join};
use crate::text::{chars_of, chars_are, has_prefix, starts_with_text, strip_all_prefix, strip_all_prefix_text, splitn_on, splitn_char, views, string_of};

verus! {

/// The usual time an evaluation may take before it is given up, in milliseconds.
pub const EVAL_TIMEOUT_MS: u64 = 5000;

/// How the reply of an evaluation becomes the body of the response.
#[derive(Clone, Copy, PartialEq, Eq, Structural, Debug)]
pub enum Reply {
    /// The reply itself.
    Data,
    /// `{"ok":true}`, whatever the reply.
    Done,
    /// `{"ok":<reply>}`.
    WaitDone,
}

/// A route whose request body must first be parsed as JSON.
#[derive(Clone, Copy, PartialEq, Eq, Structural, Debug)]
pub enum Endpoint {
    Click,
    DblClick,
    Hover,
    Focus,
    Check,
    Uncheck,
    ScrollIntoView,
    Fill,
    Type,
    Press,
    Select,
    Scroll,
    Drag,
    Upload,
    Wait,
    Eval,
    CookieSet,
    StorageSet,
    StorageClear,
    Find,
    Mouse,
    KeyDown,
    KeyUp,
    Highlight,
    Dialog,
    Viewport,
    StateLoad,
    Download,
    NetworkRoute,
    Geo,
    Offline,
    Headers,
}

/// A request to a body-taking route, its body parsed.
pub enum Command {
    /// `/click`, `/dblclick`, `/hover`, `/focus`, `/check`, `/uncheck`, `/scrollintoview`
    /// (told apart by `endpoint`), with the optional `ref` member.
    OnRef { endpoint: Endpoint, ref_id: Option<String> },
    Fill { ref_id: String, text: String },
    Type { ref_id: String, text: String },
    Press { key: String },
    Select { ref_id: String, values: Vec<String> },
    /// `amount` is the number as `format!("{}")` writes the parsed `f64`.
    Scroll { direction: String, amount: String, selector: Option<String> },
    Drag { from: String, to: String },
    Upload { ref_id: String, data_url: String },
    Wait {
        ms: Option<u64>,
        selector: Option<String>,
        text: Option<String>,
        url: Option<String>,
        func: Option<String>,
        timeout: Option<u64>,
    },
    Eval { code: String },
    CookieSet { name: String, value: String },
    StorageSet { storage_type: String, key: String, value: String },
    StorageClear { storage_type: String },
    /// The parsed body written back as JSON.
    Find { json: String },
    /// The parsed body written back as JSON.
    Mouse { json: String },
    KeyDown { key: String },
    KeyUp { key: String },
    Highlight { ref_id: String },
    Dialog { action: String, text: Option<String> },
    Viewport { width: u32, height: u32 },
    /// The parsed body written back as JSON.
    StateLoad { json: String },
    Download { url: String, path: String },
    /// The parsed body written back as JSON.
    NetworkRoute { json: String },
    /// Latitude and longitude as `format!("{}")` writes the parsed `f64`s.
    Geo { lat: String, lng: String },
    Offline { enabled: bool },
    /// The `headers` member written back as JSON.
    Headers { json: String },
}

/// What the bridge does next for a request.
#[derive(Debug, PartialEq, Eq)]
pub enum Action {
    /// Answer with these bytes.
    Respond(Vec<u8>),
    /// Evaluate `expr` in the web view, waiting at most `timeout_ms`, then answer as
    /// `reply` says.
    Eval { expr: String, timeout_ms: u64, reply: Reply },
    /// Parse the body as JSON for this route, then plan the command.
    ParseBody(Endpoint),
    /// Capture the screen to `path` (a default path when none is given), first growing the
    /// web view to the whole page when `full`.
    Screenshot { path: Option<String>, full: bool },
    StartRecording,
    StopRecording,
    /// Wait `ms` milliseconds, then answer `{"ok":true}`.
    Sleep { ms: u64 },
    /// Resize the web view.
    Resize { width: u32, height: u32 },
    /// Fetch `url` into the file `path`.
    Download { url: String, path: String },
}

/// An action, as values.
pub ghost enum ActionView {
    Respond(Seq<u8>),
    Eval { expr: Seq<char>, timeout_ms: nat, reply: Reply },
    ParseBody(Endpoint),
    Screenshot { path: Option<Seq<char>>, full: bool },
    StartRecording,
    StopRecording,
    Sleep { ms: nat },
    Resize { width: nat, height: nat },
    Download { url: Seq<char>, path: Seq<char> },
}

pub open spec fn opt_view(o: Option<String>) -> Option<Seq<char>> {
    match o {
        Some(s) => Some(s@),
        None => None,
    }
}

impl View for Action {
    type V = ActionView;

    open spec fn view(&self) -> ActionView {
        match self {
            Action::Respond(b) => ActionView::Respond(b@),
            Action::Eval { expr, timeout_ms, reply } => ActionView::Eval {
                expr: expr@,
                timeout_ms: *timeout_ms as nat,
                reply: *reply,
            },
            Action::ParseBody(e) => ActionView::ParseBody(*e),
            Action::Screenshot { path, full } => ActionView::Screenshot { path: opt_view(*path), full: *full },
            Action::StartRecording => ActionView::StartRecording,
            Action::StopRecording => ActionView::StopRecording,
            Action::Sleep { ms } => ActionView::Sleep { ms: *ms as nat },
            Action::Resize { width, height } => ActionView::Resize {
                width: *width as nat,
                height: *height as nat,
            },
            Action::Download { url, path } => ActionView::Download { url: url@, path: path@ },
        }
    }
}

/// `{"ok":true}`
pub open spec fn ok_true() -> Seq<char> {
    "{\"ok\":true}"@
}

/// A `200 OK` response with this body.
pub open spec fn ok_response(body: Seq<char>) -> Seq<u8> {
    response_bytes(200, "OK"@, body)
}

/// An error response with this status and message.
pub open spec fn error_response(status: nat, msg: Seq<char>) -> Seq<u8> {
    response_bytes(status, "Error"@, error_body(msg))
}

/// Evaluate `expr` with the usual time limit.
pub open spec fn eval5(expr: Seq<char>, reply: Reply) -> ActionView {
    ActionView::Eval { expr, timeout_ms: EVAL_TIMEOUT_MS as nat, reply }
}

/// The page helper's method for a route that acts on the element `ref`.
pub open spec fn ref_method(e: Endpoint) -> Seq<char> {
    match e {
        Endpoint::DblClick => "dblclick"@,
        Endpoint::Hover => "hover"@,
        Endpoint::Focus => "focus"@,
        Endpoint::Check => "check"@,
        Endpoint::Uncheck => "uncheck"@,
        Endpoint::ScrollIntoView => "scrollIntoView"@,
        _ => "click"@,
    }
}

/// The condition members of a wait, in order, each present one as `name:<JSON string>`,
/// and last the time limit.
pub open spec fn wait_members(
    selector: Option<String>,
    text: Option<String>,
    url: Option<String>,
    func: Option<String>,
    timeout: nat,
) -> Seq<Seq<char>> {
    let a: Seq<Seq<char>> = match selector {
        Some(s) => seq!["selector:"@ + json_quoted(s@)],
        None => seq![],
    };
    let b: Seq<Seq<char>> = match text {
        Some(t) => seq!["text:"@ + json_quoted(t@)],
        None => seq![],
    };
    let c: Seq<Seq<char>> = match url {
        Some(u) => seq!["url:"@ + json_quoted(u@)],
        None => seq![],
    };
    let d: Seq<Seq<char>> = match func {
        Some(f) => seq!["fn:"@ + json_quoted(f@)],
        None => seq![],
    };
    a + b + c + d + seq!["timeout:"@ + decimal(timeout)]
}

/// What a parsed body asks for.
pub open spec fn command_action(c: Command) -> ActionView {
    match c {
        Command::OnRef { endpoint, ref_id } => match ref_id {
            Some(r) => eval5(devtools(ref_method(endpoint), seq![json_quoted(r@)]), Reply::Done),
            None => ActionView::Respond(error_response(400, "missing 'ref' field"@)),
        },
        Command::Fill { ref_id, text } => eval5(
            devtools("fill"@, seq![json_quoted(ref_id@), json_quoted(text@)]),
            Reply::Done,
        ),
        Command::Type { ref_id, text } => eval5(
            devtools("type"@, seq![json_quoted(ref_id@), json_quoted(text@)]),
            Reply::Done,
        ),
        Command::Press { key } => eval5(devtools("press"@, seq![json_quoted(key@)]), Reply::Done),
        Command::Select { ref_id, values } => eval5(
            devtools("select"@, seq![json_quoted(ref_id@), json_string_array(texts(values@))]),
            Reply::Done,
        ),
        Command::Scroll { direction, amount, selector } => {
            let sel = match selector {
                Some(s) => json_quoted(s@),
                None => "undefined"@,
            };
            eval5(
                devtools(
                    "scroll"@,
                    seq![object(seq!["direction:"@ + json_quoted(direction@), "amount:"@ + amount@, "selector:"@ + sel])],
                ),
                Reply::Done,
            )
        },
        Command::Drag { from, to } => eval5(
            devtools("drag"@, seq![json_quoted(from@), json_quoted(to@)]),
            Reply::Done,
        ),
        Command::Upload { ref_id, data_url } => eval5(
            devtools("upload"@, seq![json_quoted(ref_id@), json_quoted(data_url@)]),
            Reply::Done,
        ),
        Command::Wait { ms, selector, text, url, func, timeout } => {
            if ms is Some && selector is None && text is None && url is None && func is None {
                ActionView::Sleep { ms: ms->0 as nat }
            } else {
                let t: nat = match timeout {
                    Some(t) => t as nat,
                    None => 5000,
                };
                ActionView::Eval {
                    expr: devtools("wait"@, seq![object(wait_members(selector, text, url, func, t))]),
                    timeout_ms: t + 1000,
                    reply: Reply::WaitDone,
                }
            }
        },
        Command::Eval { code } => eval5(code@, Reply::Data),
        Command::CookieSet { name, value } => eval5(
            devtools("setCookie"@, seq![json_quoted(name@), json_quoted(value@)]),
            Reply::Done,
        ),
        Command::StorageSet { storage_type, key, value } => eval5(
            devtools("setStorage"@, seq![json_quoted(storage_type@), json_quoted(key@), json_quoted(value@)]),
            Reply::Done,
        ),
        Command::StorageClear { storage_type } => eval5(
            devtools("clearStorage"@, seq![json_quoted(storage_type@)]),
            Reply::Done,
        ),
        Command::Find { json } => eval5(devtools("find"@, seq![json@]), Reply::Data),
        Command::Mouse { json } => eval5(devtools("mouse"@, seq![json@]), Reply::Done),
        Command::KeyDown { key } => eval5(devtools("keydown"@, seq![json_quoted(key@)]), Reply::Done),
        Command::KeyUp { key } => eval5(devtools("keyup"@, seq![json_quoted(key@)]), Reply::Done),
        Command::Highlight { ref_id } => eval5(
            devtools("highlight"@, seq![json_quoted(ref_id@)]),
            Reply::Done,
        ),
        Command::Dialog { action, text } => {
            if action@ == "accept"@ {
                match text {
                    Some(t) => eval5(devtools("dialogAccept"@, seq![json_quoted(t@)]), Reply::Done),
                    None => eval5(devtools("dialogAccept"@, seq![]), Reply::Done),
                }
            } else if action@ == "dismiss"@ {
                eval5(devtools("dialogDismiss"@, seq![]), Reply::Done)
            } else {
                ActionView::Respond(error_response(400, "unknown dialog action: "@ + action@))
            }
        },
        Command::Viewport { width, height } => ActionView::Resize {
            width: width as nat,
            height: height as nat,
        },
        Command::StateLoad { json } => eval5(devtools("loadState"@, seq![json@]), Reply::Done),
        Command::Download { url, path } => ActionView::Download { url: url@, path: path@ },
        Command::NetworkRoute { json } => eval5(devtools("networkRoute"@, seq![json@]), Reply::Done),
        Command::Geo { lat, lng } => eval5(devtools("setGeo"@, seq![lat@, lng@]), Reply::Done),
        Command::Offline { enabled } => eval5(
            devtools("setOffline"@, seq![bool_text(enabled)]),
            Reply::Done,
        ),
        Command::Headers { json } => eval5(devtools("setHeaders"@, seq![json@]), Reply::Done),
    }
}

/// A wait that evaluates in the page has a time limit, plus a second for the reply, that
/// fits a `u64` (a pure delay computes no such limit).
pub open spec fn command_fits(c: Command) -> bool {
    match c {
        Command::Wait { ms, selector, text, url, func, timeout } => {
            ||| (ms is Some && selector is None && text is None && url is None && func is None)
            ||| match timeout {
                Some(t) => t + 1000 <= u64::MAX,
                None => true,
            }
        },
        _ => true,
    }
}

/// Whether a parsed body can be planned (see `command_fits`); a wait whose time limit
/// overflows cannot.
pub fn fits(c: &Command) -> (b: bool)
    ensures
        b == command_fits(*c),
{
    match c {
        Command::Wait { ms, selector, text, url, func, timeout } => {
            if ms.is_some() && selector.is_none() && text.is_none() && url.is_none() && func.is_none() {
                true
            } else {
                match timeout {
                    Some(t) => *t <= u64::MAX - 1000,
                    None => true,
                }
            }
        },
        _ => true,
    }
}

fn eval_action(expr: String, reply: Reply) -> (r: Action)
    ensures
        r@ == eval5(expr@, reply),
{
    Action::Eval { expr, timeout_ms: EVAL_TIMEOUT_MS, reply }
}

fn quote(s: &String) -> (r: String)
    ensures
        r@ == json_quoted(s@),
{
    json_string(s.as_str())
}

fn ref_method_name(e: Endpoint) -> (r: &'static str)
    ensures
        r@ == ref_method(e),
{
    match e {
        Endpoint::DblClick => "dblclick",
        Endpoint::Hover => "hover",
        Endpoint::Focus => "focus",
        Endpoint::Check => "check",
        Endpoint::Uncheck => "uncheck",
        Endpoint::ScrollIntoView => "scrollIntoView",
        _ => "click",
    }
}

fn optional_member(members: &mut Vec<String>, label: &str, value: &Option<String>)
    ensures
        texts(final(members)@) == texts(old(members)@) + match *value {
            Some(v) => seq![label@ + json_quoted(v@)],
            None => Seq::<Seq<char>>::empty(),
        },
{
    match value {
        Some(v) => {
            let m = labelled_quote(label, v.as_str());
            let ghost mv = m@;
            members.push(m);
            assert(texts(members@) =~= texts(old(members)@) + seq![mv]);
        },
        None => {
            assert(texts(members@) =~= texts(old(members)@) + Seq::<Seq<char>>::empty());
        },
    }
}

fn wait_action(
    ms: Option<u64>,
    selector: Option<String>,
    text: Option<String>,
    url: Option<String>,
    func: Option<String>,
    timeout: Option<u64>,
) -> (r: Action)
    requires
        command_fits(Command::Wait { ms, selector, text, url, func, timeout }),
    ensures
        r@ == command_action(Command::Wait { ms, selector, text, url, func, timeout }),
{
    if ms.is_some() && selector.is_none() && text.is_none() && url.is_none() && func.is_none() {
        return Action::Sleep { ms: ms.unwrap() };
    }
    let t: u64 = match timeout {
        Some(t) => t,
        None => 5000,
    };
    let mut members: Vec<String> = Vec::new();
    assert(texts(members@) =~= Seq::<Seq<char>>::empty());
    optional_member(&mut members, "selector:", &selector);
    optional_member(&mut members, "text:", &text);
    optional_member(&mut members, "url:", &url);
    optional_member(&mut members, "fn:", &func);
    let n = decimal_text(t as u128);
    let last = concat("timeout:", n.as_str());
    let ghost lv = last@;
    let ghost before = texts(members@);
    members.push(last);
    assert(texts(members@) =~= before + seq![lv]);
    assert(texts(members@) =~= wait_members(selector, text, url, func, t as nat));
    let expr = devtools_call1("wait", object_literal(&members));
    Action::Eval { expr, timeout_ms: t + 1000, reply: Reply::WaitDone }
}

/// Plans the work for a request whose body parsed into `c` (see `command_action`).
pub fn plan_command(c: Command) -> (r: Action)
    requires
        command_fits(c),
    ensures
        r@ == command_action(c),
{
    match c {
        Command::OnRef { endpoint, ref_id } => match ref_id {
            Some(r) => eval_action(devtools_call1(ref_method_name(endpoint), quote(&r)), Reply::Done),
            None => Action::Respond(err_json(400, "missing 'ref' field")),
        },
        Command::Fill { ref_id, text } => eval_action(
            devtools_call2("fill", quote(&ref_id), quote(&text)),
            Reply::Done,
        ),
        Command::Type { ref_id, text } => eval_action(
            devtools_call2("type", quote(&ref_id), quote(&text)),
            Reply::Done,
        ),
        Command::Press { key } => eval_action(devtools_call1("press", quote(&key)), Reply::Done),
        Command::Select { ref_id, values } => eval_action(
            devtools_call2("select", quote(&ref_id), json_array(&values)),
            Reply::Done,
        ),
        Command::Scroll { direction, amount, selector } => {
            let sel = match &selector {
                Some(s) => quote(s),
                None => String::from_str("undefined"),
            };
            let mut members: Vec<String> = Vec::new();
            let a = labelled_quote("direction:", direction.as_str());
            let b = concat("amount:", amount.as_str());
            let c2 = concat("selector:", sel.as_str());
            let ghost (av, bv, cv) = (a@, b@, c2@);
            members.push(a);
            members.push(b);
            members.push(c2);
            assert(texts(members@) =~= seq![av, bv, cv]);
            eval_action(devtools_call1("scroll", object_literal(&members)), Reply::Done)
        },
        Command::Drag { from, to } => eval_action(
            devtools_call2("drag", quote(&from), quote(&to)),
            Reply::Done,
        ),
        Command::Upload { ref_id, data_url } => eval_action(
            devtools_call2("upload", quote(&ref_id), quote(&data_url)),
            Reply::Done,
        ),
        Command::Wait { ms, selector, text, url, func, timeout } => wait_action(
            ms,
            selector,
            text,
            url,
            func,
            timeout,
        ),
        Command::Eval { code } => eval_action(code, Reply::Data),
        Command::CookieSet { name, value } => eval_action(
            devtools_call2("setCookie", quote(&name), quote(&value)),
            Reply::Done,
        ),
        Command::StorageSet { storage_type, key, value } => eval_action(
            devtools_call3("setStorage", quote(&storage_type), quote(&key), quote(&value)),
            Reply::Done,
        ),
        Command::StorageClear { storage_type } => eval_action(
            devtools_call1("clearStorage", quote(&storage_type)),
            Reply::Done,
        ),
        Command::Find { json } => eval_action(devtools_call1("find", json), Reply::Data),
        Command::Mouse { json } => eval_action(devtools_call1("mouse", json), Reply::Done),
        Command::KeyDown { key } => eval_action(devtools_call1("keydown", quote(&key)), Reply::Done),
        Command::KeyUp { key } => eval_action(devtools_call1("keyup", quote(&key)), Reply::Done),
        Command::Highlight { ref_id } => eval_action(
            devtools_call1("highlight", quote(&ref_id)),
            Reply::Done,
        ),
        Command::Dialog { action, text } => {
            let a = chars_of(action.as_str());
            if chars_are(a.as_slice(), "accept") {
                match &text {
                    Some(t) => eval_action(devtools_call1("dialogAccept", quote(t)), Reply::Done),
                    None => eval_action(devtools_call0("dialogAccept"), Reply::Done),
                }
            } else if chars_are(a.as_slice(), "dismiss") {
                eval_action(devtools_call0("dialogDismiss"), Reply::Done)
            } else {
                let msg = concat("unknown dialog action: ", action.as_str());
                Action::Respond(err_json(400, msg.as_str()))
            }
        },
        Command::Viewport { width, height } => Action::Resize { width, height },
        Command::StateLoad { json } => eval_action(devtools_call1("loadState", json), Reply::Done),
        Command::Download { url, path } => Action::Download { url, path },
        Command::NetworkRoute { json } => eval_action(
            devtools_call1("networkRoute", json),
            Reply::Done,
        ),
        Command::Geo { lat, lng } => eval_action(devtools_call2("setGeo", lat, lng), Reply::Done),
        Command::Offline { enabled } => eval_action(
            devtools_call1("setOffline", bool_literal(enabled)),
            Reply::Done,
        ),
        Command::Headers { json } => eval_action(devtools_call1("setHeaders", json), Reply::Done),
    }
}

/// The answer when a route's body is not the JSON it expects: `400` and
/// `bad json: <the parser's message>`.
pub fn bad_body(parser_message: &str) -> (r: Vec<u8>)
    ensures
        r@ == error_response(400, "bad json: "@ + parser_message@),
{
    let msg = concat("bad json: ", parser_message);
    err_json(400, msg.as_str())
}


/// The members of a snapshot request, from its query: the format (`json` by default,
/// written between single quotes as given), then the scope as a JSON string, the depth
/// when it reads as a `u32`, and whether only interactive elements count (unless the
/// parameter is `false`), each only when the query names it.
pub open spec fn snapshot_members(q: Seq<(Seq<char>, Seq<char>)>) -> Seq<Seq<char>> {
    let fmt = match query_value(q, "format"@) {
        Some(f) => f,
        None => "json"@,
    };
    let a: Seq<Seq<char>> = seq!["format:'"@ + fmt + "'"@];
    let b: Seq<Seq<char>> = match query_value(q, "scope"@) {
        Some(sc) => seq!["scope:"@ + json_quoted(sc)],
        None => seq![],
    };
    let c: Seq<Seq<char>> = match query_value(q, "depth"@) {
        Some(d) => match parse_unsigned(d, u32::MAX as nat) {
            Some(n) => seq!["depth:"@ + decimal(n)],
            None => seq![],
        },
        None => seq![],
    };
    let d: Seq<Seq<char>> = match query_value(q, "interactive"@) {
        Some(v) => seq!["interactive:"@ + bool_text(v != "false"@)],
        None => seq![],
    };
    a + b + c + d
}

/// `GET /get/...`: the path after every leading `/get/`, split at `/` into at most three
/// pieces, names the value to read.
pub open spec fn getter_route(p: Seq<char>) -> ActionView {
    let s = splitn_on(strip_all_prefix(p, "/get/"@), '/', 3);
    if s.len() == 1 && s[0] == "title"@ {
        eval5("document.title"@, Reply::Data)
    } else if s.len() == 1 && s[0] == "url"@ {
        eval5("location.href"@, Reply::Data)
    } else if s.len() == 2 && s[0] == "text"@ {
        eval5(devtools("getText"@, seq![json_quoted(s[1])]), Reply::Data)
    } else if s.len() == 2 && s[0] == "html"@ {
        eval5(devtools("getHtml"@, seq![json_quoted(s[1])]), Reply::Data)
    } else if s.len() == 2 && s[0] == "value"@ {
        eval5(devtools("getValue"@, seq![json_quoted(s[1])]), Reply::Data)
    } else if s.len() == 3 && s[0] == "attr"@ {
        eval5(devtools("getAttr"@, seq![json_quoted(s[1]), json_quoted(s[2])]), Reply::Data)
    } else if s.len() == 2 && s[0] == "styles"@ {
        eval5(devtools("getStyles"@, seq![json_quoted(s[1])]), Reply::Data)
    } else if s.len() == 2 && s[0] == "box"@ {
        eval5(devtools("getBox"@, seq![json_quoted(s[1])]), Reply::Data)
    } else if s.len() == 2 && s[0] == "count"@ {
        eval5(devtools("getCount"@, seq![json_quoted(url_decoded_or_empty(s[1]))]), Reply::Data)
    } else {
        ActionView::Respond(error_response(404, "unknown get route"@))
    }
}

/// `GET /is/...`: the path after every leading `/is/`, split at the first `/`, names the
/// check and the element.
pub open spec fn check_route(p: Seq<char>) -> ActionView {
    let s = splitn_on(strip_all_prefix(p, "/is/"@), '/', 2);
    if s.len() == 2 && s[0] == "visible"@ {
        eval5(devtools("isVisible"@, seq![json_quoted(s[1])]), Reply::Data)
    } else if s.len() == 2 && s[0] == "enabled"@ {
        eval5(devtools("isEnabled"@, seq![json_quoted(s[1])]), Reply::Data)
    } else if s.len() == 2 && s[0] == "checked"@ {
        eval5(devtools("isChecked"@, seq![json_quoted(s[1])]), Reply::Data)
    } else {
        ActionView::Respond(error_response(404, "unknown is route"@))
    }
}

/// `GET /storage/...`: the path after every leading `/storage/`, split at the first `/`,
/// names the storage and, optionally, a percent-encoded key.
pub open spec fn storage_route(p: Seq<char>) -> ActionView {
    let s = splitn_on(strip_all_prefix(p, "/storage/"@), '/', 2);
    if s.len() == 1 && s[0] == "local"@ {
        eval5(devtools("getStorage"@, seq!["\"local\""@]), Reply::Data)
    } else if s.len() == 1 && s[0] == "session"@ {
        eval5(devtools("getStorage"@, seq!["\"session\""@]), Reply::Data)
    } else if s.len() == 2 && s[0] == "local"@ {
        eval5(
            devtools("getStorageKey"@, seq!["\"local\""@, json_quoted(url_decoded_or_empty(s[1]))]),
            Reply::Data,
        )
    } else if s.len() == 2 && s[0] == "session"@ {
        eval5(
            devtools("getStorageKey"@, seq!["\"session\""@, json_quoted(url_decoded_or_empty(s[1]))]),
            Reply::Data,
        )
    } else {
        ActionView::Respond(error_response(404, "unknown storage route"@))
    }
}

fn piece_is(s: &Vec<Vec<char>>, n: usize, lit: &str) -> (b: bool)
    ensures
        b == (s@.len() == n && n >= 1 && views(s@)[0] == lit@),
{
    if s.len() != n || n < 1 {
        return false;
    }
    assert(views(s@)[0] == s@[0]@);
    chars_are(s[0].as_slice(), lit)
}

fn quoted_piece(s: &Vec<Vec<char>>, i: usize) -> (r: String)
    requires
        i < s@.len(),
    ensures
        r@ == json_quoted(views(s@)[i as int]),
{
    assert(views(s@)[i as int] == s@[i as int]@);
    let t = string_of(s[i].as_slice());
    json_string(t.as_str())
}

fn quoted_decoded_piece(s: &Vec<Vec<char>>, i: usize) -> (r: String)
    requires
        i < s@.len(),
    ensures
        r@ == json_quoted(url_decoded_or_empty(views(s@)[i as int])),
{
    assert(views(s@)[i as int] == s@[i as int]@);
    let d = decode_or_empty(s[i].as_slice());
    let t = string_of(d.as_slice());
    json_string(t.as_str())
}

/// Decides a `GET /get/...` request (see `getter_route`).
pub fn handle_get_route(p: &[char]) -> (r: Action)
    ensures
        r@ == getter_route(p@),
{
    let rest = strip_all_prefix_text(p, "/get/");
    let s = splitn_char(rest.as_slice(), '/', 3);
    if piece_is(&s, 1, "title") {
        eval_action(String::from_str("document.title"), Reply::Data)
    } else if piece_is(&s, 1, "url") {
        eval_action(String::from_str("location.href"), Reply::Data)
    } else if piece_is(&s, 2, "text") {
        eval_action(devtools_call1("getText", quoted_piece(&s, 1)), Reply::Data)
    } else if piece_is(&s, 2, "html") {
        eval_action(devtools_call1("getHtml", quoted_piece(&s, 1)), Reply::Data)
    } else if piece_is(&s, 2, "value") {
        eval_action(devtools_call1("getValue", quoted_piece(&s, 1)), Reply::Data)
    } else if piece_is(&s, 3, "attr") {
        eval_action(devtools_call2("getAttr", quoted_piece(&s, 1), quoted_piece(&s, 2)), Reply::Data)
    } else if piece_is(&s, 2, "styles") {
        eval_action(devtools_call1("getStyles", quoted_piece(&s, 1)), Reply::Data)
    } else if piece_is(&s, 2, "box") {
        eval_action(devtools_call1("getBox", quoted_piece(&s, 1)), Reply::Data)
    } else if piece_is(&s, 2, "count") {
        eval_action(devtools_call1("getCount", quoted_decoded_piece(&s, 1)), Reply::Data)
    } else {
        Action::Respond(err_json(404, "unknown get route"))
    }
}

/// Decides a `GET /is/...` request (see `check_route`).
pub fn handle_is_route(p: &[char]) -> (r: Action)
    ensures
        r@ == check_route(p@),
{
    let rest = strip_all_prefix_text(p, "/is/");
    let s = splitn_char(rest.as_slice(), '/', 2);
    if piece_is(&s, 2, "visible") {
        eval_action(devtools_call1("isVisible", quoted_piece(&s, 1)), Reply::Data)
    } else if piece_is(&s, 2, "enabled") {
        eval_action(devtools_call1("isEnabled", quoted_piece(&s, 1)), Reply::Data)
    } else if piece_is(&s, 2, "checked") {
        eval_action(devtools_call1("isChecked", quoted_piece(&s, 1)), Reply::Data)
    } else {
        Action::Respond(err_json(404, "unknown is route"))
    }
}

/// Decides a `GET /storage/...` request (see `storage_route`).
pub fn handle_storage_get(p: &[char]) -> (r: Action)
    ensures
        r@ == storage_route(p@),
{
    let rest = strip_all_prefix_text(p, "/storage/");
    let s = splitn_char(rest.as_slice(), '/', 2);
    if piece_is(&s, 1, "local") {
        eval_action(devtools_call1("getStorage", String::from_str("\"local\"")), Reply::Data)
    } else if piece_is(&s, 1, "session") {
        eval_action(devtools_call1("getStorage", String::from_str("\"session\"")), Reply::Data)
    } else if piece_is(&s, 2, "local") {
        eval_action(
            devtools_call2("getStorageKey", String::from_str("\"local\""), quoted_decoded_piece(&s, 1)),
            Reply::Data,
        )
    } else if piece_is(&s, 2, "session") {
        eval_action(
            devtools_call2("getStorageKey", String::from_str("\"session\""), quoted_decoded_piece(&s, 1)),
            Reply::Data,
        )
    } else {
        Action::Respond(err_json(404, "unknown storage route"))
    }
}


/// What a `GET` request to `p` with query `q` asks for.
pub open spec fn get_route(p: Seq<char>, q: Seq<(Seq<char>, Seq<char>)>) -> ActionView {
    if p == "/health"@ {
        ActionView::Respond(ok_response(ok_true()))
    } else if p == "/screenshot"@ {
        ActionView::Screenshot { path: query_value(q, "path"@), full: query_value(q, "full"@) == Some("true"@) }
    } else if p == "/snapshot"@ {
        eval5(devtools("snapshot"@, seq![object(snapshot_members(q))]), Reply::Data)
    } else if p == "/console"@ {
        eval5(devtools("getConsole"@, seq![]), Reply::Data)
    } else if p == "/errors"@ {
        eval5(devtools("getErrors"@, seq![]), Reply::Data)
    } else if p == "/cookies"@ {
        eval5(devtools("getCookies"@, seq![]), Reply::Data)
    } else if p == "/dialogs"@ {
        eval5(devtools("getDialogs"@, seq![]), Reply::Data)
    } else if has_prefix(p, "/get/"@) {
        getter_route(p)
    } else if has_prefix(p, "/is/"@) {
        check_route(p)
    } else if has_prefix(p, "/storage/"@) {
        storage_route(p)
    } else if p == "/network/requests"@ {
        eval5(devtools("networkRequests"@, seq![]), Reply::Data)
    } else {
        ActionView::Respond(error_response(404, "not found"@))
    }
}

/// The body-taking route at path `p`, if any.
pub open spec fn body_endpoint(p: Seq<char>) -> Option<Endpoint> {
    if p == "/click"@ {
        Some(Endpoint::Click)
    } else if p == "/dblclick"@ {
        Some(Endpoint::DblClick)
    } else if p == "/hover"@ {
        Some(Endpoint::Hover)
    } else if p == "/focus"@ {
        Some(Endpoint::Focus)
    } else if p == "/check"@ {
        Some(Endpoint::Check)
    } else if p == "/uncheck"@ {
        Some(Endpoint::Uncheck)
    } else if p == "/scrollintoview"@ {
        Some(Endpoint::ScrollIntoView)
    } else if p == "/fill"@ {
        Some(Endpoint::Fill)
    } else if p == "/type"@ {
        Some(Endpoint::Type)
    } else if p == "/press"@ {
        Some(Endpoint::Press)
    } else if p == "/select"@ {
        Some(Endpoint::Select)
    } else if p == "/scroll"@ {
        Some(Endpoint::Scroll)
    } else if p == "/drag"@ {
        Some(Endpoint::Drag)
    } else if p == "/upload"@ {
        Some(Endpoint::Upload)
    } else if p == "/wait"@ {
        Some(Endpoint::Wait)
    } else if p == "/eval"@ {
        Some(Endpoint::Eval)
    } else if p == "/cookies/set"@ {
        Some(Endpoint::CookieSet)
    } else if p == "/storage/set"@ {
        Some(Endpoint::StorageSet)
    } else if p == "/storage/clear"@ {
        Some(Endpoint::StorageClear)
    } else if p == "/find"@ {
        Some(Endpoint::Find)
    } else if p == "/mouse"@ {
        Some(Endpoint::Mouse)
    } else if p == "/keydown"@ {
        Some(Endpoint::KeyDown)
    } else if p == "/keyup"@ {
        Some(Endpoint::KeyUp)
    } else if p == "/highlight"@ {
        Some(Endpoint::Highlight)
    } else if p == "/dialog"@ {
        Some(Endpoint::Dialog)
    } else if p == "/viewport"@ {
        Some(Endpoint::Viewport)
    } else if p == "/state/load"@ {
        Some(Endpoint::StateLoad)
    } else if p == "/download"@ {
        Some(Endpoint::Download)
    } else if p == "/network/route"@ {
        Some(Endpoint::NetworkRoute)
    } else if p == "/geo"@ {
        Some(Endpoint::Geo)
    } else if p == "/offline"@ {
        Some(Endpoint::Offline)
    } else if p == "/headers"@ {
        Some(Endpoint::Headers)
    } else {
        None
    }
}

/// What a `POST` request to `p` asks for: a body-taking route first parses its body; the
/// others act at once.
pub open spec fn post_route(p: Seq<char>) -> ActionView {
    match body_endpoint(p) {
        Some(e) => ActionView::ParseBody(e),
        None => if p == "/cookies/clear"@ {
            eval5(devtools("clearCookies"@, seq![]), Reply::Done)
        } else if p == "/back"@ {
            eval5("history.back()"@, Reply::Done)
        } else if p == "/forward"@ {
            eval5("history.forward()"@, Reply::Done)
        } else if p == "/reload"@ {
            eval5("location.reload()"@, Reply::Done)
        } else if p == "/state/save"@ {
            eval5(devtools("saveState"@, seq![]), Reply::Data)
        } else if p == "/record/start"@ {
            ActionView::StartRecording
        } else if p == "/record/stop"@ {
            ActionView::StopRecording
        } else if p == "/network/intercept"@ {
            eval5(devtools("networkIntercept"@, seq![]), Reply::Done)
        } else if p == "/network/reset"@ {
            eval5(devtools("networkReset"@, seq![]), Reply::Done)
        } else if p == "/trace/start"@ {
            eval5(devtools("traceStart"@, seq![]), Reply::Done)
        } else if p == "/trace/stop"@ {
            eval5(devtools("traceStop"@, seq![]), Reply::Data)
        } else {
            ActionView::Respond(error_response(404, "not found"@))
        },
    }
}

/// What a request asks for: a CORS preflight (`OPTIONS`, any path) gets `{}`; `GET` and
/// `POST` go by path; anything else is not found.
pub open spec fn route_of(req: RequestView) -> ActionView {
    if req.method == "OPTIONS"@ {
        ActionView::Respond(ok_response("{}"@))
    } else if req.method == "GET"@ {
        get_route(req.path, req.query)
    } else if req.method == "POST"@ {
        post_route(req.path)
    } else {
        ActionView::Respond(error_response(404, "not found"@))
    }
}

/// The value of the last query parameter named `key`.
pub fn query_lookup(q: &Vec<(String, String)>, key: &str) -> (r: Option<String>)
    ensures
        opt_view(r) == query_value(pairs_view(q@), key@),
{
    let ghost qv = pairs_view(q@);
    let mut i: usize = q.len();
    assert(qv.take(q@.len() as int) =~= qv);
    while i > 0
        invariant
            qv == pairs_view(q@),
            i <= q@.len(),
            query_value(qv, key@) == query_value(qv.take(i as int), key@),
        decreases i,
    {
        let k = chars_of(q[i - 1].0.as_str());
        assert(qv.take(i as int).drop_last() =~= qv.take(i - 1));
        assert(qv[i - 1] == (q@[i - 1].0@, q@[i - 1].1@));
        if chars_are(k.as_slice(), key) {
            return Some(q[i - 1].1.clone());
        }
        i = i - 1;
    }
    None
}

fn snapshot_action(q: &Vec<(String, String)>) -> (r: Action)
    ensures
        r@ == eval5(devtools("snapshot"@, seq![object(snapshot_members(pairs_view(q@)))]), Reply::Data),
{
    let ghost qv = pairs_view(q@);
    let mut members: Vec<String> = Vec::new();
    let fmt = match query_lookup(q, "format") {
        Some(f) => f,
        None => String::from_str("json"),
    };
    let mut a = concat("format:'", fmt.as_str());
    a.append("'");
    let ghost av = a@;
    members.push(a);
    let ghost m1 = texts(members@);
    assert(m1 =~= seq![av]);
    match query_lookup(q, "scope") {
        Some(sc) => {
            let b = labelled_quote("scope:", sc.as_str());
            let ghost bv = b@;
            members.push(b);
            assert(texts(members@) =~= m1 + seq![bv]);
        },
        None => {
            assert(texts(members@) =~= m1 + Seq::<Seq<char>>::empty());
        },
    }
    let ghost m2 = texts(members@);
    let depth = match query_lookup(q, "depth") {
        Some(d) => {
            let dc = chars_of(d.as_str());
            parse_unsigned_chars(dc.as_slice(), u32::MAX as u64)
        },
        None => None,
    };
    match depth {
        Some(n) => {
            let dt = decimal_text(n as u128);
            let c = concat("depth:", dt.as_str());
            let ghost cv = c@;
            members.push(c);
            assert(texts(members@) =~= m2 + seq![cv]);
        },
        None => {
            assert(texts(members@) =~= m2 + Seq::<Seq<char>>::empty());
        },
    }
    let ghost m3 = texts(members@);
    match query_lookup(q, "interactive") {
        Some(v) => {
            let vc = chars_of(v.as_str());
            let is_false = chars_are(vc.as_slice(), "false");
            let bt = bool_literal(!is_false);
            let d = concat("interactive:", bt.as_str());
            let ghost dv = d@;
            members.push(d);
            assert(texts(members@) =~= m3 + seq![dv]);
        },
        None => {
            assert(texts(members@) =~= m3 + Seq::<Seq<char>>::empty());
        },
    }
    assert(texts(members@) =~= snapshot_members(qv));
    eval_action(devtools_call1("snapshot", object_literal(&members)), Reply::Data)
}

fn get_action(req: &HttpRequest, p: &[char]) -> (r: Action)
    requires
        p@ == req.path@,
    ensures
        r@ == get_route(req.path@, pairs_view(req.query@)),
{
    if chars_are(p, "/health") {
        Action::Respond(ok_json("{\"ok\":true}"))
    } else if chars_are(p, "/screenshot") {
        let path = query_lookup(&req.query, "path");
        let full = match query_lookup(&req.query, "full") {
            Some(v) => {
                let vc = chars_of(v.as_str());
                chars_are(vc.as_slice(), "true")
            },
            None => false,
        };
        Action::Screenshot { path, full }
    } else if chars_are(p, "/snapshot") {
        snapshot_action(&req.query)
    } else if chars_are(p, "/console") {
        eval_action(devtools_call0("getConsole"), Reply::Data)
    } else if chars_are(p, "/errors") {
        eval_action(devtools_call0("getErrors"), Reply::Data)
    } else if chars_are(p, "/cookies") {
        eval_action(devtools_call0("getCookies"), Reply::Data)
    } else if chars_are(p, "/dialogs") {
        eval_action(devtools_call0("getDialogs"), Reply::Data)
    } else if starts_with_text(p, "/get/") {
        handle_get_route(p)
    } else if starts_with_text(p, "/is/") {
        handle_is_route(p)
    } else if starts_with_text(p, "/storage/") {
        handle_storage_get(p)
    } else if chars_are(p, "/network/requests") {
        eval_action(devtools_call0("networkRequests"), Reply::Data)
    } else {
        Action::Respond(err_json(404, "not found"))
    }
}

/// The body-taking route at a path, if any.
pub fn endpoint_at(p: &[char]) -> (r: Option<Endpoint>)
    ensures
        r == body_endpoint(p@),
{
    if chars_are(p, "/click") {
        Some(Endpoint::Click)
    } else if chars_are(p, "/dblclick") {
        Some(Endpoint::DblClick)
    } else if chars_are(p, "/hover") {
        Some(Endpoint::Hover)
    } else if chars_are(p, "/focus") {
        Some(Endpoint::Focus)
    } else if chars_are(p, "/check") {
        Some(Endpoint::Check)
    } else if chars_are(p, "/uncheck") {
        Some(Endpoint::Uncheck)
    } else if chars_are(p, "/scrollintoview") {
        Some(Endpoint::ScrollIntoView)
    } else if chars_are(p, "/fill") {
        Some(Endpoint::Fill)
    } else if chars_are(p, "/type") {
        Some(Endpoint::Type)
    } else if chars_are(p, "/press") {
        Some(Endpoint::Press)
    } else if chars_are(p, "/select") {
        Some(Endpoint::Select)
    } else if chars_are(p, "/scroll") {
        Some(Endpoint::Scroll)
    } else if chars_are(p, "/drag") {
        Some(Endpoint::Drag)
    } else if chars_are(p, "/upload") {
        Some(Endpoint::Upload)
    } else if chars_are(p, "/wait") {
        Some(Endpoint::Wait)
    } else if chars_are(p, "/eval") {
        Some(Endpoint::Eval)
    } else if chars_are(p, "/cookies/set") {
        Some(Endpoint::CookieSet)
    } else if chars_are(p, "/storage/set") {
        Some(Endpoint::StorageSet)
    } else if chars_are(p, "/storage/clear") {
        Some(Endpoint::StorageClear)
    } else if chars_are(p, "/find") {
        Some(Endpoint::Find)
    } else if chars_are(p, "/mouse") {
        Some(Endpoint::Mouse)
    } else if chars_are(p, "/keydown") {
        Some(Endpoint::KeyDown)
    } else if chars_are(p, "/keyup") {
        Some(Endpoint::KeyUp)
    } else if chars_are(p, "/highlight") {
        Some(Endpoint::Highlight)
    } else if chars_are(p, "/dialog") {
        Some(Endpoint::Dialog)
    } else if chars_are(p, "/viewport") {
        Some(Endpoint::Viewport)
    } else if chars_are(p, "/state/load") {
        Some(Endpoint::StateLoad)
    } else if chars_are(p, "/download") {
        Some(Endpoint::Download)
    } else if chars_are(p, "/network/route") {
        Some(Endpoint::NetworkRoute)
    } else if chars_are(p, "/geo") {
        Some(Endpoint::Geo)
    } else if chars_are(p, "/offline") {
        Some(Endpoint::Offline)
    } else if chars_are(p, "/headers") {
        Some(Endpoint::Headers)
    } else {
        None
    }
}

fn post_action(p: &[char]) -> (r: Action)
    ensures
        r@ == post_route(p@),
{
    match endpoint_at(p) {
        Some(e) => Action::ParseBody(e),
        None => if chars_are(p, "/cookies/clear") {
            eval_action(devtools_call0("clearCookies"), Reply::Done)
        } else if chars_are(p, "/back") {
            eval_action(String::from_str("history.back()"), Reply::Done)
        } else if chars_are(p, "/forward") {
            eval_action(String::from_str("history.forward()"), Reply::Done)
        } else if chars_are(p, "/reload") {
            eval_action(String::from_str("location.reload()"), Reply::Done)
        } else if chars_are(p, "/state/save") {
            eval_action(devtools_call0("saveState"), Reply::Data)
        } else if chars_are(p, "/record/start") {
            Action::StartRecording
        } else if chars_are(p, "/record/stop") {
            Action::StopRecording
        } else if chars_are(p, "/network/intercept") {
            eval_action(devtools_call0("networkIntercept"), Reply::Done)
        } else if chars_are(p, "/network/reset") {
            eval_action(devtools_call0("networkReset"), Reply::Done)
        } else if chars_are(p, "/trace/start") {
            eval_action(devtools_call0("traceStart"), Reply::Done)
        } else if chars_are(p, "/trace/stop") {
            eval_action(devtools_call0("traceStop"), Reply::Data)
        } else {
            Action::Respond(err_json(404, "not found"))
        },
    }
}

/// Decides what a request asks for (see `route_of`).
pub fn route(req: &HttpRequest) -> (r: Action)
    ensures
        r@ == route_of(req@),
{
    let m = chars_of(req.method.as_str());
    let p = chars_of(req.path.as_str());
    if chars_are(m.as_slice(), "OPTIONS") {
        Action::Respond(ok_json("{}"))
    } else if chars_are(m.as_slice(), "GET") {
        get_action(req, p.as_slice())
    } else if chars_are(m.as_slice(), "POST") {
        post_action(p.as_slice())
    } else {
        Action::Respond(err_json(404, "not found"))
    }
}


/// A CORS preflight is answered `200` with `{}` whatever its path, query and body.
pub proof fn lemma_preflight_answered(req: RequestView)
    requires
        req.method == "OPTIONS"@,
    ensures
        route_of(req) == ActionView::Respond(ok_response("{}"@)),
{
}

/// A request with a method other than `GET`, `POST` and `OPTIONS` is not found.
pub proof fn lemma_other_methods_not_found(req: RequestView)
    requires
        req.method != "OPTIONS"@,
        req.method != "GET"@,
        req.method != "POST"@,
    ensures
        route_of(req) == ActionView::Respond(error_response(404, "not found"@)),
{
}


/// An answer of the bridge's kind: `200 OK` with some body, or `400`, `404` or `500` with
/// the error body of some message.
pub open spec fn bridge_answer(b: Seq<u8>) -> bool {
    ||| exists|body: Seq<char>| b == #[trigger] ok_response(body)
    ||| exists|status: nat, msg: Seq<char>|
        (status == 400 || status == 404 || status == 500) && b == #[trigger] error_response(status, msg)
}

#[verifier::spinoff_prover]
proof fn lemma_segment_routes_answer(p: Seq<char>)
    ensures
        getter_route(p) matches ActionView::Respond(b) ==> b == error_response(404, "unknown get route"@),
        check_route(p) matches ActionView::Respond(b) ==> b == error_response(404, "unknown is route"@),
        storage_route(p) matches ActionView::Respond(b) ==> b == error_response(
            404,
            "unknown storage route"@,
        ),
{
}

/// Every answer the routes give at once, and every answer to an evaluation, is `200 OK`
/// with a body or an error status (`400`, `404` or `500`) with an error body.
#[verifier::spinoff_prover]
pub proof fn lemma_answers_are_ok_or_errors(req: RequestView, c: Command, reply: Reply, result: Result<Seq<char>, Seq<char>>)
    ensures
        route_of(req) matches ActionView::Respond(b) ==> bridge_answer(b),
        command_action(c) matches ActionView::Respond(b) ==> bridge_answer(b),
        bridge_answer(
            match result {
                Ok(d) => ok_response(crate::replies::reply_body(reply, d)),
                Err(e) => error_response(500, e),
            },
        ),
{
    lemma_segment_routes_answer(req.path);
    if route_of(req) is Respond {
        let b = route_of(req)->Respond_0;
        if req.method == "OPTIONS"@ {
            assert(b == ok_response("{}"@));
        } else if req.method == "GET"@ {
            if req.path == "/health"@ {
                assert(b == ok_response(ok_true()));
            } else if has_prefix(req.path, "/get/"@) {
                assert(b == error_response(404, "unknown get route"@));
            } else if has_prefix(req.path, "/is/"@) {
                assert(b == error_response(404, "unknown is route"@));
            } else if has_prefix(req.path, "/storage/"@) {
                assert(b == error_response(404, "unknown storage route"@));
            } else {
                assert(b == error_response(404, "not found"@));
            }
        } else {
            assert(b == error_response(404, "not found"@));
        }
    }
    if command_action(c) is Respond {
        let b = command_action(c)->Respond_0;
        match c {
            Command::OnRef { .. } => {
                assert(b == error_response(400, "missing 'ref' field"@));
            },
            Command::Dialog { action, .. } => {
                assert(b == error_response(400, "unknown dialog action: "@ + action@));
            },
            _ => {},
        }
    }
}

/// The commands whose request strings are the page method's arguments, one each.
pub open spec fn passes_strings(c: Command) -> bool {
    match c {
        Command::OnRef { ref_id, .. } => ref_id is Some,
        Command::Fill { .. } | Command::Type { .. } | Command::Press { .. } | Command::Drag { .. }
        | Command::Upload { .. } | Command::CookieSet { .. } | Command::StorageSet { .. }
        | Command::StorageClear { .. } | Command::KeyDown { .. } | Command::KeyUp { .. }
        | Command::Highlight { .. } => true,
        _ => false,
    }
}

/// The page method such a command calls: fixed by the kind of command (and, for the
/// element actions, the route), never by the strings it carries.
pub open spec fn command_method(c: Command) -> Seq<char> {
    match c {
        Command::OnRef { endpoint, .. } => ref_method(endpoint),
        Command::Fill { .. } => "fill"@,
        Command::Type { .. } => "type"@,
        Command::Press { .. } => "press"@,
        Command::Drag { .. } => "drag"@,
        Command::Upload { .. } => "upload"@,
        Command::CookieSet { .. } => "setCookie"@,
        Command::StorageSet { .. } => "setStorage"@,
        Command::StorageClear { .. } => "clearStorage"@,
        Command::KeyDown { .. } => "keydown"@,
        Command::KeyUp { .. } => "keyup"@,
        Command::Highlight { .. } => "highlight"@,
        _ => seq![],
    }
}

/// The request strings such a command carries, in the order the page method takes them.
pub open spec fn command_strings(c: Command) -> Seq<Seq<char>> {
    match c {
        Command::OnRef { ref_id, .. } => match ref_id {
            Some(r) => seq![r@],
            None => seq![],
        },
        Command::Fill { ref_id, text } => seq![ref_id@, text@],
        Command::Type { ref_id, text } => seq![ref_id@, text@],
        Command::Press { key } => seq![key@],
        Command::Drag { from, to } => seq![from@, to@],
        Command::Upload { ref_id, data_url } => seq![ref_id@, data_url@],
        Command::CookieSet { name, value } => seq![name@, value@],
        Command::StorageSet { storage_type, key, value } => seq![storage_type@, key@, value@],
        Command::StorageClear { storage_type } => seq![storage_type@],
        Command::KeyDown { key } => seq![key@],
        Command::KeyUp { key } => seq![key@],
        Command::Highlight { ref_id } => seq![ref_id@],
        _ => seq![],
    }
}

/// Each string as its JSON string literal.
pub open spec fn quoted_args(ss: Seq<Seq<char>>) -> Seq<Seq<char>> {
    ss.map_values(|s: Seq<char>| json_quoted(s))
}

/// Request strings reach the page only as JSON string literals: a command that passes its
/// strings to a page method calls the method its kind fixes, with exactly one argument per
/// string, each the JSON string literal of that string. (Not so for `/eval`, whose code
/// runs as given, or `/dialog`, whose action picks the method; `/select` passes its values
/// as one JSON array of such literals.)
pub proof fn lemma_request_strings_quoted(c: Command)
    requires
        passes_strings(c),
    ensures
        command_action(c) == eval5(devtools(command_method(c), quoted_args(command_strings(c))), Reply::Done),
{
    match c {
        Command::OnRef { .. } => lemma_quoted_on_ref(c),
        Command::Fill { .. } => lemma_quoted_fill(c),
        Command::Type { .. } => lemma_quoted_type(c),
        Command::Press { .. } => lemma_quoted_press(c),
        Command::Drag { .. } => lemma_quoted_drag(c),
        Command::Upload { .. } => lemma_quoted_upload(c),
        Command::CookieSet { .. } => lemma_quoted_cookie(c),
        Command::StorageSet { .. } => lemma_quoted_storage_set(c),
        Command::StorageClear { .. } => lemma_quoted_storage_clear(c),
        Command::KeyDown { .. } => lemma_quoted_keydown(c),
        Command::KeyUp { .. } => lemma_quoted_keyup(c),
        Command::Highlight { .. } => lemma_quoted_highlight(c),
        _ => {},
    }
}

#[verifier::spinoff_prover]
proof fn lemma_quoted_on_ref(c: Command)
    requires
        passes_strings(c),
        c is OnRef,
    ensures
        command_action(c) == eval5(devtools(command_method(c), quoted_args(command_strings(c))), Reply::Done),
{
    match c {
        Command::OnRef { endpoint, ref_id } => {
            let q = quoted_args(command_strings(c));
            assert(command_strings(c) == seq![ref_id->0@]);
            assert(command_method(c) == ref_method(endpoint));
            assert(q =~= seq![json_quoted(ref_id->0@)]);
            assert(command_action(c) == eval5(devtools(ref_method(endpoint), seq![json_quoted(ref_id->0@)]), Reply::Done));
        },
        _ => {},
    }
}

#[verifier::spinoff_prover]
proof fn lemma_quoted_fill(c: Command)
    requires
        passes_strings(c),
        c is Fill,
    ensures
        command_action(c) == eval5(devtools(command_method(c), quoted_args(command_strings(c))), Reply::Done),
{
    match c {
        Command::Fill { ref_id, text } => {
            let q = quoted_args(command_strings(c));
            assert(command_strings(c) == seq![ref_id@, text@]);
            assert(command_method(c) == "fill"@);
            assert(q =~= seq![json_quoted(ref_id@), json_quoted(text@)]);
            assert(command_action(c) == eval5(devtools("fill"@, seq![json_quoted(ref_id@), json_quoted(text@)]), Reply::Done));
        },
        _ => {},
    }
}

#[verifier::spinoff_prover]
proof fn lemma_quoted_type(c: Command)
    requires
        passes_strings(c),
        c is Type,
    ensures
        command_action(c) == eval5(devtools(command_method(c), quoted_args(command_strings(c))), Reply::Done),
{
    match c {
        Command::Type { ref_id, text } => {
            let q = quoted_args(command_strings(c));
            assert(command_strings(c) == seq![ref_id@, text@]);
            assert(command_method(c) == "type"@);
            assert(q =~= seq![json_quoted(ref_id@), json_quoted(text@)]);
            assert(command_action(c) == eval5(devtools("type"@, seq![json_quoted(ref_id@), json_quoted(text@)]), Reply::Done));
        },
        _ => {},
    }
}

#[verifier::spinoff_prover]
proof fn lemma_quoted_press(c: Command)
    requires
        passes_strings(c),
        c is Press,
    ensures
        command_action(c) == eval5(devtools(command_method(c), quoted_args(command_strings(c))), Reply::Done),
{
    match c {
        Command::Press { key } => {
            let q = quoted_args(command_strings(c));
            assert(command_strings(c) == seq![key@]);
            assert(command_method(c) == "press"@);
            assert(q =~= seq![json_quoted(key@)]);
            assert(command_action(c) == eval5(devtools("press"@, seq![json_quoted(key@)]), Reply::Done));
        },
        _ => {},
    }
}

#[verifier::spinoff_prover]
proof fn lemma_quoted_drag(c: Command)
    requires
        passes_strings(c),
        c is Drag,
    ensures
        command_action(c) == eval5(devtools(command_method(c), quoted_args(command_strings(c))), Reply::Done),
{
    match c {
        Command::Drag { from, to } => {
            let q = quoted_args(command_strings(c));
            assert(command_strings(c) == seq![from@, to@]);
            assert(command_method(c) == "drag"@);
            assert(q =~= seq![json_quoted(from@), json_quoted(to@)]);
            assert(command_action(c) == eval5(devtools("drag"@, seq![json_quoted(from@), json_quoted(to@)]), Reply::Done));
        },
        _ => {},
    }
}

#[verifier::spinoff_prover]
proof fn lemma_quoted_upload(c: Command)
    requires
        passes_strings(c),
        c is Upload,
    ensures
        command_action(c) == eval5(devtools(command_method(c), quoted_args(command_strings(c))), Reply::Done),
{
    match c {
        Command::Upload { ref_id, data_url } => {
            let q = quoted_args(command_strings(c));
            assert(command_strings(c) == seq![ref_id@, data_url@]);
            assert(command_method(c) == "upload"@);
            assert(q =~= seq![json_quoted(ref_id@), json_quoted(data_url@)]);
            assert(command_action(c) == eval5(devtools("upload"@, seq![json_quoted(ref_id@), json_quoted(data_url@)]), Reply::Done));
        },
        _ => {},
    }
}

#[verifier::spinoff_prover]
proof fn lemma_quoted_cookie(c: Command)
    requires
        passes_strings(c),
        c is CookieSet,
    ensures
        command_action(c) == eval5(devtools(command_method(c), quoted_args(command_strings(c))), Reply::Done),
{
    match c {
        Command::CookieSet { name, value } => {
            let q = quoted_args(command_strings(c));
            assert(command_strings(c) == seq![name@, value@]);
            assert(command_method(c) == "setCookie"@);
            assert(q =~= seq![json_quoted(name@), json_quoted(value@)]);
            assert(command_action(c) == eval5(devtools("setCookie"@, seq![json_quoted(name@), json_quoted(value@)]), Reply::Done));
        },
        _ => {},
    }
}

#[verifier::spinoff_prover]
proof fn lemma_quoted_storage_set(c: Command)
    requires
        passes_strings(c),
        c is StorageSet,
    ensures
        command_action(c) == eval5(devtools(command_method(c), quoted_args(command_strings(c))), Reply::Done),
{
    match c {
        Command::StorageSet { storage_type, key, value } => {
            let q = quoted_args(command_strings(c));
            assert(command_strings(c) == seq![storage_type@, key@, value@]);
            assert(command_method(c) == "setStorage"@);
            assert(q =~= seq![json_quoted(storage_type@), json_quoted(key@), json_quoted(value@)]);
            assert(command_action(c) == eval5(devtools("setStorage"@, seq![json_quoted(storage_type@), json_quoted(key@), json_quoted(value@)]), Reply::Done));
        },
        _ => {},
    }
}

#[verifier::spinoff_prover]
proof fn lemma_quoted_storage_clear(c: Command)
    requires
        passes_strings(c),
        c is StorageClear,
    ensures
        command_action(c) == eval5(devtools(command_method(c), quoted_args(command_strings(c))), Reply::Done),
{
    match c {
        Command::StorageClear { storage_type } => {
            let q = quoted_args(command_strings(c));
            assert(command_strings(c) == seq![storage_type@]);
            assert(command_method(c) == "clearStorage"@);
            assert(q =~= seq![json_quoted(storage_type@)]);
            assert(command_action(c) == eval5(devtools("clearStorage"@, seq![json_quoted(storage_type@)]), Reply::Done));
        },
        _ => {},
    }
}

#[verifier::spinoff_prover]
proof fn lemma_quoted_keydown(c: Command)
    requires
        passes_strings(c),
        c is KeyDown,
    ensures
        command_action(c) == eval5(devtools(command_method(c), quoted_args(command_strings(c))), Reply::Done),
{
    match c {
        Command::KeyDown { key } => {
            let q = quoted_args(command_strings(c));
            assert(command_strings(c) == seq![key@]);
            assert(command_method(c) == "keydown"@);
            assert(q =~= seq![json_quoted(key@)]);
            assert(command_action(c) == eval5(devtools("keydown"@, seq![json_quoted(key@)]), Reply::Done));
        },
        _ => {},
    }
}

#[verifier::spinoff_prover]
proof fn lemma_quoted_keyup(c: Command)
    requires
        passes_strings(c),
        c is KeyUp,
    ensures
        command_action(c) == eval5(devtools(command_method(c), quoted_args(command_strings(c))), Reply::Done),
{
    match c {
        Command::KeyUp { key } => {
            let q = quoted_args(command_strings(c));
            assert(command_strings(c) == seq![key@]);
            assert(command_method(c) == "keyup"@);
            assert(q =~= seq![json_quoted(key@)]);
            assert(command_action(c) == eval5(devtools("keyup"@, seq![json_quoted(key@)]), Reply::Done));
        },
        _ => {},
    }
}

#[verifier::spinoff_prover]
proof fn lemma_quoted_highlight(c: Command)
    requires
        passes_strings(c),
        c is Highlight,
    ensures
        command_action(c) == eval5(devtools(command_method(c), quoted_args(command_strings(c))), Reply::Done),
{
    match c {
        Command::Highlight { ref_id } => {
            let q = quoted_args(command_strings(c));
            assert(command_strings(c) == seq![ref_id@]);
            assert(command_method(c) == "highlight"@);
            assert(q =~= seq![json_quoted(ref_id@)]);
            assert(command_action(c) == eval5(devtools("highlight"@, seq![json_quoted(ref_id@)]), Reply::Done));
        },
        _ => {},
    }
}

/// The page method a `/get/<name>/...` or `/is/<name>/...` route calls for its `name`.
pub open spec fn segment_method(name: Seq<char>) -> Seq<char> {
    if name == "text"@ {
        "getText"@
    } else if name == "html"@ {
        "getHtml"@
    } else if name == "value"@ {
        "getValue"@
    } else if name == "attr"@ {
        "getAttr"@
    } else if name == "styles"@ {
        "getStyles"@
    } else if name == "box"@ {
        "getBox"@
    } else if name == "count"@ {
        "getCount"@
    } else if name == "visible"@ {
        "isVisible"@
    } else if name == "enabled"@ {
        "isEnabled"@
    } else {
        "isChecked"@
    }
}

/// The values a `/get/...` route's path pieces carry: the pieces after the name (the
/// selector of `count` percent-decoded).
pub open spec fn getter_values(s: Seq<Seq<char>>) -> Seq<Seq<char>> {
    if s[0] == "count"@ {
        seq![url_decoded_or_empty(s[1])]
    } else {
        s.skip(1)
    }
}

#[verifier::spinoff_prover]
proof fn lemma_segment_names()
    ensures
        "title"@.len() == 5 && "title"@[0] == 't',
        "url"@.len() == 3 && "url"@[0] == 'u',
        "text"@.len() == 4 && "text"@[0] == 't',
        "html"@.len() == 4 && "html"@[0] == 'h',
        "value"@.len() == 5 && "value"@[0] == 'v',
        "attr"@.len() == 4 && "attr"@[0] == 'a',
        "styles"@.len() == 6 && "styles"@[0] == 's',
        "box"@.len() == 3 && "box"@[0] == 'b',
        "count"@.len() == 5 && "count"@[0] == 'c',
        "visible"@.len() == 7 && "visible"@[0] == 'v',
        "enabled"@.len() == 7 && "enabled"@[0] == 'e',
        "checked"@.len() == 7 && "checked"@[0] == 'c',
{
    reveal_strlit("title");
    reveal_strlit("url");
    reveal_strlit("text");
    reveal_strlit("html");
    reveal_strlit("value");
    reveal_strlit("attr");
    reveal_strlit("styles");
    reveal_strlit("box");
    reveal_strlit("count");
    reveal_strlit("visible");
    reveal_strlit("enabled");
    reveal_strlit("checked");
}

/// Path pieces reach the page only as JSON string literals: a `/get/...` or `/is/...` route
/// that reads an element calls the method its name fixes, with one JSON string literal per
/// value piece of the path.
#[verifier::spinoff_prover]
pub proof fn lemma_path_pieces_quoted(p: Seq<char>)
    ensures
        ({
            let s = splitn_on(strip_all_prefix(p, "/get/"@), '/', 3);
            s.len() >= 2 && getter_route(p) is Eval ==> getter_route(p) == eval5(
                devtools(segment_method(s[0]), quoted_args(getter_values(s))),
                Reply::Data,
            )
        }),
        ({
            let s = splitn_on(strip_all_prefix(p, "/is/"@), '/', 2);
            check_route(p) is Eval ==> check_route(p) == eval5(
                devtools(segment_method(s[0]), quoted_args(s.skip(1))),
                Reply::Data,
            )
        }),
{
    lemma_segment_names();
    let s = splitn_on(strip_all_prefix(p, "/get/"@), '/', 3);
    if s.len() == 2 {
        assert(quoted_args(s.skip(1)) =~= seq![json_quoted(s[1])]);
        assert(quoted_args(seq![url_decoded_or_empty(s[1])]) =~= seq![json_quoted(url_decoded_or_empty(s[1]))]);
        if s[0] == "text"@ {
            assert(segment_method(s[0]) == "getText"@);
        } else if s[0] == "html"@ {
            assert(segment_method(s[0]) == "getHtml"@);
        } else if s[0] == "value"@ {
            assert(segment_method(s[0]) == "getValue"@);
        } else if s[0] == "styles"@ {
            assert(segment_method(s[0]) == "getStyles"@);
        } else if s[0] == "box"@ {
            assert(segment_method(s[0]) == "getBox"@);
        } else if s[0] == "count"@ {
            assert(segment_method(s[0]) == "getCount"@);
            assert(getter_values(s) == seq![url_decoded_or_empty(s[1])]);
        }
    } else if s.len() == 3 {
        assert(quoted_args(s.skip(1)) =~= seq![json_quoted(s[1]), json_quoted(s[2])]);
        if s[0] == "attr"@ {
            assert(segment_method(s[0]) == "getAttr"@);
            assert(getter_values(s) == s.skip(1));
        }
    }
    let t = splitn_on(strip_all_prefix(p, "/is/"@), '/', 2);
    if t.len() == 2 {
        assert(quoted_args(t.skip(1)) =~= seq![json_quoted(t[1])]);
        if t[0] == "visible"@ {
            assert(segment_method(t[0]) == "isVisible"@);
        } else if t[0] == "enabled"@ {
            assert(segment_method(t[0]) == "isEnabled"@);
        } else if t[0] == "checked"@ {
            assert(segment_method(t[0]) == "isChecked"@);
        }
    }
}


/// The routes that act on one element, by the `ref` of their body.
pub open spec fn is_element_endpoint(e: Endpoint) -> bool {
    ||| e is Click
    ||| e is DblClick
    ||| e is Hover
    ||| e is Focus
    ||| e is Check
    ||| e is Uncheck
    ||| e is ScrollIntoView
}

/// An element route calls the page method named by its path without the leading `/`
/// (`/check` calls `check`, `/hover` calls `hover`), except `/scrollintoview`, which calls
/// `scrollIntoView`.
pub proof fn lemma_element_routes_call_their_name(p: Seq<char>, e: Endpoint)
    requires
        body_endpoint(p) == Some(e),
        is_element_endpoint(e),
    ensures
        e is ScrollIntoView ==> ref_method(e) == "scrollIntoView"@,
        !(e is ScrollIntoView) ==> ref_method(e) == p.skip(1),
{
    if p == "/click"@ {
        reveal_strlit("/click");
        reveal_strlit("click");
        assert(p.skip(1) =~= "click"@);
    }
    if p == "/dblclick"@ {
        reveal_strlit("/dblclick");
        reveal_strlit("dblclick");
        assert(p.skip(1) =~= "dblclick"@);
    }
    if p == "/hover"@ {
        reveal_strlit("/hover");
        reveal_strlit("hover");
        assert(p.skip(1) =~= "hover"@);
    }
    if p == "/focus"@ {
        reveal_strlit("/focus");
        reveal_strlit("focus");
        assert(p.skip(1) =~= "focus"@);
    }
    if p == "/check"@ {
        reveal_strlit("/check");
        reveal_strlit("check");
        assert(p.skip(1) =~= "check"@);
    }
    if p == "/uncheck"@ {
        reveal_strlit("/uncheck");
        reveal_strlit("uncheck");
        assert(p.skip(1) =~= "uncheck"@);
    }
}

proof fn lemma_storage_names()
    ensures
        "local"@.len() == 5 && "local"@[0] == 'l',
        "session"@.len() == 7 && "session"@[0] == 's',
        json_quoted("local"@) == "\"local\""@,
        json_quoted("session"@) == "\"session\""@,
{
    reveal_strlit("local");
    reveal_strlit("session");
    reveal_strlit("\"local\"");
    reveal_strlit("\"session\"");
    crate::json::lemma_plain_text_quoted_as_is("local"@);
    crate::json::lemma_plain_text_quoted_as_is("session"@);
    assert(seq!['"'] + "local"@ + seq!['"'] =~= "\"local\""@);
    assert(seq!['"'] + "session"@ + seq!['"'] =~= "\"session\""@);
}

/// `GET /storage/<type>` reads the whole local or session storage, and
/// `GET /storage/<type>/<key>` reads one key, which reaches the page percent-decoded, for
/// both storages alike; any other storage is not found.
#[verifier::spinoff_prover]
pub proof fn lemma_storage_routes(p: Seq<char>)
    ensures
        ({
            let s = splitn_on(strip_all_prefix(p, "/storage/"@), '/', 2);
            let known = s.len() >= 1 && (s[0] == "local"@ || s[0] == "session"@);
            &&& known && s.len() == 1 ==> storage_route(p) == eval5(
                devtools("getStorage"@, seq![json_quoted(s[0])]),
                Reply::Data,
            )
            &&& known && s.len() == 2 ==> storage_route(p) == eval5(
                devtools("getStorageKey"@, seq![json_quoted(s[0]), json_quoted(url_decoded_or_empty(s[1]))]),
                Reply::Data,
            )
            &&& !known ==> storage_route(p) == ActionView::Respond(
                error_response(404, "unknown storage route"@),
            )
        }),
{
    lemma_storage_names();
}

/// `GET /is/<check>/<ref>` asks the page whether the element is visible, enabled or
/// checked, with the `ref` as a JSON string; any other check is not found.
#[verifier::spinoff_prover]
pub proof fn lemma_check_routes(p: Seq<char>)
    ensures
        ({
            let t = splitn_on(strip_all_prefix(p, "/is/"@), '/', 2);
            &&& t.len() == 2 && t[0] == "visible"@ ==> check_route(p) == eval5(
                devtools("isVisible"@, seq![json_quoted(t[1])]),
                Reply::Data,
            )
            &&& t.len() == 2 && t[0] == "enabled"@ ==> check_route(p) == eval5(
                devtools("isEnabled"@, seq![json_quoted(t[1])]),
                Reply::Data,
            )
            &&& t.len() == 2 && t[0] == "checked"@ ==> check_route(p) == eval5(
                devtools("isChecked"@, seq![json_quoted(t[1])]),
                Reply::Data,
            )
            &&& !(t.len() == 2 && (t[0] == "visible"@ || t[0] == "enabled"@ || t[0] == "checked"@))
                ==> check_route(p) == ActionView::Respond(error_response(404, "unknown is route"@))
        }),
{
    lemma_segment_names();
}

/// `GET /get/...` reads the title, the URL, or a property of the element `ref` (text,
/// HTML, value, styles, box, an attribute), or counts the elements matching a
/// percent-decoded selector; every piece reaches the page as a JSON string; any other read
/// is not found.
#[verifier::spinoff_prover]
pub proof fn lemma_getter_routes(p: Seq<char>)
    ensures
        ({
            let s = splitn_on(strip_all_prefix(p, "/get/"@), '/', 3);
            &&& s.len() == 1 && s[0] == "title"@ ==> getter_route(p) == eval5("document.title"@, Reply::Data)
            &&& s.len() == 1 && s[0] == "url"@ ==> getter_route(p) == eval5("location.href"@, Reply::Data)
            &&& s.len() == 2 && s[0] == "text"@ ==> getter_route(p) == eval5(
                devtools("getText"@, seq![json_quoted(s[1])]),
                Reply::Data,
            )
            &&& s.len() == 2 && s[0] == "html"@ ==> getter_route(p) == eval5(
                devtools("getHtml"@, seq![json_quoted(s[1])]),
                Reply::Data,
            )
            &&& s.len() == 2 && s[0] == "value"@ ==> getter_route(p) == eval5(
                devtools("getValue"@, seq![json_quoted(s[1])]),
                Reply::Data,
            )
            &&& s.len() == 2 && s[0] == "styles"@ ==> getter_route(p) == eval5(
                devtools("getStyles"@, seq![json_quoted(s[1])]),
                Reply::Data,
            )
            &&& s.len() == 2 && s[0] == "box"@ ==> getter_route(p) == eval5(
                devtools("getBox"@, seq![json_quoted(s[1])]),
                Reply::Data,
            )
            &&& s.len() == 3 && s[0] == "attr"@ ==> getter_route(p) == eval5(
                devtools("getAttr"@, seq![json_quoted(s[1]), json_quoted(s[2])]),
                Reply::Data,
            )
            &&& s.len() == 2 && s[0] == "count"@ ==> getter_route(p) == eval5(
                devtools("getCount"@, seq![json_quoted(url_decoded_or_empty(s[1]))]),
                Reply::Data,
            )
            &&& !((s.len() == 1 && (s[0] == "title"@ || s[0] == "url"@)) || (s.len() == 2 && (s[0]
                == "text"@ || s[0] == "html"@ || s[0] == "value"@ || s[0] == "styles"@ || s[0]
                == "box"@ || s[0] == "count"@)) || (s.len() == 3 && s[0] == "attr"@))
                ==> getter_route(p) == ActionView::Respond(error_response(404, "unknown get route"@))
        }),
{
    lemma_segment_names();
}

proof fn lemma_prefix_names()
    ensures
        "/get/"@.len() == 5 && "/get/"@[1] == 'g',
        "/is/"@.len() == 4 && "/is/"@[1] == 'i',
        "/storage/"@.len() == 9 && "/storage/"@[1] == 's' && "/storage/"@[2] == 't',
        "/health"@[1] == 'h',
        "/screenshot"@[1] == 's' && "/screenshot"@[2] == 'c',
        "/snapshot"@[1] == 's' && "/snapshot"@[2] == 'n',
        "/console"@[1] == 'c',
        "/errors"@[1] == 'e',
        "/cookies"@[1] == 'c',
        "/dialogs"@[1] == 'd',
        "/health"@.len() > 2,
        "/screenshot"@.len() > 3,
        "/snapshot"@.len() > 3,
        "/console"@.len() > 2,
        "/errors"@.len() > 2,
        "/cookies"@.len() > 2,
        "/dialogs"@.len() > 2,
{
    reveal_strlit("/get/");
    reveal_strlit("/is/");
    reveal_strlit("/storage/");
    reveal_strlit("/health");
    reveal_strlit("/screenshot");
    reveal_strlit("/snapshot");
    reveal_strlit("/console");
    reveal_strlit("/errors");
    reveal_strlit("/cookies");
    reveal_strlit("/dialogs");
}

proof fn lemma_prefix_char(s: Seq<char>, pre: Seq<char>, i: int)
    requires
        has_prefix(s, pre),
        0 <= i < pre.len(),
    ensures
        s[i] == pre[i],
{
    assert(s.take(pre.len() as int)[i] == s[i]);
}

proof fn lemma_not_a_fixed_get_path(p: Seq<char>)
    requires
        p.len() >= 4,
        p[1] == 'g' || p[1] == 'i' || (p[1] == 's' && p[2] == 't'),
    ensures
        p != "/health"@ && p != "/screenshot"@ && p != "/snapshot"@ && p != "/console"@,
        p != "/errors"@ && p != "/cookies"@ && p != "/dialogs"@,
{
    lemma_prefix_names();
}

proof fn lemma_prefix_families(p: Seq<char>)
    ensures
        has_prefix(p, "/get/"@) ==> p.len() >= 4 && p[1] == 'g',
        has_prefix(p, "/is/"@) ==> p.len() >= 4 && p[1] == 'i',
        has_prefix(p, "/storage/"@) ==> p.len() >= 4 && p[1] == 's' && p[2] == 't',
{
    lemma_prefix_names();
    if has_prefix(p, "/get/"@) {
        lemma_prefix_char(p, "/get/"@, 1);
    }
    if has_prefix(p, "/is/"@) {
        lemma_prefix_char(p, "/is/"@, 1);
    }
    if has_prefix(p, "/storage/"@) {
        lemma_prefix_char(p, "/storage/"@, 1);
        lemma_prefix_char(p, "/storage/"@, 2);
    }
}

proof fn lemma_get_route_families(p: Seq<char>, q: Seq<(Seq<char>, Seq<char>)>)
    ensures
        has_prefix(p, "/get/"@) ==> get_route(p, q) == getter_route(p),
        has_prefix(p, "/is/"@) ==> get_route(p, q) == check_route(p),
        has_prefix(p, "/storage/"@) ==> get_route(p, q) == storage_route(p),
{
    lemma_prefix_families(p);
    if has_prefix(p, "/get/"@) || has_prefix(p, "/is/"@) || has_prefix(p, "/storage/"@) {
        lemma_not_a_fixed_get_path(p);
    }
}

/// A `GET` whose path starts with `/get/`, `/is/` or `/storage/` is decided by that family
/// of routes, whatever follows the prefix and whatever the query.
#[verifier::spinoff_prover]
pub proof fn lemma_segment_families(req: RequestView)
    requires
        req.method == "GET"@,
    ensures
        has_prefix(req.path, "/get/"@) ==> route_of(req) == getter_route(req.path),
        has_prefix(req.path, "/is/"@) ==> route_of(req) == check_route(req.path),
        has_prefix(req.path, "/storage/"@) ==> route_of(req) == storage_route(req.path),
{
    lemma_get_dispatch(req);
    lemma_get_route_families(req.path, req.query);
}

proof fn lemma_get_dispatch(req: RequestView)
    requires
        req.method == "GET"@,
    ensures
        route_of(req) == get_route(req.path, req.query),
{
    reveal_strlit("GET");
    reveal_strlit("OPTIONS");
    assert(req.method.len() != "OPTIONS"@.len());
}
} // verus!
