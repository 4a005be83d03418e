//! HTTP/1.1 on the bridge's socket: the responses it writes and the requests it reads.
use vstd::prelude::*;
use vstd::utf8::*;
use vstd::string::StringSliceAdditionalSpecFns;
use crate::numbers::{decimal, decimal_text};
use crate::json::{json_quoted, json_string, json_string_value, lemma_json_string_reads_back};
use crate::numbers::{parse_unsigned, parse_unsigned_chars};
use crate::percent::{url_decoded_or_empty, decode_or_empty};
use crate::text::{views, lines, words, split_on, first_index, has_prefix, trimmed, string_of, split_lines, split_words, split_char, find_char, slice_range, slice_from, starts_with_text, trim};
use crate::unicode::{uppercase, lowercase, uppercase_chars, lowercase_chars, decode_utf8_bytes, utf8_str};

verus! {

/// The text of a response: status line, the fixed JSON and CORS headers, the length of
/// the body in bytes, and the body.
pub open spec fn response_text(status: nat, status_text: Seq<char>, body: Seq<char>) -> Seq<char> {
    "HTTP/1.1 "@ + decimal(status) + " "@ + status_text
        + "\r\nContent-Type: application/json\r\nAccess-Control-Allow-Origin: *\r\nAccess-Control-Allow-Methods: GET, POST, OPTIONS\r\nAccess-Control-Allow-Headers: Content-Type\r\nContent-Length: "@
        + decimal(encode_utf8(body).len()) + "\r\nConnection: close\r\n\r\n"@ + body
}

/// The bytes of a response: the UTF-8 encoding of its text.
pub open spec fn response_bytes(status: nat, status_text: Seq<char>, body: Seq<char>) -> Seq<u8> {
    encode_utf8(response_text(status, status_text, body))
}

/// The body of an error response: `{"error":<message as a JSON string>}`.
pub open spec fn error_body(msg: Seq<char>) -> Seq<char> {
    "{\"error\":"@ + json_quoted(msg) + "}"@
}

/// A complete HTTP/1.1 response with a JSON body.
pub fn http_response(status: u16, status_text: &str, body: &str) -> (r: Vec<u8>)
    ensures
        r@ == response_bytes(status as nat, status_text@, body@),
{
    let mut t = String::from_str("HTTP/1.1 ");
    let code = decimal_text(status as u128);
    t.append(code.as_str());
    t.append(" ");
    t.append(status_text);
    t.append(
        "\r\nContent-Type: application/json\r\nAccess-Control-Allow-Origin: *\r\nAccess-Control-Allow-Methods: GET, POST, OPTIONS\r\nAccess-Control-Allow-Headers: Content-Type\r\nContent-Length: ",
    );
    let n = body.as_bytes().len();
    let len = decimal_text(n as u128);
    t.append(len.as_str());
    t.append("\r\nConnection: close\r\n\r\n");
    t.append(body);
    assert(n == encode_utf8(body@).len());
    assert(t@ == response_text(status as nat, status_text@, body@));
    let ts = t.as_str();
    let r = ts.as_bytes_vec();
    assert(r@ == ts.spec_bytes());
    r
}

/// A `200 OK` response with the given JSON body.
pub fn ok_json(body: &str) -> (r: Vec<u8>)
    ensures
        r@ == response_bytes(200, "OK"@, body@),
{
    http_response(200, "OK", body)
}

/// An error response: the given status, the reason `Error`, and `{"error":"<msg>"}`.
pub fn err_json(status: u16, msg: &str) -> (r: Vec<u8>)
    ensures
        r@ == response_bytes(status as nat, "Error"@, error_body(msg@)),
{
    let mut body = String::from_str("{\"error\":");
    let q = json_string(msg);
    body.append(q.as_str());
    body.append("}");
    http_response(status, "Error", body.as_str())
}


/// The most bytes a request may hold: its head, and separately its declared body.
pub const MAX_REQUEST_SIZE: usize = 10485760;

/// The room for the head of a request before the first read.
pub const INITIAL_READ_CAPACITY: usize = 8192;

/// What the reader does after a read from the socket.
#[derive(Debug, PartialEq, Eq)]
pub enum ReadStep {
    /// Drop the connection without an answer.
    Abandon,
    /// The head of the request is in; parse it.
    HeadComplete,
    /// Read again, into a buffer of this capacity.
    ReadMore { capacity: usize },
}

/// The blank line that ends the head of a request starts at `i`.
pub open spec fn head_end_at(b: Seq<u8>, i: int) -> bool {
    0 <= i && i + 4 <= b.len() && b[i] == 13 && b[i + 1] == 10 && b[i + 2] == 13 && b[i + 3] == 10
}

/// Where the first `\r\n\r\n` in `b` starts.
pub open spec fn head_end(b: Seq<u8>) -> Option<int> {
    if exists|i: int| head_end_at(b, i) {
        Some(choose|i: int| head_end_at(b, i) && forall|j: int| 0 <= j < i ==> !head_end_at(b, j))
    } else {
        None
    }
}

/// The reader's decision once `received` holds all bytes read so far, the last read gave
/// `last_read` bytes, and the buffer has room for `capacity` bytes: a read of nothing ends
/// the connection; from four bytes on, the bytes must be well-formed UTF-8 and the head is
/// complete at the first blank line; a full buffer doubles, but not beyond
/// `MAX_REQUEST_SIZE`.
pub open spec fn read_step(received: Seq<u8>, last_read: nat, capacity: nat) -> ReadStep {
    if last_read == 0 {
        ReadStep::Abandon
    } else if received.len() >= 4 && !valid_utf8(received) {
        ReadStep::Abandon
    } else if received.len() >= 4 && head_end(received) is Some {
        ReadStep::HeadComplete
    } else if received.len() >= capacity {
        if 2 * capacity > MAX_REQUEST_SIZE {
            ReadStep::Abandon
        } else {
            ReadStep::ReadMore { capacity: (2 * capacity) as usize }
        }
    } else {
        ReadStep::ReadMore { capacity: capacity as usize }
    }
}

/// The start of the first blank line in `b`.
pub fn find_head_end(b: &[u8]) -> (r: Option<usize>)
    ensures
        match r {
            Some(i) => head_end_at(b@, i as int) && head_end(b@) == Some(i as int),
            None => head_end(b@) is None,
        },
{
    let mut i: usize = 0;
    while b.len() >= 4 && i <= b.len() - 4
        invariant
            forall|j: int| 0 <= j < i ==> !head_end_at(b@, j),
        decreases b@.len() - i,
    {
        if b[i] == 13 && b[i + 1] == 10 && b[i + 2] == 13 && b[i + 3] == 10 {
            let ghost k = choose|k: int| head_end_at(b@, k) && forall|j: int| 0 <= j < k ==> !head_end_at(b@, j);
            assert(head_end_at(b@, i as int));
            assert(k == i as int) by {
                if k > i {
                    assert(!head_end_at(b@, i as int));
                }
            }
            return Some(i);
        }
        i = i + 1;
    }
    assert forall|j: int| !head_end_at(b@, j) by {
        if 0 <= j < i {
        }
    }
    None
}

/// Decides what the reader does after a read (see `read_step`). A capacity it hands back
/// never exceeds `MAX_REQUEST_SIZE` and always leaves room for more bytes.
pub fn next_read_step(received: &[u8], last_read: usize, capacity: usize) -> (r: ReadStep)
    requires
        received@.len() <= capacity,
        INITIAL_READ_CAPACITY <= capacity <= MAX_REQUEST_SIZE,
    ensures
        r == read_step(received@, last_read as nat, capacity as nat),
        r matches ReadStep::ReadMore { capacity: c } ==> received@.len() < c <= MAX_REQUEST_SIZE,
{
    if last_read == 0 {
        return ReadStep::Abandon;
    }
    if received.len() >= 4 {
        if utf8_str(received).is_none() {
            return ReadStep::Abandon;
        }
        if find_head_end(received).is_some() {
            return ReadStep::HeadComplete;
        }
    }
    if received.len() >= capacity {
        if capacity > MAX_REQUEST_SIZE / 2 {
            ReadStep::Abandon
        } else {
            ReadStep::ReadMore { capacity: 2 * capacity }
        }
    } else {
        ReadStep::ReadMore { capacity }
    }
}


/// A query parameter as it reads after decoding: a name and a value.
pub open spec fn pairs_view(v: Seq<(String, String)>) -> Seq<(Seq<char>, Seq<char>)> {
    v.map_values(|p: (String, String)| (p.0@, p.1@))
}

/// A query piece `name=value` (split at the first `=`), both sides percent-decoded
/// (undecodable text reads as empty); a piece without `=` is no parameter.
pub open spec fn query_pair(p: Seq<char>) -> Option<(Seq<char>, Seq<char>)> {
    match first_index(p, '=') {
        Some(e) => Some((url_decoded_or_empty(p.take(e)), url_decoded_or_empty(p.skip(e + 1)))),
        None => None,
    }
}

/// The parameters of the query pieces, in order.
pub open spec fn query_pairs(pieces: Seq<Seq<char>>) -> Seq<(Seq<char>, Seq<char>)>
    decreases pieces.len(),
{
    if pieces.len() == 0 {
        seq![]
    } else {
        let init = query_pairs(pieces.drop_last());
        match query_pair(pieces.last()) {
            Some(kv) => init.push(kv),
            None => init,
        }
    }
}

/// The parameters of a query string: its `&`-separated pieces that hold a `=`.
pub open spec fn query_of(q: Seq<char>) -> Seq<(Seq<char>, Seq<char>)> {
    query_pairs(split_on(q, '&'))
}

/// The value of the last parameter named `key`: later parameters replace earlier ones.
pub open spec fn query_value(q: Seq<(Seq<char>, Seq<char>)>, key: Seq<char>) -> Option<Seq<char>>
    decreases q.len(),
{
    if q.len() == 0 {
        None
    } else if q.last().0 == key {
        Some(q.last().1)
    } else {
        query_value(q.drop_last(), key)
    }
}

/// A request target split into its path and query parameters at the first `?`.
pub open spec fn request_target(full: Seq<char>) -> (Seq<char>, Seq<(Seq<char>, Seq<char>)>) {
    match first_index(full, '?') {
        Some(i) => (full.take(i), query_of(full.skip(i + 1))),
        None => (full, seq![]),
    }
}

/// The length a header line declares: a line whose lowercase form starts with
/// `content-length:` and whose text between that first `:` and the next one is, once
/// trimmed, an unsigned number that fits a `usize`.
pub open spec fn line_length(line: Seq<char>) -> Option<nat> {
    let lower = lowercase(line);
    if has_prefix(lower, "content-length:"@) {
        let p = split_on(lower, ':');
        if p.len() > 1 {
            parse_unsigned(trimmed(p[1]), usize::MAX as nat)
        } else {
            None
        }
    } else {
        None
    }
}

/// The length declared by the first line that declares one.
pub open spec fn first_length(ls: Seq<Seq<char>>) -> Option<nat>
    decreases ls.len(),
{
    if ls.len() == 0 {
        None
    } else {
        match first_length(ls.drop_last()) {
            Some(v) => Some(v),
            None => line_length(ls.last()),
        }
    }
}

/// The declared body length of a request head, zero when no line declares one.
pub open spec fn declared_length(ls: Seq<Seq<char>>) -> nat {
    match first_length(ls) {
        Some(v) => v,
        None => 0,
    }
}

/// A parsed request head, as values.
pub ghost struct HeadView {
    pub method: Seq<char>,
    pub path: Seq<char>,
    pub query: Seq<(Seq<char>, Seq<char>)>,
    pub content_length: nat,
    pub body_start: nat,
}

/// The head of a request: what its request line and headers say.
#[derive(Debug)]
pub struct RequestHead {
    /// The method, in uppercase.
    pub method: String,
    pub path: String,
    /// Query parameters in order of appearance; a later one with the same name wins.
    pub query: Vec<(String, String)>,
    pub content_length: usize,
    /// Where the body starts among the bytes read.
    pub body_start: usize,
}

impl View for RequestHead {
    type V = HeadView;

    open spec fn view(&self) -> HeadView {
        HeadView {
            method: self.method@,
            path: self.path@,
            query: pairs_view(self.query@),
            content_length: self.content_length as nat,
            body_start: self.body_start as nat,
        }
    }
}

/// The header lines of a request whose bytes so far are `received`, with the start of
/// the blank line that ends them: the bytes must be well-formed UTF-8 and hold a blank line.
#[verifier::opaque]
pub open spec fn head_lines(received: Seq<u8>) -> Option<(Seq<Seq<char>>, int)> {
    if !valid_utf8(received) {
        None
    } else {
        match head_end(received) {
            None => None,
            Some(e) => Some((lines(decode_utf8(received.take(e))), e)),
        }
    }
}

/// The head that header lines `ls` describe, the blank line after them starting at `e`:
/// the first line must hold at least two words, the method (taken in uppercase) and the
/// target; the declared body length must not exceed `MAX_REQUEST_SIZE`.
pub open spec fn head_of_lines(ls: Seq<Seq<char>>, e: int) -> Option<HeadView> {
    if ls.len() == 0 {
        None
    } else {
        let ws = words(ls[0]);
        if ws.len() < 2 {
            None
        } else {
            let cl = declared_length(ls);
            if cl > MAX_REQUEST_SIZE {
                None
            } else {
                let (path, query) = request_target(ws[1]);
                Some(
                    HeadView {
                        method: uppercase(ws[0]),
                        path,
                        query,
                        content_length: cl,
                        body_start: (e + 4) as nat,
                    },
                )
            }
        }
    }
}

/// The head of a request whose bytes so far are `received`.
pub open spec fn parse_head(received: Seq<u8>) -> Option<HeadView> {
    match head_lines(received) {
        Some((ls, e)) => head_of_lines(ls, e),
        None => None,
    }
}

fn query_pair_of(p: &[char]) -> (r: Option<(String, String)>)
    ensures
        match r {
            Some(kv) => query_pair(p@) == Some((kv.0@, kv.1@)),
            None => query_pair(p@) is None,
        },
{
    match find_char(p, '=') {
        Some(e) => {
            let k = decode_or_empty(slice_range(p, 0, e).as_slice());
            assert(e < p.len());
            let v = decode_or_empty(slice_from(p, e + 1).as_slice());
            assert(p@.subrange(0, e as int) =~= p@.take(e as int));
            Some((string_of(k.as_slice()), string_of(v.as_slice())))
        },
        None => None,
    }
}

/// The parameters of a query string.
pub fn parse_query(q: &[char]) -> (r: Vec<(String, String)>)
    ensures
        pairs_view(r@) == query_of(q@),
{
    let pieces = split_char(q, '&');
    let ghost pv = views(pieces@);
    let mut out: Vec<(String, String)> = Vec::new();
    let mut i: usize = 0;
    assert(pv.take(0) =~= Seq::<Seq<char>>::empty());
    assert(pairs_view(out@) =~= Seq::<(Seq<char>, Seq<char>)>::empty());
    while i < pieces.len()
        invariant
            pv == views(pieces@),
            i <= pieces@.len(),
            pairs_view(out@) == query_pairs(pv.take(i as int)),
        decreases pieces@.len() - i,
    {
        assert(pv.take(i + 1).drop_last() =~= pv.take(i as int));
        assert(pv[i as int] == pieces@[i as int]@);
        match query_pair_of(pieces[i].as_slice()) {
            Some(kv) => {
                assert(pairs_view(out@.push(kv)) =~= pairs_view(out@).push((kv.0@, kv.1@)));
                out.push(kv);
            },
            None => {},
        }
        i = i + 1;
    }
    assert(pv.take(pv.len() as int) =~= pv);
    out
}

/// A request target split into its path and its query parameters.
pub fn split_target(full: &[char]) -> (r: (String, Vec<(String, String)>))
    ensures
        (r.0@, pairs_view(r.1@)) == request_target(full@),
{
    match find_char(full, '?') {
        Some(i) => {
            let path = slice_range(full, 0, i);
            assert(full@.subrange(0, i as int) =~= full@.take(i as int));
            assert(i < full.len());
            let rest = slice_from(full, i + 1);
            (string_of(path.as_slice()), parse_query(rest.as_slice()))
        },
        None => {
            let v: Vec<(String, String)> = Vec::new();
            assert(pairs_view(v@) =~= Seq::<(Seq<char>, Seq<char>)>::empty());
            (string_of(full), v)
        },
    }
}

fn length_of_line(line: &[char]) -> (r: Option<usize>)
    ensures
        match r {
            Some(v) => line_length(line@) == Some(v as nat),
            None => line_length(line@) is None,
        },
{
    let lower = lowercase_chars(line);
    if !starts_with_text(lower.as_slice(), "content-length:") {
        return None;
    }
    let parts = split_char(lower.as_slice(), ':');
    if parts.len() < 2 {
        return None;
    }
    assert(views(parts@)[1] == parts@[1]@);
    let t = trim(parts[1].as_slice());
    match parse_unsigned_chars(t.as_slice(), usize::MAX as u64) {
        Some(v) => Some(v as usize),
        None => None,
    }
}

/// The body length that the header lines declare.
pub fn content_length_of(ls: &Vec<Vec<char>>) -> (r: usize)
    ensures
        r as nat == declared_length(views(ls@)),
{
    let ghost lv = views(ls@);
    let mut found: Option<usize> = None;
    let mut i: usize = 0;
    assert(lv.take(0) =~= Seq::<Seq<char>>::empty());
    while i < ls.len()
        invariant
            lv == views(ls@),
            i <= ls@.len(),
            match found {
                Some(v) => first_length(lv.take(i as int)) == Some(v as nat),
                None => first_length(lv.take(i as int)) is None,
            },
        decreases ls@.len() - i,
    {
        assert(lv.take(i + 1).drop_last() =~= lv.take(i as int));
        assert(lv[i as int] == ls@[i as int]@);
        if found.is_none() {
            found = length_of_line(ls[i].as_slice());
        }
        i = i + 1;
    }
    assert(lv.take(lv.len() as int) =~= lv);
    match found {
        Some(v) => v,
        None => 0,
    }
}

proof fn lemma_head_prefix_valid(b: Seq<u8>, e: int)
    requires
        valid_utf8(b),
        head_end_at(b, e),
    ensures
        valid_utf8(b.subrange(0, e)),
        b.subrange(0, e) == b.take(e),
{
    assert(!is_continuation_byte(b[e]));
    is_char_boundary_iff_not_is_continuation_byte(b, e);
    valid_utf8_split(b, e);
    assert(b.subrange(0, e) =~= b.take(e));
}

proof fn lemma_head_lines_found(b: Seq<u8>, e: int, ls: Seq<Seq<char>>, header: Seq<char>)
    requires
        valid_utf8(b),
        head_end(b) == Some(e),
        header == decode_utf8(b.subrange(0, e)),
        ls == lines(header),
        b.subrange(0, e) == b.take(e),
    ensures
        head_lines(b) == Some((ls, e)),
{
    reveal(head_lines);
}

proof fn lemma_head_lines_none(b: Seq<u8>)
    requires
        !valid_utf8(b) || head_end(b) is None,
    ensures
        head_lines(b) is None,
{
    reveal(head_lines);
}

fn read_head_lines(received: &[u8]) -> (r: Option<(Vec<Vec<char>>, usize)>)
    ensures
        match r {
            Some((ls, e)) => head_lines(received@) == Some((views(ls@), e as int)) && e + 4
                <= received@.len(),
            None => head_lines(received@) is None,
        },
{
    if utf8_str(received).is_none() {
        proof {
            lemma_head_lines_none(received@);
        }
        return None;
    }
    let e = match find_head_end(received) {
        Some(e) => e,
        None => {
            proof {
                lemma_head_lines_none(received@);
            }
            return None;
        },
    };
    let head_bytes = vstd::slice::slice_subrange(received, 0, e);
    proof {
        lemma_head_prefix_valid(received@, e as int);
    }
    let header = match decode_utf8_bytes(head_bytes) {
        Some(h) => h,
        None => return None,
    };
    let ls = split_lines(header.as_slice());
    proof {
        lemma_head_lines_found(received@, e as int, views(ls@), header@);
    }
    Some((ls, e))
}

fn head_from_lines(ls: &Vec<Vec<char>>, e: usize) -> (r: Option<RequestHead>)
    requires
        e + 4 <= usize::MAX,
    ensures
        match r {
            Some(h) => head_of_lines(views(ls@), e as int) == Some(h@) && h.body_start == e + 4,
            None => head_of_lines(views(ls@), e as int) is None,
        },
{
    if ls.len() == 0 {
        return None;
    }
    assert(views(ls@)[0] == ls@[0]@);
    let ws = split_words(ls[0].as_slice());
    if ws.len() < 2 {
        return None;
    }
    assert(views(ws@)[0] == ws@[0]@);
    assert(views(ws@)[1] == ws@[1]@);
    let cl = content_length_of(ls);
    if cl > MAX_REQUEST_SIZE {
        return None;
    }
    let method = string_of(uppercase_chars(ws[0].as_slice()).as_slice());
    let (path, query) = split_target(ws[1].as_slice());
    Some(RequestHead { method, path, query, content_length: cl, body_start: e + 4 })
}

/// Parses the head of a request from the bytes read so far (see `parse_head`).
pub fn parse_request_head(received: &[u8]) -> (r: Option<RequestHead>)
    ensures
        match r {
            Some(h) => parse_head(received@) == Some(h@) && h.body_start <= received@.len(),
            None => parse_head(received@) is None,
        },
{
    match read_head_lines(received) {
        Some((ls, e)) => {
            assert(e + 4 <= received.len());
            head_from_lines(&ls, e)
        },
        None => None,
    }
}


/// A request as the routes see it.
pub ghost struct RequestView {
    pub method: Seq<char>,
    pub path: Seq<char>,
    pub query: Seq<(Seq<char>, Seq<char>)>,
    pub body: Seq<char>,
}

/// A complete request: its head and its body text.
#[derive(Debug)]
pub struct HttpRequest {
    /// The method, in uppercase.
    pub method: String,
    pub path: String,
    /// Query parameters in order of appearance; a later one with the same name wins.
    pub query: Vec<(String, String)>,
    pub body: String,
}

impl View for HttpRequest {
    type V = RequestView;

    open spec fn view(&self) -> RequestView {
        RequestView {
            method: self.method@,
            path: self.path@,
            query: pairs_view(self.query@),
            body: self.body@,
        }
    }
}

/// How many body bytes are still to be read once `received_len` bytes are in: what the
/// head declares beyond the bytes already read after it.
pub open spec fn missing_body(head: HeadView, received_len: nat) -> nat {
    let already = received_len - head.body_start;
    if head.content_length > already {
        (head.content_length - already) as nat
    } else {
        0
    }
}

/// The text of a body: its bytes read as UTF-8, or the empty text when they are not
/// well-formed.
pub open spec fn body_text(bytes: Seq<u8>) -> Seq<char> {
    if valid_utf8(bytes) {
        decode_utf8(bytes)
    } else {
        seq![]
    }
}

/// The request made of a head, the bytes read with it, and the body bytes read after it.
/// All bytes after the head belong to the body, however many the head declared.
pub open spec fn finished_request(head: HeadView, received: Seq<u8>, extra: Seq<u8>) -> RequestView {
    RequestView {
        method: head.method,
        path: head.path,
        query: head.query,
        body: body_text(received.skip(head.body_start as int) + extra),
    }
}

pub fn body_bytes_missing(head: &RequestHead, received_len: usize) -> (r: usize)
    requires
        head.body_start <= received_len,
    ensures
        r as nat == missing_body(head@, received_len as nat),
{
    let already = received_len - head.body_start;
    if head.content_length > already {
        head.content_length - already
    } else {
        0
    }
}

/// Puts a request together from its head, the bytes read with the head, and the body bytes
/// read after them.
pub fn finish_request(head: RequestHead, received: &[u8], extra: &[u8]) -> (r: HttpRequest)
    requires
        head.body_start <= received@.len(),
    ensures
        r@ == finished_request(head@, received@, extra@),
        r.method@ == head.method@,
        r.path@ == head.path@,
        pairs_view(r.query@) == pairs_view(head.query@),
{
    let ghost hv = head@;
    let tail = vstd::slice::slice_subrange(received, head.body_start, received.len());
    let mut bytes = vstd::slice::slice_to_vec(tail);
    bytes.extend_from_slice(extra);
    assert(bytes@ == received@.skip(head.body_start as int) + extra@);
    let body = match utf8_str(bytes.as_slice()) {
        Some(t) => {
            proof {
                encode_utf8_decode_utf8(t@);
            }
            t.to_owned()
        },
        None => String::new(),
    };
    HttpRequest { method: head.method, path: head.path, query: head.query, body }
}


proof fn lemma_encode_utf8_concat(a: Seq<char>, b: Seq<char>)
    ensures
        encode_utf8(a + b) == encode_utf8(a) + encode_utf8(b),
    decreases a.len(),
{
    if a.len() == 0 {
        assert(a + b =~= b);
        assert(encode_utf8(a) =~= Seq::<u8>::empty());
        assert(encode_utf8(a) + encode_utf8(b) =~= encode_utf8(b));
    } else {
        assert((a + b).drop_first() =~= a.drop_first() + b);
        assert((a + b)[0] == a[0]);
        lemma_encode_utf8_concat(a.drop_first(), b);
        assert(encode_scalar(a[0] as u32) + (encode_utf8(a.drop_first()) + encode_utf8(b))
            =~= encode_scalar(a[0] as u32) + encode_utf8(a.drop_first()) + encode_utf8(b));
    }
}

/// The text of a response before its body, for a body of `body_len` bytes.
pub open spec fn response_head(status: nat, status_text: Seq<char>, body_len: nat) -> Seq<char> {
    "HTTP/1.1 "@ + decimal(status) + " "@ + status_text
        + "\r\nContent-Type: application/json\r\nAccess-Control-Allow-Origin: *\r\nAccess-Control-Allow-Methods: GET, POST, OPTIONS\r\nAccess-Control-Allow-Headers: Content-Type\r\nContent-Length: "@
        + decimal(body_len) + "\r\nConnection: close\r\n\r\n"@
}

/// A response is its head followed by the bytes of its body, and the head declares exactly
/// that many bytes as `Content-Length`.
pub proof fn lemma_response_frames_body(status: nat, status_text: Seq<char>, body: Seq<char>)
    ensures
        response_bytes(status, status_text, body) == encode_utf8(
            response_head(status, status_text, encode_utf8(body).len()),
        ) + encode_utf8(body),
{
    lemma_encode_utf8_concat(response_head(status, status_text, encode_utf8(body).len()), body);
}


proof fn lemma_scalar_bytes_not_cr(v: u32)
    requires
        v != 13,
    ensures
        forall|k: int| 0 <= k < encode_scalar(v).len() ==> #[trigger] encode_scalar(v)[k] != 13u8,
{
    if has_width_1_encoding(v) {
        assert(leading_byte_width_1(v) != 13u8) by (bit_vector)
            requires
                v <= 0x7F,
                v != 13,
        ;
    } else if has_width_2_encoding(v) {
        assert(leading_byte_width_2(v) != 13u8) by (bit_vector);
        assert(last_continuation_byte(v) != 13u8) by (bit_vector);
    } else if has_width_3_encoding(v) {
        assert(leading_byte_width_3(v) != 13u8) by (bit_vector);
        assert(second_last_continuation_byte(v) != 13u8) by (bit_vector);
        assert(last_continuation_byte(v) != 13u8) by (bit_vector);
    } else {
        assert(leading_byte_width_4(v) != 13u8) by (bit_vector);
        assert(third_last_continuation_byte(v) != 13u8) by (bit_vector);
        assert(second_last_continuation_byte(v) != 13u8) by (bit_vector);
        assert(last_continuation_byte(v) != 13u8) by (bit_vector);
    }
}

/// Text without a carriage return encodes to bytes without the byte 13.
#[verifier::spinoff_prover]
proof fn lemma_encoded_without_cr(t: Seq<char>)
    requires
        forall|i: int| 0 <= i < t.len() ==> #[trigger] t[i] != '\r',
    ensures
        forall|k: int| 0 <= k < encode_utf8(t).len() ==> #[trigger] encode_utf8(t)[k] != 13u8,
    decreases t.len(),
{
    if t.len() > 0 {
        let rest = t.drop_first();
        assert forall|i: int| 0 <= i < rest.len() implies #[trigger] rest[i] != '\r' by {
            assert(rest[i] == t[i + 1]);
        }
        lemma_encoded_without_cr(rest);
        assert(t[0] != '\r');
        assert((t[0] as u32) != 13) by {
            if (t[0] as u32) == 13 {
                char_u32_cast(t[0], 13);
            }
        }
        lemma_scalar_bytes_not_cr(t[0] as u32);
        let e = encode_scalar(t[0] as u32);
        assert forall|k: int| 0 <= k < encode_utf8(t).len() implies #[trigger] encode_utf8(t)[k]
            != 13u8 by {
            if k < e.len() {
                assert(encode_utf8(t)[k] == e[k]);
            } else {
                assert(encode_utf8(t)[k] == encode_utf8(rest)[k - e.len()]);
            }
        }
    }
}

proof fn lemma_decimal_digits(n: nat)
    ensures
        forall|i: int| 0 <= i < decimal(n).len() ==> '0' <= #[trigger] decimal(n)[i] <= '9',
    decreases n,
{
    if n >= 10 {
        lemma_decimal_digits(n / 10);
        assert forall|i: int| 0 <= i < decimal(n).len() implies '0' <= #[trigger] decimal(n)[i] <= '9' by {
            if i < decimal(n / 10).len() {
                assert(decimal(n)[i] == decimal(n / 10)[i]);
            }
        }
    }
}

/// The status line of a response without its line end.
spec fn status_line(status: nat, status_text: Seq<char>) -> Seq<char> {
    "HTTP/1.1 "@ + decimal(status) + " "@ + status_text
}

/// The header lines of a response after its status line, up to and with the blank line.
spec fn header_fields(body_len: nat) -> Seq<char> {
    "\r\nContent-Type: application/json\r\nAccess-Control-Allow-Origin: *\r\nAccess-Control-Allow-Methods: GET, POST, OPTIONS\r\nAccess-Control-Allow-Headers: Content-Type\r\nContent-Length: "@
        + decimal(body_len) + "\r\nConnection: close\r\n\r\n"@
}

#[verifier::spinoff_prover]
proof fn lemma_status_line_without_cr(status: nat, status_text: Seq<char>)
    requires
        forall|i: int| 0 <= i < status_text.len() ==> #[trigger] status_text[i] != '\r',
    ensures
        forall|k: int| 0 <= k < encode_utf8(status_line(status, status_text)).len()
            ==> #[trigger] encode_utf8(status_line(status, status_text))[k] != 13u8,
{
    let p = status_line(status, status_text);
    let a = "HTTP/1.1 "@;
    let d = decimal(status);
    reveal_strlit("HTTP/1.1 ");
    reveal_strlit(" ");
    lemma_decimal_digits(status);
    assert forall|i: int| 0 <= i < p.len() implies #[trigger] p[i] != '\r' by {
        if i < a.len() {
            assert(p[i] == a[i]);
        } else if i < a.len() + d.len() {
            assert(p[i] == d[i - a.len()]);
        } else if i < a.len() + d.len() + 1 {
            assert(p[i] == ' ');
        } else {
            assert(p[i] == status_text[i - a.len() - d.len() - 1]);
        }
    }
    lemma_encoded_without_cr(p);
}

/// Each carriage return in the header lines before the final blank line is followed by a
/// line feed and then by a character other than a carriage return.
#[verifier::spinoff_prover]
proof fn lemma_fields_blank_line_last(body_len: nat)
    ensures
        ({
            let q = header_fields(body_len);
            &&& is_ascii_chars(q)
            &&& q.len() >= 4
            &&& q[q.len() - 4] == '\r' && q[q.len() - 3] == '\n' && q[q.len() - 2] == '\r' && q[q.len() - 1] == '\n'
            &&& forall|i: int| 0 <= i < q.len() - 4 && #[trigger] q[i] == '\r' ==> q[i + 2] != '\r'
        }),
{
    let f = "\r\nContent-Type: application/json\r\nAccess-Control-Allow-Origin: *\r\nAccess-Control-Allow-Methods: GET, POST, OPTIONS\r\nAccess-Control-Allow-Headers: Content-Type\r\nContent-Length: "@;
    let c = "\r\nConnection: close\r\n\r\n"@;
    reveal_strlit("\r\nContent-Type: application/json\r\nAccess-Control-Allow-Origin: *\r\nAccess-Control-Allow-Methods: GET, POST, OPTIONS\r\nAccess-Control-Allow-Headers: Content-Type\r\nContent-Length: ");
    reveal_strlit("\r\nConnection: close\r\n\r\n");
    let d = decimal(body_len);
    lemma_decimal_digits(body_len);
    let q = header_fields(body_len);
    assert(forall|i: int| 0 <= i < f.len() && #[trigger] f[i] == '\r' ==> i + 2 < f.len() && f[i + 2] != '\r');
    assert(forall|i: int| 0 <= i < c.len() - 4 && #[trigger] c[i] == '\r' ==> c[i + 2] != '\r');
    assert(is_ascii_chars(f));
    assert(is_ascii_chars(c));
    assert(is_ascii_chars(q)) by {
        assert forall|i: int| 0 <= i < q.len() implies '\0' <= #[trigger] q[i] <= '\u{7f}' by {
            if i < f.len() {
                assert(q[i] == f[i]);
            } else if i < f.len() + d.len() {
                assert(q[i] == d[i - f.len()]);
            } else {
                assert(q[i] == c[i - f.len() - d.len()]);
            }
        }
    }
    assert forall|i: int| 0 <= i < q.len() - 4 && #[trigger] q[i] == '\r' implies q[i + 2] != '\r' by {
        if i < f.len() {
            assert(q[i] == f[i]);
            assert(q[i + 2] == f[i + 2]);
        } else if i < f.len() + d.len() {
            assert(q[i] == d[i - f.len()]);
        } else {
            assert(q[i] == c[i - f.len() - d.len()]);
            assert(q[i + 2] == c[i + 2 - f.len() - d.len()]);
        }
    }
}

/// The encoded header lines: the byte 13 appears before the final blank line only where no
/// byte 13 follows two places later.
#[verifier::spinoff_prover]
proof fn lemma_field_bytes(body_len: nat)
    ensures
        ({
            let e = encode_utf8(header_fields(body_len));
            &&& e.len() >= 4
            &&& e[e.len() - 4] == 13u8 && e[e.len() - 3] == 10u8 && e[e.len() - 2] == 13u8 && e[e.len() - 1] == 10u8
            &&& forall|i: int| 0 <= i < e.len() - 4 ==> !#[trigger] head_end_at(e, i)
        }),
{
    let q = header_fields(body_len);
    lemma_fields_blank_line_last(body_len);
    is_ascii_chars_encode_utf8(q);
    let e = encode_utf8(q);
    assert forall|i: int| 0 <= i < e.len() implies (#[trigger] e[i] == 13u8) == (q[i] == '\r') && (e[i] == 10u8) == (q[i] == '\n') by {
        assert(e[i] == q[i] as u8);
        assert((q[i] as u32) < 128);
        if q[i] as u32 == 13 {
            char_u32_cast(q[i], 13);
        }
        if q[i] as u32 == 10 {
            char_u32_cast(q[i], 10);
        }
    }
    assert forall|i: int| 0 <= i < e.len() - 4 implies !#[trigger] head_end_at(e, i) by {
        if e[i] == 13u8 {
            assert(q[i] == '\r');
            assert(q[i + 2] != '\r');
            assert(e[i + 2] != 13u8);
        }
    }
}

/// A blank line at `e` with none before it is the first.
proof fn lemma_blank_line_at(r: Seq<u8>, e: int)
    requires
        head_end_at(r, e),
        forall|j: int| 0 <= j < e ==> !#[trigger] head_end_at(r, j),
    ensures
        head_end(r) == Some(e),
{
    let k = choose|k: int| head_end_at(r, k) && forall|j: int| 0 <= j < k ==> !head_end_at(r, j);
    assert(k == e) by {
        if k < e {
            assert(!head_end_at(r, k));
        }
        if k > e {
            assert(!head_end_at(r, e));
        }
    }
}

/// Bytes made of a part without the byte 13, then a part whose only blank line closes it,
/// then anything: the first blank line is the closing one.
proof fn lemma_first_blank_line(r: Seq<u8>, a: Seq<u8>, b: Seq<u8>, c: Seq<u8>)
    requires
        r == a + b + c,
        forall|k: int| 0 <= k < a.len() ==> #[trigger] a[k] != 13u8,
        b.len() >= 4,
        b[b.len() - 4] == 13u8 && b[b.len() - 3] == 10u8 && b[b.len() - 2] == 13u8 && b[b.len() - 1] == 10u8,
        forall|i: int| 0 <= i < b.len() - 4 ==> !#[trigger] head_end_at(b, i),
    ensures
        head_end(r) == Some(a.len() + b.len() - 4),
{
    let h = a.len() + b.len() - 4;
    assert(head_end_at(r, h)) by {
        assert(r[h] == b[b.len() - 4]);
        assert(r[h + 1] == b[b.len() - 3]);
        assert(r[h + 2] == b[b.len() - 2]);
        assert(r[h + 3] == b[b.len() - 1]);
    }
    assert forall|j: int| 0 <= j < h implies !head_end_at(r, j) by {
        if j < a.len() {
            assert(r[j] == a[j]);
        } else {
            let i = j - a.len();
            assert(r[j] == b[i]);
            assert(r[j + 1] == b[i + 1]);
            assert(r[j + 2] == b[i + 2]);
            assert(r[j + 3] == b[i + 3]);
            assert(!head_end_at(b, i));
        }
    }
    lemma_blank_line_at(r, h);
}

proof fn lemma_after_parts(r: Seq<u8>, a: Seq<u8>, b: Seq<u8>, c: Seq<u8>)
    requires
        r == a + b + c,
    ensures
        r.skip((a.len() + b.len()) as int) == c,
{
    assert(r.skip((a.len() + b.len()) as int) =~= c);
}

/// Reading a response back: when the status text holds no carriage return, the first blank
/// line of the response is the one that ends its head (which declares the body's length in
/// bytes as `Content-Length`), and the bytes after that blank line are exactly the body.
#[verifier::spinoff_prover]
pub proof fn lemma_response_reads_back(status: nat, status_text: Seq<char>, body: Seq<char>)
    requires
        forall|i: int| 0 <= i < status_text.len() ==> #[trigger] status_text[i] != '\r',
    ensures
        ({
            let r = response_bytes(status, status_text, body);
            let h = encode_utf8(response_head(status, status_text, encode_utf8(body).len())).len() - 4;
            &&& head_end(r) == Some(h)
            &&& r.skip(h + 4) == encode_utf8(body)
        }),
{
    let n = encode_utf8(body).len();
    let ep = encode_utf8(status_line(status, status_text));
    let eq = encode_utf8(header_fields(n));
    let eb = encode_utf8(body);
    lemma_head_bytes_split(status, status_text, n);
    lemma_response_frames_body(status, status_text, body);
    lemma_status_line_without_cr(status, status_text);
    lemma_field_bytes(n);
    let r = response_bytes(status, status_text, body);
    assert(r == ep + eq + eb);
    lemma_first_blank_line(r, ep, eq, eb);
    lemma_after_parts(r, ep, eq, eb);
}

proof fn lemma_head_bytes_split(status: nat, status_text: Seq<char>, n: nat)
    ensures
        encode_utf8(response_head(status, status_text, n)) == encode_utf8(status_line(status, status_text))
            + encode_utf8(header_fields(n)),
{
    let p = status_line(status, status_text);
    let q = header_fields(n);
    assert(response_head(status, status_text, n) =~= p + q);
    lemma_encode_utf8_concat(p, q);
}

/// The message of a body of the form `{"error":<JSON string literal>}`.
pub open spec fn error_message(body: Seq<char>) -> Option<Seq<char>> {
    let pre = "{\"error\":"@;
    if body.len() >= pre.len() + 1 && body.take(pre.len() as int) == pre && body.last() == '}' {
        json_string_value(body.subrange(pre.len() as int, body.len() - 1))
    } else {
        None
    }
}

/// The body of an error response reads back as its message, whatever the message holds.
#[verifier::spinoff_prover]
pub proof fn lemma_error_body_reads_back(msg: Seq<char>)
    ensures
        error_message(error_body(msg)) == Some(msg),
{
    let pre = "{\"error\":"@;
    let b = error_body(msg);
    let q = json_quoted(msg);
    reveal_strlit("}");
    assert(b.take(pre.len() as int) =~= pre);
    assert(b.subrange(pre.len() as int, b.len() - 1) =~= q);
    lemma_json_string_reads_back(msg);
}


proof fn lemma_no_blank_line(eh: Seq<u8>, j: int)
    requires
        head_end(eh) is None,
    ensures
        !head_end_at(eh, j),
{
}

#[verifier::spinoff_prover]
proof fn lemma_blank_line_after(r: Seq<u8>, eh: Seq<u8>, c: Seq<u8>, b1: Seq<u8>)
    requires
        r == eh + c + b1,
        c.len() == 4 && c[0] == 13u8 && c[1] == 10u8 && c[2] == 13u8 && c[3] == 10u8,
        head_end(eh) is None,
        eh.len() == 0 || (eh.last() != 13u8 && eh.last() != 10u8),
    ensures
        head_end(r) == Some(eh.len() as int),
{
    let e = eh.len() as int;
    assert(head_end_at(r, e)) by {
        assert(r[e] == c[0]);
        assert(r[e + 1] == c[1]);
        assert(r[e + 2] == c[2]);
        assert(r[e + 3] == c[3]);
    }
    assert forall|j: int| 0 <= j < e implies !head_end_at(r, j) by {
        if j + 4 <= e {
            assert(r[j] == eh[j]);
            assert(r[j + 1] == eh[j + 1]);
            assert(r[j + 2] == eh[j + 2]);
            assert(r[j + 3] == eh[j + 3]);
            lemma_no_blank_line(eh, j);
        } else if j == e - 1 {
            assert(r[j] == eh[e - 1]);
        } else if j == e - 2 {
            assert(r[j + 1] == eh[e - 1]);
        } else {
            assert(r[j + 2] == eh[e - 1]);
        }
    }
    lemma_blank_line_at(r, e);
}

#[verifier::spinoff_prover]
proof fn lemma_blank_line_parts(r: Seq<u8>, eh: Seq<u8>, c: Seq<u8>, b1: Seq<u8>)
    requires
        r == eh + c + b1,
        c.len() == 4,
    ensures
        r.take(eh.len() as int) == eh,
        r.skip(eh.len() + 4int) == b1,
{
    assert(r.take(eh.len() as int) =~= eh);
    assert(r.skip(eh.len() + 4int) =~= b1);
}

#[verifier::spinoff_prover]
proof fn lemma_head_bytes_valid(head: Seq<char>, b1: Seq<u8>)
    requires
        valid_utf8(b1),
    ensures
        valid_utf8(encode_utf8(head) + seq![13u8, 10u8, 13u8, 10u8] + b1),
{
    let blank = seq!['\r', '\n', '\r', '\n'];
    let crlf2 = seq![13u8, 10u8, 13u8, 10u8];
    assert(is_ascii_chars(blank));
    is_ascii_chars_encode_utf8(blank);
    assert(encode_utf8(blank) =~= crlf2);
    lemma_encode_utf8_concat(head, blank);
    encode_utf8_valid_utf8(head + blank);
    valid_utf8_concat(encode_utf8(head) + crlf2, b1);
}

#[verifier::spinoff_prover]
proof fn lemma_head_complete(r: Seq<u8>)
    requires
        valid_utf8(r),
        head_end(r) is Some,
        r.len() >= 4,
    ensures
        forall|n: nat, capacity: nat| n > 0 ==> #[trigger] read_step(r, n, capacity) == ReadStep::HeadComplete,
{
}

#[verifier::spinoff_prover]
proof fn lemma_lines_of_head(r: Seq<u8>, head: Seq<char>, e: int)
    requires
        valid_utf8(r),
        head_end(r) == Some(e),
        r.take(e) == encode_utf8(head),
    ensures
        head_lines(r) == Some((lines(head), e)),
        parse_head(r) == head_of_lines(lines(head), e),
{
    encode_utf8_decode_utf8(head);
    reveal(head_lines);
}

#[verifier::spinoff_prover]
proof fn lemma_body_after_head(r: Seq<u8>, e: int, b1: Seq<u8>, b2: Seq<u8>, ls: Seq<Seq<char>>)
    requires
        0 <= e,
        r.skip(e + 4) == b1,
        r.len() == e + 4 + b1.len(),
        valid_utf8(b1 + b2),
        parse_head(r) == head_of_lines(ls, e),
    ensures
        parse_head(r) matches Some(h) ==> {
            &&& h.body_start == e + 4
            &&& (h.content_length == b1.len() + b2.len() ==> missing_body(h, r.len()) == b2.len())
            &&& finished_request(h, r, b2).body == decode_utf8(b1 + b2)
        },
{
}

/// Reading a request back: a head written as text whose bytes hold no blank line and do
/// not end in a carriage return or line feed, then a blank line, then body bytes `b1`
/// (with `b2` still to come), reads as complete at that blank line; its header lines are
/// the lines of `head`; the body starts right after the blank line; when the head declares
/// exactly the length of `b1` and `b2` together, the bytes still missing are those of `b2`;
/// and the request's body is the text of `b1` and `b2` together.
#[verifier::spinoff_prover]
pub proof fn lemma_request_reads_back(head: Seq<char>, b1: Seq<u8>, b2: Seq<u8>)
    requires
        head_end(encode_utf8(head)) is None,
        encode_utf8(head).len() == 0 || (encode_utf8(head).last() != 13u8 && encode_utf8(head).last()
            != 10u8),
        valid_utf8(b1),
        valid_utf8(b2),
    ensures
        ({
            let eh = encode_utf8(head);
            let received = eh + seq![13u8, 10u8, 13u8, 10u8] + b1;
            &&& forall|n: nat, capacity: nat|
                n > 0 ==> #[trigger] read_step(received, n, capacity) == ReadStep::HeadComplete
            &&& head_lines(received) == Some((lines(head), eh.len() as int))
            &&& parse_head(received) == head_of_lines(lines(head), eh.len() as int)
            &&& parse_head(received) matches Some(h) ==> {
                &&& h.body_start == eh.len() + 4
                &&& (h.content_length == b1.len() + b2.len() ==> missing_body(h, received.len())
                    == b2.len())
                &&& finished_request(h, received, b2).body == decode_utf8(b1 + b2)
            }
        }),
{
    let eh = encode_utf8(head);
    let c = seq![13u8, 10u8, 13u8, 10u8];
    let received = eh + c + b1;
    assert(c.len() == 4 && c[0] == 13u8 && c[1] == 10u8 && c[2] == 13u8 && c[3] == 10u8);
    lemma_blank_line_after(received, eh, c, b1);
    lemma_blank_line_parts(received, eh, c, b1);
    lemma_head_bytes_valid(head, b1);
    lemma_head_complete(received);
    lemma_lines_of_head(received, head, eh.len() as int);
    valid_utf8_concat(b1, b2);
    lemma_body_after_head(received, eh.len() as int, b1, b2, lines(head));
}

/// Finishing a request keeps what its head says: the method, the path and every query
/// parameter come from the head unchanged, whatever the body bytes are.
pub proof fn lemma_finished_request_keeps_head(head: HeadView, received: Seq<u8>, extra: Seq<u8>)
    ensures
        finished_request(head, received, extra).method == head.method,
        finished_request(head, received, extra).path == head.path,
        finished_request(head, received, extra).query == head.query,
{
}
} // verus!
