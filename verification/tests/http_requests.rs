use agent_control::http::{
    body_bytes_missing, finish_request, next_read_step, parse_request_head, ReadStep,
    INITIAL_READ_CAPACITY, MAX_REQUEST_SIZE,
};

fn pairs(v: &[(&str, &str)]) -> Vec<(String, String)> {
    v.iter().map(|(k, x)| (k.to_string(), x.to_string())).collect()
}

#[test]
fn read_of_nothing_abandons() {
    assert_eq!(next_read_step(b"GET / HTTP/1.1", 0, INITIAL_READ_CAPACITY), ReadStep::Abandon);
}

#[test]
fn head_complete_at_blank_line() {
    let b = b"GET /health HTTP/1.1\r\nHost: x\r\n\r\n";
    assert_eq!(next_read_step(b, b.len(), INITIAL_READ_CAPACITY), ReadStep::HeadComplete);
}

#[test]
fn partial_head_reads_more() {
    assert_eq!(
        next_read_step(b"GE", 2, INITIAL_READ_CAPACITY),
        ReadStep::ReadMore { capacity: 8192 }
    );
    assert_eq!(
        next_read_step(b"GET / HTTP/1.1\r\n", 16, INITIAL_READ_CAPACITY),
        ReadStep::ReadMore { capacity: 8192 }
    );
}

#[test]
fn full_buffer_doubles() {
    let b = vec![b'a'; 8192];
    assert_eq!(next_read_step(&b, 100, 8192), ReadStep::ReadMore { capacity: 16384 });
}

#[test]
fn buffer_never_grows_past_limit() {
    let b = vec![b'a'; 8_388_608];
    assert_eq!(next_read_step(&b, 1, 8_388_608), ReadStep::Abandon);
    assert_eq!(MAX_REQUEST_SIZE, 10_485_760);
}

#[test]
fn invalid_utf8_abandons() {
    assert_eq!(next_read_step(&[0xff, 0xfe, b'a', b'b'], 4, 8192), ReadStep::Abandon);
    assert_eq!(next_read_step(&[0xff, 0xfe, b'a'], 3, 8192), ReadStep::ReadMore { capacity: 8192 });
}

#[test]
fn parses_method_path_query_and_length() {
    let raw = b"get /snapshot?format=compact&depth=3 HTTP/1.1\r\nHost: x\r\nContent-Length: 5\r\n\r\nhello";
    let h = parse_request_head(raw).unwrap();
    assert_eq!(h.method, "GET");
    assert_eq!(h.path, "/snapshot");
    assert_eq!(h.query, pairs(&[("format", "compact"), ("depth", "3")]));
    assert_eq!(h.content_length, 5);
    assert_eq!(h.body_start, raw.len() - 5);
}

#[test]
fn query_parameters_are_percent_decoded_and_need_equals() {
    let raw = b"GET /x?a=1%202&flag&b=%E2%9C%93&c=%zz&=e&f= HTTP/1.1\r\n\r\n";
    let h = parse_request_head(raw).unwrap();
    assert_eq!(
        h.query,
        pairs(&[("a", "1 2"), ("b", "\u{2713}"), ("c", "%zz"), ("", "e"), ("f", "")])
    );
}

#[test]
fn undecodable_query_text_reads_as_empty() {
    let raw = b"GET /x?k=%FF HTTP/1.1\r\n\r\n";
    let h = parse_request_head(raw).unwrap();
    assert_eq!(h.query, pairs(&[("k", "")]));
}

#[test]
fn query_split_at_first_question_mark() {
    let raw = b"GET /a?b=c?d HTTP/1.1\r\n\r\n";
    let h = parse_request_head(raw).unwrap();
    assert_eq!(h.path, "/a");
    assert_eq!(h.query, pairs(&[("b", "c?d")]));
}

#[test]
fn content_length_header_forms() {
    let h = parse_request_head(b"POST /eval HTTP/1.1\r\ncontent-LENGTH:   +42  \r\n\r\n").unwrap();
    assert_eq!(h.content_length, 42);
    let h = parse_request_head(b"POST /eval HTTP/1.1\r\nContent-Length: x\r\nContent-Length: 7\r\n\r\n").unwrap();
    assert_eq!(h.content_length, 7);
    let h = parse_request_head(b"POST /eval HTTP/1.1\r\nContent-Length: 3:4\r\n\r\n").unwrap();
    assert_eq!(h.content_length, 3);
    let h = parse_request_head(b"POST /eval HTTP/1.1\r\nContent-Length: -3\r\n\r\n").unwrap();
    assert_eq!(h.content_length, 0);
    let h = parse_request_head(b"POST /eval HTTP/1.1\r\nX: 1\r\n\r\n").unwrap();
    assert_eq!(h.content_length, 0);
}

#[test]
fn declared_length_over_limit_rejected() {
    assert!(parse_request_head(b"POST /eval HTTP/1.1\r\nContent-Length: 10485761\r\n\r\n").is_none());
    assert!(parse_request_head(b"POST /eval HTTP/1.1\r\nContent-Length: 10485760\r\n\r\n").is_some());
}

#[test]
fn request_line_needs_two_words() {
    assert!(parse_request_head(b"GET\r\n\r\n").is_none());
    assert!(parse_request_head(b"\r\n\r\n").is_none());
    let h = parse_request_head(b"  POST\t/fill  \r\n\r\n").unwrap();
    assert_eq!(h.method, "POST");
    assert_eq!(h.path, "/fill");
}

#[test]
fn head_without_blank_line_or_invalid_is_rejected() {
    assert!(parse_request_head(b"GET / HTTP/1.1\r\n").is_none());
    assert!(parse_request_head(b"GET /\xff HTTP/1.1\r\n\r\n").is_none());
}

#[test]
fn body_bytes_and_finishing() {
    let raw = b"POST /eval HTTP/1.1\r\nContent-Length: 10\r\n\r\nhello";
    let h = parse_request_head(raw).unwrap();
    assert_eq!(body_bytes_missing(&h, raw.len()), 5);
    let req = finish_request(h, raw, b"world");
    assert_eq!(req.method, "POST");
    assert_eq!(req.path, "/eval");
    assert_eq!(req.body, "helloworld");
}

#[test]
fn extra_bytes_after_declared_length_stay_in_body() {
    let raw = b"POST /eval HTTP/1.1\r\nContent-Length: 2\r\n\r\nhello";
    let h = parse_request_head(raw).unwrap();
    assert_eq!(body_bytes_missing(&h, raw.len()), 0);
    let req = finish_request(h, raw, b"");
    assert_eq!(req.body, "hello");
}

#[test]
fn invalid_utf8_body_reads_as_empty() {
    let raw = b"POST /eval HTTP/1.1\r\nContent-Length: 2\r\n\r\n";
    let h = parse_request_head(raw).unwrap();
    let req = finish_request(h, raw, &[0xc3, 0x28]);
    assert_eq!(req.body, "");
}
