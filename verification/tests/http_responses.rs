use agent_control::http::{err_json, http_response, ok_json};

fn expected(status: u16, status_text: &str, body: &str) -> Vec<u8> {
    format!(
        "HTTP/1.1 {} {}\r\nContent-Type: application/json\r\nAccess-Control-Allow-Origin: *\r\nAccess-Control-Allow-Methods: GET, POST, OPTIONS\r\nAccess-Control-Allow-Headers: Content-Type\r\nContent-Length: {}\r\nConnection: close\r\n\r\n{}",
        status,
        status_text,
        body.len(),
        body
    )
    .into_bytes()
}

#[test]
fn ok_json_writes_status_headers_and_body() {
    let r = ok_json("{\"ok\":true}");
    assert_eq!(
        String::from_utf8(r).unwrap(),
        "HTTP/1.1 200 OK\r\nContent-Type: application/json\r\nAccess-Control-Allow-Origin: *\r\nAccess-Control-Allow-Methods: GET, POST, OPTIONS\r\nAccess-Control-Allow-Headers: Content-Type\r\nContent-Length: 11\r\nConnection: close\r\n\r\n{\"ok\":true}"
    );
}

#[test]
fn http_response_counts_body_bytes_not_chars() {
    let r = http_response(201, "Created", "{\"name\":\"caf\u{e9}\"}");
    assert_eq!(r, expected(201, "Created", "{\"name\":\"caf\u{e9}\"}"));
    let text = String::from_utf8(r).unwrap();
    assert!(text.contains("Content-Length: 16\r\n"));
}

#[test]
fn http_response_with_empty_body() {
    assert_eq!(http_response(204, "No Content", ""), expected(204, "No Content", ""));
    let text = String::from_utf8(http_response(204, "No Content", "")).unwrap();
    assert!(text.ends_with("Content-Length: 0\r\nConnection: close\r\n\r\n"));
}

#[test]
fn http_response_large_status_code() {
    assert_eq!(http_response(65535, "X", "b"), expected(65535, "X", "b"));
    assert_eq!(http_response(0, "Zero", "b"), expected(0, "Zero", "b"));
}

#[test]
fn err_json_wraps_message_in_error_member() {
    assert_eq!(err_json(404, "not found"), expected(404, "Error", "{\"error\":\"not found\"}"));
}

#[test]
fn err_json_escapes_the_message() {
    let msg = "bad \"json\"\n\tat \\ line\u{1}";
    let body = format!("{{\"error\":{}}}", serde_json::to_string(msg).unwrap());
    assert_eq!(err_json(400, msg), expected(400, "Error", &body));
    assert!(body.contains("\\u0001"));
    assert!(body.contains("\\\"json\\\""));
}

#[test]
fn ok_json_body_with_multibyte_characters() {
    let body = "\u{1F600}\u{4E2D}";
    assert_eq!(ok_json(body), expected(200, "OK", body));
    let text = String::from_utf8(ok_json(body)).unwrap();
    assert!(text.contains("Content-Length: 7\r\n"));
}

fn split_at_blank_line(r: &[u8]) -> (&[u8], &[u8]) {
    let h = r.windows(4).position(|w| w == b"\r\n\r\n").unwrap();
    (&r[..h], &r[h + 4..])
}

#[test]
fn responses_read_back_to_their_body() {
    for body in ["", "{\"a\":1}", "x\r\n\r\ny", "héllo ✓"] {
        let r = ok_json(body);
        let (head, rest) = split_at_blank_line(&r);
        assert_eq!(rest, body.as_bytes());
        let head = std::str::from_utf8(head).unwrap();
        assert!(head.contains(&format!("Content-Length: {}", body.len())));
    }
    let r = http_response(418, "I'm a teapot", "tea\r\n\r\npot");
    assert_eq!(split_at_blank_line(&r).1, b"tea\r\n\r\npot");
}

#[test]
fn error_bodies_decode_back_to_their_message() {
    for msg in ["not found", "quote \" and \\ back", "line\nbreak\ttab\u{1}", "ünïcode ✓"] {
        let r = err_json(500, msg);
        let (_, body) = split_at_blank_line(&r);
        let v: serde_json::Value = serde_json::from_slice(body).unwrap();
        let mut expected = serde_json::Map::new();
        expected.insert("error".to_string(), serde_json::Value::String(msg.to_string()));
        assert_eq!(v, serde_json::Value::Object(expected));
    }
}
