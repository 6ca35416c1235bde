use tinyserve::{first_line, parse_request};

#[test]
fn first_line_stops_at_newline() {
    let buf = b"GET / HTTP/1.1\r\nHost: x\r\n\r\n".to_vec();
    assert_eq!(first_line(&buf).as_deref(), Some("GET / HTTP/1.1"));
}

#[test]
fn first_line_without_newline_takes_all() {
    let buf = b"GET".to_vec();
    assert_eq!(first_line(&buf).as_deref(), Some("GET"));
}

#[test]
fn first_line_strips_single_carriage_return() {
    let buf = b"abc\r\n".to_vec();
    assert_eq!(first_line(&buf).as_deref(), Some("abc"));
    let buf = b"abc\r\r\n".to_vec();
    assert_eq!(first_line(&buf).as_deref(), Some("abc\r"));
}

#[test]
fn first_line_rejects_invalid_utf8() {
    let buf = vec![0xFF, 0xFE, b'\n'];
    assert_eq!(first_line(&buf), None);
}

#[test]
fn first_line_of_empty_buffer_is_empty() {
    let buf: Vec<u8> = Vec::new();
    assert_eq!(first_line(&buf).as_deref(), Some(""));
}

#[test]
fn parse_get_root() {
    let mut line = String::from("GET / HTTP/1.1");
    let req = parse_request(&mut line).expect("three tokens parse");
    assert_eq!(req.method, "GET");
    assert_eq!(req.path, "/");
    assert_eq!(req.http_version, "HTTP/1.1");
}

#[test]
fn parse_single_token_fails() {
    let mut line = String::from("GET");
    assert!(parse_request(&mut line).is_err());
}

#[test]
fn parse_two_tokens_fails() {
    let mut line = String::from("GET /");
    assert!(parse_request(&mut line).is_err());
}

#[test]
fn parse_empty_fails() {
    let mut line = String::new();
    assert!(parse_request(&mut line).is_err());
}

#[test]
fn parse_trims_carriage_return() {
    let mut line = String::from("GET /index.html HTTP/1.0\r");
    let req = parse_request(&mut line).expect("three tokens parse");
    assert_eq!(req.method, "GET");
    assert_eq!(req.path, "/index.html");
    assert_eq!(req.http_version, "HTTP/1.0");
}

#[test]
fn parse_ignores_trailing_tokens() {
    let mut line = String::from("POST /form HTTP/1.1 junk here");
    let req = parse_request(&mut line).expect("three tokens parse");
    assert_eq!(req.method, "POST");
    assert_eq!(req.path, "/form");
    assert_eq!(req.http_version, "HTTP/1.1");
}

#[test]
fn parse_leaves_input_unchanged() {
    let mut line = String::from("GET / HTTP/1.1");
    let _ = parse_request(&mut line);
    assert_eq!(line, "GET / HTTP/1.1");
}

#[test]
fn parse_empty_tokens_accepted() {
    let mut line = String::from("  ");
    let req = parse_request(&mut line).expect("two spaces give three empty tokens");
    assert_eq!(req.method, "");
    assert_eq!(req.path, "");
    assert_eq!(req.http_version, "");
}
