use http_server_rust::HttpServer;

#[test]
fn parses_request_line_and_headers() {
    let req = HttpServer::parse_request("GET /index.html HTTP/1.1\r\nHost: x\r\n\r\n").unwrap();
    assert_eq!(req.method, "GET");
    assert_eq!(req.path, "/index.html");
    assert_eq!(req.version, "HTTP/1.1");
    assert_eq!(req.headers.get("host").map(|v| v.as_str()), Some("x"));
}

#[test]
fn tokens_keep_their_case() {
    let req = HttpServer::parse_request("get /A/B.Html http/1.0\n").unwrap();
    assert_eq!(req.method, "get");
    assert_eq!(req.path, "/A/B.Html");
    assert_eq!(req.version, "http/1.0");
}

#[test]
fn tokens_split_on_any_white_space() {
    let req = HttpServer::parse_request("  GET\t/x \u{a0} HTTP/1.1  \r\n").unwrap();
    assert_eq!(req.method, "GET");
    assert_eq!(req.path, "/x");
    assert_eq!(req.version, "HTTP/1.1");
}

#[test]
fn header_names_lower_cased_and_trimmed() {
    let req =
        HttpServer::parse_request("GET / HTTP/1.1\r\n  Content-TYPE :  text/plain  \r\n\r\n").unwrap();
    assert_eq!(req.headers.get("content-type").map(|v| v.as_str()), Some("text/plain"));
    assert!(req.headers.get("Content-TYPE").is_none());
}

#[test]
fn later_header_wins() {
    let req = HttpServer::parse_request("GET / HTTP/1.1\r\nX-A: 1\r\nx-a: 2\r\n\r\n").unwrap();
    assert_eq!(req.headers.get("x-a").map(|v| v.as_str()), Some("2"));
}

#[test]
fn header_value_split_at_first_colon() {
    let req = HttpServer::parse_request("GET / HTTP/1.1\r\nHost: localhost:8080\r\n").unwrap();
    assert_eq!(req.headers.get("host").map(|v| v.as_str()), Some("localhost:8080"));
}

#[test]
fn blank_line_ends_headers() {
    let req = HttpServer::parse_request("GET / HTTP/1.1\r\nA: 1\r\n   \r\nB: 2\r\n").unwrap();
    assert_eq!(req.headers.get("a").map(|v| v.as_str()), Some("1"));
    assert!(req.headers.get("b").is_none());
}

#[test]
fn line_without_colon_is_skipped() {
    let req = HttpServer::parse_request("GET / HTTP/1.1\r\nnonsense\r\nA: 1\r\n").unwrap();
    assert_eq!(req.headers.get("a").map(|v| v.as_str()), Some("1"));
    assert!(req.headers.get("nonsense").is_none());
}

#[test]
fn empty_text_does_not_parse() {
    assert!(HttpServer::parse_request("").is_none());
}

#[test]
fn one_token_does_not_parse() {
    assert!(HttpServer::parse_request("garbage\r\n\r\n").is_none());
}

#[test]
fn two_tokens_do_not_parse() {
    assert!(HttpServer::parse_request("GET /\r\n").is_none());
}

#[test]
fn four_tokens_do_not_parse() {
    assert!(HttpServer::parse_request("GET / HTTP/1.1 extra\r\n").is_none());
}

#[test]
fn blank_first_line_does_not_parse() {
    assert!(HttpServer::parse_request("\r\nGET / HTTP/1.1\r\n").is_none());
}
