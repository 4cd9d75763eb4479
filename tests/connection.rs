use http_server_rust::{ConnectionStep, FileOutcome, HttpServer, READ_BUFFER_SIZE, READ_TIMEOUT_SECS};

fn error_bytes(code: u16, text: &str) -> Vec<u8> {
    let page = format!("<html><body><h1>{} {}</h1></body></html>", code, text);
    let mut r = format!(
        "HTTP/1.1 {} {}\r\nContent-Type: text/html\r\nContent-Length: {}\r\n\
         Connection: close\r\nServer: HttpServerRust/1.0\r\n\r\n",
        code,
        text,
        page.len()
    )
    .into_bytes();
    r.extend_from_slice(page.as_bytes());
    r
}

#[test]
fn serves_index_file() {
    let step = HttpServer::handle_client(b"GET /index.html HTTP/1.1\r\nHost: x\r\n\r\n");
    assert_eq!(step, ConnectionStep::Fetch("index.html".to_string()));
    let r = HttpServer::respond_with_file("root/index.html", FileOutcome::Contents(b"hi".to_vec()));
    let expected = "HTTP/1.1 200 OK\r\nContent-Type: text/html\r\nContent-Length: 2\r\n\
                    Connection: close\r\nServer: HttpServerRust/1.0\r\n\r\nhi";
    assert_eq!(r, expected.as_bytes());
}

#[test]
fn missing_file_is_404() {
    let step = HttpServer::handle_client(b"GET /missing.txt HTTP/1.1\r\n\r\n");
    assert_eq!(step, ConnectionStep::Fetch("missing.txt".to_string()));
    let r = HttpServer::respond_with_file("root/missing.txt", FileOutcome::Missing);
    assert_eq!(r, error_bytes(404, "Not Found"));
}

#[test]
fn unreadable_file_is_500() {
    let r = HttpServer::respond_with_file("root/secret.txt", FileOutcome::Unreadable);
    assert_eq!(r, error_bytes(500, "Internal Server Error"));
}

#[test]
fn post_is_405() {
    let step = HttpServer::handle_client(b"POST / HTTP/1.1\r\n\r\n");
    assert_eq!(step, ConnectionStep::Respond(error_bytes(405, "Method Not Allowed")));
}

#[test]
fn other_method_with_bad_path_is_405() {
    let step = HttpServer::handle_client(b"DELETE /../../etc/passwd HTTP/1.1\r\n\r\n");
    assert_eq!(step, ConnectionStep::Respond(error_bytes(405, "Method Not Allowed")));
}

#[test]
fn lower_case_get_is_405() {
    let step = HttpServer::handle_client(b"get /index.html HTTP/1.1\r\n\r\n");
    assert_eq!(step, ConnectionStep::Respond(error_bytes(405, "Method Not Allowed")));
}

#[test]
fn garbage_is_400() {
    let step = HttpServer::handle_client(b"garbage\r\n\r\n");
    assert_eq!(step, ConnectionStep::Respond(error_bytes(400, "Bad Request")));
}

#[test]
fn nothing_read_closes_silently() {
    assert_eq!(HttpServer::handle_client(b""), ConnectionStep::Close);
}

#[test]
fn root_path_is_index() {
    let a = HttpServer::handle_client(b"GET / HTTP/1.1\r\n\r\n");
    let b = HttpServer::handle_client(b"GET /index.html HTTP/1.1\r\n\r\n");
    assert_eq!(a, b);
    assert_eq!(a, ConnectionStep::Fetch("index.html".to_string()));
}

#[test]
fn traversal_segments_pass_through() {
    let step = HttpServer::handle_client(b"GET /../outside.txt HTTP/1.1\r\n\r\n");
    assert_eq!(step, ConnectionStep::Fetch("../outside.txt".to_string()));
}

#[test]
fn only_one_leading_slash_dropped() {
    let step = HttpServer::handle_client(b"GET //etc/hosts HTTP/1.1\r\n\r\n");
    assert_eq!(step, ConnectionStep::Fetch("/etc/hosts".to_string()));
    let step = HttpServer::handle_client(b"GET relative.txt HTTP/1.1\r\n\r\n");
    assert_eq!(step, ConnectionStep::Fetch("relative.txt".to_string()));
}

#[test]
fn invalid_utf8_is_replaced() {
    let step = HttpServer::handle_client(b"GET /a\xffb HTTP/1.1\r\n\r\n");
    assert_eq!(step, ConnectionStep::Fetch("a\u{fffd}b".to_string()));
}

#[test]
fn served_file_length_and_type() {
    let body = vec![1u8; 300];
    let r = HttpServer::respond_with_file("root/logo.png", FileOutcome::Contents(body.clone()));
    let head_len = r.len() - body.len();
    let head = String::from_utf8(r[..head_len].to_vec()).unwrap();
    assert!(head.starts_with("HTTP/1.1 200 OK\r\n"));
    assert!(head.contains("\r\nContent-Type: image/png\r\n"));
    assert!(head.contains("\r\nContent-Length: 300\r\n"));
    assert_eq!(&r[head_len..], &body[..]);
}

#[test]
fn truncated_request_still_handled() {
    let mut data = b"GET /big.txt HTTP/1.1\r\nX-Long: ".to_vec();
    data.resize(READ_BUFFER_SIZE, b'a');
    let step = HttpServer::handle_client(&data);
    assert_eq!(step, ConnectionStep::Fetch("big.txt".to_string()));
}

#[test]
fn connection_limits() {
    assert_eq!(READ_BUFFER_SIZE, 4096);
    assert_eq!(READ_TIMEOUT_SECS, 30);
}

#[test]
fn server_keeps_configuration() {
    let s = HttpServer::new(8080, "./Pub".to_string());
    assert_eq!(s.port, 8080);
    assert_eq!(s.document_root, "./Pub");
}
