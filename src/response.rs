//! Response framing: status line, fixed header block, body; error pages and
//! content types.

use vstd::prelude::*;
use vstd::utf8::encode_utf8;
use crate::server::HttpServer;

verus! {

/// The decimal digits of `n`, as ASCII bytes, without leading zeros.
pub open spec fn decimal(n: nat) -> Seq<u8>
    decreases n,
{
    if n < 10 {
        seq![(48 + n) as u8]
    } else {
        decimal(n / 10).push((48 + n % 10) as u8)
    }
}

/// The status line and header block of a response whose body is `len` bytes long.
pub open spec fn response_head(code: nat, text: Seq<char>, content_type: Seq<char>, len: nat) -> Seq<
    u8,
> {
    encode_utf8("HTTP/1.1 "@) + decimal(code) + encode_utf8(" "@) + encode_utf8(text) + encode_utf8(
        "\r\n"@,
    ) + encode_utf8("Content-Type: "@) + encode_utf8(content_type) + encode_utf8("\r\n"@)
        + encode_utf8("Content-Length: "@) + decimal(len) + encode_utf8("\r\n"@) + encode_utf8(
        "Connection: close\r\n"@,
    ) + encode_utf8("Server: HttpServerRust/1.0\r\n"@) + encode_utf8("\r\n"@)
}

/// A whole response: head, then the body verbatim.
pub open spec fn response_bytes(code: nat, text: Seq<char>, content_type: Seq<char>, body: Seq<u8>) -> Seq<
    u8,
> {
    response_head(code, text, content_type, body.len()) + body
}

/// The HTML page sent with a failure status.
pub open spec fn error_page(code: nat, text: Seq<char>) -> Seq<u8> {
    encode_utf8("<html><body><h1>"@) + decimal(code) + encode_utf8(" "@) + encode_utf8(text)
        + encode_utf8("</h1></body></html>"@)
}

/// A whole failure response.
pub open spec fn error_response(code: nat, text: Seq<char>) -> Seq<u8> {
    response_bytes(code, text, "text/html"@, error_page(code, text))
}

/// The content type of a file extension; `None` is a path without one.
pub open spec fn mime_type(ext: Option<Seq<char>>) -> Seq<char> {
    match ext {
        Some(e) => if e == "html"@ || e == "htm"@ {
            "text/html"@
        } else if e == "css"@ {
            "text/css"@
        } else if e == "js"@ {
            "application/javascript"@
        } else if e == "png"@ {
            "image/png"@
        } else if e == "jpg"@ || e == "jpeg"@ {
            "image/jpeg"@
        } else if e == "gif"@ {
            "image/gif"@
        } else if e == "svg"@ {
            "image/svg+xml"@
        } else if e == "ico"@ {
            "image/x-icon"@
        } else if e == "json"@ {
            "application/json"@
        } else if e == "xml"@ {
            "application/xml"@
        } else if e == "pdf"@ {
            "application/pdf"@
        } else if e == "txt"@ {
            "text/plain"@
        } else {
            "application/octet-stream"@
        },
        None => "application/octet-stream"@,
    }
}

/// The extension of a path, as `Path::extension` finds it.
pub uninterp spec fn path_extension(p: Seq<char>) -> Option<Seq<char>>;

/// The view of an optional string.
pub open spec fn opt_view(o: Option<String>) -> Option<Seq<char>> {
    match o {
        Some(s) => Some(s@),
        None => None,
    }
}

/// Relies on `std::path::Path::extension`: the part of the file name after its
/// last dot, which depends on the path's text alone.
#[verifier::external_body]
fn file_extension(p: &str) -> (r: Option<String>)
    ensures
        opt_view(r) == path_extension(p@),
{
    let ext = std::path::Path::new(p).extension()?;
    Some(ext.to_str()?.to_owned())
}

/// Appends the bytes `b` to `out`.
fn push_bytes(out: &mut Vec<u8>, b: &[u8])
    ensures
        final(out)@ == old(out)@ + b@,
{
    let ghost start = out@;
    let mut i: usize = 0;
    while i < b.len()
        invariant
            i <= b.len(),
            out@ == start + b@.take(i as int),
        decreases b.len() - i,
    {
        out.push(b[i]);
        i = i + 1;
        assert(out@ =~= start + b@.take(i as int));
    }
    assert(b@.take(b.len() as int) =~= b@);
}

/// Appends the UTF-8 encoding of `s` to `out`.
fn push_str(out: &mut Vec<u8>, s: &str)
    ensures
        final(out)@ == old(out)@ + encode_utf8(s@),
{
    push_bytes(out, s.as_bytes());
}

/// Appends the decimal digits of `n` to `out`.
fn push_decimal(out: &mut Vec<u8>, n: usize)
    ensures
        final(out)@ == old(out)@ + decimal(n as nat),
    decreases n,
{
    let ghost start = out@;
    if n >= 10 {
        push_decimal(out, n / 10);
    }
    out.push((48 + n % 10) as u8);
    assert(out@ =~= start + decimal(n as nat));
}

impl HttpServer {
    /// Frames a response: status line, the fixed header block with the body's
    /// exact length, then the body verbatim.
    pub fn build_response(status_code: u16, status_text: &str, content_type: &str, content: &[u8]) -> (r:
        Vec<u8>)
        ensures
            r@ == response_bytes(status_code as nat, status_text@, content_type@, content@),
    {
        let mut out: Vec<u8> = Vec::new();
        push_str(&mut out, "HTTP/1.1 ");
        push_decimal(&mut out, status_code as usize);
        push_str(&mut out, " ");
        push_str(&mut out, status_text);
        push_str(&mut out, "\r\n");
        push_str(&mut out, "Content-Type: ");
        push_str(&mut out, content_type);
        push_str(&mut out, "\r\n");
        push_str(&mut out, "Content-Length: ");
        push_decimal(&mut out, content.len());
        push_str(&mut out, "\r\n");
        push_str(&mut out, "Connection: close\r\n");
        push_str(&mut out, "Server: HttpServerRust/1.0\r\n");
        push_str(&mut out, "\r\n");
        push_bytes(&mut out, content);
        assert(out@ =~= response_bytes(status_code as nat, status_text@, content_type@, content@));
        out
    }

    /// Frames a failure response whose body is a small HTML page naming the status.
    pub fn build_error_response(status_code: u16, status_text: &str) -> (r: Vec<u8>)
        ensures
            r@ == error_response(status_code as nat, status_text@),
    {
        let mut page: Vec<u8> = Vec::new();
        push_str(&mut page, "<html><body><h1>");
        push_decimal(&mut page, status_code as usize);
        push_str(&mut page, " ");
        push_str(&mut page, status_text);
        push_str(&mut page, "</h1></body></html>");
        assert(page@ =~= error_page(status_code as nat, status_text@));
        HttpServer::build_response(status_code, status_text, "text/html", page.as_slice())
    }

    /// The content type of a file extension, from a fixed table; anything else
    /// is `application/octet-stream`.
    pub fn content_type_for(ext: Option<&str>) -> (r: String)
        ensures
            r@ == mime_type(
                match ext {
                    Some(e) => Some(e@),
                    None => None,
                },
            ),
    {
        match ext {
            None => "application/octet-stream".to_owned(),
            Some(e) => {
                let e = e.to_owned();
                if e == "html".to_owned() || e == "htm".to_owned() {
                    "text/html".to_owned()
                } else if e == "css".to_owned() {
                    "text/css".to_owned()
                } else if e == "js".to_owned() {
                    "application/javascript".to_owned()
                } else if e == "png".to_owned() {
                    "image/png".to_owned()
                } else if e == "jpg".to_owned() || e == "jpeg".to_owned() {
                    "image/jpeg".to_owned()
                } else if e == "gif".to_owned() {
                    "image/gif".to_owned()
                } else if e == "svg".to_owned() {
                    "image/svg+xml".to_owned()
                } else if e == "ico".to_owned() {
                    "image/x-icon".to_owned()
                } else if e == "json".to_owned() {
                    "application/json".to_owned()
                } else if e == "xml".to_owned() {
                    "application/xml".to_owned()
                } else if e == "pdf".to_owned() {
                    "application/pdf".to_owned()
                } else if e == "txt".to_owned() {
                    "text/plain".to_owned()
                } else {
                    "application/octet-stream".to_owned()
                }
            },
        }
    }

    /// The content type of the file at `file_path`, from its extension.
    pub fn get_content_type(file_path: &str) -> (r: String)
        ensures
            r@ == mime_type(path_extension(file_path@)),
    {
        let ext = file_extension(file_path);
        match ext {
            Some(e) => HttpServer::content_type_for(Some(e.as_str())),
            None => HttpServer::content_type_for(None),
        }
    }
}

} // verus!
