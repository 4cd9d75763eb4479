//! The server's configuration and the decisions it takes for one connection.
//!
//! A connection goes through `handle_client`, which reads nothing itself: it
//! is handed the bytes of the one read and says what to do next. Where it asks
//! for a file, `respond_with_file` is handed what the file system gave.

use vstd::prelude::*;
use vstd::utf8::{decode_utf8, valid_utf8};
use crate::request::{request_model, HttpRequest, RequestModel};
use crate::response::{error_response, mime_type, path_extension, response_bytes};

verus! {

/// Bytes read from one connection, at most, before parsing.
pub const READ_BUFFER_SIZE: usize = 4096;

/// Seconds a connection may stay silent before its read is abandoned.
pub const READ_TIMEOUT_SECS: u64 = 30;

/// The text that `String::from_utf8_lossy` makes of a byte sequence.
pub uninterp spec fn lossy_text(b: Seq<u8>) -> Seq<char>;

/// Relies on `String::from_utf8_lossy`: valid UTF-8 is decoded as it stands, and
/// the result depends on the bytes alone.
#[verifier::external_body]
fn decode_lossy(b: &[u8]) -> (r: String)
    ensures
        r@ == lossy_text(b@),
        valid_utf8(b@) ==> r@ == decode_utf8(b@),
{
    String::from_utf8_lossy(b).into_owned()
}

/// The port to listen on and the directory that files are served from.
pub struct HttpServer {
    pub port: u16,
    pub document_root: String,
}

/// What the connection handler does next.
#[derive(Debug, PartialEq, Eq)]
pub enum ConnectionStep {
    /// Close the connection without a response.
    Close,
    /// Send these bytes, then close.
    Respond(Vec<u8>),
    /// Look up the file at this path relative to the document root, and hand
    /// the outcome to `respond_with_file`.
    Fetch(String),
}

/// What the file system gave for a requested file.
#[derive(Debug, PartialEq, Eq)]
pub enum FileOutcome {
    /// There is no such file, or it is a directory.
    Missing,
    /// The file exists but could not be read.
    Unreadable,
    /// The file's whole contents.
    Contents(Vec<u8>),
}

/// A connection step, as mathematical values.
pub enum StepModel {
    Close,
    Respond(Seq<u8>),
    Fetch(Seq<char>),
}

impl View for ConnectionStep {
    type V = StepModel;

    open spec fn view(&self) -> StepModel {
        match self {
            ConnectionStep::Close => StepModel::Close,
            ConnectionStep::Respond(b) => StepModel::Respond(b@),
            ConnectionStep::Fetch(p) => StepModel::Fetch(p@),
        }
    }
}

/// The path of the file that a request path names, relative to the document
/// root: `/` stands for `/index.html`, and one leading slash is dropped.
pub open spec fn target_path(p: Seq<char>) -> Seq<char> {
    let q = if p == "/"@ {
        "/index.html"@
    } else {
        p
    };
    if q.len() > 0 && q[0] == '/' {
        q.drop_first()
    } else {
        q
    }
}

/// The step taken for a parsed request: 405 for any method but `GET`, else
/// a look-up of the file that the path names.
pub open spec fn request_step(req: RequestModel) -> StepModel {
    if req.method != "GET"@ {
        StepModel::Respond(error_response(405, "Method Not Allowed"@))
    } else {
        StepModel::Fetch(target_path(req.path))
    }
}

/// The step taken for the bytes of a connection's one read: nothing read
/// closes it, text that does not parse is answered with 400.
pub open spec fn client_step(data: Seq<u8>) -> StepModel {
    if data.len() == 0 {
        StepModel::Close
    } else {
        match request_model(lossy_text(data)) {
            None => StepModel::Respond(error_response(400, "Bad Request"@)),
            Some(req) => request_step(req),
        }
    }
}

/// The response for a file look-up: 404 for a missing file or a directory, 500
/// for one that could not be read, else 200 with the type that the extension
/// of `full_path` gives.
pub open spec fn file_response(full_path: Seq<char>, outcome: FileOutcome) -> Seq<u8> {
    match outcome {
        FileOutcome::Missing => error_response(404, "Not Found"@),
        FileOutcome::Unreadable => error_response(500, "Internal Server Error"@),
        FileOutcome::Contents(b) => response_bytes(
            200,
            "OK"@,
            mime_type(path_extension(full_path)),
            b@,
        ),
    }
}

impl HttpServer {
    /// A server for `port` and `document_root`.
    pub fn new(port: u16, document_root: String) -> (r: HttpServer)
        ensures
            r.port == port,
            r.document_root@ == document_root@,
    {
        HttpServer { port, document_root }
    }

    /// The step for the bytes that one read from a connection gave.
    pub fn handle_client(data: &[u8]) -> (r: ConnectionStep)
        ensures
            r@ == client_step(data@),
    {
        if data.len() == 0 {
            return ConnectionStep::Close;
        }
        let text = decode_lossy(data);
        match HttpServer::parse_request(text.as_str()) {
            Some(request) => HttpServer::handle_request(&request),
            None => ConnectionStep::Respond(HttpServer::build_error_response(400, "Bad Request")),
        }
    }

    /// The step for a parsed request.
    pub fn handle_request(request: &HttpRequest) -> (r: ConnectionStep)
        ensures
            r@ == request_step(request@),
    {
        if request.method != "GET".to_owned() {
            return ConnectionStep::Respond(
                HttpServer::build_error_response(405, "Method Not Allowed"),
            );
        }
        let p: &str = if request.path == "/".to_owned() {
            "/index.html"
        } else {
            request.path.as_str()
        };
        let n = p.unicode_len();
        let rel: &str = if n > 0 && p.get_char(0) == '/' {
            p.substring_char(1, n)
        } else {
            p
        };
        assert(p@.len() > 0 && p@[0] == '/' ==> rel@ == p@.drop_first());
        ConnectionStep::Fetch(rel.to_owned())
    }

    /// The response once the file that a `Fetch` step named has been looked up
    /// at `full_path`.
    pub fn respond_with_file(full_path: &str, outcome: FileOutcome) -> (r: Vec<u8>)
        ensures
            r@ == file_response(full_path@, outcome),
    {
        match outcome {
            FileOutcome::Missing => HttpServer::build_error_response(404, "Not Found"),
            FileOutcome::Unreadable => HttpServer::build_error_response(
                500,
                "Internal Server Error",
            ),
            FileOutcome::Contents(content) => {
                let content_type = HttpServer::get_content_type(full_path);
                HttpServer::build_response(200, "OK", content_type.as_str(), content.as_slice())
            },
        }
    }
}

} // verus!
