//! Properties that hold across the parser, the connection handler and the
//! response framing.

use vstd::prelude::*;
use crate::request::{first_colon, header_entry, header_fold, lower_of, request_model, RequestModel};
use crate::response::{decimal, error_response, mime_type, path_extension, response_head};
use crate::server::{client_step, file_response, lossy_text, request_step, FileOutcome, StepModel};
use crate::text::{text_lines, tokens, trim};

verus! {

/// A request text whose first line holds exactly three tokens parses, and its
/// method, path and version are those tokens as they stand.
pub proof fn lemma_three_tokens_parse(t: Seq<char>)
    requires
        text_lines(t).len() > 0,
        tokens(text_lines(t)[0]).len() == 3,
    ensures
        request_model(t) is Some,
        request_model(t)->Some_0.method == tokens(text_lines(t)[0])[0],
        request_model(t)->Some_0.path == tokens(text_lines(t)[0])[1],
        request_model(t)->Some_0.version == tokens(text_lines(t)[0])[2],
{
}

/// Bytes that decode to text without a first line of exactly three tokens do
/// not parse, and the connection is answered with 400.
pub proof fn lemma_bad_request_line(data: Seq<u8>)
    requires
        data.len() > 0,
        text_lines(lossy_text(data)).len() == 0 || tokens(text_lines(lossy_text(data))[0]).len()
            != 3,
    ensures
        request_model(lossy_text(data)) is None,
        client_step(data) == StepModel::Respond(error_response(400, "Bad Request"@)),
{
}

/// A header line `name:value`, with no colon in `name`, sets the trimmed,
/// lower-cased name to the trimmed value, replacing what earlier lines set.
pub proof fn lemma_header_line(ls: Seq<Seq<char>>, name: Seq<char>, value: Seq<char>)
    requires
        forall|j: int| 0 <= j < name.len() ==> name[j] != ':',
    ensures
        header_fold(ls.push(name + seq![':'] + value)) == header_fold(ls).insert(
            lower_of(trim(name)),
            trim(value),
        ),
        header_fold(ls.push(name + seq![':'] + value))[lower_of(trim(name))] == trim(value),
{
    let l = name + seq![':'] + value;
    let p = name.len() as int;
    assert(first_colon(l, p));
    let q = choose|q: int| first_colon(l, q);
    assert(q == p);
    assert(l.take(p) =~= name);
    assert(l.skip(p + 1) =~= value);
    assert(ls.push(l).drop_last() =~= ls);
    assert(header_entry(l) == Some((lower_of(trim(name)), trim(value))));
}

/// `GET /` is handled exactly as `GET /index.html`.
pub proof fn lemma_root_is_index(req: RequestModel)
    requires
        req.path == "/"@,
    ensures
        request_step(req) == request_step(RequestModel { path: "/index.html"@, ..req }),
{
}

/// A method other than `GET` is answered with 405, whatever the path.
pub proof fn lemma_other_method(req: RequestModel)
    requires
        req.method != "GET"@,
    ensures
        request_step(req) == StepModel::Respond(error_response(405, "Method Not Allowed"@)),
{
}

/// The path of a `GET` request reaches the file look-up with only its leading
/// slash dropped: `..` segments are neither resolved nor rejected.
pub proof fn lemma_path_not_normalized(req: RequestModel)
    requires
        req.method == "GET"@,
        req.path != "/"@,
    ensures
        request_step(req) == StepModel::Fetch(
            if req.path.len() > 0 && req.path[0] == '/' {
                req.path.drop_first()
            } else {
                req.path
            },
        ),
{
}

/// The number that ASCII decimal digits stand for.
pub open spec fn digits_value(s: Seq<u8>) -> nat
    decreases s.len(),
{
    if s.len() == 0 {
        0
    } else {
        digits_value(s.drop_last()) * 10 + (s.last() - 48) as nat
    }
}

/// The digits written for a number read back as that number.
pub proof fn lemma_decimal_round_trip(n: nat)
    ensures
        digits_value(decimal(n)) == n,
    decreases n,
{
    if n >= 10 {
        lemma_decimal_round_trip(n / 10);
        assert(decimal(n).drop_last() == decimal(n / 10));
        assert(decimal(n).last() as int == 48 + n % 10);
        assert(digits_value(decimal(n)) == digits_value(decimal(n / 10)) * 10 + n % 10);
        assert((n / 10) * 10 + n % 10 == n) by (nonlinear_arith);
    } else {
        assert(decimal(n).drop_last() =~= Seq::<u8>::empty());
        assert(decimal(n).last() as int == 48 + n);
        assert(digits_value(decimal(n)) == digits_value(Seq::<u8>::empty()) * 10 + n);
    }
}

/// A served file of N bytes is sent with status 200, the content type of its
/// extension, a `Content-Length` whose digits read back as N, and the file's
/// bytes as the body.
pub proof fn lemma_file_round_trip(full_path: Seq<char>, body: Vec<u8>)
    ensures
        file_response(full_path, FileOutcome::Contents(body)) == response_head(
            200,
            "OK"@,
            mime_type(path_extension(full_path)),
            body@.len(),
        ) + body@,
        digits_value(decimal(body@.len())) == body@.len(),
{
    lemma_decimal_round_trip(body@.len());
}

} // verus!
