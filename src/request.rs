//! The request parser: from decoded text to a request line and its headers.

use vstd::prelude::*;
use crate::headers::HeaderMap;
use crate::server::HttpServer;
use crate::text::{
    chars_of, split_lines, split_tokens, text_lines, tokens, trim, trimmed, views,
};

verus! {

/// The lower-case form of a string, as `str::to_lowercase` gives it.
pub uninterp spec fn lower_of(s: Seq<char>) -> Seq<char>;

/// Relies on `str::to_lowercase`: its result depends on the characters of `s` alone.
#[verifier::external_body]
fn lowercase(s: &str) -> (r: String)
    ensures
        r@ == lower_of(s@),
{
    s.to_lowercase()
}

/// Relies on `String`'s `FromIterator<&char>`: the string holds the characters in order.
#[verifier::external_body]
fn string_of(v: &Vec<char>) -> (r: String)
    ensures
        r@ == v@,
{
    v.iter().collect()
}

/// A parsed request, as mathematical values.
pub struct RequestModel {
    pub method: Seq<char>,
    pub path: Seq<char>,
    pub version: Seq<char>,
    pub headers: Map<Seq<char>, Seq<char>>,
}

/// A parsed request: the three parts of its request line and its headers,
/// names lower-cased.
#[derive(Debug)]
pub struct HttpRequest {
    pub method: String,
    pub path: String,
    pub version: String,
    pub headers: HeaderMap,
}

impl View for HttpRequest {
    type V = RequestModel;

    open spec fn view(&self) -> RequestModel {
        RequestModel {
            method: self.method@,
            path: self.path@,
            version: self.version@,
            headers: self.headers@,
        }
    }
}

/// `p` is the position of the first colon in `l`.
pub open spec fn first_colon(l: Seq<char>, p: int) -> bool {
    &&& 0 <= p < l.len()
    &&& l[p] == ':'
    &&& forall|j: int| 0 <= j < p ==> l[j] != ':'
}

/// The entry that a header line gives: split at its first colon, the name
/// trimmed and lower-cased, the value trimmed; none where it has no colon.
pub open spec fn header_entry(l: Seq<char>) -> Option<(Seq<char>, Seq<char>)> {
    if exists|p: int| first_colon(l, p) {
        let p = choose|p: int| first_colon(l, p);
        Some((lower_of(trim(l.take(p))), trim(l.skip(p + 1))))
    } else {
        None
    }
}

/// A line that holds nothing but white space ends the header block.
pub open spec fn is_blank(l: Seq<char>) -> bool {
    trim(l).len() == 0
}

/// The lines before the first blank one.
pub open spec fn header_block(ls: Seq<Seq<char>>) -> Seq<Seq<char>>
    decreases ls.len(),
{
    if ls.len() == 0 || is_blank(ls[0]) {
        Seq::empty()
    } else {
        seq![ls[0]] + header_block(ls.drop_first())
    }
}

/// The headers that lines give, in order: a later name replaces an earlier one.
pub open spec fn header_fold(ls: Seq<Seq<char>>) -> Map<Seq<char>, Seq<char>>
    decreases ls.len(),
{
    if ls.len() == 0 {
        Map::empty()
    } else {
        let m = header_fold(ls.drop_last());
        match header_entry(ls.last()) {
            Some(e) => m.insert(e.0, e.1),
            None => m,
        }
    }
}

/// What a request text parses to: none where it has no line or its first line
/// does not hold exactly three tokens.
pub open spec fn request_model(t: Seq<char>) -> Option<RequestModel> {
    let ls = text_lines(t);
    if ls.len() == 0 {
        None
    } else {
        let w = tokens(ls[0]);
        if w.len() != 3 {
            None
        } else {
            Some(
                RequestModel {
                    method: w[0],
                    path: w[1],
                    version: w[2],
                    headers: header_fold(header_block(ls.drop_first())),
                },
            )
        }
    }
}

proof fn lemma_header_block(ls: Seq<Seq<char>>, k: int)
    requires
        0 <= k <= ls.len(),
        forall|j: int| 0 <= j < k ==> !is_blank(#[trigger] ls[j]),
        k == ls.len() || is_blank(ls[k]),
    ensures
        header_block(ls) == ls.take(k),
    decreases k,
{
    if k > 0 {
        let d = ls.drop_first();
        assert(forall|j: int| 0 <= j < k - 1 ==> d[j] == ls[j + 1]);
        lemma_header_block(d, k - 1);
        assert(ls.take(k) =~= seq![ls[0]] + d.take(k - 1));
    }
}

/// Whether a line holds nothing but white space.
fn blank_line(l: &Vec<char>) -> (r: bool)
    ensures
        r == is_blank(l@),
{
    let t = trimmed(l, 0, l.len());
    assert(l@.subrange(0, l.len() as int) =~= l@);
    t.len() == 0
}

/// Adds the entry of one header line to `headers`, if the line has a colon.
fn add_header_line(headers: &mut HeaderMap, l: &Vec<char>)
    requires
        old(headers).wf(),
    ensures
        final(headers).wf(),
        final(headers)@ == match header_entry(l@) {
            Some(e) => old(headers)@.insert(e.0, e.1),
            None => old(headers)@,
        },
{
    let mut p: usize = 0;
    while p < l.len() && l[p] != ':'
        invariant
            p <= l.len(),
            forall|j: int| 0 <= j < p ==> l@[j] != ':',
        decreases l.len() - p,
    {
        p = p + 1;
    }
    if p < l.len() {
        proof {
            assert(first_colon(l@, p as int));
            let q = choose|q: int| first_colon(l@, q);
            assert(q == p);
        }
        let name = trimmed(l, 0, p);
        let value = trimmed(l, p + 1, l.len());
        assert(l@.take(p as int) =~= l@.subrange(0, p as int));
        assert(l@.skip(p + 1) =~= l@.subrange(p + 1, l.len() as int));
        let name_text = string_of(&name);
        let key = lowercase(name_text.as_str());
        headers.insert(key, string_of(&value));
    } else {
        assert(!exists|q: int| first_colon(l@, q));
    }
}

impl HttpServer {
    /// Parses a request text: a request line of exactly three tokens
    /// (method, path, version), then header lines up to the first blank one.
    pub fn parse_request(request_data: &str) -> (r: Option<HttpRequest>)
        ensures
            r is None <==> request_model(request_data@) is None,
            r matches Some(req) ==> req@ == request_model(request_data@)->Some_0
                && req.headers.wf(),
    {
        let text = chars_of(request_data);
        let lines = split_lines(&text);
        let ghost ls = views(lines@);
        if lines.len() == 0 {
            return None;
        }
        assert(ls[0] == lines@[0]@);
        let parts = split_tokens(&lines[0]);
        if parts.len() != 3 {
            return None;
        }
        assert(views(parts@)[0] == parts@[0]@ && views(parts@)[1] == parts@[1]@ && views(
            parts@,
        )[2] == parts@[2]@);
        let method = string_of(&parts[0]);
        let path = string_of(&parts[1]);
        let version = string_of(&parts[2]);
        let mut k: usize = 1;
        while k < lines.len() && !blank_line(&lines[k])
            invariant
                1 <= k <= lines.len(),
                ls == views(lines@),
                forall|j: int| 1 <= j < k ==> !is_blank(#[trigger] ls[j]),
            decreases lines.len() - k,
        {
            k = k + 1;
        }
        proof {
            let d = ls.drop_first();
            assert(forall|j: int| 0 <= j < k - 1 ==> d[j] == ls[j + 1]);
            lemma_header_block(d, k - 1);
        }
        let mut headers = HeaderMap::new();
        let mut i: usize = 1;
        while i < k
            invariant
                1 <= i <= k <= lines.len(),
                ls == views(lines@),
                headers.wf(),
                headers@ == header_fold(ls.subrange(1, i as int)),
            decreases k - i,
        {
            add_header_line(&mut headers, &lines[i]);
            assert(ls.subrange(1, i + 1).drop_last() =~= ls.subrange(1, i as int));
            i = i + 1;
        }
        assert(ls.drop_first().take(k - 1) =~= ls.subrange(1, k as int));
        Some(HttpRequest { method, path, version, headers })
    }
}

} // verus!
