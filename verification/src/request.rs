//! The request view the routing core works on: a method, normalized path
//! segments, lowercased headers and an optional body, together with the pure
//! parsing steps that build one from a raw request head.
use vstd::prelude::*;
use crate::method::{Method, ParseMethodError, spec_parse_method};
use crate::response::IntoResponse;
use crate::text::{
    find_char,
    find_char_at,
    join_slash,
    join_with_slash,
    lower_seq,
    split_drop,
    split_str,
    to_lowercase_ascii,
    trim,
    trim_seq,
    views_of,
};

verus! {

/// The mathematical shape of a request: what the filters and their contracts
/// see.
pub struct ReqView {
    pub method: Method,
    pub segments: Seq<Seq<char>>,
    pub headers: Seq<(Seq<char>, Seq<char>)>,
    pub body: Option<Seq<u8>>,
}

/// The value of the first header named `name`, if any.
pub open spec fn header_lookup(
    headers: Seq<(Seq<char>, Seq<char>)>,
    name: Seq<char>,
) -> Option<Seq<char>>
    decreases headers.len(),
{
    if headers.len() == 0 {
        None
    } else if headers[0].0 == name {
        Some(headers[0].1)
    } else {
        header_lookup(headers.drop_first(), name)
    }
}

/// The views of a header list, with the names ASCII-lowercased.
pub open spec fn headers_view(headers: Seq<(String, String)>) -> Seq<(Seq<char>, Seq<char>)> {
    headers.map_values(|p: (String, String)| (lower_seq(p.0@), p.1@))
}

/// The views of a header list, as stored.
pub open spec fn pair_views(headers: Seq<(String, String)>) -> Seq<(Seq<char>, Seq<char>)> {
    headers.map_values(|p: (String, String)| (p.0@, p.1@))
}

/// A parsed request.  The path is held as its non-empty segments, header
/// names are stored ASCII-lowercased, and lookups lowercase the queried name.
#[derive(Debug, Clone)]
pub struct Request {
    method: Method,
    path_segments: Vec<String>,
    headers: Vec<(String, String)>,
    body: Option<Vec<u8>>,
}

impl View for Request {
    type V = ReqView;

    closed spec fn view(&self) -> ReqView {
        ReqView {
            method: self.method,
            segments: views_of(self.path_segments@),
            headers: pair_views(self.headers@),
            body: match self.body {
                Some(b) => Some(b@),
                None => None,
            },
        }
    }
}

impl Request {
    /// Build a request.  The path is split at `/` and empty segments are
    /// dropped, so `"/"` yields no segments and `"/a//b/"` yields `a`, `b`;
    /// header names are lowercased.
    pub fn new(method: Method, path: &str, headers: Vec<(String, String)>, body: Option<
        Vec<u8>,
    >) -> (r: Request)
        ensures
            r@.method == method,
            r@.segments == split_drop(path@, '/'),
            forall|k: int|
                0 <= k < r@.segments.len() ==> (#[trigger] r@.segments[k]).len() > 0
                    && !r@.segments[k].contains('/'),
            r@.headers == headers_view(headers@),
            r@.body == match body {
                Some(b) => Some(b@),
                None => None::<Seq<u8>>,
            },
    {
        proof {
            crate::text::lemma_split_drop_pieces(path@, '/');
        }
        let path_segments = split_str(path, '/');
        let mut lowered: Vec<(String, String)> = Vec::new();
        let mut i: usize = 0;
        while i < headers.len()
            invariant
                i <= headers@.len(),
                pair_views(lowered@) == headers_view(headers@.take(i as int)),
            decreases headers@.len() - i,
        {
            let ghost before = lowered@;
            let name = to_lowercase_ascii(headers[i].0.as_str());
            let value = headers[i].1.clone();
            let ghost gname = name@;
            let ghost gvalue = value@;
            lowered.push((name, value));
            proof {
                assert(pair_views(before).len() == before.len());
                assert(headers_view(headers@.take(i as int)).len() == headers@.take(
                    i as int,
                ).len());
                assert(before.len() == i);
                assert forall|j: int| 0 <= j < pair_views(lowered@).len() implies pair_views(
                    lowered@,
                )[j] == headers_view(headers@.take(i + 1))[j] by {
                    if j < i {
                        assert(lowered@[j] == before[j]);
                        assert(pair_views(before)[j] == headers_view(headers@.take(i as int))[j]);
                        assert(headers@.take(i as int)[j] == headers@.take(i + 1)[j]);
                    } else {
                        assert(lowered@[j].0@ == gname && lowered@[j].1@ == gvalue);
                        assert(headers@.take(i + 1)[j] == headers@[i as int]);
                    }
                }
                assert(pair_views(lowered@) =~= headers_view(headers@.take(i + 1)));
            }
            i += 1;
        }
        proof {
            assert(headers@.take(headers@.len() as int) =~= headers@);
        }
        let r = Request { method, path_segments, headers: lowered, body };
        proof {
            assert(r@.segments =~= split_drop(path@, '/'));
        }
        r
    }

    /// The number of path segments always fits in a machine word.
    pub proof fn lemma_segment_count(&self)
        ensures
            self@.segments.len() <= usize::MAX,
    {
        assert(self.path_segments.len() == self.path_segments@.len());
        assert(self@.segments.len() == self.path_segments@.len());
    }

    /// The request's method.
    pub fn method(&self) -> (r: &Method)
        ensures
            *r == self@.method,
    {
        &self.method
    }

    /// The normalized path: the segments joined with `/`.
    pub fn path(&self) -> (r: String)
        ensures
            r@ == join_slash(self@.segments),
    {
        join_with_slash(&self.path_segments)
    }

    /// All path segments.
    pub fn path_segments(&self) -> (r: &Vec<String>)
        ensures
            views_of(r@) == self@.segments,
    {
        &self.path_segments
    }

    /// The segment at `index`, if the path is that long.
    pub fn path_segment(&self, index: usize) -> (r: Option<&str>)
        ensures
            match r {
                Some(s) => index < self@.segments.len() && s@ == self@.segments[index as int],
                None => index >= self@.segments.len(),
            },
    {
        if index < self.path_segments.len() {
            Some(self.path_segments[index].as_str())
        } else {
            None
        }
    }

    /// All headers, names lowercased, in the order given at construction.
    pub fn headers(&self) -> (r: &Vec<(String, String)>)
        ensures
            pair_views(r@) == self@.headers,
    {
        &self.headers
    }

    /// Look a header up by name, ignoring the name's ASCII case.  The first
    /// header with that name wins.
    pub fn header(&self, name: &str) -> (r: Option<&str>)
        ensures
            match r {
                Some(s) => header_lookup(self@.headers, lower_seq(name@)) == Some(s@),
                None => header_lookup(self@.headers, lower_seq(name@)) is None,
            },
    {
        let lname = to_lowercase_ascii(name);
        let ghost target = lower_seq(name@);
        let mut i: usize = 0;
        proof {
            assert(self@.headers.skip(0) =~= self@.headers);
        }
        while i < self.headers.len()
            invariant
                i <= self@.headers.len(),
                self@.headers.len() == self.headers@.len(),
                lname@ == target,
                target == lower_seq(name@),
                forall|j: int|
                    0 <= j < self.headers@.len() ==> #[trigger] self@.headers[j] == (
                    self.headers@[j].0@,
                    self.headers@[j].1@,
                ),
                header_lookup(self@.headers, target) == header_lookup(
                    self@.headers.skip(i as int),
                    target,
                ),
            decreases self.headers@.len() - i,
        {
            proof {
                assert(self@.headers.skip(i as int)[0] == self@.headers[i as int]);
                assert(self@.headers.skip(i as int).drop_first() =~= self@.headers.skip(i + 1));
            }
            if self.headers[i].0.eq(&lname) {
                proof {
                    assert(self@.headers[i as int].0 == target);
                    assert(header_lookup(self@.headers.skip(i as int), target) == Some(
                        self@.headers[i as int].1,
                    ));
                }
                return Some(self.headers[i].1.as_str());
            }
            i += 1;
        }
        proof {
            assert(self@.headers.skip(self@.headers.len() as int)
                =~= Seq::<(Seq<char>, Seq<char>)>::empty());
        }
        None
    }

    /// The request body, if one was given.
    pub fn body(&self) -> (r: Option<&[u8]>)
        ensures
            match r {
                Some(s) => self@.body == Some(s@),
                None => self@.body is None,
            },
    {
        match &self.body {
            Some(b) => Some(b.as_slice()),
            None => None,
        }
    }
}

/// Why a raw request head was rejected.
#[derive(Debug, Clone, PartialEq, Eq, Structural)]
pub enum ParseError {
    IoError,
    MalformedRequest,
    UnrecognizedMethod,
    InvalidContentLength,
}

impl ParseError {
    /// A human-readable description of the error.
    pub fn message(&self) -> (r: &'static str)
        ensures
            r@ == spec_parse_error_message(*self),
    {
        match self {
            ParseError::IoError => "I/O error",
            ParseError::MalformedRequest => "malformed request",
            ParseError::UnrecognizedMethod => "unrecognized method",
            ParseError::InvalidContentLength => "invalid content-length",
        }
    }
}

pub open spec fn spec_parse_error_message(e: ParseError) -> Seq<char> {
    match e {
        ParseError::IoError => "I/O error"@,
        ParseError::MalformedRequest => "malformed request"@,
        ParseError::UnrecognizedMethod => "unrecognized method"@,
        ParseError::InvalidContentLength => "invalid content-length"@,
    }
}

/// What a request line means: its first space-separated token names the
/// method, the second is the path; anything shorter is malformed.
pub open spec fn spec_parse_request_line(line: Seq<char>) -> Result<(Method, Seq<char>), ParseError> {
    let parts = split_drop(line, ' ');
    if parts.len() < 2 {
        Err(ParseError::MalformedRequest)
    } else {
        match spec_parse_method(parts[0]) {
            Some(m) => Ok((m, parts[1])),
            None => Err(ParseError::UnrecognizedMethod),
        }
    }
}

/// Parse a request line such as `GET /index.html HTTP/1.1` into its method
/// and path.
pub fn parse_request_line(line: &str) -> (r: Result<(Method, String), ParseError>)
    ensures
        match r {
            Ok((m, p)) => spec_parse_request_line(line@) == Ok::<_, ParseError>((m, p@)),
            Err(e) => spec_parse_request_line(line@) == Err::<(Method, Seq<char>), _>(e),
        },
{
    let parts = split_str(line, ' ');
    if parts.len() < 2 {
        return Err(ParseError::MalformedRequest);
    }
    proof {
        assert(views_of(parts@)[0] == parts@[0]@);
        assert(views_of(parts@)[1] == parts@[1]@);
    }
    match Method::parse(parts[0].as_str()) {
        Ok(m) => Ok((m, parts[1].clone())),
        Err(_) => Err(ParseError::UnrecognizedMethod),
    }
}

/// What a header line means: the text before the first `:` is the name
/// (trimmed, lowercased), the text after it is the value (trimmed).  A line
/// without `:` carries no header.
pub open spec fn spec_parse_header_line(line: Seq<char>) -> Option<(Seq<char>, Seq<char>)> {
    let k = find_char(line, ':');
    if k == line.len() {
        None
    } else {
        Some(
            (
                lower_seq(trim_seq(line.subrange(0, k))),
                trim_seq(line.subrange(k + 1, line.len() as int)),
            ),
        )
    }
}

/// Parse one header line, `Name: value`.
pub fn parse_header_line(line: &str) -> (r: Option<(String, String)>)
    ensures
        match r {
            Some((k, v)) => spec_parse_header_line(line@) == Some((k@, v@)),
            None => spec_parse_header_line(line@) is None,
        },
{
    let n = line.unicode_len();
    let k = find_char_at(line, ':');
    if k == n {
        return None;
    }
    proof {
        crate::text::lemma_find_char(line@, ':');
    }
    let name_raw = line.substring_char(0, k);
    let value_raw = line.substring_char(k + 1, n);
    let name = to_lowercase_ascii(trim(name_raw).as_str());
    let value = trim(value_raw);
    Some((name, value))
}

/// The body length a header list calls for: the value of the first
/// `content-length` header, which must be a decimal numeral that fits in
/// `usize`; no such header means no body.
pub open spec fn spec_content_length(headers: Seq<(Seq<char>, Seq<char>)>) -> Result<
    Option<int>,
    ParseError,
> {
    match header_lookup(headers, "content-length"@) {
        None => Ok(None),
        Some(v) => if crate::text::is_numeral(v) && crate::text::dec_val(
            crate::text::numeral_body(v),
        ) <= usize::MAX {
            Ok(Some(crate::text::dec_val(crate::text::numeral_body(v))))
        } else {
            Err(ParseError::InvalidContentLength)
        },
    }
}

/// How many body bytes the request head announces.
pub fn content_length(req: &Request) -> (r: Result<Option<usize>, ParseError>)
    ensures
        match r {
            Ok(Some(v)) => spec_content_length(req@.headers) == Ok::<_, ParseError>(
                Some(v as int),
            ),
            Ok(None) => spec_content_length(req@.headers) == Ok::<Option<int>, ParseError>(None),
            Err(e) => spec_content_length(req@.headers) == Err::<Option<int>, _>(e),
        },
{
    match req.header("content-length") {
        None => {
            proof {
                assert(lower_seq("content-length"@) =~= "content-length"@) by {
                    lemma_lower_content_length();
                }
            }
            Ok(None)
        },
        Some(v) => {
            proof {
                assert(lower_seq("content-length"@) =~= "content-length"@) by {
                    lemma_lower_content_length();
                }
            }
            match crate::text::parse_usize(v) {
                Some(n) => Ok(Some(n)),
                None => Err(ParseError::InvalidContentLength),
            }
        },
    }
}

/// The name `content-length` is already lowercase.
proof fn lemma_lower_content_length()
    ensures
        lower_seq("content-length"@) =~= "content-length"@,
{
    reveal_strlit("content-length");
    assert forall|j: int| 0 <= j < lower_seq("content-length"@).len() implies lower_seq(
        "content-length"@,
    )[j] == "content-length"@[j] by {
        assert(!('A' <= "content-length"@[j] && "content-length"@[j] <= 'Z'));
    }
}

/// Something that can answer a request.  `handle_post(req, resp)` is the
/// promise an implementation makes about its responses; `handler_ok` is what
/// it asks of its own state.
pub trait RequestHandler: Send + Sync {
    /// What the handler requires before it can run.
    spec fn handler_ok(&self) -> bool;

    /// The relation between a request and the responses the handler may give
    /// it.
    spec fn handle_post(&self, req: ReqView, resp: crate::response::RespView) -> bool;

    /// Answer a request.
    fn handle(&self, req: &Request) -> (r: crate::response::Response)
        requires
            self.handler_ok(),
        ensures
            self.handle_post(req@, r@),
    ;
}

/// The handler adapter: any filter whose extract converts to a response
/// answers requests.  A request is answered from the filter's extract exactly
/// when the filter matches at the start of the path and consumes all of it;
/// a match that leaves segments unconsumed, like no match at all, is answered
/// with `404 Not Found`.
impl<A: crate::filter::Filter> RequestHandler for A where
    A::Extract: crate::response::IntoResponse,
 {
    open spec fn handler_ok(&self) -> bool {
        self.req_ok()
    }

    open spec fn handle_post(&self, req: ReqView, resp: crate::response::RespView) -> bool {
        match self.spec_match(req, 0) {
            Some(p) => if p == req.segments.len() {
                exists|e: A::Extract|
                    self.valid_extract(req, 0, e) && e.resp_of(resp)
            } else {
                resp == crate::response::spec_not_found()
            },
            None => resp == crate::response::spec_not_found(),
        }
    }

    fn handle(&self, req: &Request) -> (r: crate::response::Response) {
        let mut ctx = crate::filter::Context::new(req);
        let res = self.filter(&mut ctx);
        if !ctx.is_path_matched() {
            return crate::response::Response::not_found();
        }
        match res {
            Some(e) => {
                let ghost ge = e;
                let resp = crate::response::IntoResponse::into_response(e);
                proof {
                    assert(self.valid_extract(req@, 0, ge) && ge.resp_of(resp@));
                }
                resp
            },
            None => crate::response::Response::not_found(),
        }
    }
}

} // verus!
