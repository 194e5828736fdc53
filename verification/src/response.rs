//! Responses: status, headers, body, a fluent builder, the conversion trait
//! that turns extracted values into responses, and the exact text of the
//! response head as it goes on the wire.
use vstd::prelude::*;
use crate::request::pair_views;
use crate::text::{dec_str, str_eq, u64_to_dec};

verus! {

/// The mathematical shape of a response.
pub struct RespView {
    pub status: u16,
    pub headers: Seq<(Seq<char>, Seq<char>)>,
    pub body: Option<Seq<u8>>,
}

/// The `404 Not Found` response the handler adapter falls back to.
pub open spec fn spec_not_found() -> RespView {
    RespView { status: 404, headers: Seq::empty(), body: None }
}

/// An HTTP response under construction.
#[derive(Debug)]
pub struct Response {
    status_code: u16,
    headers: Vec<(String, String)>,
    body: Option<Vec<u8>>,
}

impl View for Response {
    type V = RespView;

    closed spec fn view(&self) -> RespView {
        RespView {
            status: self.status_code,
            headers: pair_views(self.headers@),
            body: match self.body {
                Some(b) => Some(b@),
                None => None,
            },
        }
    }
}

/// Conversion of a value into a response.  `resp_of(r)` says which response
/// views the value may turn into; for responses and strings it pins the view
/// exactly.
pub trait IntoResponse: Sized {
    /// Whether `r` is a response this value may become.
    spec fn resp_of(&self, r: RespView) -> bool;

    /// Turn the value into a response.
    fn into_response(self) -> (r: Response)
        ensures
            self.resp_of(r@),
    ;
}

impl IntoResponse for Response {
    open spec fn resp_of(&self, r: RespView) -> bool {
        r == (*self)@
    }

    fn into_response(self) -> (r: Response) {
        self
    }
}

impl<'a> IntoResponse for &'a Response {
    open spec fn resp_of(&self, r: RespView) -> bool {
        r == (**self)@
    }

    fn into_response(self) -> (r: Response) {
        self.duplicate()
    }
}

impl IntoResponse for String {
    open spec fn resp_of(&self, r: RespView) -> bool {
        r == (RespView {
            status: 200,
            headers: Seq::empty(),
            body: Some(crate::text::encode_utf8_seq(self@)),
        })
    }

    fn into_response(self) -> (r: Response) {
        Response::new(200).body_str(self.as_str())
    }
}

impl<'a> IntoResponse for &'a str {
    open spec fn resp_of(&self, r: RespView) -> bool {
        r == (RespView {
            status: 200,
            headers: Seq::empty(),
            body: Some(crate::text::encode_utf8_seq(self@)),
        })
    }

    fn into_response(self) -> (r: Response) {
        Response::new(200).body_str(self)
    }
}

impl IntoResponse for (u16, String) {
    open spec fn resp_of(&self, r: RespView) -> bool {
        r == (RespView {
            status: self.0,
            headers: Seq::empty(),
            body: Some(crate::text::encode_utf8_seq(self.1@)),
        })
    }

    fn into_response(self) -> (r: Response) {
        Response::new(self.0).body_str(self.1.as_str())
    }
}

impl<'a> IntoResponse for (u16, &'a str) {
    open spec fn resp_of(&self, r: RespView) -> bool {
        r == (RespView {
            status: self.0,
            headers: Seq::empty(),
            body: Some(crate::text::encode_utf8_seq(self.1@)),
        })
    }

    fn into_response(self) -> (r: Response) {
        Response::new(self.0).body_str(self.1)
    }
}

/// Index of the first header named `k`, or `headers.len()` when absent.
/// Names are compared exactly, preserving case.
pub open spec fn key_index(headers: Seq<(Seq<char>, Seq<char>)>, k: Seq<char>) -> int
    decreases headers.len(),
{
    if headers.len() == 0 {
        0
    } else if headers[0].0 == k {
        0
    } else {
        1 + key_index(headers.drop_first(), k)
    }
}

pub proof fn lemma_key_index(headers: Seq<(Seq<char>, Seq<char>)>, k: Seq<char>)
    ensures
        0 <= key_index(headers, k) <= headers.len(),
        key_index(headers, k) < headers.len() ==> headers[key_index(headers, k)].0 == k,
        forall|j: int| 0 <= j < key_index(headers, k) ==> headers[j].0 != k,
    decreases headers.len(),
{
    if headers.len() > 0 && headers[0].0 != k {
        lemma_key_index(headers.drop_first(), k);
        assert forall|j: int| 0 <= j < key_index(headers, k) implies headers[j].0 != k by {
            if j > 0 {
                assert(headers.drop_first()[j - 1].0 != k);
            }
        }
    }
}

/// The header list after writing `k: v`: the first header named `k` is
/// replaced, or the pair is appended when the name is new.
pub open spec fn upsert(
    headers: Seq<(Seq<char>, Seq<char>)>,
    k: Seq<char>,
    v: Seq<char>,
) -> Seq<(Seq<char>, Seq<char>)> {
    let i = key_index(headers, k);
    if i < headers.len() {
        headers.update(i, (k, v))
    } else {
        headers.push((k, v))
    }
}

impl Response {
    /// An empty response with the given status code.
    pub fn new(status_code: u16) -> (r: Response)
        ensures
            r@ == (RespView { status: status_code, headers: Seq::empty(), body: None }),
    {
        let r = Response { status_code, headers: Vec::new(), body: None };
        proof {
            assert(r@.headers =~= Seq::<(Seq<char>, Seq<char>)>::empty());
        }
        r
    }

    /// A `200 OK` response with the given body.
    pub fn ok(body: Vec<u8>) -> (r: Response)
        ensures
            r@ == (RespView { status: 200, headers: Seq::empty(), body: Some(body@) }),
    {
        Response::new(200).body(body)
    }

    /// A `200 OK` response carrying `json` with the JSON content type.
    pub fn json(json: &str) -> (r: Response)
        ensures
            r@.status == 200,
            r@.headers == seq![("Content-Type"@, "application/json"@)],
            r@.body == Some(crate::text::encode_utf8_seq(json@)),
    {
        let r = Response::new(200).body_str(json).header("Content-Type", "application/json");
        proof {
            assert(r@.headers =~= seq![("Content-Type"@, "application/json"@)]);
        }
        r
    }

    /// A `200 OK` response carrying `html` with the HTML content type.
    pub fn html(html: &str) -> (r: Response)
        ensures
            r@.status == 200,
            r@.headers == seq![("Content-Type"@, "text/html; charset=utf-8"@)],
            r@.body == Some(crate::text::encode_utf8_seq(html@)),
    {
        let r = Response::new(200).body_str(html).header(
            "Content-Type",
            "text/html; charset=utf-8",
        );
        proof {
            assert(r@.headers =~= seq![("Content-Type"@, "text/html; charset=utf-8"@)]);
        }
        r
    }

    /// An empty `201 Created` response.
    pub fn created() -> (r: Response)
        ensures
            r@ == (RespView { status: 201, headers: Seq::empty(), body: None }),
    {
        Response::new(201)
    }

    /// An empty `204 No Content` response.
    pub fn no_content() -> (r: Response)
        ensures
            r@ == (RespView { status: 204, headers: Seq::empty(), body: None }),
    {
        Response::new(204)
    }

    /// An empty `400 Bad Request` response.
    pub fn bad_request() -> (r: Response)
        ensures
            r@ == (RespView { status: 400, headers: Seq::empty(), body: None }),
    {
        Response::new(400)
    }

    /// An empty `404 Not Found` response.
    pub fn not_found() -> (r: Response)
        ensures
            r@ == spec_not_found(),
    {
        Response::new(404)
    }

    /// An empty `500 Internal Server Error` response.
    pub fn internal_error() -> (r: Response)
        ensures
            r@ == (RespView { status: 500, headers: Seq::empty(), body: None }),
    {
        Response::new(500)
    }

    /// Write a header, replacing an existing one of exactly that name.
    pub fn header(self, key: &str, value: &str) -> (r: Response)
        ensures
            r@.status == self@.status,
            r@.body == self@.body,
            r@.headers == upsert(self@.headers, key@, value@),
    {
        let mut this = self;
        let ghost hs = this@.headers;
        match this.header_position(key) {
            Some(i) => {
                this.headers.set(i, (key.to_owned(), value.to_owned()));
                proof {
                    assert(pair_views(this.headers@) =~= upsert(hs, key@, value@));
                }
            },
            None => {
                this.headers.push((key.to_owned(), value.to_owned()));
                proof {
                    assert(pair_views(this.headers@) =~= upsert(hs, key@, value@));
                }
            },
        }
        this
    }

    /// Replace the body.
    pub fn body(self, body: Vec<u8>) -> (r: Response)
        ensures
            r@.status == self@.status,
            r@.headers == self@.headers,
            r@.body == Some(body@),
    {
        Response { status_code: self.status_code, headers: self.headers, body: Some(body) }
    }

    /// Replace the body with the bytes of a string.
    pub fn body_str(self, body: &str) -> (r: Response)
        ensures
            r@.status == self@.status,
            r@.headers == self@.headers,
            r@.body == Some(crate::text::encode_utf8_seq(body@)),
    {
        let bytes = body.as_bytes_vec();
        Response { status_code: self.status_code, headers: self.headers, body: Some(bytes) }
    }

    /// An exact copy.
    pub fn duplicate(&self) -> (r: Response)
        ensures
            r@ == self@,
    {
        let mut headers: Vec<(String, String)> = Vec::new();
        let mut i: usize = 0;
        while i < self.headers.len()
            invariant
                i <= self.headers@.len(),
                pair_views(headers@) == pair_views(self.headers@).take(i as int),
            decreases self.headers@.len() - i,
        {
            let ghost before = headers@;
            headers.push((self.headers[i].0.clone(), self.headers[i].1.clone()));
            proof {
                assert(pair_views(before).len() == before.len());
                assert(before.len() == i);
                assert forall|j: int| 0 <= j < pair_views(headers@).len() implies pair_views(
                    headers@,
                )[j] == pair_views(self.headers@).take(i + 1)[j] by {
                    if j < i {
                        assert(headers@[j] == before[j]);
                        assert(pair_views(before)[j] == pair_views(self.headers@).take(
                            i as int,
                        )[j]);
                    } else {
                        assert(headers@[j].0@ == self.headers@[i as int].0@ && headers@[j].1@
                            == self.headers@[i as int].1@);
                    }
                }
                assert(pair_views(headers@) =~= pair_views(self.headers@).take(i + 1));
            }
            i += 1;
        }
        proof {
            assert(pair_views(self.headers@).take(self.headers@.len() as int) =~= pair_views(
                self.headers@,
            ));
        }
        let body = match &self.body {
            Some(b) => Some(copy_bytes(b)),
            None => None,
        };
        let r = Response { status_code: self.status_code, headers, body };
        proof {
            assert(r@.headers =~= self@.headers);
        }
        r
    }

    /// The body bytes, for the caller that writes the response out.
    pub fn body_bytes(&self) -> (r: Option<&Vec<u8>>)
        ensures
            match r {
                Some(b) => self@.body == Some(b@),
                None => self@.body is None,
            },
    {
        match &self.body {
            Some(b) => Some(b),
            None => None,
        }
    }

    /// The reason phrase for this response's status code.
    pub fn status_text(&self) -> (r: &'static str)
        ensures
            r@ == spec_status_text(self@.status),
    {
        match self.status_code {
            200 => "OK",
            201 => "Created",
            204 => "No Content",
            301 => "Moved Permanently",
            302 => "Found",
            304 => "Not Modified",
            400 => "Bad Request",
            401 => "Unauthorized",
            403 => "Forbidden",
            404 => "Not Found",
            405 => "Method Not Allowed",
            500 => "Internal Server Error",
            502 => "Bad Gateway",
            503 => "Service Unavailable",
            _ => "Unknown",
        }
    }

    /// The response head exactly as it goes on the wire: status line, header
    /// lines, an automatic `Content-Length` where the builder set none, and
    /// the blank line.  The body bytes follow it unchanged.
    pub fn head_string(&self) -> (r: String)
        ensures
            r@ == spec_head_chars(self@),
    {
        let mut out = String::new();
        out.append("HTTP/1.1 ");
        let num = u64_to_dec(self.status_code as u64);
        out.append(num.as_str());
        out.append(" ");
        out.append(self.status_text());
        out.append("\r\n");
        let ghost hs = self@.headers;
        let mut i: usize = 0;
        while i < self.headers.len()
            invariant
                i <= self.headers@.len(),
                hs == pair_views(self.headers@),
                out@ == status_line_chars(self@.status) + headers_chars(hs.take(i as int)),
            decreases self.headers@.len() - i,
        {
            out.append(self.headers[i].0.as_str());
            out.append(": ");
            out.append(self.headers[i].1.as_str());
            out.append("\r\n");
            proof {
                assert(hs.take(i + 1).drop_last() =~= hs.take(i as int));
                assert(out@ =~= status_line_chars(self@.status) + headers_chars(hs.take(i + 1)));
            }
            i += 1;
        }
        proof {
            assert(hs.take(hs.len() as int) =~= hs);
        }
        match &self.body {
            Some(b) => {
                if self.header_position("Content-Length").is_none() {
                    out.append("Content-Length: ");
                    let n = u64_to_dec(b.len() as u64);
                    out.append(n.as_str());
                    out.append("\r\n");
                }
            },
            None => {
                out.append("Content-Length: 0\r\n");
            },
        }
        out.append("\r\n");
        proof {
            assert(out@ =~= spec_head_chars(self@));
        }
        out
    }

    /// Where a header of exactly this name (case preserved) was written.
    fn header_position(&self, key: &str) -> (r: Option<usize>)
        ensures
            match r {
                Some(i) => i == key_index(self@.headers, key@) && i < self@.headers.len(),
                None => key_index(self@.headers, key@) == self@.headers.len(),
            },
    {
        let ghost hs = self@.headers;
        let mut i: usize = 0;
        let mut found = false;
        proof {
            assert(hs.skip(0) =~= hs);
            lemma_key_index(hs, key@);
        }
        while i < self.headers.len() && !found
            invariant
                i <= self.headers@.len(),
                hs.len() == self.headers@.len(),
                hs == pair_views(self.headers@),
                !found ==> key_index(hs, key@) == i + key_index(hs.skip(i as int), key@),
                !found ==> key_index(hs, key@) >= i,
                found ==> i == key_index(hs, key@) && i < hs.len(),
            decreases self.headers@.len() - i + (if found { 0int } else { 1int }),
        {
            proof {
                assert(hs.skip(i as int)[0] == hs[i as int]);
                assert(hs.skip(i as int).drop_first() =~= hs.skip(i + 1));
                lemma_key_index(hs.skip(i + 1), key@);
            }
            if str_eq(self.headers[i].0.as_str(), key) {
                proof {
                    assert(key_index(hs.skip(i as int), key@) == 0);
                }
                found = true;
            } else {
                i += 1;
            }
        }
        proof {
            if !found && i == hs.len() {
                assert(hs.skip(hs.len() as int) =~= Seq::<(Seq<char>, Seq<char>)>::empty());
            }
        }
        if found {
            Some(i)
        } else {
            None
        }
    }
}

/// One bytes-for-bytes copy of a byte vector.
fn copy_bytes(b: &Vec<u8>) -> (r: Vec<u8>)
    ensures
        r@ == b@,
{
    let mut r: Vec<u8> = Vec::new();
    let mut i: usize = 0;
    while i < b.len()
        invariant
            i <= b@.len(),
            r@ == b@.take(i as int),
        decreases b@.len() - i,
    {
        r.push(b[i]);
        proof {
            assert(r@ =~= b@.take(i + 1));
        }
        i += 1;
    }
    proof {
        assert(b@.take(b@.len() as int) =~= b@);
    }
    r
}

/// The reason phrase the library knows for `status`; `Unknown` otherwise.
pub open spec fn spec_status_text(status: u16) -> Seq<char> {
    match status {
        200u16 => "OK"@,
        201u16 => "Created"@,
        204u16 => "No Content"@,
        301u16 => "Moved Permanently"@,
        302u16 => "Found"@,
        304u16 => "Not Modified"@,
        400u16 => "Bad Request"@,
        401u16 => "Unauthorized"@,
        403u16 => "Forbidden"@,
        404u16 => "Not Found"@,
        405u16 => "Method Not Allowed"@,
        500u16 => "Internal Server Error"@,
        502u16 => "Bad Gateway"@,
        503u16 => "Service Unavailable"@,
        _ => "Unknown"@,
    }
}

/// The status line of a response head.
pub open spec fn status_line_chars(status: u16) -> Seq<char> {
    "HTTP/1.1 "@ + dec_str(status as int) + " "@ + spec_status_text(status) + "\r\n"@
}

/// The header lines of a response head, in order.
pub open spec fn headers_chars(headers: Seq<(Seq<char>, Seq<char>)>) -> Seq<char>
    decreases headers.len(),
{
    if headers.len() == 0 {
        Seq::empty()
    } else {
        headers_chars(headers.drop_last()) + headers.last().0 + ": "@ + headers.last().1
            + "\r\n"@
    }
}

/// The automatic `Content-Length` line: for a response with a body it is
/// written only when the builder set none; a response without a body always
/// announces length zero.
pub open spec fn content_length_chars(r: RespView) -> Seq<char> {
    match r.body {
        Some(b) => if key_index(r.headers, "Content-Length"@) < r.headers.len() {
            Seq::empty()
        } else {
            "Content-Length: "@ + dec_str(b.len() as int) + "\r\n"@
        },
        None => "Content-Length: 0\r\n"@,
    }
}

/// The whole response head.
pub open spec fn spec_head_chars(r: RespView) -> Seq<char> {
    status_line_chars(r.status) + headers_chars(r.headers) + content_length_chars(r) + "\r\n"@
}

} // verus!
