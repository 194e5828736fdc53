//! The HTTP request methods the library understands, with a case-insensitive
//! parser for request lines.
use vstd::prelude::*;
use crate::text::{str_eq, to_uppercase_ascii, upper_seq};

verus! {

/// A request method.  Only these seven are recognised; anything else is
/// rejected at parse time.
#[derive(Debug, Clone, PartialEq, Eq, Structural, Hash)]
pub enum Method {
    Get,
    Post,
    Put,
    Delete,
    Patch,
    Head,
    Options,
}

/// The name under which a method appears on a request line.
pub open spec fn spec_method_name(m: Method) -> Seq<char> {
    match m {
        Method::Get => "GET"@,
        Method::Post => "POST"@,
        Method::Put => "PUT"@,
        Method::Delete => "DELETE"@,
        Method::Patch => "PATCH"@,
        Method::Head => "HEAD"@,
        Method::Options => "OPTIONS"@,
    }
}

/// The method a request-line token names: its ASCII-uppercase form must be
/// one of the seven method names.
pub open spec fn spec_parse_method(s: Seq<char>) -> Option<Method> {
    let u = upper_seq(s);
    if u == "GET"@ {
        Some(Method::Get)
    } else if u == "POST"@ {
        Some(Method::Post)
    } else if u == "PUT"@ {
        Some(Method::Put)
    } else if u == "DELETE"@ {
        Some(Method::Delete)
    } else if u == "PATCH"@ {
        Some(Method::Patch)
    } else if u == "HEAD"@ {
        Some(Method::Head)
    } else if u == "OPTIONS"@ {
        Some(Method::Options)
    } else {
        None
    }
}

impl Method {
    /// The method's name, as it appears on a request line.
    pub fn as_str(&self) -> (r: &'static str)
        ensures
            r@ == spec_method_name(*self),
    {
        match self {
            Method::Get => "GET",
            Method::Post => "POST",
            Method::Put => "PUT",
            Method::Delete => "DELETE",
            Method::Patch => "PATCH",
            Method::Head => "HEAD",
            Method::Options => "OPTIONS",
        }
    }

    /// Recognise a request-line token, ignoring ASCII case.  Unknown tokens
    /// are returned in the error.
    pub fn parse(s: &str) -> (r: Result<Method, ParseMethodError>)
        ensures
            match r {
                Ok(m) => spec_parse_method(s@) == Some(m),
                Err(e) => spec_parse_method(s@) is None && e.token@ == s@,
            },
    {
        let u = to_uppercase_ascii(s);
        let us = u.as_str();
        if str_eq(us, "GET") {
            Ok(Method::Get)
        } else if str_eq(us, "POST") {
            Ok(Method::Post)
        } else if str_eq(us, "PUT") {
            Ok(Method::Put)
        } else if str_eq(us, "DELETE") {
            Ok(Method::Delete)
        } else if str_eq(us, "PATCH") {
            Ok(Method::Patch)
        } else if str_eq(us, "HEAD") {
            Ok(Method::Head)
        } else if str_eq(us, "OPTIONS") {
            Ok(Method::Options)
        } else {
            Err(ParseMethodError { token: s.to_owned() })
        }
    }
}

/// The error for a request-line token that names no known method; it carries
/// the offending token.
#[derive(Debug)]
pub struct ParseMethodError {
    pub token: String,
}

impl ParseMethodError {
    /// A human-readable description of the error.
    pub fn message(&self) -> (r: String)
        ensures
            r@ == "unrecognized HTTP method: "@ + self.token@,
    {
        let mut r = "unrecognized HTTP method: ".to_owned();
        r.append(self.token.as_str());
        r
    }
}

} // verus!
