//! Requests as the dispatcher takes them: method, path, header lines and body.

use vstd::prelude::*;
use crate::bytes::{ascii, ascii_bytes, bytes_eq, copy_bytes};
use crate::env::{header_views, Header, HeaderView};

verus! {

/// The method of a request. `GET` and `POST` are told apart from the rest,
/// which are kept by their token.
#[derive(Debug, PartialEq, Eq)]
pub enum Method {
    Get,
    Post,
    Other(Vec<u8>),
}

impl Method {
    /// The token that stands for the method in a request line.
    pub open spec fn token_of(self) -> Seq<u8> {
        match self {
            Method::Get => ascii("GET"@),
            Method::Post => ascii("POST"@),
            Method::Other(token) => token@,
        }
    }

    /// Whether a request of this method carries a body: `POST` does.
    pub open spec fn carries_body(self) -> bool {
        self is Post
    }

    /// The method that a token stands for.
    pub open spec fn of_token(token: Seq<u8>, method: Method) -> bool {
        if token == ascii("GET"@) {
            method is Get
        } else if token == ascii("POST"@) {
            method is Post
        } else {
            method matches Method::Other(kept) && kept@ == token
        }
    }

    /// Whether the method is kept in the one form that its token has: `GET`
    /// and `POST` are never kept as other methods.
    pub open spec fn is_canonical(self) -> bool {
        Method::of_token(self.token_of(), self)
    }

    /// The method that `token` stands for.
    pub fn from_token(token: &[u8]) -> (method: Method)
        ensures
            Method::of_token(token@, method),
            method.token_of() == token@,
            method.is_canonical(),
    {
        proof {
            reveal_strlit("GET");
            reveal_strlit("POST");
        }
        let get: Vec<u8> = ascii_bytes("GET");
        let post: Vec<u8> = ascii_bytes("POST");
        if bytes_eq(token, get.as_slice()) {
            Method::Get
        } else if bytes_eq(token, post.as_slice()) {
            Method::Post
        } else {
            Method::Other(copy_bytes(token))
        }
    }

    /// The token that stands for the method in a request line.
    pub fn token(&self) -> (out: Vec<u8>)
        ensures
            out@ == self.token_of(),
    {
        proof {
            reveal_strlit("GET");
            reveal_strlit("POST");
        }
        match self {
            Method::Get => ascii_bytes("GET"),
            Method::Post => ascii_bytes("POST"),
            Method::Other(token) => copy_bytes(token.as_slice()),
        }
    }

    /// Whether a request of this method carries a body.
    pub fn permits_body(&self) -> (out: bool)
        ensures
            out == self.carries_body(),
    {
        match self {
            Method::Post => true,
            _ => false,
        }
    }
}

/// A request as a mathematical value, with the method as its token.
pub struct RequestView {
    pub method: Seq<u8>,
    pub path: Seq<u8>,
    pub headers: Seq<HeaderView>,
    pub body: Option<Seq<u8>>,
}

/// A request, as it stands once its head and body have been read: the method,
/// the path with its percent escapes decoded, the header lines in the order
/// they came, and the body where there is one.
#[derive(Debug, PartialEq, Eq)]
pub struct Request {
    pub method: Method,
    pub path: Vec<u8>,
    pub headers: Vec<Header>,
    pub body: Option<Vec<u8>>,
}

impl View for Request {
    type V = RequestView;

    open spec fn view(&self) -> RequestView {
        RequestView {
            method: self.method.token_of(),
            path: self.path@,
            headers: header_views(self.headers@),
            body: match self.body {
                Some(bytes) => Some(bytes@),
                None => None,
            },
        }
    }
}

} // verus!
