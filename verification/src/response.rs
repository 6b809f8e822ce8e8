//! Responses: the four statuses, what each kind of response holds, and the
//! bytes that go back to the client.

use vstd::prelude::*;
use crate::bytes::{ascii, ascii_bytes, append_bytes};
use crate::content_type::ContentType;

verus! {

/// The status of a response.
#[derive(Clone, Copy, Debug, PartialEq, Eq, Structural)]
pub enum Status {
    Success,
    Forbidden,
    NotFound,
    InternalError,
}

impl Status {
    /// The status code.
    pub open spec fn code_of(self) -> u16 {
        match self {
            Status::Success => 200,
            Status::Forbidden => 403,
            Status::NotFound => 404,
            Status::InternalError => 500,
        }
    }

    /// The status line with its line end.
    pub open spec fn line_of(self) -> Seq<char> {
        match self {
            Status::Success => "HTTP/1.1 200 OK\r\n"@,
            Status::Forbidden => "HTTP/1.1 403 Forbidden\r\n"@,
            Status::NotFound => "HTTP/1.1 404 Not Found\r\n"@,
            Status::InternalError => "HTTP/1.1 500 Internal Server Error\r\n"@,
        }
    }

    /// The status code.
    pub fn code(&self) -> (out: u16)
        ensures
            out == self.code_of(),
    {
        match self {
            Status::Success => 200,
            Status::Forbidden => 403,
            Status::NotFound => 404,
            Status::InternalError => 500,
        }
    }

    /// The status line with its line end.
    pub fn line(&self) -> (out: Vec<u8>)
        ensures
            out@ == ascii(self.line_of()),
    {
        proof {
            reveal_strlit("HTTP/1.1 200 OK\r\n");
            reveal_strlit("HTTP/1.1 403 Forbidden\r\n");
            reveal_strlit("HTTP/1.1 404 Not Found\r\n");
            reveal_strlit("HTTP/1.1 500 Internal Server Error\r\n");
        }
        match self {
            Status::Success => ascii_bytes("HTTP/1.1 200 OK\r\n"),
            Status::Forbidden => ascii_bytes("HTTP/1.1 403 Forbidden\r\n"),
            Status::NotFound => ascii_bytes("HTTP/1.1 404 Not Found\r\n"),
            Status::InternalError => ascii_bytes("HTTP/1.1 500 Internal Server Error\r\n"),
        }
    }
}

/// A response: its status, the content type where one is known, and the body.
/// Every response is sent with the directive to close the connection, so the
/// response holds no field for it.
#[derive(Debug, PartialEq, Eq)]
pub struct Response {
    pub status: Status,
    pub content_type: Option<ContentType>,
    pub body: Vec<u8>,
}

/// A response as a mathematical value.
pub struct ResponseView {
    pub status: Status,
    pub content_type: Option<ContentType>,
    pub body: Seq<u8>,
}

impl View for Response {
    type V = ResponseView;

    open spec fn view(&self) -> ResponseView {
        ResponseView { status: self.status, content_type: self.content_type, body: self.body@ }
    }
}

/// The response that carries `body` with status 200.
pub open spec fn ok_response(content_type: Option<ContentType>, body: Seq<u8>) -> ResponseView {
    ResponseView { status: Status::Success, content_type, body }
}

/// The response for a file that exists and cannot be read.
pub open spec fn forbidden_response() -> ResponseView {
    ResponseView {
        status: Status::Forbidden,
        content_type: None,
        body: ascii("<html>403 Forbidden</html>"@),
    }
}

/// The response for a path that names nothing, and for a script that is absent.
pub open spec fn not_found_response() -> ResponseView {
    ResponseView {
        status: Status::NotFound,
        content_type: None,
        body: ascii("<html>404 Not Found</html>"@),
    }
}

/// The response for a script that failed or could not be started.
pub open spec fn internal_error_response() -> ResponseView {
    ResponseView {
        status: Status::InternalError,
        content_type: None,
        body: ascii("<html>500 Internal Server Error</html>"@),
    }
}

/// The header lines that follow the status line: the content type where there
/// is one, then the directive to close the connection and the empty line.
pub open spec fn header_block(content_type: Option<ContentType>) -> Seq<u8> {
    match content_type {
        Some(t) => ascii("Content-Type: "@) + ascii(t.label_text()) + ascii(
            "\r\nConnection: close\r\n\r\n"@,
        ),
        None => ascii("Connection: close\r\n\r\n"@),
    }
}

/// The bytes of a response as they are sent: status line, header lines, body.
pub open spec fn wire(response: ResponseView) -> Seq<u8> {
    ascii(response.status.line_of()) + header_block(response.content_type) + response.body
}

/// Every response is sent with the directive to close the connection: the
/// lines before its body end with that directive and the empty line.
pub proof fn lemma_every_response_closes(response: ResponseView)
    ensures
        wire(response) == ascii(response.status.line_of()) + header_block(response.content_type)
            + response.body,
        ascii("Connection: close\r\n\r\n"@).is_suffix_of(header_block(response.content_type)),
{
    reveal_strlit("Connection: close\r\n\r\n");
    reveal_strlit("\r\nConnection: close\r\n\r\n");
}

impl Response {
    /// The response that carries `body` with status 200.
    pub fn ok(content_type: Option<ContentType>, body: Vec<u8>) -> (out: Response)
        ensures
            out@ == ok_response(content_type, body@),
    {
        Response { status: Status::Success, content_type, body }
    }

    /// The response for a file that exists and cannot be read.
    pub fn forbidden() -> (out: Response)
        ensures
            out@ == forbidden_response(),
    {
        proof {
            reveal_strlit("<html>403 Forbidden</html>");
        }
        Response {
            status: Status::Forbidden,
            content_type: None,
            body: ascii_bytes("<html>403 Forbidden</html>"),
        }
    }

    /// The response for a path that names nothing, and for a script that is
    /// absent.
    pub fn not_found() -> (out: Response)
        ensures
            out@ == not_found_response(),
    {
        proof {
            reveal_strlit("<html>404 Not Found</html>");
        }
        Response {
            status: Status::NotFound,
            content_type: None,
            body: ascii_bytes("<html>404 Not Found</html>"),
        }
    }

    /// The response for a script that failed or could not be started.
    pub fn internal_error() -> (out: Response)
        ensures
            out@ == internal_error_response(),
    {
        proof {
            reveal_strlit("<html>500 Internal Server Error</html>");
        }
        Response {
            status: Status::InternalError,
            content_type: None,
            body: ascii_bytes("<html>500 Internal Server Error</html>"),
        }
    }

    /// The bytes to send for this response.
    pub fn encode(&self) -> (out: Vec<u8>)
        ensures
            out@ == wire(self@),
    {
        let mut out: Vec<u8> = self.status.line();
        proof {
            reveal_strlit("Content-Type: ");
            reveal_strlit("\r\nConnection: close\r\n\r\n");
            reveal_strlit("Connection: close\r\n\r\n");
        }
        match self.content_type {
            Some(t) => {
                let name: Vec<u8> = ascii_bytes("Content-Type: ");
                let label: Vec<u8> = ascii_bytes(t.label());
                let rest: Vec<u8> = ascii_bytes("\r\nConnection: close\r\n\r\n");
                append_bytes(&mut out, name.as_slice());
                append_bytes(&mut out, label.as_slice());
                append_bytes(&mut out, rest.as_slice());
            },
            None => {
                let rest: Vec<u8> = ascii_bytes("Connection: close\r\n\r\n");
                append_bytes(&mut out, rest.as_slice());
            },
        }
        append_bytes(&mut out, self.body.as_slice());
        out
    }
}

} // verus!
