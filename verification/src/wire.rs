//! Requests on the wire: the request line, the header lines and the body, as
//! they stand in the bytes that a client has sent so far.

use vstd::prelude::*;
use vstd::slice::slice_subrange;
use crate::bytes::{ascii, ascii_bytes, copy_bytes};
use crate::env::{header_views, Header, HeaderView};
use crate::request::{Method, Request, RequestView};
use crate::scan::{
    decimal_value, find, find_byte, is_decimal, names_match, parse_decimal, percent_decode,
    percent_decoded, position_of, same_name, trim, trimmed, SP,
};

verus! {

/// The carriage return.
pub const CR: u8 = 13;

/// The line feed.
pub const LF: u8 = 10;

/// The colon, which parts the name of a header from its value.
pub const COLON: u8 = 58;

/// The question mark, which parts the path of a target from its query.
pub const QUESTION: u8 = 63;

/// What ends a line.
pub open spec fn line_end() -> Seq<u8> {
    seq![CR, LF]
}

/// What ends the head of a request: the end of its last line and an empty
/// line.
pub open spec fn head_end() -> Seq<u8> {
    seq![CR, LF, CR, LF]
}

/// The method token and the target of a request line. A request line is a
/// method, a target and a version, none of them empty and none with a space in
/// it, with one space between each two.
pub open spec fn request_line_of(line: Seq<u8>) -> Option<(Seq<u8>, Seq<u8>)> {
    match position_of(line, seq![SP]) {
        Some(a) => {
            let rest = line.skip(a + 1);
            match position_of(rest, seq![SP]) {
                Some(b) => {
                    let version = rest.skip(b + 1);
                    if a > 0 && b > 0 && version.len() > 0 && position_of(version, seq![SP])
                        is None {
                        Some((line.take(a), rest.take(b)))
                    } else {
                        None
                    }
                },
                None => None,
            }
        },
        None => None,
    }
}

/// The header that a line holds: the name is what stands before the first
/// colon and is not empty, the value is what follows the colon, without the
/// blanks at its ends.
pub open spec fn header_line_of(line: Seq<u8>) -> Option<HeaderView> {
    match position_of(line, seq![COLON]) {
        Some(c) => if c > 0 {
            Some(HeaderView { name: line.take(c), value: trimmed(line.skip(c + 1)) })
        } else {
            None
        },
        None => None,
    }
}

/// The headers that a text of one line or more holds, in their order, where
/// every line holds a header.
pub open spec fn header_lines_of(text: Seq<u8>) -> Option<Seq<HeaderView>>
    decreases text.len(),
{
    match position_of(text, line_end()) {
        Some(i) => if 0 <= i && i + 2 <= text.len() {
            match (header_line_of(text.take(i)), header_lines_of(text.skip(i + 2))) {
                (Some(first), Some(others)) => Some(seq![first] + others),
                _ => None,
            }
        } else {
            None
        },
        None => match header_line_of(text) {
            Some(only) => Some(seq![only]),
            None => None,
        },
    }
}

/// The head of a request as a mathematical value.
pub struct HeadView {
    pub method: Seq<u8>,
    pub target: Seq<u8>,
    pub headers: Seq<HeaderView>,
}

/// The head that a text holds: a request line, and after it the header lines
/// where there are any.
pub open spec fn head_of(text: Seq<u8>) -> Option<HeadView> {
    match position_of(text, line_end()) {
        Some(i) => match (request_line_of(text.take(i)), header_lines_of(text.skip(i + 2))) {
            (Some(line), Some(headers)) => Some(
                HeadView { method: line.0, target: line.1, headers },
            ),
            _ => None,
        },
        None => match request_line_of(text) {
            Some(line) => Some(HeadView { method: line.0, target: line.1, headers: Seq::empty() }),
            None => None,
        },
    }
}

/// The path that a target names: what stands before its first question mark,
/// with the percent escapes decoded.
pub open spec fn path_of_target(target: Seq<u8>) -> Seq<u8> {
    match position_of(target, seq![QUESTION]) {
        Some(q) => percent_decoded(target.take(q)),
        None => percent_decoded(target),
    }
}

/// The value of the first header whose name is `name` but for the case of its
/// letters.
pub open spec fn header_named(headers: Seq<HeaderView>, name: Seq<u8>) -> Option<Seq<u8>>
    decreases headers.len(),
{
    if headers.len() == 0 {
        None
    } else if same_name(headers[0].name, name) {
        Some(headers[0].value)
    } else {
        header_named(headers.skip(1), name)
    }
}

/// How many bytes of body follow a head: as many as its `Content-Length`
/// header says where the method is `POST`, and none otherwise. There is no
/// answer where that header holds no decimal number, or one too large.
pub open spec fn body_len_of(head: HeadView) -> Option<nat> {
    if head.method == ascii("POST"@) {
        match header_named(head.headers, ascii("content-length"@)) {
            Some(value) => if is_decimal(value) && decimal_value(value) <= usize::MAX {
                Some(decimal_value(value))
            } else {
                None
            },
            None => Some(0),
        }
    } else {
        Some(0)
    }
}

/// How far the bytes received so far go towards a request.
#[derive(Debug, PartialEq, Eq)]
pub enum Progress {
    /// More bytes are needed.
    Incomplete,
    /// The bytes are not the beginning of a request.
    Malformed,
    /// The bytes hold this request.
    Complete(Request),
}

/// Progress as a mathematical value.
pub enum ProgressView {
    Incomplete,
    Malformed,
    Complete(RequestView),
}

impl View for Progress {
    type V = ProgressView;

    open spec fn view(&self) -> ProgressView {
        match *self {
            Progress::Incomplete => ProgressView::Incomplete,
            Progress::Malformed => ProgressView::Malformed,
            Progress::Complete(request) => ProgressView::Complete(request@),
        }
    }
}

/// How far `received` goes towards a request. Until the end of the head has
/// come, more bytes are needed; then the head says whether the bytes are a
/// request at all and how long the body is; and the request is complete when
/// that many bytes have followed the head. Only a `POST` request has a body.
pub open spec fn progress_of(received: Seq<u8>) -> ProgressView {
    match position_of(received, head_end()) {
        None => ProgressView::Incomplete,
        Some(e) => match head_of(received.take(e)) {
            None => ProgressView::Malformed,
            Some(head) => match body_len_of(head) {
                None => ProgressView::Malformed,
                Some(n) => if received.len() < e + 4 + n {
                    ProgressView::Incomplete
                } else {
                    ProgressView::Complete(
                        RequestView {
                            method: head.method,
                            path: path_of_target(head.target),
                            headers: head.headers,
                            body: if head.method == ascii("POST"@) {
                                Some(received.subrange(e + 4, e + 4 + n))
                            } else {
                                None
                            },
                        },
                    )
                },
            },
        },
    }
}

/// The bytes that end a line.
fn line_end_bytes() -> (out: Vec<u8>)
    ensures
        out@ == line_end(),
        out@.len() == 2,
{
    let mut out: Vec<u8> = Vec::new();
    out.push(CR);
    out.push(LF);
    out
}

/// The bytes that end a head.
fn head_end_bytes() -> (out: Vec<u8>)
    ensures
        out@ == head_end(),
        out@.len() == 4,
{
    let mut out: Vec<u8> = Vec::new();
    out.push(CR);
    out.push(LF);
    out.push(CR);
    out.push(LF);
    out
}

/// Reads a request line: its method token and its target.
pub fn parse_request_line(line: &[u8]) -> (out: Option<(Vec<u8>, Vec<u8>)>)
    ensures
        request_line_of(line@) == match out {
            Some(parts) => Some((parts.0@, parts.1@)),
            None => None,
        },
{
    match find_byte(line, SP) {
        Some(a) => {
            let rest: &[u8] = slice_subrange(line, a + 1, line.len());
            match find_byte(rest, SP) {
                Some(b) => {
                    let version: &[u8] = slice_subrange(rest, b + 1, rest.len());
                    if a > 0 && b > 0 && version.len() > 0 && find_byte(version, SP).is_none() {
                        let method: &[u8] = slice_subrange(line, 0, a);
                        let target: &[u8] = slice_subrange(rest, 0, b);
                        Some((copy_bytes(method), copy_bytes(target)))
                    } else {
                        None
                    }
                },
                None => None,
            }
        },
        None => None,
    }
}

/// Reads a header line.
pub fn parse_header_line(line: &[u8]) -> (out: Option<Header>)
    ensures
        header_line_of(line@) == match out {
            Some(header) => Some(header@),
            None => None,
        },
{
    match find_byte(line, COLON) {
        Some(c) => {
            if c > 0 {
                let name: &[u8] = slice_subrange(line, 0, c);
                let value: &[u8] = trim(slice_subrange(line, c + 1, line.len()));
                Some(Header { name: copy_bytes(name), value: copy_bytes(value) })
            } else {
                None
            }
        },
        None => None,
    }
}

/// Reads the header lines of a text of one line or more.
pub fn parse_header_lines(text: &[u8]) -> (out: Option<Vec<Header>>)
    ensures
        header_lines_of(text@) == match out {
            Some(headers) => Some(header_views(headers@)),
            None => None,
        },
{
    let end: Vec<u8> = line_end_bytes();
    let mut headers: Vec<Header> = Vec::new();
    let mut rest: &[u8] = text;
    proof {
        if header_lines_of(text@) is Some {
            assert(header_views(headers@) + header_lines_of(text@)->0 =~= header_lines_of(
                text@,
            )->0);
        }
    }
    loop
        invariant
            end@ == line_end(),
            header_lines_of(text@) == match header_lines_of(rest@) {
                Some(others) => Some(header_views(headers@) + others),
                None => None,
            },
        decreases rest.len(),
    {
        let ghost before = header_views(headers@);
        match find(rest, end.as_slice()) {
            Some(i) => {
                let len: usize = rest.len();
                let line: &[u8] = slice_subrange(rest, 0, i);
                let after: &[u8] = slice_subrange(rest, i + 2, len);
                match parse_header_line(line) {
                    Some(header) => {
                        let ghost first = header@;
                        headers.push(header);
                        proof {
                            if header_lines_of(after@) is Some {
                                let others = header_lines_of(after@)->0;
                                assert(before + (seq![first] + others) =~= before.push(first)
                                    + others);
                            }
                        }
                        rest = after;
                    },
                    None => {
                        return None;
                    },
                }
            },
            None => {
                match parse_header_line(rest) {
                    Some(header) => {
                        headers.push(header);
                        return Some(headers);
                    },
                    None => {
                        return None;
                    },
                }
            },
        }
    }
}

/// The head of a request: the method, the target as it was sent, and the
/// header lines.
#[derive(Debug, PartialEq, Eq)]
pub struct Head {
    pub method: Method,
    pub target: Vec<u8>,
    pub headers: Vec<Header>,
}

impl View for Head {
    type V = HeadView;

    open spec fn view(&self) -> HeadView {
        HeadView {
            method: self.method.token_of(),
            target: self.target@,
            headers: header_views(self.headers@),
        }
    }
}

/// Reads the head of a request from the text that stands before the end of
/// the head.
pub fn parse_head(text: &[u8]) -> (out: Option<Head>)
    ensures
        head_of(text@) == match out {
            Some(head) => Some(head@),
            None => None,
        },
        out matches Some(head) ==> head.method.is_canonical(),
{
    let end: Vec<u8> = line_end_bytes();
    match find(text, end.as_slice()) {
        Some(i) => {
            let len: usize = text.len();
            let line: &[u8] = slice_subrange(text, 0, i);
            let after: &[u8] = slice_subrange(text, i + 2, len);
            match parse_request_line(line) {
                Some(parts) => match parse_header_lines(after) {
                    Some(headers) => Some(
                        Head {
                            method: Method::from_token(parts.0.as_slice()),
                            target: parts.1,
                            headers,
                        },
                    ),
                    None => None,
                },
                None => None,
            }
        },
        None => match parse_request_line(text) {
            Some(parts) => {
                let headers: Vec<Header> = Vec::new();
                assert(header_views(headers@) =~= Seq::<HeaderView>::empty());
                Some(Head { method: Method::from_token(parts.0.as_slice()), target: parts.1, headers })
            },
            None => None,
        },
    }
}

/// The path that a target names.
pub fn target_path(target: &[u8]) -> (out: Vec<u8>)
    ensures
        out@ == path_of_target(target@),
{
    match find_byte(target, QUESTION) {
        Some(q) => percent_decode(slice_subrange(target, 0, q)),
        None => percent_decode(target),
    }
}

/// The value of the first header whose name is `name` but for the case of its
/// letters.
pub fn find_header<'a>(headers: &'a [Header], name: &[u8]) -> (out: Option<&'a [u8]>)
    ensures
        header_named(header_views(headers@), name@) == match out {
            Some(value) => Some(value@),
            None => None,
        },
{
    let mut i: usize = 0;
    proof {
        assert(header_views(headers@).skip(0) =~= header_views(headers@));
    }
    while i < headers.len()
        invariant
            i <= headers.len(),
            header_named(header_views(headers@), name@) == header_named(
                header_views(headers@).skip(i as int),
                name@,
            ),
        decreases headers.len() - i,
    {
        let ghost rest = header_views(headers@).skip(i as int);
        proof {
            assert(rest.skip(1) =~= header_views(headers@).skip(i + 1));
        }
        if names_match(headers[i].name.as_slice(), name) {
            return Some(headers[i].value.as_slice());
        }
        i += 1;
    }
    None
}

/// How many bytes of body follow a head.
fn body_len(head: &Head) -> (out: Option<usize>)
    requires
        head.method.is_canonical(),
    ensures
        body_len_of(head@) == match out {
            Some(n) => Some(n as nat),
            None => None,
        },
{
    proof {
        reveal_strlit("POST");
        reveal_strlit("GET");
        reveal_strlit("content-length");
        assert(ascii("GET"@).len() == 3);
    }
    if head.method.permits_body() {
        let name: Vec<u8> = ascii_bytes("content-length");
        match find_header(head.headers.as_slice(), name.as_slice()) {
            Some(value) => parse_decimal(value),
            None => Some(0),
        }
    } else {
        Some(0)
    }
}

/// Says how far the bytes received so far go towards a request, and hands out
/// the request once it is complete.
pub fn read_progress(received: &[u8]) -> (out: Progress)
    ensures
        out@ == progress_of(received@),
        out matches Progress::Complete(request) ==> request.method.is_canonical(),
{
    let end: Vec<u8> = head_end_bytes();
    match find(received, end.as_slice()) {
        None => Progress::Incomplete,
        Some(e) => {
            let len: usize = received.len();
            match parse_head(slice_subrange(received, 0, e)) {
                None => Progress::Malformed,
                Some(head) => {
                    match body_len(&head) {
                        None => Progress::Malformed,
                        Some(n) => {
                            let start: usize = e + 4;
                            if len - start < n {
                                Progress::Incomplete
                            } else {
                                let path: Vec<u8> = target_path(head.target.as_slice());
                                let body: Option<Vec<u8>> = if head.method.permits_body() {
                                    Some(copy_bytes(slice_subrange(received, start, start + n)))
                                } else {
                                    None
                                };
                                proof {
                                    reveal_strlit("POST");
                                    reveal_strlit("GET");
                                    assert(ascii("GET"@).len() == 3);
                                    assert((head@.method == ascii("POST"@))
                                        == head.method.carries_body());
                                }
                                Progress::Complete(
                                    Request { method: head.method, path, headers: head.headers, body },
                                )
                            }
                        },
                    }
                },
            }
        },
    }
}

} // verus!
