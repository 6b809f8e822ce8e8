use cgi_bridge::request::Method;
use cgi_bridge::scan::{
    find, find_byte, hex_digit, names_match, parse_decimal, percent_decode, to_lower, trim,
};
use cgi_bridge::wire::{
    find_header, parse_head, parse_header_line, parse_header_lines, parse_request_line,
    read_progress, target_path, Progress,
};

#[test]
fn find_gives_the_first_place() {
    assert_eq!(find(b"a\r\nb\r\nc", b"\r\n"), Some(1));
    assert_eq!(find(b"\r\n", b"\r\n"), Some(0));
    assert_eq!(find(b"abc", b"\r\n"), None);
    assert_eq!(find(b"abc\r", b"\r\n"), None);
    assert_eq!(find(b"aab", b"ab"), Some(1));
    assert_eq!(find(b"abc", b""), Some(0));
    assert_eq!(find(b"", b""), Some(0));
    assert_eq!(find(b"", b"a"), None);
    assert_eq!(find(b"ab", b"abc"), None);
    assert_eq!(find(b"xx\r\n\r\nyy\r\n\r\n", b"\r\n\r\n"), Some(2));
    assert_eq!(find(b"\r\n\r\r\n\r\n", b"\r\n\r\n"), Some(3));
}

#[test]
fn find_byte_gives_the_first_place() {
    assert_eq!(find_byte(b"a b c", b' '), Some(1));
    assert_eq!(find_byte(b"abc", b' '), None);
    assert_eq!(find_byte(b"", b' '), None);
    assert_eq!(find_byte(b"::", b':'), Some(0));
}

#[test]
fn trim_strips_blanks_at_both_ends() {
    assert_eq!(trim(b"  a b \t"), b"a b");
    assert_eq!(trim(b"a"), b"a");
    assert_eq!(trim(b""), b"");
    assert_eq!(trim(b" \t "), b"");
    assert_eq!(trim(b"\ta\t"), b"a");
    assert_eq!(trim(b" a\n "), b"a\n");
    assert_eq!(trim(b"\r a"), b"\r a");
}

#[test]
fn hex_digits() {
    assert_eq!(hex_digit(b'0'), Some(0));
    assert_eq!(hex_digit(b'9'), Some(9));
    assert_eq!(hex_digit(b'a'), Some(10));
    assert_eq!(hex_digit(b'f'), Some(15));
    assert_eq!(hex_digit(b'A'), Some(10));
    assert_eq!(hex_digit(b'F'), Some(15));
    assert_eq!(hex_digit(b'g'), None);
    assert_eq!(hex_digit(b'G'), None);
    assert_eq!(hex_digit(b'/'), None);
    assert_eq!(hex_digit(b':'), None);
    assert_eq!(hex_digit(b'@'), None);
    assert_eq!(hex_digit(b'`'), None);
}

#[test]
fn percent_escapes_are_decoded() {
    assert_eq!(percent_decode(b"/a%20b"), b"/a b".to_vec());
    assert_eq!(percent_decode(b"%2e%2E/%2F"), b"..//".to_vec());
    assert_eq!(percent_decode(b"/plain"), b"/plain".to_vec());
    assert_eq!(percent_decode(b""), Vec::<u8>::new());
    assert_eq!(percent_decode(b"%00%ff%FF"), vec![0, 255, 255]);
    assert_eq!(percent_decode(b"%41%42%43"), b"ABC".to_vec());
}

#[test]
fn percent_sign_without_two_digits_stays() {
    assert_eq!(percent_decode(b"%"), b"%".to_vec());
    assert_eq!(percent_decode(b"%4"), b"%4".to_vec());
    assert_eq!(percent_decode(b"%zz"), b"%zz".to_vec());
    assert_eq!(percent_decode(b"%4g"), b"%4g".to_vec());
    assert_eq!(percent_decode(b"100%"), b"100%".to_vec());
    assert_eq!(percent_decode(b"%%41"), b"%A".to_vec());
    // what an escape gives is not decoded again
    assert_eq!(percent_decode(b"%2541"), b"%41".to_vec());
}

#[test]
fn decimal_numbers() {
    assert_eq!(parse_decimal(b"0"), Some(0));
    assert_eq!(parse_decimal(b"7"), Some(7));
    assert_eq!(parse_decimal(b"1234"), Some(1234));
    assert_eq!(parse_decimal(b"007"), Some(7));
    assert_eq!(parse_decimal(b""), None);
    assert_eq!(parse_decimal(b"12a"), None);
    assert_eq!(parse_decimal(b"-1"), None);
    assert_eq!(parse_decimal(b"+1"), None);
    assert_eq!(parse_decimal(b" 1"), None);
    assert_eq!(parse_decimal(b"1.5"), None);
    assert_eq!(parse_decimal(usize::MAX.to_string().as_bytes()), Some(usize::MAX));
    assert_eq!(parse_decimal(b"99999999999999999999999999999999999999999"), None);
    assert_eq!(parse_decimal(b"99999999999999999999999999999999999999999x"), None);
}

#[test]
fn names_are_compared_without_case() {
    assert!(names_match(b"Content-Length", b"content-length"));
    assert!(names_match(b"CONTENT-LENGTH", b"content-length"));
    assert!(names_match(b"", b""));
    assert!(!names_match(b"Content-Length", b"content-lengt"));
    assert!(!names_match(b"Content_Length", b"content-length"));
    // only letters have a case
    assert!(!names_match(b"@", b"`"));
    assert!(!names_match(b"[", b"{"));
    assert_eq!(to_lower(b'A'), b'a');
    assert_eq!(to_lower(b'Z'), b'z');
    assert_eq!(to_lower(b'a'), b'a');
    assert_eq!(to_lower(b'@'), b'@');
    assert_eq!(to_lower(b'['), b'[');
    assert_eq!(to_lower(b'0'), b'0');
}

#[test]
fn request_line_has_three_parts() {
    assert_eq!(
        parse_request_line(b"GET /index.html HTTP/1.1"),
        Some((b"GET".to_vec(), b"/index.html".to_vec()))
    );
    assert_eq!(
        parse_request_line(b"POST /scripts/echo?x=1 HTTP/1.0"),
        Some((b"POST".to_vec(), b"/scripts/echo?x=1".to_vec()))
    );
    assert_eq!(parse_request_line(b""), None);
    assert_eq!(parse_request_line(b"GET"), None);
    assert_eq!(parse_request_line(b"GET /"), None);
    assert_eq!(parse_request_line(b"GET / "), None);
    assert_eq!(parse_request_line(b" / HTTP/1.1"), None);
    assert_eq!(parse_request_line(b"GET  HTTP/1.1"), None);
    assert_eq!(parse_request_line(b"GET / HTTP/1.1 extra"), None);
    assert_eq!(parse_request_line(b"GET / HTTP/1.1 "), None);
}

#[test]
fn header_line_has_name_and_value() {
    let h = parse_header_line(b"Host: example.org").unwrap();
    assert_eq!(h.name, b"Host".to_vec());
    assert_eq!(h.value, b"example.org".to_vec());
    let h = parse_header_line(b"X-A:\t  padded value \t").unwrap();
    assert_eq!(h.name, b"X-A".to_vec());
    assert_eq!(h.value, b"padded value".to_vec());
    let h = parse_header_line(b"X-Empty:").unwrap();
    assert_eq!(h.name, b"X-Empty".to_vec());
    assert_eq!(h.value, Vec::<u8>::new());
    let h = parse_header_line(b"Time: 12:30:00").unwrap();
    assert_eq!(h.name, b"Time".to_vec());
    assert_eq!(h.value, b"12:30:00".to_vec());
    assert!(parse_header_line(b"no colon here").is_none());
    assert!(parse_header_line(b": value").is_none());
    assert!(parse_header_line(b"").is_none());
}

#[test]
fn header_lines_keep_their_order() {
    let hs = parse_header_lines(b"Host: a\r\nX-Tag: one\r\nX-Tag: two").unwrap();
    assert_eq!(hs.len(), 3);
    assert_eq!(hs[0].name, b"Host".to_vec());
    assert_eq!(hs[0].value, b"a".to_vec());
    assert_eq!(hs[1].name, b"X-Tag".to_vec());
    assert_eq!(hs[1].value, b"one".to_vec());
    assert_eq!(hs[2].name, b"X-Tag".to_vec());
    assert_eq!(hs[2].value, b"two".to_vec());
    assert!(parse_header_lines(b"Host: a\r\nbroken").is_none());
    assert!(parse_header_lines(b"broken\r\nHost: a").is_none());
    assert!(parse_header_lines(b"Host: a\r\n").is_none());
    assert!(parse_header_lines(b"").is_none());
}

#[test]
fn head_with_and_without_headers() {
    let head = parse_head(b"GET / HTTP/1.1").unwrap();
    assert!(matches!(head.method, Method::Get));
    assert_eq!(head.target, b"/".to_vec());
    assert_eq!(head.headers.len(), 0);

    let head = parse_head(b"PUT /a%20b?q HTTP/1.1\r\nHost: h\r\nAccept: */*").unwrap();
    match &head.method {
        Method::Other(token) => assert_eq!(token, &b"PUT".to_vec()),
        other => panic!("unexpected method {:?}", other),
    }
    assert_eq!(head.target, b"/a%20b?q".to_vec());
    assert_eq!(head.headers.len(), 2);
    assert_eq!(head.headers[1].name, b"Accept".to_vec());

    assert!(parse_head(b"").is_none());
    assert!(parse_head(b"GET /").is_none());
    assert!(parse_head(b"GET / HTTP/1.1\r\nbroken").is_none());
    assert!(parse_head(b"GET / HTTP/1.1\r\n").is_none());
}

#[test]
fn target_gives_the_decoded_path() {
    assert_eq!(target_path(b"/index.html"), b"/index.html".to_vec());
    assert_eq!(target_path(b"/a%20b?x=%20"), b"/a b".to_vec());
    assert_eq!(target_path(b"/?"), b"/".to_vec());
    assert_eq!(target_path(b"?x"), Vec::<u8>::new());
    assert_eq!(target_path(b"/%2e%2e/etc"), b"/../etc".to_vec());
    // an escaped question mark belongs to the path
    assert_eq!(target_path(b"/a%3Fb?c"), b"/a?b".to_vec());
}

#[test]
fn header_is_found_by_name_without_case() {
    let hs = parse_header_lines(b"Host: a\r\nCONTENT-length: 5\r\nContent-Length: 7").unwrap();
    assert_eq!(find_header(&hs, b"content-length"), Some(&b"5"[..]));
    assert_eq!(find_header(&hs, b"host"), Some(&b"a"[..]));
    assert_eq!(find_header(&hs, b"accept"), None);
    assert_eq!(find_header(&[], b"host"), None);
}

fn complete(received: &[u8]) -> cgi_bridge::request::Request {
    match read_progress(received) {
        Progress::Complete(request) => request,
        other => panic!("expected a request, got {:?}", other),
    }
}

#[test]
fn progress_waits_for_the_end_of_the_head() {
    assert!(matches!(read_progress(b""), Progress::Incomplete));
    assert!(matches!(read_progress(b"GET / HT"), Progress::Incomplete));
    assert!(matches!(read_progress(b"GET / HTTP/1.1\r\n"), Progress::Incomplete));
    assert!(matches!(read_progress(b"GET / HTTP/1.1\r\nHost: a\r\n"), Progress::Incomplete));
    assert!(matches!(read_progress(b"GET / HTTP/1.1\r\nHost: a\r\n\r"), Progress::Incomplete));
    // what is not a request is not found out before the head has ended
    assert!(matches!(read_progress(b"nonsense"), Progress::Incomplete));
}

#[test]
fn progress_of_a_get_request() {
    let r = complete(b"GET /index.html HTTP/1.1\r\nHost: example.org\r\nAccept: */*\r\n\r\n");
    assert!(matches!(r.method, Method::Get));
    assert_eq!(r.path, b"/index.html".to_vec());
    assert_eq!(r.headers.len(), 2);
    assert_eq!(r.headers[0].name, b"Host".to_vec());
    assert_eq!(r.headers[0].value, b"example.org".to_vec());
    assert_eq!(r.headers[1].name, b"Accept".to_vec());
    assert_eq!(r.headers[1].value, b"*/*".to_vec());
    assert_eq!(r.body, None);
}

#[test]
fn progress_of_a_request_without_headers() {
    let r = complete(b"GET / HTTP/1.1\r\n\r\n");
    assert!(matches!(r.method, Method::Get));
    assert_eq!(r.path, b"/".to_vec());
    assert_eq!(r.headers.len(), 0);
    assert_eq!(r.body, None);
}

#[test]
fn progress_decodes_the_path_and_drops_the_query() {
    let r = complete(b"GET /a%20b/%2e%2e/c?x=1&y=%20 HTTP/1.1\r\n\r\n");
    assert_eq!(r.path, b"/a b/../c".to_vec());
}

#[test]
fn progress_of_a_post_waits_for_the_body() {
    let head = b"POST /scripts/echo HTTP/1.1\r\nContent-Length: 5\r\n\r\n";
    assert!(matches!(read_progress(head), Progress::Incomplete));
    let mut received = head.to_vec();
    received.extend_from_slice(b"hell");
    assert!(matches!(read_progress(&received), Progress::Incomplete));
    received.extend_from_slice(b"o");
    let r = complete(&received);
    assert!(matches!(r.method, Method::Post));
    assert_eq!(r.path, b"/scripts/echo".to_vec());
    assert_eq!(r.body, Some(b"hello".to_vec()));
    // what comes after the body is not part of it
    received.extend_from_slice(b" and more");
    let r = complete(&received);
    assert_eq!(r.body, Some(b"hello".to_vec()));
}

#[test]
fn progress_of_a_post_body_with_line_ends() {
    let r = complete(b"POST /scripts/echo HTTP/1.1\r\ncontent-length: 8\r\n\r\na\r\n\r\nb\0c");
    assert_eq!(r.body, Some(b"a\r\n\r\nb\0c".to_vec()));
}

#[test]
fn progress_of_a_post_without_length_has_an_empty_body() {
    let r = complete(b"POST /scripts/echo HTTP/1.1\r\nHost: a\r\n\r\nignored");
    assert_eq!(r.body, Some(Vec::new()));
    let r = complete(b"POST /scripts/echo HTTP/1.1\r\nContent-Length: 0\r\n\r\n");
    assert_eq!(r.body, Some(Vec::new()));
}

#[test]
fn progress_of_other_methods_has_no_body() {
    let r = complete(b"GET / HTTP/1.1\r\nContent-Length: 5\r\n\r\nhello");
    assert_eq!(r.body, None);
    let r = complete(b"PUT /x HTTP/1.1\r\nContent-Length: 5\r\n\r\n");
    assert!(matches!(r.method, Method::Other(_)));
    assert_eq!(r.body, None);
    // a length that is no number matters only where there is a body
    let r = complete(b"GET / HTTP/1.1\r\nContent-Length: many\r\n\r\n");
    assert_eq!(r.body, None);
}

#[test]
fn progress_rejects_what_is_no_request() {
    assert!(matches!(read_progress(b"\r\n\r\n"), Progress::Malformed));
    assert!(matches!(read_progress(b"GET /\r\n\r\n"), Progress::Malformed));
    assert!(matches!(read_progress(b"GET / HTTP/1.1 x\r\n\r\n"), Progress::Malformed));
    assert!(matches!(read_progress(b"GET / HTTP/1.1\r\nbroken\r\n\r\n"), Progress::Malformed));
    assert!(matches!(read_progress(b"GET / HTTP/1.1\r\n: v\r\n\r\n"), Progress::Malformed));
    assert!(matches!(
        read_progress(b"POST / HTTP/1.1\r\nContent-Length: x\r\n\r\n"),
        Progress::Malformed
    ));
    assert!(matches!(
        read_progress(b"POST / HTTP/1.1\r\nContent-Length: -1\r\n\r\n"),
        Progress::Malformed
    ));
    assert!(matches!(
        read_progress(b"POST / HTTP/1.1\r\nContent-Length:\r\n\r\n"),
        Progress::Malformed
    ));
    assert!(matches!(
        read_progress(
            b"POST / HTTP/1.1\r\nContent-Length: 99999999999999999999999999999999\r\n\r\n"
        ),
        Progress::Malformed
    ));
}
