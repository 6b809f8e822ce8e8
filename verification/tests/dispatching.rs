use cgi_bridge::content_type::ContentType;
use cgi_bridge::dispatch::{Action, Dispatcher, Event};
use cgi_bridge::env::Header;
use cgi_bridge::path::Config;
use cgi_bridge::process::{ExitOutcome, ProcessResult};
use cgi_bridge::request::{Method, Request};
use cgi_bridge::response::{Response, Status};

fn config() -> Config {
    Config::new(b"/srv/www".to_vec())
}

fn get(path: &[u8]) -> Request {
    Request {
        method: Method::Get,
        path: path.to_vec(),
        headers: vec![Header { name: b"Host".to_vec(), value: b"example.org".to_vec() }],
        body: None,
    }
}

fn post(path: &[u8], body: &[u8]) -> Request {
    Request {
        method: Method::Post,
        path: path.to_vec(),
        headers: vec![Header { name: b"Host".to_vec(), value: b"example.org".to_vec() }],
        body: Some(body.to_vec()),
    }
}

fn probe_path(action: Action) -> Vec<u8> {
    match action {
        Action::ProbeFile { path } => path,
        other => panic!("expected a file probe, got {:?}", other),
    }
}

fn response(action: Action) -> Response {
    match action {
        Action::Respond { response } => response,
        other => panic!("expected a response, got {:?}", other),
    }
}

fn ended(stdout: &[u8], stderr: &[u8], outcome: ExitOutcome) -> Event {
    Event::ProcessEnded {
        result: ProcessResult { stdout: stdout.to_vec(), stderr: stderr.to_vec(), outcome },
    }
}

#[test]
fn static_file_is_served_with_its_bytes_and_type() {
    let config = config();
    let (mut d, first) = Dispatcher::start(&config, get(b"/index.html"));
    assert!(!d.is_done());
    assert_eq!(probe_path(first), b"/srv/www/index.html".to_vec());
    let second = d.advance(Event::FileProbed { regular_file: true });
    match second {
        Action::ReadFile { path } => assert_eq!(path, b"/srv/www/index.html".to_vec()),
        other => panic!("expected a read, got {:?}", other),
    }
    assert!(!d.is_done());
    let r = response(d.advance(Event::FileRead { contents: Some(b"<h1>hi</h1>".to_vec()) }));
    assert!(d.is_done());
    assert_eq!(r.status, Status::Success);
    assert_eq!(r.status.code(), 200);
    assert_eq!(r.content_type, Some(ContentType::Html));
    assert_eq!(r.content_type.unwrap().label(), "text/html; charset=utf-8");
    assert_eq!(r.body, b"<h1>hi</h1>".to_vec());
}

#[test]
fn static_file_of_unknown_extension_is_binary() {
    let config = config();
    let (mut d, _) = Dispatcher::start(&config, get(b"/data/blob"));
    d.advance(Event::FileProbed { regular_file: true });
    let r = response(d.advance(Event::FileRead { contents: Some(vec![0, 159, 146, 150]) }));
    assert_eq!(r.status, Status::Success);
    assert_eq!(r.content_type, Some(ContentType::OctetStream));
    assert_eq!(r.body, vec![0, 159, 146, 150]);
}

#[test]
fn empty_static_file_is_served() {
    let config = config();
    let (mut d, _) = Dispatcher::start(&config, get(b"/empty.txt"));
    d.advance(Event::FileProbed { regular_file: true });
    let r = response(d.advance(Event::FileRead { contents: Some(Vec::new()) }));
    assert_eq!(r.status, Status::Success);
    assert_eq!(r.content_type, Some(ContentType::PlainText));
    assert_eq!(r.body, Vec::<u8>::new());
}

#[test]
fn static_file_is_served_whatever_the_method() {
    let config = config();
    let (mut d, _) = Dispatcher::start(&config, post(b"/style.css", b"ignored"));
    d.advance(Event::FileProbed { regular_file: true });
    let r = response(d.advance(Event::FileRead { contents: Some(b"p{}".to_vec()) }));
    assert_eq!(r.status, Status::Success);
    assert_eq!(r.content_type, Some(ContentType::Css));
    assert_eq!(r.body, b"p{}".to_vec());
}

#[test]
fn unreadable_static_file_is_forbidden() {
    let config = config();
    let (mut d, _) = Dispatcher::start(&config, get(b"/secret.txt"));
    d.advance(Event::FileProbed { regular_file: true });
    let r = response(d.advance(Event::FileRead { contents: None }));
    assert!(d.is_done());
    assert_eq!(r.status, Status::Forbidden);
    assert_eq!(r.status.code(), 403);
    assert_eq!(r.content_type, None);
    assert_eq!(r.body, b"<html>403 Forbidden</html>".to_vec());
}

#[test]
fn unmatched_path_is_not_found() {
    let config = config();
    let (mut d, first) = Dispatcher::start(&config, get(b"/missing.html"));
    assert_eq!(probe_path(first), b"/srv/www/missing.html".to_vec());
    let r = response(d.advance(Event::FileProbed { regular_file: false }));
    assert!(d.is_done());
    assert_eq!(r.status, Status::NotFound);
    assert_eq!(r.status.code(), 404);
    assert_eq!(r.body, b"<html>404 Not Found</html>".to_vec());
}

#[test]
fn unmatched_path_of_another_method_is_not_found() {
    let config = config();
    let mut req = get(b"/missing");
    req.method = Method::Other(b"DELETE".to_vec());
    let (mut d, _) = Dispatcher::start(&config, req);
    let r = response(d.advance(Event::FileProbed { regular_file: false }));
    assert_eq!(r.status, Status::NotFound);
}

#[test]
fn script_output_becomes_the_body() {
    let config = config();
    let (mut d, first) = Dispatcher::start(&config, get(b"/scripts/hello"));
    assert_eq!(probe_path(first), b"/srv/www/scripts/hello".to_vec());
    match d.advance(Event::FileProbed { regular_file: false }) {
        Action::ProbeScript { path } => assert_eq!(path, b"/srv/www/scripts/hello".to_vec()),
        other => panic!("expected a script probe, got {:?}", other),
    }
    match d.advance(Event::ScriptProbed { exists: true }) {
        Action::Run { invocation } => {
            assert_eq!(invocation.program, b"/srv/www/scripts/hello".to_vec());
            assert_eq!(invocation.stdin, None);
            assert_eq!(invocation.environment.get(b"Method"), Some(b"GET".to_vec()));
            assert_eq!(invocation.environment.get(b"Path"), Some(b"/scripts/hello".to_vec()));
            assert_eq!(invocation.environment.get(b"Host"), Some(b"example.org".to_vec()));
            assert_eq!(invocation.environment.vars().len(), 3);
        },
        other => panic!("expected a run, got {:?}", other),
    }
    assert!(!d.is_done());
    let r = response(d.advance(ended(b"Hello, world\n", b"noise on stderr", ExitOutcome::Success)));
    assert!(d.is_done());
    assert_eq!(r.status, Status::Success);
    assert_eq!(r.content_type, None);
    assert_eq!(r.body, b"Hello, world\n".to_vec());
}

#[test]
fn post_body_goes_to_the_script_input() {
    let config = config();
    let body: Vec<u8> = (0..=255u8).cycle().take(70_000).collect();
    let (mut d, _) = Dispatcher::start(&config, post(b"/scripts/echo", &body));
    d.advance(Event::FileProbed { regular_file: false });
    match d.advance(Event::ScriptProbed { exists: true }) {
        Action::Run { invocation } => {
            assert_eq!(invocation.stdin, Some(body.clone()));
            assert_eq!(invocation.environment.get(b"Method"), Some(b"POST".to_vec()));
        },
        other => panic!("expected a run, got {:?}", other),
    }
    let r = response(d.advance(ended(&body, b"", ExitOutcome::Success)));
    assert_eq!(r.status, Status::Success);
    assert_eq!(r.body, body);
}

#[test]
fn failing_script_is_internal_error() {
    let config = config();
    let (mut d, _) = Dispatcher::start(&config, get(b"/scripts/fail"));
    d.advance(Event::FileProbed { regular_file: false });
    d.advance(Event::ScriptProbed { exists: true });
    let r = response(d.advance(ended(b"some output", b"", ExitOutcome::Failure)));
    assert_eq!(r.status, Status::InternalError);
    assert_eq!(r.status.code(), 500);
    assert_eq!(r.content_type, None);
    assert_eq!(r.body, b"<html>500 Internal Server Error</html>".to_vec());
}

#[test]
fn script_that_cannot_be_started_is_internal_error() {
    let config = config();
    let (mut d, _) = Dispatcher::start(&config, get(b"/scripts/broken"));
    d.advance(Event::FileProbed { regular_file: false });
    d.advance(Event::ScriptProbed { exists: true });
    let r = response(d.advance(ended(b"", b"", ExitOutcome::SpawnFailed)));
    assert_eq!(r.status, Status::InternalError);
}

#[test]
fn absent_script_is_not_found() {
    let config = config();
    let (mut d, first) = Dispatcher::start(&config, get(b"/scripts/echo"));
    assert_eq!(probe_path(first), b"/srv/www/scripts/echo".to_vec());
    match d.advance(Event::FileProbed { regular_file: false }) {
        Action::ProbeScript { path } => assert_eq!(path, b"/srv/www/scripts/echo".to_vec()),
        other => panic!("expected a script probe, got {:?}", other),
    }
    let r = response(d.advance(Event::ScriptProbed { exists: false }));
    assert!(d.is_done());
    assert_eq!(r.status, Status::NotFound);
    assert_eq!(r.status.code(), 404);
}

#[test]
fn path_that_leaves_the_root_is_rejected_at_once() {
    let config = config();
    let (d, first) = Dispatcher::start(&config, get(b"/../etc/passwd"));
    assert!(d.is_done());
    let r = response(first);
    assert_eq!(r.status, Status::NotFound);
    assert_eq!(r.status.code(), 404);

    let (d, first) = Dispatcher::start(&config, get(b"/scripts/../../bin/sh"));
    assert!(d.is_done());
    assert_eq!(response(first).status, Status::NotFound);

    let (d, first) = Dispatcher::start(&config, get(b"etc/passwd"));
    assert!(d.is_done());
    assert_eq!(response(first).status, Status::NotFound);
}

#[test]
fn path_that_leaves_the_root_is_rejected_in_every_phase() {
    let config = config();
    let (mut d, _) = Dispatcher::start(&config, get(b"/a/../../b.txt"));
    let r = response(d.advance(Event::FileProbed { regular_file: true }));
    assert_eq!(r.status, Status::NotFound);
    let r = response(d.advance(Event::FileRead { contents: Some(b"secret".to_vec()) }));
    assert_eq!(r.status, Status::NotFound);
    let r = response(d.advance(Event::ScriptProbed { exists: true }));
    assert_eq!(r.status, Status::NotFound);
    let r = response(d.advance(ended(b"out", b"", ExitOutcome::Success)));
    assert_eq!(r.status, Status::NotFound);
}

#[test]
fn climb_that_stays_inside_is_served() {
    let config = config();
    let (mut d, first) = Dispatcher::start(&config, get(b"/docs/../index.html"));
    assert_eq!(probe_path(first), b"/srv/www/docs/../index.html".to_vec());
    d.advance(Event::FileProbed { regular_file: true });
    let r = response(d.advance(Event::FileRead { contents: Some(b"x".to_vec()) }));
    assert_eq!(r.status, Status::Success);
    assert_eq!(r.content_type, Some(ContentType::Html));
}

#[test]
fn event_that_answers_nothing_is_internal_error() {
    let config = config();
    let (mut d, _) = Dispatcher::start(&config, get(b"/index.html"));
    let r = response(d.advance(Event::FileRead { contents: Some(b"x".to_vec()) }));
    assert!(d.is_done());
    assert_eq!(r.status, Status::InternalError);

    let (mut d, _) = Dispatcher::start(&config, get(b"/scripts/hello"));
    let r = response(d.advance(ended(b"out", b"", ExitOutcome::Success)));
    assert_eq!(r.status, Status::InternalError);

    let (mut d, _) = Dispatcher::start(&config, get(b"/scripts/hello"));
    d.advance(Event::FileProbed { regular_file: false });
    let r = response(d.advance(Event::FileProbed { regular_file: true }));
    assert_eq!(r.status, Status::InternalError);
}

#[test]
fn event_after_the_response_is_internal_error() {
    let config = config();
    let (mut d, _) = Dispatcher::start(&config, get(b"/missing"));
    let r = response(d.advance(Event::FileProbed { regular_file: false }));
    assert_eq!(r.status, Status::NotFound);
    assert!(d.is_done());
    let r = response(d.advance(Event::FileProbed { regular_file: true }));
    assert_eq!(r.status, Status::InternalError);
    assert!(d.is_done());
}

#[test]
fn two_requests_do_not_touch_each_other() {
    let config = config();
    let (mut slow, _) = Dispatcher::start(&config, post(b"/scripts/slow", b"input"));
    let (mut quick, _) = Dispatcher::start(&config, get(b"/index.html"));
    slow.advance(Event::FileProbed { regular_file: false });
    quick.advance(Event::FileProbed { regular_file: true });
    slow.advance(Event::ScriptProbed { exists: true });
    let r = response(quick.advance(Event::FileRead { contents: Some(b"page".to_vec()) }));
    assert_eq!(r.status, Status::Success);
    assert_eq!(r.body, b"page".to_vec());
    assert!(quick.is_done());
    assert!(!slow.is_done());
    let r = response(slow.advance(ended(b"done", b"", ExitOutcome::Success)));
    assert_eq!(r.status, Status::Success);
    assert_eq!(r.body, b"done".to_vec());
}
