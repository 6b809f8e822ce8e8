//! The request dispatcher: one request taken from its path to its response.
//!
//! The dispatcher decides and the caller acts. It hands out an [`Action`],
//! the caller performs it and reports the [`Event`] that came of it, until the
//! action is to respond. A dispatcher serves one request and shares nothing
//! with the dispatchers of other requests but the configuration, which it
//! only reads.

use vstd::prelude::*;
use crate::content_type::{content_type_for, content_type_of};
use crate::path::{classify, escapes_root, leaves_root, locate, resolve, Classification, Config};
use crate::process::{
    invocation_of, plan_invocation, process_response, respond_to_process, InvocationView,
    ProcessInvocation, ProcessResult, ProcessResultView,
};
use crate::request::Request;
use crate::response::{
    forbidden_response, internal_error_response, not_found_response, ok_response, Response,
    ResponseView,
};

verus! {

/// What the dispatcher waits for.
#[derive(Clone, Copy, Debug, PartialEq, Eq, Structural)]
pub enum Phase {
    /// Whether the located path is a regular file.
    ProbingFile,
    /// The contents of the static file.
    ReadingFile,
    /// Whether the script exists.
    ProbingScript,
    /// The end of the script's run.
    Running,
    /// Nothing: the response has been handed out.
    Done,
}

/// What the caller is to do next.
#[derive(Debug)]
pub enum Action {
    /// Find out whether `path` is an existing regular file.
    ProbeFile { path: Vec<u8> },
    /// Read the whole file at `path`.
    ReadFile { path: Vec<u8> },
    /// Find out whether anything exists at `path`.
    ProbeScript { path: Vec<u8> },
    /// Run the script and collect what it leaves. No limit is set on how long
    /// the run may take: a script that never ends holds its request for ever.
    Run { invocation: ProcessInvocation },
    /// Send the response and close the connection.
    Respond { response: Response },
}

/// An action as a mathematical value.
pub enum ActionView {
    ProbeFile { path: Seq<u8> },
    ReadFile { path: Seq<u8> },
    ProbeScript { path: Seq<u8> },
    Run { invocation: InvocationView },
    Respond { response: ResponseView },
}

impl View for Action {
    type V = ActionView;

    open spec fn view(&self) -> ActionView {
        match *self {
            Action::ProbeFile { path } => ActionView::ProbeFile { path: path@ },
            Action::ReadFile { path } => ActionView::ReadFile { path: path@ },
            Action::ProbeScript { path } => ActionView::ProbeScript { path: path@ },
            Action::Run { invocation } => ActionView::Run { invocation: invocation@ },
            Action::Respond { response } => ActionView::Respond { response: response@ },
        }
    }
}

/// What came of an action.
#[derive(Debug)]
pub enum Event {
    /// The answer to `ProbeFile`.
    FileProbed { regular_file: bool },
    /// The answer to `ReadFile`: the contents, or nothing where the file could
    /// not be read, for whatever reason: it is answered as forbidden also
    /// where it has gone since it was probed.
    FileRead { contents: Option<Vec<u8>> },
    /// The answer to `ProbeScript`.
    ScriptProbed { exists: bool },
    /// The answer to `Run`.
    ProcessEnded { result: ProcessResult },
}

/// An event as a mathematical value.
pub enum EventView {
    FileProbed { regular_file: bool },
    FileRead { contents: Option<Seq<u8>> },
    ScriptProbed { exists: bool },
    ProcessEnded { result: ProcessResultView },
}

impl View for Event {
    type V = EventView;

    open spec fn view(&self) -> EventView {
        match *self {
            Event::FileProbed { regular_file } => EventView::FileProbed { regular_file },
            Event::FileRead { contents } => EventView::FileRead {
                contents: match contents {
                    Some(bytes) => Some(bytes@),
                    None => None,
                },
            },
            Event::ScriptProbed { exists } => EventView::ScriptProbed { exists },
            Event::ProcessEnded { result } => EventView::ProcessEnded { result: result@ },
        }
    }
}

/// The response that ends the handling of a request.
pub open spec fn finish(response: ResponseView) -> (Phase, ActionView) {
    (Phase::Done, ActionView::Respond { response })
}

/// How the handling of a request begins: a path that leads out of the root is
/// answered at once, and for any other path the file system is asked what the
/// located path is.
pub open spec fn first_step(config: Config, request: Request) -> (Phase, ActionView) {
    if escapes_root(request.path@) {
        finish(not_found_response())
    } else {
        (Phase::ProbingFile, ActionView::ProbeFile { path: config.root@ + request.path@ })
    }
}

/// How the handling of a request goes on when `event` arrives in `phase`.
/// An event that does not answer what the phase waits for ends the request
/// with the internal error.
pub open spec fn next_step(config: Config, request: Request, phase: Phase, event: EventView) -> (
    Phase,
    ActionView,
) {
    let located = config.root@ + request.path@;
    if escapes_root(request.path@) {
        finish(not_found_response())
    } else {
        match (phase, event) {
            (Phase::ProbingFile, EventView::FileProbed { regular_file }) => match classify(
                config.script_prefix@,
                request.path@,
                regular_file,
            ) {
                Classification::StaticFile => (
                    Phase::ReadingFile,
                    ActionView::ReadFile { path: located },
                ),
                Classification::Script => (
                    Phase::ProbingScript,
                    ActionView::ProbeScript { path: located },
                ),
                Classification::Unroutable => finish(not_found_response()),
            },
            (Phase::ReadingFile, EventView::FileRead { contents }) => match contents {
                Some(bytes) => finish(ok_response(Some(content_type_of(located)), bytes)),
                None => finish(forbidden_response()),
            },
            (Phase::ProbingScript, EventView::ScriptProbed { exists }) => if exists {
                (Phase::Running, ActionView::Run { invocation: invocation_of(located, request) })
            } else {
                finish(not_found_response())
            },
            (Phase::Running, EventView::ProcessEnded { result }) => finish(
                process_response(result),
            ),
            _ => finish(internal_error_response()),
        }
    }
}

/// The handling of one request.
#[derive(Debug)]
pub struct Dispatcher<'a> {
    config: &'a Config,
    request: Request,
    phase: Phase,
}

impl<'a> Dispatcher<'a> {
    /// The configuration that the request is handled under.
    pub closed spec fn config(&self) -> Config {
        *self.config
    }

    /// The request that is handled.
    pub closed spec fn request(&self) -> Request {
        self.request
    }

    /// What the dispatcher waits for.
    pub closed spec fn phase(&self) -> Phase {
        self.phase
    }

    /// Takes up a request and says what to do first.
    pub fn start(config: &'a Config, request: Request) -> (out: (Dispatcher<'a>, Action))
        ensures
            out.0.config() == *config,
            out.0.request() == request,
            (out.0.phase(), out.1@) == first_step(*config, request),
    {
        if leaves_root(request.path.as_slice()) {
            (
                Dispatcher { config, request, phase: Phase::Done },
                Action::Respond { response: Response::not_found() },
            )
        } else {
            let path: Vec<u8> = locate(config, request.path.as_slice());
            (Dispatcher { config, request, phase: Phase::ProbingFile }, Action::ProbeFile { path })
        }
    }

    /// Whether the response has been handed out.
    pub fn is_done(&self) -> (out: bool)
        ensures
            out == (self.phase() == Phase::Done),
    {
        match self.phase {
            Phase::Done => true,
            _ => false,
        }
    }

    /// Takes the event that answers the last action and says what to do next.
    pub fn advance(&mut self, event: Event) -> (action: Action)
        ensures
            final(self).config() == old(self).config(),
            final(self).request() == old(self).request(),
            (final(self).phase(), action@) == next_step(
                old(self).config(),
                old(self).request(),
                old(self).phase(),
                event@,
            ),
    {
        let phase: Phase = self.phase;
        self.phase = Phase::Done;
        if leaves_root(self.request.path.as_slice()) {
            return Action::Respond { response: Response::not_found() };
        }
        match (phase, event) {
            (Phase::ProbingFile, Event::FileProbed { regular_file }) => {
                let target = resolve(self.config, self.request.path.as_slice(), regular_file);
                match target.kind {
                    Classification::StaticFile => {
                        self.phase = Phase::ReadingFile;
                        Action::ReadFile { path: target.path }
                    },
                    Classification::Script => {
                        self.phase = Phase::ProbingScript;
                        Action::ProbeScript { path: target.path }
                    },
                    Classification::Unroutable => Action::Respond {
                        response: Response::not_found(),
                    },
                }
            },
            (Phase::ReadingFile, Event::FileRead { contents }) => {
                match contents {
                    Some(bytes) => {
                        let located: Vec<u8> = locate(self.config, self.request.path.as_slice());
                        let kind = content_type_for(located.as_slice());
                        Action::Respond { response: Response::ok(Some(kind), bytes) }
                    },
                    None => Action::Respond { response: Response::forbidden() },
                }
            },
            (Phase::ProbingScript, Event::ScriptProbed { exists }) => {
                if exists {
                    let located: Vec<u8> = locate(self.config, self.request.path.as_slice());
                    self.phase = Phase::Running;
                    Action::Run { invocation: plan_invocation(located, &self.request) }
                } else {
                    Action::Respond { response: Response::not_found() }
                }
            },
            (Phase::Running, Event::ProcessEnded { result }) => Action::Respond {
                response: respond_to_process(result),
            },
            _ => Action::Respond { response: Response::internal_error() },
        }
    }
}

} // verus!
