//! The process bridge: what a script is run with, what comes back from it,
//! and the response that its outcome is mapped to.

use vstd::prelude::*;
use crate::bytes::copy_bytes;
use crate::env::{Environment, build_environment, environment_of};
use crate::request::Request;
use crate::response::{Response, ResponseView, ok_response, internal_error_response};

verus! {

/// How the run of a script ended.
#[derive(Clone, Copy, Debug, PartialEq, Eq, Structural)]
pub enum ExitOutcome {
    /// The process ran and exited with status 0.
    Success,
    /// The process ran and did not exit with status 0.
    Failure,
    /// The process could not be started, or its pipes failed.
    SpawnFailed,
}

/// The outcome of a process that ran to its end, by its exit code. A process
/// that a signal ended has no exit code.
pub open spec fn outcome_of_exit(code: Option<i32>) -> ExitOutcome {
    if code == Some(0i32) {
        ExitOutcome::Success
    } else {
        ExitOutcome::Failure
    }
}

/// The outcome of a process that ran to its end, by its exit code.
pub fn exit_outcome(code: Option<i32>) -> (out: ExitOutcome)
    ensures
        out == outcome_of_exit(code),
{
    match code {
        Some(c) => {
            if c == 0 {
                ExitOutcome::Success
            } else {
                ExitOutcome::Failure
            }
        },
        None => ExitOutcome::Failure,
    }
}

/// What the run of a script left behind: the bytes it wrote to its output and
/// to its error stream, and how it ended.
#[derive(Debug, PartialEq, Eq)]
pub struct ProcessResult {
    pub stdout: Vec<u8>,
    pub stderr: Vec<u8>,
    pub outcome: ExitOutcome,
}

/// The result of a run as a mathematical value.
pub struct ProcessResultView {
    pub stdout: Seq<u8>,
    pub stderr: Seq<u8>,
    pub outcome: ExitOutcome,
}

impl View for ProcessResult {
    type V = ProcessResultView;

    open spec fn view(&self) -> ProcessResultView {
        ProcessResultView { stdout: self.stdout@, stderr: self.stderr@, outcome: self.outcome }
    }
}

/// The response to the run of a script: its whole output as the body where it
/// succeeded, and the internal error otherwise. The error stream is for
/// diagnostics and never reaches the response.
pub open spec fn process_response(result: ProcessResultView) -> ResponseView {
    match result.outcome {
        ExitOutcome::Success => ok_response(None, result.stdout),
        _ => internal_error_response(),
    }
}

/// Maps the result of a run to the response.
pub fn respond_to_process(result: ProcessResult) -> (out: Response)
    ensures
        out@ == process_response(result@),
{
    match result.outcome {
        ExitOutcome::Success => Response::ok(None, result.stdout),
        _ => Response::internal_error(),
    }
}

/// What a script is run with: the path of the program, the variables of its
/// environment, which are all the variables it gets, and the bytes to write to
/// its input before the input is closed. Without input bytes the script gets
/// no input stream.
#[derive(Debug)]
pub struct ProcessInvocation {
    pub program: Vec<u8>,
    pub environment: Environment,
    pub stdin: Option<Vec<u8>>,
}

/// An invocation as a mathematical value.
pub struct InvocationView {
    pub program: Seq<u8>,
    pub environment: Map<Seq<u8>, Seq<u8>>,
    pub stdin: Option<Seq<u8>>,
}

impl View for ProcessInvocation {
    type V = InvocationView;

    open spec fn view(&self) -> InvocationView {
        InvocationView {
            program: self.program@,
            environment: self.environment@,
            stdin: match self.stdin {
                Some(bytes) => Some(bytes@),
                None => None,
            },
        }
    }
}

/// The bytes that go to the input of a script: the whole body of a request
/// whose method carries one, no bytes where such a request came without a
/// body, and no input at all for the other methods.
pub open spec fn input_of(request: Request) -> Option<Seq<u8>> {
    if request.method.carries_body() {
        match request.body {
            Some(body) => Some(body@),
            None => Some(Seq::empty()),
        }
    } else {
        None
    }
}

/// The invocation of the script at `program` for a request.
pub open spec fn invocation_of(program: Seq<u8>, request: Request) -> InvocationView {
    InvocationView {
        program,
        environment: environment_of(request.headers@, request.method.token_of(), request.path@),
        stdin: input_of(request),
    }
}

/// Prepares the run of the script at `program` for a request.
pub fn plan_invocation(program: Vec<u8>, request: &Request) -> (invocation: ProcessInvocation)
    ensures
        invocation@ == invocation_of(program@, *request),
{
    let method: Vec<u8> = request.method.token();
    let environment: Environment = build_environment(
        request.headers.as_slice(),
        method.as_slice(),
        request.path.as_slice(),
    );
    let stdin: Option<Vec<u8>> = if request.method.permits_body() {
        match &request.body {
            Some(body) => Some(copy_bytes(body.as_slice())),
            None => Some(Vec::new()),
        }
    } else {
        None
    };
    ProcessInvocation { program, environment, stdin }
}

} // verus!
