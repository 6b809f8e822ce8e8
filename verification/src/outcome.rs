//! What a request comes to: the response that the dispatcher reaches when its
//! actions are answered, and what holds of that response.

use vstd::prelude::*;
use crate::content_type::content_type_of;
use crate::dispatch::{finish, first_step, next_step, ActionView, EventView, Phase};
use crate::path::{classify, escapes_root, Classification, Config};
use crate::process::{invocation_of, process_response, ExitOutcome, ProcessResultView};
use crate::request::Request;
use crate::response::{
    forbidden_response, internal_error_response, not_found_response, ok_response, ResponseView,
};

verus! {

/// What the surroundings hold in store for one request: whether the located
/// path is a regular file, what reading it gives, whether the script exists,
/// and what a run of it leaves.
pub struct Answers {
    pub regular_file: bool,
    pub contents: Option<Seq<u8>>,
    pub script_exists: bool,
    pub result: ProcessResultView,
}

/// The event that answers an action.
pub open spec fn answer_to(action: ActionView, answers: Answers) -> EventView {
    match action {
        ActionView::ReadFile { .. } => EventView::FileRead { contents: answers.contents },
        ActionView::ProbeScript { .. } => EventView::ScriptProbed {
            exists: answers.script_exists,
        },
        ActionView::Run { .. } => EventView::ProcessEnded { result: answers.result },
        _ => EventView::FileProbed { regular_file: answers.regular_file },
    }
}

/// The response that the dispatcher reaches from `step` when each action is
/// answered from `answers`, within `turns` events.
pub open spec fn run(
    config: Config,
    request: Request,
    step: (Phase, ActionView),
    answers: Answers,
    turns: nat,
) -> ResponseView
    decreases turns,
{
    match step.1 {
        ActionView::Respond { response } => response,
        action => if turns == 0 {
            internal_error_response()
        } else {
            run(
                config,
                request,
                next_step(config, request, step.0, answer_to(action, answers)),
                answers,
                (turns - 1) as nat,
            )
        },
    }
}

/// The response that a request is served with: the one that the dispatcher
/// reaches from its first step.
pub open spec fn served(config: Config, request: Request, answers: Answers) -> ResponseView {
    run(config, request, first_step(config, request), answers, 3)
}

/// The response that a request is owed, by what its path names: nothing is
/// not found; a static file is sent with its content type, or forbidden where
/// it cannot be read; a script that is absent is not found, and one that
/// exists answers with what its run comes to.
pub open spec fn response_of(config: Config, request: Request, answers: Answers) -> ResponseView {
    match classify(config.script_prefix@, request.path@, answers.regular_file) {
        Classification::Unroutable => not_found_response(),
        Classification::StaticFile => match answers.contents {
            Some(bytes) => ok_response(
                Some(content_type_of(config.root@ + request.path@)),
                bytes,
            ),
            None => forbidden_response(),
        },
        Classification::Script => if answers.script_exists {
            process_response(answers.result)
        } else {
            not_found_response()
        },
    }
}

/// The dispatcher serves every request with the response it is owed, after
/// three events at most.
pub proof fn lemma_served_as_owed(config: Config, request: Request, answers: Answers)
    ensures
        served(config, request, answers) == response_of(config, request, answers),
{
    reveal_with_fuel(run, 4);
}

/// A path that stays inside the root and names an existing regular file is
/// answered with status 200, the file's bytes as they were read, and the
/// content type of its extension, whatever the method.
pub proof fn lemma_static_file_is_served(
    config: Config,
    request: Request,
    answers: Answers,
    bytes: Seq<u8>,
)
    requires
        !escapes_root(request.path@),
        answers.regular_file,
        answers.contents == Some(bytes),
    ensures
        served(config, request, answers) == ok_response(
            Some(content_type_of(config.root@ + request.path@)),
            bytes,
        ),
        served(config, request, answers).status.code_of() == 200,
        served(config, request, answers).body == bytes,
{
    lemma_served_as_owed(config, request, answers);
}

/// A path that names no existing regular file and does not begin with the
/// script prefix is answered with status 404.
pub proof fn lemma_unmatched_path_is_not_found(config: Config, request: Request, answers: Answers)
    requires
        !answers.regular_file,
        !config.script_prefix@.is_prefix_of(request.path@),
    ensures
        served(config, request, answers) == not_found_response(),
        served(config, request, answers).status.code_of() == 404,
{
    lemma_served_as_owed(config, request, answers);
}

/// A script that is run and exits with status 0 is answered with status 200
/// and exactly the bytes it wrote to its output, whatever it wrote to its
/// error stream and whatever the method.
pub proof fn lemma_script_output_is_body(config: Config, request: Request, answers: Answers)
    requires
        classify(config.script_prefix@, request.path@, answers.regular_file)
            == Classification::Script,
        answers.script_exists,
        answers.result.outcome == ExitOutcome::Success,
    ensures
        served(config, request, answers) == ok_response(None, answers.result.stdout),
        served(config, request, answers).status.code_of() == 200,
        served(config, request, answers).body == answers.result.stdout,
{
    lemma_served_as_owed(config, request, answers);
}

/// A script that is run and does not exit with status 0, or that cannot be
/// started, is answered with status 500, whatever it wrote.
pub proof fn lemma_failed_script_is_internal_error(
    config: Config,
    request: Request,
    answers: Answers,
)
    requires
        classify(config.script_prefix@, request.path@, answers.regular_file)
            == Classification::Script,
        answers.script_exists,
        answers.result.outcome != ExitOutcome::Success,
    ensures
        served(config, request, answers) == internal_error_response(),
        served(config, request, answers).status.code_of() == 500,
{
    lemma_served_as_owed(config, request, answers);
}

/// The script of a request whose method carries a body is run with exactly
/// the body's bytes as its input, and with the located path as its program.
pub proof fn lemma_body_reaches_script_input(config: Config, request: Request, body: Seq<u8>)
    requires
        !escapes_root(request.path@),
        request.method.carries_body(),
        request.body matches Some(bytes) && bytes@ == body,
    ensures
        next_step(
            config,
            request,
            Phase::ProbingScript,
            EventView::ScriptProbed { exists: true },
        ) == (
            Phase::Running,
            ActionView::Run { invocation: invocation_of(config.root@ + request.path@, request) },
        ),
        invocation_of(config.root@ + request.path@, request).stdin == Some(body),
{
}

/// A path under the script prefix at which nothing exists is answered with
/// status 404, and nothing is run.
pub proof fn lemma_absent_script_is_not_found(config: Config, request: Request, answers: Answers)
    requires
        config.script_prefix@.is_prefix_of(request.path@),
        !answers.regular_file,
        !answers.script_exists,
    ensures
        served(config, request, answers) == not_found_response(),
        served(config, request, answers).status.code_of() == 404,
        next_step(
            config,
            request,
            Phase::ProbingScript,
            EventView::ScriptProbed { exists: false },
        ) == finish(not_found_response()),
{
    lemma_served_as_owed(config, request, answers);
}

/// A path that leads out of the root is answered with status 404 at once and
/// in every phase: no action asks for anything in the file system.
pub proof fn lemma_escaping_path_is_rejected(
    config: Config,
    request: Request,
    answers: Answers,
    phase: Phase,
    event: EventView,
)
    requires
        escapes_root(request.path@),
    ensures
        first_step(config, request) == finish(not_found_response()),
        next_step(config, request, phase, event) == finish(not_found_response()),
        served(config, request, answers) == not_found_response(),
        served(config, request, answers).status.code_of() == 404,
{
    lemma_served_as_owed(config, request, answers);
}

/// The path in the file system that an action names, where it names one.
pub open spec fn touched_path(action: ActionView) -> Option<Seq<u8>> {
    match action {
        ActionView::ProbeFile { path } => Some(path),
        ActionView::ReadFile { path } => Some(path),
        ActionView::ProbeScript { path } => Some(path),
        ActionView::Run { invocation } => Some(invocation.program),
        ActionView::Respond { .. } => None,
    }
}

/// Whatever the phase and the event, an action names no path but the located
/// path of a request that stays inside the root.
pub proof fn lemma_actions_stay_inside_root(
    config: Config,
    request: Request,
    phase: Phase,
    event: EventView,
)
    ensures
        touched_path(first_step(config, request).1) matches Some(path) ==> path == config.root@
            + request.path@ && !escapes_root(request.path@),
        touched_path(next_step(config, request, phase, event).1) matches Some(path) ==> path
            == config.root@ + request.path@ && !escapes_root(request.path@),
{
}

/// A file is read only after the probe has found a regular file, and a script
/// is run only after the probe has found it to exist.
pub proof fn lemma_nothing_is_done_unasked(
    config: Config,
    request: Request,
    phase: Phase,
    event: EventView,
)
    ensures
        next_step(config, request, phase, event).1 is ReadFile ==> phase == Phase::ProbingFile
            && event == (EventView::FileProbed { regular_file: true }),
        next_step(config, request, phase, event).1 is Run ==> phase == Phase::ProbingScript
            && event == (EventView::ScriptProbed { exists: true }),
        next_step(config, request, phase, event).1 is ProbeScript ==> phase
            == Phase::ProbingFile && event == (EventView::FileProbed { regular_file: false })
            && config.script_prefix@.is_prefix_of(request.path@),
{
}

} // verus!
