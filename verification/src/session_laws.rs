//! How a streamed request is treated, event by event.

use crate::config::Effect;
use crate::execute_laws::{names_decision, says_nothing};
use crate::hook::{hook_payload, HookDecisionView};
use crate::policy_model::DecisionView;
use crate::server_model::{Outcome, ServiceView, StartView};
use crate::session_model::{
    session_step, InboundView, OutputStream, RunView, SessionActionView, SessionEventView,
    SessionPhaseView, StreamEndView,
};
use vstd::prelude::*;

verus! {

/// Whether a request ends, its client is told so, and the audit log says the same of it.
pub open spec fn is_end(
    step: (SessionPhaseView, SessionActionView),
    cmd: Seq<char>,
    args: Seq<Seq<char>>,
    outcome: Outcome,
    exit_code: int,
    message: Seq<char>,
) -> bool {
    &&& step.0 is Ended
    &&& step.1 matches SessionActionView::Finish { done, audit, .. }
    &&& done.outcome == outcome
    &&& done.exit_code == exit_code
    &&& done.message == message
    &&& audit matches Some(record)
    &&& record.cmd == cmd
    &&& record.args == args
    &&& record.outcome == outcome
    &&& record.exit_code == exit_code
    &&& record.message == message
}

/// Whether the audit log names the decision on a request that ends.
pub open spec fn is_logged_with(action: SessionActionView, decision: DecisionView) -> bool {
    &&& action matches SessionActionView::Finish { audit, .. }
    &&& audit matches Some(record)
    &&& names_decision(record.effect, record.rule_source, decision)
}

/// Whether the audit log names no decision on a request that ends.
pub open spec fn is_logged_without_decision(action: SessionActionView) -> bool {
    &&& action matches SessionActionView::Finish { audit, .. }
    &&& audit matches Some(record)
    &&& record.effect == "<none>"@
    &&& record.rule_source == "<none>"@
}

/// Whether the command is left alone when a request ends: it is not killed, and no stream is
/// given up.
pub open spec fn lets_be(action: SessionActionView) -> bool {
    action matches SessionActionView::Finish { kill, abort, .. } && !kill && !abort
}

/// A streamed request has to begin with its start: anything else that comes first is answered
/// with an error, and logged as a request without a start.
pub proof fn law_streamed_request_begins_with_its_start(svc: ServiceView, message: InboundView)
    requires
        message !is Start,
    ensures
        ({
            let step = session_step(
                svc,
                SessionPhaseView::AwaitingStart,
                SessionEventView::Inbound(message),
            );
            &&& is_end(
                step,
                "<missing-start>"@,
                seq![],
                Outcome::Error,
                -1,
                match message {
                    InboundView::Closed => "missing stream start message"@,
                    InboundView::Failed(status) => "input stream failed before start: "@ + status,
                    _ => "first stream message must be start"@,
                },
            )
            &&& is_logged_without_decision(step.1)
            &&& lets_be(step.1)
        }),
{
}

/// A streamed request for a command that is not registered is denied, and the answer names the
/// command.
pub proof fn law_unknown_streamed_command_is_named(svc: ServiceView, start: StartView)
    requires
        !svc.commands.dom().contains(start.cmd),
    ensures
        ({
            let step = session_step(
                svc,
                SessionPhaseView::AwaitingStart,
                SessionEventView::Inbound(InboundView::Start(start)),
            );
            &&& is_end(
                step,
                start.cmd,
                start.args,
                Outcome::Denied,
                -1,
                "command '"@ + start.cmd + "' is not registered"@,
            )
            &&& is_logged_without_decision(step.1)
            &&& lets_be(step.1)
        }),
{
}

/// A streamed request for a registered command is treated as the policy decides: what is
/// allowed, or only to be watched, is started, as the binary that is registered and with the
/// arguments that the client gave; what is denied is answered so; what is to be asked about goes
/// to the allow hook, unless it lacks the intent that it has to state or there is no hook. Where
/// the policy cannot decide, the answer is an error.
pub proof fn law_streamed_request_is_treated_as_the_policy_decides(
    svc: ServiceView,
    start: StartView,
)
    requires
        svc.commands.dom().contains(start.cmd),
    ensures
        ({
            let step = session_step(
                svc,
                SessionPhaseView::AwaitingStart,
                SessionEventView::Inbound(InboundView::Start(start)),
            );
            let path = svc.commands[start.cmd];
            let refused = |outcome: Outcome, message: Seq<char>|
                is_end(step, start.cmd, start.args, outcome, -1, message)
                    && is_logged_without_decision(step.1) && lets_be(step.1);
            match svc.policy.decides(start.cmd, start.args) {
                Err(_) => refused(Outcome::Error, "policy evaluation failed"@),
                Ok(decision) => {
                    &&& decision.effect == Effect::Allow || decision.effect == Effect::Audit
                        ==> step == (
                        SessionPhaseView::Spawning { start, decision },
                        SessionActionView::Spawn { path, args: start.args },
                    )
                    &&& decision.effect == Effect::Deny ==> refused(
                        Outcome::Denied,
                        "denied by policy"@,
                    )
                    &&& decision.effect == Effect::Ask && decision.intent_required && says_nothing(
                        start.intent,
                    ) ==> refused(
                        Outcome::Denied,
                        "intent_required: provide intent and retry"@,
                    )
                    &&& decision.effect == Effect::Ask && !(decision.intent_required
                        && says_nothing(start.intent)) && svc.policy.allow_hook is None ==> refused(
                        Outcome::Cancelled,
                        "ask policy matched but no allow_hook configured"@,
                    )
                    &&& decision.effect == Effect::Ask && !(decision.intent_required
                        && says_nothing(start.intent)) && svc.policy.allow_hook is Some ==> step
                        == (
                        SessionPhaseView::Asking { start, path, decision },
                        SessionActionView::AskHook {
                            hook: svc.policy.allow_hook->0,
                            timeout_secs: svc.policy.allow_hook_timeout_secs,
                            payload: hook_payload(start.cmd, start.args, start.intent),
                        },
                    )
                },
            }
        }),
{
    crate::execute_laws::lemma_says_nothing(start.intent);
}

/// A streamed request that was asked about is treated as the hook says: on a yes its command is
/// started; otherwise it is answered without being run, and what the hook replied is handed on.
pub proof fn law_streamed_request_is_treated_as_the_hook_says(
    svc: ServiceView,
    start: StartView,
    path: Seq<char>,
    decision: DecisionView,
    hook: HookDecisionView,
)
    ensures
        ({
            let step = session_step(
                svc,
                SessionPhaseView::Asking { start, path, decision },
                SessionEventView::HookDecided(hook),
            );
            let refused = |outcome: Outcome, message: Seq<char>|
                is_end(step, start.cmd, start.args, outcome, -1, message)
                    && is_logged_without_decision(step.1) && lets_be(step.1);
            match hook {
                HookDecisionView::Yes => step == (
                    SessionPhaseView::Spawning { start, decision },
                    SessionActionView::Spawn { path, args: start.args },
                ),
                HookDecisionView::No => refused(Outcome::Denied, "denied by allow_hook"@),
                HookDecisionView::Cancel => refused(
                    Outcome::Cancelled,
                    "cancelled by allow_hook"@,
                ),
                HookDecisionView::UserReply(reply) => refused(Outcome::UserReply, reply),
            }
        }),
{
}

/// A command that could be started runs with both of its output streams open, and with its input
/// open where there is a pipe for it. Without a pipe for one of its outputs the request ends with
/// an error that names the first of them, and the audit log says nothing of it.
pub proof fn law_started_command_runs(
    svc: ServiceView,
    start: StartView,
    decision: DecisionView,
    stdout: bool,
    stderr: bool,
    stdin: bool,
)
    ensures
        ({
            let step = session_step(
                svc,
                SessionPhaseView::Spawning { start, decision },
                SessionEventView::Spawned { stdout, stderr, stdin },
            );
            &&& stdout && stderr ==> step == (
                SessionPhaseView::Running(
                    RunView {
                        start,
                        decision,
                        stdout_open: true,
                        stderr_open: true,
                        stdin_open: stdin,
                    },
                ),
                SessionActionView::Pump,
            )
            &&& !stdout || !stderr ==> {
                &&& step.0 is Ended
                &&& step.1 matches SessionActionView::Finish { done, audit, .. }
                &&& audit is None
                &&& done.outcome == Outcome::Error
                &&& done.exit_code == -1
                &&& done.message == if !stdout {
                    "stdout pipe unavailable"@
                } else {
                    "stderr pipe unavailable"@
                }
                &&& lets_be(step.1)
            }
        }),
{
}

/// A command that could not be started, or not be waited for, ends its request with an error
/// that says what went wrong.
pub proof fn law_failure_of_a_streamed_command_is_reported(
    svc: ServiceView,
    run: RunView,
    e: Seq<char>,
)
    ensures
        ({
            let step = session_step(
                svc,
                SessionPhaseView::Spawning { start: run.start, decision: run.decision },
                SessionEventView::SpawnFailed(e),
            );
            &&& is_end(
                step,
                run.start.cmd,
                run.start.args,
                Outcome::Error,
                -1,
                "failed to start command: "@ + e,
            )
            &&& is_logged_with(step.1, run.decision)
            &&& lets_be(step.1)
        }),
        ({
            let step = session_step(
                svc,
                SessionPhaseView::Running(run),
                SessionEventView::WaitFailed(e),
            );
            &&& is_end(
                step,
                run.start.cmd,
                run.start.args,
                Outcome::Error,
                -1,
                "command wait failed: "@ + e,
            )
            &&& is_logged_with(step.1, run.decision)
            &&& lets_be(step.1)
        }),
{
}

/// Whether a request ends with its command killed.
pub open spec fn is_killed(
    step: (SessionPhaseView, SessionActionView),
    run: RunView,
    abort: bool,
    message: Seq<char>,
) -> bool {
    &&& is_end(step, run.start.cmd, run.start.args, Outcome::Error, -1, message)
    &&& is_logged_with(step.1, run.decision)
    &&& step.1 matches SessionActionView::Finish { kill, abort: given_up, .. }
    &&& kill
    &&& given_up == abort
}

/// While the input of a command is open, what comes in is written to it, an end of the input or
/// of the stream closes it, and a message without a payload is passed over. A second start, or a
/// failure of the stream, kills the command.
pub proof fn law_input_is_handed_on(svc: ServiceView, run: RunView, message: InboundView)
    requires
        run.stdin_open,
    ensures
        ({
            let step = session_step(
                svc,
                SessionPhaseView::Running(run),
                SessionEventView::Inbound(message),
            );
            match message {
                InboundView::StdinChunk(bytes) => step == (
                    SessionPhaseView::Writing(run),
                    SessionActionView::WriteStdin(bytes),
                ),
                InboundView::StdinEof => step == (
                    SessionPhaseView::Running(RunView { stdin_open: false, ..run }),
                    SessionActionView::CloseStdin,
                ),
                InboundView::Closed => step == (
                    SessionPhaseView::Running(RunView { stdin_open: false, ..run }),
                    SessionActionView::CloseStdin,
                ),
                InboundView::Empty => step == (
                    SessionPhaseView::Running(run),
                    SessionActionView::Wait,
                ),
                InboundView::Start(_) => is_killed(
                    step,
                    run,
                    false,
                    "unexpected start message after stream start"@,
                ),
                InboundView::Failed(status) => is_killed(
                    step,
                    run,
                    false,
                    "input stream failed: "@ + status,
                ),
            }
        }),
{
}

/// Once the input of a command is closed, nothing that comes in reaches it or ends the request.
pub proof fn law_closed_input_stays_closed(svc: ServiceView, run: RunView, message: InboundView)
    requires
        !run.stdin_open,
    ensures
        session_step(svc, SessionPhaseView::Running(run), SessionEventView::Inbound(message)) == (
            SessionPhaseView::Running(run),
            SessionActionView::Wait,
        ),
{
}

/// What was written to a command leaves it running; where the command no longer reads, its input
/// is closed; where the input cannot be written, the command is killed.
pub proof fn law_written_input(svc: ServiceView, run: RunView, e: Seq<char>)
    ensures
        session_step(svc, SessionPhaseView::Writing(run), SessionEventView::StdinWritten) == (
            SessionPhaseView::Running(run),
            SessionActionView::Wait,
        ),
        session_step(svc, SessionPhaseView::Writing(run), SessionEventView::StdinBroken) == (
            SessionPhaseView::Running(RunView { stdin_open: false, ..run }),
            SessionActionView::CloseStdin,
        ),
        is_killed(
            session_step(svc, SessionPhaseView::Writing(run), SessionEventView::StdinFailed(e)),
            run,
            false,
            "stdin write failed: "@ + e,
        ),
{
}

/// Whether a stream of a running command is open.
pub open spec fn is_open(run: RunView, stream: OutputStream) -> bool {
    match stream {
        OutputStream::Stdout => run.stdout_open,
        OutputStream::Stderr => run.stderr_open,
    }
}

/// The other of the two streams.
pub open spec fn other(stream: OutputStream) -> OutputStream {
    match stream {
        OutputStream::Stdout => OutputStream::Stderr,
        OutputStream::Stderr => OutputStream::Stdout,
    }
}

/// While a command runs, the end of one of its streams closes this one and leaves the other as it
/// is. Where the stream could not be passed on to its end, the command is killed, the other
/// stream is given up if it is open, and the answer names the stream and what went wrong. What is
/// said of a stream that is closed changes nothing.
pub proof fn law_end_of_a_stream(
    svc: ServiceView,
    run: RunView,
    stream: OutputStream,
    end: StreamEndView,
)
    ensures
        ({
            let step = session_step(
                svc,
                SessionPhaseView::Running(run),
                SessionEventView::OutputEnded { stream, end },
            );
            let name = match stream {
                OutputStream::Stdout => "stdout"@,
                OutputStream::Stderr => "stderr"@,
            };
            &&& !is_open(run, stream) ==> step == (
                SessionPhaseView::Running(run),
                SessionActionView::Wait,
            )
            &&& is_open(run, stream) ==> match end {
                StreamEndView::Complete => {
                    &&& step.1 is Wait
                    &&& step.0 matches SessionPhaseView::Running(after)
                    &&& !is_open(after, stream)
                    &&& is_open(after, other(stream)) == is_open(run, other(stream))
                    &&& after.stdin_open == run.stdin_open
                    &&& after.start == run.start
                    &&& after.decision == run.decision
                },
                StreamEndView::Failed(e) => is_killed(
                    step,
                    run,
                    is_open(run, other(stream)),
                    name + " stream failed: "@ + e,
                ),
                StreamEndView::JoinFailed(e) => is_killed(
                    step,
                    run,
                    is_open(run, other(stream)),
                    name + " stream task join failed: "@ + e,
                ),
            }
        }),
{
}

/// A command that ended is answered for once the streams that are open have come to their ends.
/// Until then nothing is done. The ends of the two may come in either order.
pub proof fn law_ended_command_waits_for_its_streams(
    svc: ServiceView,
    run: RunView,
    code: Option<i32>,
)
    ensures
        ({
            let step = session_step(
                svc,
                SessionPhaseView::Running(run),
                SessionEventView::Exited { code },
            );
            &&& run.stdout_open || run.stderr_open ==> step == (
                SessionPhaseView::Draining {
                    start: run.start,
                    decision: run.decision,
                    code,
                    stdout: if run.stdout_open {
                        None
                    } else {
                        Some(StreamEndView::Complete)
                    },
                    stderr: if run.stderr_open {
                        None
                    } else {
                        Some(StreamEndView::Complete)
                    },
                },
                SessionActionView::Wait,
            )
            &&& !run.stdout_open && !run.stderr_open ==> is_conclusion(
                step,
                run.start,
                run.decision,
                code,
                StreamEndView::Complete,
                StreamEndView::Complete,
            )
        }),
{
    reveal_strlit("");
    assert(""@ =~= seq![]);
}

/// Whether a request ends with the exit code of its command, or -1 where it has none: as executed
/// where both streams were passed on to their ends, and otherwise with an error that says what
/// went wrong, of the standard output before the standard error.
pub open spec fn is_conclusion(
    step: (SessionPhaseView, SessionActionView),
    start: StartView,
    decision: DecisionView,
    code: Option<i32>,
    out_end: StreamEndView,
    err_end: StreamEndView,
) -> bool {
    let exit_code: int = match code {
        Some(c) => c as int,
        None => -1,
    };
    &&& is_logged_with(step.1, decision)
    &&& lets_be(step.1)
    &&& match (out_end, err_end) {
        (StreamEndView::Complete, StreamEndView::Complete) => is_end(
            step,
            start.cmd,
            start.args,
            Outcome::Executed,
            exit_code,
            seq![],
        ),
        (StreamEndView::Failed(e), _) => is_end(
            step,
            start.cmd,
            start.args,
            Outcome::Error,
            exit_code,
            "stdout"@ + " stream failed: "@ + e,
        ),
        (StreamEndView::JoinFailed(e), _) => is_end(
            step,
            start.cmd,
            start.args,
            Outcome::Error,
            exit_code,
            "stdout"@ + " stream task join failed: "@ + e,
        ),
        (StreamEndView::Complete, StreamEndView::Failed(e)) => is_end(
            step,
            start.cmd,
            start.args,
            Outcome::Error,
            exit_code,
            "stderr"@ + " stream failed: "@ + e,
        ),
        (StreamEndView::Complete, StreamEndView::JoinFailed(e)) => is_end(
            step,
            start.cmd,
            start.args,
            Outcome::Error,
            exit_code,
            "stderr"@ + " stream task join failed: "@ + e,
        ),
    }
}

/// The last stream of a command that ended concludes the request, whichever of the two it is;
/// the first is only noted.
pub proof fn law_last_stream_concludes_the_request(
    svc: ServiceView,
    start: StartView,
    decision: DecisionView,
    code: Option<i32>,
    out_end: StreamEndView,
    err_end: StreamEndView,
)
    ensures
        ({
            let both = SessionPhaseView::Draining {
                start,
                decision,
                code,
                stdout: None,
                stderr: None,
            };
            let out_noted = SessionPhaseView::Draining {
                start,
                decision,
                code,
                stdout: Some(out_end),
                stderr: None,
            };
            let err_noted = SessionPhaseView::Draining {
                start,
                decision,
                code,
                stdout: None,
                stderr: Some(err_end),
            };
            let out = SessionEventView::OutputEnded {
                stream: OutputStream::Stdout,
                end: out_end,
            };
            let err = SessionEventView::OutputEnded {
                stream: OutputStream::Stderr,
                end: err_end,
            };
            &&& session_step(svc, both, out) == (out_noted, SessionActionView::Wait)
            &&& session_step(svc, both, err) == (err_noted, SessionActionView::Wait)
            &&& is_conclusion(
                session_step(svc, out_noted, err),
                start,
                decision,
                code,
                out_end,
                err_end,
            )
            &&& is_conclusion(
                session_step(svc, err_noted, out),
                start,
                decision,
                code,
                out_end,
                err_end,
            )
        }),
{
    reveal_strlit("");
    assert(""@ =~= seq![]);
}

/// Whether an event is one that a phase waits for.
pub open spec fn is_expected(phase: SessionPhaseView, event: SessionEventView) -> bool {
    match phase {
        SessionPhaseView::AwaitingStart => event is Inbound,
        SessionPhaseView::Asking { .. } => event is HookDecided,
        SessionPhaseView::Spawning { .. } => event is SpawnFailed || event is Spawned,
        SessionPhaseView::Running(_) => event is Inbound || event is Exited || event is WaitFailed
            || event is OutputEnded,
        SessionPhaseView::Writing(_) => event is StdinWritten || event is StdinBroken
            || event is StdinFailed,
        SessionPhaseView::Draining { stdout, stderr, .. } => event matches
            SessionEventView::OutputEnded { stream, .. } && match stream {
            OutputStream::Stdout => stdout is None,
            OutputStream::Stderr => stderr is None,
        },
        SessionPhaseView::Ended => false,
    }
}

/// An event that a phase does not wait for changes nothing, and nothing is done on it. This holds
/// of every event once the request has ended.
pub proof fn law_unexpected_events_change_nothing(
    svc: ServiceView,
    phase: SessionPhaseView,
    event: SessionEventView,
)
    requires
        !is_expected(phase, event),
    ensures
        session_step(svc, phase, event) == (phase, SessionActionView::Wait),
{
}

} // verus!
