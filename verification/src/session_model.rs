//! The meaning of a streamed request: its input comes in and its output goes out while the
//! command runs.

use crate::hook::HookDecisionView;
use crate::policy_model::DecisionView;
use crate::server_model::{
    audit, gate, gate_by_hook, not_registered, reported, stopped, AuditView, DoneView, GateView,
    Outcome, ServiceView, StartView,
};
use vstd::prelude::*;

verus! {

/// One of the two streams that a command puts out.
#[derive(Debug, Clone, Copy, PartialEq, Eq, Structural)]
pub enum OutputStream {
    Stdout,
    Stderr,
}

/// What comes in on the client's stream.
pub enum InboundView {
    /// The start of a request.
    Start(StartView),
    /// A part of the input.
    StdinChunk(Seq<u8>),
    /// The end of the input.
    StdinEof,
    /// A message without a payload.
    Empty,
    /// The end of the stream.
    Closed,
    /// The failure of the stream.
    Failed(Seq<char>),
}

/// How the passing on of a stream ended.
pub enum StreamEndView {
    /// All of it was passed on.
    Complete,
    /// It could not be passed on.
    Failed(Seq<char>),
    /// The task that passes it on was lost.
    JoinFailed(Seq<char>),
}

/// What goes out on the stream to the client.
pub enum ServerEventView {
    Stdout(Seq<char>),
    Stderr(Seq<char>),
    Done(DoneView),
    Empty,
    Closed,
}

/// What happened to a streamed request.
pub enum SessionEventView {
    Inbound(InboundView),
    HookDecided(HookDecisionView),
    SpawnFailed(Seq<char>),
    Spawned { stdout: bool, stderr: bool, stdin: bool },
    StdinWritten,
    StdinBroken,
    StdinFailed(Seq<char>),
    Exited { code: Option<i32> },
    WaitFailed(Seq<char>),
    OutputEnded { stream: OutputStream, end: StreamEndView },
}

/// A command that is running: which of its streams are still open.
pub struct RunView {
    pub start: StartView,
    pub decision: DecisionView,
    pub stdout_open: bool,
    pub stderr_open: bool,
    pub stdin_open: bool,
}

/// How far a streamed request has come.
pub enum SessionPhaseView {
    AwaitingStart,
    Asking { start: StartView, path: Seq<char>, decision: DecisionView },
    Spawning { start: StartView, decision: DecisionView },
    Running(RunView),
    Writing(RunView),
    Draining {
        start: StartView,
        decision: DecisionView,
        code: Option<i32>,
        stdout: Option<StreamEndView>,
        stderr: Option<StreamEndView>,
    },
    Ended,
}

/// What is to be done for a streamed request.
pub enum SessionActionView {
    AskHook { hook: Seq<char>, timeout_secs: u64, payload: Seq<char> },
    Spawn { path: Seq<char>, args: Seq<Seq<char>> },
    Pump,
    WriteStdin(Seq<u8>),
    CloseStdin,
    Wait,
    Finish { kill: bool, abort: bool, done: DoneView, audit: Option<AuditView> },
}

/// The name of a stream.
pub open spec fn stream_text(stream: OutputStream) -> Seq<char> {
    match stream {
        OutputStream::Stdout => "stdout"@,
        OutputStream::Stderr => "stderr"@,
    }
}

/// What is said of a stream that was not passed on to its end.
pub open spec fn end_message(stream: OutputStream, end: StreamEndView) -> Option<Seq<char>> {
    match end {
        StreamEndView::Complete => None,
        StreamEndView::Failed(e) => Some(stream_text(stream) + " stream failed: "@ + e),
        StreamEndView::JoinFailed(e) => Some(stream_text(stream) + " stream task join failed: "@ + e),
    }
}

/// The end of a request that never started.
pub open spec fn unstarted(message: Seq<char>) -> (SessionPhaseView, SessionActionView) {
    let done = stopped(Outcome::Error, message);
    (
        SessionPhaseView::Ended,
        SessionActionView::Finish {
            kill: false,
            abort: false,
            done,
            audit: Some(audit("<missing-start>"@, seq![], None, done)),
        },
    )
}

/// The end of a request.
pub open spec fn ended(
    start: StartView,
    decision: Option<DecisionView>,
    done: DoneView,
) -> (SessionPhaseView, SessionActionView) {
    (
        SessionPhaseView::Ended,
        SessionActionView::Finish {
            kill: false,
            abort: false,
            done,
            audit: Some(audit(start.cmd, start.args, decision, done)),
        },
    )
}

/// The end of a request whose command has to be killed.
pub open spec fn killed(run: RunView, abort: bool, message: Seq<char>) -> (
    SessionPhaseView,
    SessionActionView,
) {
    let done = stopped(Outcome::Error, message);
    (
        SessionPhaseView::Ended,
        SessionActionView::Finish {
            kill: true,
            abort,
            done,
            audit: Some(audit(run.start.cmd, run.start.args, Some(run.decision), done)),
        },
    )
}

/// The end of a request whose command came without a pipe. The audit log says nothing of it.
pub open spec fn without_pipe(message: Seq<char>) -> (SessionPhaseView, SessionActionView) {
    (
        SessionPhaseView::Ended,
        SessionActionView::Finish {
            kill: false,
            abort: false,
            done: stopped(Outcome::Error, message),
            audit: None,
        },
    )
}

/// What follows the admission of a request.
pub open spec fn session_after_gate(
    start: StartView,
    path: Seq<char>,
    gate: GateView,
) -> (SessionPhaseView, SessionActionView) {
    match gate {
        GateView::Allow(decision) => (
            SessionPhaseView::Spawning { start, decision },
            SessionActionView::Spawn { path, args: start.args },
        ),
        GateView::Return { outcome, message } => ended(start, None, stopped(outcome, message)),
        GateView::Ask { hook, timeout_secs, payload, decision } => (
            SessionPhaseView::Asking { start, path, decision },
            SessionActionView::AskHook { hook, timeout_secs, payload },
        ),
    }
}

/// What follows the first message of a request.
pub open spec fn admitted(svc: ServiceView, start: StartView) -> (
    SessionPhaseView,
    SessionActionView,
) {
    if svc.commands.dom().contains(start.cmd) {
        session_after_gate(start, svc.commands[start.cmd], gate(svc.policy, start))
    } else {
        ended(start, None, stopped(Outcome::Denied, not_registered(start.cmd)))
    }
}

/// The end of a request whose command ended. What went wrong on standard output is said before
/// what went wrong on standard error.
pub open spec fn concluded(
    start: StartView,
    decision: DecisionView,
    code: Option<i32>,
    stdout: StreamEndView,
    stderr: StreamEndView,
) -> (SessionPhaseView, SessionActionView) {
    let failure = match end_message(OutputStream::Stdout, stdout) {
        Some(message) => Some(message),
        None => end_message(OutputStream::Stderr, stderr),
    };
    ended(
        start,
        Some(decision),
        match failure {
            Some(message) => DoneView {
                outcome: Outcome::Error,
                exit_code: reported(code),
                message,
            },
            None => DoneView {
                outcome: Outcome::Executed,
                exit_code: reported(code),
                message: ""@,
            },
        },
    )
}

/// What follows once the command has ended: its streams are passed on to their ends.
pub open spec fn draining(
    start: StartView,
    decision: DecisionView,
    code: Option<i32>,
    stdout: Option<StreamEndView>,
    stderr: Option<StreamEndView>,
) -> (SessionPhaseView, SessionActionView) {
    match (stdout, stderr) {
        (Some(out), Some(err)) => concluded(start, decision, code, out, err),
        _ => (
            SessionPhaseView::Draining { start, decision, code, stdout, stderr },
            SessionActionView::Wait,
        ),
    }
}

/// What follows an event while the command runs. What comes of a stream that is no longer open
/// changes nothing.
pub open spec fn running_step(run: RunView, event: SessionEventView) -> (
    SessionPhaseView,
    SessionActionView,
) {
    let same = (SessionPhaseView::Running(run), SessionActionView::Wait);
    let closed = (
        SessionPhaseView::Running(RunView { stdin_open: false, ..run }),
        SessionActionView::CloseStdin,
    );
    match event {
        SessionEventView::Exited { code } => draining(
            run.start,
            run.decision,
            code,
            if run.stdout_open { None } else { Some(StreamEndView::Complete) },
            if run.stderr_open { None } else { Some(StreamEndView::Complete) },
        ),
        SessionEventView::WaitFailed(e) => ended(
            run.start,
            Some(run.decision),
            stopped(Outcome::Error, "command wait failed: "@ + e),
        ),
        SessionEventView::OutputEnded { stream: OutputStream::Stdout, end } => if run.stdout_open {
            match end_message(OutputStream::Stdout, end) {
                None => (
                    SessionPhaseView::Running(RunView { stdout_open: false, ..run }),
                    SessionActionView::Wait,
                ),
                Some(message) => killed(run, run.stderr_open, message),
            }
        } else {
            same
        },
        SessionEventView::OutputEnded { stream: OutputStream::Stderr, end } => if run.stderr_open {
            match end_message(OutputStream::Stderr, end) {
                None => (
                    SessionPhaseView::Running(RunView { stderr_open: false, ..run }),
                    SessionActionView::Wait,
                ),
                Some(message) => killed(run, run.stdout_open, message),
            }
        } else {
            same
        },
        SessionEventView::Inbound(message) => if run.stdin_open {
            match message {
                InboundView::StdinChunk(bytes) => (
                    SessionPhaseView::Writing(run),
                    SessionActionView::WriteStdin(bytes),
                ),
                InboundView::StdinEof => closed,
                InboundView::Closed => closed,
                InboundView::Empty => same,
                InboundView::Start(_) => killed(
                    run,
                    false,
                    "unexpected start message after stream start"@,
                ),
                InboundView::Failed(status) => killed(run, false, "input stream failed: "@ + status),
            }
        } else {
            same
        },
        _ => same,
    }
}

/// What follows an event of a streamed request. An event that does not belong to the phase
/// changes nothing.
pub open spec fn session_step(
    svc: ServiceView,
    phase: SessionPhaseView,
    event: SessionEventView,
) -> (SessionPhaseView, SessionActionView) {
    match (phase, event) {
        (SessionPhaseView::AwaitingStart, SessionEventView::Inbound(message)) => match message {
            InboundView::Start(start) => admitted(svc, start),
            InboundView::Closed => unstarted("missing stream start message"@),
            InboundView::Failed(status) => unstarted(
                "input stream failed before start: "@ + status,
            ),
            _ => unstarted("first stream message must be start"@),
        },
        (
            SessionPhaseView::Asking { start, path, decision },
            SessionEventView::HookDecided(hook),
        ) => session_after_gate(start, path, gate_by_hook(decision, hook)),
        (SessionPhaseView::Spawning { start, decision }, SessionEventView::SpawnFailed(e)) => ended(
            start,
            Some(decision),
            stopped(Outcome::Error, "failed to start command: "@ + e),
        ),
        (
            SessionPhaseView::Spawning { start, decision },
            SessionEventView::Spawned { stdout, stderr, stdin },
        ) => if !stdout {
            without_pipe("stdout pipe unavailable"@)
        } else if !stderr {
            without_pipe("stderr pipe unavailable"@)
        } else {
            (
                SessionPhaseView::Running(
                    RunView {
                        start,
                        decision,
                        stdout_open: true,
                        stderr_open: true,
                        stdin_open: stdin,
                    },
                ),
                SessionActionView::Pump,
            )
        },
        (SessionPhaseView::Running(run), event) => running_step(run, event),
        (SessionPhaseView::Writing(run), SessionEventView::StdinWritten) => (
            SessionPhaseView::Running(run),
            SessionActionView::Wait,
        ),
        (SessionPhaseView::Writing(run), SessionEventView::StdinBroken) => (
            SessionPhaseView::Running(RunView { stdin_open: false, ..run }),
            SessionActionView::CloseStdin,
        ),
        (SessionPhaseView::Writing(run), SessionEventView::StdinFailed(e)) => killed(
            run,
            false,
            "stdin write failed: "@ + e,
        ),
        (
            SessionPhaseView::Draining { start, decision, code, stdout: None, stderr },
            SessionEventView::OutputEnded { stream: OutputStream::Stdout, end },
        ) => draining(start, decision, code, Some(end), stderr),
        (
            SessionPhaseView::Draining { start, decision, code, stdout, stderr: None },
            SessionEventView::OutputEnded { stream: OutputStream::Stderr, end },
        ) => draining(start, decision, code, stdout, Some(end)),
        _ => (phase, SessionActionView::Wait),
    }
}

} // verus!
