//! Streamed requests: what the daemon does, one event at a time.

use crate::hook::HookDecision;
use crate::policy::Decision;
use crate::server::{
    audit_log, failure, not_registered_message, reported_code, settle_by_hook, AuditRecord,
    ExecuteDone, ExecuteStart, GateResult, WardenService,
};
use crate::server_model::{stopped, Outcome};
use crate::session_model::{
    admitted, concluded, draining, end_message, ended, killed, running_step, session_after_gate,
    session_step, stream_text, unstarted, without_pipe, InboundView, OutputStream, RunView,
    ServerEventView, SessionActionView, SessionEventView, SessionPhaseView, StreamEndView,
};
use crate::text::{copy_texts, texts};
use vstd::prelude::*;
use vstd::string::*;

verus! {

/// A message on the client's stream, or how the stream ended.
#[derive(Debug)]
pub enum Inbound {
    /// The start of a request.
    Start(ExecuteStart),
    /// A part of the input.
    StdinChunk(Vec<u8>),
    /// The end of the input.
    StdinEof,
    /// A message without a payload.
    Empty,
    /// The end of the stream.
    Closed,
    /// The failure of the stream.
    Failed(String),
}

impl View for Inbound {
    type V = InboundView;

    open spec fn view(&self) -> InboundView {
        match *self {
            Inbound::Start(start) => InboundView::Start(start@),
            Inbound::StdinChunk(bytes) => InboundView::StdinChunk(bytes@),
            Inbound::StdinEof => InboundView::StdinEof,
            Inbound::Empty => InboundView::Empty,
            Inbound::Closed => InboundView::Closed,
            Inbound::Failed(status) => InboundView::Failed(status@),
        }
    }
}

/// How the passing on of a stream ended.
#[derive(Debug)]
pub enum StreamEnd {
    /// All of it was passed on.
    Complete,
    /// It could not be passed on.
    Failed(String),
    /// The task that passes it on was lost.
    JoinFailed(String),
}

impl View for StreamEnd {
    type V = StreamEndView;

    open spec fn view(&self) -> StreamEndView {
        match *self {
            StreamEnd::Complete => StreamEndView::Complete,
            StreamEnd::Failed(e) => StreamEndView::Failed(e@),
            StreamEnd::JoinFailed(e) => StreamEndView::JoinFailed(e@),
        }
    }
}

/// What happened to a streamed request.
#[derive(Debug)]
pub enum SessionEvent {
    /// Something came in on the client's stream.
    Inbound(Inbound),
    /// The allow hook decided.
    HookDecided(HookDecision),
    /// The command could not be started.
    SpawnFailed(String),
    /// The command was started, with or without each of its pipes.
    Spawned { stdout: bool, stderr: bool, stdin: bool },
    /// The part of the input was written.
    StdinWritten,
    /// The command no longer reads its input.
    StdinBroken,
    /// The part of the input could not be written.
    StdinFailed(String),
    /// The command ended.
    Exited { code: Option<i32> },
    /// The command could not be waited for.
    WaitFailed(String),
    /// One of the output streams came to its end.
    OutputEnded { stream: OutputStream, end: StreamEnd },
}

impl View for SessionEvent {
    type V = SessionEventView;

    open spec fn view(&self) -> SessionEventView {
        match *self {
            SessionEvent::Inbound(message) => SessionEventView::Inbound(message@),
            SessionEvent::HookDecided(hook) => SessionEventView::HookDecided(hook@),
            SessionEvent::SpawnFailed(e) => SessionEventView::SpawnFailed(e@),
            SessionEvent::Spawned { stdout, stderr, stdin } => SessionEventView::Spawned {
                stdout,
                stderr,
                stdin,
            },
            SessionEvent::StdinWritten => SessionEventView::StdinWritten,
            SessionEvent::StdinBroken => SessionEventView::StdinBroken,
            SessionEvent::StdinFailed(e) => SessionEventView::StdinFailed(e@),
            SessionEvent::Exited { code } => SessionEventView::Exited { code },
            SessionEvent::WaitFailed(e) => SessionEventView::WaitFailed(e@),
            SessionEvent::OutputEnded { stream, end } => SessionEventView::OutputEnded {
                stream,
                end: end@,
            },
        }
    }
}

/// A command that is running.
#[derive(Debug)]
pub struct Run {
    pub start: ExecuteStart,
    pub decision: Decision,
    pub stdout_open: bool,
    pub stderr_open: bool,
    pub stdin_open: bool,
}

impl View for Run {
    type V = RunView;

    open spec fn view(&self) -> RunView {
        RunView {
            start: self.start@,
            decision: self.decision@,
            stdout_open: self.stdout_open,
            stderr_open: self.stderr_open,
            stdin_open: self.stdin_open,
        }
    }
}

/// How far a streamed request has come.
#[derive(Debug)]
pub enum SessionPhase {
    /// Nothing has come in.
    AwaitingStart,
    /// The allow hook is asked.
    Asking { start: ExecuteStart, path: String, decision: Decision },
    /// The command is being started.
    Spawning { start: ExecuteStart, decision: Decision },
    /// The command is running.
    Running(Run),
    /// A part of the input is being written to the command.
    Writing(Run),
    /// The command has ended, and its output is passed on to its end.
    Draining {
        start: ExecuteStart,
        decision: Decision,
        code: Option<i32>,
        stdout: Option<StreamEnd>,
        stderr: Option<StreamEnd>,
    },
    /// The request has been answered.
    Ended,
}

/// The model of an end that may have come.
pub open spec fn opt_end(end: Option<StreamEnd>) -> Option<StreamEndView> {
    match end {
        Some(e) => Some(e@),
        None => None,
    }
}

impl View for SessionPhase {
    type V = SessionPhaseView;

    open spec fn view(&self) -> SessionPhaseView {
        match *self {
            SessionPhase::AwaitingStart => SessionPhaseView::AwaitingStart,
            SessionPhase::Asking { start, path, decision } => SessionPhaseView::Asking {
                start: start@,
                path: path@,
                decision: decision@,
            },
            SessionPhase::Spawning { start, decision } => SessionPhaseView::Spawning {
                start: start@,
                decision: decision@,
            },
            SessionPhase::Running(run) => SessionPhaseView::Running(run@),
            SessionPhase::Writing(run) => SessionPhaseView::Writing(run@),
            SessionPhase::Draining { start, decision, code, stdout, stderr } =>
            SessionPhaseView::Draining {
                start: start@,
                decision: decision@,
                code,
                stdout: opt_end(stdout),
                stderr: opt_end(stderr),
            },
            SessionPhase::Ended => SessionPhaseView::Ended,
        }
    }
}

/// What is to be done for a streamed request.
#[derive(Debug)]
pub enum SessionAction {
    /// Ask the allow hook, for no longer than the timeout.
    AskHook { hook_path: String, timeout_secs: u64, payload: String },
    /// Start the command, with pipes to and from it.
    Spawn { path: String, args: Vec<String> },
    /// Pass on the output of the command, and wait for what happens.
    Pump,
    /// Write a part of the input to the command.
    WriteStdin(Vec<u8>),
    /// Close the input of the command, and wait for what happens.
    CloseStdin,
    /// Wait for what happens.
    Wait,
    /// Answer the request. Before that, the command is to be killed and waited for where `kill`
    /// says so, and the passing on of the other output stream is to be stopped where `abort`
    /// says so. What the audit log is to say of the request follows, where it says anything.
    Finish { kill: bool, abort: bool, done: ExecuteDone, audit: Option<AuditRecord> },
}

impl View for SessionAction {
    type V = SessionActionView;

    open spec fn view(&self) -> SessionActionView {
        match *self {
            SessionAction::AskHook { hook_path, timeout_secs, payload } =>
            SessionActionView::AskHook { hook: hook_path@, timeout_secs, payload: payload@ },
            SessionAction::Spawn { path, args } => SessionActionView::Spawn {
                path: path@,
                args: texts(args@),
            },
            SessionAction::Pump => SessionActionView::Pump,
            SessionAction::WriteStdin(bytes) => SessionActionView::WriteStdin(bytes@),
            SessionAction::CloseStdin => SessionActionView::CloseStdin,
            SessionAction::Wait => SessionActionView::Wait,
            SessionAction::Finish { kill, abort, done, audit } => SessionActionView::Finish {
                kill,
                abort,
                done: done@,
                audit: match audit {
                    Some(record) => Some(record@),
                    None => None,
                },
            },
        }
    }
}

/// A message on the stream to the client, or the end of that stream.
#[derive(Debug)]
pub enum ServerEvent {
    /// A part of what the command wrote to its standard output.
    Stdout(String),
    /// A part of what the command wrote to its standard error.
    Stderr(String),
    /// How the request ended.
    Done(ExecuteDone),
    /// A message without a payload.
    Empty,
    /// The end of the stream.
    Closed,
}

impl View for ServerEvent {
    type V = ServerEventView;

    open spec fn view(&self) -> ServerEventView {
        match *self {
            ServerEvent::Stdout(chunk) => ServerEventView::Stdout(chunk@),
            ServerEvent::Stderr(chunk) => ServerEventView::Stderr(chunk@),
            ServerEvent::Done(done) => ServerEventView::Done(done@),
            ServerEvent::Empty => ServerEventView::Empty,
            ServerEvent::Closed => ServerEventView::Closed,
        }
    }
}

/// The message that passes on a part of the standard output.
pub fn stream_stdout(chunk: String) -> (event: ServerEvent)
    ensures
        event@ == ServerEventView::Stdout(chunk@),
{
    ServerEvent::Stdout(chunk)
}

/// The message that passes on a part of the standard error.
pub fn stream_stderr(chunk: String) -> (event: ServerEvent)
    ensures
        event@ == ServerEventView::Stderr(chunk@),
{
    ServerEvent::Stderr(chunk)
}

/// The name of a stream.
pub fn stream_name(stream: OutputStream) -> (name: &'static str)
    ensures
        name@ == stream_text(stream),
{
    match stream {
        OutputStream::Stdout => "stdout",
        OutputStream::Stderr => "stderr",
    }
}

/// What is said of a stream that was not passed on to its end.
pub fn end_failure(stream: OutputStream, end: &StreamEnd) -> (message: Option<String>)
    ensures
        match message {
            Some(text) => end_message(stream, end@) == Some(text@),
            None => end_message(stream, end@) is None,
        },
{
    match end {
        StreamEnd::Complete => None,
        StreamEnd::Failed(e) => {
            let mut message = stream_name(stream).to_owned();
            message.append(" stream failed: ");
            message.append(e.as_str());
            Some(message)
        },
        StreamEnd::JoinFailed(e) => {
            let mut message = stream_name(stream).to_owned();
            message.append(" stream task join failed: ");
            message.append(e.as_str());
            Some(message)
        },
    }
}

fn stop(outcome: Outcome, message: String) -> (done: ExecuteDone)
    ensures
        done@ == stopped(outcome, message@),
{
    ExecuteDone { outcome, exit_code: -1, message }
}

fn end_unstarted(message: String) -> (r: (SessionPhase, SessionAction))
    ensures
        (r.0@, r.1@) == unstarted(message@),
{
    let done = stop(Outcome::Error, message);
    let none: Vec<String> = Vec::new();
    let audit = audit_log("<missing-start>", none.as_slice(), None, &done);
    assert(texts(none@) =~= Seq::<Seq<char>>::empty());
    (SessionPhase::Ended, SessionAction::Finish { kill: false, abort: false, done, audit: Some(audit) })
}

fn end(start: &ExecuteStart, decision: Option<&Decision>, done: ExecuteDone) -> (r: (
    SessionPhase,
    SessionAction,
))
    ensures
        (r.0@, r.1@) == ended(
            start@,
            match decision {
                Some(d) => Some(d@),
                None => None,
            },
            done@,
        ),
{
    let audit = audit_log(start.cmd.as_str(), start.args.as_slice(), decision, &done);
    (SessionPhase::Ended, SessionAction::Finish { kill: false, abort: false, done, audit: Some(audit) })
}

fn kill(run: &Run, abort: bool, message: String) -> (r: (SessionPhase, SessionAction))
    ensures
        (r.0@, r.1@) == killed(run@, abort, message@),
{
    let done = stop(Outcome::Error, message);
    let audit = audit_log(
        run.start.cmd.as_str(),
        run.start.args.as_slice(),
        Some(&run.decision),
        &done,
    );
    (SessionPhase::Ended, SessionAction::Finish { kill: true, abort, done, audit: Some(audit) })
}

fn end_without_pipe(message: &str) -> (r: (SessionPhase, SessionAction))
    ensures
        (r.0@, r.1@) == without_pipe(message@),
{
    let done = stop(Outcome::Error, message.to_owned());
    (SessionPhase::Ended, SessionAction::Finish { kill: false, abort: false, done, audit: None })
}

fn go_on(start: ExecuteStart, path: String, gate: GateResult) -> (r: (SessionPhase, SessionAction))
    ensures
        (r.0@, r.1@) == session_after_gate(start@, path@, gate@),
{
    match gate {
        GateResult::Allow(decision) => {
            let args = copy_texts(start.args.as_slice());
            (SessionPhase::Spawning { start, decision }, SessionAction::Spawn { path, args })
        },
        GateResult::Return { outcome, message } => end(&start, None, stop(outcome, message)),
        GateResult::Ask { hook_path, timeout_secs, payload, decision } => (
            SessionPhase::Asking { start, path, decision },
            SessionAction::AskHook { hook_path, timeout_secs, payload },
        ),
    }
}

fn conclude(
    start: &ExecuteStart,
    decision: &Decision,
    code: Option<i32>,
    stdout: &StreamEnd,
    stderr: &StreamEnd,
) -> (r: (SessionPhase, SessionAction))
    ensures
        (r.0@, r.1@) == concluded(start@, decision@, code, stdout@, stderr@),
{
    let exit_code: i32 = reported_code(code);
    let failed = match end_failure(OutputStream::Stdout, stdout) {
        Some(message) => Some(message),
        None => end_failure(OutputStream::Stderr, stderr),
    };
    let done = match failed {
        Some(message) => ExecuteDone { outcome: Outcome::Error, exit_code, message },
        None => ExecuteDone { outcome: Outcome::Executed, exit_code, message: "".to_owned() },
    };
    end(start, Some(decision), done)
}

fn drain(
    start: ExecuteStart,
    decision: Decision,
    code: Option<i32>,
    stdout: Option<StreamEnd>,
    stderr: Option<StreamEnd>,
) -> (r: (SessionPhase, SessionAction))
    ensures
        (r.0@, r.1@) == draining(start@, decision@, code, opt_end(stdout), opt_end(stderr)),
{
    if let Some(out) = &stdout {
        if let Some(err) = &stderr {
            return conclude(&start, &decision, code, out, err);
        }
    }
    (SessionPhase::Draining { start, decision, code, stdout, stderr }, SessionAction::Wait)
}

fn close_stdin(run: Run) -> (r: (SessionPhase, SessionAction))
    ensures
        r.0@ == SessionPhaseView::Running(RunView { stdin_open: false, ..run@ }),
        r.1@ == SessionActionView::CloseStdin,
{
    (SessionPhase::Running(Run { stdin_open: false, ..run }), SessionAction::CloseStdin)
}

fn running(run: Run, event: SessionEvent) -> (r: (SessionPhase, SessionAction))
    ensures
        (r.0@, r.1@) == running_step(run@, event@),
{
    match event {
        SessionEvent::Exited { code } => {
            let stdout = if run.stdout_open {
                None
            } else {
                Some(StreamEnd::Complete)
            };
            let stderr = if run.stderr_open {
                None
            } else {
                Some(StreamEnd::Complete)
            };
            drain(run.start, run.decision, code, stdout, stderr)
        },
        SessionEvent::WaitFailed(e) => {
            let message = failure("command wait failed: ", e.as_str());
            end(&run.start, Some(&run.decision), stop(Outcome::Error, message))
        },
        SessionEvent::OutputEnded { stream: OutputStream::Stdout, end } => {
            if !run.stdout_open {
                return (SessionPhase::Running(run), SessionAction::Wait);
            }
            match end_failure(OutputStream::Stdout, &end) {
                None => (
                    SessionPhase::Running(Run { stdout_open: false, ..run }),
                    SessionAction::Wait,
                ),
                Some(message) => kill(&run, run.stderr_open, message),
            }
        },
        SessionEvent::OutputEnded { stream: OutputStream::Stderr, end } => {
            if !run.stderr_open {
                return (SessionPhase::Running(run), SessionAction::Wait);
            }
            match end_failure(OutputStream::Stderr, &end) {
                None => (
                    SessionPhase::Running(Run { stderr_open: false, ..run }),
                    SessionAction::Wait,
                ),
                Some(message) => kill(&run, run.stdout_open, message),
            }
        },
        SessionEvent::Inbound(message) => {
            if !run.stdin_open {
                return (SessionPhase::Running(run), SessionAction::Wait);
            }
            match message {
                Inbound::StdinChunk(bytes) => (
                    SessionPhase::Writing(run),
                    SessionAction::WriteStdin(bytes),
                ),
                Inbound::StdinEof => close_stdin(run),
                Inbound::Closed => close_stdin(run),
                Inbound::Empty => (SessionPhase::Running(run), SessionAction::Wait),
                Inbound::Start(_) => kill(
                    &run,
                    false,
                    "unexpected start message after stream start".to_owned(),
                ),
                Inbound::Failed(status) => kill(
                    &run,
                    false,
                    failure("input stream failed: ", status.as_str()),
                ),
            }
        },
        _ => (SessionPhase::Running(run), SessionAction::Wait),
    }
}

impl WardenService {
    fn begin(&self, start: ExecuteStart) -> (r: (SessionPhase, SessionAction))
        ensures
            (r.0@, r.1@) == admitted(self@, start@),
    {
        match self.commands.get(start.cmd.as_str()) {
            Some(path) => {
                let gate = self.apply_gate(&start);
                go_on(start, path, gate)
            },
            None => {
                let message = not_registered_message(start.cmd.as_str());
                end(&start, None, stop(Outcome::Denied, message))
            },
        }
    }

    /// What follows an event of a streamed request.
    pub fn handle_execute_stream(&self, phase: SessionPhase, event: SessionEvent) -> (r: (
        SessionPhase,
        SessionAction,
    ))
        ensures
            (r.0@, r.1@) == session_step(self@, phase@, event@),
    {
        match (phase, event) {
            (SessionPhase::AwaitingStart, SessionEvent::Inbound(message)) => match message {
                Inbound::Start(start) => self.begin(start),
                Inbound::Closed => end_unstarted("missing stream start message".to_owned()),
                Inbound::Failed(status) => end_unstarted(
                    failure("input stream failed before start: ", status.as_str()),
                ),
                _ => end_unstarted("first stream message must be start".to_owned()),
            },
            (SessionPhase::Asking { start, path, decision }, SessionEvent::HookDecided(hook)) =>
            go_on(start, path, settle_by_hook(decision, hook)),
            (SessionPhase::Spawning { start, decision }, SessionEvent::SpawnFailed(e)) => {
                let message = failure("failed to start command: ", e.as_str());
                end(&start, Some(&decision), stop(Outcome::Error, message))
            },
            (
                SessionPhase::Spawning { start, decision },
                SessionEvent::Spawned { stdout, stderr, stdin },
            ) => if !stdout {
                end_without_pipe("stdout pipe unavailable")
            } else if !stderr {
                end_without_pipe("stderr pipe unavailable")
            } else {
                let run = Run {
                    start,
                    decision,
                    stdout_open: true,
                    stderr_open: true,
                    stdin_open: stdin,
                };
                (SessionPhase::Running(run), SessionAction::Pump)
            },
            (SessionPhase::Running(run), event) => running(run, event),
            (SessionPhase::Writing(run), SessionEvent::StdinWritten) => (
                SessionPhase::Running(run),
                SessionAction::Wait,
            ),
            (SessionPhase::Writing(run), SessionEvent::StdinBroken) => close_stdin(run),
            (SessionPhase::Writing(run), SessionEvent::StdinFailed(e)) => kill(
                &run,
                false,
                failure("stdin write failed: ", e.as_str()),
            ),
            (
                SessionPhase::Draining { start, decision, code, stdout: None, stderr },
                SessionEvent::OutputEnded { stream: OutputStream::Stdout, end },
            ) => drain(start, decision, code, Some(end), stderr),
            (
                SessionPhase::Draining { start, decision, code, stdout, stderr: None },
                SessionEvent::OutputEnded { stream: OutputStream::Stderr, end },
            ) => drain(start, decision, code, stdout, Some(end)),
            (phase, _) => (phase, SessionAction::Wait),
        }
    }
}

} // verus!
