//! The meaning of the service: how a request is admitted, run and answered.

use crate::config::Effect;
use crate::hook::{hook_payload, HookDecisionView};
use crate::policy_model::{DecisionView, PolicyView};
use crate::redaction::{redaction, MARK};
use crate::text::trimmed;
use crate::utf8_input::NON_UTF8;
use vstd::prelude::*;
use vstd::utf8::*;

verus! {

/// How a request ended.
#[derive(Debug, Clone, Copy, PartialEq, Eq, Structural)]
pub enum Outcome {
    Unspecified,
    Executed,
    Denied,
    Cancelled,
    UserReply,
    Error,
}

/// The model of a service: its registry, its policy and its secrets.
pub struct ServiceView {
    pub commands: Map<Seq<char>, Seq<char>>,
    pub policy: PolicyView,
    pub secrets: Seq<Seq<char>>,
}

/// The model of the start of a request.
pub struct StartView {
    pub cmd: Seq<char>,
    pub args: Seq<Seq<char>>,
    pub intent: Seq<char>,
}

/// The model of how a request ended, and of what is said of it.
pub struct DoneView {
    pub outcome: Outcome,
    pub exit_code: int,
    pub message: Seq<char>,
}

/// The model of a line of the audit log.
pub struct AuditView {
    pub cmd: Seq<char>,
    pub args: Seq<Seq<char>>,
    pub effect: Seq<char>,
    pub rule_source: Seq<char>,
    pub outcome: Outcome,
    pub exit_code: int,
    pub message: Seq<char>,
}

/// How a request is admitted.
pub enum GateView {
    /// It may run.
    Allow(DecisionView),
    /// It is answered without being run.
    Return { outcome: Outcome, message: Seq<char> },
    /// The allow hook is asked, and given the payload.
    Ask { hook: Seq<char>, timeout_secs: u64, payload: Seq<char>, decision: DecisionView },
}

/// The answer to a request for a command that is not registered.
pub open spec fn not_registered(cmd: Seq<char>) -> Seq<char> {
    "command '"@ + cmd + "' is not registered"@
}

/// What the policy says of a request.
pub open spec fn gate(policy: PolicyView, start: StartView) -> GateView {
    match policy.decides(start.cmd, start.args) {
        Err(_) => GateView::Return { outcome: Outcome::Error, message: "policy evaluation failed"@ },
        Ok(decision) => match decision.effect {
            Effect::Allow => GateView::Allow(decision),
            Effect::Audit => GateView::Allow(decision),
            Effect::Deny => GateView::Return {
                outcome: Outcome::Denied,
                message: "denied by policy"@,
            },
            Effect::Ask => if decision.intent_required && trimmed(start.intent).len() == 0 {
                GateView::Return {
                    outcome: Outcome::Denied,
                    message: "intent_required: provide intent and retry"@,
                }
            } else {
                match policy.allow_hook {
                    None => GateView::Return {
                        outcome: Outcome::Cancelled,
                        message: "ask policy matched but no allow_hook configured"@,
                    },
                    Some(hook) => GateView::Ask {
                        hook,
                        timeout_secs: policy.allow_hook_timeout_secs,
                        payload: hook_payload(start.cmd, start.args, start.intent),
                        decision,
                    },
                }
            },
        },
    }
}

/// How a request is admitted once the allow hook has decided on it.
pub open spec fn gate_by_hook(decision: DecisionView, hook: HookDecisionView) -> GateView {
    match hook {
        HookDecisionView::Yes => GateView::Allow(decision),
        HookDecisionView::No => GateView::Return {
            outcome: Outcome::Denied,
            message: "denied by allow_hook"@,
        },
        HookDecisionView::Cancel => GateView::Return {
            outcome: Outcome::Cancelled,
            message: "cancelled by allow_hook"@,
        },
        HookDecisionView::UserReply(reply) => GateView::Return {
            outcome: Outcome::UserReply,
            message: reply,
        },
    }
}

/// The name of an effect.
pub open spec fn effect_text(effect: Effect) -> Seq<char> {
    match effect {
        Effect::Allow => "Allow"@,
        Effect::Deny => "Deny"@,
        Effect::Ask => "Ask"@,
        Effect::Audit => "Audit"@,
    }
}

/// What the audit log says of a request.
pub open spec fn audit(
    cmd: Seq<char>,
    args: Seq<Seq<char>>,
    decision: Option<DecisionView>,
    done: DoneView,
) -> AuditView {
    AuditView {
        cmd,
        args,
        effect: match decision {
            Some(d) => effect_text(d.effect),
            None => "<none>"@,
        },
        rule_source: match decision {
            Some(d) => match d.matched_rule {
                Some(rule) => rule.source,
                None => "default"@,
            },
            None => "<none>"@,
        },
        outcome: done.outcome,
        exit_code: done.exit_code,
        message: done.message,
    }
}

/// The end of a request that did not run to its end.
pub open spec fn stopped(outcome: Outcome, message: Seq<char>) -> DoneView {
    DoneView { outcome, exit_code: -1, message }
}

/// The exit code that is reported: -1 where a process has none.
pub open spec fn reported(code: Option<i32>) -> int {
    match code {
        Some(c) => c as int,
        None => -1,
    }
}

/// The model of an answer with the whole output of a command.
pub struct ResponseView {
    pub done: DoneView,
    pub stdout: Seq<char>,
    pub stderr: Seq<char>,
}

/// The model of a request with the whole input of a command.
pub struct RequestView {
    pub start: StartView,
    pub stdin: Seq<char>,
}

/// How far a request has come.
pub enum ExecutePhaseView {
    Received,
    Asking { path: Seq<char>, decision: DecisionView },
    Spawning { decision: DecisionView },
    Writing { decision: DecisionView },
    Waiting { decision: DecisionView },
    Ended,
}

/// What happened to a request.
pub enum ExecuteEventView {
    Received,
    HookDecided(HookDecisionView),
    SpawnFailed(Seq<char>),
    Spawned { stdin: bool },
    StdinWritten,
    StdinFailed(Seq<char>),
    WaitFailed(Seq<char>),
    Finished { code: Option<i32>, stdout: Seq<u8>, stderr: Seq<u8> },
}

/// What is to be done for a request.
pub enum ExecuteActionView {
    AskHook { hook: Seq<char>, timeout_secs: u64, payload: Seq<char> },
    Spawn { path: Seq<char>, args: Seq<Seq<char>> },
    WriteStdin(Seq<char>),
    WaitOutput,
    Reply { response: ResponseView, audit: AuditView },
    Ignore,
}

/// The answer to a request, and what the audit log says of it.
pub open spec fn replied(
    req: RequestView,
    decision: Option<DecisionView>,
    done: DoneView,
    stdout: Seq<char>,
    stderr: Seq<char>,
) -> (ExecutePhaseView, ExecuteActionView) {
    (
        ExecutePhaseView::Ended,
        ExecuteActionView::Reply {
            response: ResponseView { done, stdout, stderr },
            audit: audit(req.start.cmd, req.start.args, decision, done),
        },
    )
}

/// The answer to a request whose command put out nothing that is passed on.
pub open spec fn replied_without_output(
    req: RequestView,
    decision: Option<DecisionView>,
    done: DoneView,
) -> (ExecutePhaseView, ExecuteActionView) {
    replied(req, decision, done, seq![], seq![])
}

/// What follows the admission of a request.
pub open spec fn after_gate(
    req: RequestView,
    path: Seq<char>,
    gate: GateView,
) -> (ExecutePhaseView, ExecuteActionView) {
    match gate {
        GateView::Allow(decision) => (
            ExecutePhaseView::Spawning { decision },
            ExecuteActionView::Spawn { path, args: req.start.args },
        ),
        GateView::Return { outcome, message } => replied_without_output(
            req,
            None,
            stopped(outcome, message),
        ),
        GateView::Ask { hook, timeout_secs, payload, decision } => (
            ExecutePhaseView::Asking { path, decision },
            ExecuteActionView::AskHook { hook, timeout_secs, payload },
        ),
    }
}

/// The answer to a request whose command ended: its output is passed on with the secrets
/// replaced, if all of it is UTF-8.
pub open spec fn finished(
    svc: ServiceView,
    req: RequestView,
    decision: DecisionView,
    code: Option<i32>,
    stdout: Seq<u8>,
    stderr: Seq<u8>,
) -> (ExecutePhaseView, ExecuteActionView) {
    if valid_utf8(stdout) && valid_utf8(stderr) {
        replied(
            req,
            Some(decision),
            DoneView { outcome: Outcome::Executed, exit_code: reported(code), message: ""@ },
            redaction(svc.secrets, decode_utf8(stdout), MARK@),
            redaction(svc.secrets, decode_utf8(stderr), MARK@),
        )
    } else {
        replied_without_output(
            req,
            Some(decision),
            DoneView {
                outcome: Outcome::Error,
                exit_code: reported(code),
                message: "output redaction failed: "@ + NON_UTF8@,
            },
        )
    }
}

/// What follows an event of a request: the request is admitted, the command is started, given
/// its input and waited for, in this order. An event that does not belong to the phase changes
/// nothing.
pub open spec fn execute_step(
    svc: ServiceView,
    req: RequestView,
    phase: ExecutePhaseView,
    event: ExecuteEventView,
) -> (ExecutePhaseView, ExecuteActionView) {
    match (phase, event) {
        (ExecutePhaseView::Received, ExecuteEventView::Received) => if svc.commands.dom().contains(
            req.start.cmd,
        ) {
            after_gate(req, svc.commands[req.start.cmd], gate(svc.policy, req.start))
        } else {
            replied_without_output(
                req,
                None,
                stopped(Outcome::Denied, not_registered(req.start.cmd)),
            )
        },
        (ExecutePhaseView::Asking { path, decision }, ExecuteEventView::HookDecided(hook)) =>
        after_gate(req, path, gate_by_hook(decision, hook)),
        (ExecutePhaseView::Spawning { decision }, ExecuteEventView::SpawnFailed(e)) =>
        replied_without_output(
            req,
            Some(decision),
            stopped(Outcome::Error, "failed to start command: "@ + e),
        ),
        (ExecutePhaseView::Spawning { decision }, ExecuteEventView::Spawned { stdin }) => if stdin
            && req.stdin.len() > 0 {
            (ExecutePhaseView::Writing { decision }, ExecuteActionView::WriteStdin(req.stdin))
        } else {
            (ExecutePhaseView::Waiting { decision }, ExecuteActionView::WaitOutput)
        },
        (ExecutePhaseView::Writing { decision }, ExecuteEventView::StdinFailed(e)) =>
        replied_without_output(
            req,
            Some(decision),
            stopped(Outcome::Error, "failed writing stdin: "@ + e),
        ),
        (ExecutePhaseView::Writing { decision }, ExecuteEventView::StdinWritten) => (
            ExecutePhaseView::Waiting { decision },
            ExecuteActionView::WaitOutput,
        ),
        (ExecutePhaseView::Waiting { decision }, ExecuteEventView::WaitFailed(e)) =>
        replied_without_output(
            req,
            Some(decision),
            stopped(Outcome::Error, "command execution error: "@ + e),
        ),
        (
            ExecutePhaseView::Waiting { decision },
            ExecuteEventView::Finished { code, stdout, stderr },
        ) => finished(svc, req, decision, code, stdout, stderr),
        _ => (phase, ExecuteActionView::Ignore),
    }
}

} // verus!
