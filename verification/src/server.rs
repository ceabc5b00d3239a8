//! The service: requests to run a command, each answered once.

use crate::config::{CommandEntry, Effect};
use crate::hook::{hook_request, HookDecision};
use crate::ordered::ascending;
use crate::policy::{Decision, PolicyEngine};
use crate::policy_tool::policy_refusal;
use crate::redaction::{
    automaton_builds, has_empty, listed_secrets, load_secrets, RedactError, Redactor,
};
use crate::registry::{registered, CommandRegistry};
use crate::server_model::{
    after_gate, audit, effect_text, execute_step, finished, gate, gate_by_hook, not_registered,
    replied, replied_without_output, reported, stopped, AuditView, DoneView, ExecuteActionView,
    ExecuteEventView, ExecutePhaseView, GateView, Outcome, RequestView, ResponseView, ServiceView,
    StartView,
};
use crate::text::{copy_texts, texts, trim};
use crate::utf8_input::NON_UTF8;
use vstd::prelude::*;
use vstd::string::*;

verus! {

/// What runs the commands of a registry under a policy.
#[derive(Debug)]
pub struct WardenService {
    pub commands: CommandRegistry,
    pub policy: PolicyEngine,
    pub redactor: Redactor,
}

impl View for WardenService {
    type V = ServiceView;

    open spec fn view(&self) -> ServiceView {
        ServiceView {
            commands: self.commands@,
            policy: self.policy@,
            secrets: self.redactor.secrets(),
        }
    }
}

/// The command that a request asks for, its arguments and the intent behind it.
#[derive(Debug, Clone)]
pub struct ExecuteStart {
    pub cmd: String,
    pub args: Vec<String>,
    pub intent: String,
}

impl View for ExecuteStart {
    type V = StartView;

    open spec fn view(&self) -> StartView {
        StartView { cmd: self.cmd@, args: texts(self.args@), intent: self.intent@ }
    }
}

/// How a request ended.
#[derive(Debug, Clone)]
pub struct ExecuteDone {
    pub outcome: Outcome,
    pub exit_code: i32,
    pub message: String,
}

impl View for ExecuteDone {
    type V = DoneView;

    open spec fn view(&self) -> DoneView {
        DoneView { outcome: self.outcome, exit_code: self.exit_code as int, message: self.message@ }
    }
}

/// A request with the whole input of the command.
#[derive(Debug, Clone)]
pub struct ExecuteRequest {
    pub start: ExecuteStart,
    pub stdin_utf8: String,
}

impl View for ExecuteRequest {
    type V = RequestView;

    open spec fn view(&self) -> RequestView {
        RequestView { start: self.start@, stdin: self.stdin_utf8@ }
    }
}

/// An answer with the whole output of the command.
#[derive(Debug, Clone)]
pub struct ExecuteResponse {
    pub done: ExecuteDone,
    pub stdout_utf8: String,
    pub stderr_utf8: String,
}

impl View for ExecuteResponse {
    type V = ResponseView;

    open spec fn view(&self) -> ResponseView {
        ResponseView { done: self.done@, stdout: self.stdout_utf8@, stderr: self.stderr_utf8@ }
    }
}

/// A line of the audit log, without the client's address and the time that was taken.
#[derive(Debug, Clone)]
pub struct AuditRecord {
    pub cmd: String,
    pub args: Vec<String>,
    pub effect: String,
    pub rule_source: String,
    pub outcome: Outcome,
    pub exit_code: i32,
    pub message: String,
}

impl View for AuditRecord {
    type V = AuditView;

    open spec fn view(&self) -> AuditView {
        AuditView {
            cmd: self.cmd@,
            args: texts(self.args@),
            effect: self.effect@,
            rule_source: self.rule_source@,
            outcome: self.outcome,
            exit_code: self.exit_code as int,
            message: self.message@,
        }
    }
}

/// How a request is admitted.
#[derive(Debug)]
pub enum GateResult {
    /// It may run.
    Allow(Decision),
    /// It is answered without being run.
    Return { outcome: Outcome, message: String },
    /// The allow hook is to be asked.
    Ask { hook_path: String, timeout_secs: u64, payload: String, decision: Decision },
}

impl View for GateResult {
    type V = GateView;

    open spec fn view(&self) -> GateView {
        match *self {
            GateResult::Allow(decision) => GateView::Allow(decision@),
            GateResult::Return { outcome, message } => GateView::Return {
                outcome,
                message: message@,
            },
            GateResult::Ask { hook_path, timeout_secs, payload, decision } => GateView::Ask {
                hook: hook_path@,
                timeout_secs,
                payload: payload@,
                decision: decision@,
            },
        }
    }
}

/// How far a request has come.
#[derive(Debug)]
pub enum ExecutePhase {
    /// It has been received.
    Received,
    /// The allow hook is asked.
    Asking { path: String, decision: Decision },
    /// The command is being started.
    Spawning { decision: Decision },
    /// The command is given its input.
    Writing { decision: Decision },
    /// The command is waited for.
    Waiting { decision: Decision },
    /// It has been answered.
    Ended,
}

impl View for ExecutePhase {
    type V = ExecutePhaseView;

    open spec fn view(&self) -> ExecutePhaseView {
        match *self {
            ExecutePhase::Received => ExecutePhaseView::Received,
            ExecutePhase::Asking { path, decision } => ExecutePhaseView::Asking {
                path: path@,
                decision: decision@,
            },
            ExecutePhase::Spawning { decision } => ExecutePhaseView::Spawning {
                decision: decision@,
            },
            ExecutePhase::Writing { decision } => ExecutePhaseView::Writing { decision: decision@ },
            ExecutePhase::Waiting { decision } => ExecutePhaseView::Waiting { decision: decision@ },
            ExecutePhase::Ended => ExecutePhaseView::Ended,
        }
    }
}

/// What happened to a request.
#[derive(Debug)]
pub enum ExecuteEvent {
    /// It was received.
    Received,
    /// The allow hook decided.
    HookDecided(HookDecision),
    /// The command could not be started.
    SpawnFailed(String),
    /// The command was started, with or without a pipe to its standard input.
    Spawned { stdin: bool },
    /// The input was written.
    StdinWritten,
    /// The input could not be written.
    StdinFailed(String),
    /// The command could not be waited for.
    WaitFailed(String),
    /// The command ended, with this output.
    Finished { code: Option<i32>, stdout: Vec<u8>, stderr: Vec<u8> },
}

impl View for ExecuteEvent {
    type V = ExecuteEventView;

    open spec fn view(&self) -> ExecuteEventView {
        match *self {
            ExecuteEvent::Received => ExecuteEventView::Received,
            ExecuteEvent::HookDecided(hook) => ExecuteEventView::HookDecided(hook@),
            ExecuteEvent::SpawnFailed(e) => ExecuteEventView::SpawnFailed(e@),
            ExecuteEvent::Spawned { stdin } => ExecuteEventView::Spawned { stdin },
            ExecuteEvent::StdinWritten => ExecuteEventView::StdinWritten,
            ExecuteEvent::StdinFailed(e) => ExecuteEventView::StdinFailed(e@),
            ExecuteEvent::WaitFailed(e) => ExecuteEventView::WaitFailed(e@),
            ExecuteEvent::Finished { code, stdout, stderr } => ExecuteEventView::Finished {
                code,
                stdout: stdout@,
                stderr: stderr@,
            },
        }
    }
}

/// What is to be done for a request.
#[derive(Debug)]
pub enum ExecuteAction {
    /// Ask the allow hook, for no longer than the timeout.
    AskHook { hook_path: String, timeout_secs: u64, payload: String },
    /// Start the command, with pipes to and from it.
    Spawn { path: String, args: Vec<String> },
    /// Write its input and close the pipe.
    WriteStdin(String),
    /// Wait for its end and its output.
    WaitOutput,
    /// Answer the request, and write to the audit log.
    Reply { response: ExecuteResponse, audit: AuditRecord },
    /// Nothing.
    Ignore,
}

impl View for ExecuteAction {
    type V = ExecuteActionView;

    open spec fn view(&self) -> ExecuteActionView {
        match *self {
            ExecuteAction::AskHook { hook_path, timeout_secs, payload } =>
            ExecuteActionView::AskHook { hook: hook_path@, timeout_secs, payload: payload@ },
            ExecuteAction::Spawn { path, args } => ExecuteActionView::Spawn {
                path: path@,
                args: texts(args@),
            },
            ExecuteAction::WriteStdin(text) => ExecuteActionView::WriteStdin(text@),
            ExecuteAction::WaitOutput => ExecuteActionView::WaitOutput,
            ExecuteAction::Reply { response, audit } => ExecuteActionView::Reply {
                response: response@,
                audit: audit@,
            },
            ExecuteAction::Ignore => ExecuteActionView::Ignore,
        }
    }
}

/// A message about an error.
pub fn failure(what: &str, error: &str) -> (message: String)
    ensures
        message@ == what@ + error@,
{
    let mut message = what.to_owned();
    message.append(error);
    message
}

/// The name of an effect.
pub fn effect_name(effect: Effect) -> (name: &'static str)
    ensures
        name@ == effect_text(effect),
{
    match effect {
        Effect::Allow => "Allow",
        Effect::Deny => "Deny",
        Effect::Ask => "Ask",
        Effect::Audit => "Audit",
    }
}

/// The exit code that is reported.
pub fn reported_code(code: Option<i32>) -> (c: i32)
    ensures
        c == reported(code),
{
    match code {
        Some(c) => c,
        None => -1,
    }
}

/// What the audit log says of a request.
pub fn audit_log(
    cmd: &str,
    args: &[String],
    decision: Option<&Decision>,
    done: &ExecuteDone,
) -> (record: AuditRecord)
    ensures
        record@ == audit(
            cmd@,
            texts(args@),
            match decision {
                Some(d) => Some(d@),
                None => None,
            },
            done@,
        ),
{
    let (effect, rule_source) = match decision {
        Some(d) => (
            effect_name(d.effect).to_owned(),
            match &d.matched_rule {
                Some(rule) => rule.source.clone(),
                None => "default".to_owned(),
            },
        ),
        None => ("<none>".to_owned(), "<none>".to_owned()),
    };
    AuditRecord {
        cmd: cmd.to_owned(),
        args: copy_texts(args),
        effect,
        rule_source,
        outcome: done.outcome,
        exit_code: done.exit_code,
        message: done.message.clone(),
    }
}

/// The answer to a request.
fn resp(
    req: &ExecuteRequest,
    decision: Option<&Decision>,
    done: ExecuteDone,
    stdout_utf8: String,
    stderr_utf8: String,
) -> (r: (ExecutePhase, ExecuteAction))
    ensures
        (r.0@, r.1@) == replied(
            req@,
            match decision {
                Some(d) => Some(d@),
                None => None,
            },
            done@,
            stdout_utf8@,
            stderr_utf8@,
        ),
{
    let audit = audit_log(req.start.cmd.as_str(), req.start.args.as_slice(), decision, &done);
    let response = ExecuteResponse { done, stdout_utf8, stderr_utf8 };
    (ExecutePhase::Ended, ExecuteAction::Reply { response, audit })
}

/// The answer to a request that did not run to its end.
fn resp_stopped(
    req: &ExecuteRequest,
    decision: Option<&Decision>,
    outcome: Outcome,
    message: String,
) -> (r: (ExecutePhase, ExecuteAction))
    ensures
        (r.0@, r.1@) == replied_without_output(
            req@,
            match decision {
                Some(d) => Some(d@),
                None => None,
            },
            stopped(outcome, message@),
        ),
{
    let done = ExecuteDone { outcome, exit_code: -1, message };
    resp(req, decision, done, String::new(), String::new())
}

fn go_on(req: &ExecuteRequest, path: String, gate: GateResult) -> (r: (ExecutePhase, ExecuteAction))
    ensures
        (r.0@, r.1@) == after_gate(req@, path@, gate@),
{
    match gate {
        GateResult::Allow(decision) => (
            ExecutePhase::Spawning { decision },
            ExecuteAction::Spawn { path, args: copy_texts(req.start.args.as_slice()) },
        ),
        GateResult::Return { outcome, message } => resp_stopped(req, None, outcome, message),
        GateResult::Ask { hook_path, timeout_secs, payload, decision } => (
            ExecutePhase::Asking { path, decision },
            ExecuteAction::AskHook { hook_path, timeout_secs, payload },
        ),
    }
}

/// How a request is admitted once the allow hook has decided on it.
pub fn settle_by_hook(decision: Decision, hook: HookDecision) -> (r: GateResult)
    ensures
        r@ == gate_by_hook(decision@, hook@),
{
    match hook {
        HookDecision::Yes => GateResult::Allow(decision),
        HookDecision::No => GateResult::Return {
            outcome: Outcome::Denied,
            message: "denied by allow_hook".to_owned(),
        },
        HookDecision::Cancel => GateResult::Return {
            outcome: Outcome::Cancelled,
            message: "cancelled by allow_hook".to_owned(),
        },
        HookDecision::UserReply(message) => GateResult::Return {
            outcome: Outcome::UserReply,
            message,
        },
    }
}

/// The answer to a request for a command that is not registered.
pub fn not_registered_message(cmd: &str) -> (message: String)
    ensures
        message@ == not_registered(cmd@),
{
    let mut message = "command '".to_owned();
    message.append(cmd);
    message.append("' is not registered");
    message
}

impl WardenService {
    /// The service of a policy and the commands that are registered. `secrets` is the text of
    /// the secrets file, where one is configured.
    pub fn new(policy: PolicyEngine, commands: &[CommandEntry], secrets: Option<&str>) -> (r: Result<
        WardenService,
        RedactError,
    >)
        ensures
            ({
                let listed: Seq<Seq<char>> = match secrets {
                    Some(raw) => listed_secrets(raw@),
                    None => seq![],
                };
                &&& r is Ok <==> listed.len() == 0 || automaton_builds(listed)
                &&& r matches Ok(svc) ==> svc@ == (ServiceView {
                    commands: registered(commands@),
                    policy: policy@,
                    secrets: listed,
                }) && !has_empty(svc@.secrets)
                &&& r matches Err(e) ==> e is Matcher
            }),
    {
        let list = match secrets {
            Some(raw) => load_secrets(raw),
            None => Vec::new(),
        };
        assert(secrets is None ==> texts(list@) =~= Seq::<Seq<char>>::empty());
        match Redactor::from_secrets(list) {
            Ok(redactor) => Ok(
                WardenService { commands: CommandRegistry::from_entries(commands), policy, redactor },
            ),
            Err(e) => Err(e),
        }
    }

    /// The registered commands, in ascending order.
    pub fn list_commands(&self) -> (command_ids: Vec<String>)
        ensures
            ascending(texts(command_ids@)),
            forall|id: Seq<char>| #[trigger]
                texts(command_ids@).contains(id) <==> self@.commands.dom().contains(id),
    {
        self.commands.ids()
    }

    /// What the policy says of a request.
    pub fn apply_gate(&self, start: &ExecuteStart) -> (r: GateResult)
        ensures
            r@ == gate(self@.policy, start@),
    {
        let cmd = start.cmd.as_str();
        let args = start.args.as_slice();
        let intent = start.intent.as_str();
        let decision = match self.policy.evaluate(cmd, args) {
            Ok(decision) => decision,
            Err(_) => {
                return GateResult::Return {
                    outcome: Outcome::Error,
                    message: "policy evaluation failed".to_owned(),
                };
            },
        };
        match decision.effect {
            Effect::Allow => GateResult::Allow(decision),
            Effect::Audit => GateResult::Allow(decision),
            Effect::Deny => GateResult::Return {
                outcome: Outcome::Denied,
                message: "denied by policy".to_owned(),
            },
            Effect::Ask => {
                if decision.intent_required && trim(intent).as_str().is_empty() {
                    return GateResult::Return {
                        outcome: Outcome::Denied,
                        message: "intent_required: provide intent and retry".to_owned(),
                    };
                }
                match &self.policy.allow_hook {
                    None => GateResult::Return {
                        outcome: Outcome::Cancelled,
                        message: "ask policy matched but no allow_hook configured".to_owned(),
                    },
                    Some(hook) => GateResult::Ask {
                        hook_path: hook.clone(),
                        timeout_secs: self.policy.allow_hook_timeout_secs,
                        payload: hook_request(cmd, args, intent),
                        decision,
                    },
                }
            },
        }
    }

    /// Why the policy cannot decide on a request for a registered command.
    pub fn gate_failure(&self, start: &ExecuteStart) -> (why: Option<String>)
        ensures
            why is Some <==> self@.commands.dom().contains(start@.cmd) && self@.policy.decides(
                start@.cmd,
                start@.args,
            ) is Err,
            why matches Some(text) ==> text@ == policy_refusal(
                self@.policy.decides(start@.cmd, start@.args)->Err_0,
            ),
    {
        match self.commands.get(start.cmd.as_str()) {
            Some(_) => self.policy.undecided(start.cmd.as_str(), start.args.as_slice()),
            None => None,
        }
    }

    /// What follows an event of a request that brings its whole input and is answered with the
    /// whole output.
    pub fn execute(&self, req: &ExecuteRequest, phase: ExecutePhase, event: ExecuteEvent) -> (r: (
        ExecutePhase,
        ExecuteAction,
    ))
        ensures
            (r.0@, r.1@) == execute_step(self@, req@, phase@, event@),
    {
        match (phase, event) {
            (ExecutePhase::Received, ExecuteEvent::Received) => match self.commands.get(
                req.start.cmd.as_str(),
            ) {
                Some(path) => go_on(req, path, self.apply_gate(&req.start)),
                None => resp_stopped(
                    req,
                    None,
                    Outcome::Denied,
                    not_registered_message(req.start.cmd.as_str()),
                ),
            },
            (ExecutePhase::Asking { path, decision }, ExecuteEvent::HookDecided(hook)) => go_on(
                req,
                path,
                settle_by_hook(decision, hook),
            ),
            (ExecutePhase::Spawning { decision }, ExecuteEvent::SpawnFailed(e)) => resp_stopped(
                req,
                Some(&decision),
                Outcome::Error,
                failure("failed to start command: ", e.as_str()),
            ),
            (ExecutePhase::Spawning { decision }, ExecuteEvent::Spawned { stdin }) => if stdin
                && !req.stdin_utf8.as_str().is_empty() {
                (
                    ExecutePhase::Writing { decision },
                    ExecuteAction::WriteStdin(req.stdin_utf8.clone()),
                )
            } else {
                (ExecutePhase::Waiting { decision }, ExecuteAction::WaitOutput)
            },
            (ExecutePhase::Writing { decision }, ExecuteEvent::StdinFailed(e)) => resp_stopped(
                req,
                Some(&decision),
                Outcome::Error,
                failure("failed writing stdin: ", e.as_str()),
            ),
            (ExecutePhase::Writing { decision }, ExecuteEvent::StdinWritten) => (
                ExecutePhase::Waiting { decision },
                ExecuteAction::WaitOutput,
            ),
            (ExecutePhase::Waiting { decision }, ExecuteEvent::WaitFailed(e)) => resp_stopped(
                req,
                Some(&decision),
                Outcome::Error,
                failure("command execution error: ", e.as_str()),
            ),
            (
                ExecutePhase::Waiting { decision },
                ExecuteEvent::Finished { code, stdout, stderr },
            ) => self.finish(req, decision, code, stdout.as_slice(), stderr.as_slice()),
            (phase, _) => (phase, ExecuteAction::Ignore),
        }
    }

    fn finish(
        &self,
        req: &ExecuteRequest,
        decision: Decision,
        code: Option<i32>,
        stdout: &[u8],
        stderr: &[u8],
    ) -> (r: (ExecutePhase, ExecuteAction))
        ensures
            (r.0@, r.1@) == finished(self@, req@, decision@, code, stdout@, stderr@),
    {
        let exit_code: i32 = reported_code(code);
        if let Ok(stdout_utf8) = self.redactor.redact_utf8(stdout) {
            if let Ok(stderr_utf8) = self.redactor.redact_utf8(stderr) {
                let done = ExecuteDone {
                    outcome: Outcome::Executed,
                    exit_code,
                    message: "".to_owned(),
                };
                return resp(req, Some(&decision), done, stdout_utf8, stderr_utf8);
            }
        }
        let message = failure("output redaction failed: ", NON_UTF8);
        let done = ExecuteDone { outcome: Outcome::Error, exit_code, message };
        resp(req, Some(&decision), done, String::new(), String::new())
    }
}

} // verus!
