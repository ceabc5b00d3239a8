//! How a request is answered, event by event.

use crate::config::Effect;
use crate::hook::{hook_payload, HookDecisionView};
use crate::policy_model::DecisionView;
use crate::redaction::redaction;
use crate::server_model::{
    execute_step, ExecuteActionView, ExecuteEventView, ExecutePhaseView, Outcome, RequestView,
    ServiceView,
};
use crate::text::trimmed;
use crate::text_laws::{is_blank, law_trimmed_text_stands_in_the_text};
use vstd::prelude::*;
use vstd::utf8::*;

verus! {

/// Whether an answer ends a request, and the audit log says of the request what the answer says.
pub open spec fn is_answer(
    step: (ExecutePhaseView, ExecuteActionView),
    req: RequestView,
    outcome: Outcome,
    exit_code: int,
    message: Seq<char>,
    stdout: Seq<char>,
    stderr: Seq<char>,
) -> bool {
    &&& step.0 is Ended
    &&& step.1 matches ExecuteActionView::Reply { response, audit }
    &&& response.done.outcome == outcome
    &&& response.done.exit_code == exit_code
    &&& response.done.message == message
    &&& response.stdout == stdout
    &&& response.stderr == stderr
    &&& audit.cmd == req.start.cmd
    &&& audit.args == req.start.args
    &&& audit.outcome == outcome
    &&& audit.exit_code == exit_code
    &&& audit.message == message
}

/// Whether the audit log names a decision: by its effect, and by the place of the rule that
/// decided, or as the default where no rule did.
pub open spec fn names_decision(
    effect: Seq<char>,
    rule_source: Seq<char>,
    decision: DecisionView,
) -> bool {
    &&& decision.effect == Effect::Allow ==> effect == "Allow"@
    &&& decision.effect == Effect::Deny ==> effect == "Deny"@
    &&& decision.effect == Effect::Ask ==> effect == "Ask"@
    &&& decision.effect == Effect::Audit ==> effect == "Audit"@
    &&& decision.matched_rule matches Some(rule) ==> rule_source == rule.source
    &&& decision.matched_rule is None ==> rule_source == "default"@
}

/// Whether the audit record of an answer names a decision.
pub open spec fn is_audited_by(action: ExecuteActionView, decision: DecisionView) -> bool {
    action matches ExecuteActionView::Reply { audit, .. } && names_decision(
        audit.effect,
        audit.rule_source,
        decision,
    )
}

/// Whether the audit record of an answer names no decision.
pub open spec fn is_audited_without_decision(action: ExecuteActionView) -> bool {
    action matches ExecuteActionView::Reply { audit, .. } && audit.effect == "<none>"@
        && audit.rule_source == "<none>"@
}

/// A command that finished is answered with its exit code, or -1 where it has none, without a
/// message, and with what it put out on each of its two streams, the secrets replaced. All of
/// the output is UTF-8.
pub proof fn law_finished_command_is_reported(
    svc: ServiceView,
    req: RequestView,
    decision: DecisionView,
    code: Option<i32>,
    stdout: Seq<u8>,
    stderr: Seq<u8>,
)
    requires
        valid_utf8(stdout),
        valid_utf8(stderr),
    ensures
        ({
            let step = execute_step(
                svc,
                req,
                ExecutePhaseView::Waiting { decision },
                ExecuteEventView::Finished { code, stdout, stderr },
            );
            &&& code matches Some(c) ==> is_answer(
                step,
                req,
                Outcome::Executed,
                c as int,
                seq![],
                redaction(svc.secrets, decode_utf8(stdout), "<redacted>"@),
                redaction(svc.secrets, decode_utf8(stderr), "<redacted>"@),
            )
            &&& code is None ==> is_answer(
                step,
                req,
                Outcome::Executed,
                -1,
                seq![],
                redaction(svc.secrets, decode_utf8(stdout), "<redacted>"@),
                redaction(svc.secrets, decode_utf8(stderr), "<redacted>"@),
            )
            &&& is_audited_by(step.1, decision)
        }),
{
    reveal_strlit("");
    assert(""@ =~= seq![]);
}

/// A command whose output is not UTF-8 is answered with an error that says so, with its exit
/// code and without output.
pub proof fn law_command_that_puts_out_no_text_is_reported(
    svc: ServiceView,
    req: RequestView,
    decision: DecisionView,
    code: Option<i32>,
    stdout: Seq<u8>,
    stderr: Seq<u8>,
)
    requires
        !valid_utf8(stdout) || !valid_utf8(stderr),
    ensures
        ({
            let step = execute_step(
                svc,
                req,
                ExecutePhaseView::Waiting { decision },
                ExecuteEventView::Finished { code, stdout, stderr },
            );
            let message = "output redaction failed: "@ + "non-UTF-8 stream data is unsupported; fail closed"@;
            &&& code matches Some(c) ==> is_answer(
                step,
                req,
                Outcome::Error,
                c as int,
                message,
                seq![],
                seq![],
            )
            &&& code is None ==> is_answer(
                step,
                req,
                Outcome::Error,
                -1,
                message,
                seq![],
                seq![],
            )
            &&& is_audited_by(step.1, decision)
        }),
{
}

/// What goes wrong with a command before it ends is answered with an error that says what went
/// wrong, with -1 for the exit code and without output.
pub proof fn law_failure_of_a_command_is_reported(
    svc: ServiceView,
    req: RequestView,
    decision: DecisionView,
    e: Seq<char>,
)
    ensures
        ({
            let step = execute_step(
                svc,
                req,
                ExecutePhaseView::Spawning { decision },
                ExecuteEventView::SpawnFailed(e),
            );
            &&& is_answer(
                step,
                req,
                Outcome::Error,
                -1,
                "failed to start command: "@ + e,
                seq![],
                seq![],
            )
            &&& is_audited_by(step.1, decision)
        }),
        ({
            let step = execute_step(
                svc,
                req,
                ExecutePhaseView::Writing { decision },
                ExecuteEventView::StdinFailed(e),
            );
            &&& is_answer(
                step,
                req,
                Outcome::Error,
                -1,
                "failed writing stdin: "@ + e,
                seq![],
                seq![],
            )
            &&& is_audited_by(step.1, decision)
        }),
        ({
            let step = execute_step(
                svc,
                req,
                ExecutePhaseView::Waiting { decision },
                ExecuteEventView::WaitFailed(e),
            );
            &&& is_answer(
                step,
                req,
                Outcome::Error,
                -1,
                "command execution error: "@ + e,
                seq![],
                seq![],
            )
            &&& is_audited_by(step.1, decision)
        }),
{
}

/// A command that was started is given the whole input of its request, if there is any and a
/// pipe to write it to, and is then waited for.
pub proof fn law_started_command_is_given_its_input(
    svc: ServiceView,
    req: RequestView,
    decision: DecisionView,
    stdin: bool,
)
    ensures
        ({
            let step = execute_step(
                svc,
                req,
                ExecutePhaseView::Spawning { decision },
                ExecuteEventView::Spawned { stdin },
            );
            &&& stdin && req.stdin.len() > 0 ==> step == (
                ExecutePhaseView::Writing { decision },
                ExecuteActionView::WriteStdin(req.stdin),
            )
            &&& !stdin || req.stdin.len() == 0 ==> step == (
                ExecutePhaseView::Waiting { decision },
                ExecuteActionView::WaitOutput,
            )
        }),
        execute_step(
            svc,
            req,
            ExecutePhaseView::Writing { decision },
            ExecuteEventView::StdinWritten,
        ) == (ExecutePhaseView::Waiting { decision }, ExecuteActionView::WaitOutput),
{
}

/// A request for a command that is not registered is denied, and the answer names the command.
pub proof fn law_unknown_command_is_named(svc: ServiceView, req: RequestView)
    requires
        !svc.commands.dom().contains(req.start.cmd),
    ensures
        ({
            let step = execute_step(
                svc,
                req,
                ExecutePhaseView::Received,
                ExecuteEventView::Received,
            );
            &&& is_answer(
                step,
                req,
                Outcome::Denied,
                -1,
                "command '"@ + req.start.cmd + "' is not registered"@,
                seq![],
                seq![],
            )
            &&& is_audited_without_decision(step.1)
        }),
{
}

/// Whether an intent says nothing.
pub open spec fn says_nothing(intent: Seq<char>) -> bool {
    is_blank(intent)
}

/// An intent says nothing where only white space is left of it.
pub proof fn lemma_says_nothing(intent: Seq<char>)
    ensures
        says_nothing(intent) <==> trimmed(intent).len() == 0,
{
    let (a, b) = law_trimmed_text_stands_in_the_text(intent);
    let t = trimmed(intent);
    if t.len() > 0 {
        assert(intent[a.len() as int] == t[0]);
    } else {
        assert forall|i: int| 0 <= i < intent.len() implies crate::text::is_white_space(
            #[trigger] intent[i],
        ) by {
            if i < a.len() {
                assert(intent[i] == a[i]);
            } else {
                assert(intent[i] == b[i - a.len()]);
            }
        }
    }
}

/// A request for a registered command is treated as the policy decides: what is allowed, or
/// only to be watched, is started, as the binary that is registered and with the arguments that
/// the client gave; what is denied is answered so; what is to be asked about goes to the allow
/// hook, unless it lacks the intent that it has to state or there is no hook. Where the policy
/// cannot decide, the answer is an error.
pub proof fn law_request_is_treated_as_the_policy_decides(svc: ServiceView, req: RequestView)
    requires
        svc.commands.dom().contains(req.start.cmd),
    ensures
        ({
            let step = execute_step(
                svc,
                req,
                ExecutePhaseView::Received,
                ExecuteEventView::Received,
            );
            let path = svc.commands[req.start.cmd];
            match svc.policy.decides(req.start.cmd, req.start.args) {
                Err(_) => is_answer(
                    step,
                    req,
                    Outcome::Error,
                    -1,
                    "policy evaluation failed"@,
                    seq![],
                    seq![],
                ) && is_audited_without_decision(step.1),
                Ok(decision) => {
                    &&& decision.effect == Effect::Allow || decision.effect == Effect::Audit
                        ==> step == (
                        ExecutePhaseView::Spawning { decision },
                        ExecuteActionView::Spawn { path, args: req.start.args },
                    )
                    &&& decision.effect == Effect::Deny ==> is_answer(
                        step,
                        req,
                        Outcome::Denied,
                        -1,
                        "denied by policy"@,
                        seq![],
                        seq![],
                    ) && is_audited_without_decision(step.1)
                    &&& decision.effect == Effect::Ask && decision.intent_required && says_nothing(
                        req.start.intent,
                    ) ==> is_answer(
                        step,
                        req,
                        Outcome::Denied,
                        -1,
                        "intent_required: provide intent and retry"@,
                        seq![],
                        seq![],
                    ) && is_audited_without_decision(step.1)
                    &&& decision.effect == Effect::Ask && !(decision.intent_required
                        && says_nothing(req.start.intent)) && svc.policy.allow_hook is None
                        ==> is_answer(
                        step,
                        req,
                        Outcome::Cancelled,
                        -1,
                        "ask policy matched but no allow_hook configured"@,
                        seq![],
                        seq![],
                    ) && is_audited_without_decision(step.1)
                    &&& decision.effect == Effect::Ask && !(decision.intent_required
                        && says_nothing(req.start.intent)) && svc.policy.allow_hook is Some
                        ==> step == (
                        ExecutePhaseView::Asking { path, decision },
                        ExecuteActionView::AskHook {
                            hook: svc.policy.allow_hook->0,
                            timeout_secs: svc.policy.allow_hook_timeout_secs,
                            payload: hook_payload(
                                req.start.cmd,
                                req.start.args,
                                req.start.intent,
                            ),
                        },
                    )
                },
            }
        }),
{
    lemma_says_nothing(req.start.intent);
}

/// A request that was asked about is treated as the hook says: on a yes its command is started;
/// otherwise it is answered without being run, and what the hook replied is handed on.
pub proof fn law_request_is_treated_as_the_hook_says(
    svc: ServiceView,
    req: RequestView,
    path: Seq<char>,
    decision: DecisionView,
    hook: HookDecisionView,
)
    ensures
        ({
            let step = execute_step(
                svc,
                req,
                ExecutePhaseView::Asking { path, decision },
                ExecuteEventView::HookDecided(hook),
            );
            match hook {
                HookDecisionView::Yes => step == (
                    ExecutePhaseView::Spawning { decision },
                    ExecuteActionView::Spawn { path, args: req.start.args },
                ),
                HookDecisionView::No => is_answer(
                    step,
                    req,
                    Outcome::Denied,
                    -1,
                    "denied by allow_hook"@,
                    seq![],
                    seq![],
                ) && is_audited_without_decision(step.1),
                HookDecisionView::Cancel => is_answer(
                    step,
                    req,
                    Outcome::Cancelled,
                    -1,
                    "cancelled by allow_hook"@,
                    seq![],
                    seq![],
                ) && is_audited_without_decision(step.1),
                HookDecisionView::UserReply(reply) => is_answer(
                    step,
                    req,
                    Outcome::UserReply,
                    -1,
                    reply,
                    seq![],
                    seq![],
                ) && is_audited_without_decision(step.1),
            }
        }),
{
}

/// Whether an event is one that a phase waits for.
pub open spec fn is_awaited(phase: ExecutePhaseView, event: ExecuteEventView) -> bool {
    ||| phase is Received && event is Received
    ||| phase is Asking && event is HookDecided
    ||| phase is Spawning && (event is SpawnFailed || event is Spawned)
    ||| phase is Writing && (event is StdinWritten || event is StdinFailed)
    ||| phase is Waiting && (event is WaitFailed || event is Finished)
}

/// An event that a phase does not wait for changes nothing, and nothing is done on it; every
/// event that it waits for takes the request further.
pub proof fn law_only_awaited_events_count(
    svc: ServiceView,
    req: RequestView,
    phase: ExecutePhaseView,
    event: ExecuteEventView,
)
    ensures
        !is_awaited(phase, event) ==> execute_step(svc, req, phase, event) == (
            phase,
            ExecuteActionView::Ignore,
        ),
        is_awaited(phase, event) ==> execute_step(svc, req, phase, event).0 != phase
            && execute_step(svc, req, phase, event).1 !is Ignore,
{
}

/// From its start to its answer a request that is allowed goes one way: its command is started,
/// given its input, waited for, and answered for with its exit code and its output.
pub proof fn law_allowed_request_runs_to_its_answer(
    svc: ServiceView,
    req: RequestView,
    decision: DecisionView,
    c: i32,
    stdout: Seq<u8>,
    stderr: Seq<u8>,
)
    requires
        svc.commands.dom().contains(req.start.cmd),
        svc.policy.decides(req.start.cmd, req.start.args) == Ok::<
            DecisionView,
            crate::policy_model::PolicyErrorView,
        >(decision),
        decision.effect == Effect::Allow || decision.effect == Effect::Audit,
        req.stdin.len() > 0,
        valid_utf8(stdout),
        valid_utf8(stderr),
    ensures
        ({
            let start = execute_step(
                svc,
                req,
                ExecutePhaseView::Received,
                ExecuteEventView::Received,
            );
            let write = execute_step(
                svc,
                req,
                start.0,
                ExecuteEventView::Spawned { stdin: true },
            );
            let wait = execute_step(svc, req, write.0, ExecuteEventView::StdinWritten);
            let end = execute_step(
                svc,
                req,
                wait.0,
                ExecuteEventView::Finished { code: Some(c), stdout, stderr },
            );
            &&& start.1 == (ExecuteActionView::Spawn {
                path: svc.commands[req.start.cmd],
                args: req.start.args,
            })
            &&& write.1 == ExecuteActionView::WriteStdin(req.stdin)
            &&& wait.1 is WaitOutput
            &&& is_answer(
                end,
                req,
                Outcome::Executed,
                c as int,
                seq![],
                redaction(svc.secrets, decode_utf8(stdout), "<redacted>"@),
                redaction(svc.secrets, decode_utf8(stderr), "<redacted>"@),
            )
        }),
{
    law_request_is_treated_as_the_policy_decides(svc, req);
    law_finished_command_is_reported(svc, req, decision, Some(c), stdout, stderr);
}

} // verus!
