//! What holds of the service as a whole.

use crate::config::{DaemonConfig, Effect};
use crate::hook::HookDecisionView;
use crate::policy::raw_views;
use crate::policy_model::{hits, loaded, DecisionView, PolicyErrorView, PolicyView, RuleView};
use crate::policy_tool::lacks_intent;
use crate::registry::registered;
use crate::server_model::{
    audit, execute_step, gate, not_registered, stopped, DoneView, ExecuteActionView,
    ExecuteEventView, ExecutePhaseView, GateView, Outcome, RequestView, ResponseView, ServiceView,
    StartView,
};
use crate::session_model::{
    end_message, session_step, InboundView, OutputStream, RunView, SessionActionView,
    SessionEventView, SessionPhaseView, StreamEndView,
};
use crate::setup::{is_new_daemon_config, Layout};
use crate::stream_queue::{all_bytes, law_packets_hold_the_data, packets};
use crate::text::{texts, trimmed};
use vstd::prelude::*;
use vstd::utf8::*;

verus! {

/// Whether a request may run: its command is registered, and the policy allows it or leaves it
/// to the allow hook, which said yes to a request that states the intent that is asked for.
pub open spec fn permitted(
    svc: ServiceView,
    start: StartView,
    hook: Option<HookDecisionView>,
) -> bool {
    &&& svc.commands.dom().contains(start.cmd)
    &&& svc.policy.decides(start.cmd, start.args) matches Ok(decision) && {
        ||| decision.effect == Effect::Allow
        ||| decision.effect == Effect::Audit
        ||| {
            &&& decision.effect == Effect::Ask
            &&& hook == Some(HookDecisionView::Yes)
            &&& decision.intent_required ==> trimmed(start.intent).len() > 0
        }
    }
}

/// How far a streamed request has come after the events.
pub open spec fn session_phase(svc: ServiceView, events: Seq<SessionEventView>) -> SessionPhaseView
    decreases events.len(),
{
    if events.len() == 0 {
        SessionPhaseView::AwaitingStart
    } else {
        session_step(svc, session_phase(svc, events.drop_last()), events.last()).0
    }
}

/// What is done on the last of the events.
pub open spec fn session_action(
    svc: ServiceView,
    events: Seq<SessionEventView>,
) -> SessionActionView {
    session_step(svc, session_phase(svc, events.drop_last()), events.last()).1
}

/// How often a streamed request has been answered after the events.
pub open spec fn session_answers(svc: ServiceView, events: Seq<SessionEventView>) -> nat
    decreases events.len(),
{
    if events.len() == 0 {
        0
    } else {
        session_answers(svc, events.drop_last()) + if session_action(svc, events) is Finish {
            1nat
        } else {
            0
        }
    }
}

/// The decision of the allow hook that an event brings.
pub open spec fn session_hook(event: SessionEventView) -> Option<HookDecisionView> {
    match event {
        SessionEventView::HookDecided(hook) => Some(hook),
        _ => None,
    }
}

/// The event that starts a request.
pub open spec fn started(start: StartView) -> SessionEventView {
    SessionEventView::Inbound(InboundView::Start(start))
}

proof fn lemma_session_asks(svc: ServiceView, events: Seq<SessionEventView>)
    ensures
        session_phase(svc, events) matches SessionPhaseView::Asking { start, path, decision } ==> {
            &&& events.contains(started(start))
            &&& svc.commands.dom().contains(start.cmd)
            &&& path == svc.commands[start.cmd]
            &&& svc.policy.decides(start.cmd, start.args) == Ok::<DecisionView, PolicyErrorView>(
                decision,
            )
            &&& decision.effect == Effect::Ask
            &&& decision.intent_required ==> trimmed(start.intent).len() > 0
        },
    decreases events.len(),
{
    if events.len() > 0 {
        let before = events.drop_last();
        lemma_session_asks(svc, before);
        if let SessionPhaseView::Asking { start, .. } = session_phase(svc, events) {
            if session_phase(svc, before) is Asking {
                let i = choose|i: int| 0 <= i < before.len() && before[i] == started(start);
                assert(events[i] == started(start));
            } else {
                assert(events.last() == started(start));
                assert(events[events.len() - 1] == started(start));
            }
        }
    }
}

/// A command is started for a streamed request only where the request may run, and then it is
/// the binary that is registered, with the arguments that the client gave.
pub proof fn law_streamed_command_is_permitted(svc: ServiceView, events: Seq<SessionEventView>)
    requires
        events.len() > 0,
        session_action(svc, events) is Spawn,
    ensures
        exists|start: StartView| #[trigger]
            events.contains(started(start)) && permitted(svc, start, session_hook(events.last()))
                && session_action(svc, events) == (SessionActionView::Spawn {
                path: svc.commands[start.cmd],
                args: start.args,
            }),
{
    let before = events.drop_last();
    lemma_session_asks(svc, before);
    let phase = session_phase(svc, before);
    match phase {
        SessionPhaseView::Asking { start, .. } => {
            let i = choose|i: int| 0 <= i < before.len() && before[i] == started(start);
            assert(events[i] == started(start));
            assert(events.contains(started(start)));
        },
        _ => {
            let start = events.last()->Inbound_0->Start_0;
            assert(events.last() == started(start));
            assert(events[events.len() - 1] == started(start));
            assert(events.contains(started(start)));
        },
    }
}

/// A streamed request is answered once, and when it has been answered it is over.
pub proof fn law_streamed_request_is_answered_once(svc: ServiceView, events: Seq<SessionEventView>)
    ensures
        session_answers(svc, events) == if session_phase(svc, events) is Ended {
            1nat
        } else {
            0
        },
    decreases events.len(),
{
    if events.len() > 0 {
        law_streamed_request_is_answered_once(svc, events.drop_last());
    }
}

/// What the audit log says of a streamed request is what the client is told.
pub proof fn law_streamed_audit_agrees_with_the_answer(
    svc: ServiceView,
    phase: SessionPhaseView,
    event: SessionEventView,
)
    ensures
        session_step(svc, phase, event).1 matches SessionActionView::Finish {
            done,
            audit: Some(record),
            ..
        } ==> record.outcome == done.outcome && record.exit_code == done.exit_code
            && record.message == done.message,
{
}

/// A request for a command that is not registered is denied, and nothing is started for it.
pub proof fn law_unregistered_command_is_denied(svc: ServiceView, req: RequestView)
    requires
        !svc.commands.dom().contains(req.start.cmd),
    ensures
        ({
            let done = stopped(Outcome::Denied, not_registered(req.start.cmd));
            let record = audit(req.start.cmd, req.start.args, None, done);
            &&& session_step(svc, SessionPhaseView::AwaitingStart, started(req.start)).1
                == SessionActionView::Finish {
                kill: false,
                abort: false,
                done,
                audit: Some(record),
            }
            &&& execute_step(svc, req, ExecutePhaseView::Received, ExecuteEventView::Received).1
                == ExecuteActionView::Reply {
                response: ResponseView { done, stdout: seq![], stderr: seq![] },
                audit: record,
            }
        }),
{
}

/// A daemon that was just set up denies whatever is asked: it knows no command, and its policy
/// would deny all of them.
pub proof fn law_new_daemon_denies_everything(
    cfg: DaemonConfig,
    layout: Layout,
    listen: Seq<char>,
    server_uri: Seq<char>,
    server_domain: Seq<char>,
    svc: ServiceView,
    req: RequestView,
)
    requires
        is_new_daemon_config(cfg, layout, listen, server_uri, server_domain),
        svc.commands == registered(cfg.commands@),
        loaded(
            texts(cfg.policy.allow@),
            texts(cfg.policy.deny@),
            texts(cfg.policy.ask@),
            raw_views(cfg.rules@),
        ) == Ok::<Seq<RuleView>, PolicyErrorView>(svc.policy.rules),
        svc.policy.default == cfg.policy.default,
    ensures
        !svc.commands.dom().contains(req.start.cmd),
        execute_step(
            svc,
            req,
            ExecutePhaseView::Received,
            ExecuteEventView::Received,
        ).1 matches ExecuteActionView::Reply { response, .. } && response.done.outcome
            == Outcome::Denied,
        session_step(
            svc,
            SessionPhaseView::AwaitingStart,
            started(req.start),
        ).1 matches SessionActionView::Finish { done, .. } && done.outcome == Outcome::Denied,
        svc.policy.decides(req.start.cmd, req.start.args) matches Ok(decision) && decision.effect
            == Effect::Deny,
{
    assert(svc.policy.rules.len() == 0);
    assert(hits(svc.policy.rules, req.start.cmd, req.start.args).len() == 0);
}

/// A request that the policy denies is answered so, and nothing is started for it. The same
/// holds of one that does not state the intent that the policy asks for.
pub proof fn law_denied_request_is_answered(svc: ServiceView, req: RequestView)
    requires
        svc.commands.dom().contains(req.start.cmd),
        svc.policy.decides(req.start.cmd, req.start.args) matches Ok(decision) && {
            ||| decision.effect == Effect::Deny
            ||| decision.effect == Effect::Ask && decision.intent_required && trimmed(
                req.start.intent,
            ).len() == 0
        },
    ensures
        ({
            let decision = svc.policy.decides(req.start.cmd, req.start.args)->Ok_0;
            let done = stopped(
                Outcome::Denied,
                if decision.effect == Effect::Deny {
                    "denied by policy"@
                } else {
                    "intent_required: provide intent and retry"@
                },
            );
            &&& (session_step(svc, SessionPhaseView::AwaitingStart, started(req.start)).1 matches
                SessionActionView::Finish { done: told, .. } && told == done)
            &&& (execute_step(svc, req, ExecutePhaseView::Received, ExecuteEventView::Received).1
                matches ExecuteActionView::Reply { response, .. } && response == (ResponseView {
                done,
                stdout: seq![],
                stderr: seq![],
            }))
        }),
{
}

/// What the policy tools show of a request is how it is admitted.
pub proof fn law_tools_show_how_requests_are_admitted(policy: PolicyView, start: StartView)
    requires
        policy.decides(start.cmd, start.args) is Ok,
    ensures
        ({
            let decision = policy.decides(start.cmd, start.args)->Ok_0;
            if lacks_intent(decision, start.intent) {
                gate(policy, start) matches GateView::Return { outcome, .. } && outcome
                    == Outcome::Denied
            } else {
                match decision.effect {
                    Effect::Allow => gate(policy, start) == GateView::Allow(decision),
                    Effect::Audit => gate(policy, start) == GateView::Allow(decision),
                    Effect::Deny => gate(policy, start) matches GateView::Return { outcome, .. }
                        && outcome == Outcome::Denied,
                    Effect::Ask => match policy.allow_hook {
                        Some(path) => gate(policy, start) matches GateView::Ask { hook, .. }
                            && hook == path,
                        None => gate(policy, start) matches GateView::Return { outcome, .. }
                            && outcome == Outcome::Cancelled,
                    },
                }
            }
        }),
{
}

/// A request is admitted alike whether it is streamed or not.
pub proof fn law_both_ways_decide_alike(svc: ServiceView, req: RequestView)
    ensures
        ({
            let streamed = session_step(
                svc,
                SessionPhaseView::AwaitingStart,
                started(req.start),
            ).1;
            let whole = execute_step(
                svc,
                req,
                ExecutePhaseView::Received,
                ExecuteEventView::Received,
            ).1;
            match whole {
                ExecuteActionView::Spawn { path, args } => streamed == (SessionActionView::Spawn {
                    path,
                    args,
                }),
                ExecuteActionView::AskHook { hook, timeout_secs, payload } => streamed == (
                SessionActionView::AskHook { hook, timeout_secs, payload }),
                ExecuteActionView::Reply { response, audit } => streamed == (
                SessionActionView::Finish {
                    kill: false,
                    abort: false,
                    done: response.done,
                    audit: Some(audit),
                }),
                _ => false,
            }
        }),
{
}

/// Where the output of a running command cannot be passed on, the command is killed and the
/// client is told of an error.
pub proof fn law_output_failure_stops_the_command(
    svc: ServiceView,
    run: RunView,
    stream: OutputStream,
    end: StreamEndView,
)
    requires
        end !is Complete,
        match stream {
            OutputStream::Stdout => run.stdout_open,
            OutputStream::Stderr => run.stderr_open,
        },
    ensures
        session_step(
            svc,
            SessionPhaseView::Running(run),
            SessionEventView::OutputEnded { stream, end },
        ).1 matches SessionActionView::Finish { kill, done, .. } && kill && done == stopped(
            Outcome::Error,
            end_message(stream, end)->0,
        ),
{
}

/// A command whose output could be passed on is reported with its exit code, in whatever order
/// its end and the ends of its two streams come.
pub proof fn law_order_of_ends_does_not_matter(
    svc: ServiceView,
    run: RunView,
    code: Option<i32>,
    ends: Seq<SessionEventView>,
)
    requires
        run.stdout_open,
        run.stderr_open,
        ends.len() == 3,
        ends.contains(SessionEventView::Exited { code }),
        ends.contains(
            SessionEventView::OutputEnded {
                stream: OutputStream::Stdout,
                end: StreamEndView::Complete,
            },
        ),
        ends.contains(
            SessionEventView::OutputEnded {
                stream: OutputStream::Stderr,
                end: StreamEndView::Complete,
            },
        ),
    ensures
        ({
            let first = session_step(svc, SessionPhaseView::Running(run), ends[0]).0;
            let second = session_step(svc, first, ends[1]).0;
            let done = DoneView {
                outcome: Outcome::Executed,
                exit_code: match code {
                    Some(c) => c as int,
                    None => -1,
                },
                message: ""@,
            };
            session_step(svc, second, ends[2]).1 == SessionActionView::Finish {
                kill: false,
                abort: false,
                done,
                audit: Some(audit(run.start.cmd, run.start.args, Some(run.decision), done)),
            }
        }),
{
    let exited = SessionEventView::Exited { code };
    let out = SessionEventView::OutputEnded {
        stream: OutputStream::Stdout,
        end: StreamEndView::Complete,
    };
    let err = SessionEventView::OutputEnded {
        stream: OutputStream::Stderr,
        end: StreamEndView::Complete,
    };
    let i = choose|i: int| 0 <= i < ends.len() && ends[i] == exited;
    let j = choose|j: int| 0 <= j < ends.len() && ends[j] == out;
    let k = choose|k: int| 0 <= k < ends.len() && ends[k] == err;
    assert(i != j && j != k && i != k);
}

/// A streamed request is answered once its command and the two streams of its output have come
/// to their ends, in whatever order and way they do.
pub proof fn law_request_ends_with_its_command(
    svc: ServiceView,
    run: RunView,
    code: Option<i32>,
    out_end: StreamEndView,
    err_end: StreamEndView,
    ends: Seq<SessionEventView>,
)
    requires
        run.stdout_open,
        run.stderr_open,
        ends.len() == 3,
        ends.contains(SessionEventView::Exited { code }),
        ends.contains(
            SessionEventView::OutputEnded { stream: OutputStream::Stdout, end: out_end },
        ),
        ends.contains(
            SessionEventView::OutputEnded { stream: OutputStream::Stderr, end: err_end },
        ),
    ensures
        session_from(svc, SessionPhaseView::Running(run), ends) is Ended,
{
    let exited = SessionEventView::Exited { code };
    let out = SessionEventView::OutputEnded { stream: OutputStream::Stdout, end: out_end };
    let err = SessionEventView::OutputEnded { stream: OutputStream::Stderr, end: err_end };
    let i = choose|i: int| 0 <= i < ends.len() && ends[i] == exited;
    let j = choose|j: int| 0 <= j < ends.len() && ends[j] == out;
    let k = choose|k: int| 0 <= k < ends.len() && ends[k] == err;
    assert(i != j && j != k && i != k);
    let phase = SessionPhaseView::Running(run);
    let first = session_step(svc, phase, ends[0]).0;
    let second = session_step(svc, first, ends[1]).0;
    let third = session_step(svc, second, ends[2]).0;
    let two = ends.drop_first();
    let one = two.drop_first();
    assert(two[0] == ends[1] && one[0] == ends[2]);
    assert(one.drop_first() =~= seq![]);
    assert(session_from(svc, third, one.drop_first()) == third);
    assert(session_from(svc, second, one) == third);
    assert(session_from(svc, first, two) == third);
    assert(third is Ended);
}

/// The events of an input that comes in in parts, each of which is written to the command.
pub open spec fn fed(chunks: Seq<Seq<u8>>) -> Seq<SessionEventView>
    decreases chunks.len(),
{
    if chunks.len() == 0 {
        seq![]
    } else {
        seq![
            SessionEventView::Inbound(InboundView::StdinChunk(chunks[0])),
            SessionEventView::StdinWritten,
        ] + fed(chunks.drop_first())
    }
}

/// The phase that the events lead to.
pub open spec fn session_from(
    svc: ServiceView,
    phase: SessionPhaseView,
    events: Seq<SessionEventView>,
) -> SessionPhaseView
    decreases events.len(),
{
    if events.len() == 0 {
        phase
    } else {
        session_from(svc, session_step(svc, phase, events[0]).0, events.drop_first())
    }
}

/// What is written to the command on the events.
pub open spec fn written(
    svc: ServiceView,
    phase: SessionPhaseView,
    events: Seq<SessionEventView>,
) -> Seq<u8>
    decreases events.len(),
{
    if events.len() == 0 {
        seq![]
    } else {
        let (next, action) = session_step(svc, phase, events[0]);
        let rest = written(svc, next, events.drop_first());
        match action {
            SessionActionView::WriteStdin(bytes) => bytes + rest,
            _ => rest,
        }
    }
}

/// The input of a client reaches the command whole and in order, and its end closes the input
/// of the command.
pub proof fn law_input_reaches_the_command(svc: ServiceView, run: RunView, chunks: Seq<Seq<u8>>)
    requires
        run.stdin_open,
    ensures
        written(svc, SessionPhaseView::Running(run), fed(chunks)) == all_bytes(chunks),
        session_from(svc, SessionPhaseView::Running(run), fed(chunks)) == SessionPhaseView::Running(
            run,
        ),
        session_step(
            svc,
            session_from(svc, SessionPhaseView::Running(run), fed(chunks)),
            SessionEventView::Inbound(InboundView::StdinEof),
        ).1 is CloseStdin,
    decreases chunks.len(),
{
    if chunks.len() > 0 {
        let rest = chunks.drop_first();
        law_input_reaches_the_command(svc, run, rest);
        let events = fed(chunks);
        let phase = SessionPhaseView::Running(run);
        let writing = SessionPhaseView::Writing(run);
        assert(events.drop_first().drop_first() == fed(rest));
        assert(events.drop_first()[0] == SessionEventView::StdinWritten);
        assert(session_step(svc, phase, events[0]).0 == writing);
        assert(session_step(svc, writing, SessionEventView::StdinWritten).0 == phase);
        assert(written(svc, writing, events.drop_first()) == written(svc, phase, fed(rest)));
        assert(session_from(svc, writing, events.drop_first()) == session_from(
            svc,
            phase,
            fed(rest),
        ));
    }
}

/// What a client hands over as the whole input of a command is what the command is given.
pub proof fn law_given_input_reaches_the_command(svc: ServiceView, run: RunView, stdin: Seq<u8>)
    requires
        run.stdin_open,
    ensures
        written(svc, SessionPhaseView::Running(run), fed(packets(stdin))) == stdin,
{
    law_input_reaches_the_command(svc, run, packets(stdin));
    law_packets_hold_the_data(stdin);
}

/// How far a request has come after the events.
pub open spec fn execute_phase(
    svc: ServiceView,
    req: RequestView,
    events: Seq<ExecuteEventView>,
) -> ExecutePhaseView
    decreases events.len(),
{
    if events.len() == 0 {
        ExecutePhaseView::Received
    } else {
        execute_step(svc, req, execute_phase(svc, req, events.drop_last()), events.last()).0
    }
}

/// What is done on the last of the events.
pub open spec fn execute_action(
    svc: ServiceView,
    req: RequestView,
    events: Seq<ExecuteEventView>,
) -> ExecuteActionView {
    execute_step(svc, req, execute_phase(svc, req, events.drop_last()), events.last()).1
}

/// How often a request has been answered after the events.
pub open spec fn execute_answers(
    svc: ServiceView,
    req: RequestView,
    events: Seq<ExecuteEventView>,
) -> nat
    decreases events.len(),
{
    if events.len() == 0 {
        0
    } else {
        execute_answers(svc, req, events.drop_last()) + if execute_action(
            svc,
            req,
            events,
        ) is Reply {
            1nat
        } else {
            0
        }
    }
}

/// The decision of the allow hook that an event brings.
pub open spec fn execute_hook(event: ExecuteEventView) -> Option<HookDecisionView> {
    match event {
        ExecuteEventView::HookDecided(hook) => Some(hook),
        _ => None,
    }
}

proof fn lemma_execute_asks(svc: ServiceView, req: RequestView, events: Seq<ExecuteEventView>)
    ensures
        execute_phase(svc, req, events) matches ExecutePhaseView::Asking { path, decision } ==> {
            &&& svc.commands.dom().contains(req.start.cmd)
            &&& path == svc.commands[req.start.cmd]
            &&& svc.policy.decides(req.start.cmd, req.start.args) == Ok::<DecisionView, PolicyErrorView>(
                decision,
            )
            &&& decision.effect == Effect::Ask
            &&& decision.intent_required ==> trimmed(req.start.intent).len() > 0
        },
    decreases events.len(),
{
    if events.len() > 0 {
        lemma_execute_asks(svc, req, events.drop_last());
    }
}

/// A command is started for a request only where the request may run, and then it is the binary
/// that is registered, with the arguments that the client gave.
pub proof fn law_command_is_permitted(
    svc: ServiceView,
    req: RequestView,
    events: Seq<ExecuteEventView>,
)
    requires
        events.len() > 0,
        execute_action(svc, req, events) is Spawn,
    ensures
        permitted(svc, req.start, execute_hook(events.last())),
        execute_action(svc, req, events) == (ExecuteActionView::Spawn {
            path: svc.commands[req.start.cmd],
            args: req.start.args,
        }),
{
    lemma_execute_asks(svc, req, events.drop_last());
}

/// A request is answered once, and when it has been answered it is over.
pub proof fn law_request_is_answered_once(
    svc: ServiceView,
    req: RequestView,
    events: Seq<ExecuteEventView>,
)
    ensures
        execute_answers(svc, req, events) == if execute_phase(svc, req, events) is Ended {
            1nat
        } else {
            0
        },
    decreases events.len(),
{
    if events.len() > 0 {
        law_request_is_answered_once(svc, req, events.drop_last());
    }
}

/// What the audit log says of a request is what the client is told.
pub proof fn law_audit_agrees_with_the_answer(
    svc: ServiceView,
    req: RequestView,
    phase: ExecutePhaseView,
    event: ExecuteEventView,
)
    ensures
        execute_step(svc, req, phase, event).1 matches ExecuteActionView::Reply {
            response,
            audit: record,
        } ==> {
            &&& record.outcome == response.done.outcome
            &&& record.exit_code == response.done.exit_code
            &&& record.message == response.done.message
            &&& record.cmd == req.start.cmd
            &&& record.args == req.start.args
        },
{
}

/// Output that is not UTF-8 is not passed on: the client is told of an error.
pub proof fn law_output_that_is_not_text_is_withheld(
    svc: ServiceView,
    req: RequestView,
    phase: ExecutePhaseView,
    code: Option<i32>,
    stdout: Seq<u8>,
    stderr: Seq<u8>,
)
    requires
        phase is Waiting,
        !valid_utf8(stdout) || !valid_utf8(stderr),
    ensures
        execute_step(
            svc,
            req,
            phase,
            ExecuteEventView::Finished { code, stdout, stderr },
        ).1 matches ExecuteActionView::Reply { response, .. } && response.done.outcome
            == Outcome::Error && response.stdout.len() == 0 && response.stderr.len() == 0,
{
}

} // verus!
