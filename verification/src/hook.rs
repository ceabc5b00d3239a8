//! The allow hook: a program that is asked whether a request may run.

use crate::config::opt_text;
use crate::text::{same_text, texts, trim, trimmed};
use crate::utf8_input::read_utf8;
use vstd::prelude::*;
use vstd::string::*;
use vstd::utf8::*;

verus! {

/// What the hook decides on a request.
#[derive(Debug, Clone)]
pub enum HookDecision {
    /// The request may run.
    Yes,
    /// The request is denied.
    No,
    /// The request is dropped. This is also the answer where the hook gives none.
    Cancel,
    /// The request does not run, and the caller is given this reply.
    UserReply(String),
}

/// The model of a `HookDecision`.
pub enum HookDecisionView {
    Yes,
    No,
    Cancel,
    UserReply(Seq<char>),
}

impl View for HookDecision {
    type V = HookDecisionView;

    open spec fn view(&self) -> HookDecisionView {
        match *self {
            HookDecision::Yes => HookDecisionView::Yes,
            HookDecision::No => HookDecisionView::No,
            HookDecision::Cancel => HookDecisionView::Cancel,
            HookDecision::UserReply(reply) => HookDecisionView::UserReply(reply@),
        }
    }
}

/// The lower-case hexadecimal digit of `d`.
pub open spec fn hex_digit(d: int) -> char {
    if d < 10 {
        (48 + d) as u8 as char
    } else {
        (87 + d) as u8 as char
    }
}

/// A character as it stands in a JSON string: quotes, backslashes and control characters are
/// escaped.
pub open spec fn json_char(c: char) -> Seq<char> {
    if c == '"' {
        seq!['\\', '"']
    } else if c == '\\' {
        seq!['\\', '\\']
    } else if c == '\u{8}' {
        seq!['\\', 'b']
    } else if c == '\u{c}' {
        seq!['\\', 'f']
    } else if c == '\n' {
        seq!['\\', 'n']
    } else if c == '\r' {
        seq!['\\', 'r']
    } else if c == '\t' {
        seq!['\\', 't']
    } else if (c as int) < 32 {
        seq!['\\', 'u', '0', '0', hex_digit(c as int / 16), hex_digit(c as int % 16)]
    } else {
        seq![c]
    }
}

/// The characters of a text as they stand in a JSON string.
pub open spec fn json_chars(s: Seq<char>) -> Seq<char>
    decreases s.len(),
{
    if s.len() == 0 {
        seq![]
    } else {
        json_chars(s.drop_last()) + json_char(s.last())
    }
}

/// The JSON string of a text.
pub open spec fn json_string(s: Seq<char>) -> Seq<char> {
    seq!['"'] + json_chars(s) + seq!['"']
}

/// The JSON strings of texts, with commas between them.
pub open spec fn json_items(list: Seq<Seq<char>>) -> Seq<char>
    decreases list.len(),
{
    if list.len() == 0 {
        seq![]
    } else if list.len() == 1 {
        json_string(list[0])
    } else {
        json_items(list.drop_last()) + ","@ + json_string(list.last())
    }
}

/// What is written to the hook: one JSON object with the command, its arguments and the intent.
pub open spec fn hook_payload(
    cmd: Seq<char>,
    argv: Seq<Seq<char>>,
    intent: Seq<char>,
) -> Seq<char> {
    "{\"cmd\":"@ + json_string(cmd) + ",\"argv\":["@ + json_items(argv) + "],\"intent\":"@
        + json_string(intent) + "}"@
}

/// Why `serde_json` could not write a value.
#[verifier::external_type_specification]
#[verifier::external_body]
pub struct ExJsonError(serde_json::Error);

/// Calls `serde_json::to_string` on a text, which writes it as a JSON string. Writing a text to
/// memory does not fail.
#[verifier::external_body]
fn json_text(s: &str) -> (r: Result<String, serde_json::Error>)
    ensures
        r is Ok,
        r matches Ok(json) ==> json@ == json_string(s@),
{
    serde_json::to_string(s)
}

/// Adds the JSON string of a text.
fn append_json(out: &mut String, s: &str)
    ensures
        final(out)@ == old(out)@ + json_string(s@),
{
    if let Ok(json) = json_text(s) {
        out.append(json.as_str());
    }
}

/// What is written to the standard input of the hook.
pub fn hook_request(cmd: &str, argv: &[String], intent: &str) -> (payload: String)
    ensures
        payload@ == hook_payload(cmd@, texts(argv@), intent@),
{
    let mut out = "{\"cmd\":".to_owned();
    append_json(&mut out, cmd);
    out.append(",\"argv\":[");
    let ghost all = texts(argv@);
    let ghost start = out@;
    let mut i: usize = 0;
    assert(start + json_items(all.take(0)) =~= start);
    while i < argv.len()
        invariant
            i <= argv@.len(),
            all == texts(argv@),
            out@ == start + json_items(all.take(i as int)),
        decreases argv@.len() - i,
    {
        if i > 0 {
            out.append(",");
        }
        append_json(&mut out, argv[i].as_str());
        i += 1;
        proof {
            let now = all.take(i as int);
            assert(now.drop_last() == all.take(i - 1));
            assert(now.last() == argv@[i - 1]@);
            if i == 1 {
                assert(json_items(all.take(0)) =~= Seq::<char>::empty());
                assert(out@ =~= start + json_items(now));
            } else {
                assert(out@ =~= start + json_items(now));
            }
        }
    }
    assert(all.take(i as int) == all);
    out.append("],\"intent\":");
    append_json(&mut out, intent);
    out.append("}");
    out
}

/// The decision that a reply of the hook stands for. A `user-reply` has to come with a reply.
pub open spec fn reply_decision(
    decision: Seq<char>,
    reply: Option<Seq<char>>,
) -> HookDecisionView {
    if decision == "yes"@ {
        HookDecisionView::Yes
    } else if decision == "no"@ {
        HookDecisionView::No
    } else if decision == "cancel"@ {
        HookDecisionView::Cancel
    } else if decision == "user-reply"@ {
        match reply {
            Some(text) => HookDecisionView::UserReply(text),
            None => HookDecisionView::Cancel,
        }
    } else {
        HookDecisionView::Cancel
    }
}

/// The decision that a reply of the hook stands for. A word that is none of the four cancels,
/// and so does a `user-reply` without a reply.
pub fn decide_by_reply(decision: &str, reply: Option<String>) -> (d: HookDecision)
    ensures
        d@ == reply_decision(decision@, opt_text(reply)),
{
    if same_text(decision, "yes") {
        HookDecision::Yes
    } else if same_text(decision, "no") {
        HookDecision::No
    } else if same_text(decision, "cancel") {
        HookDecision::Cancel
    } else if same_text(decision, "user-reply") {
        match reply {
            Some(text) => HookDecision::UserReply(text),
            None => HookDecision::Cancel,
        }
    } else {
        HookDecision::Cancel
    }
}

/// What the hook is waited for.
#[derive(Debug, Clone, Copy, PartialEq, Eq, Structural)]
pub enum HookPhase {
    /// The hook is being started.
    Spawning,
    /// The request is being written to it.
    Writing,
    /// It is running.
    Running,
    /// It has ended, and its output is being collected.
    Collecting { success: bool },
    /// Its output is being read as JSON.
    Parsing,
    /// There is a decision.
    Ended,
}

/// What happened to the hook.
#[derive(Debug, Clone)]
pub enum HookEvent {
    /// It could not be started.
    SpawnFailed,
    /// It was started, with or without a pipe to its standard input.
    Spawned { stdin: bool },
    /// The request was written.
    StdinWritten,
    /// The request could not be written.
    StdinFailed,
    /// There is no pipe from its standard output.
    StdoutMissing,
    /// It ended.
    Exited { success: bool },
    /// Its end could not be waited for.
    WaitFailed,
    /// It did not end in time.
    TimedOut,
    /// Its whole output.
    OutputRead(Vec<u8>),
    /// Its output could not be read.
    OutputFailed,
    /// Its output is a JSON object with these members.
    Parsed { decision: String, reply: Option<String> },
    /// Its output is no such object.
    ParseFailed,
}

/// The model of a `HookEvent`.
pub enum HookEventView {
    SpawnFailed,
    Spawned { stdin: bool },
    StdinWritten,
    StdinFailed,
    StdoutMissing,
    Exited { success: bool },
    WaitFailed,
    TimedOut,
    OutputRead(Seq<u8>),
    OutputFailed,
    Parsed { decision: Seq<char>, reply: Option<Seq<char>> },
    ParseFailed,
}

impl View for HookEvent {
    type V = HookEventView;

    open spec fn view(&self) -> HookEventView {
        match *self {
            HookEvent::SpawnFailed => HookEventView::SpawnFailed,
            HookEvent::Spawned { stdin } => HookEventView::Spawned { stdin },
            HookEvent::StdinWritten => HookEventView::StdinWritten,
            HookEvent::StdinFailed => HookEventView::StdinFailed,
            HookEvent::StdoutMissing => HookEventView::StdoutMissing,
            HookEvent::Exited { success } => HookEventView::Exited { success },
            HookEvent::WaitFailed => HookEventView::WaitFailed,
            HookEvent::TimedOut => HookEventView::TimedOut,
            HookEvent::OutputRead(bytes) => HookEventView::OutputRead(bytes@),
            HookEvent::OutputFailed => HookEventView::OutputFailed,
            HookEvent::Parsed { decision, reply } => HookEventView::Parsed {
                decision: decision@,
                reply: opt_text(reply),
            },
            HookEvent::ParseFailed => HookEventView::ParseFailed,
        }
    }
}

/// What is to be done next.
#[derive(Debug, Clone)]
pub enum HookAction {
    /// Write the request to the hook and close its standard input.
    WriteStdin,
    /// Collect its output and wait for its end, for no longer than the timeout.
    Wait,
    /// Wait for the rest of its output.
    Collect,
    /// Read this text as a JSON object with a `decision` and an optional `reply`.
    Parse(String),
    /// The decision is this. Before it is given, the hook is to be killed and waited for where
    /// `kill` says so, and its output is to be drained where `drain` says so.
    Finish { decision: HookDecision, kill: bool, drain: bool },
}

/// The model of a `HookAction`.
pub enum HookActionView {
    WriteStdin,
    Wait,
    Collect,
    Parse(Seq<char>),
    Finish { decision: HookDecisionView, kill: bool, drain: bool },
}

impl View for HookAction {
    type V = HookActionView;

    open spec fn view(&self) -> HookActionView {
        match *self {
            HookAction::WriteStdin => HookActionView::WriteStdin,
            HookAction::Wait => HookActionView::Wait,
            HookAction::Collect => HookActionView::Collect,
            HookAction::Parse(text) => HookActionView::Parse(text@),
            HookAction::Finish { decision, kill, drain } => HookActionView::Finish {
                decision: decision@,
                kill,
                drain,
            },
        }
    }
}

/// The action that cancels.
pub open spec fn cancelled(kill: bool, drain: bool) -> (HookPhase, HookActionView) {
    (
        HookPhase::Ended,
        HookActionView::Finish { decision: HookDecisionView::Cancel, kill, drain },
    )
}

/// What follows an event: the hook is started, given the request, waited for and read, in this
/// order. Anything else cancels.
pub open spec fn hook_step(phase: HookPhase, event: HookEventView) -> (HookPhase, HookActionView) {
    match (phase, event) {
        (HookPhase::Spawning, HookEventView::Spawned { stdin }) => if stdin {
            (HookPhase::Writing, HookActionView::WriteStdin)
        } else {
            (HookPhase::Running, HookActionView::Wait)
        },
        (HookPhase::Writing, HookEventView::StdinWritten) => (
            HookPhase::Running,
            HookActionView::Wait,
        ),
        (HookPhase::Writing, HookEventView::StdinFailed) => cancelled(true, false),
        (HookPhase::Running, HookEventView::Exited { success }) => (
            HookPhase::Collecting { success },
            HookActionView::Collect,
        ),
        (HookPhase::Running, HookEventView::TimedOut) => cancelled(true, true),
        (HookPhase::Collecting { success }, HookEventView::OutputRead(bytes)) => if success
            && valid_utf8(bytes) {
            (HookPhase::Parsing, HookActionView::Parse(trimmed(decode_utf8(bytes))))
        } else {
            cancelled(false, false)
        },
        (HookPhase::Parsing, HookEventView::Parsed { decision, reply }) => (
            HookPhase::Ended,
            HookActionView::Finish {
                decision: reply_decision(decision, reply),
                kill: false,
                drain: false,
            },
        ),
        _ => cancelled(false, false),
    }
}

fn cancel(kill: bool, drain: bool) -> (r: (HookPhase, HookAction))
    ensures
        (r.0, r.1@) == cancelled(kill, drain),
{
    (HookPhase::Ended, HookAction::Finish { decision: HookDecision::Cancel, kill, drain })
}

/// What follows an event of the hook.
pub fn run_allow_hook(phase: HookPhase, event: HookEvent) -> (r: (HookPhase, HookAction))
    ensures
        (r.0, r.1@) == hook_step(phase, event@),
{
    match (phase, event) {
        (HookPhase::Spawning, HookEvent::Spawned { stdin }) => if stdin {
            (HookPhase::Writing, HookAction::WriteStdin)
        } else {
            (HookPhase::Running, HookAction::Wait)
        },
        (HookPhase::Writing, HookEvent::StdinWritten) => (HookPhase::Running, HookAction::Wait),
        (HookPhase::Writing, HookEvent::StdinFailed) => cancel(true, false),
        (HookPhase::Running, HookEvent::Exited { success }) => (
            HookPhase::Collecting { success },
            HookAction::Collect,
        ),
        (HookPhase::Running, HookEvent::TimedOut) => cancel(true, true),
        (HookPhase::Collecting { success }, HookEvent::OutputRead(bytes)) => {
            if !success {
                return cancel(false, false);
            }
            match read_utf8(bytes.as_slice()) {
                Ok(text) => {
                    proof {
                        encode_utf8_valid_utf8(text@);
                        encode_utf8_decode_utf8(text@);
                    }
                    (HookPhase::Parsing, HookAction::Parse(trim(text)))
                },
                Err(_) => cancel(false, false),
            }
        },
        (HookPhase::Parsing, HookEvent::Parsed { decision, reply }) => (
            HookPhase::Ended,
            HookAction::Finish {
                decision: decide_by_reply(decision.as_str(), reply),
                kill: false,
                drain: false,
            },
        ),
        _ => cancel(false, false),
    }
}

/// Whether something went wrong: the hook could not be run to its end in time, failed, or
/// gave an output that is not UTF-8 or not JSON.
pub open spec fn failed(event: HookEventView) -> bool {
    match event {
        HookEventView::SpawnFailed => true,
        HookEventView::StdinFailed => true,
        HookEventView::StdoutMissing => true,
        HookEventView::Exited { success } => !success,
        HookEventView::WaitFailed => true,
        HookEventView::TimedOut => true,
        HookEventView::OutputRead(bytes) => !valid_utf8(bytes),
        HookEventView::OutputFailed => true,
        HookEventView::ParseFailed => true,
        _ => false,
    }
}

/// The decision that comes of the events, where the last of them gives one.
pub open spec fn hook_outcome(phase: HookPhase, events: Seq<HookEventView>) -> Option<
    HookDecisionView,
>
    decreases events.len(),
{
    if events.len() == 0 {
        None
    } else {
        match hook_step(phase, events[0]) {
            (_, HookActionView::Finish { decision, .. }) => if events.len() == 1 {
                Some(decision)
            } else {
                None
            },
            (next, _) => hook_outcome(next, events.drop_first()),
        }
    }
}

/// The hook fails closed: where anything goes wrong on the way to a decision, the decision is to
/// cancel.
pub proof fn law_hook_fails_closed(phase: HookPhase, events: Seq<HookEventView>, i: int)
    requires
        0 <= i < events.len(),
        failed(events[i]),
        hook_outcome(phase, events) is Some,
    ensures
        hook_outcome(phase, events) == Some(HookDecisionView::Cancel),
    decreases events.len(),
{
    let (next, action) = hook_step(phase, events[0]);
    if !(action is Finish) {
        let rest = events.drop_first();
        if i == 0 {
            // An event that failed and did not cancel is the end of a hook that failed.
            assert(next == (HookPhase::Collecting { success: false }));
            assert(rest.len() > 0);
        } else {
            assert(rest[i - 1] == events[i]);
            law_hook_fails_closed(next, rest, i - 1);
        }
    }
}

/// The hook lets a request run only where it replies `yes`.
pub proof fn law_hook_allows_only_by_yes(phase: HookPhase, events: Seq<HookEventView>)
    requires
        hook_outcome(phase, events) == Some(HookDecisionView::Yes),
    ensures
        events.last() matches HookEventView::Parsed { decision, .. } && decision == "yes"@,
    decreases events.len(),
{
    let (next, action) = hook_step(phase, events[0]);
    if !(action is Finish) {
        law_hook_allows_only_by_yes(next, events.drop_first());
    }
}

} // verus!
