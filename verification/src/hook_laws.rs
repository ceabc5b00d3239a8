//! What holds of the allow hook: what it is told, and what comes of its reply.

use crate::hook::{
    hex_digit, hook_outcome, hook_payload, hook_step, json_char, json_chars, json_items,
    json_string, reply_decision, HookActionView, HookDecisionView, HookEventView, HookPhase,
};
use crate::text::trimmed;
use vstd::prelude::*;
use vstd::utf8::*;

verus! {

/// The reply of the hook decides by its word: `yes`, `no`, `cancel`, or `user-reply` with the
/// reply that comes with it. Any other word cancels, and so does a `user-reply` without a reply.
pub proof fn law_reply_decides_by_its_word(
    word: Seq<char>,
    reply: Option<Seq<char>>,
    text: Seq<char>,
)
    ensures
        reply_decision("yes"@, reply) == HookDecisionView::Yes,
        reply_decision("no"@, reply) == HookDecisionView::No,
        reply_decision("cancel"@, reply) == HookDecisionView::Cancel,
        reply_decision("user-reply"@, Some(text)) == HookDecisionView::UserReply(text),
        reply_decision("user-reply"@, None) == HookDecisionView::Cancel,
        word != "yes"@ && word != "no"@ && word != "cancel"@ && word != "user-reply"@
            ==> reply_decision(word, reply) == HookDecisionView::Cancel,
{
    reveal_strlit("yes");
    reveal_strlit("no");
    reveal_strlit("cancel");
    reveal_strlit("user-reply");
    assert("yes"@[0] == 'y');
    assert("no"@[0] == 'n');
    assert("cancel"@[0] == 'c');
    assert("user-reply"@[0] == 'u');
}

/// A hook that does what it should decides: it is given the request where it has an input, runs
/// to its end, puts out UTF-8, and what it put out, without the white space around it, is read as
/// a reply. The word of the reply is the decision, and the hook is not killed.
pub proof fn law_hook_that_replies_decides(
    stdin: bool,
    output: Seq<u8>,
    word: Seq<char>,
    reply: Option<Seq<char>>,
)
    requires
        valid_utf8(output),
    ensures
        ({
            let given = hook_step(HookPhase::Spawning, HookEventView::Spawned { stdin });
            let running = if stdin {
                hook_step(given.0, HookEventView::StdinWritten)
            } else {
                given
            };
            let ended = hook_step(running.0, HookEventView::Exited { success: true });
            let read = hook_step(ended.0, HookEventView::OutputRead(output));
            let decided = hook_step(read.0, HookEventView::Parsed { decision: word, reply });
            &&& stdin ==> given.1 is WriteStdin
            &&& running.1 is Wait
            &&& ended.1 is Collect
            &&& read.1 == HookActionView::Parse(trimmed(decode_utf8(output)))
            &&& decided.0 is Ended
            &&& decided.1 == (HookActionView::Finish {
                decision: reply_decision(word, reply),
                kill: false,
                drain: false,
            })
        }),
        hook_outcome(
            HookPhase::Spawning,
            seq![
                HookEventView::Spawned { stdin: true },
                HookEventView::StdinWritten,
                HookEventView::Exited { success: true },
                HookEventView::OutputRead(output),
                HookEventView::Parsed { decision: word, reply },
            ],
        ) == Some(reply_decision(word, reply)),
{
    let e0 = seq![
        HookEventView::Spawned { stdin: true },
        HookEventView::StdinWritten,
        HookEventView::Exited { success: true },
        HookEventView::OutputRead(output),
        HookEventView::Parsed { decision: word, reply },
    ];
    let e1 = e0.drop_first();
    let e2 = e1.drop_first();
    let e3 = e2.drop_first();
    let e4 = e3.drop_first();
    assert(e1[0] == e0[1] && e2[0] == e0[2] && e3[0] == e0[3] && e4[0] == e0[4]);
    assert(hook_outcome(HookPhase::Parsing, e4) == Some(reply_decision(word, reply)));
    assert(hook_outcome(HookPhase::Collecting { success: true }, e3) == Some(
        reply_decision(word, reply),
    ));
    assert(hook_outcome(HookPhase::Running, e2) == Some(reply_decision(word, reply)));
    assert(hook_outcome(HookPhase::Writing, e1) == Some(reply_decision(word, reply)));
}

/// A hook that does not take the request, or does not end in time, is killed; of one that does
/// not end in time the output is still taken off. Nothing else that goes wrong kills it, for then
/// it has ended or was never started.
pub proof fn law_hook_is_killed_while_it_runs(phase: HookPhase, event: HookEventView)
    ensures
        hook_step(HookPhase::Writing, HookEventView::StdinFailed).1 == (HookActionView::Finish {
            decision: HookDecisionView::Cancel,
            kill: true,
            drain: false,
        }),
        hook_step(HookPhase::Running, HookEventView::TimedOut).1 == (HookActionView::Finish {
            decision: HookDecisionView::Cancel,
            kill: true,
            drain: true,
        }),
        hook_step(phase, event).1 matches HookActionView::Finish { kill, drain, .. } ==> {
            &&& kill <==> phase is Writing && event is StdinFailed || phase is Running
                && event is TimedOut
            &&& drain <==> phase is Running && event is TimedOut
        },
{
}

/// Anything but what a phase waits for cancels, without killing the hook: a hook is started,
/// given the request, waited for, read and understood, in this order.
pub proof fn law_anything_else_cancels(phase: HookPhase, event: HookEventView)
    requires
        !(phase is Spawning && event is Spawned),
        !(phase is Writing && (event is StdinWritten || event is StdinFailed)),
        !(phase is Running && (event is Exited || event is TimedOut)),
        !(phase is Collecting && event is OutputRead),
        !(phase is Parsing && event is Parsed),
    ensures
        hook_step(phase, event) == (
            HookPhase::Ended,
            HookActionView::Finish {
                decision: HookDecisionView::Cancel,
                kill: false,
                drain: false,
            },
        ),
{
}

/// A hook that fails, or puts out what is not UTF-8, cancels, and what it put out is not read.
pub proof fn law_output_of_a_failed_hook_is_not_read(success: bool, output: Seq<u8>)
    requires
        !success || !valid_utf8(output),
    ensures
        hook_step(HookPhase::Collecting { success }, HookEventView::OutputRead(output)) == (
            HookPhase::Ended,
            HookActionView::Finish {
                decision: HookDecisionView::Cancel,
                kill: false,
                drain: false,
            },
        ),
{
}

/// The value of a lower-case hexadecimal digit.
pub open spec fn hex_value(c: char) -> int {
    if '0' <= c <= '9' {
        c as int - '0' as int
    } else {
        c as int - 'a' as int + 10
    }
}

/// The text that the inside of a JSON string stands for.
pub open spec fn unescaped(s: Seq<char>) -> Seq<char>
    decreases s.len(),
{
    if s.len() == 0 {
        seq![]
    } else if s[0] != '\\' {
        seq![s[0]] + unescaped(s.skip(1))
    } else if s.len() >= 6 && s[1] == 'u' {
        seq![
            (hex_value(s[2]) * 4096 + hex_value(s[3]) * 256 + hex_value(s[4]) * 16 + hex_value(
                s[5],
            )) as char,
        ] + unescaped(s.skip(6))
    } else if s.len() >= 2 {
        let c = if s[1] == 'b' {
            '\u{8}'
        } else if s[1] == 'f' {
            '\u{c}'
        } else if s[1] == 'n' {
            '\n'
        } else if s[1] == 'r' {
            '\r'
        } else if s[1] == 't' {
            '\t'
        } else {
            s[1]
        };
        seq![c] + unescaped(s.skip(2))
    } else {
        seq![]
    }
}

proof fn lemma_json_chars_first(s: Seq<char>)
    requires
        s.len() > 0,
    ensures
        json_chars(s) == json_char(s[0]) + json_chars(s.drop_first()),
    decreases s.len(),
{
    let rest = s.drop_first();
    if s.len() == 1 {
        assert(s.drop_last() =~= Seq::<char>::empty());
        assert(rest =~= Seq::<char>::empty());
        assert(json_chars(s.drop_last()) =~= Seq::<char>::empty());
        assert(json_chars(s) =~= json_char(s[0]) + json_chars(rest));
    } else {
        lemma_json_chars_first(s.drop_last());
        assert(s.drop_last().drop_first() == rest.drop_last());
        assert(json_chars(s) =~= json_char(s[0]) + json_chars(rest));
    }
}

proof fn lemma_unescaped_char(c: char, rest: Seq<char>)
    ensures
        unescaped(json_char(c) + rest) == seq![c] + unescaped(rest),
{
    let s = json_char(c) + rest;
    let e = json_char(c);
    let n = e.len() as int;
    assert(s.skip(n) == rest);
    assert forall|i: int| 0 <= i < n implies s[i] == #[trigger] e[i] by {}
    assert(s[0] == e[0]);
    if n == 2 {
        assert(s[1] == e[1]);
    } else if n == 6 {
        assert(s[1] == e[1] && s[2] == e[2] && s[3] == e[3] && s[4] == e[4] && s[5] == e[5]);
        let hi = c as int / 16;
        let lo = c as int % 16;
        assert(0 <= hi < 2 && 0 <= lo < 16);
        assert(hex_value(hex_digit(hi)) == hi);
        assert(hex_value(hex_digit(lo)) == lo);
        assert(hex_value('0') == 0);
        assert(hi * 16 + lo == c as int);
        assert((0 * 4096 + 0 * 256 + hi * 16 + lo) as char == c);
    }
}

/// The hook reads every text as it is: unescaping the inside of its JSON string gives the text
/// back, and the string has its quotes around it.
pub proof fn law_json_string_stands_for_its_text(s: Seq<char>)
    ensures
        unescaped(json_chars(s)) == s,
        json_string(s).len() == json_chars(s).len() + 2,
        json_string(s)[0] == '"',
        json_string(s).last() == '"',
        json_string(s).subrange(1, json_string(s).len() - 1) == json_chars(s),
    decreases s.len(),
{
    let j = json_string(s);
    assert(j.subrange(1, j.len() - 1) =~= json_chars(s));
    if s.len() == 0 {
        assert(json_chars(s) =~= Seq::<char>::empty());
        assert(unescaped(json_chars(s)) =~= s);
    } else {
        let rest = s.drop_first();
        lemma_json_chars_first(s);
        law_json_string_stands_for_its_text(rest);
        lemma_unescaped_char(s[0], json_chars(rest));
        assert(seq![s[0]] + rest == s);
    }
}

/// No quote ends a JSON string before its end, and no control character stands in it: a quote
/// comes only behind a backslash.
pub proof fn law_json_string_has_no_bare_quote(s: Seq<char>, i: int)
    requires
        0 <= i < json_chars(s).len(),
    ensures
        json_chars(s)[i] as int >= 32,
        json_chars(s)[i] == '"' ==> i > 0 && json_chars(s)[i - 1] == '\\',
    decreases s.len(),
{
    let init = s.drop_last();
    let before = json_chars(init);
    let e = json_char(s.last());
    assert(json_chars(s) == before + e);
    if i < before.len() {
        law_json_string_has_no_bare_quote(init, i);
    } else {
        let k = i - before.len();
        assert(json_chars(s)[i] == e[k]);
        if k > 0 {
            assert(json_chars(s)[i - 1] == e[k - 1]);
        }
        lemma_json_char(s.last(), k);
    }
}

proof fn lemma_json_char(c: char, k: int)
    requires
        0 <= k < json_char(c).len(),
    ensures
        json_char(c)[k] as int >= 32,
        json_char(c)[k] == '"' ==> k > 0 && json_char(c)[k - 1] == '\\',
{
    if json_char(c).len() == 6 {
        let hi = c as int / 16;
        let lo = c as int % 16;
        assert(0 <= hi < 2 && 0 <= lo < 16);
        assert(hex_digit(hi) as int >= 48);
        assert(hex_digit(lo) as int >= 48);
    }
}

/// A text without quotes, backslashes and control characters stands in a JSON string as it is.
pub proof fn law_plain_text_is_not_escaped(s: Seq<char>)
    requires
        forall|i: int|
            0 <= i < s.len() ==> #[trigger] s[i] as int >= 32 && s[i] != '"' && s[i] != '\\',
    ensures
        json_string(s) == seq!['"'] + s + seq!['"'],
    decreases s.len(),
{
    if s.len() == 0 {
        assert(json_chars(s) =~= s);
    } else {
        let init = s.drop_last();
        assert forall|i: int| 0 <= i < init.len() implies #[trigger] init[i] as int >= 32
            && init[i] != '"' && init[i] != '\\' by {
            assert(init[i] == s[i]);
        }
        law_plain_text_is_not_escaped(init);
        let j = json_string(init);
        assert(json_chars(init) =~= init) by {
            assert(j.subrange(1, j.len() - 1) =~= json_chars(init));
            assert((seq!['"'] + init + seq!['"']).subrange(1, 1 + init.len() as int) =~= init);
            assert(j.len() == init.len() + 2);
        }
        let c = s[s.len() - 1];
        assert(json_char(c) == seq![c]);
        assert(json_chars(s) =~= s);
    }
}

/// The hook is told the command, all arguments in their order, and the intent.
pub proof fn law_hook_is_told_the_whole_request(
    cmd: Seq<char>,
    argv: Seq<Seq<char>>,
    intent: Seq<char>,
    arg: Seq<char>,
)
    ensures
        hook_payload(cmd, argv, intent) == "{\"cmd\":"@ + json_string(cmd) + ",\"argv\":["@
            + json_items(argv) + "],\"intent\":"@ + json_string(intent) + "}"@,
        json_items(Seq::<Seq<char>>::empty()) == Seq::<char>::empty(),
        json_items(seq![arg]) == json_string(arg),
        argv.len() > 0 ==> json_items(argv.push(arg)) == json_items(argv) + ","@ + json_string(arg),
{
    let list = argv.push(arg);
    if argv.len() > 0 {
        assert(list.drop_last() == argv);
    }
}

} // verus!
