//! What holds of a client and its shims.

use crate::client::{
    client_step, expanded, opening_messages, outcome_text, report, shim_code, stdin_messages,
    ClientActionView,
};
use crate::server_model::{DoneView, Outcome, StartView};
use crate::session_model::{InboundView, ServerEventView};
use crate::stream_queue::{all_bytes, law_packets_hold_the_data, packets};
use crate::text::{path_join, signed_digits};
use crate::text_laws::law_paths_are_joined_by_one_separator;
use vstd::prelude::*;

verus! {

/// A shim exits as the command did: with the exit code of a command that was run and has one,
/// so that it exits with 0 exactly where the command was run and exited with 0. Where the command
/// was not run, the exit code tells why, and it is never 0.
pub proof fn law_shim_exits_as_the_command_did(done: DoneView)
    ensures
        done.outcome == Outcome::Executed && done.exit_code >= 0 ==> shim_code(done)
            == done.exit_code,
        shim_code(done) == 0 <==> done.outcome == Outcome::Executed && done.exit_code == 0,
        done.outcome == Outcome::Executed && done.exit_code < 0 ==> shim_code(done) == 1,
        done.outcome == Outcome::Denied ==> shim_code(done) == 126,
        done.outcome == Outcome::Cancelled ==> shim_code(done) == 125,
        done.outcome == Outcome::UserReply ==> shim_code(done) == 125,
        done.outcome == Outcome::Error ==> shim_code(done) == 1,
        done.outcome == Outcome::Unspecified ==> shim_code(done) == 1,
        shim_code(done) >= 0,
{
}

/// Of requests that were not run, the exit code of a shim does not depend on anything but why.
pub proof fn law_shim_tells_why_a_command_was_not_run(a: DoneView, b: DoneView)
    requires
        a.outcome == b.outcome,
        a.outcome != Outcome::Executed,
    ensures
        shim_code(a) == shim_code(b),
        shim_code(a) != 0,
{
}

/// What is printed of a request has its outcome and its exit code in it, each on a line of its
/// own, and then a line with the message, where there is one.
pub proof fn law_report_names_outcome_exit_code_and_message(done: DoneView)
    ensures
        report(DoneView { message: seq![], ..done }) == "\noutcome: "@ + match done.outcome {
            Outcome::Unspecified => "Unspecified"@,
            Outcome::Executed => "Executed"@,
            Outcome::Denied => "Denied"@,
            Outcome::Cancelled => "Cancelled"@,
            Outcome::UserReply => "UserReply"@,
            Outcome::Error => "Error"@,
        } + "\nexit_code: "@ + signed_digits(done.exit_code) + "\n"@,
        done.message.len() > 0 ==> report(done) == report(DoneView { message: seq![], ..done })
            + "message: "@ + done.message + "\n"@,
{
}

/// A client that passes the output on writes each part of it to the stream that it belongs to,
/// and one that does not writes nothing.
pub proof fn law_client_passes_output_on(chunk: Seq<char>)
    ensures
        client_step(ServerEventView::Stdout(chunk), true) == ClientActionView::PrintStdout(chunk),
        client_step(ServerEventView::Stderr(chunk), true) == ClientActionView::PrintStderr(chunk),
        client_step(ServerEventView::Stdout(chunk), false) is Continue,
        client_step(ServerEventView::Stderr(chunk), false) is Continue,
{
}

/// A client goes on until it is told how the request ended, and returns just that. A stream that
/// ends before is a failure.
pub proof fn law_client_returns_how_the_request_ended(
    event: ServerEventView,
    passthrough_io: bool,
    done: DoneView,
)
    ensures
        client_step(ServerEventView::Done(done), passthrough_io) == ClientActionView::Return(done),
        client_step(event, passthrough_io) is Return ==> event is Done,
        client_step(event, passthrough_io) is Fail <==> event is Closed,
        client_step(ServerEventView::Closed, passthrough_io) == ClientActionView::Fail(
            "stream ended without done event"@,
        ),
        client_step(ServerEventView::Empty, passthrough_io) is Continue,
{
}

/// A client that reads its input while the command runs sends the start of its request at once,
/// and nothing else.
pub proof fn law_live_client_sends_its_start(start: StartView)
    ensures
        opening_messages(start, None) == seq![InboundView::Start(start)],
{
}

/// A client whose input is given sends the start of its request, then the input, which no other
/// message comes between, and then its end.
pub proof fn law_given_input_is_sent_whole(start: StartView, stdin: Seq<u8>) -> (chunks: Seq<
    Seq<u8>,
>)
    ensures
        all_bytes(chunks) == stdin,
        opening_messages(start, Some(stdin)).len() == chunks.len() + 2,
        opening_messages(start, Some(stdin))[0] == InboundView::Start(start),
        forall|i: int|
            0 <= i < chunks.len() ==> opening_messages(start, Some(stdin))[i + 1]
                == InboundView::StdinChunk(#[trigger] chunks[i]),
        opening_messages(start, Some(stdin)).last() == InboundView::StdinEof,
{
    let chunks = packets(stdin);
    law_packets_hold_the_data(stdin);
    let all = opening_messages(start, Some(stdin));
    let parts = stdin_messages(chunks);
    assert(all == seq![InboundView::Start(start)] + parts + seq![InboundView::StdinEof]);
    assert forall|i: int| 0 <= i < chunks.len() implies all[i + 1] == InboundView::StdinChunk(
        #[trigger] chunks[i],
    ) by {
        assert(all[i + 1] == parts[i]);
    }
    chunks
}

/// A leading `~/` stands for the home directory, and nothing else in a path does.
pub proof fn law_tilde_stands_for_the_home_directory(
    rest: Seq<char>,
    home: Seq<char>,
    path: Seq<char>,
)
    ensures
        expanded(seq!['~', '/'] + rest, None) == seq!['~', '/'] + rest,
        !(rest.len() > 0 && rest[0] == '/') && home.len() > 0 && home.last() != '/' ==> expanded(
            seq!['~', '/'] + rest,
            Some(home),
        ) == home + seq!['/'] + rest,
        !(rest.len() > 0 && rest[0] == '/') ==> expanded(
            seq!['~', '/'] + rest,
            Some(home.push('/')),
        ) == home + seq!['/'] + rest,
        path.len() == 0 || path[0] != '~' ==> expanded(path, Some(home)) == path,
        path.len() < 2 || path[1] != '/' ==> expanded(path, Some(home)) == path,
{
    let p = seq!['~', '/'] + rest;
    assert(p.skip(2) == rest);
    law_paths_are_joined_by_one_separator(home, rest);
}

} // verus!
