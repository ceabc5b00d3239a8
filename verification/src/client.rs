//! The client: what it sends, what it does with what comes back, and what it reports.

use crate::server::{ExecuteDone, ExecuteStart};
use crate::server_model::{DoneView, Outcome, StartView};
use crate::session::{Inbound, ServerEvent};
use crate::session_model::{InboundView, OutputStream, ServerEventView};
use crate::stream_queue::{byte_views, packets, split_bytes};
use crate::text::{
    chars_of, decimal, decimal_digits, join_path, path_join, same_text, signed_decimal,
    signed_digits, text_of,
};
use vstd::prelude::*;
use vstd::string::*;

verus! {

/// Where a client's configuration lies, if nothing else is said.
pub const DEFAULT_CLIENT_CONFIG: &'static str = "~/.config/cli-warden/client.toml";

/// Where the input of a command comes from.
#[derive(Debug)]
pub enum StdinSource {
    /// It is given.
    Bytes(Vec<u8>),
    /// It is read while the command runs.
    Live,
}

/// What the messages of a list say.
pub open spec fn inbound_views(messages: Seq<Inbound>) -> Seq<InboundView> {
    messages.map_values(|m: Inbound| m@)
}

/// The messages that hand over an input in packets.
pub open spec fn stdin_messages(parts: Seq<Seq<u8>>) -> Seq<InboundView> {
    parts.map_values(|p: Seq<u8>| InboundView::StdinChunk(p))
}

/// The messages that a client sends at once: the start, and the whole input where it is given.
pub open spec fn opening_messages(start: StartView, stdin: Option<Seq<u8>>) -> Seq<InboundView> {
    match stdin {
        Some(bytes) => seq![InboundView::Start(start)] + stdin_messages(packets(bytes)) + seq![
            InboundView::StdinEof,
        ],
        None => seq![InboundView::Start(start)],
    }
}

/// The messages that a client sends at once.
pub fn opening(start: ExecuteStart, source: &StdinSource) -> (messages: Vec<Inbound>)
    ensures
        inbound_views(messages@) == opening_messages(
            start@,
            match *source {
                StdinSource::Bytes(bytes) => Some(bytes@),
                StdinSource::Live => None,
            },
        ),
{
    let ghost first = InboundView::Start(start@);
    let mut messages: Vec<Inbound> = Vec::new();
    messages.push(Inbound::Start(start));
    assert(inbound_views(messages@) =~= seq![first]);
    match source {
        StdinSource::Live => {},
        StdinSource::Bytes(bytes) => {
            let parts = split_bytes(bytes.as_slice());
            let ghost all = stdin_messages(packets(bytes@));
            let mut i: usize = 0;
            assert(seq![first] + all.take(0) =~= seq![first]);
            while i < parts.len()
                invariant
                    i <= parts@.len(),
                    byte_views(parts@) == packets(bytes@),
                    all == stdin_messages(packets(bytes@)),
                    inbound_views(messages@) == seq![first] + all.take(i as int),
                decreases parts@.len() - i,
            {
                let chunk = copy_bytes(parts[i].as_slice());
                let message = Inbound::StdinChunk(chunk);
                proof {
                    assert(byte_views(parts@)[i as int] == parts@[i as int]@);
                    assert(message@ == all[i as int]);
                    assert(inbound_views(messages@.push(message)) == inbound_views(messages@).push(
                        message@,
                    ));
                    assert((seq![first] + all.take(i as int)).push(message@) == seq![first]
                        + all.take(i + 1));
                }
                messages.push(message);
                i += 1;
            }
            assert(all.len() == byte_views(parts@).len());
            assert(all.take(i as int) == all);
            let ghost before = inbound_views(messages@);
            messages.push(Inbound::StdinEof);
            assert(inbound_views(messages@) =~= before.push(InboundView::StdinEof));
        },
    }
    messages
}

fn copy_bytes(bytes: &[u8]) -> (copy: Vec<u8>)
    ensures
        copy@ == bytes@,
{
    let mut copy: Vec<u8> = Vec::new();
    let mut i: usize = 0;
    while i < bytes.len()
        invariant
            i <= bytes@.len(),
            copy@ == bytes@.take(i as int),
        decreases bytes@.len() - i,
    {
        copy.push(bytes[i]);
        i += 1;
    }
    assert(bytes@.take(i as int) == bytes@);
    copy
}

/// What came of reading the client's own input.
#[derive(Debug)]
pub enum LiveRead {
    /// A part of it.
    Chunk(Vec<u8>),
    /// Its end.
    End,
    /// It could not be read.
    Failed,
}

/// The message that passes on what was read, and whether to read on. An input that cannot be
/// read counts as ended.
pub fn live_input(read: LiveRead) -> (r: (Inbound, bool))
    ensures
        match read {
            LiveRead::Chunk(bytes) => r.0@ == InboundView::StdinChunk(bytes@) && r.1,
            LiveRead::End => r.0@ == InboundView::StdinEof && !r.1,
            LiveRead::Failed => r.0@ == InboundView::StdinEof && !r.1,
        },
{
    match read {
        LiveRead::Chunk(bytes) => (Inbound::StdinChunk(bytes), true),
        LiveRead::End => (Inbound::StdinEof, false),
        LiveRead::Failed => (Inbound::StdinEof, false),
    }
}

/// What a client does with a message.
#[derive(Debug)]
pub enum ClientAction {
    /// Write to the standard output.
    PrintStdout(String),
    /// Write to the standard error.
    PrintStderr(String),
    /// Nothing.
    Continue,
    /// The request has ended.
    Return(ExecuteDone),
    /// The request has failed.
    Fail(String),
}

/// The model of a `ClientAction`.
pub enum ClientActionView {
    PrintStdout(Seq<char>),
    PrintStderr(Seq<char>),
    Continue,
    Return(DoneView),
    Fail(Seq<char>),
}

impl View for ClientAction {
    type V = ClientActionView;

    open spec fn view(&self) -> ClientActionView {
        match *self {
            ClientAction::PrintStdout(text) => ClientActionView::PrintStdout(text@),
            ClientAction::PrintStderr(text) => ClientActionView::PrintStderr(text@),
            ClientAction::Continue => ClientActionView::Continue,
            ClientAction::Return(done) => ClientActionView::Return(done@),
            ClientAction::Fail(message) => ClientActionView::Fail(message@),
        }
    }
}

/// What a client does with what comes in from the daemon.
pub open spec fn client_step(event: ServerEventView, passthrough_io: bool) -> ClientActionView {
    match event {
        ServerEventView::Stdout(chunk) => if passthrough_io {
            ClientActionView::PrintStdout(chunk)
        } else {
            ClientActionView::Continue
        },
        ServerEventView::Stderr(chunk) => if passthrough_io {
            ClientActionView::PrintStderr(chunk)
        } else {
            ClientActionView::Continue
        },
        ServerEventView::Done(done) => ClientActionView::Return(done),
        ServerEventView::Empty => ClientActionView::Continue,
        ServerEventView::Closed => ClientActionView::Fail("stream ended without done event"@),
    }
}

/// What a client does with what comes in from the daemon.
pub fn execute_stream(event: ServerEvent, passthrough_io: bool) -> (action: ClientAction)
    ensures
        action@ == client_step(event@, passthrough_io),
{
    match event {
        ServerEvent::Stdout(chunk) => if passthrough_io {
            ClientAction::PrintStdout(chunk)
        } else {
            ClientAction::Continue
        },
        ServerEvent::Stderr(chunk) => if passthrough_io {
            ClientAction::PrintStderr(chunk)
        } else {
            ClientAction::Continue
        },
        ServerEvent::Done(done) => ClientAction::Return(done),
        ServerEvent::Empty => ClientAction::Continue,
        ServerEvent::Closed => ClientAction::Fail("stream ended without done event".to_owned()),
    }
}

/// All of one output stream that the messages hold.
pub open spec fn streamed(stream: OutputStream, events: Seq<ServerEventView>) -> Seq<char>
    decreases events.len(),
{
    if events.len() == 0 {
        seq![]
    } else {
        streamed(stream, events.drop_last()) + match (stream, events.last()) {
            (OutputStream::Stdout, ServerEventView::Stdout(chunk)) => chunk,
            (OutputStream::Stderr, ServerEventView::Stderr(chunk)) => chunk,
            _ => seq![],
        }
    }
}

/// All that a client that passes the output on writes to one of its own streams.
pub open spec fn printed(stream: OutputStream, events: Seq<ServerEventView>) -> Seq<char>
    decreases events.len(),
{
    if events.len() == 0 {
        seq![]
    } else {
        printed(stream, events.drop_last()) + match (stream, client_step(events.last(), true)) {
            (OutputStream::Stdout, ClientActionView::PrintStdout(chunk)) => chunk,
            (OutputStream::Stderr, ClientActionView::PrintStderr(chunk)) => chunk,
            _ => seq![],
        }
    }
}

/// The two output streams of a command stay separate and whole: what a client writes to each of
/// its own is what came in for it, in order.
pub proof fn law_output_streams_stay_separate(stream: OutputStream, events: Seq<ServerEventView>)
    ensures
        printed(stream, events) == streamed(stream, events),
    decreases events.len(),
{
    if events.len() > 0 {
        law_output_streams_stay_separate(stream, events.drop_last());
    }
}

/// The name of an outcome.
pub open spec fn outcome_text(outcome: Outcome) -> Seq<char> {
    match outcome {
        Outcome::Unspecified => "Unspecified"@,
        Outcome::Executed => "Executed"@,
        Outcome::Denied => "Denied"@,
        Outcome::Cancelled => "Cancelled"@,
        Outcome::UserReply => "UserReply"@,
        Outcome::Error => "Error"@,
    }
}

/// The name of an outcome.
pub fn outcome_name(outcome: Outcome) -> (name: &'static str)
    ensures
        name@ == outcome_text(outcome),
{
    match outcome {
        Outcome::Unspecified => "Unspecified",
        Outcome::Executed => "Executed",
        Outcome::Denied => "Denied",
        Outcome::Cancelled => "Cancelled",
        Outcome::UserReply => "UserReply",
        Outcome::Error => "Error",
    }
}

/// What is printed of a request that ended: its outcome, its exit code, and what is said of it.
pub open spec fn report(done: DoneView) -> Seq<char> {
    let head = "\noutcome: "@ + outcome_text(done.outcome) + "\nexit_code: "@ + signed_digits(
        done.exit_code,
    ) + "\n"@;
    if done.message.len() == 0 {
        head
    } else {
        head + "message: "@ + done.message + "\n"@
    }
}

/// What is printed of a request that ended.
pub fn run_execute(done: &ExecuteDone) -> (text: String)
    ensures
        text@ == report(done@),
{
    let mut text = "\noutcome: ".to_owned();
    text.append(outcome_name(done.outcome));
    text.append("\nexit_code: ");
    let code = signed_decimal(done.exit_code);
    text.append(code.as_str());
    text.append("\n");
    if !done.message.as_str().is_empty() {
        text.append("message: ");
        text.append(done.message.as_str());
        text.append("\n");
    }
    text
}

/// The exit code of a shim: that of the command where it was run and has one, and otherwise one
/// that tells why it was not.
pub open spec fn shim_code(done: DoneView) -> int {
    match done.outcome {
        Outcome::Executed => if done.exit_code >= 0 {
            done.exit_code
        } else {
            1
        },
        Outcome::Denied => 126,
        Outcome::Cancelled => 125,
        Outcome::UserReply => 125,
        Outcome::Error => 1,
        Outcome::Unspecified => 1,
    }
}

/// The exit code of a shim, and what it writes to its standard error: the reply of the user,
/// where there is one.
pub fn run_shim(done: &ExecuteDone) -> (r: (i32, Option<String>))
    ensures
        r.0 == shim_code(done@),
        r.1 is Some <==> done.outcome == Outcome::UserReply && done.message@.len() > 0,
        r.1 matches Some(note) ==> note@ == done.message@,
{
    match done.outcome {
        Outcome::Executed => {
            let code: i32 = if done.exit_code >= 0 {
                done.exit_code
            } else {
                1
            };
            (code, None)
        },
        Outcome::Denied => (126, None),
        Outcome::Cancelled => (125, None),
        Outcome::UserReply => {
            let note = if done.message.as_str().is_empty() {
                None
            } else {
                Some(done.message.clone())
            };
            (125, note)
        },
        Outcome::Error => (1, None),
        Outcome::Unspecified => (1, None),
    }
}

/// How a shim is installed.
#[derive(Debug)]
pub struct ShimPlan {
    /// Where the link lies.
    pub link: String,
    /// Whether what lies there is to be removed.
    pub remove: bool,
}

/// How the shim of a command is installed. Where something lies in its place, it is replaced
/// with `force` and the installation is refused without.
pub fn run_install_shims(dir: &str, cmd: &str, occupied: bool, force: bool) -> (r: Result<
    ShimPlan,
    String,
>)
    ensures
        r is Ok <==> !occupied || force,
        r matches Ok(plan) ==> plan.link@ == path_join(dir@, cmd@) && plan.remove == occupied,
        r matches Err(message) ==> message@ == "shim already exists at "@ + path_join(dir@, cmd@)
            + " (use --force to overwrite)"@,
{
    let link = join_path(dir, cmd);
    if occupied && !force {
        let mut message = "shim already exists at ".to_owned();
        message.append(link.as_str());
        message.append(" (use --force to overwrite)");
        return Err(message);
    }
    Ok(ShimPlan { link, remove: occupied })
}

/// What is printed once the shims are installed.
pub fn shims_installed(count: u64, dir: &str) -> (text: String)
    ensures
        text@ == "installed "@ + decimal_digits(count as nat) + " shims into "@ + dir@,
{
    let mut text = "installed ".to_owned();
    let n = decimal(count);
    text.append(n.as_str());
    text.append(" shims into ");
    text.append(dir);
    text
}

/// A path with the home directory in place of a leading `~/`, where one is known.
pub open spec fn expanded(path: Seq<char>, home: Option<Seq<char>>) -> Seq<char> {
    if path.len() >= 2 && path[0] == '~' && path[1] == '/' {
        match home {
            Some(dir) => path_join(dir, path.skip(2)),
            None => path,
        }
    } else {
        path
    }
}

/// A path with the home directory in place of a leading `~/`.
pub fn expand_tilde(path: &str, home: Option<&str>) -> (r: String)
    ensures
        r@ == expanded(
            path@,
            match home {
                Some(dir) => Some(dir@),
                None => None,
            },
        ),
{
    let chars = chars_of(path);
    if chars.len() >= 2 && chars[0] == '~' && chars[1] == '/' {
        if let Some(dir) = home {
            let rest = text_of(chars.as_slice(), 2, chars.len());
            assert(path@.skip(2) == path@.subrange(2, path@.len() as int));
            return join_path(dir, rest.as_str());
        }
    }
    path.to_owned()
}

/// The path of a configuration file, with the home directory in place of a leading `~/`.
pub fn expand_tilde_path(path: &str, home: Option<&str>) -> (r: String)
    ensures
        r@ == expanded(
            path@,
            match home {
                Some(dir) => Some(dir@),
                None => None,
            },
        ),
{
    expand_tilde(path, home)
}

/// The command that a shim stands for: the name it was called by, unless that is the name of
/// the program itself.
pub fn shim_command_name(name: &str, exe_suffix: &str) -> (cmd: Option<String>)
    ensures
        cmd is None <==> name@ == "cli-warden"@ || name@ == "cli-warden"@ + exe_suffix@,
        cmd matches Some(c) ==> c@ == name@,
{
    let mut own = "cli-warden".to_owned();
    own.append(exe_suffix);
    if same_text(name, "cli-warden") || same_text(name, own.as_str()) {
        None
    } else {
        Some(name.to_owned())
    }
}

} // verus!
