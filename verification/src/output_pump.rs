//! The way of a command's output from its pipe to the client: read as UTF-8, redacted, and
//! split into packets.

use crate::redaction::{
    has_empty, law_stable_part_redacts_alone, redaction, stable_chars, Redactor, MARK,
};
use crate::stream_queue::{all_bytes, is_packets, split_text};
use crate::text::{chars_of, text_of, texts};
use crate::utf8_input::{
    drain_utf8_into_text, incomplete_scalar, lemma_valid_up_to, lemma_valid_up_to_behind, read_utf8,
    readable, valid_up_to, NON_UTF8,
};
use vstd::prelude::*;
use vstd::string::*;
use vstd::utf8::*;

verus! {

/// What has been read and not yet sent: bytes that are not yet a whole character, and text that
/// may be the beginning of a secret.
#[derive(Debug)]
pub struct OutputPump {
    pub utf8_pending: Vec<u8>,
    pub redaction_pending: String,
}

/// The model of an `OutputPump`.
pub struct PumpView {
    pub bytes: Seq<u8>,
    pub text: Seq<char>,
}

impl View for OutputPump {
    type V = PumpView;

    open spec fn view(&self) -> PumpView {
        PumpView { bytes: self.utf8_pending@, text: self.redaction_pending@ }
    }
}

/// What is sent for a text: nothing for the empty one.
pub open spec fn sent(secrets: Seq<Seq<char>>, t: Seq<char>) -> Seq<char> {
    if t.len() == 0 {
        seq![]
    } else {
        redaction(secrets, t, MARK@)
    }
}

/// The text that has been read when a further chunk comes.
pub open spec fn read_on(st: PumpView, chunk: Seq<u8>) -> Seq<char> {
    let bytes = st.bytes + chunk;
    st.text + decode_utf8(bytes.take(valid_up_to(bytes)))
}

/// What a pump holds back behind a further chunk.
pub open spec fn held_back(secrets: Seq<Seq<char>>, st: PumpView, chunk: Seq<u8>) -> PumpView {
    let bytes = st.bytes + chunk;
    let t = read_on(st, chunk);
    PumpView { bytes: bytes.skip(valid_up_to(bytes)), text: t.skip(stable_chars(secrets, t)) }
}

/// Takes the text that is ready out of `text`, redacts it and splits it into packets.
pub fn flush_pending_text(text: &mut String, flush_all: bool, redactor: &Redactor) -> (packets: Vec<
    String,
>)
    ensures
        ({
            let n = if flush_all {
                old(text)@.len() as int
            } else {
                stable_chars(redactor.secrets(), old(text)@)
            };
            &&& final(text)@ == old(text)@.skip(n)
            &&& is_packets(sent(redactor.secrets(), old(text)@.take(n)), texts(packets@))
        }),
{
    let chars = chars_of(text.as_str());
    let emit_until: usize = if flush_all {
        chars.len()
    } else {
        redactor.stable_char_count(text.as_str())
    };
    if emit_until == 0 {
        assert(text@.skip(0) == text@);
        let none = split_text("");
        proof {
            reveal_strlit("");
            assert(""@ =~= Seq::<char>::empty());
        }
        return none;
    }
    let emit_text = text_of(chars.as_slice(), 0, emit_until);
    assert(text@.take(emit_until as int) == text@.subrange(0, emit_until as int));
    assert(text@.skip(emit_until as int) == text@.subrange(emit_until as int, text@.len() as int));
    *text = text_of(chars.as_slice(), emit_until, chars.len());
    let redacted = redactor.redact_text(emit_text.as_str());
    split_text(redacted.as_str())
}

/// What is said of a pipe that cannot be read.
pub fn read_failure(stream_name: &str, error: &str) -> (message: String)
    ensures
        message@ == stream_name@ + " read failed: "@ + error@,
{
    let mut message = stream_name.to_owned();
    message.append(" read failed: ");
    message.append(error);
    message
}

impl OutputPump {
    /// A pump that has read nothing.
    pub fn new() -> (pump: OutputPump)
        ensures
            pump@.bytes.len() == 0,
            pump@.text.len() == 0,
    {
        OutputPump { utf8_pending: Vec::new(), redaction_pending: String::new() }
    }

    /// Takes in a chunk of output and gives the packets that can be sent. A chunk is refused
    /// where no further output can make what was read UTF-8; its bytes are then kept unread.
    pub fn feed(&mut self, chunk: &[u8], redactor: &Redactor) -> (r: Result<Vec<String>, String>)
        ensures
            r is Ok <==> readable(old(self)@.bytes + chunk@),
            r matches Ok(packets) ==> {
                let t = read_on(old(self)@, chunk@);
                &&& final(self)@ == held_back(redactor.secrets(), old(self)@, chunk@)
                &&& is_packets(
                    sent(redactor.secrets(), t.take(stable_chars(redactor.secrets(), t))),
                    texts(packets@),
                )
            },
            r matches Err(message) ==> {
                &&& message@ == NON_UTF8@
                &&& final(self)@ == (PumpView {
                    bytes: old(self)@.bytes + chunk@,
                    text: old(self)@.text,
                })
            },
    {
        let ghost before = self.utf8_pending@;
        let mut i: usize = 0;
        assert(before + chunk@.take(0) =~= before);
        while i < chunk.len()
            invariant
                i <= chunk@.len(),
                self.utf8_pending@ == before + chunk@.take(i as int),
                self.redaction_pending@ == old(self).redaction_pending@,
            decreases chunk@.len() - i,
        {
            self.utf8_pending.push(chunk[i]);
            i += 1;
            assert(before + chunk@.take(i as int) =~= (before + chunk@.take(i - 1)).push(
                chunk@[i - 1],
            ));
        }
        assert(chunk@.take(i as int) == chunk@);
        match drain_utf8_into_text(&mut self.utf8_pending, &mut self.redaction_pending) {
            Ok(()) => Ok(flush_pending_text(&mut self.redaction_pending, false, redactor)),
            Err(message) => Err(message),
        }
    }

    /// Gives the packets of all that was held back, at the end of the output. The end is refused
    /// inside a character.
    pub fn finish(self, redactor: &Redactor) -> (r: Result<Vec<String>, String>)
        ensures
            r is Ok <==> valid_utf8(self@.bytes),
            r matches Ok(packets) ==> is_packets(
                sent(redactor.secrets(), self@.text + decode_utf8(self@.bytes)),
                texts(packets@),
            ),
            r matches Err(message) ==> message@ == NON_UTF8@,
    {
        let OutputPump { utf8_pending, redaction_pending } = self;
        let mut text = redaction_pending;
        match read_utf8(utf8_pending.as_slice()) {
            Ok(tail) => {
                proof {
                    encode_utf8_valid_utf8(tail@);
                    encode_utf8_decode_utf8(tail@);
                }
                text.append(tail);
                let ghost whole = text@;
                assert(whole.take(whole.len() as int) == whole);
                Ok(flush_pending_text(&mut text, true, redactor))
            },
            Err(_) => Err(NON_UTF8.to_owned()),
        }
    }
}

/// All that a pump sends when it is fed the chunks and then comes to the end of the output,
/// where it refuses none of them.
pub open spec fn pumped(
    secrets: Seq<Seq<char>>,
    st: PumpView,
    chunks: Seq<Seq<u8>>,
) -> Option<Seq<char>>
    decreases chunks.len(),
{
    if chunks.len() == 0 {
        if valid_utf8(st.bytes) {
            Some(sent(secrets, st.text + decode_utf8(st.bytes)))
        } else {
            None
        }
    } else if !readable(st.bytes + chunks[0]) {
        None
    } else {
        let t = read_on(st, chunks[0]);
        match pumped(secrets, held_back(secrets, st, chunks[0]), chunks.drop_first()) {
            Some(rest) => Some(sent(secrets, t.take(stable_chars(secrets, t))) + rest),
            None => None,
        }
    }
}

proof fn lemma_decode_concat(a: Seq<u8>, b: Seq<u8>)
    requires
        valid_utf8(a),
        valid_utf8(b),
    ensures
        valid_utf8(a + b),
        decode_utf8(a + b) == decode_utf8(a) + decode_utf8(b),
    decreases a.len(),
{
    valid_utf8_concat(a, b);
    if a.len() == 0 {
        assert(a + b == b);
        assert(decode_utf8(a) + decode_utf8(b) =~= decode_utf8(b));
    } else {
        let rest = pop_first_scalar(a);
        lemma_decode_concat(rest, b);
        assert(pop_first_scalar(a + b) == rest + b);
        assert(decode_utf8(a + b) =~= decode_utf8(a) + decode_utf8(b));
    }
}

/// Behind the longest beginning that is UTF-8 no character follows.
proof fn lemma_nothing_behind(bytes: Seq<u8>)
    ensures
        valid_up_to(bytes.skip(valid_up_to(bytes))) == 0,
{
    lemma_valid_up_to(bytes);
    let v = valid_up_to(bytes);
    assert(bytes.take(v) + bytes.skip(v) == bytes);
    lemma_valid_up_to_behind(bytes.take(v), bytes.skip(v));
}

/// Bytes that are refused are no beginning of UTF-8.
pub proof fn lemma_unreadable_stays(bytes: Seq<u8>, more: Seq<u8>)
    requires
        !readable(bytes),
    ensures
        !valid_utf8(bytes + more),
{
    lemma_valid_up_to(bytes);
    lemma_nothing_behind(bytes);
    let v = valid_up_to(bytes);
    let rest = bytes.skip(v);
    if valid_utf8(bytes + more) {
        lemma_valid_up_to(bytes + more);
        assert(bytes + more == bytes.take(v) + (rest + more));
        lemma_valid_up_to_behind(bytes.take(v), rest + more);
        lemma_valid_up_to(rest + more);
        let all = rest + more;
        let n = length_of_first_scalar(all);
        assert(valid_first_scalar(all));
        if n <= rest.len() {
            assert(valid_first_scalar(rest));
            lemma_valid_up_to(pop_first_scalar(rest));
        } else {
            decode_utf8_first_scalar(all);
            let c = decode_first_scalar(all) as char;
            assert(encode_scalar(c as u32) == take_first_scalar(all));
            assert(rest == take_first_scalar(all).subrange(0, rest.len() as int));
            assert(incomplete_scalar(rest));
        }
    }
}

proof fn lemma_pumped(secrets: Seq<Seq<char>>, st: PumpView, chunks: Seq<Seq<u8>>)
    requires
        !has_empty(secrets),
    ensures
        ({
            let all = st.bytes + all_bytes(chunks);
            pumped(secrets, st, chunks) == if valid_utf8(all) {
                Some(redaction(secrets, st.text + decode_utf8(all), MARK@))
            } else {
                None
            }
        }),
    decreases chunks.len(),
{
    let none = Seq::<char>::empty();
    assert(redaction(secrets, none, MARK@) == none);
    if chunks.len() == 0 {
        assert(st.bytes + all_bytes(chunks) == st.bytes);
        if st.text.len() + decode_utf8(st.bytes).len() == 0 {
            assert(st.text + decode_utf8(st.bytes) == none);
        }
    } else {
        let bytes = st.bytes + chunks[0];
        let rest = chunks.drop_first();
        let more = all_bytes(rest);
        let all = st.bytes + all_bytes(chunks);
        assert(all == bytes + more);
        if !readable(bytes) {
            lemma_unreadable_stays(bytes, more);
        } else {
            let v = valid_up_to(bytes);
            let next = held_back(secrets, st, chunks[0]);
            let t = read_on(st, chunks[0]);
            let n = stable_chars(secrets, t);
            lemma_valid_up_to(bytes);
            lemma_pumped(secrets, next, rest);
            let behind = next.bytes + more;
            assert(all == bytes.take(v) + behind);
            lemma_valid_up_to_behind(bytes.take(v), behind);
            lemma_valid_up_to(all);
            lemma_valid_up_to(behind);
            if valid_utf8(behind) {
                lemma_decode_concat(bytes.take(v), behind);
                assert(st.text + decode_utf8(all) == t + decode_utf8(behind));
                law_stable_part_redacts_alone(secrets, t, decode_utf8(behind), MARK@);
                if t.take(n).len() == 0 {
                    assert(t.take(n) == none);
                }
            }
        }
    }
}

/// However the output of a command is cut into chunks, what is sent is the redaction of the
/// whole of it; and output that is not UTF-8 as a whole is refused. No secret is empty.
pub proof fn law_chunks_are_redacted_as_a_whole(secrets: Seq<Seq<char>>, chunks: Seq<Seq<u8>>)
    requires
        !has_empty(secrets),
    ensures
        pumped(secrets, PumpView { bytes: seq![], text: seq![] }, chunks) == if valid_utf8(
            all_bytes(chunks),
        ) {
            Some(redaction(secrets, decode_utf8(all_bytes(chunks)), MARK@))
        } else {
            None
        },
{
    let st = PumpView { bytes: seq![], text: seq![] };
    lemma_pumped(secrets, st, chunks);
    assert(st.bytes + all_bytes(chunks) == all_bytes(chunks));
    if valid_utf8(all_bytes(chunks)) {
        assert(st.text + decode_utf8(all_bytes(chunks)) == decode_utf8(all_bytes(chunks)));
    }
}

} // verus!
