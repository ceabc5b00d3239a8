//! What a client sees of the output of a command.

use crate::client::{law_output_streams_stay_separate, printed, streamed};
use crate::output_pump::{
    held_back, law_chunks_are_redacted_as_a_whole, pumped, read_on, sent, PumpView,
};
use crate::redaction::{has_empty, redaction, stable_chars, MARK};
use crate::session_model::{OutputStream, ServerEventView};
use crate::stream_queue::{all_bytes, is_packets};
use crate::text::joined;
use crate::utf8_input::readable;
use vstd::prelude::*;
use vstd::utf8::*;

verus! {

/// Whether a pump that is fed the chunks gives the packets: `packets[i]` for the chunk `i`, and
/// the last of them at the end of the output.
pub open spec fn pumps(
    secrets: Seq<Seq<char>>,
    st: PumpView,
    chunks: Seq<Seq<u8>>,
    packets: Seq<Seq<Seq<char>>>,
) -> bool
    decreases chunks.len(),
{
    &&& packets.len() == chunks.len() + 1
    &&& if chunks.len() == 0 {
        &&& valid_utf8(st.bytes)
        &&& is_packets(sent(secrets, st.text + decode_utf8(st.bytes)), packets[0])
    } else {
        let t = read_on(st, chunks[0]);
        &&& readable(st.bytes + chunks[0])
        &&& is_packets(sent(secrets, t.take(stable_chars(secrets, t))), packets[0])
        &&& pumps(
            secrets,
            held_back(secrets, st, chunks[0]),
            chunks.drop_first(),
            packets.drop_first(),
        )
    }
}

/// All packets, one after another.
pub open spec fn in_order(packets: Seq<Seq<Seq<char>>>) -> Seq<Seq<char>>
    decreases packets.len(),
{
    if packets.len() == 0 {
        seq![]
    } else {
        packets[0] + in_order(packets.drop_first())
    }
}

/// The messages that pass on the packets of one output stream.
pub open spec fn passed_on(stream: OutputStream, parts: Seq<Seq<char>>) -> Seq<ServerEventView> {
    match stream {
        OutputStream::Stdout => parts.map_values(|p: Seq<char>| ServerEventView::Stdout(p)),
        OutputStream::Stderr => parts.map_values(|p: Seq<char>| ServerEventView::Stderr(p)),
    }
}

proof fn lemma_joined_concat(a: Seq<Seq<char>>, b: Seq<Seq<char>>)
    ensures
        joined(a + b) == joined(a) + joined(b),
    decreases b.len(),
{
    if b.len() == 0 {
        assert(a + b == a);
        assert(joined(a) + joined(b) =~= joined(a));
    } else {
        lemma_joined_concat(a, b.drop_last());
        assert((a + b).drop_last() == a + b.drop_last());
        assert(joined(a + b) =~= joined(a) + joined(b));
    }
}

proof fn lemma_passed_on(stream: OutputStream, parts: Seq<Seq<char>>)
    ensures
        streamed(stream, passed_on(stream, parts)) == joined(parts),
    decreases parts.len(),
{
    if parts.len() > 0 {
        lemma_passed_on(stream, parts.drop_last());
        assert(passed_on(stream, parts).drop_last() == passed_on(stream, parts.drop_last()));
    }
}

proof fn lemma_pumps(
    secrets: Seq<Seq<char>>,
    st: PumpView,
    chunks: Seq<Seq<u8>>,
    packets: Seq<Seq<Seq<char>>>,
)
    requires
        pumps(secrets, st, chunks, packets),
    ensures
        pumped(secrets, st, chunks) == Some(joined(in_order(packets))),
    decreases chunks.len(),
{
    let rest = packets.drop_first();
    lemma_joined_concat(packets[0], in_order(rest));
    if chunks.len() == 0 {
        assert(in_order(rest) =~= Seq::<Seq<char>>::empty());
        assert(joined(in_order(rest)) =~= Seq::<char>::empty());
        assert(joined(in_order(packets)) =~= joined(packets[0]));
    } else {
        lemma_pumps(secrets, held_back(secrets, st, chunks[0]), chunks.drop_first(), rest);
    }
}

/// What a client writes to its standard output, and to its standard error, is the redaction of
/// the whole of what the command wrote there, however that was read and cut into packets. No
/// secret is empty.
pub proof fn law_client_sees_the_redacted_output(
    secrets: Seq<Seq<char>>,
    stream: OutputStream,
    chunks: Seq<Seq<u8>>,
    packets: Seq<Seq<Seq<char>>>,
)
    requires
        !has_empty(secrets),
        pumps(secrets, PumpView { bytes: seq![], text: seq![] }, chunks, packets),
    ensures
        valid_utf8(all_bytes(chunks)),
        printed(stream, passed_on(stream, in_order(packets))) == redaction(
            secrets,
            decode_utf8(all_bytes(chunks)),
            MARK@,
        ),
{
    let st = PumpView { bytes: seq![], text: seq![] };
    lemma_pumps(secrets, st, chunks, packets);
    law_chunks_are_redacted_as_a_whole(secrets, chunks);
    lemma_passed_on(stream, in_order(packets));
    law_output_streams_stay_separate(stream, passed_on(stream, in_order(packets)));
}

} // verus!
