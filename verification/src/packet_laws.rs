//! What holds of the packets of a stream.

use crate::stream_queue::{
    all_bytes, is_packets, packets, DEFAULT_CHUNK_BYTES, DEFAULT_MAX_UNCONFIRMED_BYTES,
    DEFAULT_PACKET_QUEUE_CAPACITY,
};
use crate::text::joined;
use vstd::prelude::*;
use vstd::utf8::*;

verus! {

/// The byte budget is that of sixteen full packets, and a queue has room for more packets than
/// these.
pub proof fn law_budget_is_sixteen_full_packets()
    ensures
        DEFAULT_CHUNK_BYTES == 8192,
        DEFAULT_MAX_UNCONFIRMED_BYTES == 16 * DEFAULT_CHUNK_BYTES,
        DEFAULT_PACKET_QUEUE_CAPACITY == 128,
{
}

/// The bytes of two lists of packets are those of the one and then those of the other.
pub proof fn law_bytes_stand_in_order(a: Seq<Seq<u8>>, b: Seq<Seq<u8>>, part: Seq<u8>)
    ensures
        all_bytes(Seq::<Seq<u8>>::empty()).len() == 0,
        all_bytes(seq![part]) == part,
        all_bytes(a + b) == all_bytes(a) + all_bytes(b),
    decreases a.len(),
{
    let one = seq![part];
    assert(one.drop_first() =~= Seq::<Seq<u8>>::empty());
    assert(all_bytes(one.drop_first()) =~= Seq::<u8>::empty());
    assert(all_bytes(one) =~= part);
    if a.len() == 0 {
        assert(a + b == b);
        assert(all_bytes(a) + all_bytes(b) =~= all_bytes(b));
    } else {
        law_bytes_stand_in_order(a.drop_first(), b, part);
        assert((a + b).drop_first() == a.drop_first() + b);
        assert(all_bytes(a + b) =~= all_bytes(a) + all_bytes(b));
    }
}

/// Data of up to 8 KiB is one packet, and longer data is cut every 8 KiB: all packets but the
/// last are full.
pub proof fn law_packets_are_full(data: Seq<u8>, i: int)
    requires
        0 <= i < packets(data).len(),
    ensures
        data.len() <= 8192 ==> packets(data) == seq![data],
        i < packets(data).len() - 1 ==> packets(data)[i].len() == 8192,
        0 < packets(data)[i].len() <= 8192,
        packets(data)[i] == data.subrange(8192 * i, 8192 * i + packets(data)[i].len()),
        0 <= 8192 * i && 8192 * i + packets(data)[i].len() <= data.len(),
        i == packets(data).len() - 1 ==> 8192 * i + packets(data)[i].len() == data.len(),
    decreases data.len(),
{
    if data.len() > 8192 {
        let rest = data.skip(8192);
        let all = packets(data);
        assert(all == seq![data.take(8192)] + packets(rest));
        if i == 0 {
            assert(all[0] == data.take(8192));
            assert(data.take(8192) == data.subrange(0, 8192));
            assert(packets(rest).len() > 0);
        } else {
            assert(all[i] == packets(rest)[i - 1]);
            law_packets_are_full(rest, i - 1);
            let n = all[i].len();
            assert(rest.subrange(8192 * (i - 1), 8192 * (i - 1) + n) == data.subrange(
                8192 * i,
                8192 * i + n,
            ));
        }
    } else {
        assert(packets(data) == seq![data]);
        assert(data.subrange(0, data.len() as int) == data);
    }
}

/// The packets of a text hold all of it in order, none is empty or longer than 8 KiB, and none
/// but the last leaves room for a further character.
pub proof fn law_text_packets_are_full(t: Seq<char>, parts: Seq<Seq<char>>, i: int)
    requires
        is_packets(t, parts),
        0 <= i < parts.len(),
    ensures
        joined(parts) == t,
        parts[i].len() > 0,
        encode_utf8(parts[i]).len() <= 8192,
        i < parts.len() - 1 ==> encode_utf8(parts[i]).len() > 8192 - 4,
{
    if i < parts.len() - 1 {
        assert(encode_scalar(parts[i + 1][0] as u32).len() <= 4);
    }
}

} // verus!
