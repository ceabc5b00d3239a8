//! The packets of a stream, and the budget of the bytes that are under way.

use crate::text::{char_width, chars_of, joined, text_of, texts};
use tokio::sync::OwnedSemaphorePermit;
use vstd::prelude::*;
use vstd::utf8::*;

verus! {

/// The most bytes of one packet.
pub const DEFAULT_CHUNK_BYTES: usize = 8 * 1024;

/// The most packets that wait in a queue.
pub const DEFAULT_PACKET_QUEUE_CAPACITY: usize = 128;

/// The most bytes that are under way.
pub const DEFAULT_MAX_UNCONFIRMED_BYTES: usize = 128 * 1024;

/// A share of the byte budget, which is given back when it is dropped.
#[verifier::external_type_specification]
#[verifier::external_body]
pub struct ExOwnedSemaphorePermit(OwnedSemaphorePermit);

/// An item of a queue. While it waits, it holds its share of the byte budget.
pub struct QueuedItem<T> {
    pub item: T,
    pub permit: Option<OwnedSemaphorePermit>,
}

impl<T> QueuedItem<T> {
    /// An item that takes nothing of the budget.
    pub fn unbounded(item: T) -> (q: QueuedItem<T>)
        ensures
            q.item == item,
            q.permit is None,
    {
        QueuedItem { item, permit: None }
    }

    /// An item that holds a share of the budget.
    pub fn with_permit(item: T, permit: OwnedSemaphorePermit) -> (q: QueuedItem<T>)
        ensures
            q.item == item,
            q.permit == Some(permit),
    {
        QueuedItem { item, permit: Some(permit) }
    }
}

/// The share of the budget that an item of so many bytes takes: one for each byte, modulo the
/// number of values of `u32`. A packet takes no more than there is.
pub fn permits_of(bytes: usize) -> (n: u32)
    ensures
        n as int == bytes as int % 0x1_0000_0000,
        bytes <= DEFAULT_CHUNK_BYTES ==> n == bytes && n <= DEFAULT_MAX_UNCONFIRMED_BYTES,
{
    (bytes as u64 % 0x1_0000_0000) as u32
}

/// Whether `parts` are the packets of the characters `t`: in order they make up `t`, none is
/// empty, each is at most as long as a packet may be, and each is as long as the next character
/// lets it be.
pub open spec fn is_packets(t: Seq<char>, parts: Seq<Seq<char>>) -> bool {
    &&& joined(parts) == t
    &&& forall|i: int|
        0 <= i < parts.len() ==> (#[trigger] parts[i]).len() > 0 && encode_utf8(parts[i]).len()
            <= DEFAULT_CHUNK_BYTES
    &&& forall|i: int|
        0 <= i < parts.len() - 1 ==> encode_utf8(#[trigger] parts[i]).len() + encode_scalar(
            parts[i + 1][0] as u32,
        ).len() > DEFAULT_CHUNK_BYTES
}

proof fn lemma_encode_push(s: Seq<char>, c: char)
    ensures
        encode_utf8(s.push(c)) == encode_utf8(s) + encode_scalar(c as u32),
    decreases s.len(),
{
    if s.len() == 0 {
        assert(s.push(c).drop_first() =~= Seq::<char>::empty());
        assert(encode_utf8(Seq::<char>::empty()) =~= Seq::<u8>::empty());
        assert(encode_utf8(s) =~= Seq::<u8>::empty());
        reveal_with_fuel(encode_utf8, 2);
        assert(encode_utf8(s.push(c)) =~= encode_utf8(s) + encode_scalar(c as u32));
    } else {
        lemma_encode_push(s.drop_first(), c);
        assert(s.push(c).drop_first() == s.drop_first().push(c));
        assert(encode_utf8(s.push(c)) =~= encode_utf8(s) + encode_scalar(c as u32));
    }
}

/// Splits a text into packets.
pub fn split_text(text: &str) -> (parts: Vec<String>)
    ensures
        is_packets(text@, texts(parts@)),
{
    let chars = chars_of(text);
    let mut parts: Vec<String> = Vec::new();
    let mut at: usize = 0;
    assert(texts(parts@) =~= Seq::<Seq<char>>::empty());
    assert(chars@.take(0) =~= Seq::<char>::empty());
    while at < chars.len()
        invariant
            chars@ == text@,
            at <= chars@.len(),
            is_packets(chars@.take(at as int), texts(parts@)),
            at < chars@.len() && parts@.len() > 0 ==> encode_utf8(texts(parts@).last()).len()
                + encode_scalar(chars@[at as int] as u32).len() > DEFAULT_CHUNK_BYTES,
        decreases chars@.len() - at,
    {
        let from: usize = at;
        let mut bytes: usize = 0;
        assert(chars@.subrange(from as int, at as int) =~= Seq::<char>::empty());
        assert(encode_utf8(Seq::<char>::empty()) =~= Seq::<u8>::empty());
        while at < chars.len() && bytes + char_width(chars[at]) <= DEFAULT_CHUNK_BYTES
            invariant
                from <= at <= chars@.len(),
                from < chars@.len(),
                bytes == encode_utf8(chars@.subrange(from as int, at as int)).len(),
                bytes <= DEFAULT_CHUNK_BYTES,
                at == from ==> bytes == 0,
            ensures
                from < at <= chars@.len(),
                bytes == encode_utf8(chars@.subrange(from as int, at as int)).len(),
                bytes <= DEFAULT_CHUNK_BYTES,
                at < chars@.len() ==> bytes + encode_scalar(chars@[at as int] as u32).len()
                    > DEFAULT_CHUNK_BYTES,
            decreases chars@.len() - at,
        {
            proof {
                lemma_encode_push(chars@.subrange(from as int, at as int), chars@[at as int]);
                assert(chars@.subrange(from as int, at + 1) == chars@.subrange(
                    from as int,
                    at as int,
                ).push(chars@[at as int]));
            }
            bytes += char_width(chars[at]);
            at += 1;
        }
        let part = text_of(chars.as_slice(), from, at);
        proof {
            let before = texts(parts@);
            let now = before.push(part@);
            assert(texts(parts@.push(part)) == now);
            assert(now.drop_last() == before);
            assert(now.last() == part@);
            assert(chars@.take(at as int) == chars@.take(from as int) + part@);
            assert forall|i: int| 0 <= i < now.len() - 1 implies encode_utf8(
                #[trigger] now[i],
            ).len() + encode_scalar(now[i + 1][0] as u32).len() > DEFAULT_CHUNK_BYTES by {
                if i < before.len() - 1 {
                    assert(now[i] == before[i]);
                    assert(now[i + 1] == before[i + 1]);
                } else {
                    assert(now[i] == before.last());
                    assert(now[i + 1][0] == chars@[from as int]);
                }
            }
        }
        parts.push(part);
    }
    assert(chars@.take(at as int) == chars@);
    parts
}

/// The bytes of packets, one after another.
pub open spec fn all_bytes(parts: Seq<Seq<u8>>) -> Seq<u8>
    decreases parts.len(),
{
    if parts.len() == 0 {
        seq![]
    } else {
        parts[0] + all_bytes(parts.drop_first())
    }
}

/// The packets of `data`: each but the last is as long as a packet may be.
pub open spec fn packets(data: Seq<u8>) -> Seq<Seq<u8>>
    decreases data.len(),
{
    let size = DEFAULT_CHUNK_BYTES as int;
    if data.len() == 0 {
        seq![]
    } else if data.len() <= size {
        seq![data]
    } else {
        seq![data.take(size)] + packets(data.skip(size))
    }
}

/// What the packets of a list hold.
pub open spec fn byte_views(parts: Seq<Vec<u8>>) -> Seq<Seq<u8>> {
    parts.map_values(|p: Vec<u8>| p@)
}

/// The packets of some data hold all of it in order, and none of them is empty or too long.
pub proof fn law_packets_hold_the_data(data: Seq<u8>)
    ensures
        all_bytes(packets(data)) == data,
        forall|i: int|
            0 <= i < packets(data).len() ==> 0 < (#[trigger] packets(data)[i]).len()
                <= DEFAULT_CHUNK_BYTES,
    decreases data.len(),
{
    let size = DEFAULT_CHUNK_BYTES as int;
    if data.len() > size {
        let rest = data.skip(size);
        law_packets_hold_the_data(rest);
        let all = packets(data);
        assert(all.drop_first() == packets(rest));
        assert(data.take(size) + rest == data);
        assert forall|i: int| 0 <= i < all.len() implies 0 < (#[trigger] all[i]).len()
            <= DEFAULT_CHUNK_BYTES by {
            if i > 0 {
                assert(all[i] == packets(rest)[i - 1]);
            }
        }
    } else if data.len() > 0 {
        let all = packets(data);
        assert(all.drop_first() =~= Seq::<Seq<u8>>::empty());
        assert(all_bytes(all.drop_first()) =~= Seq::<u8>::empty());
        assert(all_bytes(all) =~= data);
    }
}

/// Splits data into packets.
pub fn split_bytes(data: &[u8]) -> (parts: Vec<Vec<u8>>)
    ensures
        byte_views(parts@) == packets(data@),
{
    let mut parts: Vec<Vec<u8>> = Vec::new();
    let total: usize = data.len();
    let mut at: usize = 0;
    assert(data@.skip(0) =~= data@);
    assert(byte_views(parts@) + packets(data@) =~= packets(data@));
    while at < total
        invariant
            at <= data@.len() == total,
            byte_views(parts@) + packets(data@.skip(at as int)) == packets(data@),
        decreases data@.len() - at,
    {
        let left: usize = total - at;
        let n: usize = if left <= DEFAULT_CHUNK_BYTES {
            left
        } else {
            DEFAULT_CHUNK_BYTES
        };
        let ghost rest = data@.skip(at as int);
        let ghost before = byte_views(parts@);
        let mut part: Vec<u8> = Vec::new();
        let mut i: usize = 0;
        while i < n
            invariant
                i <= n,
                at + n <= total == data@.len(),
                part@ == data@.subrange(at as int, at + i),
            decreases n - i,
        {
            part.push(data[at + i]);
            i += 1;
            assert(data@.subrange(at as int, at + i) == data@.subrange(at as int, at + i - 1).push(
                data@[at + i - 1],
            ));
        }
        let ghost packet = part@;
        parts.push(part);
        at += n;
        proof {
            let behind = data@.skip(at as int);
            assert(packet == rest.take(n as int));
            assert(behind == rest.skip(n as int));
            assert(byte_views(parts@) == before.push(packet));
            if rest.len() <= DEFAULT_CHUNK_BYTES {
                assert(packet == rest);
                assert(packets(behind) =~= Seq::<Seq<u8>>::empty());
            }
            assert(packets(rest) == seq![packet] + packets(behind));
            assert(before + (seq![packet] + packets(behind)) == before.push(packet) + packets(
                behind,
            ));
        }
    }
    assert(packets(data@.skip(at as int)) =~= Seq::<Seq<u8>>::empty());
    assert(byte_views(parts@) + Seq::<Seq<u8>>::empty() == byte_views(parts@));
    parts
}

} // verus!
