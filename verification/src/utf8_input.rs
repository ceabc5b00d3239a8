//! Reading UTF-8 text out of a byte stream whose chunks may split a character.

use vstd::prelude::*;
use vstd::slice::*;
use vstd::string::*;
use vstd::utf8::*;

verus! {

/// What a stream that is not UTF-8 is answered.
pub const NON_UTF8: &'static str = "non-UTF-8 stream data is unsupported; fail closed";

/// The length of the longest beginning of `bytes` that is UTF-8.
pub open spec fn valid_up_to(bytes: Seq<u8>) -> int
    decreases bytes.len(),
{
    if bytes.len() > 0 && valid_first_scalar(bytes) {
        length_of_first_scalar(bytes) + valid_up_to(pop_first_scalar(bytes))
    } else {
        0
    }
}

/// Whether `bytes` are the beginning of the encoding of a character, but not a whole one.
pub open spec fn incomplete_scalar(bytes: Seq<u8>) -> bool {
    bytes.len() > 0 && exists|c: char|
        bytes.len() < (#[trigger] encode_scalar(c as u32)).len() && bytes.is_prefix_of(
            encode_scalar(c as u32),
        )
}

/// Whether `bytes` are UTF-8 up to a last character that may still be coming in.
pub open spec fn readable(bytes: Seq<u8>) -> bool {
    valid_utf8(bytes) || incomplete_scalar(bytes.skip(valid_up_to(bytes)))
}

/// Where and how the reading of UTF-8 stopped.
pub struct Utf8Stop {
    /// The number of bytes before the stop, which are UTF-8.
    pub valid_up_to: usize,
    /// Whether what follows is the beginning of a character.
    pub incomplete: bool,
}

/// Calls `std::str::from_utf8`, with `Utf8Error::valid_up_to` and `Utf8Error::error_len` of its
/// error: the text of the bytes, or the length of their longest beginning that is UTF-8 and
/// whether the input ended inside a character, for which `error_len` gives no length.
#[verifier::external_body]
pub(crate) fn read_utf8(bytes: &[u8]) -> (r: Result<&str, Utf8Stop>)
    ensures
        match r {
            Ok(s) => encode_utf8(s@) == bytes@,
            Err(stop) => {
                &&& !valid_utf8(bytes@)
                &&& stop.valid_up_to == valid_up_to(bytes@)
                &&& stop.incomplete == incomplete_scalar(bytes@.skip(valid_up_to(bytes@)))
            },
        },
{
    match std::str::from_utf8(bytes) {
        Ok(s) => Ok(s),
        Err(e) => Err(Utf8Stop { valid_up_to: e.valid_up_to(), incomplete: e.error_len().is_none() }),
    }
}

/// The number of bytes of a text.
pub fn byte_len(s: &str) -> (n: usize)
    ensures
        n == encode_utf8(s@).len(),
{
    let bytes = s.as_bytes();
    bytes.len()
}

/// The longest beginning that is UTF-8 is one, and it is all of the bytes where they are UTF-8.
pub proof fn lemma_valid_up_to(bytes: Seq<u8>)
    ensures
        0 <= valid_up_to(bytes) <= bytes.len(),
        valid_utf8(bytes.take(valid_up_to(bytes))),
        valid_up_to(bytes) == bytes.len() <==> valid_utf8(bytes),
    decreases bytes.len(),
{
    if bytes.len() > 0 && valid_first_scalar(bytes) {
        let n = length_of_first_scalar(bytes);
        let rest = pop_first_scalar(bytes);
        lemma_valid_up_to(rest);
        let v = valid_up_to(rest);
        let whole = bytes.take(n + v);
        assert(valid_first_scalar(whole));
        assert(pop_first_scalar(whole) == rest.take(v));
    }
}

/// A beginning that is UTF-8 can be read by itself.
pub proof fn lemma_valid_up_to_behind(a: Seq<u8>, b: Seq<u8>)
    requires
        valid_utf8(a),
    ensures
        valid_up_to(a + b) == a.len() + valid_up_to(b),
    decreases a.len(),
{
    if a.len() == 0 {
        assert(a + b == b);
    } else {
        let rest = pop_first_scalar(a);
        lemma_valid_up_to_behind(rest, b);
        assert(valid_first_scalar(a + b));
        assert(pop_first_scalar(a + b) == rest + b);
    }
}

/// Moves the text that can be read from `utf8_pending` to the end of `text_out`, and leaves the
/// beginning of a last character for later. Bytes that no continuation can make UTF-8 are
/// refused, and nothing is moved.
pub fn drain_utf8_into_text(utf8_pending: &mut Vec<u8>, text_out: &mut String) -> (r: Result<
    (),
    String,
>)
    ensures
        r is Ok <==> readable(old(utf8_pending)@),
        r is Ok ==> {
            let v = valid_up_to(old(utf8_pending)@);
            &&& final(utf8_pending)@ == old(utf8_pending)@.skip(v)
            &&& final(text_out)@ == old(text_out)@ + decode_utf8(old(utf8_pending)@.take(v))
        },
        r matches Err(message) ==> {
            &&& message@ == NON_UTF8@
            &&& final(utf8_pending)@ == old(utf8_pending)@
            &&& final(text_out)@ == old(text_out)@
        },
{
    proof {
        lemma_valid_up_to(utf8_pending@);
    }
    let ghost bytes = utf8_pending@;
    let stop = match read_utf8(utf8_pending.as_slice()) {
        Ok(s) => {
            text_out.append(s);
            proof {
                encode_utf8_valid_utf8(s@);
                encode_utf8_decode_utf8(s@);
                assert(bytes.take(bytes.len() as int) == bytes);
                assert(bytes.skip(bytes.len() as int) == Seq::<u8>::empty());
            }
            None
        },
        Err(stop) => Some(stop),
    };
    match stop {
        None => {
            utf8_pending.clear();
            Ok(())
        },
        Some(stop) => {
            if !stop.incomplete {
                return Err(NON_UTF8.to_owned());
            }
            let valid: usize = stop.valid_up_to;
            let rest = utf8_pending.split_off(valid);
            match read_utf8(utf8_pending.as_slice()) {
                Ok(s) => {
                    text_out.append(s);
                    proof {
                        encode_utf8_decode_utf8(s@);
                    }
                },
                Err(_) => {
                    assert(false);
                },
            }
            *utf8_pending = rest;
            Ok(())
        },
    }
}

} // verus!
