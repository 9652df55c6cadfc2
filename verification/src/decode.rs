//! From the bytes read off a socket to the text that the parser works on.

use vstd::prelude::*;
use vstd::slice::*;
use vstd::utf8::valid_utf8;

verus! {

/// The size of the read buffer. A connection is served from what one read
/// delivers; anything beyond this many bytes is ignored.
pub const READ_LIMIT: usize = 512;

/// The UTF-8 bytes of the string that `String::from_utf8_lossy` makes of
/// `bytes`.
pub uninterp spec fn lossy_text(bytes: Seq<u8>) -> Seq<u8>;

/// Calls `std::str::from_utf8` and reports whether it accepted the bytes.
///
/// Trusted: the standard library accepts exactly the well-formed UTF-8 byte
/// strings, which is what `valid_utf8` defines.
#[verifier::external_body]
pub(crate) fn is_utf8(bytes: &[u8]) -> (ok: bool)
    ensures
        ok == valid_utf8(bytes@),
{
    std::str::from_utf8(bytes).is_ok()
}

/// Calls `String::from_utf8_lossy`, which replaces each ill-formed sequence by
/// U+FFFD, and hands back the bytes of the string it built.
///
/// Trusted: the result is a function of the bytes alone. Nothing else is
/// claimed of it; callers use it only on input that is not valid UTF-8.
#[verifier::external_body]
fn decode_lossy(bytes: &[u8]) -> (out: Vec<u8>)
    ensures
        out@ == lossy_text(bytes@),
{
    String::from_utf8_lossy(bytes).into_owned().into_bytes()
}

/// The part of `input` that fits the read buffer.
pub open spec fn clipped(input: Seq<u8>) -> Seq<u8> {
    if input.len() <= READ_LIMIT {
        input
    } else {
        input.take(READ_LIMIT as int)
    }
}

/// The request text for `input`: the clipped input itself where it is valid
/// UTF-8, and its lossy decoding otherwise.
pub open spec fn decoded(input: Seq<u8>) -> Seq<u8> {
    if valid_utf8(clipped(input)) {
        clipped(input)
    } else {
        lossy_text(clipped(input))
    }
}

/// Clips `input` to the read buffer and decodes it permissively: ill-formed
/// sequences are replaced, never rejected.
pub fn decode(input: &[u8]) -> (out: Vec<u8>)
    ensures
        out@ == decoded(input@),
{
    let kept = if input.len() <= READ_LIMIT {
        assert(input@.subrange(0, input@.len() as int) =~= input@);
        input
    } else {
        slice_subrange(input, 0, READ_LIMIT)
    };
    if is_utf8(kept) {
        slice_to_vec(kept)
    } else {
        decode_lossy(kept)
    }
}

} // verus!
