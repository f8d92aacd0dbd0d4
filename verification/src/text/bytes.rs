//! Text in byte buffers.
use vstd::prelude::*;
use vstd::utf8::{decode_utf8, valid_utf8};

verus! {

/// The position of the first zero byte from `i` on, or the length where there is none.
pub open spec fn first_zero(bytes: Seq<u8>, i: int) -> int
    decreases bytes.len() - i,
{
    if 0 <= i < bytes.len() && bytes[i] != 0 {
        first_zero(bytes, i + 1)
    } else {
        i
    }
}

/// The position found is that of a zero byte with none before it, or the end where there
/// is none at all.
pub proof fn first_zero_is_the_first(bytes: Seq<u8>, i: int)
    requires
        0 <= i <= bytes.len(),
    ensures
        i <= first_zero(bytes, i) <= bytes.len(),
        first_zero(bytes, i) < bytes.len() ==> bytes[first_zero(bytes, i)] == 0,
        forall|k: int| i <= k < first_zero(bytes, i) ==> #[trigger] bytes[k] != 0,
    decreases bytes.len() - i,
{
    if i < bytes.len() && bytes[i] != 0 {
        first_zero_is_the_first(bytes, i + 1);
    }
}

/// `String::from_utf8` gives the text that the bytes encode, and nothing (here) where
/// they are no valid UTF-8.
#[verifier::external_body]
fn from_utf8(bytes: Vec<u8>) -> (r: Option<String>)
    ensures
        r is Some <==> valid_utf8(bytes@),
        r matches Some(text) ==> text@ == decode_utf8(bytes@),
{
    String::from_utf8(bytes).ok()
}

/// The text before the first zero byte of a buffer, if there is such a byte and what
/// stands before it is UTF-8.
pub fn text_before_zero(buffer: &Vec<u8>) -> (r: Option<String>)
    ensures
        r is Some <==> first_zero(buffer@, 0) < buffer@.len() && valid_utf8(
            buffer@.take(first_zero(buffer@, 0)),
        ),
        r matches Some(text) ==> text@ == decode_utf8(buffer@.take(first_zero(buffer@, 0))),
{
    let mut bytes: Vec<u8> = Vec::new();
    let mut i: usize = 0;
    while i < buffer.len() && buffer[i] != 0
        invariant
            i <= buffer@.len(),
            first_zero(buffer@, i as int) == first_zero(buffer@, 0),
            bytes@ == buffer@.take(i as int),
        decreases buffer@.len() - i,
    {
        bytes.push(buffer[i]);
        assert(buffer@.take(i + 1) =~= buffer@.take(i as int).push(buffer@[i as int]));
        i = i + 1;
    }
    if i == buffer.len() {
        return None;
    }
    from_utf8(bytes)
}

} // verus!
