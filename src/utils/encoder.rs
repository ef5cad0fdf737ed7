//! The text encoding of the personal-message tag.
use vstd::prelude::*;

use crate::utils::digits::{append_padded_hex, padded_hex};

verus! {

/// Each character's code point as upper-case hexadecimal of at least four
/// digits, concatenated.
pub open spec fn tag81_spec(message: Seq<char>) -> Seq<char>
    decreases message.len(),
{
    if message.len() == 0 {
        Seq::empty()
    } else {
        tag81_spec(message.drop_last()) + padded_hex(message.last() as nat, 4, true)
    }
}

/// Encodes a message as the hexadecimal of its code points, four upper-case
/// digits (or more) per character.
pub fn encode_tag81(message: &str) -> (r: String)
    ensures
        r@ == tag81_spec(message@),
{
    let n = message.unicode_len();
    let mut out = String::new();
    let mut i: usize = 0;
    while i < n
        invariant
            n == message@.len(),
            i <= n,
            out@ == tag81_spec(message@.subrange(0, i as int)),
        decreases n - i,
    {
        let c = message.get_char(i);
        append_padded_hex(&mut out, c as u32, 4, true);
        assert(message@.subrange(0, i + 1).drop_last() == message@.subrange(0, i as int));
        i = i + 1;
    }
    assert(message@.subrange(0, n as int) == message@);
    out
}

} // verus!
