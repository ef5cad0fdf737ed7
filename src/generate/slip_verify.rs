//! The slip verification code printed on transfer slips.
use vstd::prelude::*;

use crate::tlv::{
    encode, encode_pairs, lemma_encode_leaves, leaves_of, tag, with_crc_tag, with_crc_tag_spec,
};

verus! {

/// What a slip verification code carries.
#[derive(Debug, Clone)]
pub struct SlipVerifyConfig {
    /// Bank code
    pub sending_bank: String,
    /// Transaction reference
    pub trans_ref: String,
}

/// The pairs of the slip's tag `00`.
pub open spec fn slip_inner_pairs(sending_bank: Seq<char>, trans_ref: Seq<char>) -> Seq<
    (Seq<char>, Seq<char>),
> {
    seq![("00"@, "000001"@), ("01"@, sending_bank), ("02"@, trans_ref)]
}

/// The full slip verification code for these fields.
pub open spec fn slip_verify_spec(sending_bank: Seq<char>, trans_ref: Seq<char>) -> Seq<char> {
    with_crc_tag_spec(
        encode_pairs(
            seq![("00"@, encode_pairs(slip_inner_pairs(sending_bank, trans_ref))), ("51"@, "TH"@)],
        ),
        "91"@,
        true,
    )
}

/// Builds a slip verification code: tag `00` holds the API type `000001`,
/// the bank code and the transaction reference, tag `51` the country `TH`,
/// and checksum tag `91` ends it in upper case.
pub fn slip_verify(config: SlipVerifyConfig) -> (r: String)
    ensures
        r@ == slip_verify_spec(config.sending_bank@, config.trans_ref@),
{
    let inner = vec![
        tag("00", "000001"),
        tag("01", config.sending_bank.as_str()),
        tag("02", config.trans_ref.as_str()),
    ];
    let ghost inner_pairs = slip_inner_pairs(config.sending_bank@, config.trans_ref@);
    assert(leaves_of(inner@, inner_pairs));
    let inner_text = encode(inner.as_slice());
    proof {
        lemma_encode_leaves(inner@, inner_pairs);
    }
    let outer = vec![tag("00", inner_text.as_str()), tag("51", "TH")];
    let ghost outer_pairs = seq![("00"@, inner_text@), ("51"@, "TH"@)];
    assert(leaves_of(outer@, outer_pairs));
    let outer_text = encode(outer.as_slice());
    proof {
        lemma_encode_leaves(outer@, outer_pairs);
    }
    with_crc_tag(outer_text.as_str(), "91", true)
}

} // verus!
