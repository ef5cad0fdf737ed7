//! The slip verification code of the TrueMoney wallet.
use vstd::prelude::*;

use crate::tlv::{
    encode, encode_pairs, lemma_encode_leaves, leaves_of, tag, with_crc_tag, with_crc_tag_spec,
};

verus! {

/// What a TrueMoney slip verification code carries.
#[derive(Debug, Clone)]
pub struct TrueMoneySlipVerifyConfig {
    /// Event type, such as `P2P`
    pub event_type: String,
    /// Transaction id
    pub transaction_id: String,
    /// Date as DDMMYYYY
    pub date: String,
}

/// The pairs of the slip's tag `00`.
pub open spec fn true_money_slip_inner_pairs(
    event_type: Seq<char>,
    transaction_id: Seq<char>,
    date: Seq<char>,
) -> Seq<(Seq<char>, Seq<char>)> {
    seq![
        ("00"@, "01"@),
        ("01"@, "01"@),
        ("02"@, event_type),
        ("03"@, transaction_id),
        ("04"@, date),
    ]
}

/// The full TrueMoney slip verification code for these fields.
pub open spec fn true_money_slip_verify_spec(
    event_type: Seq<char>,
    transaction_id: Seq<char>,
    date: Seq<char>,
) -> Seq<char> {
    with_crc_tag_spec(
        encode_pairs(
            seq![
                ("00"@, encode_pairs(true_money_slip_inner_pairs(event_type, transaction_id, date))),
            ],
        ),
        "91"@,
        false,
    )
}

/// Builds a TrueMoney slip verification code: tag `00` holds `01`, `01`,
/// the event type, the transaction id and the date; checksum tag `91` ends
/// it, in lower case.
pub fn true_money_slip_verify(config: TrueMoneySlipVerifyConfig) -> (r: String)
    ensures
        r@ == true_money_slip_verify_spec(
            config.event_type@,
            config.transaction_id@,
            config.date@,
        ),
{
    let inner = vec![
        tag("00", "01"),
        tag("01", "01"),
        tag("02", config.event_type.as_str()),
        tag("03", config.transaction_id.as_str()),
        tag("04", config.date.as_str()),
    ];
    let ghost inner_pairs = true_money_slip_inner_pairs(
        config.event_type@,
        config.transaction_id@,
        config.date@,
    );
    assert(leaves_of(inner@, inner_pairs));
    let inner_text = encode(inner.as_slice());
    proof {
        lemma_encode_leaves(inner@, inner_pairs);
    }
    let outer = vec![tag("00", inner_text.as_str())];
    let ghost outer_pairs = seq![("00"@, inner_text@)];
    assert(leaves_of(outer@, outer_pairs));
    let outer_text = encode(outer.as_slice());
    proof {
        lemma_encode_leaves(outer@, outer_pairs);
    }
    with_crc_tag(outer_text.as_str(), "91", false)
}

} // verus!
