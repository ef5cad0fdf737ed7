//! The TrueMoney wallet transfer code.
use vstd::prelude::*;

use crate::generate::fields::{amount_pairs, header_pairs, header_tags, push_amount};
use crate::tlv::{encode_leaves, encode_pairs, leaves_of, tag, with_crc_tag, with_crc_tag_spec};
use crate::utils::encoder::{encode_tag81, tag81_spec};

verus! {

/// What a TrueMoney transfer code carries.
#[derive(Debug, Clone)]
pub struct TrueMoneyConfig {
    /// Mobile number
    pub mobile_no: String,
    /// Transaction amount in hundredths of the currency unit
    pub amount: Option<i64>,
    /// Personal message, carried in tag `81`
    pub message: Option<String>,
}

/// The pairs of the code's tag `29`: the wallet id is `14000` and the number.
pub open spec fn true_money_inner_pairs(mobile_no: Seq<char>) -> Seq<(Seq<char>, Seq<char>)> {
    seq![("00"@, "A000000677010111"@), ("03"@, "14000"@ + mobile_no)]
}

/// The message tag `81`, where there is a message.
pub open spec fn message_pairs(message: Option<String>) -> Seq<(Seq<char>, Seq<char>)> {
    match message {
        Some(m) => seq![("81"@, tag81_spec(m@))],
        None => Seq::empty(),
    }
}

/// The full TrueMoney transfer code.
pub open spec fn true_money_spec(
    mobile_no: Seq<char>,
    amount: Option<i64>,
    message: Option<String>,
) -> Seq<char> {
    with_crc_tag_spec(
        encode_pairs(
            header_pairs(amount, "29"@, encode_pairs(true_money_inner_pairs(mobile_no)))
                + amount_pairs(amount) + message_pairs(message),
        ),
        "63"@,
        true,
    )
}

/// Builds a TrueMoney transfer code: an e-wallet AnyID code for the wallet
/// id `14000` and the number, with the message, where given, in tag `81`;
/// checksum tag `63` ends it in upper case.
pub fn true_money(config: TrueMoneyConfig) -> (r: String)
    ensures
        r@ == true_money_spec(config.mobile_no@, config.amount, config.message),
{
    let mut wallet = String::from_str("14000");
    wallet.append(config.mobile_no.as_str());
    let inner = vec![tag("00", "A000000677010111"), tag("03", wallet.as_str())];
    let ghost inner_pairs = true_money_inner_pairs(config.mobile_no@);
    assert(leaves_of(inner@, inner_pairs));
    let inner_text = encode_leaves(&inner, Ghost(inner_pairs));
    let mut payload = header_tags(config.amount, "29", inner_text.as_str());
    let ghost head = header_pairs(config.amount, "29"@, inner_text@);
    push_amount(&mut payload, config.amount, Ghost(head));
    let ghost with_amount = head + amount_pairs(config.amount);
    if let Some(message) = &config.message {
        let encoded = encode_tag81(message.as_str());
        payload.push(tag("81", encoded.as_str()));
    } else {
        assert(with_amount + Seq::empty() =~= with_amount);
    }
    let ghost all = with_amount + message_pairs(config.message);
    assert(leaves_of(payload@, all));
    let text = encode_leaves(&payload, Ghost(all));
    with_crc_tag(text.as_str(), "63", true)
}

} // verus!
