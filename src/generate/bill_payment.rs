//! The PromptPay bill payment code (tag `30`).
use vstd::prelude::*;

use crate::error::PromptParseError;
use crate::generate::fields::{amount_pairs, header_pairs, header_tags, push_amount};
use crate::tlv::{encode_leaves, encode_pairs, leaves_of, tag, with_crc_tag, with_crc_tag_spec};

verus! {

/// What a bill payment code carries.
#[derive(Debug, Clone)]
pub struct BillPaymentConfig {
    /// Biller id: national or tax id and a suffix
    pub biller_id: String,
    /// Transaction amount in hundredths of the currency unit
    pub amount: Option<i64>,
    /// Reference 1
    pub ref1: String,
    /// Reference 2
    pub ref2: Option<String>,
    /// Reference 3, carried in tag `62`
    pub ref3: Option<String>,
}

/// The pairs of the code's tag `30`.
pub open spec fn bill_inner_pairs(
    biller_id: Seq<char>,
    ref1: Seq<char>,
    ref2: Option<String>,
) -> Seq<(Seq<char>, Seq<char>)> {
    seq![("00"@, "A000000677010112"@), ("01"@, biller_id), ("02"@, ref1)] + match ref2 {
        Some(r) => seq![("03"@, r@)],
        None => Seq::empty(),
    }
}

/// The additional-data tag `62` holding reference 3, where there is one.
pub open spec fn ref3_pairs(ref3: Option<String>) -> Seq<(Seq<char>, Seq<char>)> {
    match ref3 {
        Some(r) => seq![("62"@, encode_pairs(seq![("07"@, r@)]))],
        None => Seq::empty(),
    }
}

/// The full bill payment code.
pub open spec fn bill_payment_spec(
    biller_id: Seq<char>,
    amount: Option<i64>,
    ref1: Seq<char>,
    ref2: Option<String>,
    ref3: Option<String>,
) -> Seq<char> {
    with_crc_tag_spec(
        encode_pairs(
            header_pairs(amount, "30"@, encode_pairs(bill_inner_pairs(biller_id, ref1, ref2)))
                + amount_pairs(amount) + ref3_pairs(ref3),
        ),
        "63"@,
        true,
    )
}

/// Builds a PromptPay bill payment code: tag `30` holds the application id,
/// the biller id, reference 1 and, where given, reference 2; an amount adds
/// tag `54`, a reference 3 adds tag `62`; checksum tag `63` ends it in upper
/// case.
pub fn bill_payment(config: BillPaymentConfig) -> (r: Result<String, PromptParseError>)
    ensures
        r is Ok,
        r->Ok_0@ == bill_payment_spec(
            config.biller_id@,
            config.amount,
            config.ref1@,
            config.ref2,
            config.ref3,
        ),
{
    let mut inner = vec![
        tag("00", "A000000677010112"),
        tag("01", config.biller_id.as_str()),
        tag("02", config.ref1.as_str()),
    ];
    let ghost first = seq![
        ("00"@, "A000000677010112"@),
        ("01"@, config.biller_id@),
        ("02"@, config.ref1@),
    ];
    assert(leaves_of(inner@, first));
    if let Some(ref2) = &config.ref2 {
        inner.push(tag("03", ref2.as_str()));
    } else {
        assert(first + Seq::empty() =~= first);
    }
    let ghost inner_pairs = bill_inner_pairs(config.biller_id@, config.ref1@, config.ref2);
    assert(leaves_of(inner@, inner_pairs));
    let inner_text = encode_leaves(&inner, Ghost(inner_pairs));
    let mut payload = header_tags(config.amount, "30", inner_text.as_str());
    let ghost head = header_pairs(config.amount, "30"@, inner_text@);
    push_amount(&mut payload, config.amount, Ghost(head));
    let ghost with_amount = head + amount_pairs(config.amount);
    if let Some(ref3) = &config.ref3 {
        let extra = vec![tag("07", ref3.as_str())];
        let ghost extra_pairs = seq![("07"@, ref3@)];
        assert(leaves_of(extra@, extra_pairs));
        let extra_text = encode_leaves(&extra, Ghost(extra_pairs));
        payload.push(tag("62", extra_text.as_str()));
    } else {
        assert(with_amount + Seq::empty() =~= with_amount);
    }
    let ghost all = with_amount + ref3_pairs(config.ref3);
    assert(leaves_of(payload@, all));
    let text = encode_leaves(&payload, Ghost(all));
    Ok(with_crc_tag(text.as_str(), "63", true))
}

} // verus!
