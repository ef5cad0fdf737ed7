//! Reading the slip verification code of the TrueMoney wallet.
use vstd::prelude::*;

use crate::parser::{accepted_pairs, lemma_lookup_parsed, parse, value_at};
use crate::tlv::same_text;

verus! {

/// The fields of a TrueMoney slip verification code.
#[derive(Debug, Clone, PartialEq)]
pub struct TrueMoneySlipVerifyData {
    pub event_type: String,
    pub transaction_id: String,
    pub date: String,
}

/// The event type, transaction id and date of a TrueMoney slip
/// verification code, or `None` where it is not one.
pub open spec fn true_money_slip_fields(s: Seq<char>) -> Option<(Seq<char>, Seq<char>, Seq<char>)> {
    match accepted_pairs(s, true) {
        None => None,
        Some(pairs) => match (
            value_at(pairs, "00"@, Some("00"@), true),
            value_at(pairs, "00"@, Some("01"@), true),
            value_at(pairs, "00"@, Some("02"@), true),
            value_at(pairs, "00"@, Some("03"@), true),
            value_at(pairs, "00"@, Some("04"@), true),
        ) {
            (Some(a), Some(b), Some(event), Some(id), Some(date)) => if a == "01"@ && b == "01"@ {
                Some((event, id, date))
            } else {
                None
            },
            _ => None,
        },
    }
}

/// Checks a TrueMoney slip verification code in strict mode and extracts
/// its event type, transaction id and date. Sub-tags `00` and `01` of tag
/// `00` must both be `01`.
pub fn true_money_slip_verify(payload: &str) -> (r: Option<TrueMoneySlipVerifyData>)
    ensures
        match true_money_slip_fields(payload@) {
            Some((event, id, date)) => r is Some && r->0.event_type@ == event
                && r->0.transaction_id@ == id && r->0.date@ == date,
            None => r is None,
        },
{
    let qr = match parse(payload, true, true) {
        Some(qr) => qr,
        None => {
            return None;
        },
    };
    let ghost pairs = accepted_pairs(payload@, true)->0;
    proof {
        lemma_lookup_parsed(qr.spec_tags(), pairs, true, "00"@, Some("00"@));
        lemma_lookup_parsed(qr.spec_tags(), pairs, true, "00"@, Some("01"@));
        lemma_lookup_parsed(qr.spec_tags(), pairs, true, "00"@, Some("02"@));
        lemma_lookup_parsed(qr.spec_tags(), pairs, true, "00"@, Some("03"@));
        lemma_lookup_parsed(qr.spec_tags(), pairs, true, "00"@, Some("04"@));
    }
    let tag00 = match qr.get_tag_value("00", Some("00")) {
        Some(v) => v,
        None => {
            return None;
        },
    };
    let tag01 = match qr.get_tag_value("00", Some("01")) {
        Some(v) => v,
        None => {
            return None;
        },
    };
    if !same_text(tag00, "01") || !same_text(tag01, "01") {
        return None;
    }
    let event_type = match qr.get_tag_value("00", Some("02")) {
        Some(v) => v,
        None => {
            return None;
        },
    };
    let transaction_id = match qr.get_tag_value("00", Some("03")) {
        Some(v) => v,
        None => {
            return None;
        },
    };
    let date = match qr.get_tag_value("00", Some("04")) {
        Some(v) => v,
        None => {
            return None;
        },
    };
    Some(
        TrueMoneySlipVerifyData {
            event_type: String::from_str(event_type),
            transaction_id: String::from_str(transaction_id),
            date: String::from_str(date),
        },
    )
}

} // verus!
