//! Reading the BCEL OneProof code.
use vstd::prelude::*;

use crate::parser::{accepted_pairs, lemma_lookup_parsed, parse, value_at};
use crate::tlv::same_text;

verus! {

/// The fields of a BCEL OneProof code; each may be missing.
#[derive(Debug, Clone, PartialEq)]
pub struct BcelOneProofData {
    /// Transaction type
    pub txn_type: Option<String>,
    /// Ticket number
    pub ticket: Option<String>,
    /// Reference number
    pub fccref: Option<String>,
}

/// The type, ticket and reference of a BCEL OneProof code, each where
/// present, or `None` where the payload is not one.
pub open spec fn bcel_fields(s: Seq<char>) -> Option<
    (Option<Seq<char>>, Option<Seq<char>>, Option<Seq<char>>),
> {
    match accepted_pairs(s, true) {
        None => None,
        Some(pairs) => match (
            value_at(pairs, "00"@, None, true),
            value_at(pairs, "01"@, None, true),
            value_at(pairs, "33"@, Some("00"@), true),
        ) {
            (Some(t00), Some(t01), Some(t33)) => if t00 == "01"@ && t01 == "11"@ && (t33
                == "BCEL"@ || t33 == "ONEPROOF"@) {
                Some(
                    (
                        value_at(pairs, "33"@, Some("02"@), true),
                        value_at(pairs, "33"@, Some("03"@), true),
                        value_at(pairs, "33"@, Some("04"@), true),
                    ),
                )
            } else {
                None
            },
            _ => None,
        },
    }
}

/// The text of an optional owned string.
pub open spec fn opt_string_text(s: Option<String>) -> Option<Seq<char>> {
    match s {
        Some(t) => Some(t@),
        None => None,
    }
}

fn owned(s: Option<&str>) -> (r: Option<String>)
    ensures
        opt_string_text(r) == crate::tlv::opt_text(s),
{
    match s {
        Some(t) => Some(String::from_str(t)),
        None => None,
    }
}

/// Checks a BCEL OneProof code in strict mode and extracts its type, ticket
/// and reference. Tag `00` must be `01`, tag `01` must be `11`, and sub-tag
/// `00` of tag `33` must be `BCEL` or `ONEPROOF`.
pub fn bcel_one_proof(payload: &str) -> (r: Option<BcelOneProofData>)
    ensures
        match bcel_fields(payload@) {
            Some((txn_type, ticket, fccref)) => r is Some && opt_string_text(r->0.txn_type)
                == txn_type && opt_string_text(r->0.ticket) == ticket && opt_string_text(
                r->0.fccref,
            ) == fccref,
            None => r is None,
        },
{
    let qr = match parse(payload, true, true) {
        Some(qr) => qr,
        None => {
            return None;
        },
    };
    let ghost pairs = accepted_pairs(payload@, true)->0;
    proof {
        lemma_lookup_parsed(qr.spec_tags(), pairs, true, "33"@, Some("02"@));
        lemma_lookup_parsed(qr.spec_tags(), pairs, true, "33"@, Some("03"@));
        lemma_lookup_parsed(qr.spec_tags(), pairs, true, "33"@, Some("04"@));
        lemma_lookup_parsed(qr.spec_tags(), pairs, true, "00"@, None);
        lemma_lookup_parsed(qr.spec_tags(), pairs, true, "01"@, None);
        lemma_lookup_parsed(qr.spec_tags(), pairs, true, "33"@, Some("00"@));
    }
    let txn_type = owned(qr.get_tag_value("33", Some("02")));
    let ticket = owned(qr.get_tag_value("33", Some("03")));
    let fccref = owned(qr.get_tag_value("33", Some("04")));
    let tag_00 = match qr.get_tag_value("00", None) {
        Some(v) => v,
        None => {
            return None;
        },
    };
    let tag_01 = match qr.get_tag_value("01", None) {
        Some(v) => v,
        None => {
            return None;
        },
    };
    let tag_33_00 = match qr.get_tag_value("33", Some("00")) {
        Some(v) => v,
        None => {
            return None;
        },
    };
    if !same_text(tag_00, "01") || !same_text(tag_01, "11") {
        return None;
    }
    if !same_text(tag_33_00, "BCEL") && !same_text(tag_33_00, "ONEPROOF") {
        return None;
    }
    Some(BcelOneProofData { txn_type, ticket, fccref })
}

} // verus!
