//! Reading the slip verification code printed on transfer slips.
use vstd::prelude::*;

use crate::parser::{accepted_pairs, lemma_lookup_parsed, parse, value_at};
use crate::tlv::same_text;
use crate::utils::digits::{append_zero_padded, zero_pad};

verus! {

/// The fields of a slip verification code.
#[derive(Debug, Clone, PartialEq)]
pub struct SlipVerifyData {
    pub sending_bank: String,
    pub trans_ref: String,
}

/// The last position at or before `end` where the checksum header `9104`
/// starts in `s`.
pub open spec fn last_crc_header(s: Seq<char>, end: int) -> Option<int>
    decreases end + 1,
{
    if end < 0 {
        None
    } else if end + 4 <= s.len() && s.subrange(end, end + 4) == "9104"@ {
        Some(end)
    } else {
        last_crc_header(s, end - 1)
    }
}

/// `s` with a checksum of one to three characters after its last `9104`
/// zero-padded to four; otherwise `s` itself.
pub open spec fn pad_short_crc(s: Seq<char>) -> Seq<char> {
    match last_crc_header(s, s.len() - 4) {
        Some(idx) => if idx + 4 < s.len() && s.len() - (idx + 4) < 4 {
            s.subrange(0, idx + 4) + zero_pad(s.subrange(idx + 4, s.len() as int), 4)
        } else {
            s
        },
        None => s,
    }
}

/// The bank code and transaction reference of a slip verification code, or
/// `None` where it is not one.
pub open spec fn slip_fields(s: Seq<char>, crc_auto_fix: bool) -> Option<(Seq<char>, Seq<char>)> {
    let text = if crc_auto_fix {
        pad_short_crc(s)
    } else {
        s
    };
    match accepted_pairs(text, true) {
        None => None,
        Some(pairs) => match (
            value_at(pairs, "00"@, Some("00"@), true),
            value_at(pairs, "00"@, Some("01"@), true),
            value_at(pairs, "00"@, Some("02"@), true),
        ) {
            (Some(api), Some(bank), Some(trans_ref)) => if api == "000001"@ {
                Some((bank, trans_ref))
            } else {
                None
            },
            _ => None,
        },
    }
}

fn find_last_crc_header(s: &str) -> (r: Option<usize>)
    ensures
        match r {
            Some(idx) => last_crc_header(s@, s@.len() - 4) == Some(idx as int) && idx + 4
                <= s@.len(),
            None => last_crc_header(s@, s@.len() - 4) is None,
        },
{
    let n = s.unicode_len();
    if n < 4 {
        assert(last_crc_header(s@, s@.len() - 4) is None);
        return None;
    }
    let mut end: usize = n - 4;
    loop
        invariant
            n == s@.len(),
            n >= 4,
            end <= n - 4,
            last_crc_header(s@, s@.len() - 4) == last_crc_header(s@, end as int),
        decreases end,
    {
        if same_text(s.substring_char(end, end + 4), "9104") {
            return Some(end);
        }
        if end == 0 {
            assert(last_crc_header(s@, -1) is None);
            return None;
        }
        end = end - 1;
    }
}

fn pad_crc(payload: &str) -> (r: String)
    ensures
        r@ == pad_short_crc(payload@),
{
    let n = payload.unicode_len();
    if let Some(idx) = find_last_crc_header(payload) {
        let crc_start = idx + 4;
        if crc_start < n && n - crc_start < 4 {
            let mut fixed = String::from_str(payload.substring_char(0, crc_start));
            append_zero_padded(&mut fixed, payload.substring_char(crc_start, n), 4);
            return fixed;
        }
    }
    String::from_str(payload)
}

/// Checks a slip verification code in strict mode and extracts its bank code
/// and transaction reference. Tag `00` must hold the API type `000001`. With
/// `crc_auto_fix`, a checksum shortened to one to three characters after the
/// last `9104` is zero-padded first.
pub fn slip_verify(payload: &str, crc_auto_fix: bool) -> (r: Option<SlipVerifyData>)
    ensures
        match slip_fields(payload@, crc_auto_fix) {
            Some((bank, trans_ref)) => r is Some && r->0.sending_bank@ == bank
                && r->0.trans_ref@ == trans_ref,
            None => r is None,
        },
{
    let text = if crc_auto_fix {
        pad_crc(payload)
    } else {
        String::from_str(payload)
    };
    let qr = match parse(text.as_str(), true, true) {
        Some(qr) => qr,
        None => {
            return None;
        },
    };
    let ghost pairs = accepted_pairs(text@, true)->0;
    proof {
        lemma_lookup_parsed(qr.spec_tags(), pairs, true, "00"@, Some("00"@));
        lemma_lookup_parsed(qr.spec_tags(), pairs, true, "00"@, Some("01"@));
        lemma_lookup_parsed(qr.spec_tags(), pairs, true, "00"@, Some("02"@));
    }
    let api_type = match qr.get_tag_value("00", Some("00")) {
        Some(v) => v,
        None => {
            return None;
        },
    };
    if !same_text(api_type, "000001") {
        return None;
    }
    let sending_bank = match qr.get_tag_value("00", Some("01")) {
        Some(v) => v,
        None => {
            return None;
        },
    };
    let trans_ref = match qr.get_tag_value("00", Some("02")) {
        Some(v) => v,
        None => {
            return None;
        },
    };
    Some(
        SlipVerifyData {
            sending_bank: String::from_str(sending_bank),
            trans_ref: String::from_str(trans_ref),
        },
    )
}

} // verus!
