//! Fields shared by the transfer and bill payment builders.
use vstd::prelude::*;

use crate::tlv::{leaves_of, tag, TlvTag};
use crate::utils::digits::{amount_text, append_amount};

verus! {

/// The point of initiation: `11` for a code without an amount (reusable),
/// `12` for one with an amount (one-off).
pub open spec fn initiation(amount: Option<i64>) -> Seq<char> {
    if amount is None {
        "11"@
    } else {
        "12"@
    }
}

/// The amount tag `54`, where there is an amount.
pub open spec fn amount_pairs(amount: Option<i64>) -> Seq<(Seq<char>, Seq<char>)> {
    match amount {
        Some(a) => seq![("54"@, amount_text(a as int))],
        None => Seq::empty(),
    }
}

/// The header tags of a merchant-presented code, around the scheme's own tag:
/// format `01`, the point of initiation, the scheme tag, currency `764` and
/// country `TH`.
pub open spec fn header_pairs(
    amount: Option<i64>,
    scheme_id: Seq<char>,
    scheme_value: Seq<char>,
) -> Seq<(Seq<char>, Seq<char>)> {
    seq![
        ("00"@, "01"@),
        ("01"@, initiation(amount)),
        (scheme_id, scheme_value),
        ("53"@, "764"@),
        ("58"@, "TH"@),
    ]
}

/// The header tags, as built by `header_pairs`.
pub fn header_tags(amount: Option<i64>, scheme_id: &str, scheme_value: &str) -> (r: Vec<TlvTag>)
    ensures
        leaves_of(r@, header_pairs(amount, scheme_id@, scheme_value@)),
{
    let point = if amount.is_none() {
        "11"
    } else {
        "12"
    };
    vec![
        tag("00", "01"),
        tag("01", point),
        tag(scheme_id, scheme_value),
        tag("53", "764"),
        tag("58", "TH"),
    ]
}

/// Appends the amount tag where there is an amount.
pub(crate) fn push_amount(tags: &mut Vec<TlvTag>, amount: Option<i64>, Ghost(pairs): Ghost<
    Seq<(Seq<char>, Seq<char>)>,
>)
    requires
        leaves_of(old(tags)@, pairs),
    ensures
        leaves_of(final(tags)@, pairs + amount_pairs(amount)),
{
    if let Some(a) = amount {
        let mut text = String::new();
        append_amount(&mut text, a);
        tags.push(tag("54", text.as_str()));
    } else {
        assert(pairs + amount_pairs(amount) =~= pairs);
    }
}

} // verus!
