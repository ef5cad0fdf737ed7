//! The PromptPay AnyID transfer code (tag `29`).
use vstd::prelude::*;

use crate::error::PromptParseError;
use crate::generate::fields::{amount_pairs, header_pairs, header_tags, push_amount};
use crate::tlv::{encode_leaves, encode_pairs, leaves_of, tag, with_crc_tag, with_crc_tag_spec};
use crate::utils::digits::{append_zero_padded, zero_pad};

verus! {

/// The kind of identifier a transfer goes to.
#[derive(Debug, Clone, Copy, PartialEq, Eq)]
pub enum ProxyType {
    /// Mobile number
    Msisdn,
    /// National ID or tax ID
    NatId,
    /// E-wallet ID
    EWalletId,
    /// Bank account (reserved)
    BankAcc,
}

/// The sub-tag id under which each kind of identifier is written.
pub open spec fn proxy_code(p: ProxyType) -> Seq<char> {
    match p {
        ProxyType::Msisdn => "01"@,
        ProxyType::NatId => "02"@,
        ProxyType::EWalletId => "03"@,
        ProxyType::BankAcc => "04"@,
    }
}

impl ProxyType {
    /// The sub-tag id of this kind of identifier.
    pub fn to_code(&self) -> (r: &'static str)
        ensures
            r@ == proxy_code(*self),
    {
        match self {
            ProxyType::Msisdn => "01",
            ProxyType::NatId => "02",
            ProxyType::EWalletId => "03",
            ProxyType::BankAcc => "04",
        }
    }
}

/// What an AnyID transfer code carries.
#[derive(Debug, Clone)]
pub struct AnyIdConfig {
    /// Kind of identifier
    pub proxy_type: ProxyType,
    /// Recipient identifier
    pub target: String,
    /// Transaction amount in hundredths of the currency unit
    pub amount: Option<i64>,
}

/// The identifier as written: a mobile number loses a leading `0` for the
/// country code `66` and is zero-padded to 13 digits; others stay as given.
pub open spec fn proxy_target(proxy_type: ProxyType, target: Seq<char>) -> Seq<char> {
    if proxy_type == ProxyType::Msisdn {
        zero_pad(
            if target.len() > 0 && target[0] == '0' {
                "66"@ + target.drop_first()
            } else {
                target
            },
            13,
        )
    } else {
        target
    }
}

/// The pairs of the code's tag `29`.
pub open spec fn any_id_inner_pairs(proxy_type: ProxyType, target: Seq<char>) -> Seq<
    (Seq<char>, Seq<char>),
> {
    seq![("00"@, "A000000677010111"@), (proxy_code(proxy_type), proxy_target(proxy_type, target))]
}

/// The full AnyID transfer code.
pub open spec fn any_id_spec(proxy_type: ProxyType, target: Seq<char>, amount: Option<i64>) -> Seq<
    char,
> {
    with_crc_tag_spec(
        encode_pairs(
            header_pairs(amount, "29"@, encode_pairs(any_id_inner_pairs(proxy_type, target)))
                + amount_pairs(amount),
        ),
        "63"@,
        true,
    )
}

fn written_target(proxy_type: ProxyType, target: &str) -> (r: String)
    ensures
        r@ == proxy_target(proxy_type, target@),
{
    if !matches!(proxy_type, ProxyType::Msisdn) {
        return String::from_str(target);
    }
    let n = target.unicode_len();
    let local = if n > 0 && target.get_char(0) == '0' {
        let mut s = String::from_str("66");
        s.append(target.substring_char(1, n));
        s
    } else {
        String::from_str(target)
    };
    let mut padded = String::new();
    append_zero_padded(&mut padded, local.as_str(), 13);
    assert(padded@ == proxy_target(proxy_type, target@));
    padded
}

/// Builds a PromptPay AnyID transfer code: tag `29` holds the application id
/// and the identifier under the sub-tag of its kind; an amount adds tag `54`;
/// checksum tag `63` ends it in upper case.
pub fn any_id(config: AnyIdConfig) -> (r: Result<String, PromptParseError>)
    ensures
        r is Ok,
        r->Ok_0@ == any_id_spec(config.proxy_type, config.target@, config.amount),
{
    let target = written_target(config.proxy_type, config.target.as_str());
    let inner = vec![
        tag("00", "A000000677010111"),
        tag(config.proxy_type.to_code(), target.as_str()),
    ];
    let ghost inner_pairs = any_id_inner_pairs(config.proxy_type, config.target@);
    assert(leaves_of(inner@, inner_pairs));
    let inner_text = encode_leaves(&inner, Ghost(inner_pairs));
    let mut payload = header_tags(config.amount, "29", inner_text.as_str());
    let ghost head = header_pairs(config.amount, "29"@, inner_text@);
    push_amount(&mut payload, config.amount, Ghost(head));
    let text = encode_leaves(&payload, Ghost(head + amount_pairs(config.amount)));
    Ok(with_crc_tag(text.as_str(), "63", true))
}

} // verus!
