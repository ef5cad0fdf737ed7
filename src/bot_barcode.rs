//! The pipe-delimited bill payment barcode: `|biller\rref1\rref2\ramount`.
use vstd::prelude::*;

use crate::error::PromptParseError;
use crate::generate::bill_payment::{bill_payment, bill_payment_spec, BillPaymentConfig};
use crate::utils::digits::{append_dec_digits, dec_digits, digit_value, is_digit};

verus! {

/// The fields of a bill payment barcode.
#[derive(Debug, Clone, PartialEq)]
pub struct BotBarcode {
    pub biller_id: String,
    pub ref1: String,
    pub ref2: Option<String>,
    /// Amount in hundredths of the currency unit
    pub amount: Option<i64>,
}

/// The pieces of `s` between carriage returns, as `str::split` cuts them.
pub open spec fn split_cr(s: Seq<char>) -> Seq<Seq<char>>
    decreases s.len(),
{
    if s.len() == 0 {
        seq![Seq::empty()]
    } else {
        let rest = split_cr(s.drop_last());
        if s.last() == '\r' {
            rest.push(Seq::empty())
        } else {
            rest.update(rest.len() - 1, rest.last().push(s.last()))
        }
    }
}

/// The value of a sequence of ASCII digits.
pub open spec fn digits_value(s: Seq<char>) -> nat
    decreases s.len(),
{
    if s.len() == 0 {
        0
    } else {
        10 * digits_value(s.drop_last()) + digit_value(s.last())
    }
}

/// Every character of `s` is an ASCII digit.
pub open spec fn all_digits(s: Seq<char>) -> bool {
    forall|i: int| 0 <= i < s.len() ==> is_digit(#[trigger] s[i])
}

/// `s` starts with a sign.
pub open spec fn has_sign(s: Seq<char>) -> bool {
    s.len() > 0 && (s[0] == '-' || s[0] == '+')
}

/// `s` without its sign.
pub open spec fn unsigned_part(s: Seq<char>) -> Seq<char> {
    if has_sign(s) {
        s.drop_first()
    } else {
        s
    }
}

/// `s` read as a 32-bit signed decimal integer: an optional sign, then one
/// digit or more, within range.
pub open spec fn parse_i32(s: Seq<char>) -> Option<int> {
    let digits = unsigned_part(s);
    if digits.len() == 0 || !all_digits(digits) {
        None
    } else if s[0] == '-' {
        if digits_value(digits) <= 2147483648 {
            Some(-(digits_value(digits) as int))
        } else {
            None
        }
    } else if digits_value(digits) <= 2147483647 {
        Some(digits_value(digits) as int)
    } else {
        None
    }
}

/// The four pieces of a barcode, or `None` where `s` is not one.
pub open spec fn barcode_pieces(s: Seq<char>) -> Option<Seq<Seq<char>>> {
    if s.len() > 0 && s[0] == '|' && split_cr(s.drop_first()).len() == 4 {
        Some(split_cr(s.drop_first()))
    } else {
        None
    }
}

/// `b` holds the fields of the barcode pieces `p`.
pub open spec fn read_from(p: Seq<Seq<char>>, b: BotBarcode) -> bool {
    &&& b.biller_id@ == p[0]
    &&& b.ref1@ == p[1]
    &&& if p[2].len() == 0 {
        b.ref2 is None
    } else {
        b.ref2 is Some && b.ref2->0@ == p[2]
    }
    &&& match barcode_amount(p[3]) {
        Some(v) => b.amount == Some(v as i64),
        None => b.amount is None,
    }
}

/// The amount that the last piece stands for: `0` for none.
pub open spec fn barcode_amount(piece: Seq<char>) -> Option<int> {
    if piece == seq!['0'] {
        None
    } else {
        parse_i32(piece)
    }
}

/// An integer in decimal, with a minus sign where negative.
pub open spec fn signed_dec(n: int) -> Seq<char> {
    if n < 0 {
        seq!['-'] + dec_digits((-n) as nat)
    } else {
        dec_digits(n as nat)
    }
}

/// The text of an optional owned string; empty where there is none.
pub open spec fn text_or_empty(s: Option<String>) -> Seq<char> {
    match s {
        Some(t) => t@,
        None => Seq::empty(),
    }
}

/// The barcode text of these fields.
pub open spec fn barcode_text(b: BotBarcode) -> Seq<char> {
    seq!['|'] + b.biller_id@ + seq!['\r'] + b.ref1@ + seq!['\r'] + text_or_empty(b.ref2) + seq![
        '\r',
    ] + match b.amount {
        Some(a) => signed_dec(a as int),
        None => seq!['0'],
    }
}

fn split_pieces(s: &str) -> (r: Vec<String>)
    ensures
        r@.len() == split_cr(s@).len(),
        forall|i: int| 0 <= i < r@.len() ==> (#[trigger] r@[i])@ == split_cr(s@)[i],
{
    let n = s.unicode_len();
    let mut pieces: Vec<String> = Vec::new();
    let mut start: usize = 0;
    let mut i: usize = 0;
    while i < n
        invariant
            n == s@.len(),
            start <= i <= n,
            pieces@.len() + 1 == split_cr(s@.subrange(0, i as int)).len(),
            forall|k: int| 0 <= k < pieces@.len() ==> (#[trigger] pieces@[k])@ == split_cr(
                s@.subrange(0, i as int),
            )[k],
            split_cr(s@.subrange(0, i as int)).last() == s@.subrange(start as int, i as int),
        decreases n - i,
    {
        let ghost prefix = s@.subrange(0, i as int);
        assert(s@.subrange(0, i + 1).drop_last() == prefix);
        if s.get_char(i) == '\r' {
            pieces.push(String::from_str(s.substring_char(start, i)));
            start = i + 1;
            assert(s@.subrange(start as int, i + 1) =~= Seq::<char>::empty());
        } else {
            assert(s@.subrange(start as int, i + 1) =~= s@.subrange(start as int, i as int).push(
                s@[i as int],
            ));
        }
        i = i + 1;
    }
    pieces.push(String::from_str(s.substring_char(start, n)));
    assert(s@.subrange(0, n as int) == s@);
    pieces
}

fn read_i32(s: &str) -> (r: Option<i64>)
    ensures
        match parse_i32(s@) {
            Some(v) => r == Some(v as i64),
            None => r is None,
        },
{
    let n = s.unicode_len();
    let signed = n > 0 && (s.get_char(0) == '-' || s.get_char(0) == '+');
    let first: usize = if signed {
        1
    } else {
        0
    };
    let ghost digits = unsigned_part(s@);
    assert(digits =~= s@.subrange(first as int, n as int));
    if first == n {
        return None;
    }
    let negative = s.get_char(0) == '-';
    let mut value: u64 = 0;
    let mut i: usize = first;
    while i < n
        invariant
            n == s@.len(),
            first < n,
            first <= i <= n,
            negative == (s@[0] == '-'),
            digits == unsigned_part(s@),
            digits == s@.subrange(first as int, n as int),
            forall|k: int| 0 <= k < i - first ==> is_digit(#[trigger] digits[k]),
            value == digits_value(digits.subrange(0, i - first)),
            value <= 2147483648,
        decreases n - i,
    {
        let c = s.get_char(i);
        if !('0' <= c && c <= '9') {
            assert(digits[i - first] == c);
            assert(!all_digits(digits));
            return None;
        }
        assert(digits.subrange(0, i + 1 - first).drop_last() == digits.subrange(0, i - first));
        let next = value * 10 + (c as u32 - 48) as u64;
        if next > 2147483648 {
            proof {
                if all_digits(digits) {
                    lemma_digits_value_grows(digits, (i + 1 - first) as int);
                }
            }
            return None;
        }
        value = next;
        i = i + 1;
    }
    assert(digits.subrange(0, n - first) == digits);
    assert(all_digits(digits));
    if negative {
        Some(-(value as i64))
    } else if value <= 2147483647 {
        Some(value as i64)
    } else {
        None
    }
}

/// A longer run of digits is worth at least as much as its prefix.
proof fn lemma_digits_value_grows(s: Seq<char>, k: int)
    requires
        0 <= k <= s.len(),
        forall|i: int| 0 <= i < s.len() ==> is_digit(#[trigger] s[i]),
    ensures
        digits_value(s) >= digits_value(s.subrange(0, k)),
    decreases s.len() - k,
{
    if k < s.len() {
        lemma_digits_value_grows(s, k + 1);
        assert(s.subrange(0, k + 1).drop_last() == s.subrange(0, k));
    } else {
        assert(s.subrange(0, k) == s);
    }
}

impl BotBarcode {
    pub fn new(biller_id: String, ref1: String, ref2: Option<String>, amount: Option<i64>) -> (r:
        BotBarcode)
        ensures
            r == (BotBarcode { biller_id, ref1, ref2, amount }),
    {
        BotBarcode { biller_id, ref1, ref2, amount }
    }

    /// Reads a barcode: a `|`, then exactly four pieces separated by
    /// carriage returns. An empty third piece means no reference 2; a last
    /// piece of `0` means no amount, any other is read as a 32-bit integer
    /// of hundredths, and one that is not gives no amount.
    pub fn from_string(payload: &str) -> (r: Option<BotBarcode>)
        ensures
            match barcode_pieces(payload@) {
                Some(p) => r is Some && read_from(p, r->0),
                None => r is None,
            },
    {
        let n = payload.unicode_len();
        if n == 0 || payload.get_char(0) != '|' {
            return None;
        }
        let body = payload.substring_char(1, n);
        assert(body@ =~= payload@.drop_first());
        let pieces = split_pieces(body);
        if pieces.len() != 4 {
            return None;
        }
        let biller_id = pieces[0].clone();
        let ref1 = pieces[1].clone();
        let ref2 = if pieces[2].as_str().unicode_len() == 0 {
            None
        } else {
            Some(pieces[2].clone())
        };
        let last = pieces[3].as_str();
        proof {
            reveal_strlit("0");
            assert("0"@ =~= seq!['0']);
        }
        let amount = if crate::tlv::same_text(last, "0") {
            None
        } else {
            read_i32(last)
        };
        Some(BotBarcode::new(biller_id, ref1, ref2, amount))
    }

    /// Writes the barcode: `|`, the biller id, reference 1, reference 2 (or
    /// nothing) and the amount in hundredths (or `0`), separated by carriage
    /// returns.
    pub fn to_string(&self) -> (r: String)
        ensures
            r@ == barcode_text(*self),
    {
        let mut out = String::from_str("|");
        proof {
            reveal_strlit("|");
            reveal_strlit("\r");
            reveal_strlit("-");
            reveal_strlit("0");
        }
        out.append(self.biller_id.as_str());
        out.append("\r");
        out.append(self.ref1.as_str());
        out.append("\r");
        match &self.ref2 {
            Some(r) => out.append(r.as_str()),
            None => {},
        }
        out.append("\r");
        match self.amount {
            Some(a) => {
                if a < 0 {
                    out.append("-");
                    let m: u64 = ((-(a + 1)) as u64) + 1;
                    append_dec_digits(&mut out, m);
                } else {
                    append_dec_digits(&mut out, a as u64);
                }
            },
            None => out.append("0"),
        }
        assert(out@ =~= barcode_text(*self));
        out
    }

    /// Converts the barcode to a PromptPay bill payment code with the same
    /// biller, references and amount.
    pub fn to_qr_tag30(&self) -> (r: Result<String, PromptParseError>)
        ensures
            r is Ok,
            r->Ok_0@ == bill_payment_spec(
                self.biller_id@,
                self.amount,
                self.ref1@,
                self.ref2,
                None,
            ),
    {
        let ref2 = match &self.ref2 {
            Some(r) => Some(r.clone()),
            None => None,
        };
        let config = BillPaymentConfig {
            biller_id: self.biller_id.clone(),
            amount: self.amount,
            ref1: self.ref1.clone(),
            ref2,
            ref3: None,
        };
        bill_payment(config)
    }
}

} // verus!
