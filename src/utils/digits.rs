//! Hexadecimal and decimal renderings of numbers, with zero padding.
use vstd::prelude::*;

verus! {

/// The hexadecimal digit for `d < 16`, in upper or lower case.
pub open spec fn hex_digit(d: nat, upper: bool) -> char {
    if d < 10 {
        (48 + d) as char
    } else if upper {
        (55 + d) as char
    } else {
        (87 + d) as char
    }
}

/// The decimal digit for `d < 10`.
pub open spec fn dec_digit(d: nat) -> char {
    (48 + d) as char
}

/// Whether `c` is one of the ASCII digits `0` to `9`.
pub open spec fn is_digit(c: char) -> bool {
    '0' <= c && c <= '9'
}

/// The value of an ASCII digit.
pub open spec fn digit_value(c: char) -> nat {
    (c as nat - 48) as nat
}

/// `n` in hexadecimal, most significant digit first, without leading zeros.
pub open spec fn hex_digits(n: nat, upper: bool) -> Seq<char>
    decreases n,
{
    if n < 16 {
        seq![hex_digit(n, upper)]
    } else {
        hex_digits(n / 16, upper).push(hex_digit(n % 16, upper))
    }
}

/// `n` in decimal, most significant digit first, without leading zeros.
pub open spec fn dec_digits(n: nat) -> Seq<char>
    decreases n,
{
    if n < 10 {
        seq![dec_digit(n)]
    } else {
        dec_digits(n / 10).push(dec_digit(n % 10))
    }
}

/// `s` with `'0'` added on the left until it is at least `width` long.
pub open spec fn zero_pad(s: Seq<char>, width: nat) -> Seq<char> {
    if s.len() >= width {
        s
    } else {
        Seq::new((width - s.len()) as nat, |i: int| '0') + s
    }
}

/// `n` in hexadecimal, zero-padded to at least `width` digits.
pub open spec fn padded_hex(n: nat, width: nat, upper: bool) -> Seq<char> {
    zero_pad(hex_digits(n, upper), width)
}

/// `n` in decimal, zero-padded to at least `width` digits.
pub open spec fn padded_dec(n: nat, width: nat) -> Seq<char> {
    zero_pad(dec_digits(n), width)
}

/// `c` in upper case where it is an ASCII lower-case letter, else `c`.
pub open spec fn ascii_upper_char(c: char) -> char {
    if 'a' <= c && c <= 'z' {
        ((c as u32) - 32) as char
    } else {
        c
    }
}

/// `s` with its ASCII lower-case letters in upper case.
pub open spec fn ascii_upper(s: Seq<char>) -> Seq<char> {
    s.map_values(|c: char| ascii_upper_char(c))
}

/// Every character of the decimal rendering is a digit, and it has at least
/// two digits from 10 on and three from 100 on.
pub proof fn lemma_dec_digits_shape(n: nat)
    ensures
        forall|i: int| 0 <= i < dec_digits(n).len() ==> is_digit(#[trigger] dec_digits(n)[i]),
        dec_digits(n).len() >= 1,
        n >= 10 ==> dec_digits(n).len() >= 2,
        n >= 100 ==> dec_digits(n).len() >= 3,
    decreases n,
{
    if n >= 10 {
        lemma_dec_digits_shape(n / 10);
    }
}

/// Upper-casing the lower-case hexadecimal rendering gives the upper-case one.
pub proof fn lemma_hex_upper(n: nat)
    ensures
        hex_digits(n, true) == ascii_upper(hex_digits(n, false)),
    decreases n,
{
    if n >= 16 {
        lemma_hex_upper(n / 16);
        assert(ascii_upper(hex_digits(n, false)) =~= ascii_upper(hex_digits(n / 16, false)).push(
            ascii_upper_char(hex_digit(n % 16, false)),
        ));
    } else {
        assert(ascii_upper(hex_digits(n, false)) =~= seq![ascii_upper_char(hex_digit(n, false))]);
    }
}

/// Upper-casing a zero-padded lower-case hexadecimal rendering gives the
/// upper-case one.
pub proof fn lemma_padded_hex_upper(n: nat, width: nat)
    ensures
        padded_hex(n, width, true) == ascii_upper(padded_hex(n, width, false)),
{
    lemma_hex_upper(n);
    let lo = hex_digits(n, false);
    let up = hex_digits(n, true);
    assert(up.len() == lo.len());
    if lo.len() < width {
        let zeros = Seq::new((width - lo.len()) as nat, |i: int| '0');
        assert(ascii_upper(zeros + lo) =~= zeros + ascii_upper(lo));
    }
}

/// A number below 65536 has at most four hexadecimal digits, none of them a
/// lower-case letter when written in upper case.
pub proof fn lemma_hex16_shape(n: nat, upper: bool)
    requires
        n < 65536,
    ensures
        hex_digits(n, upper).len() <= 4,
        upper ==> forall|i: int|
            0 <= i < hex_digits(n, upper).len() ==> !('a' <= #[trigger] hex_digits(n, upper)[i]
                && hex_digits(n, upper)[i] <= 'z'),
{
    let a = n / 16;
    let b = a / 16;
    let c = b / 16;
    assert(c < 16);
    assert(n >= 16 ==> hex_digits(n, upper) == hex_digits(a, upper).push(hex_digit(n % 16, upper)));
    assert(a >= 16 ==> hex_digits(a, upper) == hex_digits(b, upper).push(hex_digit(a % 16, upper)));
    assert(b >= 16 ==> hex_digits(b, upper) == hex_digits(c, upper).push(hex_digit(b % 16, upper)));
    assert(hex_digits(c, upper) == seq![hex_digit(c, upper)]);
}

fn append_hex_digit(out: &mut String, d: u32, upper: bool)
    requires
        d < 16,
    ensures
        final(out)@ == old(out)@.push(hex_digit(d as nat, upper)),
{
    let table = if upper {
        "0123456789ABCDEF"
    } else {
        "0123456789abcdef"
    };
    proof {
        reveal_strlit("0123456789ABCDEF");
        reveal_strlit("0123456789abcdef");
    }
    assert(table@[d as int] == hex_digit(d as nat, upper));
    let piece = table.substring_char(d as usize, d as usize + 1);
    assert(piece@ == seq![hex_digit(d as nat, upper)]);
    out.append(piece);
}

fn append_dec_digit(out: &mut String, d: u32)
    requires
        d < 10,
    ensures
        final(out)@ == old(out)@.push(dec_digit(d as nat)),
{
    let table = "0123456789";
    proof {
        reveal_strlit("0123456789");
    }
    assert(table@[d as int] == dec_digit(d as nat));
    let piece = table.substring_char(d as usize, d as usize + 1);
    assert(piece@ == seq![dec_digit(d as nat)]);
    out.append(piece);
}

fn hex_len(n: u32, upper: bool) -> (r: usize)
    ensures
        r == hex_digits(n as nat, upper).len(),
        r <= n + 1,
    decreases n,
{
    if n < 16 {
        1
    } else {
        hex_len(n / 16, upper) + 1
    }
}

fn dec_len(n: u64) -> (r: u64)
    ensures
        r == dec_digits(n as nat).len(),
        r <= n as nat + 1,
    decreases n,
{
    if n < 10 {
        1
    } else {
        dec_len(n / 10) + 1
    }
}

fn append_hex_digits(out: &mut String, n: u32, upper: bool)
    ensures
        final(out)@ == old(out)@ + hex_digits(n as nat, upper),
    decreases n,
{
    if n >= 16 {
        append_hex_digits(out, n / 16, upper);
    }
    append_hex_digit(out, n % 16, upper);
}

/// Appends `n` in decimal, without leading zeros.
pub fn append_dec_digits(out: &mut String, n: u64)
    ensures
        final(out)@ == old(out)@ + dec_digits(n as nat),
    decreases n,
{
    if n >= 10 {
        append_dec_digits(out, n / 10);
    }
    append_dec_digit(out, (n % 10) as u32);
}

fn append_zeros(out: &mut String, count: usize)
    ensures
        final(out)@ == old(out)@ + Seq::new(count as nat, |i: int| '0'),
{
    let ghost start = out@;
    let mut k: usize = 0;
    while k < count
        invariant
            k <= count,
            out@ == start + Seq::new(k as nat, |i: int| '0'),
        decreases count - k,
    {
        append_dec_digit(out, 0);
        k = k + 1;
    }
}

/// Appends `n` in hexadecimal, zero-padded to at least `width` digits.
pub fn append_padded_hex(out: &mut String, n: u32, width: usize, upper: bool)
    ensures
        final(out)@ == old(out)@ + padded_hex(n as nat, width as nat, upper),
{
    let len = hex_len(n, upper);
    if len < width {
        append_zeros(out, width - len);
    }
    append_hex_digits(out, n, upper);
}

/// Appends `s`, zero-padded on the left to at least `width` characters.
pub fn append_zero_padded(out: &mut String, s: &str, width: usize)
    ensures
        final(out)@ == old(out)@ + zero_pad(s@, width as nat),
{
    let len = s.unicode_len();
    if len < width {
        append_zeros(out, width - len);
    }
    out.append(s);
}

/// An amount given in hundredths, written with two decimals: an optional
/// minus sign, the whole units, a point and two digits.
pub open spec fn amount_text(hundredths: int) -> Seq<char> {
    let m = if hundredths < 0 {
        -hundredths
    } else {
        hundredths
    };
    let sign = if hundredths < 0 {
        seq!['-']
    } else {
        Seq::empty()
    };
    sign + dec_digits((m / 100) as nat) + seq!['.'] + padded_dec((m % 100) as nat, 2)
}

/// Appends an amount given in hundredths with two decimals, as `amount_text`.
pub fn append_amount(out: &mut String, hundredths: i64)
    ensures
        final(out)@ == old(out)@ + amount_text(hundredths as int),
{
    let ghost start = out@;
    let m: u64 = if hundredths < 0 {
        ((-(hundredths + 1)) as u64) + 1
    } else {
        hundredths as u64
    };
    if hundredths < 0 {
        out.append("-");
        proof {
            reveal_strlit("-");
        }
    }
    let ghost signed = out@;
    assert(m as int == if hundredths < 0 {
        -hundredths
    } else {
        hundredths as int
    });
    append_dec_digits(out, m / 100);
    out.append(".");
    proof {
        reveal_strlit(".");
    }
    append_padded_dec(out, m % 100, 2);
    let ghost sign = if hundredths < 0 {
        seq!['-']
    } else {
        Seq::<char>::empty()
    };
    assert(signed == start + sign);
    assert(out@ =~= start + amount_text(hundredths as int));
}

/// Appends `n` in decimal, zero-padded to at least `width` digits.
pub fn append_padded_dec(out: &mut String, n: u64, width: usize)
    ensures
        final(out)@ == old(out)@ + padded_dec(n as nat, width as nat),
{
    let len = dec_len(n);
    if len < width as u64 {
        append_zeros(out, width - len as usize);
    }
    append_dec_digits(out, n);
}

} // verus!
