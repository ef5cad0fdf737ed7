//! Tags, and the encoding of a tag sequence as text.
//!
//! A tag is written as its two-character id, its length as a decimal of at
//! least two digits, then its content: the encoding of its sub-tags where it
//! has them, else its value.
use vstd::prelude::*;

use crate::error::PromptParseError;
use crate::utils::checksum::{crc16_spec, crc16_xmodem};
use crate::utils::digits::{
    append_padded_dec, append_padded_hex, append_zero_padded, ascii_upper, dec_digit, dec_digits,
    digit_value, is_digit, lemma_dec_digits_shape, lemma_padded_hex_upper, padded_dec, padded_hex,
    zero_pad,
};

verus! {

/// One node of a payload: an id, a value and, for a composite tag, its children.
#[derive(Debug, PartialEq)]
pub struct TlvTag {
    /// Tag id
    pub id: String,
    /// Tag value
    pub value: String,
    /// Sub-tags, when the value has been read as a nested sequence
    pub sub_tags: Option<Vec<TlvTag>>,
    /// Length written in the tag's header
    pub length: usize,
}

/// The length field written for a content of `n` characters.
pub open spec fn length_field(n: nat) -> Seq<char> {
    padded_dec(n, 2)
}

/// The text that `tags` encode to.
pub open spec fn encode_tags(tags: Seq<TlvTag>) -> Seq<char>
    decreases tags,
{
    if tags.len() == 0 {
        Seq::empty()
    } else {
        let t = tags.last();
        let content = match t.sub_tags {
            Some(sub) => encode_tags(sub@),
            None => t.value@,
        };
        encode_tags(tags.drop_last()) + t.id@ + length_field(t.length as nat) + content
    }
}

impl TlvTag {
    /// A leaf tag whose length is the number of characters of `value`.
    pub fn new(id: String, value: String) -> (r: TlvTag)
        ensures
            r.id@ == id@,
            r.value@ == value@,
            r.length == value@.len(),
            r.sub_tags is None,
    {
        let length = value.as_str().unicode_len();
        TlvTag { id, value, sub_tags: None, length }
    }

    /// A composite tag; its length is still that of `value`.
    pub fn with_sub_tags(id: String, value: String, sub_tags: Vec<TlvTag>) -> (r: TlvTag)
        ensures
            r.id@ == id@,
            r.value@ == value@,
            r.length == value@.len(),
            r.sub_tags == Some(sub_tags),
    {
        let length = value.as_str().unicode_len();
        TlvTag { id, value, sub_tags: Some(sub_tags), length }
    }
}

/// A leaf tag made from borrowed text.
pub fn tag(tag_id: &str, value: &str) -> (r: TlvTag)
    ensures
        r.id@ == tag_id@,
        r.value@ == value@,
        r.length == value@.len(),
        r.sub_tags is None,
{
    TlvTag::new(String::from_str(tag_id), String::from_str(value))
}

/// Appends the encoding of one tag to `out`.
pub fn append_tag(out: &mut String, t: &TlvTag)
    ensures
        final(out)@ == old(out)@ + encode_tags(seq![*t]),
    decreases *t, 0nat,
{
    let ghost one = seq![*t];
    assert(one.drop_last() =~= Seq::<TlvTag>::empty());
    assert(one.last() == *t);
    assert(encode_tags(Seq::<TlvTag>::empty()) == Seq::<char>::empty());
    let ghost start = out@;
    out.append(t.id.as_str());
    append_padded_dec(out, t.length as u64, 2);
    match &t.sub_tags {
        Some(sub) => {
            assert(decreases_to!(*t => sub@));
            let inner = encode(sub.as_slice());
            out.append(inner.as_str());
        },
        None => {
            out.append(t.value.as_str());
        },
    }
    assert(out@ =~= start + (Seq::<char>::empty() + t.id@ + length_field(t.length as nat)
        + match t.sub_tags {
        Some(sub) => encode_tags(sub@),
        None => t.value@,
    }));
}

/// Encodes `tags` in order; a tag with sub-tags is written from them, not
/// from its value.
pub fn encode(tags: &[TlvTag]) -> (r: String)
    ensures
        r@ == encode_tags(tags@),
    decreases tags@, 1nat,
{
    let mut payload = String::new();
    let mut i: usize = 0;
    while i < tags.len()
        invariant
            i <= tags@.len(),
            payload@ == encode_tags(tags@.subrange(0, i as int)),
        decreases tags@.len() - i,
    {
        let ghost before = tags@.subrange(0, i as int);
        assert(decreases_to!(tags@ => tags@[i as int]));
        append_tag(&mut payload, &tags[i]);
        proof {
            lemma_encode_concat(before, seq![tags@[i as int]]);
            assert(tags@.subrange(0, i + 1) =~= before + seq![tags@[i as int]]);
        }
        i = i + 1;
    }
    assert(tags@.subrange(0, tags@.len() as int) == tags@);
    payload
}

/// Encodes leaf tags; the text is that of the pairs they carry.
pub(crate) fn encode_leaves(
    tags: &Vec<TlvTag>,
    Ghost(pairs): Ghost<Seq<(Seq<char>, Seq<char>)>>,
) -> (r: String)
    requires
        leaves_of(tags@, pairs),
    ensures
        r@ == encode_pairs(pairs),
{
    proof {
        lemma_encode_leaves(tags@, pairs);
    }
    encode(tags.as_slice())
}

/// The value of a two-character length field, as a decimal integer reads it:
/// two digits, or a plus sign and one digit.
pub open spec fn length_value(a: char, b: char) -> Option<nat> {
    if is_digit(a) && is_digit(b) {
        Some(10 * digit_value(a) + digit_value(b))
    } else if a == '+' && is_digit(b) {
        Some(digit_value(b))
    } else {
        None
    }
}

/// The (id, value) pairs read from `s` starting at `pos`, or `None` where the
/// text is not a tag sequence. Reading stops once fewer than four characters
/// are left.
pub open spec fn decode_from(s: Seq<char>, pos: int) -> Option<Seq<(Seq<char>, Seq<char>)>>
    decreases s.len() - pos,
{
    if pos < 0 || pos + 4 > s.len() {
        Some(Seq::empty())
    } else {
        match length_value(s[pos + 2], s[pos + 3]) {
            None => None,
            Some(n) => {
                if pos + 4 + n > s.len() {
                    None
                } else {
                    match decode_from(s, pos + 4 + n) {
                        None => None,
                        Some(rest) => Some(
                            seq![(s.subrange(pos, pos + 2), s.subrange(pos + 4, pos + 4 + n))]
                                + rest,
                        ),
                    }
                }
            },
        }
    }
}

/// The (id, value) pairs that `s` decodes to, or `None` where it is malformed.
pub open spec fn decode_spec(s: Seq<char>) -> Option<Seq<(Seq<char>, Seq<char>)>> {
    decode_from(s, 0)
}

/// `t` is a leaf tag with this id and value, and its length is that of the value.
pub open spec fn is_leaf(t: TlvTag, id: Seq<char>, value: Seq<char>) -> bool {
    &&& t.id@ == id
    &&& t.value@ == value
    &&& t.length == value.len()
    &&& t.sub_tags is None
}

/// `tags` are leaf tags that carry exactly the pairs `pairs`, in order.
pub open spec fn leaves_of(tags: Seq<TlvTag>, pairs: Seq<(Seq<char>, Seq<char>)>) -> bool {
    &&& tags.len() == pairs.len()
    &&& forall|i: int| 0 <= i < tags.len() ==> is_leaf(#[trigger] tags[i], pairs[i].0, pairs[i].1)
}

/// The (id, value) pairs of `tags`.
pub open spec fn pairs_of(tags: Seq<TlvTag>) -> Seq<(Seq<char>, Seq<char>)> {
    tags.map_values(|t: TlvTag| (t.id@, t.value@))
}

/// The text that leaf tags with these (id, value) pairs encode to.
pub open spec fn encode_pairs(pairs: Seq<(Seq<char>, Seq<char>)>) -> Seq<char>
    decreases pairs.len(),
{
    if pairs.len() == 0 {
        Seq::empty()
    } else {
        let (id, value) = pairs.last();
        encode_pairs(pairs.drop_last()) + id + length_field(value.len()) + value
    }
}

/// Every pair has a two-character id and a value under 100 characters.
pub open spec fn pairs_in_format(pairs: Seq<(Seq<char>, Seq<char>)>) -> bool {
    forall|i: int|
        0 <= i < pairs.len() ==> (#[trigger] pairs[i]).0.len() == 2 && pairs[i].1.len() < 100
}

/// `head` followed by what `rest` holds, where it holds anything.
pub open spec fn prepend(
    head: Seq<(Seq<char>, Seq<char>)>,
    rest: Option<Seq<(Seq<char>, Seq<char>)>>,
) -> Option<Seq<(Seq<char>, Seq<char>)>> {
    match rest {
        Some(r) => Some(head + r),
        None => None,
    }
}

fn read_length(a: char, b: char) -> (r: Option<usize>)
    ensures
        match length_value(a, b) {
            Some(n) => r == Some(n as usize),
            None => r is None,
        },
{
    let a_digit = '0' <= a && a <= '9';
    let b_digit = '0' <= b && b <= '9';
    if a_digit && b_digit {
        Some(10 * (a as u32 - 48) as usize + (b as u32 - 48) as usize)
    } else if a == '+' && b_digit {
        Some((b as u32 - 48) as usize)
    } else {
        None
    }
}

/// Decodes `payload` into leaf tags, left to right.
///
/// Each tag is a two-character id, a two-character decimal length and that
/// many characters of value. A remainder of fewer than four characters at the
/// end is ignored. A length field that is not a number, or a value that runs
/// past the end, gives `InvalidTlv`.
pub fn decode(payload: &str) -> (r: Result<Vec<TlvTag>, PromptParseError>)
    ensures
        match decode_spec(payload@) {
            Some(pairs) => r is Ok && leaves_of(r->Ok_0@, pairs),
            None => r == Err::<Vec<TlvTag>, PromptParseError>(PromptParseError::InvalidTlv),
        },
{
    let ghost s = payload@;
    let n = payload.unicode_len();
    let mut tags: Vec<TlvTag> = Vec::new();
    let mut idx: usize = 0;
    while idx < n
        invariant
            n == s.len(),
            s == payload@,
            idx <= n,
            decode_spec(s) == prepend(pairs_of(tags@), decode_from(s, idx as int)),
            forall|i: int| 0 <= i < tags@.len() ==> #[trigger] tags@[i].sub_tags is None,
            forall|i: int| 0 <= i < tags@.len() ==> #[trigger] tags@[i].length == tags@[i].value@.len(),
        ensures
            idx <= n,
            idx + 4 > n,
            decode_spec(s) == prepend(pairs_of(tags@), decode_from(s, idx as int)),
            forall|i: int| 0 <= i < tags@.len() ==> #[trigger] tags@[i].sub_tags is None,
            forall|i: int| 0 <= i < tags@.len() ==> #[trigger] tags@[i].length == tags@[i].value@.len(),
        decreases n - idx,
    {
        if n - idx < 4 {
            break;
        }
        let id = payload.substring_char(idx, idx + 2);
        let a = payload.get_char(idx + 2);
        let b = payload.get_char(idx + 3);
        let length = match read_length(a, b) {
            Some(l) => l,
            None => {
                return Err(PromptParseError::InvalidTlv);
            },
        };
        if length > n - idx - 4 {
            return Err(PromptParseError::InvalidTlv);
        }
        let value = payload.substring_char(idx + 4, idx + 4 + length);
        let t = tag(id, value);
        let ghost old_tags = tags@;
        tags.push(t);
        proof {
            assert(pairs_of(tags@) == pairs_of(old_tags) + seq![(id@, value@)]);
            let ghost rest = decode_from(s, idx + 4 + length)->0;
            assert(pairs_of(tags@) + rest =~= pairs_of(old_tags) + (seq![(id@, value@)] + rest));
        }
        idx = idx + 4 + length;
    }
    proof {
        assert(decode_from(s, idx as int) == Some(Seq::<(Seq<char>, Seq<char>)>::empty()));
        assert(pairs_of(tags@) + Seq::empty() == pairs_of(tags@));
        assert(leaves_of(tags@, pairs_of(tags@)));
    }
    Ok(tags)
}

/// The checksum text of `s`: its CRC-16/XMODEM from `0xFFFF` as four hex digits.
pub open spec fn checksum_spec(s: Seq<char>, upper_case: bool) -> Seq<char> {
    padded_hex(crc16_spec(s, 0xffff) as nat, 4, upper_case)
}

/// The CRC-16/XMODEM of `payload` as four zero-padded hexadecimal digits,
/// upper case when `upper_case` is set.
pub fn checksum(payload: &str, upper_case: bool) -> (r: String)
    ensures
        r@ == checksum_spec(payload@, upper_case),
{
    let crc = crc16_xmodem(payload, 0xffff);
    let mut sum = String::new();
    append_padded_hex(&mut sum, crc as u32, 4, upper_case);
    sum
}

/// `payload` followed by the header of the checksum tag.
pub open spec fn crc_header(payload: Seq<char>, crc_tag_id: Seq<char>) -> Seq<char> {
    payload + zero_pad(crc_tag_id, 2) + seq!['0', '4']
}

/// `payload` with the checksum tag appended: the checksum covers the tag's
/// own header but not its value.
pub open spec fn with_crc_tag_spec(
    payload: Seq<char>,
    crc_tag_id: Seq<char>,
    upper_case: bool,
) -> Seq<char> {
    crc_header(payload, crc_tag_id) + checksum_spec(crc_header(payload, crc_tag_id), upper_case)
}

/// Appends the checksum tag to `payload`: the id zero-padded to two
/// characters, the length `04`, then the checksum of everything before it.
pub fn with_crc_tag(payload: &str, crc_tag_id: &str, upper_case: bool) -> (r: String)
    ensures
        r@ == with_crc_tag_spec(payload@, crc_tag_id@, upper_case),
{
    let mut result = String::from_str(payload);
    append_zero_padded(&mut result, crc_tag_id, 2);
    append_padded_dec(&mut result, 4, 2);
    proof {
        reveal_with_fuel(crate::utils::digits::dec_digits, 1);
        assert(padded_dec(4, 2) == seq!['0', '4']);
    }
    let sum = checksum(result.as_str(), upper_case);
    result.append(sum.as_str());
    result
}

/// The first of `tags` whose id is `id`.
pub open spec fn find_tag(tags: Seq<TlvTag>, id: Seq<char>) -> Option<TlvTag>
    decreases tags.len(),
{
    if tags.len() == 0 {
        None
    } else if tags[0].id@ == id {
        Some(tags[0])
    } else {
        find_tag(tags.drop_first(), id)
    }
}

/// The text of an optional borrowed string.
pub open spec fn opt_text(s: Option<&str>) -> Option<Seq<char>> {
    match s {
        Some(t) => Some(t@),
        None => None,
    }
}

/// The first tag with id `id`; with `sub_id`, the first of that tag's
/// sub-tags with id `sub_id`, and nothing where it has no sub-tags.
pub open spec fn lookup(tags: Seq<TlvTag>, id: Seq<char>, sub_id: Option<Seq<char>>) -> Option<
    TlvTag,
> {
    match find_tag(tags, id) {
        None => None,
        Some(t) => match sub_id {
            None => Some(t),
            Some(sid) => match t.sub_tags {
                Some(sub) => find_tag(sub@, sid),
                None => None,
            },
        },
    }
}

/// Whether two strings hold the same characters.
pub fn same_text(a: &str, b: &str) -> (r: bool)
    ensures
        r == (a@ == b@),
{
    let n = a.unicode_len();
    if n != b.unicode_len() {
        return false;
    }
    let mut i: usize = 0;
    while i < n
        invariant
            n == a@.len(),
            n == b@.len(),
            i <= n,
            forall|k: int| 0 <= k < i ==> a@[k] == b@[k],
        decreases n - i,
    {
        if a.get_char(i) != b.get_char(i) {
            return false;
        }
        i = i + 1;
    }
    assert(a@ =~= b@);
    true
}

fn find_in<'a>(tags: &'a [TlvTag], id: &str) -> (r: Option<&'a TlvTag>)
    ensures
        match find_tag(tags@, id@) {
            Some(t) => r == Some(&t),
            None => r is None,
        },
{
    let mut i: usize = 0;
    assert(tags@.subrange(0, tags@.len() as int) == tags@);
    while i < tags.len()
        invariant
            i <= tags@.len(),
            find_tag(tags@, id@) == find_tag(tags@.subrange(i as int, tags@.len() as int), id@),
        decreases tags@.len() - i,
    {
        let ghost rest = tags@.subrange(i as int, tags@.len() as int);
        assert(rest[0] == tags@[i as int]);
        assert(rest.drop_first() == tags@.subrange(i + 1, tags@.len() as int));
        if same_text(tags[i].id.as_str(), id) {
            return Some(&tags[i]);
        }
        i = i + 1;
    }
    None
}

/// Finds a tag by id, or one of its sub-tags by `sub_tag_id`.
pub fn get_tag<'a>(tlv_tags: &'a [TlvTag], tag_id: &str, sub_tag_id: Option<&str>) -> (r: Option<
    &'a TlvTag,
>)
    ensures
        match lookup(tlv_tags@, tag_id@, opt_text(sub_tag_id)) {
            Some(t) => r == Some(&t),
            None => r is None,
        },
{
    let t = match find_in(tlv_tags, tag_id) {
        Some(t) => t,
        None => {
            return None;
        },
    };
    match sub_tag_id {
        Some(sub_id) => match &t.sub_tags {
            Some(sub) => find_in(sub.as_slice(), sub_id),
            None => None,
        },
        None => Some(t),
    }
}

/// A leaf tag with a two-character id whose length is that of its value.
pub open spec fn is_plain_leaf(t: TlvTag) -> bool {
    &&& t.id@.len() == 2
    &&& t.sub_tags is None
    &&& t.length == t.value@.len()
}

/// A single leaf tag encodes to its id, its length field and its value.
pub proof fn lemma_encode_leaf(t: TlvTag)
    requires
        t.sub_tags is None,
    ensures
        encode_tags(seq![t]) == t.id@ + length_field(t.length as nat) + t.value@,
{
    let one = seq![t];
    assert(one.drop_last() =~= Seq::<TlvTag>::empty());
    assert(one.last() == t);
    assert(encode_tags(Seq::<TlvTag>::empty()) == Seq::<char>::empty());
    assert(encode_tags(one) == encode_tags(one.drop_last()) + t.id@ + length_field(t.length as nat)
        + t.value@);
    assert(Seq::<char>::empty() + t.id@ =~= t.id@);
}

/// Encoding distributes over concatenation.
pub proof fn lemma_encode_concat(a: Seq<TlvTag>, b: Seq<TlvTag>)
    ensures
        encode_tags(a + b) == encode_tags(a) + encode_tags(b),
    decreases b.len(),
{
    if b.len() == 0 {
        assert(a + b == a);
        assert(encode_tags(a) + encode_tags(b) == encode_tags(a));
    } else {
        lemma_encode_concat(a, b.drop_last());
        assert((a + b).drop_last() == a + b.drop_last());
        assert((a + b).last() == b.last());
    }
}

/// A length under 100 is written as two digits that read back as it.
pub proof fn lemma_length_field_two_digits(n: nat)
    requires
        n < 100,
    ensures
        length_field(n).len() == 2,
        length_value(length_field(n)[0], length_field(n)[1]) == Some(n),
{
    if n >= 10 {
        assert(dec_digits(n / 10) == seq![dec_digit(n / 10)]);
        assert(length_field(n) == seq![dec_digit(n / 10), dec_digit(n % 10)]);
    } else {
        assert(length_field(n) == seq!['0', dec_digit(n)]);
    }
}

/// Decoding the encoding of leaf tags with two-character ids and values
/// under 100 characters gives back their ids and values, in order.
pub proof fn lemma_round_trip(tags: Seq<TlvTag>)
    requires
        forall|i: int| 0 <= i < tags.len() ==> is_plain_leaf(#[trigger] tags[i]),
        forall|i: int| 0 <= i < tags.len() ==> (#[trigger] tags[i]).value@.len() < 100,
    ensures
        decode_spec(encode_tags(tags)) == Some(pairs_of(tags)),
{
    let pairs = pairs_of(tags);
    assert forall|i: int| 0 <= i < tags.len() implies is_leaf(
        #[trigger] tags[i],
        pairs[i].0,
        pairs[i].1,
    ) && pairs[i].0.len() == 2 && pairs[i].1.len() < 100 by {
        assert(is_plain_leaf(tags[i]));
    }
    assert(pairs_in_format(pairs));
    lemma_encode_leaves(tags, pairs);
    let s = encode_tags(tags);
    assert(s.subrange(0, s.len() as int) == s);
    lemma_decode_pairs(pairs, s, 0);
    assert(pairs + Seq::<(Seq<char>, Seq<char>)>::empty() == pairs);
}

/// A value of 100 characters or more gets a length field of three digits or
/// more, and the encoding of its tag no longer decodes to it.
pub proof fn lemma_long_value_breaks_round_trip(t: TlvTag)
    requires
        is_plain_leaf(t),
        t.value@.len() >= 100,
    ensures
        length_field(t.length as nat).len() >= 3,
        decode_spec(encode_tags(seq![t])) != Some(pairs_of(seq![t])),
{
    let n = t.length as nat;
    lemma_dec_digits_shape(n);
    let lf = length_field(n);
    assert(lf == dec_digits(n));
    let s = encode_tags(seq![t]);
    lemma_encode_leaf(t);
    assert(s[2] == lf[0] && s[3] == lf[1]);
    assert(is_digit(lf[0]) && is_digit(lf[1]));
    let m = 10 * digit_value(s[2]) + digit_value(s[3]);
    assert(length_value(s[2], s[3]) == Some(m));
    assert(m < 100);
    match decode_spec(s) {
        Some(pairs) => {
            assert(pairs[0].1.len() == m);
            assert(pairs_of(seq![t])[0].1 == t.value@);
        },
        None => {},
    }
}

/// The upper-case checksum is the lower-case one in upper case.
pub proof fn lemma_checksum_case(s: Seq<char>)
    ensures
        checksum_spec(s, true) == ascii_upper(checksum_spec(s, false)),
{
    lemma_padded_hex_upper(crc16_spec(s, 0xffff) as nat, 4);
}

/// Leaf tags encode as their pairs do.
pub proof fn lemma_encode_leaves(tags: Seq<TlvTag>, pairs: Seq<(Seq<char>, Seq<char>)>)
    requires
        leaves_of(tags, pairs),
    ensures
        encode_tags(tags) == encode_pairs(pairs),
    decreases tags.len(),
{
    if tags.len() > 0 {
        let k = tags.len() - 1;
        assert(leaves_of(tags.drop_last(), pairs.drop_last())) by {
            assert forall|i: int| 0 <= i < tags.drop_last().len() implies is_leaf(
                #[trigger] tags.drop_last()[i],
                pairs.drop_last()[i].0,
                pairs.drop_last()[i].1,
            ) by {
                assert(is_leaf(tags[i], pairs[i].0, pairs[i].1));
            }
        }
        lemma_encode_leaves(tags.drop_last(), pairs.drop_last());
        assert(is_leaf(tags[k], pairs[k].0, pairs[k].1));
    }
}

/// Encoding pairs distributes over concatenation.
pub proof fn lemma_encode_pairs_concat(
    a: Seq<(Seq<char>, Seq<char>)>,
    b: Seq<(Seq<char>, Seq<char>)>,
)
    ensures
        encode_pairs(a + b) == encode_pairs(a) + encode_pairs(b),
    decreases b.len(),
{
    if b.len() == 0 {
        assert(a + b == a);
        assert(encode_pairs(a) + encode_pairs(b) == encode_pairs(a));
    } else {
        lemma_encode_pairs_concat(a, b.drop_last());
        assert((a + b).drop_last() == a + b.drop_last());
        assert((a + b).last() == b.last());
    }
}

/// Reading the encoding of well-formed pairs walks over it pair by pair,
/// then goes on with what follows it.
pub proof fn lemma_decode_pairs(pairs: Seq<(Seq<char>, Seq<char>)>, s: Seq<char>, p: int)
    requires
        0 <= p,
        p + encode_pairs(pairs).len() <= s.len(),
        s.subrange(p, p + encode_pairs(pairs).len()) == encode_pairs(pairs),
        pairs_in_format(pairs),
    ensures
        decode_from(s, p) == prepend(pairs, decode_from(s, p + encode_pairs(pairs).len())),
    decreases pairs.len(),
{
    if pairs.len() == 0 {
        match decode_from(s, p) {
            Some(r) => assert(Seq::<(Seq<char>, Seq<char>)>::empty() + r =~= r),
            None => {},
        }
    } else {
        let (id, value) = pairs[0];
        let rest = pairs.drop_first();
        assert(pairs == seq![pairs[0]] + rest);
        lemma_encode_pairs_concat(seq![pairs[0]], rest);
        let one = seq![pairs[0]];
        assert(one.drop_last() =~= Seq::<(Seq<char>, Seq<char>)>::empty());
        assert(one.last() == (id, value));
        assert(encode_pairs(Seq::<(Seq<char>, Seq<char>)>::empty()) == Seq::<char>::empty());
        assert(encode_pairs(one) == encode_pairs(one.drop_last()) + id + length_field(value.len())
            + value);
        assert(encode_pairs(one) =~= id + length_field(value.len()) + value);
        let n = value.len();
        lemma_length_field_two_digits(n);
        let head = id + length_field(n) + value;
        let tail = encode_pairs(rest);
        let e = s.subrange(p, p + encode_pairs(pairs).len());
        assert(e == head + tail);
        assert(e[2] == s[p + 2]);
        assert(e[3] == s[p + 3]);
        assert(head[2] == length_field(n)[0]);
        assert(head[3] == length_field(n)[1]);
        assert(s.subrange(p, p + 2) =~= id);
        assert forall|k: int| 0 <= k < n implies s[p + 4 + k] == value[k] by {
            assert(e[4 + k] == s[p + 4 + k]);
            assert(head[4 + k] == value[k]);
        }
        assert(s.subrange(p + 4, p + 4 + n) =~= value);
        assert forall|k: int| 0 <= k < tail.len() implies s[p + 4 + n + k] == tail[k] by {
            assert(e[4 + n + k] == s[p + 4 + n + k]);
            assert((head + tail)[4 + n + k] == tail[k]);
        }
        assert(s.subrange(p + 4 + n, p + 4 + n + tail.len()) =~= tail);
        assert(pairs_in_format(rest)) by {
            assert forall|i: int| 0 <= i < rest.len() implies (#[trigger] rest[i]).0.len() == 2
                && rest[i].1.len() < 100 by {
                assert(rest[i] == pairs[i + 1]);
            }
        }
        lemma_decode_pairs(rest, s, p + 4 + n);
        match decode_from(s, p + encode_pairs(pairs).len()) {
            Some(r) => {
                assert(seq![(id, value)] + (rest + r) =~= pairs + r);
            },
            None => {},
        }
    }
}

/// What `decode_from` reads always has two-character ids and values under
/// 100 characters.
pub proof fn lemma_decoded_in_format(s: Seq<char>, p: int)
    ensures
        decode_from(s, p) matches Some(pairs) ==> pairs_in_format(pairs),
    decreases s.len() - p,
{
    if !(p < 0 || p + 4 > s.len()) {
        match length_value(s[p + 2], s[p + 3]) {
            Some(n) => {
                if p + 4 + n <= s.len() {
                    lemma_decoded_in_format(s, p + 4 + n);
                    match decode_from(s, p + 4 + n) {
                        Some(rest) => {
                            let first = (s.subrange(p, p + 2), s.subrange(p + 4, p + 4 + n));
                            let all = seq![first] + rest;
                            assert forall|i: int| 0 <= i < all.len() implies (
                            #[trigger] all[i]).0.len() == 2 && all[i].1.len() < 100 by {
                                if i > 0 {
                                    assert(all[i] == rest[i - 1]);
                                }
                            }
                        },
                        None => {},
                    }
                }
            },
            None => {},
        }
    }
}

} // verus!
