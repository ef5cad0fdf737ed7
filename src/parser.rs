//! Reading a payload: structural checks, the optional checksum check,
//! decoding, and the optional expansion of nested tag sequences.
use vstd::prelude::*;

use crate::bot_barcode::{barcode_pieces, read_from, BotBarcode};
use crate::emvco_qr::{validate_spec, without_id, EmvCoQr};
use crate::tlv::{
    checksum, checksum_spec, crc_header, decode, decode_from, decode_spec, encode, encode_pairs,
    encode_tags, find_tag, lemma_decode_pairs, lemma_decoded_in_format, lemma_encode_leaves,
    leaves_of, length_value, lookup, with_crc_tag_spec, TlvTag,
};
use crate::utils::checksum::crc16_spec;
use crate::utils::digits::{
    ascii_upper, ascii_upper_char, digit_value, is_digit, lemma_hex16_shape, padded_hex,
    zero_pad,
};

verus! {

/// The first four characters of `s` are ASCII digits.
pub open spec fn leading_digits(s: Seq<char>) -> bool {
    &&& s.len() >= 4
    &&& forall|k: int| 0 <= k < 4 ==> is_digit(#[trigger] s[k])
}

/// The last four characters of `s`, upper-cased, are the upper-case
/// checksum of everything before them.
pub open spec fn checksum_matches(s: Seq<char>) -> bool {
    ascii_upper(s.subrange(s.len() - 4, s.len() as int)) == checksum_spec(
        s.subrange(0, s.len() - 4),
        true,
    )
}

/// The top-level (id, value) pairs of `s` when it is accepted as a payload,
/// and `None` where it is rejected.
pub open spec fn accepted_pairs(s: Seq<char>, strict: bool) -> Option<
    Seq<(Seq<char>, Seq<char>)>,
> {
    if s.len() < 5 || !leading_digits(s) || (strict && !checksum_matches(s)) {
        None
    } else {
        match decode_spec(s) {
            Some(pairs) => if pairs.len() > 0 {
                Some(pairs)
            } else {
                None
            },
            None => None,
        }
    }
}

/// The value decomposes into nested tags the way the expansion policy asks:
/// it decodes, every nested value is non-empty, and the nested tags encode
/// back to exactly the value.
pub open spec fn decomposes(value: Seq<char>) -> bool {
    match decode_spec(value) {
        Some(pairs) => (forall|j: int| 0 <= j < pairs.len() ==> (#[trigger] pairs[j]).1.len() > 0)
            && encode_pairs(pairs) == value,
        None => false,
    }
}

/// The sub-tag pairs of a value, under the conservative policy: the value is
/// at least five characters long, starts with four digits and decomposes.
/// Decomposing asks more than decoding without error: each nested length
/// must be positive and must count exactly the characters it covers, and
/// together the nested tags must cover the whole value.
pub open spec fn nested_pairs(value: Seq<char>) -> Option<Seq<(Seq<char>, Seq<char>)>> {
    if value.len() >= 5 && leading_digits(value) && decomposes(value) {
        decode_spec(value)
    } else {
        None
    }
}

/// `t` is the top-level tag read as (`id`, `value`), with sub-tags exactly
/// where expansion was asked for and the policy accepts the value.
pub open spec fn parsed_tag(t: TlvTag, id: Seq<char>, value: Seq<char>, expand: bool) -> bool {
    &&& t.id@ == id
    &&& t.value@ == value
    &&& t.length == value.len()
    &&& if expand && nested_pairs(value) is Some {
        t.sub_tags is Some && leaves_of(t.sub_tags->0@, nested_pairs(value)->0)
    } else {
        t.sub_tags is None
    }
}

/// `tags` are the tags read from `pairs`, in order.
pub open spec fn parsed_tags(
    tags: Seq<TlvTag>,
    pairs: Seq<(Seq<char>, Seq<char>)>,
    expand: bool,
) -> bool {
    &&& tags.len() == pairs.len()
    &&& forall|i: int|
        0 <= i < tags.len() ==> parsed_tag(#[trigger] tags[i], pairs[i].0, pairs[i].1, expand)
}

fn has_leading_digits(s: &str) -> (r: bool)
    ensures
        r == leading_digits(s@),
{
    if s.unicode_len() < 4 {
        return false;
    }
    let mut k: usize = 0;
    while k < 4
        invariant
            k <= 4,
            s@.len() >= 4,
            forall|j: int| 0 <= j < k ==> is_digit(#[trigger] s@[j]),
        decreases 4 - k,
    {
        let c = s.get_char(k);
        if !('0' <= c && c <= '9') {
            return false;
        }
        k = k + 1;
    }
    true
}

fn upper_matches(c: char, h: char) -> (r: bool)
    ensures
        r == (ascii_upper_char(c) == h),
{
    if 'a' <= c && c <= 'z' {
        (c as u32) - 32 == h as u32
    } else {
        c == h
    }
}

fn checksum_holds(payload: &str) -> (r: bool)
    requires
        payload@.len() >= 4,
    ensures
        r == checksum_matches(payload@),
{
    let n = payload.unicode_len();
    let body = payload.substring_char(0, n - 4);
    let expected = checksum(body, true);
    proof {
        lemma_hex16_shape(crc16_spec(body@, 0xffff) as nat, true);
    }
    assert(expected@.len() == 4);
    let ghost tail = payload@.subrange(n - 4, n as int);
    let mut k: usize = 0;
    while k < 4
        invariant
            n == payload@.len(),
            n >= 4,
            k <= 4,
            expected@.len() == 4,
            tail == payload@.subrange(n - 4, n as int),
            expected@ == checksum_spec(payload@.subrange(0, n - 4), true),
            forall|j: int| 0 <= j < k ==> ascii_upper_char(#[trigger] tail[j]) == expected@[j],
        decreases 4 - k,
    {
        if !upper_matches(payload.get_char(n - 4 + k), expected.as_str().get_char(k)) {
            assert(ascii_upper(tail)[k as int] != expected@[k as int]);
            return false;
        }
        k = k + 1;
    }
    assert(ascii_upper(tail) =~= expected@);
    true
}

/// Reads `value` as a nested tag sequence under the conservative policy of
/// `nested_pairs`; `None` where the policy refuses it.
pub fn speculative_nested_decode(value: &str) -> (r: Option<Vec<TlvTag>>)
    ensures
        match nested_pairs(value@) {
            Some(pairs) => r is Some && leaves_of(r->0@, pairs),
            None => r is None,
        },
{
    if value.unicode_len() < 5 || !has_leading_digits(value) {
        return None;
    }
    let sub = match decode(value) {
        Ok(sub) => sub,
        Err(_) => {
            return None;
        },
    };
    let ghost pairs = decode_spec(value@)->0;
    let mut i: usize = 0;
    while i < sub.len()
        invariant
            decode_spec(value@) == Some(pairs),
            leaves_of(sub@, pairs),
            i <= sub@.len(),
            forall|j: int| 0 <= j < i ==> (#[trigger] pairs[j]).1.len() > 0,
        decreases sub@.len() - i,
    {
        if sub[i].length == 0 {
            assert(pairs[i as int].1.len() == 0);
            return None;
        }
        i = i + 1;
    }
    let text = encode(sub.as_slice());
    proof {
        lemma_encode_leaves(sub@, pairs);
    }
    if !crate::tlv::same_text(text.as_str(), value) {
        return None;
    }
    Some(sub)
}

/// Parses a payload into its tags, or gives `None` where it is not one.
///
/// Rejected: text under five characters; text whose first four characters
/// are not all digits; with `strict`, text whose last four characters,
/// upper-cased, are not the upper-case checksum of the rest; text that does
/// not decode, or decodes to no tag. With `sub_tags`, each top-level value
/// that `speculative_nested_decode` accepts gets its nested tags.
pub fn parse(payload: &str, strict: bool, sub_tags: bool) -> (r: Option<EmvCoQr>)
    ensures
        match accepted_pairs(payload@, strict) {
            Some(pairs) => r is Some && r->0.spec_payload() == payload@ && parsed_tags(
                r->0.spec_tags(),
                pairs,
                sub_tags,
            ),
            None => r is None,
        },
{
    let n = payload.unicode_len();
    if n < 5 {
        return None;
    }
    if !has_leading_digits(payload) {
        return None;
    }
    if strict && !checksum_holds(payload) {
        return None;
    }
    let decoded = match decode(payload) {
        Ok(tags) => tags,
        Err(_) => {
            return None;
        },
    };
    if decoded.len() == 0 {
        return None;
    }
    let ghost pairs = decode_spec(payload@)->0;
    let mut tags: Vec<TlvTag> = Vec::new();
    let mut i: usize = 0;
    while i < decoded.len()
        invariant
            leaves_of(decoded@, pairs),
            i <= decoded@.len(),
            tags@.len() == i,
            forall|j: int|
                0 <= j < i ==> parsed_tag(#[trigger] tags@[j], pairs[j].0, pairs[j].1, sub_tags),
        decreases decoded@.len() - i,
    {
        let t = &decoded[i];
        let nested = if sub_tags {
            speculative_nested_decode(t.value.as_str())
        } else {
            None
        };
        let item = TlvTag {
            id: t.id.clone(),
            value: t.value.clone(),
            sub_tags: nested,
            length: t.length,
        };
        tags.push(item);
        i = i + 1;
    }
    Some(EmvCoQr::new(String::from_str(payload), tags))
}

/// Reads a bill payment barcode; `None` where `payload` is not one.
pub fn parse_barcode(payload: &str) -> (r: Option<BotBarcode>)
    ensures
        match barcode_pieces(payload@) {
            Some(p) => r is Some && read_from(p, r->0),
            None => r is None,
        },
{
    BotBarcode::from_string(payload)
}

/// Expansion is conservative: a top-level tag whose value does not decompose
/// into non-empty, length-consistent nested tags has no sub-tags after
/// parsing, whether or not its value starts with four digits.
pub proof fn lemma_expansion_conservative(
    tags: Seq<TlvTag>,
    pairs: Seq<(Seq<char>, Seq<char>)>,
    expand: bool,
    i: int,
)
    requires
        parsed_tags(tags, pairs, expand),
        0 <= i < tags.len(),
        !decomposes(pairs[i].1),
    ensures
        tags[i].sub_tags is None,
{
    assert(parsed_tag(tags[i], pairs[i].0, pairs[i].1, expand));
}

/// In strict mode, changing one of the last four characters of an accepted
/// payload into one that differs from it even after upper-casing gets the
/// payload rejected.
pub proof fn lemma_strict_rejects_changed_checksum(s: Seq<char>, t: Seq<char>, i: int)
    requires
        accepted_pairs(s, true) is Some,
        t.len() == s.len(),
        s.len() - 4 <= i < s.len(),
        forall|k: int| 0 <= k < s.len() && k != i ==> t[k] == s[k],
        ascii_upper_char(t[i]) != ascii_upper_char(s[i]),
    ensures
        accepted_pairs(t, true) is None,
{
    let n = s.len() as int;
    assert(t.subrange(0, n - 4) =~= s.subrange(0, n - 4));
    let k = i - (n - 4);
    if checksum_matches(t) {
        assert(ascii_upper(t.subrange(n - 4, n))[k] == ascii_upper(s.subrange(n - 4, n))[k]);
        assert(false);
    }
}

/// Without the tags whose id is `id`, where none has it, nothing changes.
pub proof fn lemma_without_absent_id(tags: Seq<TlvTag>, id: Seq<char>)
    requires
        forall|j: int| 0 <= j < tags.len() ==> (#[trigger] tags[j]).id@ != id,
    ensures
        without_id(tags, id) == tags,
    decreases tags.len(),
{
    if tags.len() > 0 {
        lemma_without_absent_id(tags.drop_last(), id);
        assert(tags.drop_last().push(tags.last()) =~= tags);
    }
}

/// Parsed tags encode as the pairs they were read from: a nested tag
/// sequence is only kept where it encodes back to the value.
pub proof fn lemma_encode_parsed(
    tags: Seq<TlvTag>,
    pairs: Seq<(Seq<char>, Seq<char>)>,
    expand: bool,
)
    requires
        parsed_tags(tags, pairs, expand),
    ensures
        encode_tags(tags) == encode_pairs(pairs),
    decreases tags.len(),
{
    if tags.len() > 0 {
        let k = tags.len() - 1;
        let t = tags[k];
        assert(parsed_tags(tags.drop_last(), pairs.drop_last(), expand)) by {
            assert forall|i: int| 0 <= i < tags.drop_last().len() implies parsed_tag(
                #[trigger] tags.drop_last()[i],
                pairs.drop_last()[i].0,
                pairs.drop_last()[i].1,
                expand,
            ) by {
                assert(parsed_tag(tags[i], pairs[i].0, pairs[i].1, expand));
            }
        }
        lemma_encode_parsed(tags.drop_last(), pairs.drop_last(), expand);
        assert(parsed_tag(t, pairs[k].0, pairs[k].1, expand));
        match t.sub_tags {
            Some(sub) => {
                lemma_encode_leaves(sub@, nested_pairs(pairs[k].1)->0);
            },
            None => {},
        }
    }
}

/// A checksum tag appended to a well-formed payload makes it one that
/// `parse` accepts, in either mode, and whose tags `validate` confirms with
/// the same tag id. Well-formed: the payload decodes and encodes back to
/// itself, no tag in it already has the id, the id has two characters, and
/// the result starts with four digits.
pub proof fn lemma_crc_tag_validates(
    p: Seq<char>,
    crc_tag_id: Seq<char>,
    strict: bool,
    expand: bool,
)
    requires
        crc_tag_id.len() == 2,
        leading_digits(crc_header(p, crc_tag_id)),
        decode_spec(p) matches Some(pairs) && encode_pairs(pairs) == p && forall|j: int|
            0 <= j < pairs.len() ==> (#[trigger] pairs[j]).0 != crc_tag_id,
    ensures
        accepted_pairs(with_crc_tag_spec(p, crc_tag_id, true), strict) is Some,
        forall|tags: Seq<TlvTag>|
            #[trigger] parsed_tags(
                tags,
                accepted_pairs(with_crc_tag_spec(p, crc_tag_id, true), strict)->0,
                expand,
            ) ==> validate_spec(with_crc_tag_spec(p, crc_tag_id, true), tags, crc_tag_id),
{
    let pairs = decode_spec(p)->0;
    let t = crc_tag_id;
    let h = crc_header(p, t);
    assert(zero_pad(t, 2) == t);
    let crc = crc16_spec(h, 0xffff);
    lemma_hex16_shape(crc as nat, true);
    let cs = checksum_spec(h, true);
    assert(cs == padded_hex(crc as nat, 4, true));
    assert(cs.len() == 4);
    let s = with_crc_tag_spec(p, t, true);
    assert(s == h + cs);
    let n = s.len() as int;
    let m = p.len() as int;
    assert(n == m + 8);
    // structural checks
    assert forall|k: int| 0 <= k < 4 implies is_digit(#[trigger] s[k]) by {
        assert(s[k] == h[k]);
    }
    assert(s.subrange(0, n - 4) =~= h);
    assert(s.subrange(n - 4, n) =~= cs);
    assert(ascii_upper(cs) =~= cs) by {
        assert forall|k: int| 0 <= k < 4 implies ascii_upper(cs)[k] == cs[k] by {
            let d = crate::utils::digits::hex_digits(crc as nat, true);
            if d.len() < 4 {
                if k >= 4 - d.len() {
                    assert(cs[k] == d[k - (4 - d.len())]);
                }
            }
        }
    }
    assert(checksum_matches(s));
    // decoding: the payload's own tags, then the checksum tag
    lemma_decoded_in_format(p, 0);
    assert(s.subrange(0, m) =~= p);
    lemma_decode_pairs(pairs, s, 0);
    assert(s[m + 2] == '0' && s[m + 3] == '4');
    assert(digit_value('0') == 0 && digit_value('4') == 4);
    assert(length_value(s[m + 2], s[m + 3]) == Some(4nat));
    assert(decode_from(s, m + 8) == Some(Seq::<(Seq<char>, Seq<char>)>::empty()));
    assert(s.subrange(m, m + 2) =~= t);
    assert(s.subrange(m + 4, m + 8) =~= cs);
    let last = seq![(t, cs)];
    assert(decode_from(s, m) == Some(last + Seq::<(Seq<char>, Seq<char>)>::empty()));
    assert(last + Seq::<(Seq<char>, Seq<char>)>::empty() =~= last);
    let all = pairs + last;
    assert(decode_spec(s) == Some(all));
    assert(accepted_pairs(s, strict) == Some(all));
    // validation
    assert forall|tags: Seq<TlvTag>| #[trigger]
        parsed_tags(tags, all, expand) implies validate_spec(s, tags, t) by {
        let k = pairs.len() as int;
        let front = tags.drop_last();
        assert(parsed_tag(tags[k], all[k].0, all[k].1, expand));
        assert(tags.last().id@ == t);
        assert forall|j: int| 0 <= j < front.len() implies (#[trigger] front[j]).id@ != t by {
            assert(parsed_tag(tags[j], all[j].0, all[j].1, expand));
            assert(all[j] == pairs[j]);
        }
        lemma_without_absent_id(front, t);
        assert(without_id(tags, t) == front);
        assert(all.drop_last() =~= pairs);
        assert(parsed_tags(front, pairs, expand)) by {
            assert forall|i: int| 0 <= i < front.len() implies parsed_tag(
                #[trigger] front[i],
                pairs[i].0,
                pairs[i].1,
                expand,
            ) by {
                assert(parsed_tag(tags[i], all[i].0, all[i].1, expand));
                assert(all[i] == pairs[i]);
            }
        }
        lemma_encode_parsed(front, pairs, expand);
    }
}

/// The first pair whose id is `id`.
pub open spec fn find_pair(pairs: Seq<(Seq<char>, Seq<char>)>, id: Seq<char>) -> Option<
    (Seq<char>, Seq<char>),
>
    decreases pairs.len(),
{
    if pairs.len() == 0 {
        None
    } else if pairs[0].0 == id {
        Some(pairs[0])
    } else {
        find_pair(pairs.drop_first(), id)
    }
}

/// The value that a lookup by `id` (and `sub_id`) finds in a payload parsed
/// from `pairs`, with or without expansion.
pub open spec fn value_at(
    pairs: Seq<(Seq<char>, Seq<char>)>,
    id: Seq<char>,
    sub_id: Option<Seq<char>>,
    expand: bool,
) -> Option<Seq<char>> {
    match find_pair(pairs, id) {
        None => None,
        Some(p) => match sub_id {
            None => Some(p.1),
            Some(sid) => if expand {
                match nested_pairs(p.1) {
                    Some(sub) => match find_pair(sub, sid) {
                        Some(q) => Some(q.1),
                        None => None,
                    },
                    None => None,
                }
            } else {
                None
            },
        },
    }
}

proof fn lemma_find_matches(
    tags: Seq<TlvTag>,
    pairs: Seq<(Seq<char>, Seq<char>)>,
    id: Seq<char>,
)
    requires
        tags.len() == pairs.len(),
        forall|i: int| 0 <= i < tags.len() ==> (#[trigger] tags[i]).id@ == pairs[i].0,
    ensures
        find_tag(tags, id) is Some <==> find_pair(pairs, id) is Some,
        find_tag(tags, id) is Some ==> exists|i: int|
            0 <= i < tags.len() && find_tag(tags, id) == Some(tags[i]) && find_pair(pairs, id)
                == Some(#[trigger] pairs[i]),
    decreases tags.len(),
{
    if tags.len() > 0 && tags[0].id@ != id {
        let rt = tags.drop_first();
        let rp = pairs.drop_first();
        assert forall|i: int| 0 <= i < rt.len() implies (#[trigger] rt[i]).id@ == rp[i].0 by {
            assert(rt[i] == tags[i + 1]);
        }
        lemma_find_matches(rt, rp, id);
        if find_tag(rt, id) is Some {
            let i = choose|i: int|
                0 <= i < rt.len() && find_tag(rt, id) == Some(rt[i]) && find_pair(rp, id) == Some(
                    #[trigger] rp[i],
                );
            assert(tags[i + 1] == rt[i] && pairs[i + 1] == rp[i]);
        }
    } else if tags.len() > 0 {
        assert(find_pair(pairs, id) == Some(pairs[0]));
    }
}

/// A lookup in the tags of a parsed payload finds the value that `value_at`
/// names.
pub proof fn lemma_lookup_parsed(
    tags: Seq<TlvTag>,
    pairs: Seq<(Seq<char>, Seq<char>)>,
    expand: bool,
    id: Seq<char>,
    sub_id: Option<Seq<char>>,
)
    requires
        parsed_tags(tags, pairs, expand),
    ensures
        match lookup(tags, id, sub_id) {
            Some(t) => value_at(pairs, id, sub_id, expand) == Some(t.value@),
            None => value_at(pairs, id, sub_id, expand) is None,
        },
{
    assert forall|i: int| 0 <= i < tags.len() implies (#[trigger] tags[i]).id@ == pairs[i].0 by {
        assert(parsed_tag(tags[i], pairs[i].0, pairs[i].1, expand));
    }
    lemma_find_matches(tags, pairs, id);
    if find_tag(tags, id) is Some {
        let i = choose|i: int|
            0 <= i < tags.len() && find_tag(tags, id) == Some(tags[i]) && find_pair(pairs, id)
                == Some(#[trigger] pairs[i]);
        let t = tags[i];
        assert(parsed_tag(t, pairs[i].0, pairs[i].1, expand));
        match sub_id {
            Some(sid) => {
                match t.sub_tags {
                    Some(sub) => {
                        let sp = nested_pairs(pairs[i].1)->0;
                        assert(leaves_of(sub@, sp));
                        assert forall|j: int| 0 <= j < sub@.len() implies (#[trigger] sub@[j]).id@
                            == sp[j].0 by {
                            assert(crate::tlv::is_leaf(sub@[j], sp[j].0, sp[j].1));
                        }
                        lemma_find_matches(sub@, sp, sid);
                        if find_tag(sub@, sid) is Some {
                            let j = choose|j: int|
                                0 <= j < sub@.len() && find_tag(sub@, sid) == Some(sub@[j])
                                    && find_pair(sp, sid) == Some(#[trigger] sp[j]);
                            assert(crate::tlv::is_leaf(sub@[j], sp[j].0, sp[j].1));
                        }
                    },
                    None => {},
                }
            },
            None => {},
        }
    }
}

} // verus!
