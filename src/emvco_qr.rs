//! A decoded payload together with the text it was read from.
use vstd::prelude::*;

use crate::tlv::{
    append_tag, encode_tags, get_tag, lemma_encode_concat, lookup, opt_text, same_text,
    with_crc_tag, with_crc_tag_spec, TlvTag,
};

verus! {

/// `tags` without those whose id is `id`, in order.
pub open spec fn without_id(tags: Seq<TlvTag>, id: Seq<char>) -> Seq<TlvTag>
    decreases tags.len(),
{
    if tags.len() == 0 {
        Seq::empty()
    } else if tags.last().id@ == id {
        without_id(tags.drop_last(), id)
    } else {
        without_id(tags.drop_last(), id).push(tags.last())
    }
}

/// Whether `payload` is exactly what re-encoding `tags` without the checksum
/// tag `crc_tag_id`, then appending a fresh upper-case checksum tag, gives.
pub open spec fn validate_spec(
    payload: Seq<char>,
    tags: Seq<TlvTag>,
    crc_tag_id: Seq<char>,
) -> bool {
    payload == with_crc_tag_spec(encode_tags(without_id(tags, crc_tag_id)), crc_tag_id, true)
}

/// A decoded payload: the text it was read from and its top-level tags.
#[derive(Debug)]
pub struct EmvCoQr {
    payload: String,
    tags: Vec<TlvTag>,
}

impl EmvCoQr {
    /// The text the payload was read from.
    pub closed spec fn spec_payload(&self) -> Seq<char> {
        self.payload@
    }

    /// The top-level tags.
    pub closed spec fn spec_tags(&self) -> Seq<TlvTag> {
        self.tags@
    }

    pub fn new(payload: String, tags: Vec<TlvTag>) -> (r: EmvCoQr)
        ensures
            r.spec_payload() == payload@,
            r.spec_tags() == tags@,
    {
        EmvCoQr { payload, tags }
    }

    /// The first tag with id `tag_id`, or with `sub_tag_id` the first of its
    /// sub-tags with that id.
    pub fn get_tag(&self, tag_id: &str, sub_tag_id: Option<&str>) -> (r: Option<&TlvTag>)
        ensures
            match lookup(self.spec_tags(), tag_id@, opt_text(sub_tag_id)) {
                Some(t) => r == Some(&t),
                None => r is None,
            },
    {
        get_tag(self.tags.as_slice(), tag_id, sub_tag_id)
    }

    /// The value of the tag that `get_tag` finds.
    pub fn get_tag_value(&self, tag_id: &str, sub_tag_id: Option<&str>) -> (r: Option<&str>)
        ensures
            match lookup(self.spec_tags(), tag_id@, opt_text(sub_tag_id)) {
                Some(t) => r is Some && r->0@ == t.value@,
                None => r is None,
            },
    {
        match self.get_tag(tag_id, sub_tag_id) {
            Some(t) => Some(t.value.as_str()),
            None => None,
        }
    }

    pub fn get_tags(&self) -> (r: &[TlvTag])
        ensures
            r@ == self.spec_tags(),
    {
        self.tags.as_slice()
    }

    pub fn get_payload(&self) -> (r: &str)
        ensures
            r@ == self.spec_payload(),
    {
        self.payload.as_str()
    }

    /// Re-encodes the tags other than the checksum tag `crc_tag_id`, appends
    /// a fresh upper-case checksum tag and compares the result with the
    /// text the payload was read from, character for character.
    pub fn validate(&self, crc_tag_id: &str) -> (r: bool)
        ensures
            r == validate_spec(self.spec_payload(), self.spec_tags(), crc_tag_id@),
    {
        let ghost tags = self.tags@;
        let ghost id = crc_tag_id@;
        let mut body = String::new();
        let mut i: usize = 0;
        while i < self.tags.len()
            invariant
                tags == self.tags@,
                id == crc_tag_id@,
                i <= tags.len(),
                body@ == encode_tags(without_id(tags.subrange(0, i as int), id)),
            decreases tags.len() - i,
        {
            let ghost before = tags.subrange(0, i as int);
            assert(tags.subrange(0, i + 1).drop_last() == before);
            assert(tags.subrange(0, i + 1).last() == tags[i as int]);
            let t = &self.tags[i];
            if !same_text(t.id.as_str(), crc_tag_id) {
                append_tag(&mut body, t);
                proof {
                    lemma_encode_concat(without_id(before, id), seq![*t]);
                    assert(without_id(before, id).push(*t) == without_id(before, id) + seq![*t]);
                }
            }
            i = i + 1;
        }
        assert(tags.subrange(0, tags.len() as int) == tags);
        let expected = with_crc_tag(body.as_str(), crc_tag_id, true);
        same_text(self.payload.as_str(), expected.as_str())
    }
}

} // verus!
