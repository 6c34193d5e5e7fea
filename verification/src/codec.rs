//! The record codec: a deterministic byte encoding of `Asset` with a fixed
//! upper bound on the encoded size, and its inverse.
//!
//! Layout: four fixed-width `u64` fields (id, price, creator_id, created_at,
//! little endian), a one-byte presence tag followed by eight bytes for
//! `updated_at` (all zero when absent), then the three strings, each as a
//! four-byte little-endian byte length followed by its UTF-8 bytes.

use vstd::prelude::*;
use vstd::bytes::{
    spec_u32_to_le_bytes, spec_u32_from_le_bytes, spec_u64_to_le_bytes, spec_u64_from_le_bytes,
    lemma_auto_spec_u32_to_from_le_bytes, lemma_auto_spec_u64_to_from_le_bytes, u32_from_le_bytes,
    u32_to_le_bytes, u64_from_le_bytes, u64_to_le_bytes,
};
use vstd::utf8::{
    decode_utf8, encode_utf8, valid_utf8, encode_utf8_valid_utf8, encode_utf8_decode_utf8,
};
use vstd::string::StrSliceExecFns;
use vstd::slice::{slice_subrange, slice_index_get, slice_to_vec};
use vstd::assert_seqs_equal;
use crate::asset::{Asset, AssetView};

verus! {

/// No encoded record may be longer than this many bytes.
pub const MAX_ENCODED_SIZE: usize = 1024;

/// Bytes taken by the fixed-width fields and the three length prefixes.
pub const FIXED_ENCODED_LEN: usize = 53;

/// The encoding of one string field: a four-byte little-endian length prefix
/// followed by the string's UTF-8 bytes.
pub open spec fn field_bytes(s: Seq<char>) -> Seq<u8> {
    spec_u32_to_le_bytes(encode_utf8(s).len() as u32) + encode_utf8(s)
}

/// The encoding of the optional update timestamp: a presence tag byte
/// followed by eight value bytes, all zero when the timestamp is absent.
pub open spec fn updated_bytes(u: Option<u64>) -> Seq<u8> {
    match u {
        Option::None => seq![0u8] + spec_u64_to_le_bytes(0),
        Option::Some(t) => seq![1u8] + spec_u64_to_le_bytes(t),
    }
}

/// The full encoding of an asset.
pub open spec fn encode_spec(a: AssetView) -> Seq<u8> {
    spec_u64_to_le_bytes(a.id) + spec_u64_to_le_bytes(a.price) + spec_u64_to_le_bytes(a.creator_id)
        + spec_u64_to_le_bytes(a.created_at) + updated_bytes(a.updated_at) + field_bytes(a.title)
        + field_bytes(a.description) + field_bytes(a.asset_url)
}

/// How many bytes the encoding of `a` takes.
pub open spec fn encoded_len(a: AssetView) -> int {
    FIXED_ENCODED_LEN + encode_utf8(a.title).len() + encode_utf8(a.description).len()
        + encode_utf8(a.asset_url).len()
}

/// Whether an asset's encoding stays within the declared maximum size.
pub open spec fn fits(a: AssetView) -> bool {
    encoded_len(a) <= MAX_ENCODED_SIZE
}

/// Whether the strings of a payload are small enough that any record built
/// from them stays within the maximum encoded size.
pub open spec fn strings_fit(title: Seq<char>, description: Seq<char>, asset_url: Seq<char>) -> bool {
    FIXED_ENCODED_LEN + encode_utf8(title).len() + encode_utf8(description).len()
        + encode_utf8(asset_url).len() <= MAX_ENCODED_SIZE
}

/// Parses one length-prefixed string field from the front of `b`, returning
/// the decoded characters and the remaining bytes.
pub open spec fn parse_field(b: Seq<u8>) -> Option<(Seq<char>, Seq<u8>)> {
    if b.len() < 4 {
        Option::None
    } else {
        let n = spec_u32_from_le_bytes(b.subrange(0, 4)) as int;
        if b.len() < 4 + n {
            Option::None
        } else if !valid_utf8(b.subrange(4, 4 + n)) {
            Option::None
        } else {
            Option::Some((decode_utf8(b.subrange(4, 4 + n)), b.subrange(4 + n, b.len() as int)))
        }
    }
}

/// The decoding of a byte sequence: the unique asset whose encoding is
/// exactly `b`, or nothing if `b` is not such an encoding.
pub open spec fn decode_spec(b: Seq<u8>) -> Option<AssetView> {
    if b.len() < 41 {
        Option::None
    } else {
        let id = spec_u64_from_le_bytes(b.subrange(0, 8));
        let price = spec_u64_from_le_bytes(b.subrange(8, 16));
        let creator_id = spec_u64_from_le_bytes(b.subrange(16, 24));
        let created_at = spec_u64_from_le_bytes(b.subrange(24, 32));
        let tag = b[32];
        let upd = spec_u64_from_le_bytes(b.subrange(33, 41));
        if !(tag == 0 || tag == 1) || (tag == 0 && upd != 0) {
            Option::None
        } else {
            let updated_at = if tag == 1 { Option::Some(upd) } else { Option::<u64>::None };
            match parse_field(b.subrange(41, b.len() as int)) {
                Option::None => Option::None,
                Option::Some((title, rest1)) => match parse_field(rest1) {
                    Option::None => Option::None,
                    Option::Some((description, rest2)) => match parse_field(rest2) {
                        Option::None => Option::None,
                        Option::Some((asset_url, rest3)) => if rest3.len() == 0 {
                            Option::Some(
                                AssetView {
                                    id,
                                    title,
                                    description,
                                    asset_url,
                                    price,
                                    creator_id,
                                    created_at,
                                    updated_at,
                                },
                            )
                        } else {
                            Option::None
                        },
                    },
                },
            }
        }
    }
}

/// The encoding is as long as `encoded_len` says.
pub proof fn lemma_encoded_len(a: AssetView)
    ensures
        encode_spec(a).len() == encoded_len(a),
{
    lemma_auto_spec_u64_to_from_le_bytes();
    lemma_auto_spec_u32_to_from_le_bytes();
}

/// Parsing one field from an encoding that starts with that field yields the
/// field's characters and the remaining bytes.
proof fn lemma_parse_field(s: Seq<char>, rest: Seq<u8>)
    requires
        encode_utf8(s).len() <= u32::MAX,
    ensures
        parse_field(field_bytes(s) + rest) == Option::Some((s, rest)),
{
    broadcast use encode_utf8_valid_utf8, encode_utf8_decode_utf8;

    lemma_auto_spec_u32_to_from_le_bytes();
    let b = field_bytes(s) + rest;
    let n = encode_utf8(s).len() as int;
    assert_seqs_equal!(b.subrange(0, 4) == spec_u32_to_le_bytes(encode_utf8(s).len() as u32));
    assert(spec_u32_from_le_bytes(b.subrange(0, 4)) == n);
    assert_seqs_equal!(b.subrange(4, 4 + n) == encode_utf8(s));
    assert_seqs_equal!(b.subrange(4 + n, b.len() as int) == rest);
}

/// Decoding inverts encoding: any asset within the size bound comes back
/// unchanged from its own encoding.
pub proof fn lemma_round_trip(a: AssetView)
    requires
        fits(a),
    ensures
        decode_spec(encode_spec(a)) == Option::Some(a),
{
    lemma_auto_spec_u64_to_from_le_bytes();
    lemma_auto_spec_u32_to_from_le_bytes();
    lemma_encoded_len(a);
    let b = encode_spec(a);
    assert(b.len() >= 53);
    assert_seqs_equal!(b.subrange(0, 8) == spec_u64_to_le_bytes(a.id));
    assert_seqs_equal!(b.subrange(8, 16) == spec_u64_to_le_bytes(a.price));
    assert_seqs_equal!(b.subrange(16, 24) == spec_u64_to_le_bytes(a.creator_id));
    assert_seqs_equal!(b.subrange(24, 32) == spec_u64_to_le_bytes(a.created_at));
    assert(b[32] == updated_bytes(a.updated_at)[0]);
    assert_seqs_equal!(b.subrange(33, 41) == updated_bytes(a.updated_at).subrange(1, 9));
    match a.updated_at {
        Option::Some(t) => {
            assert(updated_bytes(a.updated_at)[0] == 1);
            assert_seqs_equal!(updated_bytes(a.updated_at).subrange(1, 9)
                == spec_u64_to_le_bytes(t));
        },
        Option::None => {
            assert(updated_bytes(a.updated_at)[0] == 0);
            assert_seqs_equal!(updated_bytes(a.updated_at).subrange(1, 9)
                == spec_u64_to_le_bytes(0));
        },
    }
    let tail = b.subrange(41, b.len() as int);
    let rest1 = field_bytes(a.description) + field_bytes(a.asset_url);
    let rest2 = field_bytes(a.asset_url) + Seq::<u8>::empty();
    assert_seqs_equal!(tail == field_bytes(a.title) + rest1);
    lemma_parse_field(a.title, rest1);
    assert_seqs_equal!(rest1 == field_bytes(a.description) + rest2);
    lemma_parse_field(a.description, rest2);
    assert_seqs_equal!(rest2 == field_bytes(a.asset_url) + Seq::<u8>::empty());
    lemma_parse_field(a.asset_url, Seq::<u8>::empty());
    assert(decode_spec(b) matches Option::Some(d) && d =~= a);
}

/// Appends one length-prefixed string field to the output buffer.
fn push_field(out: &mut Vec<u8>, s: &String)
    requires
        encode_utf8(s@).len() <= u32::MAX,
    ensures
        final(out)@ == old(out)@ + field_bytes(s@),
{
    let bytes = s.as_str().as_bytes_vec();
    let n: u32 = bytes.len() as u32;
    let mut prefix = u32_to_le_bytes(n);
    out.append(&mut prefix);
    let mut body = bytes;
    out.append(&mut body);
    proof {
        assert_seqs_equal!(out@ == old(out)@ + field_bytes(s@));
    }
}

impl Asset {
    /// Encodes the record; defined for every record within the size bound.
    pub fn to_bytes(&self) -> (r: Vec<u8>)
        requires
            fits(self@),
        ensures
            r@ == encode_spec(self@),
            r@.len() <= MAX_ENCODED_SIZE,
    {
        proof {
            lemma_encoded_len(self@);
        }
        let mut out: Vec<u8> = Vec::new();
        let mut piece = u64_to_le_bytes(self.id);
        out.append(&mut piece);
        let mut piece = u64_to_le_bytes(self.price);
        out.append(&mut piece);
        let mut piece = u64_to_le_bytes(self.creator_id);
        out.append(&mut piece);
        let mut piece = u64_to_le_bytes(self.created_at);
        out.append(&mut piece);
        match self.updated_at {
            Option::None => {
                out.push(0u8);
                let mut piece = u64_to_le_bytes(0);
                out.append(&mut piece);
            },
            Option::Some(t) => {
                out.push(1u8);
                let mut piece = u64_to_le_bytes(t);
                out.append(&mut piece);
            },
        }
        push_field(&mut out, &self.title);
        push_field(&mut out, &self.description);
        push_field(&mut out, &self.asset_url);
        proof {
            assert_seqs_equal!(out@ == encode_spec(self@));
        }
        out
    }

    /// Decodes a record from bytes; returns nothing on any malformed input.
    pub fn from_bytes(bytes: &[u8]) -> (r: Option<Asset>)
        ensures
            match r {
                Option::Some(a) => decode_spec(bytes@) == Option::Some(a@),
                Option::None => decode_spec(bytes@) is None,
            },
    {
        if bytes.len() < 41 {
            return Option::None;
        }
        let id = u64_from_le_bytes(slice_subrange(bytes, 0, 8));
        let price = u64_from_le_bytes(slice_subrange(bytes, 8, 16));
        let creator_id = u64_from_le_bytes(slice_subrange(bytes, 16, 24));
        let created_at = u64_from_le_bytes(slice_subrange(bytes, 24, 32));
        let tag = *slice_index_get(bytes, 32);
        let upd = u64_from_le_bytes(slice_subrange(bytes, 33, 41));
        let updated_at: Option<u64>;
        if tag == 1 {
            updated_at = Option::Some(upd);
        } else if tag == 0 && upd == 0 {
            updated_at = Option::None;
        } else {
            return Option::None;
        }
        let (title, off1) = match parse_field_exec(bytes, 41) {
            Option::Some(p) => p,
            Option::None => {
                return Option::None;
            },
        };
        let (description, off2) = match parse_field_exec(bytes, off1) {
            Option::Some(p) => p,
            Option::None => {
                return Option::None;
            },
        };
        let (asset_url, off3) = match parse_field_exec(bytes, off2) {
            Option::Some(p) => p,
            Option::None => {
                return Option::None;
            },
        };
        if off3 != bytes.len() {
            return Option::None;
        }
        let a = Asset { id, title, description, asset_url, price, creator_id, created_at, updated_at };
        proof {
            assert(decode_spec(bytes@) matches Option::Some(d) && d =~= a@);
        }
        Option::Some(a)
    }
}

/// Parses one length-prefixed string field starting at `off`, returning the
/// string and the offset just past it.
fn parse_field_exec(bytes: &[u8], off: usize) -> (r: Option<(String, usize)>)
    requires
        off <= bytes@.len(),
    ensures
        match r {
            Option::Some(p) => {
                &&& off <= p.1 <= bytes@.len()
                &&& parse_field(bytes@.subrange(off as int, bytes@.len() as int))
                    == Option::Some((p.0@, bytes@.subrange(p.1 as int, bytes@.len() as int)))
            },
            Option::None => parse_field(bytes@.subrange(off as int, bytes@.len() as int)) is None,
        },
{
    let ghost tail = bytes@.subrange(off as int, bytes@.len() as int);
    if bytes.len() - off < 4 {
        return Option::None;
    }
    let n = u32_from_le_bytes(slice_subrange(bytes, off, off + 4));
    proof {
        assert_seqs_equal!(bytes@.subrange(off as int, off as int + 4) == tail.subrange(0, 4));
    }
    if (bytes.len() - off - 4) < n as usize {
        return Option::None;
    }
    let body = slice_to_vec(slice_subrange(bytes, off + 4, off + 4 + n as usize));
    proof {
        assert_seqs_equal!(body@ == tail.subrange(4, 4 + n as int));
    }
    match string_from_utf8(body) {
        Option::Some(s) => {
            let end = off + 4 + n as usize;
            proof {
                assert_seqs_equal!(bytes@.subrange(end as int, bytes@.len() as int)
                    == tail.subrange(4 + n as int, tail.len() as int));
            }
            Option::Some((s, end))
        },
        Option::None => Option::None,
    }
}

/// Relies on `String::from_utf8`: it succeeds on exactly the byte sequences
/// that are valid UTF-8, and decodes them to the characters they encode.
#[verifier::external_body]
fn string_from_utf8(v: Vec<u8>) -> (r: Option<String>)
    ensures
        match r {
            Option::Some(s) => valid_utf8(v@) && s@ == decode_utf8(v@),
            Option::None => !valid_utf8(v@),
        },
{
    match String::from_utf8(v) {
        Ok(s) => Some(s),
        Err(_) => None,
    }
}

} // verus!
