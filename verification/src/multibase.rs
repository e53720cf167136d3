//! Multibase (`u` = base64url without padding) encoding of multicodec keys.

use crate::varint::{encode_uvarint, lemma_uvarint_len, uvarint};
use base64::Engine;
use vstd::prelude::*;

verus! {

/// Length of the base64 encoding of `n` bytes without padding: four
/// characters per three bytes, and two or three for a trailing one or two.
pub open spec fn base64_unpadded_len(n: nat) -> nat {
    (n / 3) * 4 + if n % 3 == 0 {
        0nat
    } else if n % 3 == 1 {
        2nat
    } else {
        3nat
    }
}

/// The base64url character of a six-bit value (RFC 4648 §5): `A`–`Z`,
/// `a`–`z`, `0`–`9`, `-`, `_`.
pub open spec fn b64url_char(v: u8) -> u8 {
    if v < 26 {
        (v + 65) as u8
    } else if v < 52 {
        (v - 26 + 97) as u8
    } else if v < 62 {
        (v - 52 + 48) as u8
    } else if v == 62 {
        45
    } else {
        95
    }
}

/// The six-bit value of a base64url character, or `None` for any other byte.
pub open spec fn b64url_value(c: u8) -> Option<u8> {
    if 65 <= c <= 90 {
        Some((c - 65) as u8)
    } else if 97 <= c <= 122 {
        Some((c - 97 + 26) as u8)
    } else if 48 <= c <= 57 {
        Some((c - 48 + 52) as u8)
    } else if c == 45 {
        Some(62)
    } else if c == 95 {
        Some(63)
    } else {
        None
    }
}

/// Base64url encoding without padding (RFC 4648 §5, §3.2): each group of
/// three bytes becomes four characters; a final group of one or two bytes
/// becomes two or three characters, its unused low bits zero.
pub open spec fn base64_url_no_pad(b: Seq<u8>) -> Seq<u8>
    decreases b.len(),
{
    if b.len() == 0 {
        Seq::empty()
    } else if b.len() == 1 {
        seq![b64url_char(b[0] >> 2u8), b64url_char((b[0] & 3u8) << 4u8)]
    } else if b.len() == 2 {
        seq![
            b64url_char(b[0] >> 2u8),
            b64url_char(((b[0] & 3u8) << 4u8) | (b[1] >> 4u8)),
            b64url_char((b[1] & 15u8) << 2u8),
        ]
    } else {
        seq![
            b64url_char(b[0] >> 2u8),
            b64url_char(((b[0] & 3u8) << 4u8) | (b[1] >> 4u8)),
            b64url_char(((b[1] & 15u8) << 2u8) | (b[2] >> 6u8)),
            b64url_char(b[2] & 63u8),
        ] + base64_url_no_pad(b.skip(3))
    }
}

/// Base64url decoding without padding: the inverse of `base64_url_no_pad`,
/// `None` for a character outside the alphabet, a lone final character, or
/// a final group whose unused bits are not zero.
pub open spec fn base64_url_no_pad_decode(s: Seq<u8>) -> Option<Seq<u8>>
    decreases s.len(),
{
    if s.len() == 0 {
        Some(Seq::empty())
    } else if s.len() == 1 || b64url_value(s[0]) is None || b64url_value(s[1]) is None {
        None
    } else {
        let a = b64url_value(s[0])->0;
        let b = b64url_value(s[1])->0;
        let x0 = (a << 2u8) | (b >> 4u8);
        if s.len() == 2 {
            if b & 15u8 == 0 {
                Some(seq![x0])
            } else {
                None
            }
        } else if b64url_value(s[2]) is None {
            None
        } else {
            let c = b64url_value(s[2])->0;
            let x1 = ((b & 15u8) << 4u8) | (c >> 2u8);
            if s.len() == 3 {
                if c & 3u8 == 0 {
                    Some(seq![x0, x1])
                } else {
                    None
                }
            } else if b64url_value(s[3]) is None {
                None
            } else {
                let d = b64url_value(s[3])->0;
                let x2 = ((c & 3u8) << 6u8) | d;
                match base64_url_no_pad_decode(s.skip(4)) {
                    Some(rest) => Some(seq![x0, x1, x2] + rest),
                    None => None,
                }
            }
        }
    }
}

proof fn lemma_b64url_char_value(v: u8)
    requires
        v < 64,
    ensures
        b64url_value(b64url_char(v)) == Some(v),
{
}

proof fn lemma_sextets(b0: u8, b1: u8, b2: u8)
    ensures
        b0 >> 2u8 < 64,
        ((b0 & 3u8) << 4u8) | (b1 >> 4u8) < 64,
        ((b1 & 15u8) << 2u8) | (b2 >> 6u8) < 64,
        b2 & 63u8 < 64,
        (b0 & 3u8) << 4u8 < 64,
        (b1 & 15u8) << 2u8 < 64,
        ((b0 >> 2u8) << 2u8) | ((((b0 & 3u8) << 4u8) | (b1 >> 4u8)) >> 4u8) == b0,
        ((b0 >> 2u8) << 2u8) | (((b0 & 3u8) << 4u8) >> 4u8) == b0,
        ((b0 & 3u8) << 4u8) & 15u8 == 0,
        (((((b0 & 3u8) << 4u8) | (b1 >> 4u8)) & 15u8) << 4u8) | ((((b1 & 15u8) << 2u8) | (b2
            >> 6u8)) >> 2u8) == b1,
        (((((b0 & 3u8) << 4u8) | (b1 >> 4u8)) & 15u8) << 4u8) | (((b1 & 15u8) << 2u8) >> 2u8)
            == b1,
        ((b1 & 15u8) << 2u8) & 3u8 == 0,
        (((((b1 & 15u8) << 2u8) | (b2 >> 6u8)) & 3u8) << 6u8) | (b2 & 63u8) == b2,
{
    assert(b0 >> 2u8 < 64) by (bit_vector);
    assert(((b0 & 3u8) << 4u8) | (b1 >> 4u8) < 64) by (bit_vector);
    assert(((b1 & 15u8) << 2u8) | (b2 >> 6u8) < 64) by (bit_vector);
    assert(b2 & 63u8 < 64) by (bit_vector);
    assert((b0 & 3u8) << 4u8 < 64) by (bit_vector);
    assert((b1 & 15u8) << 2u8 < 64) by (bit_vector);
    assert(((b0 >> 2u8) << 2u8) | ((((b0 & 3u8) << 4u8) | (b1 >> 4u8)) >> 4u8) == b0)
        by (bit_vector);
    assert(((b0 >> 2u8) << 2u8) | (((b0 & 3u8) << 4u8) >> 4u8) == b0) by (bit_vector);
    assert(((b0 & 3u8) << 4u8) & 15u8 == 0) by (bit_vector);
    assert((((((b0 & 3u8) << 4u8) | (b1 >> 4u8)) & 15u8) << 4u8) | ((((b1 & 15u8) << 2u8) | (b2
        >> 6u8)) >> 2u8) == b1) by (bit_vector);
    assert((((((b0 & 3u8) << 4u8) | (b1 >> 4u8)) & 15u8) << 4u8) | (((b1 & 15u8) << 2u8) >> 2u8)
        == b1) by (bit_vector);
    assert(((b1 & 15u8) << 2u8) & 3u8 == 0) by (bit_vector);
    assert((((((b1 & 15u8) << 2u8) | (b2 >> 6u8)) & 3u8) << 6u8) | (b2 & 63u8) == b2)
        by (bit_vector);
}

/// Decoding the base64url encoding of any bytes gives them back.
pub proof fn lemma_base64_url_roundtrip(b: Seq<u8>)
    ensures
        base64_url_no_pad_decode(base64_url_no_pad(b)) == Some(b),
    decreases b.len(),
{
    let s = base64_url_no_pad(b);
    if b.len() == 0 {
    } else if b.len() == 1 {
        lemma_sextets(b[0], 0, 0);
        lemma_b64url_char_value(b[0] >> 2u8);
        lemma_b64url_char_value((b[0] & 3u8) << 4u8);
        assert(seq![b[0]] =~= b);
    } else if b.len() == 2 {
        lemma_sextets(b[0], b[1], 0);
        lemma_b64url_char_value(b[0] >> 2u8);
        lemma_b64url_char_value(((b[0] & 3u8) << 4u8) | (b[1] >> 4u8));
        lemma_b64url_char_value((b[1] & 15u8) << 2u8);
        assert(seq![b[0], b[1]] =~= b);
    } else {
        lemma_sextets(b[0], b[1], b[2]);
        lemma_b64url_char_value(b[0] >> 2u8);
        lemma_b64url_char_value(((b[0] & 3u8) << 4u8) | (b[1] >> 4u8));
        lemma_b64url_char_value(((b[1] & 15u8) << 2u8) | (b[2] >> 6u8));
        lemma_b64url_char_value(b[2] & 63u8);
        lemma_base64_url_roundtrip(b.skip(3));
        assert(s.skip(4) =~= base64_url_no_pad(b.skip(3)));
        assert(seq![b[0], b[1], b[2]] + b.skip(3) =~= b);
    }
}

/// Calls `base64::engine::general_purpose::URL_SAFE_NO_PAD.encode`, which
/// encodes with the URL-safe alphabet of RFC 4648 and no padding, as the
/// crate documents; the contract states that encoding as
/// `base64_url_no_pad`. `encode` panics when the length that
/// `base64::encoded_len` computes does not fit in `usize`, which `requires`
/// rules out.
#[verifier::external_body]
fn encode_base64_url_no_pad(bytes: &[u8]) -> (encoded: Vec<u8>)
    requires
        base64_unpadded_len(bytes@.len()) <= usize::MAX,
    ensures
        encoded@ == base64_url_no_pad(bytes@),
{
    base64::engine::general_purpose::URL_SAFE_NO_PAD.encode(bytes).into_bytes()
}

/// The multibase prefix character `u` (base64url, no padding).
pub open spec fn multibase_base64url_prefix() -> u8 {
    0x75
}

/// The multicodec-prefixed key: the uvarint of `codec`, then the key bytes.
pub open spec fn multicodec_payload(public_key: Seq<u8>, codec: u64) -> Seq<u8> {
    uvarint(codec) + public_key
}

/// The multibase text of a key starts with `u`, and the rest decodes back to
/// the multicodec-prefixed key.
pub proof fn lemma_multibase_key_decodes(public_key: Seq<u8>, codec: u64)
    ensures
        multibase_key(public_key, codec)[0] == multibase_base64url_prefix(),
        base64_url_no_pad_decode(multibase_key(public_key, codec).drop_first()) == Some(
            multicodec_payload(public_key, codec),
        ),
{
    let p = multicodec_payload(public_key, codec);
    lemma_base64_url_roundtrip(p);
    assert(multibase_key(public_key, codec).drop_first() =~= base64_url_no_pad(p));
}

/// The multibase string of a key with its multicodec prefix.
pub open spec fn multibase_key(public_key: Seq<u8>, codec: u64) -> Seq<u8> {
    seq![multibase_base64url_prefix()] + base64_url_no_pad(multicodec_payload(public_key, codec))
}

/// Builds the multicodec-prefixed key bytes.
pub fn multicodec_prefixed(public_key: &[u8], codec: u64) -> (out: Vec<u8>)
    ensures
        out@ == multicodec_payload(public_key@, codec),
{
    let mut out = encode_uvarint(codec);
    let ghost prefix = out@;
    let mut i: usize = 0;
    while i < public_key.len()
        invariant
            0 <= i <= public_key@.len(),
            out@ =~= prefix + public_key@.take(i as int),
        decreases public_key@.len() - i,
    {
        out.push(public_key[i]);
        i = i + 1;
    }
    proof {
        assert(public_key@.take(public_key@.len() as int) =~= public_key@);
    }
    out
}

/// Prefixes base64url text with the multibase code `u`.
pub fn multibase_from_encoded(encoded: &[u8]) -> (out: Vec<u8>)
    ensures
        out@ == seq![multibase_base64url_prefix()] + encoded@,
{
    let mut out: Vec<u8> = Vec::new();
    out.push(0x75);
    let mut i: usize = 0;
    while i < encoded.len()
        invariant
            0 <= i <= encoded@.len(),
            out@ =~= seq![multibase_base64url_prefix()] + encoded@.take(i as int),
        decreases encoded@.len() - i,
    {
        out.push(encoded[i]);
        i = i + 1;
    }
    proof {
        assert(encoded@.take(encoded@.len() as int) =~= encoded@);
    }
    out
}

/// The multibase (`u`, base64url without padding) form of `public_key`
/// prefixed with the uvarint multicodec `codec`.
pub fn multibase_from_public_key(public_key: &[u8], codec: u64) -> (out: Vec<u8>)
    requires
        public_key@.len() <= isize::MAX,
    ensures
        out@ == multibase_key(public_key@, codec),
{
    let prefixed = multicodec_prefixed(public_key, codec);
    proof {
        lemma_uvarint_len(codec);
        let n = prefixed@.len();
        assert(n <= isize::MAX + 10);
        assert(base64_unpadded_len(n) <= usize::MAX - 1);
    }
    let encoded = encode_base64_url_no_pad(prefixed.as_slice());
    multibase_from_encoded(encoded.as_slice())
}

} // verus!
