//! Unsigned LEB128 ("uvarint") encoding, as used by multicodec prefixes.

use vstd::prelude::*;

verus! {

/// The uvarint encoding of `v`: seven bits per byte, least significant group
/// first, with the high bit set on every byte except the last.
pub open spec fn uvarint(v: u64) -> Seq<u8>
    decreases v,
{
    if v < 128 {
        seq![v as u8]
    } else {
        seq![(v % 128 + 128) as u8] + uvarint(v / 128)
    }
}

/// The number that a sequence of uvarint bytes stands for: the low seven
/// bits of each byte, least significant group first.
pub open spec fn uvarint_value(bytes: Seq<u8>) -> int
    decreases bytes.len(),
{
    if bytes.len() == 0 {
        0
    } else {
        (bytes[0] % 128) + 128 * uvarint_value(bytes.drop_first())
    }
}

/// Decoding undoes encoding, and the encoding is self-delimiting: every
/// byte but the last has its high bit set, and the last has it clear.
pub proof fn lemma_uvarint_roundtrip(v: u64)
    ensures
        uvarint_value(uvarint(v)) == v,
        uvarint(v).len() >= 1,
        uvarint(v).last() < 128,
        forall|i: int| 0 <= i < uvarint(v).len() - 1 ==> uvarint(v)[i] >= 128,
    decreases v,
{
    if v >= 128 {
        let w = (v / 128) as u64;
        lemma_uvarint_roundtrip(w);
        let s = uvarint(v);
        assert(s.drop_first() =~= uvarint(w));
        assert(s[0] == v % 128 + 128);
        assert(s[0] % 128 == v % 128);
        assert(uvarint_value(s) == s[0] % 128 + 128 * uvarint_value(uvarint(w)));
        assert(v == v % 128 + 128 * w);
        assert forall|i: int| 0 <= i < s.len() - 1 implies s[i] >= 128 by {
            if i > 0 {
                assert(s[i] == uvarint(w)[i - 1]);
            }
        }
    } else {
        let s = uvarint(v);
        assert(s.drop_first() =~= Seq::<u8>::empty());
        assert(s[0] == v);
        assert(uvarint_value(s) == s[0] % 128 + 128 * uvarint_value(s.drop_first()));
    }
}

/// `128` to the power `k`.
pub open spec fn pow128(k: nat) -> int
    decreases k,
{
    if k == 0 {
        1
    } else {
        128 * pow128((k - 1) as nat)
    }
}

proof fn lemma_uvarint_len_below(v: u64, k: nat)
    requires
        k >= 1,
        v < pow128(k),
    ensures
        1 <= uvarint(v).len() <= k,
    decreases k,
{
    if v >= 128 {
        assert(pow128(k) == 128 * pow128((k - 1) as nat));
        assert(k >= 2) by {
            if k == 1 {
                assert(pow128(0) == 1);
            }
        }
        lemma_uvarint_len_below((v / 128) as u64, (k - 1) as nat);
    }
}

/// A uvarint of a `u64` takes between one and ten bytes.
pub proof fn lemma_uvarint_len(v: u64)
    ensures
        1 <= uvarint(v).len() <= 10,
{
    reveal_with_fuel(pow128, 11);
    assert(pow128(10) == 1180591620717411303424);
    lemma_uvarint_len_below(v, 10);
}

proof fn lemma_low_bits(v: u64)
    ensures
        v & 0x7f == v % 128,
        v >> 7u64 == v / 128,
        (v & 0x7f) < 128,
{
    assert(v & 0x7f == v % 128) by (bit_vector);
    assert(v >> 7u64 == v / 128) by (bit_vector);
    assert((v & 0x7f) < 128) by (bit_vector);
}

proof fn lemma_set_high(b: u8)
    requires
        b < 128,
    ensures
        b | 0x80 == b + 128,
{
    assert(b < 128 ==> b | 0x80 == b + 128) by (bit_vector);
}

/// Encodes `value` as an unsigned LEB128 varint.
pub fn encode_uvarint(value: u64) -> (out: Vec<u8>)
    ensures
        out@ == uvarint(value),
{
    let mut value = value;
    let ghost orig = value;
    let mut out: Vec<u8> = Vec::new();
    loop
        invariant_except_break
            out@ + uvarint(value) == uvarint(orig),
        ensures
            out@ == uvarint(orig),
        decreases value,
    {
        proof {
            lemma_low_bits(value);
        }
        let mut byte: u8 = (value & 0x7f) as u8;
        let ghost before = value;
        value = value >> 7;
        if value != 0 {
            proof {
                lemma_set_high(byte);
            }
            byte = byte | 0x80;
        }
        out.push(byte);
        proof {
            if value == 0 {
                assert(out@ == uvarint(orig));
            } else {
                assert(uvarint(before) == seq![byte] + uvarint(value));
                assert(out@ + uvarint(value) =~= uvarint(orig));
            }
        }
        if value == 0 {
            break;
        }
    }
    out
}

} // verus!
