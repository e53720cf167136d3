//! Base58 (Bitcoin alphabet) syntax and decoded length.
//!
//! A base58 string denotes a big-endian number in radix 58; every leading
//! `'1'` (the digit zero) stands for one leading zero byte of the decoded
//! output, and the rest of the output is the minimal big-endian byte string
//! of the number.

use vstd::arithmetic::power::pow;
use vstd::prelude::*;

verus! {

/// The value of a base58 character, or `None` for a byte outside the
/// alphabet `123456789ABCDEFGHJKLMNPQRSTUVWXYZabcdefghijkmnopqrstuvwxyz`.
pub open spec fn base58_digit(b: u8) -> Option<u8> {
    if 0x31 <= b <= 0x39 {
        Some((b - 0x31) as u8)  // '1'..='9' -> 0..=8
    } else if 0x41 <= b <= 0x48 {
        Some((b - 0x41 + 9) as u8)  // 'A'..='H' -> 9..=16
    } else if 0x4a <= b <= 0x4e {
        Some((b - 0x4a + 17) as u8)  // 'J'..='N' -> 17..=21
    } else if 0x50 <= b <= 0x5a {
        Some((b - 0x50 + 22) as u8)  // 'P'..='Z' -> 22..=32
    } else if 0x61 <= b <= 0x6b {
        Some((b - 0x61 + 33) as u8)  // 'a'..='k' -> 33..=43
    } else if 0x6d <= b <= 0x7a {
        Some((b - 0x6d + 44) as u8)  // 'm'..='z' -> 44..=57
    } else {
        None
    }
}

/// Every byte of `s` is a base58 character.
pub open spec fn is_base58(s: Seq<u8>) -> bool {
    forall|i: int| 0 <= i < s.len() ==> (#[trigger] base58_digit(s[i])) is Some
}

/// The digit value of a byte, with bytes outside the alphabet counting as zero.
pub open spec fn digit_value(b: u8) -> int {
    match base58_digit(b) {
        Some(d) => d as int,
        None => 0,
    }
}

/// The number that the base58 string `s` denotes (most significant digit first).
pub open spec fn base58_value(s: Seq<u8>) -> int
    decreases s.len(),
{
    if s.len() == 0 {
        0
    } else {
        base58_value(s.drop_last()) * 58 + digit_value(s.last())
    }
}

/// Number of leading `'1'` characters of `s`.
pub open spec fn leading_ones(s: Seq<u8>) -> nat
    decreases s.len(),
{
    if s.len() == 0 || s[0] != 0x31 {
        0
    } else {
        1 + leading_ones(s.drop_first())
    }
}

/// Length of the minimal big-endian byte string of `n` (zero for `n == 0`).
pub open spec fn byte_len(n: int) -> nat
    decreases n,
{
    if n <= 0 {
        0
    } else {
        1 + byte_len(n / 256)
    }
}

/// Length of the byte string that the base58 string `s` decodes to.
pub open spec fn base58_decoded_len(s: Seq<u8>) -> nat {
    leading_ones(s) + byte_len(base58_value(s))
}

/// Value of a little-endian byte string.
pub open spec fn le_value(s: Seq<u8>) -> int
    decreases s.len(),
{
    if s.len() == 0 {
        0
    } else {
        le_value(s.drop_last()) + s.last() * pow(256, (s.len() - 1) as nat)
    }
}

proof fn lemma_pow256_step(k: nat)
    ensures
        pow(256, k + 1) == 256 * pow(256, k),
        pow(256, k) > 0,
{
    vstd::arithmetic::power::lemma_pow_positive(256, k);
    reveal(pow);
    assert(pow(256, k + 1) == 256 * pow(256, (k + 1 - 1) as nat));
}

proof fn lemma_le_value_bounds(s: Seq<u8>)
    ensures
        0 <= le_value(s) < pow(256, s.len()),
    decreases s.len(),
{
    if s.len() == 0 {
        vstd::arithmetic::power::lemma_pow0(256);
    } else {
        let k = (s.len() - 1) as nat;
        lemma_le_value_bounds(s.drop_last());
        lemma_pow256_step(k);
        let p = pow(256, k);
        let b = s.last();
        assert(0 <= b * p <= 255 * p) by (nonlinear_arith)
            requires
                0 <= b <= 255,
                p > 0,
        ;
    }
}

proof fn lemma_le_value_prefix(s: Seq<u8>, j: int)
    requires
        0 <= j < s.len(),
    ensures
        le_value(s.take(j + 1)) == le_value(s.take(j)) + s[j] * pow(256, j as nat),
{
    assert(s.take(j + 1).drop_last() =~= s.take(j));
}

proof fn lemma_le_value_zero_tail(s: Seq<u8>, k: int)
    requires
        0 <= k <= s.len(),
        forall|i: int| k <= i < s.len() ==> s[i] == 0,
    ensures
        le_value(s) == le_value(s.take(k)),
    decreases s.len(),
{
    if s.len() == k {
        assert(s.take(k) =~= s);
    } else {
        lemma_le_value_zero_tail(s.drop_last(), k);
        assert(s.drop_last().take(k) =~= s.take(k));
        assert(s.last() == 0);
        assert(le_value(s) == le_value(s.drop_last()) + s.last() * pow(256, (s.len() - 1) as nat));
    }
}

proof fn lemma_byte_len_exact(n: int, k: nat)
    requires
        k >= 1,
        pow(256, (k - 1) as nat) <= n < pow(256, k),
    ensures
        byte_len(n) == k,
    decreases k,
{
    lemma_pow256_step((k - 1) as nat);
    let q = n / 256;
    if k == 1 {
        vstd::arithmetic::power::lemma_pow0(256);
        assert(q == 0);
        assert(byte_len(q) == 0);
    } else {
        lemma_pow256_step((k - 2) as nat);
        let p = pow(256, (k - 2) as nat);
        assert(256 * p <= n < 256 * (256 * p));
        assert(p <= q < 256 * p) by (nonlinear_arith)
            requires
                256 * p <= n < 256 * (256 * p),
                q == n / 256,
                p > 0,
        ;
        lemma_byte_len_exact(q, (k - 1) as nat);
    }
}

proof fn lemma_byte_len_above(n: int, k: nat)
    requires
        n >= pow(256, k),
    ensures
        byte_len(n) > k,
    decreases k,
{
    lemma_pow256_step(k);
    if k == 0 {
        vstd::arithmetic::power::lemma_pow0(256);
    } else {
        lemma_pow256_step((k - 1) as nat);
        let p = pow(256, (k - 1) as nat);
        let q = n / 256;
        assert(q >= p) by (nonlinear_arith)
            requires
                n >= 256 * p,
                q == n / 256,
        ;
        lemma_byte_len_above(q, (k - 1) as nat);
    }
}

proof fn lemma_base58_value_monotone(s: Seq<u8>, k: int)
    requires
        0 <= k <= s.len(),
    ensures
        base58_value(s) >= base58_value(s.take(k)) >= 0,
    decreases s.len(),
{
    if k == s.len() {
        assert(s.take(k) =~= s);
        lemma_base58_value_nonneg(s);
    } else {
        lemma_base58_value_monotone(s.drop_last(), k);
        assert(s.drop_last().take(k) =~= s.take(k));
        lemma_base58_value_nonneg(s.drop_last());
    }
}

proof fn lemma_base58_value_nonneg(s: Seq<u8>)
    ensures
        base58_value(s) >= 0,
    decreases s.len(),
{
    if s.len() > 0 {
        lemma_base58_value_nonneg(s.drop_last());
    }
}

proof fn lemma_leading_ones_push(s: Seq<u8>, c: u8)
    ensures
        leading_ones(s) <= s.len(),
        leading_ones(s.push(c)) == if leading_ones(s) == s.len() && c == 0x31 {
            s.len() + 1 as nat
        } else {
            leading_ones(s)
        },
    decreases s.len(),
{
    if s.len() == 0 {
        assert(s.push(c).drop_first() =~= s);
    } else {
        lemma_leading_ones_push(s.drop_first(), c);
        assert(s.push(c).drop_first() =~= s.drop_first().push(c));
    }
}

/// Base58 is positional radix-58 notation: the value of `s` followed by `t`
/// is the value of `s` shifted by `t.len()` digits plus the value of `t`,
/// and a single digit stands for its own value.
pub proof fn lemma_base58_value_positional(s: Seq<u8>, t: Seq<u8>)
    ensures
        base58_value(s + t) == base58_value(s) * pow(58, t.len()) + base58_value(t),
        forall|c: u8| #[trigger] base58_value(seq![c]) == digit_value(c),
    decreases t.len(),
{
    assert forall|c: u8| #[trigger] base58_value(seq![c]) == digit_value(c) by {
        let one = seq![c];
        assert(one.drop_last() =~= Seq::<u8>::empty());
        assert(one.last() == c);
        assert(base58_value(one.drop_last()) == 0);
        assert(base58_value(one) == base58_value(one.drop_last()) * 58 + digit_value(one.last()));
    }
    vstd::arithmetic::power::lemma_pow0(58);
    if t.len() == 0 {
        assert(s + t =~= s);
    } else {
        lemma_base58_value_positional(s, t.drop_last());
        assert((s + t).drop_last() =~= s + t.drop_last());
        reveal(pow);
        let p = pow(58, (t.len() - 1) as nat);
        assert(pow(58, t.len()) == 58 * p);
        let v = base58_value(s);
        let w = base58_value(t.drop_last());
        assert((v * p + w) * 58 + digit_value(t.last()) == v * (58 * p) + (w * 58 + digit_value(
            t.last(),
        ))) by (nonlinear_arith);
    }
}

/// `leading_ones(s)` counts exactly the `'1'` characters that open `s`.
pub proof fn lemma_leading_ones_exact(s: Seq<u8>)
    ensures
        leading_ones(s) <= s.len(),
        forall|i: int| 0 <= i < leading_ones(s) ==> s[i] == 0x31,
        leading_ones(s) < s.len() ==> s[leading_ones(s) as int] != 0x31,
    decreases s.len(),
{
    if s.len() > 0 && s[0] == 0x31 {
        lemma_leading_ones_exact(s.drop_first());
        assert forall|i: int| 0 <= i < leading_ones(s) implies s[i] == 0x31 by {
            if i > 0 {
                assert(s[i] == s.drop_first()[i - 1]);
            }
        }
    }
}

/// `byte_len(n)` is the number of bytes that `n` needs: a positive `n` lies
/// between `256^(byte_len(n) - 1)` and `256^byte_len(n)`.
pub proof fn lemma_byte_len_bounds(n: int)
    ensures
        n <= 0 ==> byte_len(n) == 0,
        n > 0 ==> byte_len(n) >= 1 && pow(256, (byte_len(n) - 1) as nat) <= n < pow(
            256,
            byte_len(n),
        ),
    decreases n,
{
    if n > 0 {
        let q = n / 256;
        lemma_byte_len_bounds(q);
        let k = byte_len(n);
        lemma_pow256_step((k - 1) as nat);
        if q == 0 {
            vstd::arithmetic::power::lemma_pow0(256);
        } else {
            lemma_pow256_step((k - 2) as nat);
            let p = pow(256, (k - 2) as nat);
            assert(p <= q < 256 * p);
            assert(256 * p <= n < 256 * (256 * p)) by (nonlinear_arith)
                requires
                    p <= q < 256 * p,
                    q == n / 256,
                    n > 0,
            ;
        }
    }
}

/// The Bitcoin base58 alphabet,
/// `123456789ABCDEFGHJKLMNPQRSTUVWXYZabcdefghijkmnopqrstuvwxyz`, in digit order.
pub open spec fn base58_alphabet() -> Seq<u8> {
    seq![
        0x31u8, 0x32, 0x33, 0x34, 0x35, 0x36, 0x37, 0x38, 0x39, 0x41, 0x42, 0x43, 0x44, 0x45,
        0x46, 0x47, 0x48, 0x4a, 0x4b, 0x4c, 0x4d, 0x4e, 0x50, 0x51, 0x52, 0x53, 0x54, 0x55, 0x56,
        0x57, 0x58, 0x59, 0x5a, 0x61, 0x62, 0x63, 0x64, 0x65, 0x66, 0x67, 0x68, 0x69, 0x6a, 0x6b,
        0x6d, 0x6e, 0x6f, 0x70, 0x71, 0x72, 0x73, 0x74, 0x75, 0x76, 0x77, 0x78, 0x79, 0x7a,
    ]
}

/// Each of the 58 alphabet characters is a digit whose value is its
/// position in the alphabet, and no other byte is a digit.
pub proof fn lemma_base58_alphabet_digits()
    ensures
        base58_alphabet().len() == 58,
        forall|i: int| 0 <= i < 58 ==> base58_digit(#[trigger] base58_alphabet()[i]) == Some(i as u8),
        forall|b: u8| !base58_alphabet().contains(b) ==> (#[trigger] base58_digit(b)) is None,
{
    let a = base58_alphabet();
    assert forall|i: int| 0 <= i < 58 implies base58_digit(#[trigger] a[i]) == Some(i as u8) by {
        if i < 9 {
        } else if i < 17 {
        } else if i < 22 {
        } else if i < 33 {
        } else if i < 44 {
        } else {
        }
    }
    assert forall|b: u8| !a.contains(b) implies (#[trigger] base58_digit(b)) is None by {
        if base58_digit(b) is Some {
            let d = base58_digit(b)->0 as int;
            assert(0 <= d < 58);
            assert(a[d] == b);
        }
    }
}

/// Exec lookup of a base58 character's value.
fn base58_digit_of(b: u8) -> (d: Option<u8>)
    ensures
        d == base58_digit(b),
{
    if 0x31 <= b && b <= 0x39 {
        Some(b - 0x31)
    } else if 0x41 <= b && b <= 0x48 {
        Some(b - 0x41 + 9)
    } else if 0x4a <= b && b <= 0x4e {
        Some(b - 0x4a + 17)
    } else if 0x50 <= b && b <= 0x5a {
        Some(b - 0x50 + 22)
    } else if 0x61 <= b && b <= 0x6b {
        Some(b - 0x61 + 33)
    } else if 0x6d <= b && b <= 0x7a {
        Some(b - 0x6d + 44)
    } else {
        None
    }
}

/// Multiplies the little-endian number in `limbs` by 58 and adds `digit`.
/// Returns `false`, with `limbs` left unspecified, when the result does not
/// fit in `limbs`.
fn mul58_add(limbs: &mut Vec<u8>, digit: u8) -> (fits: bool)
    requires
        digit < 58,
    ensures
        final(limbs)@.len() == old(limbs)@.len(),
        fits ==> le_value(final(limbs)@) == le_value(old(limbs)@) * 58 + digit,
        !fits ==> le_value(old(limbs)@) * 58 + digit >= pow(256, old(limbs)@.len()),
{
    let n = limbs.len();
    let ghost orig = limbs@;
    let mut carry: u32 = digit as u32;
    let mut j: usize = 0;
    proof {
        assert(orig.take(0) =~= Seq::<u8>::empty());
        assert(limbs@.take(0) =~= Seq::<u8>::empty());
        vstd::arithmetic::power::lemma_pow0(256);
    }
    while j < n
        invariant
            n == orig.len(),
            limbs@.len() == n,
            0 <= j <= n,
            carry < 58,
            forall|i: int| j <= i < n ==> limbs@[i] == orig[i],
            le_value(limbs@.take(j as int)) + carry * pow(256, j as nat) == le_value(
                orig.take(j as int),
            ) * 58 + digit,
        decreases n - j,
    {
        let x: u32 = (limbs[j] as u32) * 58 + carry;
        let ghost before = limbs@;
        let ghost c = carry;
        limbs.set(j, (x % 256) as u8);
        carry = x / 256;
        proof {
            let p = pow(256, j as nat);
            lemma_pow256_step(j as nat);
            lemma_le_value_prefix(limbs@, j as int);
            lemma_le_value_prefix(orig, j as int);
            assert(limbs@.take(j as int) =~= before.take(j as int));
            let lo = x % 256;
            let hi = x / 256;
            assert(lo * p + hi * (256 * p) == x * p) by (nonlinear_arith)
                requires
                    lo == x % 256,
                    hi == x / 256,
            ;
            assert(x * p == orig[j as int] * 58 * p + c * p) by (nonlinear_arith)
                requires
                    x == orig[j as int] * 58 + c,
            ;
            assert(orig[j as int] * 58 * p == (orig[j as int] * p) * 58) by (nonlinear_arith);
        }
        j = j + 1;
    }
    proof {
        assert(limbs@.take(n as int) =~= limbs@);
        assert(orig.take(n as int) =~= orig);
        lemma_pow256_step(n as nat);
        lemma_le_value_bounds(limbs@);
        let p = pow(256, n as nat);
        if carry != 0 {
            assert(carry * p >= p) by (nonlinear_arith)
                requires
                    carry >= 1,
                    p > 0,
            ;
        }
    }
    carry == 0
}

/// `true` exactly when `s[start..]` is a base58 string whose decoded byte
/// string is `expected` bytes long.
pub fn base58_decodes_to_len(s: &[u8], start: usize, expected: usize) -> (ok: bool)
    requires
        start <= s@.len(),
    ensures
        ok == (is_base58(s@.skip(start as int)) && base58_decoded_len(s@.skip(start as int))
            == expected),
{
    let ghost digits = s@.skip(start as int);
    let mut limbs: Vec<u8> = vec![0u8; expected];
    let mut leading: usize = 0;
    let mut i: usize = start;
    proof {
        assert(s@.subrange(start as int, start as int) =~= Seq::<u8>::empty());
        assert(limbs@ =~= Seq::new(expected as nat, |k: int| 0u8));
        lemma_le_value_zero_tail(limbs@, 0);
        assert(limbs@.take(0) =~= Seq::<u8>::empty());
    }
    while i < s.len()
        invariant
            start <= i <= s@.len(),
            digits == s@.skip(start as int),
            limbs@.len() == expected,
            is_base58(s@.subrange(start as int, i as int)),
            le_value(limbs@) == base58_value(s@.subrange(start as int, i as int)),
            leading == leading_ones(s@.subrange(start as int, i as int)),
            leading <= i - start,
        decreases s@.len() - i,
    {
        let ghost prefix = s@.subrange(start as int, i as int);
        let ghost next = s@.subrange(start as int, i + 1);
        proof {
            assert(next =~= prefix.push(s@[i as int]));
            assert(next.drop_last() =~= prefix);
            lemma_leading_ones_push(prefix, s@[i as int]);
        }
        let b = s[i];
        let d = match base58_digit_of(b) {
            Some(d) => d,
            None => {
                proof {
                    assert(digits[i - start] == b);
                    assert(base58_digit(digits[i - start]) is None);
                }
                return false;
            },
        };
        if leading == i - start && b == 0x31 {
            leading = leading + 1;
        }
        let fits = mul58_add(&mut limbs, d);
        if !fits {
            proof {
                lemma_base58_value_monotone(digits, (i + 1 - start) as int);
                assert(digits.take((i + 1 - start) as int) =~= next);
                lemma_byte_len_above(base58_value(digits), expected as nat);
            }
            return false;
        }
        i = i + 1;
    }
    proof {
        assert(s@.subrange(start as int, i as int) =~= digits);
    }
    if leading > expected {
        return false;
    }
    let mut top: usize = expected;
    while top > 0 && limbs[top - 1] == 0
        invariant
            top <= expected,
            limbs@.len() == expected,
            forall|k: int| top <= k < expected ==> limbs@[k] == 0,
        decreases top,
    {
        top = top - 1;
    }
    proof {
        lemma_le_value_zero_tail(limbs@, top as int);
        let v = le_value(limbs@);
        if top == 0 {
            assert(limbs@.take(0) =~= Seq::<u8>::empty());
            assert(byte_len(v) == 0);
        } else {
            lemma_le_value_prefix(limbs@, top - 1);
            lemma_le_value_bounds(limbs@.take(top - 1));
            lemma_pow256_step((top - 1) as nat);
            let p = pow(256, (top - 1) as nat);
            let b = limbs@[top - 1];
            assert(p <= b * p <= 255 * p) by (nonlinear_arith)
                requires
                    1 <= b <= 255,
                    p > 0,
            ;
            lemma_byte_len_exact(v, top as nat);
        }
    }
    top == expected - leading
}

} // verus!
