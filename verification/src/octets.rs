//! The arithmetic of octet strings: which number a string of octets stands
//! for, and which string of a given width stands for a number.

use vstd::prelude::*;
use vstd::arithmetic::div_mod::lemma_div_denominator;
use vstd::arithmetic::div_mod::lemma_mod_breakdown;
use vstd::arithmetic::div_mod::lemma_basic_div;
use vstd::arithmetic::div_mod::lemma_small_mod;

verus! {

/// 256 to the power `e`: the weight of the octet that has `e` octets after it
/// in a big-endian string.
pub open spec fn pow256(e: nat) -> nat
    decreases e,
{
    if e == 0 {
        1
    } else {
        256 * pow256((e - 1) as nat)
    }
}

/// The big-endian octet string of width `len` for `v`. The octet at index `i`
/// has weight `256^(len - 1 - i)`. Digits of `v` that need more than `len`
/// octets are dropped; a string wider than `v` needs starts with zeros.
pub open spec fn be_octets(v: nat, len: nat) -> Seq<u8> {
    Seq::new(len, |i: int| ((v / pow256((len - 1 - i) as nat)) % 256) as u8)
}

/// The number that `s` stands for when its first octet is the most
/// significant one.
pub open spec fn be_value(s: Seq<u8>) -> nat
    decreases s.len(),
{
    if s.len() == 0 {
        0
    } else {
        be_value(s.drop_last()) * 256 + s.last() as nat
    }
}

/// The number that `s` stands for when its first octet is the least
/// significant one.
pub open spec fn le_value(s: Seq<u8>) -> nat
    decreases s.len(),
{
    if s.len() == 0 {
        0
    } else {
        s.first() as nat + 256 * le_value(s.drop_first())
    }
}

/// `256^e` is never zero.
pub proof fn lemma_pow256_positive(e: nat)
    ensures
        pow256(e) > 0,
    decreases e,
{
    if e > 0 {
        lemma_pow256_positive((e - 1) as nat);
    }
}

/// Dividing by `256^e` and then by 256 divides by `256^(e + 1)`.
pub proof fn lemma_pow256_step(v: nat, e: nat)
    ensures
        (v / pow256(e)) / 256 == v / pow256(e + 1),
        (v / 256) / pow256(e) == v / pow256(e + 1),
{
    lemma_pow256_positive(e);
    let p: int = pow256(e) as int;
    let w: int = v as int;
    assert(pow256(e + 1) == 256 * pow256(e));
    lemma_div_denominator(w, p, 256);
    lemma_div_denominator(w, 256, p);
    assert(p * 256 == 256 * p);
}

/// `256^e` does not fall as `e` grows.
pub proof fn lemma_pow256_monotone(e1: nat, e2: nat)
    requires
        e1 <= e2,
    ensures
        pow256(e1) <= pow256(e2),
    decreases e2,
{
    if e1 < e2 {
        lemma_pow256_monotone(e1, (e2 - 1) as nat);
        lemma_pow256_positive((e2 - 1) as nat);
    }
}

/// Eight octets hold exactly the numbers below `2^64`.
pub proof fn lemma_pow256_of_eight()
    ensures
        pow256(8) == 0x1_0000_0000_0000_0000,
{
    reveal_with_fuel(pow256, 9);
}

/// A string read with the most significant octet first stands for the number
/// that the reversed string stands for with the least significant first.
pub proof fn lemma_be_value_of_reverse(s: Seq<u8>)
    ensures
        be_value(s.reverse()) == le_value(s),
        le_value(s.reverse()) == be_value(s),
    decreases s.len(),
{
    if s.len() > 0 {
        let r = s.reverse();
        assert(r.drop_last() =~= s.drop_first().reverse());
        assert(r.last() == s.first());
        assert(r.drop_first() =~= s.drop_last().reverse());
        assert(r.first() == s.last());
        lemma_be_value_of_reverse(s.drop_first());
        lemma_be_value_of_reverse(s.drop_last());
    }
}

/// An octet string has the width that was asked for, whatever the number.
pub proof fn lemma_be_octets_width(v: nat, len: nat)
    ensures
        be_octets(v, len).len() == len,
{
}

/// A number below `256^e` has no digit of weight `256^e` or more.
pub proof fn lemma_high_digits_are_zero(v: nat, bound: nat, e: nat)
    requires
        v < pow256(bound),
        bound <= e,
    ensures
        v / pow256(e) == 0,
{
    lemma_pow256_monotone(bound, e);
    lemma_basic_div(v as int, pow256(e) as int);
}

/// Zero padding: where `v` fits in `fit` octets, a wider string for `v` is
/// the string of `fit` octets with zeros in front.
pub proof fn lemma_be_octets_padded(v: nat, fit: nat, len: nat)
    requires
        v < pow256(fit),
        fit <= len,
    ensures
        be_octets(v, len) == Seq::new((len - fit) as nat, |i: int| 0u8) + be_octets(v, fit),
{
    let wide = be_octets(v, len);
    let padded = Seq::new((len - fit) as nat, |i: int| 0u8) + be_octets(v, fit);
    assert forall|i: int| 0 <= i < len implies wide[i] == padded[i] by {
        if i < len - fit {
            lemma_high_digits_are_zero(v, fit, (len - 1 - i) as nat);
        }
    }
    assert(wide =~= padded);
}

/// Truncation: a narrower string for `v` is the end of a wider one.
pub proof fn lemma_be_octets_truncated(v: nat, len: nat, wider: nat)
    requires
        len <= wider,
    ensures
        be_octets(v, len) == be_octets(v, wider).subrange(wider - len, wider as int),
{
    assert(be_octets(v, len) =~= be_octets(v, wider).subrange(wider - len, wider as int));
}

/// An octet string of width `len` stands for the number it was made for,
/// less the digits that did not fit.
pub proof fn lemma_be_value_of_octets(v: nat, len: nat)
    ensures
        pow256(len) > 0,
        be_value(be_octets(v, len)) == v % pow256(len),
    decreases len,
{
    lemma_pow256_positive(len);
    let s = be_octets(v, len);
    if len == 0 {
        assert(pow256(0) == 1);
    } else {
        let shorter = (len - 1) as nat;
        let p = pow256(shorter);
        lemma_pow256_positive(shorter);
        assert forall|i: int| 0 <= i < shorter implies s.drop_last()[i] == be_octets(
            v / 256,
            shorter,
        )[i] by {
            lemma_pow256_step(v, (shorter - 1 - i) as nat);
        }
        assert(s.drop_last() =~= be_octets(v / 256, shorter));
        assert(pow256(0) == 1);
        assert(s.last() == s[len - 1]);
        assert((len - 1 - (len - 1)) as nat == 0);
        assert(v / 1 == v);
        assert(s.last() as nat == v % 256);
        lemma_be_value_of_octets(v / 256, shorter);
        lemma_mod_breakdown(v as int, 256, p as int);
        assert(pow256(len) == 256 * p);
        assert(be_value(s) == be_value(s.drop_last()) * 256 + s.last() as nat);
    }
}

/// Two numbers that fit in `len` octets and have the same octet string of
/// that width are the same number.
pub proof fn lemma_be_octets_injective(v: nat, w: nat, len: nat)
    requires
        v < pow256(len),
        w < pow256(len),
        be_octets(v, len) == be_octets(w, len),
    ensures
        v == w,
{
    lemma_be_value_of_octets(v, len);
    lemma_be_value_of_octets(w, len);
    lemma_small_mod(v, pow256(len));
    lemma_small_mod(w, pow256(len));
}

} // verus!
