//! Scalars of the BLS12-381 scalar field as octet strings.

use vstd::prelude::*;
use bls12_381_plus::Scalar;
use crate::encoding::DecodeError;
use crate::encoding::I2OSP;
use crate::encoding::OS2IP;
use crate::octets::be_value;
use crate::octets::le_value;
use crate::octets::pow256;

verus! {

/// The number of octets of an encoded scalar.
pub const SCALAR_WIDTH: usize = 32;

/// The modulus of the scalar field,
/// `0x73eda753299d7d483339d80809a1d80553bda402fffe5bfeffffffff00000001`,
/// written as four digits of 64 bits, the least significant first.
pub open spec fn scalar_modulus() -> nat {
    0xffff_ffff_0000_0001 + 0x53bd_a402_fffe_5bfe * pow256(8) + 0x3339_d808_09a1_d805 * pow256(16)
        + 0x73ed_a753_299d_7d48 * pow256(24)
}

/// The scalar of `bls12_381_plus`. Nothing inside it is seen here: what is
/// known of a scalar is known through its octets.
#[verifier::external_type_specification]
#[verifier::external_body]
pub struct ExScalar(bls12_381_plus::Scalar);

/// The 32 octets that `Scalar::to_bytes` returns for `s`.
pub uninterp spec fn scalar_le_octets(s: Scalar) -> Seq<u8>;

/// Whether `s` is a reduced element of the field: its octets are 32 and
/// stand for a number below the modulus.
pub open spec fn is_canonical(s: Scalar) -> bool {
    &&& scalar_le_octets(s).len() == 32
    &&& le_value(scalar_le_octets(s)) < scalar_modulus()
}

/// `Scalar::to_bytes`: the octets of the scalar, the least significant first.
/// The scalar is taken out of its inner form and reduced, so the octets stand
/// for a number below the modulus.
#[verifier::external_body]
fn scalar_to_bytes(s: &Scalar) -> (out: [u8; 32])
    ensures
        out@ == scalar_le_octets(*s),
        le_value(out@) < scalar_modulus(),
{
    s.to_bytes()
}

/// `Scalar::from_bytes`: the scalar whose little-endian octets `bytes` are,
/// where they stand for a number below the modulus, and nothing otherwise.
#[verifier::external_body]
fn scalar_from_bytes(bytes: &[u8; 32]) -> (r: Option<Scalar>)
    ensures
        r is Some <==> le_value(bytes@) < scalar_modulus(),
        r is Some ==> scalar_le_octets(r->0) == bytes@,
{
    Option::from(Scalar::from_bytes(bytes))
}

/// Whether `a` and `b` are the same element of the field: they have the same
/// octets.
pub open spec fn same_element(a: Scalar, b: Scalar) -> bool {
    scalar_le_octets(a) == scalar_le_octets(b)
}

/// `==` on scalars: whether the two are the same element of the field.
/// `bls12_381_plus` keeps every scalar reduced, so the digits that it
/// compares are equal exactly where the octets of `to_bytes` are.
#[verifier::external_body]
pub(crate) fn scalar_eq(a: &Scalar, b: &Scalar) -> (r: bool)
    ensures
        r == same_element(*a, *b),
{
    a == b
}

/// The hexadecimal digit for a number below 16, in lower case.
pub open spec fn hex_digit(d: nat) -> char {
    seq!['0', '1', '2', '3', '4', '5', '6', '7', '8', '9', 'a', 'b', 'c', 'd', 'e', 'f'][d as int]
}

/// Two hexadecimal digits for each octet of `s`, in the order of `s`.
pub open spec fn hex_digits(s: Seq<u8>) -> Seq<char>
    decreases s.len(),
{
    if s.len() == 0 {
        Seq::empty()
    } else {
        hex_digits(s.drop_last()).push(hex_digit(s.last() as nat / 16)).push(
            hex_digit(s.last() as nat % 16),
        )
    }
}

/// A scalar as text: `0x`, then its octets in hexadecimal, the most
/// significant first.
pub open spec fn scalar_text(s: Scalar) -> Seq<char> {
    seq!['0', 'x'] + hex_digits(scalar_le_octets(s).reverse())
}

/// The `Debug` form of a scalar: `0x`, then the octets that `to_bytes` gives,
/// from the last to the first, each as two hexadecimal digits in lower case.
#[verifier::external_body]
pub(crate) fn scalar_debug(s: &Scalar) -> (out: String)
    ensures
        out@ == scalar_text(*s),
{
    format!("{:?}", s)
}

impl I2OSP for Scalar {
    open spec fn octets(&self, len: usize) -> Seq<u8> {
        scalar_le_octets(*self).reverse()
    }

    /// Returns the 32 octets of the scalar, the most significant first,
    /// whatever `len` is.
    fn i2osp(&self, len: usize) -> (out: Vec<u8>)
        ensures
            out@.len() == SCALAR_WIDTH,
            be_value(out@) < scalar_modulus(),
    {
        let le: [u8; 32] = scalar_to_bytes(self);
        let mut out: Vec<u8> = Vec::new();
        let mut k: usize = 0;
        while k < 32
            invariant
                k <= 32,
                le@.len() == 32,
                out@.len() == k,
                forall|i: int| 0 <= i < k ==> #[trigger] out@[i] == le@[31 - i],
            decreases 32 - k,
        {
            out.push(le[31 - k]);
            k = k + 1;
        }
        assert(out@ =~= le@.reverse());
        proof {
            crate::octets::lemma_be_value_of_reverse(le@);
        }
        out
    }
}

impl OS2IP for Scalar {
    open spec fn fault(buf: Seq<u8>) -> Option<DecodeError> {
        if buf.len() != SCALAR_WIDTH {
            Some(DecodeError::WrongWidth)
        } else if be_value(buf) >= scalar_modulus() {
            Some(DecodeError::OutOfRange)
        } else {
            None
        }
    }

    /// Returns the scalar that the 32 octets of `buf` stand for, the most
    /// significant first. A number that is not below the modulus is refused,
    /// never reduced.
    fn os2ip(buf: &[u8]) -> (r: Result<Self, DecodeError>) {
        if buf.len() != SCALAR_WIDTH {
            return Err(DecodeError::WrongWidth);
        }
        let mut le: [u8; 32] = [0u8; 32];
        let mut k: usize = 0;
        while k < 32
            invariant
                k <= 32,
                buf@.len() == 32,
                le@.len() == 32,
                forall|i: int| 0 <= i < k ==> #[trigger] le@[i] == buf@[31 - i],
            decreases 32 - k,
        {
            le[k] = buf[31 - k];
            k = k + 1;
        }
        assert(le@ =~= buf@.reverse());
        assert(le@.reverse() =~= buf@);
        proof {
            crate::octets::lemma_be_value_of_reverse(buf@);
        }
        match scalar_from_bytes(&le) {
            Some(s) => Ok(s),
            None => Err(DecodeError::OutOfRange),
        }
    }
}

/// Round trip: the octets written for a reduced scalar are accepted when
/// read, and a scalar `back` that is read from them is the same element of
/// the field as `s`, which is what `==` on scalars and on messages tests.
pub proof fn lemma_scalar_round_trip(s: Scalar, len: usize, back: Scalar)
    requires
        is_canonical(s),
        back.octets(SCALAR_WIDTH) == s.octets(len),
    ensures
        Scalar::fault(s.octets(len)) is None,
        same_element(back, s),
{
    crate::octets::lemma_be_value_of_reverse(scalar_le_octets(s));
    assert(scalar_le_octets(back).reverse().reverse() =~= scalar_le_octets(back));
    assert(scalar_le_octets(s).reverse().reverse() =~= scalar_le_octets(s));
}

/// No octet string that stands for the modulus or for a larger number is
/// read as a scalar, and none of another width than 32.
pub proof fn lemma_out_of_range_is_refused(buf: Seq<u8>)
    ensures
        buf.len() == SCALAR_WIDTH && be_value(buf) >= scalar_modulus() ==> Scalar::fault(buf)
            == Some(DecodeError::OutOfRange),
        buf.len() != SCALAR_WIDTH ==> Scalar::fault(buf) == Some(DecodeError::WrongWidth),
        Scalar::fault(buf) is None <==> buf.len() == SCALAR_WIDTH && be_value(buf)
            < scalar_modulus(),
{
}

} // verus!
