//! Conversion between numbers and fixed-width big-endian octet strings.

use vstd::prelude::*;
use crate::octets::be_octets;
use crate::octets::pow256;
use crate::octets::lemma_pow256_step;

pub use crate::message::Message;

verus! {

/// Conversion of a number to a big-endian octet string.
pub trait I2OSP {
    /// The octet string that stands for `self` when `len` octets are asked for.
    spec fn octets(&self, len: usize) -> Seq<u8>;

    /// Returns the octet string that stands for `self`.
    fn i2osp(&self, len: usize) -> (out: Vec<u8>)
        ensures
            out@ == self.octets(len),
    ;
}

/// Why an octet string stands for no value.
#[derive(Clone, Copy, Debug, PartialEq, Eq, Structural)]
pub enum DecodeError {
    /// The string has not the width that every encoded value has.
    WrongWidth,
    /// The string has the right width, but the number it stands for is not
    /// below the modulus of the field.
    OutOfRange,
}

/// Conversion of a big-endian octet string back to the value that it stands
/// for. Only types with a canonical encoding have it.
pub trait OS2IP: I2OSP + Sized {
    /// Why `buf` stands for no value; `None` where it stands for one.
    spec fn fault(buf: Seq<u8>) -> Option<DecodeError>;

    /// Returns the value whose octet string `buf` is, or the reason why there
    /// is none.
    fn os2ip(buf: &[u8]) -> (r: Result<Self, DecodeError>)
        ensures
            match r {
                Ok(v) => Self::fault(buf@) is None && v.octets(buf.len()) == buf@,
                Err(e) => Self::fault(buf@) == Some(e),
            },
    ;
}

impl I2OSP for u64 {
    open spec fn octets(&self, len: usize) -> Seq<u8> {
        be_octets(*self as nat, len as nat)
    }

    /// Returns exactly `len` octets: the big-endian digits of `self`, with
    /// zeros in front where `len` is more than eight and without the most
    /// significant digits where it is less.
    fn i2osp(&self, len: usize) -> (out: Vec<u8>)
        ensures
            out@.len() == len,
    {
        let mut out: Vec<u8> = vec![0u8; len];
        let mut rest: u64 = *self;
        let mut k: usize = 0;
        assert(pow256(0) == 1);
        while k < len
            invariant
                k <= len,
                out@.len() == len,
                rest as nat == (*self as nat) / pow256(k as nat),
                forall|i: int|
                    len - k <= i < len ==> #[trigger] out@[i] as nat == ((*self as nat) / pow256(
                        (len - 1 - i) as nat,
                    )) % 256,
            decreases len - k,
        {
            let digit: u8 = (rest % 256) as u8;
            out.set(len - 1 - k, digit);
            proof {
                lemma_pow256_step(*self as nat, k as nat);
            }
            rest = rest / 256;
            k = k + 1;
        }
        assert(out@ =~= self.octets(len));
        out
    }
}

impl I2OSP for usize {
    open spec fn octets(&self, len: usize) -> Seq<u8> {
        be_octets(*self as nat, len as nat)
    }

    /// Returns exactly `len` octets, as for the same number held in 64 bits.
    fn i2osp(&self, len: usize) -> (out: Vec<u8>)
        ensures
            out@.len() == len,
    {
        (*self as u64).i2osp(len)
    }
}

impl I2OSP for u8 {
    open spec fn octets(&self, len: usize) -> Seq<u8> {
        be_octets(*self as nat, len as nat)
    }

    /// Returns exactly `len` octets, as for the same number held in 64 bits.
    fn i2osp(&self, len: usize) -> (out: Vec<u8>)
        ensures
            out@.len() == len,
    {
        (*self as u64).i2osp(len)
    }
}

} // verus!
