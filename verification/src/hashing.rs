//! Framing of byte buffers that go into a hash: each buffer is preceded by
//! its length, so that buffers written one after another can be told apart.

use vstd::prelude::*;
use crate::encoding::I2OSP;
use crate::octets::be_octets;
use crate::octets::pow256;
use crate::octets::lemma_be_octets_injective;
use crate::octets::lemma_pow256_of_eight;

verus! {

/// The number of octets that hold the length in front of a framed buffer.
pub const LENGTH_WIDTH: usize = 8;

/// A buffer with its length in front: the length as a big-endian number of
/// eight octets, then the buffer itself.
pub open spec fn framed(buf: Seq<u8>) -> Seq<u8> {
    be_octets(buf.len(), LENGTH_WIDTH as nat) + buf
}

/// Preparation of a value for hashing.
pub trait EncodeForHash {
    /// The octets that are hashed for `self`.
    spec fn hash_input(&self) -> Seq<u8>;

    /// Returns the octets that are hashed for `self`.
    fn encode_for_hash(&self) -> (out: Vec<u8>)
        ensures
            out@ == self.hash_input(),
    ;
}

impl EncodeForHash for [u8] {
    open spec fn hash_input(&self) -> Seq<u8> {
        framed(self@)
    }

    /// Returns the length of the buffer in eight octets, followed by the
    /// buffer unchanged.
    fn encode_for_hash(&self) -> (out: Vec<u8>)
        ensures
            out@.len() == LENGTH_WIDTH + self@.len(),
    {
        let mut out: Vec<u8> = self.len().i2osp(LENGTH_WIDTH);
        out.extend_from_slice(self);
        out
    }
}

/// Framing is injective: two buffers with the same frame are the same
/// buffer, so buffers that differ in length or in content have different
/// frames.
pub proof fn lemma_framed_injective(a: Seq<u8>, b: Seq<u8>)
    requires
        framed(a) == framed(b),
    ensures
        a == b,
{
    assert(framed(a).len() == LENGTH_WIDTH + a.len());
    assert(framed(b).len() == LENGTH_WIDTH + b.len());
    assert(a =~= framed(a).subrange(LENGTH_WIDTH as int, LENGTH_WIDTH + a.len()));
    assert(b =~= framed(b).subrange(LENGTH_WIDTH as int, LENGTH_WIDTH + b.len()));
}

/// A frame says where it ends: where two strings that each start with the
/// frame of a buffer are equal, the two buffers are equal, and so is what
/// follows them. The buffers are such as a machine can hold.
pub proof fn lemma_framed_prefix_free(a: Seq<u8>, rest_a: Seq<u8>, b: Seq<u8>, rest_b: Seq<u8>)
    requires
        a.len() <= usize::MAX,
        b.len() <= usize::MAX,
        framed(a) + rest_a == framed(b) + rest_b,
    ensures
        a == b,
        rest_a == rest_b,
{
    let left = framed(a) + rest_a;
    let right = framed(b) + rest_b;
    let width = LENGTH_WIDTH as int;
    assert(be_octets(a.len(), LENGTH_WIDTH as nat) =~= left.subrange(0, width));
    assert(be_octets(b.len(), LENGTH_WIDTH as nat) =~= right.subrange(0, width));
    lemma_pow256_of_eight();
    lemma_be_octets_injective(a.len(), b.len(), LENGTH_WIDTH as nat);
    assert(a =~= left.subrange(width, width + a.len()));
    assert(b =~= right.subrange(width, width + b.len()));
    assert(rest_a =~= left.subrange(width + a.len(), left.len() as int));
    assert(rest_b =~= right.subrange(width + b.len(), right.len() as int));
}

/// Frames written one after another keep their split: two pairs of buffers
/// whose frames join to the same string are the same pair.
pub proof fn lemma_joined_frames_keep_the_split(
    a: Seq<u8>,
    b: Seq<u8>,
    c: Seq<u8>,
    d: Seq<u8>,
)
    requires
        a.len() <= usize::MAX,
        b.len() <= usize::MAX,
        c.len() <= usize::MAX,
        d.len() <= usize::MAX,
        framed(a) + framed(b) == framed(c) + framed(d),
    ensures
        a == c,
        b == d,
{
    lemma_framed_prefix_free(a, framed(b), c, framed(d));
    lemma_framed_injective(b, d);
}

} // verus!
