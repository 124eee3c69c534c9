//! A message: a scalar that stands for a value to be signed.

use vstd::prelude::*;
use vstd::std_specs::cmp::PartialEqSpecImpl;
use bls12_381_plus::Scalar;
use crate::scalar::scalar_debug;
use crate::scalar::scalar_eq;
use crate::scalar::same_element;
use crate::scalar::scalar_text;

verus! {

/// A value in the form in which it is signed: one scalar, and nothing else.
#[derive(Clone, Copy)]
pub struct Message(pub Scalar);

impl Message {
    /// Returns the text of the message, which is that of its scalar.
    pub fn to_string(&self) -> (out: String)
        ensures
            out@ == scalar_text(self.0),
    {
        scalar_debug(&self.0)
    }
}

impl PartialEq for Message {
    /// Two messages are equal where their scalars are the same element of the
    /// field.
    fn eq(&self, other: &Self) -> (r: bool) {
        scalar_eq(&self.0, &other.0)
    }
}

impl PartialEqSpecImpl for Message {
    open spec fn obeys_eq_spec() -> bool {
        true
    }

    open spec fn eq_spec(&self, other: &Self) -> bool {
        same_element(self.0, other.0)
    }
}

} // verus!
