//! Canonical fixed-width big-endian octet strings for unsigned integers and
//! for scalars of the BLS12-381 scalar field, and length-prefixed framing of
//! byte buffers that are to be hashed.

pub mod octets;
pub mod encoding;
pub mod scalar;
pub mod hashing;
pub mod message;
