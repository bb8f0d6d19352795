//! A bit-level codec primitive: decompose an unsigned integer into its
//! significant bits, least-significant first, and rebuild an unsigned
//! integer from such a stream of bits.
pub mod bits;
pub mod word;
pub mod stream;
pub mod compose;
