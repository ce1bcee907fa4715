//! Conversions between a prime-field scalar and a 256-bit two's-complement
//! integer, together with an insertion-ordered table of typed columns.
//!
//! The scalar field has prime order `p` slightly above `2^252`. Residues in
//! `[0, (p-1)/2]` are read as non-negative integers; residues above `(p-1)/2`
//! are read as the negative integers `residue - p`. The conversions map that
//! signed reading onto the native range of a 256-bit signed integer and back.

pub mod column;
pub mod conversions;
pub mod int256;
pub mod limbs;
pub mod scalar;
pub mod table;
