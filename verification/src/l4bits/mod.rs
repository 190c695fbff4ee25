//! Layout with a four-bit tag in the low bits of the word and one tag per
//! kind of heap object.

pub mod value;
