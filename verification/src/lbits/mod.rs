//! Layout with a four-bit tag in the low bits of the word, which holds a
//! double as it is where the four high bits of its pattern are zero.

pub mod value;
