//! Layout with a three-bit tag in the low bits of the word, in which an
//! address keeps its place, and which holds a double as it is where the
//! three high bits of its pattern are zero.

pub mod value;
