//! Layout with a three-bit tag in the low bits of the word and one shared
//! tag for every reference into the heap.

pub mod value;
