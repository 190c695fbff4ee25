//! Value representation of a dynamically typed bytecode interpreter:
//! tagged 64-bit words, inline short strings, a numeric tower over
//! machine and arbitrary-precision integers, and content-based string
//! identity.

pub mod bigint;
pub mod convert;
pub mod double;
pub mod immediate_double;
pub mod integer;
pub mod interned;
pub mod l3bits;
pub mod l4bits;
pub mod lbits3;
pub mod lbits;
pub mod string;
pub mod symbol;
pub mod tiny_str;
pub mod value;
pub mod value_ptr;
