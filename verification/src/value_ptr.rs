//! Heap references that know the kind of object they refer to.

use core::marker::PhantomData;
use crate::l4bits::value::BIG_INTEGER_TAG;
use crate::l4bits::value::BaseValue;
use crate::l4bits::value::DOUBLE_BOXED_TAG;
use crate::l4bits::value::STRING_TAG;
use num_bigint::BigInt;
use vstd::prelude::*;
use vstd::std_specs::convert::FromSpec;

verus! {

/// The kind of a heap object, as it is written in the heap in the cell in
/// front of the object. A reference does not carry it: whoever wants to
/// know reads that cell.
#[derive(Debug, Clone, Copy, PartialEq, Eq, Hash, Structural)]
pub enum HeapKind {
    BigInteger,
    String,
    Double,
    Array,
    Block,
    Class,
    Instance,
    Method,
}

/// A kind of heap object, with the tag under which a reference to such an
/// object is stored.
pub trait HasPointerTag {
    /// The tag, as contracts speak of it. A kind that says nothing else
    /// has the tag 0.
    open spec fn spec_get_tag() -> u64 {
        0
    }

    fn get_tag() -> (tag: u64)
        ensures
            tag == Self::spec_get_tag(),
    ;
}

impl HasPointerTag for String {
    open spec fn spec_get_tag() -> u64 {
        STRING_TAG
    }

    fn get_tag() -> u64 {
        STRING_TAG
    }
}

impl HasPointerTag for BigInt {
    open spec fn spec_get_tag() -> u64 {
        BIG_INTEGER_TAG
    }

    fn get_tag() -> u64 {
        BIG_INTEGER_TAG
    }
}

/// The kind of a double that lives on the heap.
pub struct HeapDouble;

impl HasPointerTag for HeapDouble {
    open spec fn spec_get_tag() -> u64 {
        DOUBLE_BOXED_TAG
    }

    fn get_tag() -> u64 {
        DOUBLE_BOXED_TAG
    }
}

/// A word together with the kind `T` of heap object that it is taken to
/// refer to, and the type `PTR` of the reference.
#[verifier::reject_recursive_types(T)]
#[verifier::reject_recursive_types(PTR)]
pub struct TypedPtrValue<T, PTR> {
    value: BaseValue,
    _phantom: PhantomData<T>,
    _phantom2: PhantomData<PTR>,
}

impl<T, PTR> View for TypedPtrValue<T, PTR> {
    type V = u64;

    /// The word.
    closed spec fn view(&self) -> u64 {
        self.value@
    }
}

impl<T, PTR> TypedPtrValue<T, PTR> {
    /// The word as a plain value.
    pub closed spec fn as_base_value(self) -> BaseValue {
        self.value
    }
}

impl<T, PTR> TypedPtrValue<T, PTR> where T: HasPointerTag, PTR: From<u64> {
    /// Whether the word carries the tag of `T`.
    pub open spec fn spec_is_valid(self) -> bool {
        self@ & crate::l4bits::value::TAG_BITS == T::spec_get_tag()
    }

    /// The word of a reference to an object of kind `T`: the address of
    /// the reference under the tag of the kind.
    pub fn new(value: PTR) -> (r: Self) where u64: From<PTR>
        ensures
            <u64 as FromSpec<PTR>>::obeys_from_spec() ==> r@
                == crate::l4bits::value::spec_encode_ptr(
                T::spec_get_tag(),
                <u64 as FromSpec<PTR>>::from_spec(value),
            ),
    {
        let ptr: u64 = u64::from(value);
        TypedPtrValue {
            value: BaseValue::new_ptr(T::get_tag(), ptr),
            _phantom: PhantomData,
            _phantom2: PhantomData,
        }
    }

    /// Whether the word carries the tag of `T`.
    pub fn is_valid(&self) -> (r: bool)
        ensures
            r == self.spec_is_valid(),
    {
        self.value.tag() == T::get_tag()
    }

    /// The reference, if the word carries the tag of `T`.
    pub fn get(&self) -> (r: Option<PTR>)
        ensures
            r.is_some() == self.spec_is_valid(),
            r.is_some() && PTR::obeys_from_spec() ==> r == Some(
                PTR::from_spec(self.as_base_value().spec_payload()),
            ),
    {
        if self.is_valid() {
            Some(PTR::from(self.value.extract_pointer_bits()))
        } else {
            None
        }
    }

    /// The reference of a word that is known to carry the tag of `T`.
    pub fn get_unchecked(&self) -> (r: PTR)
        requires
            self.spec_is_valid(),
        ensures
            PTR::obeys_from_spec() ==> r == PTR::from_spec(self.as_base_value().spec_payload()),
    {
        PTR::from(self.value.extract_pointer_bits())
    }

}

/// A typed reference gives back the address that it was made from, for
/// every kind whose tag is a tag of the heap and every address whose three
/// low bits and high bit are free.
pub proof fn lemma_typed_pointer_round_trip<T: HasPointerTag, PTR: From<u64>>(
    typed: TypedPtrValue<T, PTR>,
    address: u64,
)
    requires
        crate::l4bits::value::spec_is_ptr_tag(T::spec_get_tag()),
        address & 0b111 == 0,
        address >> 63 == 0,
        typed@ == crate::l4bits::value::spec_encode_ptr(T::spec_get_tag(), address),
    ensures
        typed.spec_is_valid(),
        typed.as_base_value().spec_payload() == address,
{
    crate::l4bits::value::lemma_pointer_round_trip(
        typed.as_base_value(),
        T::spec_get_tag(),
        address,
    );
}

impl<T, PTR> From<BaseValue> for TypedPtrValue<T, PTR> {
    /// Takes a word as a reference to an object of kind `T`, whatever its
    /// tag is.
    fn from(value: BaseValue) -> (r: Self)
        ensures
            r@ == value@,
            r.as_base_value() == value,
    {
        TypedPtrValue { value, _phantom: PhantomData, _phantom2: PhantomData }
    }
}

impl<T, PTR> vstd::std_specs::convert::FromSpecImpl<BaseValue> for TypedPtrValue<T, PTR> {
    open spec fn obeys_from_spec() -> bool {
        true
    }

    closed spec fn from_spec(value: BaseValue) -> Self {
        TypedPtrValue { value, _phantom: PhantomData, _phantom2: PhantomData }
    }
}

impl<T, PTR> From<TypedPtrValue<T, PTR>> for BaseValue {
    /// The word.
    fn from(value: TypedPtrValue<T, PTR>) -> (r: Self)
        ensures
            r@ == value@,
            r == value.as_base_value(),
    {
        value.value
    }
}

impl<T, PTR> vstd::std_specs::convert::FromSpecImpl<TypedPtrValue<T, PTR>> for BaseValue {
    open spec fn obeys_from_spec() -> bool {
        true
    }

    closed spec fn from_spec(value: TypedPtrValue<T, PTR>) -> Self {
        value.value
    }
}

} // verus!
