use crate::interned::Interned;
use crate::value_ptr::HasPointerTag;
use crate::value_ptr::HeapKind;
use vstd::prelude::*;
use vstd::std_specs::convert::FromSpec;

verus! {

pub const TAG_BITS: u64 = 0b111;

/// Tag bits for the `Nil` type.
pub const NIL_TAG: u64 = 0b000;
/// Tag bits for the `System` type.
pub const SYSTEM_TAG: u64 = 0b001;
/// Tag bits for the `Integer` type.
pub const INTEGER_TAG: u64 = 0b010;
/// Tag bits for the `Boolean` type.
pub const BOOLEAN_TAG: u64 = 0b011;
/// Tag bits for the `Symbol` type.
pub const SYMBOL_TAG: u64 = 0b100;
/// Tag bits for the `Char` type.
pub const CHAR_TAG: u64 = 0b101;
/// Tag bits for the `Double` type.
pub const DOUBLE_TAG: u64 = 0b110;
/// Tag bits for the `Pointer` type.
pub const POINTER_TAG: u64 = 0b111;

pub const PTR_MASK: u64 = !TAG_BITS;

/// A value of the interpreter, packed into one 64-bit word: the low three
/// bits are the tag, the rest is the payload.
#[derive(Copy, Clone, Hash)]
pub struct BaseValue {
    encoded: u64,
}

impl View for BaseValue {
    type V = u64;

    /// The word that holds the value.
    closed spec fn view(&self) -> u64 {
        self.encoded
    }
}

pub open spec fn spec_encode(tag: u64, value: u64) -> u64 {
    (value << 3) | tag
}

/// The word of a reference to the heap object at `ptr`.
pub open spec fn spec_encode_ptr(ptr: u64) -> u64 {
    ptr | POINTER_TAG
}

/// What the tag and the payload of a freshly made word are, and that an
/// address whose three low bits are free comes back from under its tag.
proof fn lemma_encode(tag: u64, value: u64)
    by (bit_vector)
    requires
        tag < 8,
    ensures
        ((value << 3) | tag) & 0b111 == tag,
        ((value << 3) | tag) >> 3 == value & 0x1FFF_FFFF_FFFF_FFFF,
        value >> 61 == 0 ==> value & 0x1FFF_FFFF_FFFF_FFFF == value,
        (value | 0b111) & 0b111 == 0b111,
        value & 0b111 == 0 ==> (value | 0b111) & !0b111u64 == value,
{
}

/// An integer comes back from the payload that it was stored in.
proof fn lemma_integer_payload(value: i32)
    by (bit_vector)
    ensures
        ((((value as u64) & 0x1FFF_FFFF_FFFF_FFFF) as i32)) == value,
{
}

/// What fits in sixteen bits, or in eight, comes back from its payload.
proof fn lemma_small_payload(value: u64)
    by (bit_vector)
    ensures
        value < 0x1_0000 ==> ((value & 0x1FFF_FFFF_FFFF_FFFF) as u16) == value,
        value < 0x100 ==> ((value & 0x1FFF_FFFF_FFFF_FFFF) as u8) == value,
        value < 0x1_0000_0000 ==> value >> 61 == 0,
{
}

/// The patterns of doubles that a word can hold and give back bit for
/// bit: those whose three high bits are zero. Every other double belongs
/// on the heap.
pub open spec fn spec_is_immediate_double(bits: u64) -> bool {
    bits >> 61 == 0
}

impl BaseValue {
    pub open spec fn spec_tag(self) -> u64 {
        self@ & TAG_BITS
    }

    pub open spec fn spec_is_ptr_type(self) -> bool {
        self.spec_tag() == POINTER_TAG
    }

    pub open spec fn spec_payload(self) -> u64 {
        self@ >> 3
    }

    /// The word without its tag: the address, where the word refers to the
    /// heap.
    pub open spec fn spec_pointer_bits(self) -> u64 {
        self@ & PTR_MASK
    }

    pub open spec fn spec_is_double(self) -> bool {
        self.spec_tag() == DOUBLE_TAG
    }

    /// The integer that the word holds, if it holds one.
    pub open spec fn spec_as_integer(self) -> Option<i32> {
        if self.spec_tag() == INTEGER_TAG {
            Some(self.spec_payload() as i32)
        } else {
            None
        }
    }

    /// The boolean that the word holds, if it holds one.
    pub open spec fn spec_as_boolean(self) -> Option<bool> {
        if self.spec_tag() == BOOLEAN_TAG {
            Some(self.spec_payload() == 1)
        } else {
            None
        }
    }

    /// The symbol that the word holds, if it holds one.
    pub open spec fn spec_as_symbol(self) -> Option<Interned> {
        if self.spec_tag() == SYMBOL_TAG {
            Some(Interned(self.spec_payload() as u16))
        } else {
            None
        }
    }

    /// The character that the word holds, if it holds one: the one whose
    /// code is the low byte of the payload.
    pub open spec fn spec_as_char(self) -> Option<char> {
        if self.spec_tag() == CHAR_TAG {
            Some((self.spec_payload() as u8) as char)
        } else {
            None
        }
    }

    /// The pattern of the double that the word holds, if it holds one.
    pub open spec fn spec_as_double(self) -> Option<u64> {
        if self.spec_is_double() {
            Some(self.spec_payload())
        } else {
            None
        }
    }

    /// The word for `true`.
    pub fn true_value() -> (r: Self)
        ensures
            r@ == spec_encode(BOOLEAN_TAG, 1),
            r.spec_as_boolean() == Some(true),
    {
        Self::new_boolean(true)
    }

    /// The word for `false`.
    pub fn false_value() -> (r: Self)
        ensures
            r@ == spec_encode(BOOLEAN_TAG, 0),
            r.spec_as_boolean() == Some(false),
    {
        Self::new_boolean(false)
    }

    /// The word for `nil`.
    pub fn nil() -> (r: Self)
        ensures
            r@ == spec_encode(NIL_TAG, 0),
            r.spec_tag() == NIL_TAG,
    {
        proof {
            lemma_encode(NIL_TAG, 0);
        }
        Self::new(NIL_TAG, 0)
    }

    /// The word for the `system` object.
    pub fn system() -> (r: Self)
        ensures
            r@ == spec_encode(SYSTEM_TAG, 0),
            r.spec_tag() == SYSTEM_TAG,
    {
        proof {
            lemma_encode(SYSTEM_TAG, 0);
        }
        Self::new(SYSTEM_TAG, 0)
    }

    /// The word for the integer 0.
    pub fn integer_zero() -> (r: Self)
        ensures
            r@ == spec_encode(INTEGER_TAG, 0),
            r.spec_as_integer() == Some(0i32),
    {
        Self::new_integer(0)
    }

    /// The word for the integer 1.
    pub fn integer_one() -> (r: Self)
        ensures
            r@ == spec_encode(INTEGER_TAG, 1),
            r.spec_as_integer() == Some(1i32),
    {
        Self::new_integer(1)
    }

    /// Makes a word from a tag and the value to store above it.
    pub fn new(tag: u64, value: u64) -> (r: Self)
        ensures
            r@ == spec_encode(tag, value),
            tag < 8 ==> r.spec_tag() == tag,
            tag < 8 ==> r.spec_payload() == value & 0x1FFF_FFFF_FFFF_FFFF,
            tag < 8 && value >> 61 == 0 ==> r.spec_payload() == value,
    {
        proof {
            if tag < 8 {
                lemma_encode(tag, value);
            }
        }
        Self { encoded: (value << 3) | tag }
    }

    /// Whether the word refers to the heap, so that a collector has to
    /// follow it.
    pub fn is_ptr_type(self) -> (r: bool)
        ensures
            r == self.spec_is_ptr_type(),
    {
        (self.encoded & TAG_BITS) == POINTER_TAG
    }

    /// The address as a reference of the caller's choice, if the word refers
    /// to the heap at all.
    pub fn as_something<PTR>(self) -> (r: Option<PTR>) where PTR: From<u64>
        ensures
            r.is_some() == self.spec_is_ptr_type(),
            r.is_some() && PTR::obeys_from_spec() ==> r == Some(
                PTR::from_spec(self.spec_pointer_bits()),
            ),
    {
        if self.is_ptr_type() {
            Some(self.extract_gc_cell())
        } else {
            None
        }
    }

    pub fn as_u64(self) -> (r: u64)
        ensures
            r == self@,
    {
        self.encoded
    }

    pub fn tag(self) -> (r: u64)
        ensures
            r == self.spec_tag(),
            r < 8,
    {
        let encoded: u64 = self.encoded;
        assert(encoded & 0b111 < 8) by (bit_vector);
        self.encoded & TAG_BITS
    }

    /// What lies above the tag.
    pub fn payload(self) -> (r: u64)
        ensures
            r == self.spec_payload(),
    {
        self.encoded >> 3
    }

    pub fn extract_gc_cell<Ptr>(self) -> (r: Ptr) where Ptr: From<u64>
        ensures
            Ptr::obeys_from_spec() ==> r == Ptr::from_spec(self.spec_pointer_bits()),
    {
        Ptr::from(self.extract_pointer_bits())
    }

    /// The word without its tag.
    pub fn extract_pointer_bits(self) -> (r: u64)
        ensures
            r == self.spec_pointer_bits(),
    {
        self.encoded & PTR_MASK
    }

    pub fn new_integer(value: i32) -> (r: Self)
        ensures
            r@ == spec_encode(INTEGER_TAG, value as u64),
            r.spec_as_integer() == Some(value),
    {
        proof {
            lemma_encode(INTEGER_TAG, value as u64);
            lemma_integer_payload(value);
        }
        Self::new(INTEGER_TAG, value as u64)
    }

    pub fn new_boolean(value: bool) -> (r: Self)
        ensures
            r@ == spec_encode(BOOLEAN_TAG, if value { 1u64 } else { 0u64 }),
            r.spec_as_boolean() == Some(value),
    {
        proof {
            lemma_encode(BOOLEAN_TAG, if value { 1u64 } else { 0u64 });
            lemma_small_payload(if value { 1u64 } else { 0u64 });
            assert(BOOLEAN_TAG | (1u64 << 3) == (1u64 << 3) | BOOLEAN_TAG && (0u64 << 3)
                | BOOLEAN_TAG == BOOLEAN_TAG) by (bit_vector);
        }
        Self { encoded: if value { BOOLEAN_TAG | (1 << 3) } else { BOOLEAN_TAG } }
    }

    /// Whether a double with this pattern can be held in a word. Whoever
    /// makes a new double asks this first.
    pub fn is_immediate_double(bits: u64) -> (r: bool)
        ensures
            r == spec_is_immediate_double(bits),
    {
        bits >> 61 == 0
    }

    /// Makes a double from its pattern, which has to be one that a word can
    /// hold.
    pub fn new_double(bits: u64) -> (r: Self)
        requires
            spec_is_immediate_double(bits),
        ensures
            r@ == spec_encode(DOUBLE_TAG, bits),
            r.spec_as_double() == Some(bits),
            !r.spec_is_ptr_type(),
    {
        proof {
            lemma_encode(DOUBLE_TAG, bits);
        }
        Self { encoded: (bits << 3) | DOUBLE_TAG }
    }

    pub fn new_symbol(value: Interned) -> (r: Self)
        ensures
            r@ == spec_encode(SYMBOL_TAG, value.0 as u64),
            r.spec_as_symbol() == Some(value),
    {
        proof {
            lemma_encode(SYMBOL_TAG, value.0 as u64);
            lemma_small_payload(value.0 as u64);
        }
        Self::new(SYMBOL_TAG, value.0 as u64)
    }

    pub fn new_char(value: char) -> (r: Self)
        ensures
            r@ == spec_encode(CHAR_TAG, value as u64),
            r.spec_tag() == CHAR_TAG,
            r.spec_payload() == value as u64,
            (value as u64) < 0x100 ==> r.spec_as_char() == Some(value),
    {
        proof {
            lemma_encode(CHAR_TAG, value as u64);
            lemma_small_payload(value as u64);
        }
        Self::new(CHAR_TAG, value as u64)
    }

    /// Makes a reference to an arbitrary-precision integer on the heap.
    pub fn new_big_integer<BigIntPtr>(value: BigIntPtr) -> (r: Self) where u64: From<BigIntPtr>, BigIntPtr: From<u64>
        ensures
            <u64 as FromSpec<BigIntPtr>>::obeys_from_spec() ==> ({
                let ptr = <u64 as FromSpec<BigIntPtr>>::from_spec(value);
                &&& r@ == spec_encode_ptr(ptr)
                &&& r.spec_is_ptr_type()
                &&& ptr & 0b111 == 0 ==> r.spec_pointer_bits() == ptr
            }),
    {
        let ptr: u64 = u64::from(value);
        proof {
            lemma_encode(POINTER_TAG, ptr);
        }
        Self { encoded: ptr | POINTER_TAG }
    }

    /// Makes a reference to a string on the heap.
    pub fn new_string<StringPtr>(value: StringPtr) -> (r: Self) where u64: From<StringPtr>, StringPtr: From<u64>
        ensures
            <u64 as FromSpec<StringPtr>>::obeys_from_spec() ==> ({
                let ptr = <u64 as FromSpec<StringPtr>>::from_spec(value);
                &&& r@ == spec_encode_ptr(ptr)
                &&& r.spec_is_ptr_type()
                &&& ptr & 0b111 == 0 ==> r.spec_pointer_bits() == ptr
            }),
    {
        let ptr: u64 = u64::from(value);
        proof {
            lemma_encode(POINTER_TAG, ptr);
        }
        Self { encoded: ptr | POINTER_TAG }
    }

    /// Whether the word refers to a big integer, given the kind `found`
    /// in front of the object that the word refers to. It is for the
    /// caller to read `found` from the heap, and only where the word
    /// refers to the heap.
    pub fn is_big_integer(self, found: HeapKind) -> (r: bool)
        ensures
            r == (self.spec_is_ptr_type() && found == HeapKind::BigInteger),
    {
        self.is_ptr_type() && found == HeapKind::BigInteger
    }

    /// Whether the word refers to a string, given the kind `found` in
    /// front of the object that the word refers to.
    pub fn is_string(self, found: HeapKind) -> (r: bool)
        ensures
            r == (self.spec_is_ptr_type() && found == HeapKind::String),
    {
        self.is_ptr_type() && found == HeapKind::String
    }

    pub fn is_system(self) -> (r: bool)
        ensures
            r == (self.spec_tag() == SYSTEM_TAG),
    {
        self.tag() == SYSTEM_TAG
    }

    pub fn is_nil(self) -> (r: bool)
        ensures
            r == (self.spec_tag() == NIL_TAG),
    {
        self.tag() == NIL_TAG
    }

    pub fn is_integer(self) -> (r: bool)
        ensures
            r == (self.spec_tag() == INTEGER_TAG),
            r == self.spec_as_integer().is_some(),
    {
        self.tag() == INTEGER_TAG
    }

    pub fn is_double(self) -> (r: bool)
        ensures
            r == self.spec_is_double(),
            r == self.spec_as_double().is_some(),
    {
        self.tag() == DOUBLE_TAG
    }

    pub fn is_boolean(self) -> (r: bool)
        ensures
            r == (self.spec_tag() == BOOLEAN_TAG),
            r == self.spec_as_boolean().is_some(),
    {
        self.tag() == BOOLEAN_TAG
    }

    /// Whether the payload is that of `true`; it does not look at the tag.
    pub fn is_boolean_true(self) -> (r: bool)
        ensures
            r == (self.spec_payload() == 1),
    {
        self.payload() == 1
    }

    /// Whether the payload is that of `false`; it does not look at the tag.
    pub fn is_boolean_false(self) -> (r: bool)
        ensures
            r == (self.spec_payload() == 0),
    {
        self.payload() == 0
    }

    pub fn is_symbol(self) -> (r: bool)
        ensures
            r == (self.spec_tag() == SYMBOL_TAG),
            r == self.spec_as_symbol().is_some(),
    {
        self.tag() == SYMBOL_TAG
    }

    pub fn is_char(self) -> (r: bool)
        ensures
            r == (self.spec_tag() == CHAR_TAG),
            r == self.spec_as_char().is_some(),
    {
        self.tag() == CHAR_TAG
    }

    /// The reference to the big integer that the word refers to, given
    /// the kind `found` in front of the object.
    pub fn as_big_integer<BigIntPtr>(self, found: HeapKind) -> (r: Option<BigIntPtr>) where
        BigIntPtr: From<u64>,

        ensures
            r.is_some() == (self.spec_is_ptr_type() && found == HeapKind::BigInteger),
            r.is_some() && BigIntPtr::obeys_from_spec() ==> r == Some(
                BigIntPtr::from_spec(self.spec_pointer_bits()),
            ),
    {
        if self.is_big_integer(found) {
            Some(self.extract_gc_cell())
        } else {
            None
        }
    }

    /// The reference to the string that the word refers to, given the
    /// kind `found` in front of the object.
    pub fn as_string<StringPtr>(self, found: HeapKind) -> (r: Option<StringPtr>) where
        StringPtr: From<u64>,

        ensures
            r.is_some() == (self.spec_is_ptr_type() && found == HeapKind::String),
            r.is_some() && StringPtr::obeys_from_spec() ==> r == Some(
                StringPtr::from_spec(self.spec_pointer_bits()),
            ),
    {
        if self.is_string(found) {
            Some(self.extract_gc_cell())
        } else {
            None
        }
    }

    pub fn as_integer(self) -> (r: Option<i32>)
        ensures
            r == self.spec_as_integer(),
    {
        if self.is_integer() {
            Some(
                #[verifier::truncate]
                (self.payload() as i32),
            )
        } else {
            None
        }
    }

    /// The pattern of the double that the word holds.
    pub fn as_double(self) -> (r: Option<u64>)
        ensures
            r == self.spec_as_double(),
    {
        if self.is_double() {
            Some(self.payload())
        } else {
            None
        }
    }

    pub fn as_boolean(self) -> (r: Option<bool>)
        ensures
            r == self.spec_as_boolean(),
    {
        if self.is_boolean() {
            Some(self.is_boolean_true())
        } else {
            None
        }
    }

    pub fn as_char(self) -> (r: Option<char>)
        ensures
            r == self.spec_as_char(),
    {
        if self.is_char() {
            let code: u8 = #[verifier::truncate]
            (self.payload() as u8);
            Some(code as char)
        } else {
            None
        }
    }

    /// Whether the payload is anything but that of `false`; it does not look
    /// at the tag.
    pub fn as_boolean_unchecked(self) -> (r: bool)
        ensures
            r == (self.spec_payload() != 0),
    {
        self.payload() != 0
    }

    pub fn as_symbol(self) -> (r: Option<Interned>)
        ensures
            r == self.spec_as_symbol(),
    {
        if self.is_symbol() {
            Some(Interned(
                #[verifier::truncate]
                (self.payload() as u16),
            ))
        } else {
            None
        }
    }

    /// Whether the word refers to a heap object of kind `T`.
    pub fn is_ptr<T, PTR>(&self) -> (r: bool) where T: HasPointerTag, PTR: From<u64>
        ensures
            r == (self.spec_tag() == T::spec_get_tag()),
    {
        self.tag() == T::get_tag()
    }

    /// The reference to a heap object of kind `T` that the word holds.
    pub fn as_ptr<T: HasPointerTag, PTR>(&self) -> (r: Option<PTR>) where PTR: From<u64>
        ensures
            r.is_some() == (self.spec_tag() == T::spec_get_tag()),
            r.is_some() && PTR::obeys_from_spec() ==> r == Some(
                PTR::from_spec(self.spec_pointer_bits()),
            ),
    {
        if self.tag() == T::get_tag() {
            Some(PTR::from(self.extract_pointer_bits()))
        } else {
            None
        }
    }

    /// The reference to a heap object of kind `T` in a word that is known
    /// to hold one.
    pub fn as_ptr_unchecked<T: HasPointerTag, PTR>(&self) -> (r: PTR) where PTR: From<u64>
        requires
            self.spec_tag() == T::spec_get_tag(),
        ensures
            PTR::obeys_from_spec() ==> r == PTR::from_spec(self.spec_pointer_bits()),
    {
        PTR::from(self.extract_pointer_bits())
    }

    #[allow(non_snake_case)]
    pub fn Boolean(value: bool) -> (r: Self)
        ensures
            r@ == spec_encode(BOOLEAN_TAG, if value { 1u64 } else { 0u64 }),
            r.spec_as_boolean() == Some(value),
    {
        Self::new_boolean(value)
    }

    #[allow(non_snake_case)]
    pub fn Integer(value: i32) -> (r: Self)
        ensures
            r@ == spec_encode(INTEGER_TAG, value as u64),
            r.spec_as_integer() == Some(value),
    {
        Self::new_integer(value)
    }

    #[allow(non_snake_case)]
    pub fn Double(bits: u64) -> (r: Self)
        requires
            spec_is_immediate_double(bits),
        ensures
            r@ == spec_encode(DOUBLE_TAG, bits),
            r.spec_as_double() == Some(bits),
            !r.spec_is_ptr_type(),
    {
        Self::new_double(bits)
    }

    #[allow(non_snake_case)]
    pub fn Symbol(value: Interned) -> (r: Self)
        ensures
            r@ == spec_encode(SYMBOL_TAG, value.0 as u64),
            r.spec_as_symbol() == Some(value),
    {
        Self::new_symbol(value)
    }

    #[allow(non_snake_case)]
    pub fn Char(value: char) -> (r: Self)
        ensures
            r@ == spec_encode(CHAR_TAG, value as u64),
            r.spec_tag() == CHAR_TAG,
            r.spec_payload() == value as u64,
            (value as u64) < 0x100 ==> r.spec_as_char() == Some(value),
    {
        Self::new_char(value)
    }

    #[allow(non_snake_case)]
    pub fn BigInteger<BigIntPtr>(value: BigIntPtr) -> (r: Self) where u64: From<BigIntPtr>, BigIntPtr: From<u64>
        ensures
            <u64 as FromSpec<BigIntPtr>>::obeys_from_spec() ==> ({
                let ptr = <u64 as FromSpec<BigIntPtr>>::from_spec(value);
                &&& r@ == spec_encode_ptr(ptr)
                &&& r.spec_is_ptr_type()
                &&& ptr & 0b111 == 0 ==> r.spec_pointer_bits() == ptr
            }),
    {
        Self::new_big_integer(value)
    }

    #[allow(non_snake_case)]
    pub fn String<Ptr>(value: Ptr) -> (r: Self) where u64: From<Ptr>, Ptr: From<u64>
        ensures
            <u64 as FromSpec<Ptr>>::obeys_from_spec() ==> ({
                let ptr = <u64 as FromSpec<Ptr>>::from_spec(value);
                &&& r@ == spec_encode_ptr(ptr)
                &&& r.spec_is_ptr_type()
                &&& ptr & 0b111 == 0 ==> r.spec_pointer_bits() == ptr
            }),
    {
        Self::new_string(value)
    }
}

/// An integer that is stored in a word comes back from it, whatever the
/// integer.
pub proof fn lemma_integer_round_trip(word: BaseValue, value: i32)
    requires
        word@ == spec_encode(INTEGER_TAG, value as u64),
    ensures
        word.spec_as_integer() == Some(value),
{
    lemma_encode(INTEGER_TAG, value as u64);
    lemma_integer_payload(value);
}

/// A double that is stored in a word comes back from it bit for bit, for
/// every pattern that the constructor takes.
pub proof fn lemma_double_round_trip(word: BaseValue, bits: u64)
    requires
        spec_is_immediate_double(bits),
        word@ == spec_encode(DOUBLE_TAG, bits),
    ensures
        word.spec_as_double() == Some(bits),
{
    lemma_encode(DOUBLE_TAG, bits);
}

/// The address of a heap object comes back from the word that refers to
/// it, where its three low bits are free.
pub proof fn lemma_pointer_round_trip(word: BaseValue, address: u64)
    requires
        address & 0b111 == 0,
        word@ == spec_encode_ptr(address),
    ensures
        word.spec_is_ptr_type(),
        word.spec_pointer_bits() == address,
{
    lemma_encode(POINTER_TAG, address);
}

impl From<u64> for BaseValue {
    /// Takes a word as a value, whatever its bits are.
    fn from(value: u64) -> (r: Self)
        ensures
            r@ == value,
    {
        BaseValue { encoded: value }
    }
}

impl vstd::std_specs::convert::FromSpecImpl<u64> for BaseValue {
    open spec fn obeys_from_spec() -> bool {
        true
    }

    closed spec fn from_spec(value: u64) -> Self {
        BaseValue { encoded: value }
    }
}

} // verus!
