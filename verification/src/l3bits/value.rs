use crate::immediate_double;
use crate::interned::Interned;
use crate::tiny_str;
use crate::value_ptr::HasPointerTag;
use crate::value_ptr::HeapKind;
use vstd::prelude::*;
use vstd::std_specs::convert::FromSpec;

verus! {

pub const VALUE_TAG_BITS: u64 = 3;
pub const TAG_BITS: u64 = 0b111;

pub const TINY_STRING_TAG: u64 = 0b000;
pub const NIL_TAG: u64 = 0b001;
pub const INTEGER_TAG: u64 = 0b010;
pub const BOOLEAN_TAG: u64 = 0b011;
pub const DOUBLE_TAG: u64 = 0b100;
pub const SYMBOL_TAG: u64 = 0b101;

pub const DOUBLE_NEG_TAG: u64 = 0b110;

/// The one tag of every reference into the heap; the kind of the object is
/// written in the heap, in the cell in front of it.
pub const PTR_TAG: u64 = 0b111;

/// A value of the interpreter, packed into one 64-bit word: the low three
/// bits are the tag, the rest is the payload.
#[derive(Copy, Clone, Hash)]
pub struct BaseValue {
    encoded: u64,
}

impl View for BaseValue {
    type V = u64;

    /// The word that holds the value.
    closed spec fn view(&self) -> u64 {
        self.encoded
    }
}

/// The tag that marks a word as a reference into the heap.
pub open spec fn spec_is_ptr_tag(tag: u64) -> bool {
    tag == PTR_TAG
}

pub open spec fn spec_encode_ptr(tag: u64, ptr: u64) -> u64 {
    ptr | (tag & TAG_BITS)
}

pub open spec fn spec_decode_ptr(encoded: u64) -> u64 {
    encoded & !TAG_BITS
}

pub open spec fn spec_encode(tag: u64, value: u64) -> u64 {
    if spec_is_ptr_tag(tag) {
        spec_encode_ptr(tag, value)
    } else {
        (value << VALUE_TAG_BITS) | (tag & TAG_BITS)
    }
}

/// What the tag and the payload of a freshly made word are.
///
/// A value below the tag is moved up by the tag's width; an address stays
/// where it is, its three low bits being free.
proof fn lemma_encode(tag: u64, value: u64)
    by (bit_vector)
    requires
        tag < 8,
    ensures
        ((value << 3) | (tag & 0b111)) & 0b111 == tag,
        ((value << 3) | (tag & 0b111)) >> 3 == (value << 3) >> 3,
        value >> 61 == 0 ==> (value << 3) >> 3 == value,
        ((value << 3) | (tag & 0b111)) >> 59 == (value >> 56) & 0x1F,
        value & 0b111 == 0 ==> (value | (tag & 0b111)) & 0b111 == tag,
        value & 0b111 == 0 ==> (value | (tag & 0b111)) & !0b111u64 == value,
{
}

/// An integer comes back from the payload that it was stored in.
proof fn lemma_integer_payload(value: i32)
    by (bit_vector)
    ensures
        ((((value as u64) << 3) >> 3) as i32) == value,
{
}

/// What fits in sixteen bits comes back from its payload.
proof fn lemma_small_payload(value: u64)
    by (bit_vector)
    ensures
        value < 0x1_0000 ==> (((value << 3) >> 3) as u16) == value,
        value < 0x1_0000_0000 ==> value >> 61 == 0,
{
}

impl BaseValue {
    pub open spec fn spec_tag(self) -> u64 {
        self@ & TAG_BITS
    }

    pub open spec fn spec_is_ptr_type(self) -> bool {
        spec_is_ptr_tag(self.spec_tag())
    }

    pub open spec fn spec_payload(self) -> u64 {
        if self.spec_is_ptr_type() {
            spec_decode_ptr(self@)
        } else {
            self@ >> VALUE_TAG_BITS
        }
    }

    pub open spec fn spec_is_double(self) -> bool {
        self.spec_tag() == DOUBLE_TAG || self.spec_tag() == DOUBLE_NEG_TAG
    }

    /// The integer that the word holds, if it holds one.
    pub open spec fn spec_as_integer(self) -> Option<i32> {
        if self.spec_tag() == INTEGER_TAG {
            Some(self.spec_payload() as i32)
        } else {
            None
        }
    }

    /// The boolean that the word holds, if it holds one.
    pub open spec fn spec_as_boolean(self) -> Option<bool> {
        if self.spec_tag() == BOOLEAN_TAG {
            Some(self.spec_payload() == 1)
        } else {
            None
        }
    }

    /// The symbol that the word holds, if it holds one.
    pub open spec fn spec_as_symbol(self) -> Option<Interned> {
        if self.spec_tag() == SYMBOL_TAG {
            Some(Interned(self.spec_payload() as u16))
        } else {
            None
        }
    }

    /// The short string that the word holds, if it holds one.
    pub open spec fn spec_as_tiny_str(self) -> Option<Seq<u8>> {
        if self.spec_tag() == TINY_STRING_TAG {
            Some(tiny_str::spec_bytes(self.spec_payload()))
        } else {
            None
        }
    }

    /// The pattern of the double that the word holds, if it holds one.
    pub open spec fn spec_as_double(self) -> Option<u64> {
        if self.spec_is_double() {
            Some(immediate_double::spec_decode_payload(self@ >> 3))
        } else {
            None
        }
    }

    /// The address that the word holds, if its tag is `tag`.
    pub open spec fn spec_as_address(self, tag: u64) -> Option<u64> {
        if self.spec_tag() == tag {
            Some(self.spec_payload())
        } else {
            None
        }
    }

    /// The word for `true`.
    pub fn true_value() -> (r: Self)
        ensures
            r@ == spec_encode(BOOLEAN_TAG, 1),
            r.spec_as_boolean() == Some(true),
    {
        Self::new_boolean(true)
    }

    /// The word for `false`.
    pub fn false_value() -> (r: Self)
        ensures
            r@ == spec_encode(BOOLEAN_TAG, 0),
            r.spec_as_boolean() == Some(false),
    {
        Self::new_boolean(false)
    }

    /// The word for `nil`.
    pub fn nil() -> (r: Self)
        ensures
            r@ == spec_encode(NIL_TAG, 0),
            r.spec_tag() == NIL_TAG,
    {
        proof {
            lemma_encode(NIL_TAG, 0);
        }
        Self::new(NIL_TAG, 0)
    }

    /// The word for the integer 0.
    pub fn integer_zero() -> (r: Self)
        ensures
            r@ == spec_encode(INTEGER_TAG, 0),
            r.spec_as_integer() == Some(0i32),
    {
        Self::new_integer(0)
    }

    /// The word for the integer 1.
    pub fn integer_one() -> (r: Self)
        ensures
            r@ == spec_encode(INTEGER_TAG, 1),
            r.spec_as_integer() == Some(1i32),
    {
        Self::new_integer(1)
    }

    /// Makes a word from a tag and a value; under the tag of the heap the
    /// value is taken as an address.
    pub fn new(tag: u64, value: u64) -> (r: Self)
        ensures
            r@ == spec_encode(tag, value),
            tag < 8 && !spec_is_ptr_tag(tag) ==> r.spec_tag() == tag,
            tag < 8 && !spec_is_ptr_tag(tag) && value >> 61 == 0 ==> r.spec_payload() == value,
            spec_is_ptr_tag(tag) && value & 0b111 == 0 ==> r.spec_tag() == tag && r.spec_payload()
                == value,
    {
        proof {
            if tag < 8 {
                lemma_encode(tag, value);
            }
        }
        if tag == PTR_TAG {
            return Self::new_ptr(tag, value);
        }
        Self { encoded: (value << VALUE_TAG_BITS) | (tag & TAG_BITS) }
    }

    /// Makes a reference to the heap object at `ptr`, an address whose three
    /// low bits are free.
    pub fn new_ptr(tag: u64, ptr: u64) -> (r: Self)
        ensures
            r@ == spec_encode_ptr(tag, ptr),
            tag < 8 && ptr & 0b111 == 0 ==> r.spec_tag() == tag,
            spec_is_ptr_tag(tag) && ptr & 0b111 == 0 ==> r.spec_payload() == ptr,
    {
        proof {
            if tag < 8 {
                lemma_encode(tag, ptr);
            }
        }
        Self { encoded: ptr | (tag & TAG_BITS) }
    }

    /// The address in a word that refers to the heap.
    pub fn decode_ptr(encoded: u64) -> (r: u64)
        ensures
            r == spec_decode_ptr(encoded),
    {
        encoded & !TAG_BITS
    }

    /// Whether the word refers to the heap, so that a collector has to
    /// follow it.
    pub fn is_ptr_type(self) -> (r: bool)
        ensures
            r == self.spec_is_ptr_type(),
    {
        self.tag() == PTR_TAG
    }

    /// The address as a reference of the caller's choice, if the word refers
    /// to the heap at all.
    pub fn as_something<PTR>(self) -> (r: Option<PTR>) where PTR: From<u64>
        ensures
            r.is_some() == self.spec_is_ptr_type(),
            r.is_some() && PTR::obeys_from_spec() ==> r == Some(PTR::from_spec(self.spec_payload())),
    {
        if self.is_ptr_type() {
            Some(self.extract_gc_cell())
        } else {
            None
        }
    }

    pub fn as_u64(self) -> (r: u64)
        ensures
            r == self@,
    {
        self.encoded
    }

    pub fn tag(self) -> (r: u64)
        ensures
            r == self.spec_tag(),
            r < 8,
    {
        let encoded: u64 = self.encoded;
        assert(encoded & 0b111 < 8) by (bit_vector);
        self.encoded & TAG_BITS
    }

    /// What lies above the tag: the address under a tag of a heap object,
    /// the stored value otherwise.
    pub fn payload(self) -> (r: u64)
        ensures
            r == self.spec_payload(),
    {
        if self.is_ptr_type() {
            return Self::decode_ptr(self.encoded);
        }
        self.encoded >> VALUE_TAG_BITS
    }

    pub fn extract_gc_cell<Ptr>(self) -> (r: Ptr) where Ptr: From<u64>
        ensures
            Ptr::obeys_from_spec() ==> r == Ptr::from_spec(self.spec_payload()),
    {
        Ptr::from(self.payload())
    }

    pub fn extract_pointer_bits(self) -> (r: u64)
        ensures
            r == self.spec_payload(),
    {
        self.payload()
    }

    /// Puts a new address into a word that refers to the heap, in place,
    /// as a collector does after it has moved the object. The tag stays.
    pub fn replace_pointer_bits(&mut self, address: u64)
        requires
            old(self).spec_is_ptr_type(),
            address & 0b111 == 0,
        ensures
            final(self)@ == spec_encode_ptr(old(self).spec_tag(), address),
            final(self).spec_tag() == old(self).spec_tag(),
            final(self).spec_payload() == address,
    {
        let tag: u64 = self.tag();
        proof {
            lemma_encode(tag, address);
        }
        self.encoded = address | (tag & TAG_BITS);
    }

    /// Makes a short string of at most seven bytes.
    pub fn new_tiny_str(value: Vec<u8>) -> (r: Self)
        requires
            value@.len() <= tiny_str::MAX_LEN,
        ensures
            r.spec_tag() == TINY_STRING_TAG,
            forall|i: u64|
                0 <= i < 7 ==> #[trigger] tiny_str::spec_byte_at(r.spec_payload(), i)
                    == tiny_str::spec_packed_slot(value@, i),
            r@ >> 59 == (if value@.len() < 7 {
                0x1Fu64
            } else {
                0u64
            }),
            tiny_str::spec_fits(value@) ==> r.spec_as_tiny_str() == Some(value@),
    {
        let ptr: u64 = tiny_str::pack(value.as_slice());
        let r = Self::new(TINY_STRING_TAG, ptr);
        proof {
            lemma_encode(TINY_STRING_TAG, ptr);
            assert forall|i: u64| 0 <= i < 7 implies #[trigger] tiny_str::spec_byte_at(
                r.spec_payload(),
                i,
            ) == tiny_str::spec_packed_slot(value@, i) by {
                tiny_str::lemma_payload_keeps_slots(ptr, 3, i);
                assert(tiny_str::spec_byte_at(ptr, i) == tiny_str::spec_packed_slot(value@, i));
            }
            assert(tiny_str::spec_byte_at(ptr, 7) == tiny_str::spec_packed_slot(value@, 7));
            tiny_str::lemma_top_nibble(ptr);
            if tiny_str::spec_fits(value@) {
                tiny_str::lemma_slots_give_bytes(r.spec_payload(), value@);
            }
        }
        r
    }

    pub fn new_integer(value: i32) -> (r: Self)
        ensures
            r@ == spec_encode(INTEGER_TAG, value as u64),
            r.spec_as_integer() == Some(value),
    {
        proof {
            lemma_encode(INTEGER_TAG, value as u64);
            lemma_integer_payload(value);
        }
        Self::new(INTEGER_TAG, value as u64)
    }

    pub fn new_boolean(value: bool) -> (r: Self)
        ensures
            r@ == spec_encode(BOOLEAN_TAG, if value { 1u64 } else { 0u64 }),
            r.spec_as_boolean() == Some(value),
    {
        let payload: u64 = if value { 1 } else { 0 };
        proof {
            lemma_encode(BOOLEAN_TAG, payload);
            lemma_small_payload(payload);
        }
        Self::new(BOOLEAN_TAG, payload)
    }

    /// Makes a double from its pattern, which has to be one that a word can
    /// hold.
    pub fn new_double(bits: u64) -> (r: Self)
        requires
            immediate_double::spec_is_immediate(bits),
        ensures
            r@ == (immediate_double::spec_encode_payload(bits) << 3) | (if bits >> 63 == 0 {
                DOUBLE_TAG
            } else {
                DOUBLE_NEG_TAG
            }),
            r.spec_as_double() == Some(bits),
            !r.spec_is_ptr_type(),
    {
        let sign: u64 = bits >> 63;
        let tag: u64 = if sign == 0 { DOUBLE_TAG } else { DOUBLE_NEG_TAG };
        let payload: u64 = immediate_double::encode_payload(bits);
        proof {
            immediate_double::lemma_payload_round_trip(bits);
            immediate_double::lemma_tagged_payload(payload, sign);
        }
        Self { encoded: (payload << 3) | tag }
    }

    /// Makes a reference to a double that lives on the heap. The word is a
    /// reference into the heap and holds no double of its own, whatever the
    /// address; the address comes back where its three low bits are free.
    pub fn new_allocated_double<DoublePtr>(value: DoublePtr) -> (r: Self) where
        u64: From<DoublePtr>,
        DoublePtr: From<u64>,

        ensures
            r.spec_tag() == PTR_TAG,
            r.spec_is_ptr_type(),
            r.spec_as_double() is None,
            <u64 as FromSpec<DoublePtr>>::obeys_from_spec() ==> ({
                let address = <u64 as FromSpec<DoublePtr>>::from_spec(value);
                &&& r@ == spec_encode_ptr(PTR_TAG, address)
                &&& address & 0b111 == 0 ==> r.spec_as_address(PTR_TAG) == Some(address)
            }),
    {
        let address: u64 = u64::from(value);
        proof {
            lemma_encode(PTR_TAG, address);
            assert((address | (0b111u64 & 0b111)) & 0b111 == 0b111) by (bit_vector);
        }
        Self::new(PTR_TAG, address)
    }

    pub fn new_symbol(value: Interned) -> (r: Self)
        ensures
            r@ == spec_encode(SYMBOL_TAG, value.0 as u64),
            r.spec_as_symbol() == Some(value),
    {
        proof {
            lemma_encode(SYMBOL_TAG, value.0 as u64);
            lemma_small_payload(value.0 as u64);
        }
        Self::new(SYMBOL_TAG, value.0 as u64)
    }

    /// Makes a reference to an arbitrary-precision integer on the heap.
    pub fn new_big_integer<BigIntPtr>(value: BigIntPtr) -> (r: Self) where
        u64: From<BigIntPtr>,
        BigIntPtr: From<u64>,

        ensures
            <u64 as FromSpec<BigIntPtr>>::obeys_from_spec() ==> r@ == spec_encode_ptr(
                PTR_TAG,
                <u64 as FromSpec<BigIntPtr>>::from_spec(value),
            ),
    {
        let ptr: u64 = u64::from(value);
        Self::new(PTR_TAG, ptr)
    }

    /// Makes a reference to a string on the heap.
    pub fn new_string<StringPtr>(value: StringPtr) -> (r: Self) where
        u64: From<StringPtr>,
        StringPtr: From<u64>,

        ensures
            <u64 as FromSpec<StringPtr>>::obeys_from_spec() ==> r@ == spec_encode_ptr(
                PTR_TAG,
                <u64 as FromSpec<StringPtr>>::from_spec(value),
            ),
    {
        let ptr: u64 = u64::from(value);
        Self::new(PTR_TAG, ptr)
    }

    pub fn is_tiny_str(self) -> (r: bool)
        ensures
            r == (self.spec_tag() == TINY_STRING_TAG),
            r == self.spec_as_tiny_str().is_some(),
    {
        self.tag() == TINY_STRING_TAG
    }

    pub fn is_nil(self) -> (r: bool)
        ensures
            r == (self.spec_tag() == NIL_TAG),
    {
        self.tag() == NIL_TAG
    }

    pub fn is_integer(self) -> (r: bool)
        ensures
            r == (self.spec_tag() == INTEGER_TAG),
            r == self.spec_as_integer().is_some(),
    {
        self.tag() == INTEGER_TAG
    }

    pub fn is_double(self) -> (r: bool)
        ensures
            r == self.spec_is_double(),
            r == self.spec_as_double().is_some(),
    {
        let tag: u64 = self.tag();
        tag == DOUBLE_TAG || tag == DOUBLE_NEG_TAG
    }

    pub fn is_boolean(self) -> (r: bool)
        ensures
            r == (self.spec_tag() == BOOLEAN_TAG),
            r == self.spec_as_boolean().is_some(),
    {
        self.tag() == BOOLEAN_TAG
    }

    /// Whether the payload is that of `true`; it does not look at the tag.
    pub fn is_boolean_true(self) -> (r: bool)
        ensures
            r == (self.spec_payload() == 1),
    {
        self.payload() == 1
    }

    /// Whether the payload is that of `false`; it does not look at the tag.
    pub fn is_boolean_false(self) -> (r: bool)
        ensures
            r == (self.spec_payload() == 0),
    {
        self.payload() == 0
    }

    pub fn is_symbol(self) -> (r: bool)
        ensures
            r == (self.spec_tag() == SYMBOL_TAG),
            r == self.spec_as_symbol().is_some(),
    {
        self.tag() == SYMBOL_TAG
    }

    /// The reference to a heap object of the kind `wanted`, given the
    /// kind `found` in front of the object that the word refers to. It is
    /// for the caller to read `found` from the heap, and only where the
    /// word refers to the heap.
    pub fn as_heap_object<PTR>(self, found: HeapKind, wanted: HeapKind) -> (r: Option<PTR>) where
        PTR: From<u64>,

        ensures
            r.is_some() == (self.spec_is_ptr_type() && found == wanted),
            r.is_some() && PTR::obeys_from_spec() ==> r == Some(
                PTR::from_spec(self.spec_payload()),
            ),
    {
        if self.is_ptr_type() && found == wanted {
            Some(self.extract_gc_cell())
        } else {
            None
        }
    }

    /// The reference to the big integer that the word refers to.
    pub fn as_big_integer<BigIntPtr>(self, found: HeapKind) -> (r: Option<BigIntPtr>) where
        BigIntPtr: From<u64>,

        ensures
            r.is_some() == (self.spec_is_ptr_type() && found == HeapKind::BigInteger),
            r.is_some() && BigIntPtr::obeys_from_spec() ==> r == Some(
                BigIntPtr::from_spec(self.spec_payload()),
            ),
    {
        self.as_heap_object(found, HeapKind::BigInteger)
    }

    /// The reference to the string that the word refers to.
    pub fn as_string<StringPtr>(self, found: HeapKind) -> (r: Option<StringPtr>) where
        StringPtr: From<u64>,

        ensures
            r.is_some() == (self.spec_is_ptr_type() && found == HeapKind::String),
            r.is_some() && StringPtr::obeys_from_spec() ==> r == Some(
                StringPtr::from_spec(self.spec_payload()),
            ),
    {
        self.as_heap_object(found, HeapKind::String)
    }

    /// The reference to the double on the heap that the word refers to.
    pub fn as_allocated_double<DoublePtr>(self, found: HeapKind) -> (r: Option<DoublePtr>) where
        DoublePtr: From<u64>,

        ensures
            r.is_some() == (self.spec_is_ptr_type() && found == HeapKind::Double),
            r.is_some() && DoublePtr::obeys_from_spec() ==> r == Some(
                DoublePtr::from_spec(self.spec_payload()),
            ),
    {
        self.as_heap_object(found, HeapKind::Double)
    }

    /// The reference to the array that the word refers to.
    pub fn as_array<ArrayPtr>(self, found: HeapKind) -> (r: Option<ArrayPtr>) where
        ArrayPtr: From<u64>,

        ensures
            r.is_some() == (self.spec_is_ptr_type() && found == HeapKind::Array),
            r.is_some() && ArrayPtr::obeys_from_spec() ==> r == Some(
                ArrayPtr::from_spec(self.spec_payload()),
            ),
    {
        self.as_heap_object(found, HeapKind::Array)
    }

    pub fn as_tiny_str(self) -> (r: Option<Vec<u8>>)
        ensures
            r.is_some() == (self.spec_tag() == TINY_STRING_TAG),
            r.is_some() ==> r.unwrap()@ == self.spec_as_tiny_str().unwrap(),
    {
        if !self.is_tiny_str() {
            return None;
        }
        Some(tiny_str::unpack(self.payload()))
    }

    pub fn as_integer(self) -> (r: Option<i32>)
        ensures
            r == self.spec_as_integer(),
    {
        if self.is_integer() {
            Some(
                #[verifier::truncate]
                (self.payload() as i32),
            )
        } else {
            None
        }
    }

    /// The pattern of the double that the word holds.
    pub fn as_double(self) -> (r: Option<u64>)
        ensures
            r == self.spec_as_double(),
    {
        if self.is_double() {
            let payload: u64 = self.encoded >> 3;
            Some(immediate_double::decode_payload(payload))
        } else {
            None
        }
    }

    pub fn as_boolean(self) -> (r: Option<bool>)
        ensures
            r == self.spec_as_boolean(),
    {
        if self.is_boolean() {
            Some(self.is_boolean_true())
        } else {
            None
        }
    }

    /// Whether the payload is anything but that of `false`; it does not look
    /// at the tag.
    pub fn as_boolean_unchecked(self) -> (r: bool)
        ensures
            r == (self.spec_payload() != 0),
    {
        self.payload() != 0
    }

    pub fn as_symbol(self) -> (r: Option<Interned>)
        ensures
            r == self.spec_as_symbol(),
    {
        if self.is_symbol() {
            Some(Interned(
                #[verifier::truncate]
                (self.payload() as u16),
            ))
        } else {
            None
        }
    }

    /// Whether the word refers to a heap object of kind `T`.
    pub fn is_ptr<T, PTR>(&self) -> (r: bool) where T: HasPointerTag, PTR: From<u64>
        ensures
            r == (self.spec_tag() == T::spec_get_tag()),
    {
        self.tag() == T::get_tag()
    }

    /// The reference to a heap object of kind `T` that the word holds.
    pub fn as_ptr<T: HasPointerTag, PTR>(&self) -> (r: Option<PTR>) where PTR: From<u64>
        ensures
            r.is_some() == (self.spec_tag() == T::spec_get_tag()),
            r.is_some() && PTR::obeys_from_spec() ==> r == Some(
                PTR::from_spec(self.spec_payload()),
            ),
    {
        if self.tag() == T::get_tag() {
            Some(PTR::from(self.extract_pointer_bits()))
        } else {
            None
        }
    }

    /// The reference to a heap object of kind `T` in a word that is known
    /// to hold one.
    pub fn as_ptr_unchecked<T: HasPointerTag, PTR>(&self) -> (r: PTR) where PTR: From<u64>
        requires
            self.spec_tag() == T::spec_get_tag(),
        ensures
            PTR::obeys_from_spec() ==> r == PTR::from_spec(self.spec_payload()),
    {
        PTR::from(self.extract_pointer_bits())
    }

    #[allow(non_snake_case)]
    pub fn Boolean(value: bool) -> (r: Self)
        ensures
            r@ == spec_encode(BOOLEAN_TAG, if value { 1u64 } else { 0u64 }),
            r.spec_as_boolean() == Some(value),
    {
        Self::new_boolean(value)
    }

    #[allow(non_snake_case)]
    pub fn Integer(value: i32) -> (r: Self)
        ensures
            r@ == spec_encode(INTEGER_TAG, value as u64),
            r.spec_as_integer() == Some(value),
    {
        Self::new_integer(value)
    }

    #[allow(non_snake_case)]
    pub fn Double(bits: u64) -> (r: Self)
        requires
            immediate_double::spec_is_immediate(bits),
        ensures
            r@ == (immediate_double::spec_encode_payload(bits) << 3) | (if bits >> 63 == 0 {
                DOUBLE_TAG
            } else {
                DOUBLE_NEG_TAG
            }),
            r.spec_as_double() == Some(bits),
            !r.spec_is_ptr_type(),
    {
        Self::new_double(bits)
    }

    #[allow(non_snake_case)]
    pub fn AllocatedDouble<Ptr>(value: Ptr) -> (r: Self) where u64: From<Ptr>, Ptr: From<u64>
        ensures
            r.spec_tag() == PTR_TAG,
            r.spec_is_ptr_type(),
            r.spec_as_double() is None,
            <u64 as FromSpec<Ptr>>::obeys_from_spec() ==> ({
                let address = <u64 as FromSpec<Ptr>>::from_spec(value);
                &&& r@ == spec_encode_ptr(PTR_TAG, address)
                &&& address & 0b111 == 0 ==> r.spec_as_address(PTR_TAG) == Some(address)
            }),
    {
        Self::new_allocated_double(value)
    }

    #[allow(non_snake_case)]
    pub fn Symbol(value: Interned) -> (r: Self)
        ensures
            r@ == spec_encode(SYMBOL_TAG, value.0 as u64),
            r.spec_as_symbol() == Some(value),
    {
        Self::new_symbol(value)
    }

    #[allow(non_snake_case)]
    pub fn BigInteger<BigIntPtr>(value: BigIntPtr) -> (r: Self) where
        u64: From<BigIntPtr>,
        BigIntPtr: From<u64>,

        ensures
            <u64 as FromSpec<BigIntPtr>>::obeys_from_spec() ==> r@ == spec_encode_ptr(
                PTR_TAG,
                <u64 as FromSpec<BigIntPtr>>::from_spec(value),
            ),
    {
        Self::new_big_integer(value)
    }

    #[allow(non_snake_case)]
    pub fn TinyStr(value: Vec<u8>) -> (r: Self)
        requires
            value@.len() <= tiny_str::MAX_LEN,
        ensures
            r.spec_tag() == TINY_STRING_TAG,
            forall|i: u64|
                0 <= i < 7 ==> #[trigger] tiny_str::spec_byte_at(r.spec_payload(), i)
                    == tiny_str::spec_packed_slot(value@, i),
            r@ >> 59 == (if value@.len() < 7 {
                0x1Fu64
            } else {
                0u64
            }),
            tiny_str::spec_fits(value@) ==> r.spec_as_tiny_str() == Some(value@),
    {
        Self::new_tiny_str(value)
    }

    #[allow(non_snake_case)]
    pub fn String<Ptr>(value: Ptr) -> (r: Self) where u64: From<Ptr>, Ptr: From<u64>
        ensures
            <u64 as FromSpec<Ptr>>::obeys_from_spec() ==> r@ == spec_encode_ptr(
                PTR_TAG,
                <u64 as FromSpec<Ptr>>::from_spec(value),
            ),
    {
        Self::new_string(value)
    }
}

/// An integer that is stored in a word comes back from it, whatever the
/// integer.
pub proof fn lemma_integer_round_trip(word: BaseValue, value: i32)
    requires
        word@ == spec_encode(INTEGER_TAG, value as u64),
    ensures
        word.spec_as_integer() == Some(value),
{
    lemma_encode(INTEGER_TAG, value as u64);
    lemma_integer_payload(value);
}

/// A double that is stored in a word comes back from it bit for bit, the
/// sign of a zero with it, for every pattern that the constructor takes.
pub proof fn lemma_double_round_trip(word: BaseValue, bits: u64)
    requires
        immediate_double::spec_is_immediate(bits),
        word@ == (immediate_double::spec_encode_payload(bits) << 3) | (if bits >> 63 == 0 {
            DOUBLE_TAG
        } else {
            DOUBLE_NEG_TAG
        }),
    ensures
        word.spec_as_double() == Some(bits),
        !word.spec_is_ptr_type(),
{
    let payload = immediate_double::spec_encode_payload(bits);
    immediate_double::lemma_payload_round_trip(bits);
    immediate_double::lemma_tagged_payload(payload, bits >> 63);
}

/// A short string that is stored in a word comes back from it, for every
/// string of at most seven bytes that holds no sentinel.
pub proof fn lemma_tiny_str_round_trip(word: BaseValue, bytes: Seq<u8>)
    requires
        tiny_str::spec_fits(bytes),
        word.spec_tag() == TINY_STRING_TAG,
        forall|i: u64|
            0 <= i < 7 ==> #[trigger] tiny_str::spec_byte_at(word.spec_payload(), i)
                == tiny_str::spec_packed_slot(bytes, i),
    ensures
        word.spec_as_tiny_str() == Some(bytes),
{
    tiny_str::lemma_slots_give_bytes(word.spec_payload(), bytes);
}

/// The address of a heap object comes back from the word that refers to
/// it, where its three low bits are free.
pub proof fn lemma_pointer_round_trip(word: BaseValue, tag: u64, address: u64)
    requires
        spec_is_ptr_tag(tag),
        address & 0b111 == 0,
        word@ == spec_encode_ptr(tag, address),
    ensures
        word.spec_is_ptr_type(),
        word.spec_as_address(tag) == Some(address),
{
    lemma_encode(tag, address);
}

/// A double that lives on the heap is reached through its address: the
/// word that refers to it gives the address back, is a reference into the
/// heap, and holds no double of its own.
pub proof fn lemma_boxed_double_round_trip(word: BaseValue, address: u64)
    requires
        address & 0b111 == 0,
        word@ == spec_encode_ptr(PTR_TAG, address),
    ensures
        word.spec_as_address(PTR_TAG) == Some(address),
        word.spec_is_ptr_type(),
        word.spec_as_double() is None,
{
    lemma_encode(PTR_TAG, address);
}

impl From<u64> for BaseValue {
    /// Takes a word as a value, whatever its bits are.
    fn from(value: u64) -> (r: Self)
        ensures
            r@ == value,
    {
        BaseValue { encoded: value }
    }
}

impl vstd::std_specs::convert::FromSpecImpl<u64> for BaseValue {
    open spec fn obeys_from_spec() -> bool {
        true
    }

    closed spec fn from_spec(value: u64) -> Self {
        BaseValue { encoded: value }
    }
}

} // verus!
