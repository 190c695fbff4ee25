//! The value of the interpreter over the layout with one tag per kind of
//! heap object, and what such a value is once its tag has been read.

use crate::convert::DoubleLike;
use crate::convert::StringLike;
use crate::immediate_double;
use crate::interned::Interned;
use crate::interned::SymbolTable;
use crate::l4bits::value::ARRAY_TAG;
use crate::l4bits::value::BIG_INTEGER_TAG;
use crate::l4bits::value::BLOCK_TAG;
use crate::l4bits::value::BOOLEAN_TAG;
use crate::l4bits::value::BaseValue;
use crate::l4bits::value::CHAR_TAG;
use crate::l4bits::value::CLASS_TAG;
use crate::l4bits::value::DOUBLE_BOXED_TAG;
use crate::l4bits::value::DOUBLE_NEG_TAG;
use crate::l4bits::value::DOUBLE_TAG;
use crate::l4bits::value::INSTANCE_TAG;
use crate::l4bits::value::INTEGER_TAG;
use crate::l4bits::value::INVOKABLE_TAG;
use crate::l4bits::value::NIL_TAG;
use crate::l4bits::value::STRING_TAG;
use crate::l4bits::value::SYMBOL_TAG;
use crate::l4bits::value::TINY_STRING_TAG;
use crate::l4bits::value::spec_encode;
use crate::l4bits::value::spec_encode_ptr;
use crate::value_ptr::HasPointerTag;
use vstd::prelude::*;
use vstd::std_specs::convert::FromSpec;

verus! {

/// The kind of an array on the heap.
pub struct ArrayKind;

/// The kind of a block on the heap.
pub struct BlockKind;

/// The kind of a class on the heap.
pub struct ClassKind;

/// The kind of an instance on the heap.
pub struct InstanceKind;

/// The kind of a method on the heap.
pub struct InvokableKind;

impl HasPointerTag for ArrayKind {
    open spec fn spec_get_tag() -> u64 {
        ARRAY_TAG
    }

    fn get_tag() -> u64 {
        ARRAY_TAG
    }
}

impl HasPointerTag for BlockKind {
    open spec fn spec_get_tag() -> u64 {
        BLOCK_TAG
    }

    fn get_tag() -> u64 {
        BLOCK_TAG
    }
}

impl HasPointerTag for ClassKind {
    open spec fn spec_get_tag() -> u64 {
        CLASS_TAG
    }

    fn get_tag() -> u64 {
        CLASS_TAG
    }
}

impl HasPointerTag for InstanceKind {
    open spec fn spec_get_tag() -> u64 {
        INSTANCE_TAG
    }

    fn get_tag() -> u64 {
        INSTANCE_TAG
    }
}

impl HasPointerTag for InvokableKind {
    open spec fn spec_get_tag() -> u64 {
        INVOKABLE_TAG
    }

    fn get_tag() -> u64 {
        INVOKABLE_TAG
    }
}

/// What a value is: one of a closed set of kinds, each with what it holds.
/// An object of the heap is held by its address, a double by its pattern,
/// a short string by its payload.
#[derive(Debug, Clone, Copy, PartialEq, Eq, Structural)]
pub enum ValueEnum {
    Nil,
    Boolean(bool),
    Integer(i32),
    Double(u64),
    Symbol(Interned),
    Char(char),
    TinyStr(u64),
    BigInteger(u64),
    String(u64),
    AllocatedDouble(u64),
    Array(u64),
    Block(u64),
    Class(u64),
    Instance(u64),
    Invokable(u64),
}

/// A value of the interpreter.
#[derive(Clone, Copy)]
pub struct Value(pub BaseValue);

impl Value {
    /// What the value is. Every word is of exactly one kind: the kind that
    /// its tag names.
    pub open spec fn spec_decode(self) -> ValueEnum {
        let tag = self.0.spec_tag();
        let payload = self.0.spec_payload();
        if tag == NIL_TAG {
            ValueEnum::Nil
        } else if tag == BOOLEAN_TAG {
            ValueEnum::Boolean(payload == 1)
        } else if tag == INTEGER_TAG {
            ValueEnum::Integer(payload as i32)
        } else if tag == DOUBLE_TAG || tag == DOUBLE_NEG_TAG {
            ValueEnum::Double(immediate_double::spec_decode_payload(self.0@ >> 3))
        } else if tag == SYMBOL_TAG {
            ValueEnum::Symbol(Interned(payload as u16))
        } else if tag == CHAR_TAG {
            ValueEnum::Char((payload as u8) as char)
        } else if tag == TINY_STRING_TAG {
            ValueEnum::TinyStr(payload)
        } else if tag == BIG_INTEGER_TAG {
            ValueEnum::BigInteger(payload)
        } else if tag == STRING_TAG {
            ValueEnum::String(payload)
        } else if tag == DOUBLE_BOXED_TAG {
            ValueEnum::AllocatedDouble(payload)
        } else if tag == ARRAY_TAG {
            ValueEnum::Array(payload)
        } else if tag == BLOCK_TAG {
            ValueEnum::Block(payload)
        } else if tag == CLASS_TAG {
            ValueEnum::Class(payload)
        } else if tag == INSTANCE_TAG {
            ValueEnum::Instance(payload)
        } else {
            ValueEnum::Invokable(payload)
        }
    }

    /// What the value is.
    pub fn decode(self) -> (r: ValueEnum)
        ensures
            r == self.spec_decode(),
            r matches ValueEnum::Integer(value) ==> self.0.spec_as_integer() == Some(value),
            r matches ValueEnum::Boolean(value) ==> self.0.spec_as_boolean() == Some(value),
            r matches ValueEnum::Double(bits) ==> self.0.spec_as_double() == Some(bits),
            r matches ValueEnum::Symbol(symbol) ==> self.0.spec_as_symbol() == Some(symbol),
            r matches ValueEnum::Char(c) ==> self.0.spec_as_char() == Some(c),
            (r is BigInteger || r is String || r is AllocatedDouble || r is Array || r is Block
                || r is Class || r is Instance || r is Invokable) == self.0.spec_is_ptr_type(),
    {
        let tag: u64 = self.0.tag();
        if tag == NIL_TAG {
            ValueEnum::Nil
        } else if tag == BOOLEAN_TAG {
            ValueEnum::Boolean(self.0.is_boolean_true())
        } else if tag == INTEGER_TAG {
            ValueEnum::Integer(
                #[verifier::truncate]
                (self.0.payload() as i32),
            )
        } else if tag == DOUBLE_TAG || tag == DOUBLE_NEG_TAG {
            ValueEnum::Double(immediate_double::decode_payload(self.0.as_u64() >> 3))
        } else if tag == SYMBOL_TAG {
            ValueEnum::Symbol(
                Interned(
                    #[verifier::truncate]
                    (self.0.payload() as u16),
                ),
            )
        } else if tag == CHAR_TAG {
            let code: u8 = #[verifier::truncate]
            (self.0.payload() as u8);
            ValueEnum::Char(code as char)
        } else if tag == TINY_STRING_TAG {
            ValueEnum::TinyStr(self.0.payload())
        } else if tag == BIG_INTEGER_TAG {
            ValueEnum::BigInteger(self.0.payload())
        } else if tag == STRING_TAG {
            ValueEnum::String(self.0.payload())
        } else if tag == DOUBLE_BOXED_TAG {
            ValueEnum::AllocatedDouble(self.0.payload())
        } else if tag == ARRAY_TAG {
            ValueEnum::Array(self.0.payload())
        } else if tag == BLOCK_TAG {
            ValueEnum::Block(self.0.payload())
        } else if tag == CLASS_TAG {
            ValueEnum::Class(self.0.payload())
        } else if tag == INSTANCE_TAG {
            ValueEnum::Instance(self.0.payload())
        } else {
            ValueEnum::Invokable(self.0.payload())
        }
    }

    /// Whether the value refers to a heap object of kind `T`.
    pub fn is_value_ptr<T: HasPointerTag>(&self) -> (r: bool)
        ensures
            r == (self.0.spec_tag() == T::spec_get_tag()),
    {
        self.0.tag() == T::get_tag()
    }

    /// The reference to a heap object of kind `T` that the value holds.
    pub fn as_value_ptr<T: HasPointerTag, PTR: From<u64>>(&self) -> (r: Option<PTR>)
        ensures
            r.is_some() == (self.0.spec_tag() == T::spec_get_tag()),
            r.is_some() && PTR::obeys_from_spec() ==> r == Some(
                PTR::from_spec(self.0.spec_payload()),
            ),
    {
        self.0.as_ptr::<T, PTR>()
    }

    /// The reference to the block that the value holds.
    pub fn as_block<PTR: From<u64>>(self) -> (r: Option<PTR>)
        ensures
            r.is_some() == (self.0.spec_tag() == BLOCK_TAG),
            r.is_some() && PTR::obeys_from_spec() ==> r == Some(
                PTR::from_spec(self.0.spec_payload()),
            ),
    {
        self.as_value_ptr::<BlockKind, PTR>()
    }

    /// The reference to the class that the value holds.
    pub fn as_class<PTR: From<u64>>(self) -> (r: Option<PTR>)
        ensures
            r.is_some() == (self.0.spec_tag() == CLASS_TAG),
            r.is_some() && PTR::obeys_from_spec() ==> r == Some(
                PTR::from_spec(self.0.spec_payload()),
            ),
    {
        self.as_value_ptr::<ClassKind, PTR>()
    }

    /// The reference to the instance that the value holds.
    pub fn as_instance<PTR: From<u64>>(self) -> (r: Option<PTR>)
        ensures
            r.is_some() == (self.0.spec_tag() == INSTANCE_TAG),
            r.is_some() && PTR::obeys_from_spec() ==> r == Some(
                PTR::from_spec(self.0.spec_payload()),
            ),
    {
        self.as_value_ptr::<InstanceKind, PTR>()
    }

    /// The reference to the method that the value holds.
    pub fn as_invokable<PTR: From<u64>>(self) -> (r: Option<PTR>)
        ensures
            r.is_some() == (self.0.spec_tag() == INVOKABLE_TAG),
            r.is_some() && PTR::obeys_from_spec() ==> r == Some(
                PTR::from_spec(self.0.spec_payload()),
            ),
    {
        self.as_value_ptr::<InvokableKind, PTR>()
    }

    /// The address of the array that the value refers to.
    pub fn as_array(self) -> (r: Option<u64>)
        ensures
            r == self.0.spec_as_address(ARRAY_TAG),
    {
        if self.0.tag() == ARRAY_TAG {
            Some(self.0.extract_pointer_bits())
        } else {
            None
        }
    }

    /// A reference to the array at an address.
    #[allow(non_snake_case)]
    pub fn Array(address: u64) -> (r: Self)
        ensures
            r.0@ == spec_encode_ptr(ARRAY_TAG, address),
            address & 0b111 == 0 && address >> 63 == 0 ==> r.spec_decode() == ValueEnum::Array(
                address,
            ),
    {
        Value(BaseValue::new(ARRAY_TAG, address))
    }

    /// A reference to a block.
    #[allow(non_snake_case)]
    pub fn Block<PTR>(value: PTR) -> (r: Self) where u64: From<PTR>
        ensures
            <u64 as FromSpec<PTR>>::obeys_from_spec() ==> r.0@ == spec_encode_ptr(
                BLOCK_TAG,
                <u64 as FromSpec<PTR>>::from_spec(value),
            ),
    {
        Value(BaseValue::new(BLOCK_TAG, u64::from(value)))
    }

    /// A reference to a class.
    #[allow(non_snake_case)]
    pub fn Class<PTR>(value: PTR) -> (r: Self) where u64: From<PTR>
        ensures
            <u64 as FromSpec<PTR>>::obeys_from_spec() ==> r.0@ == spec_encode_ptr(
                CLASS_TAG,
                <u64 as FromSpec<PTR>>::from_spec(value),
            ),
    {
        Value(BaseValue::new(CLASS_TAG, u64::from(value)))
    }

    /// A reference to an instance.
    #[allow(non_snake_case)]
    pub fn Instance<PTR>(value: PTR) -> (r: Self) where u64: From<PTR>
        ensures
            <u64 as FromSpec<PTR>>::obeys_from_spec() ==> r.0@ == spec_encode_ptr(
                INSTANCE_TAG,
                <u64 as FromSpec<PTR>>::from_spec(value),
            ),
    {
        Value(BaseValue::new(INSTANCE_TAG, u64::from(value)))
    }

    /// A reference to a method.
    #[allow(non_snake_case)]
    pub fn Invokable<PTR>(value: PTR) -> (r: Self) where u64: From<PTR>
        ensures
            <u64 as FromSpec<PTR>>::obeys_from_spec() ==> r.0@ == spec_encode_ptr(
                INVOKABLE_TAG,
                <u64 as FromSpec<PTR>>::from_spec(value),
            ),
    {
        Value(BaseValue::new(INVOKABLE_TAG, u64::from(value)))
    }
}

/// Why a value could not be taken as the operand that a primitive asked
/// for: it is of another kind.
#[derive(Debug, Clone, Copy, PartialEq, Eq, Structural)]
pub enum ResolveError {
    /// Neither an integer nor a big integer.
    NotAnInteger,
    /// Neither a double nor an integer of either size.
    NotANumber,
    /// Neither a string of either size nor a symbol.
    NotAString,
    /// Not a boolean.
    NotABoolean,
    /// Not a symbol.
    NotASymbol,
    /// Not `nil`.
    NotNil,
    /// Of a kind that the operand is not made from.
    Unresolved,
}

/// An integer operand, before the heap has been read: the integer, or
/// the address of the big integer.
#[derive(Debug, Clone, Copy, PartialEq, Eq, Structural)]
pub enum IntegerOperand {
    Integer(i32),
    BigIntegerAt(u64),
}

/// A numeric operand, before the heap has been read.
#[derive(Debug, Clone, Copy, PartialEq, Eq, Structural)]
pub enum NumberOperand {
    Double(u64),
    Integer(i32),
    BigIntegerAt(u64),
    DoubleAt(u64),
}

/// A text operand, before the heap has been read.
#[derive(Debug, Clone, Copy, PartialEq, Eq, Structural)]
pub enum StringOperand {
    TinyStr(u64),
    StringAt(u64),
    Symbol(Interned),
}

impl ValueEnum {
    /// The address that a collector has to follow and may rewrite, where
    /// the value refers to an object that holds values in its turn: a
    /// class, an instance, a block, a method or an array.
    pub fn to_slot(self) -> (r: Option<u64>)
        ensures
            r == (match self {
                ValueEnum::Class(address) => Some(address),
                ValueEnum::Instance(address) => Some(address),
                ValueEnum::Block(address) => Some(address),
                ValueEnum::Invokable(address) => Some(address),
                ValueEnum::Array(address) => Some(address),
                _ => None,
            }),
    {
        match self {
            ValueEnum::Class(address) => Some(address),
            ValueEnum::Instance(address) => Some(address),
            ValueEnum::Block(address) => Some(address),
            ValueEnum::Invokable(address) => Some(address),
            ValueEnum::Array(address) => Some(address),
            _ => None,
        }
    }

    /// The value as an integer operand; a value of another kind is no
    /// failure of the interpreter, but an error to hand on.
    pub fn as_integer_operand(self) -> (r: Result<IntegerOperand, ResolveError>)
        ensures
            r == (match self {
                ValueEnum::Integer(value) => Ok(IntegerOperand::Integer(value)),
                ValueEnum::BigInteger(address) => Ok(IntegerOperand::BigIntegerAt(address)),
                _ => Err(ResolveError::NotAnInteger),
            }),
    {
        match self {
            ValueEnum::Integer(value) => Ok(IntegerOperand::Integer(value)),
            ValueEnum::BigInteger(address) => Ok(IntegerOperand::BigIntegerAt(address)),
            _ => Err(ResolveError::NotAnInteger),
        }
    }

    /// The value as a numeric operand.
    pub fn as_number_operand(self) -> (r: Result<NumberOperand, ResolveError>)
        ensures
            r == (match self {
                ValueEnum::Double(bits) => Ok(NumberOperand::Double(bits)),
                ValueEnum::Integer(value) => Ok(NumberOperand::Integer(value)),
                ValueEnum::BigInteger(address) => Ok(NumberOperand::BigIntegerAt(address)),
                ValueEnum::AllocatedDouble(address) => Ok(NumberOperand::DoubleAt(address)),
                _ => Err(ResolveError::NotANumber),
            }),
    {
        match self {
            ValueEnum::Double(bits) => Ok(NumberOperand::Double(bits)),
            ValueEnum::Integer(value) => Ok(NumberOperand::Integer(value)),
            ValueEnum::BigInteger(address) => Ok(NumberOperand::BigIntegerAt(address)),
            ValueEnum::AllocatedDouble(address) => Ok(NumberOperand::DoubleAt(address)),
            _ => Err(ResolveError::NotANumber),
        }
    }

    /// The value as a text operand.
    pub fn as_string_operand(self) -> (r: Result<StringOperand, ResolveError>)
        ensures
            r == (match self {
                ValueEnum::String(address) => Ok(StringOperand::StringAt(address)),
                ValueEnum::TinyStr(word) => Ok(StringOperand::TinyStr(word)),
                ValueEnum::Symbol(symbol) => Ok(StringOperand::Symbol(symbol)),
                _ => Err(ResolveError::NotAString),
            }),
    {
        match self {
            ValueEnum::String(address) => Ok(StringOperand::StringAt(address)),
            ValueEnum::TinyStr(word) => Ok(StringOperand::TinyStr(word)),
            ValueEnum::Symbol(symbol) => Ok(StringOperand::Symbol(symbol)),
            _ => Err(ResolveError::NotAString),
        }
    }
}

/// A value with what it refers to read out of the heap: a number, a text,
/// or a value of any other kind as it is.
#[derive(Debug, Clone)]
pub enum Resolved {
    Number(DoubleLike),
    Text(StringLike),
    Other(ValueEnum),
}

impl Resolved {
    /// Whether the table knows the symbol, if the value is one.
    pub open spec fn spec_resolves(self, table: SymbolTable) -> bool {
        match self {
            Resolved::Text(text) => text.spec_resolves(table),
            _ => true,
        }
    }

    /// Equality of values. Numbers are equal by what they are worth,
    /// whatever they are held as. Two symbols are equal where they are the
    /// same symbol; a symbol equals no string; strings are equal by their
    /// bytes, whatever their size. Values of other kinds are equal where
    /// they are of the same kind and hold the same.
    pub open spec fn spec_eq(self, other: Resolved, table: SymbolTable) -> bool {
        match (self, other) {
            (Resolved::Number(a), Resolved::Number(b)) => a.spec_eq(b),
            (Resolved::Text(StringLike::Symbol(a)), Resolved::Text(StringLike::Symbol(b))) => a
                == b,
            (Resolved::Text(StringLike::Symbol(_)), Resolved::Text(_)) => false,
            (Resolved::Text(_), Resolved::Text(StringLike::Symbol(_))) => false,
            (Resolved::Text(a), Resolved::Text(b)) => a.spec_content(table) == b.spec_content(
                table,
            ),
            (Resolved::Other(a), Resolved::Other(b)) => a == b,
            _ => false,
        }
    }

    /// The primitive `=` of the numbers: equality by worth, and false
    /// where either operand is no number.
    pub open spec fn spec_number_eq(self, other: Resolved) -> bool {
        match (self, other) {
            (Resolved::Number(a), Resolved::Number(b)) => a.spec_eq(b),
            _ => false,
        }
    }

    /// The primitive `=` of the numbers. An operand of another kind is no
    /// error: the answer is false.
    pub fn number_eq(&self, other: &Resolved) -> (r: bool)
        ensures
            r == self.spec_number_eq(*other),
    {
        match (self, other) {
            (Resolved::Number(a), Resolved::Number(b)) => a.eq(b),
            _ => false,
        }
    }

    /// The primitives `~=` and `<>` of the numbers: whether two numbers
    /// differ in worth. Where either operand is no number the answer is
    /// false too.
    pub fn number_uneq(&self, other: &Resolved) -> (r: bool)
        ensures
            r == (match (*self, *other) {
                (Resolved::Number(a), Resolved::Number(b)) => !a.spec_eq(b),
                _ => false,
            }),
    {
        match (self, other) {
            (Resolved::Number(a), Resolved::Number(b)) => !a.eq(b),
            _ => false,
        }
    }

    /// The primitive `=` of the texts: equality by the bytes, whatever the
    /// forms, and false where either operand is no text.
    pub open spec fn spec_string_eq(self, other: Resolved, table: SymbolTable) -> bool {
        match (self, other) {
            (Resolved::Text(a), Resolved::Text(b)) => a.spec_content(table) == b.spec_content(
                table,
            ),
            _ => false,
        }
    }

    /// The primitive `=` of the texts. An operand of another kind is no
    /// error: the answer is false.
    pub fn string_eq(&self, other: &Resolved, table: &SymbolTable) -> (r: bool)
        requires
            self.spec_resolves(*table),
            other.spec_resolves(*table),
        ensures
            r == self.spec_string_eq(*other, *table),
    {
        match (self, other) {
            (Resolved::Text(a), Resolved::Text(b)) => a.eq_stringlike(b, table),
            _ => false,
        }
    }

    /// Equality of values.
    pub fn eq(&self, other: &Resolved, table: &SymbolTable) -> (r: bool)
        requires
            self.spec_resolves(*table),
            other.spec_resolves(*table),
        ensures
            r == self.spec_eq(*other, *table),
    {
        match (self, other) {
            (Resolved::Number(a), Resolved::Number(b)) => a.eq(b),
            (Resolved::Text(StringLike::Symbol(a)), Resolved::Text(StringLike::Symbol(b))) => a.0
                == b.0,
            (Resolved::Text(StringLike::Symbol(_)), Resolved::Text(_)) => false,
            (Resolved::Text(_), Resolved::Text(StringLike::Symbol(_))) => false,
            (Resolved::Text(a), Resolved::Text(b)) => a.eq_stringlike(b, table),
            (Resolved::Other(a), Resolved::Other(b)) => *a == *b,
            _ => false,
        }
    }
}

/// Equality of two values, each given as its word and as what it is once
/// the heap has been read. Two identical words are equal without a look
/// at what they hold; any other two are equal as `Resolved::eq` says.
pub fn values_equal(
    a: Value,
    a_resolved: &Resolved,
    b: Value,
    b_resolved: &Resolved,
    table: &SymbolTable,
) -> (r: bool)
    requires
        a_resolved.spec_resolves(*table),
        b_resolved.spec_resolves(*table),
    ensures
        r == (a.0@ == b.0@ || a_resolved.spec_eq(*b_resolved, *table)),
{
    a.0.as_u64() == b.0.as_u64() || a_resolved.eq(b_resolved, table)
}

/// The one value `nil`, as an operand and as a result.
#[derive(Debug, Clone, Copy, PartialEq, Eq, Hash, Structural)]
pub struct Nil;

/// What a primitive can hand back as a value without the heap.
pub trait IntoValue {
    /// The word of the value. A type that says nothing else is worth
    /// `nil`.
    open spec fn spec_into_word(&self) -> u64 {
        spec_encode(NIL_TAG, 0)
    }

    fn into_value(&self) -> (r: Value)
        ensures
            r.0@ == self.spec_into_word(),
    ;
}

impl IntoValue for bool {
    open spec fn spec_into_word(&self) -> u64 {
        spec_encode(BOOLEAN_TAG, if *self { 1u64 } else { 0u64 })
    }

    fn into_value(&self) -> (r: Value) {
        Value(BaseValue::new_boolean(*self))
    }
}

impl IntoValue for i32 {
    open spec fn spec_into_word(&self) -> u64 {
        spec_encode(INTEGER_TAG, *self as u64)
    }

    fn into_value(&self) -> (r: Value) {
        Value(BaseValue::new_integer(*self))
    }
}

impl IntoValue for Interned {
    open spec fn spec_into_word(&self) -> u64 {
        spec_encode(SYMBOL_TAG, self.0 as u64)
    }

    fn into_value(&self) -> (r: Value) {
        Value(BaseValue::new_symbol(*self))
    }
}

impl IntoValue for Nil {
    open spec fn spec_into_word(&self) -> u64 {
        spec_encode(NIL_TAG, 0)
    }

    fn into_value(&self) -> (r: Value) {
        Value(BaseValue::nil())
    }
}

impl IntoValue for Value {
    open spec fn spec_into_word(&self) -> u64 {
        self.0@
    }

    fn into_value(&self) -> (r: Value) {
        *self
    }
}

impl<T: IntoValue> IntoValue for Option<T> {
    open spec fn spec_into_word(&self) -> u64 {
        match self {
            Some(it) => it.spec_into_word(),
            None => spec_encode(NIL_TAG, 0),
        }
    }

    fn into_value(&self) -> (r: Value) {
        match self {
            Some(it) => it.into_value(),
            None => Value(BaseValue::nil()),
        }
    }
}

/// What a primitive can take as an operand without the heap. A value of
/// another kind is no failure of the interpreter, but an error to hand on.
pub trait FromArgs: Sized {
    /// The operand that a value gives. A type that says nothing else is
    /// made from no value.
    open spec fn spec_from_args(arg: Value) -> Result<Self, ResolveError> {
        Err(ResolveError::Unresolved)
    }

    fn from_args(arg: Value) -> (r: Result<Self, ResolveError>)
        ensures
            r == Self::spec_from_args(arg),
    ;
}

impl FromArgs for Value {
    open spec fn spec_from_args(arg: Value) -> Result<Self, ResolveError> {
        Ok(arg)
    }

    fn from_args(arg: Value) -> (r: Result<Self, ResolveError>) {
        Ok(arg)
    }
}

impl FromArgs for bool {
    open spec fn spec_from_args(arg: Value) -> Result<Self, ResolveError> {
        match arg.0.spec_as_boolean() {
            Some(value) => Ok(value),
            None => Err(ResolveError::NotABoolean),
        }
    }

    fn from_args(arg: Value) -> (r: Result<Self, ResolveError>) {
        match arg.0.as_boolean() {
            Some(value) => Ok(value),
            None => Err(ResolveError::NotABoolean),
        }
    }
}

impl FromArgs for i32 {
    open spec fn spec_from_args(arg: Value) -> Result<Self, ResolveError> {
        match arg.0.spec_as_integer() {
            Some(value) => Ok(value),
            None => Err(ResolveError::NotAnInteger),
        }
    }

    fn from_args(arg: Value) -> (r: Result<Self, ResolveError>) {
        match arg.0.as_integer() {
            Some(value) => Ok(value),
            None => Err(ResolveError::NotAnInteger),
        }
    }
}

impl FromArgs for Interned {
    open spec fn spec_from_args(arg: Value) -> Result<Self, ResolveError> {
        match arg.0.spec_as_symbol() {
            Some(value) => Ok(value),
            None => Err(ResolveError::NotASymbol),
        }
    }

    fn from_args(arg: Value) -> (r: Result<Self, ResolveError>) {
        match arg.0.as_symbol() {
            Some(value) => Ok(value),
            None => Err(ResolveError::NotASymbol),
        }
    }
}

impl FromArgs for Nil {
    open spec fn spec_from_args(arg: Value) -> Result<Self, ResolveError> {
        if arg.0.spec_tag() == NIL_TAG {
            Ok(Nil)
        } else {
            Err(ResolveError::NotNil)
        }
    }

    fn from_args(arg: Value) -> (r: Result<Self, ResolveError>) {
        if arg.0.is_nil() {
            Ok(Nil)
        } else {
            Err(ResolveError::NotNil)
        }
    }
}

impl From<BaseValue> for Value {
    fn from(value: BaseValue) -> (r: Self)
        ensures
            r.0 == value,
    {
        Value(value)
    }
}

impl vstd::std_specs::convert::FromSpecImpl<BaseValue> for Value {
    open spec fn obeys_from_spec() -> bool {
        true
    }

    open spec fn from_spec(value: BaseValue) -> Self {
        Value(value)
    }
}

impl From<u64> for Value {
    /// Takes a word as a value, whatever its bits are.
    fn from(value: u64) -> (r: Self)
        ensures
            r.0@ == value,
    {
        Value(BaseValue::from(value))
    }
}

impl vstd::std_specs::convert::FromSpecImpl<u64> for Value {
    open spec fn obeys_from_spec() -> bool {
        true
    }

    open spec fn from_spec(value: u64) -> Self {
        Value(<BaseValue as FromSpec<u64>>::from_spec(value))
    }
}

} // verus!
