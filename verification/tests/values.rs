use num_bigint::BigInt;
use som_value::convert::DoubleLike;
use som_value::convert::StringLike;
use som_value::interned::Interned;
use som_value::interned::SymbolTable;
use som_value::l4bits::value::BaseValue;
use som_value::value::ArrayKind;
use som_value::value::BlockKind;
use som_value::value::ClassKind;
use som_value::value::FromArgs;
use som_value::value::InstanceKind;
use som_value::value::IntegerOperand;
use som_value::value::IntoValue;
use som_value::value::InvokableKind;
use som_value::value::Nil;
use som_value::value::NumberOperand;
use som_value::value::ResolveError;
use som_value::value::Resolved;
use som_value::value::StringOperand;
use som_value::value::values_equal;
use som_value::value::Value;
use som_value::value::ValueEnum;

#[derive(Debug, PartialEq, Clone, Copy)]
struct Gc(u64);

impl From<u64> for Gc {
    fn from(address: u64) -> Self {
        Gc(address)
    }
}

impl From<Gc> for u64 {
    fn from(gc: Gc) -> u64 {
        gc.0
    }
}

#[test]
fn every_value_is_of_one_kind() {
    assert_eq!(Value(BaseValue::nil()).decode(), ValueEnum::Nil);
    assert_eq!(Value(BaseValue::new_boolean(true)).decode(), ValueEnum::Boolean(true));
    assert_eq!(Value(BaseValue::new_boolean(false)).decode(), ValueEnum::Boolean(false));
    assert_eq!(Value(BaseValue::new_integer(-9)).decode(), ValueEnum::Integer(-9));
    assert_eq!(
        Value(BaseValue::new_double(2.5f64.to_bits())).decode(),
        ValueEnum::Double(2.5f64.to_bits())
    );
    assert_eq!(
        Value(BaseValue::new_double((-2.5f64).to_bits())).decode(),
        ValueEnum::Double((-2.5f64).to_bits())
    );
    assert_eq!(Value(BaseValue::new_symbol(Interned(12))).decode(), ValueEnum::Symbol(Interned(12)));
    assert_eq!(Value(BaseValue::new_char('q')).decode(), ValueEnum::Char('q'));
    let tiny = Value(BaseValue::new_tiny_str(b"hi".to_vec()));
    assert_eq!(tiny.decode(), ValueEnum::TinyStr(0x0FFF_FFFF_FFFF_6968));
    assert_eq!(Value(BaseValue::new_string(Gc(0x40))).decode(), ValueEnum::String(0x40));
    assert_eq!(Value(BaseValue::new_big_integer(Gc(0x48))).decode(), ValueEnum::BigInteger(0x48));
    assert_eq!(
        Value(BaseValue::new_allocated_double(Gc(0x50))).decode(),
        ValueEnum::AllocatedDouble(0x50)
    );
    assert_eq!(Value::Array(0x58).decode(), ValueEnum::Array(0x58));
    assert_eq!(Value::Block(Gc(0x60)).decode(), ValueEnum::Block(0x60));
    assert_eq!(Value::Class(Gc(0x68)).decode(), ValueEnum::Class(0x68));
    assert_eq!(Value::Instance(Gc(0x70)).decode(), ValueEnum::Instance(0x70));
    assert_eq!(Value::Invokable(Gc(0x78)).decode(), ValueEnum::Invokable(0x78));
}

#[test]
fn every_tag_decodes() {
    let mut seen = Vec::new();
    for tag in 0..16u64 {
        let kind = std::mem::discriminant(&Value::from((0x1230 << 4) | tag).decode());
        assert!(!seen.contains(&kind) || tag == 12);
        seen.push(kind);
    }
}

#[test]
fn arrays_and_typed_references() {
    let array = Value::Array(0x1000);
    assert_eq!(array.as_array(), Some(0x1000));
    assert!(array.is_value_ptr::<ArrayKind>());
    assert!(!array.is_value_ptr::<BlockKind>());
    assert_eq!(array.as_value_ptr::<ArrayKind, Gc>(), Some(Gc(0x1000)));
    assert_eq!(array.as_value_ptr::<ClassKind, Gc>(), None);
    assert_eq!(Value(BaseValue::new_integer(1)).as_array(), None);
    let class = Value::Class(Gc(0x2000));
    assert!(class.is_value_ptr::<ClassKind>());
    assert_eq!(class.as_value_ptr::<ClassKind, Gc>(), Some(Gc(0x2000)));
    assert_eq!(class.as_array(), None);
    assert!(Value::Instance(Gc(8)).is_value_ptr::<InstanceKind>());
    assert!(Value::Invokable(Gc(8)).is_value_ptr::<InvokableKind>());
    assert!(Value::Block(Gc(8)).is_value_ptr::<BlockKind>());
    assert_eq!(Value::from(BaseValue::new_integer(3)).0.as_integer(), Some(3));
}

#[test]
fn operands_are_resolved_by_kind() {
    assert_eq!(ValueEnum::Integer(4).as_integer_operand(), Ok(IntegerOperand::Integer(4)));
    assert_eq!(
        ValueEnum::BigInteger(0x40).as_integer_operand(),
        Ok(IntegerOperand::BigIntegerAt(0x40))
    );
    assert_eq!(ValueEnum::Double(7).as_integer_operand(), Err(ResolveError::NotAnInteger));
    assert_eq!(ValueEnum::Nil.as_integer_operand(), Err(ResolveError::NotAnInteger));
    assert_eq!(ValueEnum::Double(7).as_number_operand(), Ok(NumberOperand::Double(7)));
    assert_eq!(ValueEnum::Integer(4).as_number_operand(), Ok(NumberOperand::Integer(4)));
    assert_eq!(
        ValueEnum::BigInteger(0x40).as_number_operand(),
        Ok(NumberOperand::BigIntegerAt(0x40))
    );
    assert_eq!(
        ValueEnum::AllocatedDouble(0x48).as_number_operand(),
        Ok(NumberOperand::DoubleAt(0x48))
    );
    assert_eq!(ValueEnum::String(0x50).as_number_operand(), Err(ResolveError::NotANumber));
    assert_eq!(ValueEnum::Boolean(true).as_number_operand(), Err(ResolveError::NotANumber));
    assert_eq!(ValueEnum::String(0x50).as_string_operand(), Ok(StringOperand::StringAt(0x50)));
    assert_eq!(ValueEnum::TinyStr(9).as_string_operand(), Ok(StringOperand::TinyStr(9)));
    assert_eq!(
        ValueEnum::Symbol(Interned(3)).as_string_operand(),
        Ok(StringOperand::Symbol(Interned(3)))
    );
    assert_eq!(ValueEnum::Integer(4).as_string_operand(), Err(ResolveError::NotAString));
    assert_eq!(ValueEnum::Array(0x58).as_string_operand(), Err(ResolveError::NotAString));
}

#[test]
fn values_are_equal_across_representations() {
    let table = SymbolTable::new();
    let integer = Resolved::Number(DoubleLike::Integer(3));
    let double = Resolved::Number(DoubleLike::Double(3.0f64.to_bits()));
    let big = Resolved::Number(DoubleLike::BigInteger(BigInt::from(3)));
    let other = Resolved::Number(DoubleLike::Double(3.5f64.to_bits()));
    for a in [&integer, &double, &big] {
        for b in [&integer, &double, &big] {
            assert!(a.eq(b, &table));
        }
        assert!(!a.eq(&other, &table));
        assert!(!other.eq(a, &table));
    }
}

#[test]
fn values_of_different_kinds_are_not_equal() {
    let mut table = SymbolTable::new();
    let symbol = table.intern(b"ab").unwrap();
    let same = table.intern(b"ab").unwrap();
    let different = table.intern(b"cd").unwrap();
    let tiny = Resolved::Text(StringLike::TinyStr(som_value::tiny_str::pack(b"ab")));
    let heap = Resolved::Text(StringLike::String(b"ab".to_vec()));
    assert!(tiny.eq(&heap, &table));
    assert!(heap.eq(&tiny, &table));
    assert!(!heap.eq(&Resolved::Text(StringLike::String(b"abc".to_vec())), &table));
    let as_symbol = Resolved::Text(StringLike::Symbol(symbol));
    assert!(as_symbol.eq(&Resolved::Text(StringLike::Symbol(same)), &table));
    assert!(!as_symbol.eq(&Resolved::Text(StringLike::Symbol(different)), &table));
    assert!(!as_symbol.eq(&heap, &table));
    assert!(!tiny.eq(&as_symbol, &table));
    let three = Resolved::Number(DoubleLike::Integer(3));
    assert!(!three.eq(&Resolved::Text(StringLike::String(b"3".to_vec())), &table));
    assert!(!three.eq(&Resolved::Other(ValueEnum::Nil), &table));
    assert!(Resolved::Other(ValueEnum::Nil).eq(&Resolved::Other(ValueEnum::Nil), &table));
    assert!(Resolved::Other(ValueEnum::Array(8)).eq(&Resolved::Other(ValueEnum::Array(8)), &table));
    assert!(!Resolved::Other(ValueEnum::Array(8)).eq(&Resolved::Other(ValueEnum::Array(16)), &table));
    assert!(!Resolved::Other(ValueEnum::Array(8)).eq(&Resolved::Other(ValueEnum::Block(8)), &table));
    assert!(Resolved::Other(ValueEnum::Boolean(true))
        .eq(&Resolved::Other(ValueEnum::Boolean(true)), &table));
    assert!(!Resolved::Other(ValueEnum::Boolean(true))
        .eq(&Resolved::Other(ValueEnum::Boolean(false)), &table));
}

#[test]
fn results_become_values() {
    assert_eq!(true.into_value().0.as_boolean(), Some(true));
    assert_eq!(false.into_value().0.as_boolean(), Some(false));
    assert_eq!(42i32.into_value().0.as_integer(), Some(42));
    assert_eq!(Interned(9).into_value().0.as_symbol(), Some(Interned(9)));
    assert!(Nil.into_value().0.is_nil());
    assert!(None::<i32>.into_value().0.is_nil());
    assert_eq!(Some(7i32).into_value().0.as_integer(), Some(7));
    let value = Value(BaseValue::new_integer(5));
    assert_eq!(value.into_value().0.as_u64(), value.0.as_u64());
}

#[test]
fn operands_come_from_values_of_their_kind() {
    let integer = Value(BaseValue::new_integer(5));
    let boolean = Value(BaseValue::new_boolean(true));
    let symbol = Value(BaseValue::new_symbol(Interned(3)));
    let nil = Value(BaseValue::nil());
    assert_eq!(i32::from_args(integer), Ok(5));
    assert_eq!(i32::from_args(boolean), Err(ResolveError::NotAnInteger));
    assert_eq!(bool::from_args(boolean), Ok(true));
    assert_eq!(bool::from_args(integer), Err(ResolveError::NotABoolean));
    assert_eq!(Interned::from_args(symbol), Ok(Interned(3)));
    assert_eq!(Interned::from_args(nil), Err(ResolveError::NotASymbol));
    assert_eq!(Nil::from_args(nil), Ok(Nil));
    assert_eq!(Nil::from_args(integer), Err(ResolveError::NotNil));
    assert_eq!(Value::from_args(symbol).map(|value| value.0.as_u64()), Ok(symbol.0.as_u64()));
}

#[test]
fn references_by_kind() {
    let block = Value::Block(Gc(0x100));
    assert_eq!(block.as_block::<Gc>(), Some(Gc(0x100)));
    assert_eq!(block.as_class::<Gc>(), None);
    assert_eq!(Value::Class(Gc(0x108)).as_class::<Gc>(), Some(Gc(0x108)));
    assert_eq!(Value::Instance(Gc(0x110)).as_instance::<Gc>(), Some(Gc(0x110)));
    assert_eq!(Value::Invokable(Gc(0x118)).as_invokable::<Gc>(), Some(Gc(0x118)));
    assert_eq!(Value::Invokable(Gc(0x118)).as_block::<Gc>(), None);
    assert_eq!(block.0.as_ptr_unchecked::<BlockKind, Gc>(), Gc(0x100));
}

#[derive(Debug, PartialEq)]
struct Even(i32);

impl FromArgs for Even {
    fn from_args(arg: Value) -> Result<Self, ResolveError> {
        match arg.0.as_integer() {
            Some(value) if value % 2 == 0 => Ok(Even(value)),
            _ => Err(ResolveError::Unresolved),
        }
    }
}

impl IntoValue for Even {
    fn into_value(&self) -> Value {
        Value(BaseValue::new_integer(self.0))
    }
}

#[test]
fn operands_of_a_kind_of_ones_own() {
    assert_eq!(Even::from_args(Value(BaseValue::new_integer(4))), Ok(Even(4)));
    assert_eq!(Even::from_args(Value(BaseValue::new_integer(5))), Err(ResolveError::Unresolved));
    assert_eq!(Even::from_args(Value(BaseValue::nil())), Err(ResolveError::Unresolved));
    assert_eq!(Even(6).into_value().0.as_integer(), Some(6));
    assert_eq!(Some(Even(8)).into_value().0.as_integer(), Some(8));
}

#[test]
fn collector_follows_the_objects_that_hold_values() {
    assert_eq!(ValueEnum::Class(0x10).to_slot(), Some(0x10));
    assert_eq!(ValueEnum::Instance(0x18).to_slot(), Some(0x18));
    assert_eq!(ValueEnum::Block(0x20).to_slot(), Some(0x20));
    assert_eq!(ValueEnum::Invokable(0x28).to_slot(), Some(0x28));
    assert_eq!(ValueEnum::Array(0x30).to_slot(), Some(0x30));
    assert_eq!(ValueEnum::String(0x38).to_slot(), None);
    assert_eq!(ValueEnum::BigInteger(0x40).to_slot(), None);
    assert_eq!(ValueEnum::AllocatedDouble(0x48).to_slot(), None);
    assert_eq!(ValueEnum::Integer(7).to_slot(), None);
    assert_eq!(ValueEnum::Nil.to_slot(), None);
    assert_eq!(Value::Class(Gc(0x50)).decode().to_slot(), Some(0x50));
}

#[test]
fn primitive_equality_of_numbers_is_false_for_another_kind() {
    let three = Resolved::Number(DoubleLike::Integer(3));
    let also = Resolved::Number(DoubleLike::Double(3.0f64.to_bits()));
    let four = Resolved::Number(DoubleLike::Integer(4));
    let text = Resolved::Text(StringLike::String(b"3".to_vec()));
    let nil = Resolved::Other(ValueEnum::Nil);
    assert!(three.number_eq(&also));
    assert!(!three.number_eq(&four));
    assert!(!three.number_eq(&text));
    assert!(!text.number_eq(&three));
    assert!(!nil.number_eq(&nil));
    assert!(three.number_uneq(&four));
    assert!(!three.number_uneq(&also));
    assert!(!three.number_uneq(&text));
    assert!(!nil.number_uneq(&three));
}

#[test]
fn primitive_equality_of_texts_is_false_for_another_kind() {
    let mut table = SymbolTable::new();
    let symbol = table.intern(b"ab").unwrap();
    let heap = Resolved::Text(StringLike::String(b"ab".to_vec()));
    let interned = Resolved::Text(StringLike::Symbol(symbol));
    let tiny = Resolved::Text(StringLike::TinyStr(som_value::tiny_str::pack(b"ab")));
    let number = Resolved::Number(DoubleLike::Integer(3));
    assert!(heap.string_eq(&interned, &table));
    assert!(interned.string_eq(&tiny, &table));
    assert!(tiny.string_eq(&heap, &table));
    assert!(!heap.string_eq(&Resolved::Text(StringLike::String(b"abc".to_vec())), &table));
    assert!(!heap.string_eq(&number, &table));
    assert!(!number.string_eq(&heap, &table));
    assert!(!number.string_eq(&number, &table));
    assert!(!Resolved::Other(ValueEnum::Nil).string_eq(&Resolved::Other(ValueEnum::Nil), &table));
}

#[test]
fn identical_words_are_equal() {
    let table = SymbolTable::new();
    let word = Value::Array(0x1000);
    let as_it_is = Resolved::Other(ValueEnum::Array(0x1000));
    assert!(values_equal(word, &as_it_is, word, &as_it_is, &table));
    // a double on the heap that is not a number equals itself by its word
    let boxed = Value(BaseValue::new_allocated_double(Gc(0x2000)));
    let nan = Resolved::Number(DoubleLike::Double(f64::NAN.to_bits()));
    assert!(values_equal(boxed, &nan, boxed, &nan, &table));
    let other = Value(BaseValue::new_allocated_double(Gc(0x2008)));
    assert!(!values_equal(boxed, &nan, other, &nan, &table));
    // different words, equal by what they hold
    let three = Value(BaseValue::new_integer(3));
    let double = Value(BaseValue::new_double(3.0f64.to_bits()));
    assert!(values_equal(
        three,
        &Resolved::Number(DoubleLike::Integer(3)),
        double,
        &Resolved::Number(DoubleLike::Double(3.0f64.to_bits())),
        &table
    ));
    assert!(!values_equal(
        three,
        &Resolved::Number(DoubleLike::Integer(3)),
        word,
        &as_it_is,
        &table
    ));
}
