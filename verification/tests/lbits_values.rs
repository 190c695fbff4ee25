use som_value::interned::Interned;
use som_value::lbits3::value::BaseValue as Narrow;
use som_value::lbits3::value::POINTER_TAG;
use som_value::lbits3::value::SYSTEM_TAG;
use som_value::lbits::value::BIG_INTEGER_TAG;
use som_value::lbits::value::BaseValue as Wide;
use som_value::lbits::value::DOUBLE_TAG;
use som_value::lbits::value::STRING_TAG;
use som_value::value_ptr::HasPointerTag;
use som_value::value_ptr::HeapKind;

struct Text;

impl HasPointerTag for Text {
    fn get_tag() -> u64 {
        STRING_TAG
    }
}

#[derive(Debug, PartialEq, Clone, Copy)]
struct Slot(u64);

impl From<u64> for Slot {
    fn from(address: u64) -> Self {
        Slot(address)
    }
}

impl From<Slot> for u64 {
    fn from(slot: Slot) -> u64 {
        slot.0
    }
}

#[test]
fn lbits_integer_round_trip() {
    for v in [0, 1, -1, 42, i32::MAX, i32::MIN] {
        assert_eq!(Wide::new_integer(v).as_integer(), Some(v));
        assert_eq!(Wide::Integer(v).as_integer(), Some(v));
        assert_eq!(Narrow::new_integer(v).as_integer(), Some(v));
        assert_eq!(Narrow::Integer(v).as_integer(), Some(v));
        assert!(Wide::new_integer(v).is_integer());
        assert!(Narrow::new_integer(v).is_integer());
    }
    assert_eq!(Wide::new_integer(1).as_u64(), 0x12);
    assert_eq!(Narrow::new_integer(1).as_u64(), 0b1010);
    assert_eq!(Wide::integer_zero().as_integer(), Some(0));
    assert_eq!(Narrow::integer_one().as_integer(), Some(1));
}

#[test]
fn lbits_booleans_symbols_chars() {
    assert_eq!(Wide::new_boolean(true).as_boolean(), Some(true));
    assert_eq!(Wide::Boolean(false).as_boolean(), Some(false));
    assert_eq!(Narrow::new_boolean(true).as_boolean(), Some(true));
    assert_eq!(Narrow::new_boolean(true).as_u64(), 0b1011);
    assert_eq!(Narrow::Boolean(false).as_boolean(), Some(false));
    assert_eq!(Wide::true_value().as_u64(), 0x13);
    assert_eq!(Narrow::false_value().as_u64(), 0b011);
    assert!(Wide::new_boolean(true).is_boolean_true());
    assert!(Narrow::new_boolean(false).is_boolean_false());
    assert!(!Narrow::new_boolean(false).as_boolean_unchecked());
    assert_eq!(Wide::new_symbol(Interned(77)).as_symbol(), Some(Interned(77)));
    assert_eq!(Wide::Symbol(Interned(u16::MAX)).as_symbol(), Some(Interned(u16::MAX)));
    assert_eq!(Narrow::new_symbol(Interned(77)).as_symbol(), Some(Interned(77)));
    assert_eq!(Narrow::Symbol(Interned(0)).as_symbol(), Some(Interned(0)));
    assert_eq!(Wide::new_char('x').as_char(), Some('x'));
    assert_eq!(Wide::Char('y').as_char(), Some('y'));
    assert_eq!(Narrow::new_char('x').as_char(), Some('x'));
    assert_eq!(Narrow::Char('\u{f1}').as_char(), Some('\u{f1}'));
    assert!(Wide::new_char('x').is_char() && Narrow::new_char('x').is_char());
    assert!(Wide::new_symbol(Interned(1)).is_symbol());
    assert!(Narrow::new_symbol(Interned(1)).is_symbol());
    assert!(Wide::nil().is_nil());
    assert!(Narrow::nil().is_nil());
    assert_eq!(Narrow::nil().as_u64(), 0);
    assert!(Narrow::system().is_system());
    assert_eq!(Narrow::system().as_u64(), SYSTEM_TAG);
    assert!(!Narrow::nil().is_system());
}

#[test]
fn lbits_double_comes_back_where_its_high_bits_are_free() {
    let small = 0x0123_4567_89AB_CDEFu64;
    assert!(Wide::is_immediate_double(small));
    let wide = Wide::new_double(small);
    assert!(wide.is_double());
    assert!(!wide.is_ptr_type());
    assert_eq!(wide.tag(), DOUBLE_TAG);
    assert_eq!(wide.as_double(), Some(small));
    assert_eq!(Wide::Double(small).as_u64(), wide.as_u64());
    assert!(Narrow::is_immediate_double(small));
    let narrow = Narrow::new_double(small);
    assert!(narrow.is_double());
    assert_eq!(narrow.as_double(), Some(small));
    assert_eq!(Narrow::Double(small).as_u64(), narrow.as_u64());
    let edge = 0x1FFF_FFFF_FFFF_FFFFu64;
    assert!(Narrow::is_immediate_double(edge) && !Wide::is_immediate_double(edge));
    assert_eq!(Narrow::new_double(edge).as_double(), Some(edge));
    assert!(Wide::is_immediate_double(0x0FFF_FFFF_FFFF_FFFF));
    assert_eq!(Wide::new_double(0).as_double(), Some(0));
    assert_eq!(Wide::new_integer(1).as_double(), None);
    assert_eq!(Narrow::new_integer(1).as_double(), None);
}

#[test]
fn lbits_doubles_with_high_bits_belong_on_the_heap() {
    for d in [1.0f64, -1.0, 1e300, -0.0, f64::INFINITY, f64::NAN] {
        assert!(!Wide::is_immediate_double(d.to_bits()), "{d}");
        assert!(!Narrow::is_immediate_double(d.to_bits()), "{d}");
    }
}

#[test]
fn lbits_wide_pointers() {
    let address = 0x7fff_0000_1238u64;
    let string = Wide::new_string(Slot(address));
    assert!(string.is_string() && string.is_ptr_type() && !string.is_big_integer());
    assert_eq!(string.tag(), STRING_TAG);
    assert_eq!(string.as_string::<Slot>(), Some(Slot(address)));
    assert_eq!(string.as_u64(), (address << 1) | STRING_TAG);
    assert_eq!(Wide::String(Slot(address)).as_u64(), string.as_u64());
    let big = Wide::new_big_integer(Slot(address));
    assert!(big.is_big_integer() && big.is_ptr_type());
    assert_eq!(big.tag(), BIG_INTEGER_TAG);
    assert_eq!(big.as_big_integer::<Slot>(), Some(Slot(address)));
    assert_eq!(big.as_string::<Slot>(), None);
    assert_eq!(big.payload(), address);
    assert_eq!(big.extract_pointer_bits(), address);
    assert_eq!(big.extract_gc_cell::<Slot>(), Slot(address));
    assert_eq!(big.as_something::<Slot>(), Some(Slot(address)));
    assert_eq!(Wide::BigInteger(Slot(address)).as_u64(), big.as_u64());
    assert_eq!(Wide::encode_ptr(STRING_TAG, address), string.as_u64());
    assert_eq!(Wide::decode_ptr(string.as_u64()), address);
    assert_eq!(Wide::new(STRING_TAG, address).as_u64(), string.as_u64());
    assert_eq!(Wide::new_ptr(0b1001, address).payload(), address);
    assert!(!Wide::new_integer(3).is_ptr_type());
    assert!(!Wide::new_double(3).is_ptr_type());
    assert_eq!(Wide::from(0x31u64).as_u64(), 0x31);
    assert!(big.is_ptr::<num_bigint::BigInt, Slot>());
    assert!(string.is_ptr::<Text, Slot>());
    assert!(!big.is_ptr::<Text, Slot>());
    assert_eq!(string.as_ptr::<Text, Slot>(), Some(Slot(address)));
    assert_eq!(big.as_ptr::<Text, Slot>(), None);
}

#[test]
fn lbits_narrow_pointers() {
    let address = 0x7fff_0000_1238u64;
    let string = Narrow::new_string(Slot(address));
    let big = Narrow::new_big_integer(Slot(address));
    for value in [string, big, Narrow::String(Slot(address)), Narrow::BigInteger(Slot(address))] {
        assert!(value.is_ptr_type());
        assert_eq!(value.tag(), POINTER_TAG);
        assert_eq!(value.as_u64(), address | POINTER_TAG);
        assert_eq!(value.extract_pointer_bits(), address);
        assert_eq!(value.payload(), address >> 3);
        assert_eq!(value.extract_gc_cell::<Slot>(), Slot(address));
        assert_eq!(value.as_something::<Slot>(), Some(Slot(address)));
    }
    assert!(!Narrow::new_integer(3).is_ptr_type());
    assert_eq!(Narrow::new_integer(3).as_something::<Slot>(), None);
    assert_eq!(Narrow::new(POINTER_TAG, 5).as_u64(), (5 << 3) | POINTER_TAG);
    assert_eq!(Narrow::from(0x31u64).as_u64(), 0x31);
}

#[test]
fn lbits_narrow_kind_is_read_from_the_heap() {
    let p = 0x7fff_0000_1238u64;
    let q = 0x7fff_0000_2468u64;
    let string = Narrow::new_string(Slot(p));
    let big = Narrow::new_big_integer(Slot(q));
    assert!(string.is_string(HeapKind::String));
    assert!(!string.is_big_integer(HeapKind::String));
    assert_eq!(string.as_string::<Slot>(HeapKind::String), Some(Slot(p)));
    assert_eq!(string.as_big_integer::<Slot>(HeapKind::String), None);
    assert!(big.is_big_integer(HeapKind::BigInteger));
    assert!(!big.is_string(HeapKind::BigInteger));
    assert_eq!(big.as_big_integer::<Slot>(HeapKind::BigInteger), Some(Slot(q)));
    assert_eq!(big.as_string::<Slot>(HeapKind::BigInteger), None);
    assert_eq!(big.as_string::<Slot>(HeapKind::Array), None);
    let integer = Narrow::new_integer(7);
    assert!(!integer.is_string(HeapKind::String));
    assert_eq!(integer.as_string::<Slot>(HeapKind::String), None);
    assert_eq!(integer.as_big_integer::<Slot>(HeapKind::BigInteger), None);
}
