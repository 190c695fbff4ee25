use som_value::convert::StringLike;
use som_value::convert::copy_bytes;
use som_value::interned::Interned;
use som_value::interned::SymbolTable;
use som_value::interned::bytes_equal;
use som_value::string::SubstringError;
use som_value::string::as_symbol;
use som_value::string::char_at;
use som_value::string::char_offset;
use som_value::string::CharClass;
use som_value::string::compact;
use som_value::string::concatenate;
use som_value::string::eq;
use som_value::string::fold_hash;
use som_value::string::has_no_sentinel;
use som_value::string::hashcode;
use som_value::string::is_all;
use som_value::string::is_digits;
use som_value::string::is_letters;
use som_value::string::is_whitespace;
use som_value::string::length;
use som_value::string::prim_substring_from_to;
use som_value::symbol::as_string;
use som_value::symbol::escape;
use som_value::symbol::needs_quotes;
use som_value::symbol::notation;
use som_value::tiny_str::byte_at;
use som_value::tiny_str::len;
use som_value::tiny_str::pack;
use som_value::tiny_str::unpack;
use std::collections::hash_map::DefaultHasher;
use std::hash::Hasher;

fn heap(text: &str) -> StringLike {
    StringLike::String(text.as_bytes().to_vec())
}

fn tiny(text: &str) -> StringLike {
    StringLike::TinyStr(pack(text.as_bytes()))
}

fn text_of(value: &StringLike, table: &SymbolTable) -> Vec<u8> {
    value.as_str(table)
}

#[test]
fn short_string_round_trip() {
    for text in ["", "a", "hi", "abc", "abcd", "abcde", "abcdef", "abcdefg", "\u{e9}t\u{e9}"] {
        let word = pack(text.as_bytes());
        assert_eq!(unpack(word), text.as_bytes().to_vec());
        assert_eq!(len(word), text.len());
    }
}

#[test]
fn short_string_hi_is_two_bytes_and_five_sentinels() {
    let word = pack(b"hi");
    let slots: Vec<u8> = (0..7).map(|i| byte_at(word, i)).collect();
    assert_eq!(slots, vec![b'h', b'i', 0xFF, 0xFF, 0xFF, 0xFF, 0xFF]);
    assert_eq!(word, 0xFFFF_FFFF_FFFF_6968);
    let table = SymbolTable::new();
    assert_eq!(length(&StringLike::TinyStr(word), &table), 2);
}

#[test]
fn short_string_of_seven_bytes_has_no_sentinel() {
    let word = pack(b"abcdefg");
    assert_eq!(word, 0x0067_6665_6463_6261);
    assert_eq!(len(word), 7);
    assert_eq!(byte_at(word, 7), 0);
}

#[test]
fn empty_short_string_is_all_sentinels() {
    assert_eq!(pack(b""), u64::MAX);
    assert_eq!(len(u64::MAX), 0);
    assert_eq!(unpack(u64::MAX), Vec::<u8>::new());
}

#[test]
fn string_identity() {
    let mut table = SymbolTable::new();
    let symbol = table.intern(b"ab").unwrap();
    let forms = [tiny("ab"), heap("ab"), StringLike::Symbol(symbol)];
    for a in &forms {
        for b in &forms {
            assert!(a.eq_stringlike(b, &table));
            assert!(eq(a, b, &table));
        }
    }
    let others = [tiny("ac"), heap("abc"), tiny(""), heap("")];
    for a in &forms {
        for b in &others {
            assert!(!a.eq_stringlike(b, &table));
            assert!(!b.eq_stringlike(a, &table));
        }
    }
}

#[test]
fn short_strings_with_different_words_and_the_same_text_are_equal() {
    let table = SymbolTable::new();
    let a = StringLike::TinyStr(0xFFFF_FFFF_FFFF_6968);
    let b = StringLike::TinyStr(0x00FF_FFFF_FFFF_6968);
    assert!(a.eq_stringlike(&b, &table));
    let c = StringLike::TinyStr(0x0011_2233_44FF_6968);
    assert!(a.eq_stringlike(&c, &table));
}

#[test]
fn symbols_compare_by_text() {
    let mut table = SymbolTable::new();
    let one = table.intern(b"one").unwrap();
    let two = table.intern(b"two").unwrap();
    let again = table.intern(b"one").unwrap();
    assert_eq!(one, again);
    assert_ne!(one, two);
    assert_eq!(table.len(), 2);
    assert_eq!(table.lookup(one), &b"one".to_vec());
    assert_eq!(table.find(b"two"), Some(two));
    assert_eq!(table.find(b"three"), None);
    assert!(StringLike::Symbol(one).eq_stringlike(&StringLike::Symbol(again), &table));
    assert!(!StringLike::Symbol(one).eq_stringlike(&StringLike::Symbol(two), &table));
    assert_eq!(one, Interned(0));
    assert_eq!(two, Interned(1));
}

#[test]
fn length_in_every_form() {
    let mut table = SymbolTable::new();
    let symbol = table.intern(b"a long symbol").unwrap();
    assert_eq!(length(&tiny(""), &table), 0);
    assert_eq!(length(&tiny("abcdefg"), &table), 7);
    assert_eq!(length(&heap("hello world"), &table), 11);
    assert_eq!(length(&StringLike::Symbol(symbol), &table), 13);
    assert_eq!(length(&heap("\u{e9}"), &table), 2);
}

#[test]
fn char_at_counts_from_one() {
    let mut table = SymbolTable::new();
    let symbol = table.intern(b"xyz").unwrap();
    let first = char_at(&heap("hello world"), 1, &table);
    assert!(matches!(first, StringLike::TinyStr(_)));
    assert_eq!(text_of(&first, &table), b"h".to_vec());
    assert_eq!(text_of(&char_at(&heap("hello world"), 11, &table), &table), b"d".to_vec());
    assert_eq!(text_of(&char_at(&tiny("abc"), 2, &table), &table), b"b".to_vec());
    assert_eq!(text_of(&char_at(&StringLike::Symbol(symbol), 3, &table), &table), b"z".to_vec());
}

#[test]
fn concatenation_takes_the_most_compact_form() {
    let mut table = SymbolTable::new();
    let symbol = table.intern(b"sym").unwrap();
    let short = concatenate(&tiny("abc"), &heap("defg"), &table);
    assert!(matches!(short, StringLike::TinyStr(_)));
    assert_eq!(text_of(&short, &table), b"abcdefg".to_vec());
    let long = concatenate(&tiny("abcd"), &tiny("efgh"), &table);
    assert!(matches!(long, StringLike::String(_)));
    assert_eq!(text_of(&long, &table), b"abcdefgh".to_vec());
    let mixed = concatenate(&StringLike::Symbol(symbol), &heap("bol"), &table);
    assert!(matches!(mixed, StringLike::TinyStr(_)));
    assert_eq!(text_of(&mixed, &table), b"symbol".to_vec());
    let empty = concatenate(&tiny(""), &heap(""), &table);
    assert!(matches!(empty, StringLike::TinyStr(_)));
    assert_eq!(text_of(&empty, &table), Vec::<u8>::new());
}

#[test]
fn text_with_a_sentinel_stays_on_the_heap() {
    let kept = compact(vec![b'a', 0xFF]);
    assert!(matches!(kept, StringLike::String(_)));
    assert!(matches!(compact(b"abcdefg".to_vec()), StringLike::TinyStr(_)));
    assert!(matches!(compact(b"abcdefgh".to_vec()), StringLike::String(_)));
    assert!(has_no_sentinel(b"abc"));
    assert!(!has_no_sentinel(&[1, 2, 0xFF]));
}

#[test]
fn substring_counts_characters_from_one() {
    let table = SymbolTable::new();
    let part = |text: &str, from: i32, to: i32| {
        prim_substring_from_to(&heap(text), from, to, &table).map(|value| text_of(&value, &table))
    };
    assert_eq!(part("hello world", 1, 5), Ok(b"hello".to_vec()));
    assert_eq!(part("hello world", 7, 11), Ok(b"world".to_vec()));
    assert_eq!(part("hello world", 7, 100), Ok(b"world".to_vec()));
    assert_eq!(part("hello world", 3, 3), Ok(b"l".to_vec()));
    assert_eq!(part("hello world", 3, 2), Ok(Vec::new()));
    assert_eq!(part("hello world", 12, 20), Ok(Vec::new()));
    assert_eq!(part("hello world", 50, 60), Ok(Vec::new()));
    assert_eq!(part("h\u{e9}llo", 2, 3), Ok("\u{e9}l".as_bytes().to_vec()));
    assert_eq!(part("\u{20ac}uro \u{1F600}!", 1, 1), Ok("\u{20ac}".as_bytes().to_vec()));
    assert_eq!(part("\u{20ac}uro \u{1F600}!", 6, 7), Ok("\u{1F600}!".as_bytes().to_vec()));
    assert_eq!(part("hello", 0, 3), Err(SubstringError::FromOutOfRange));
    assert_eq!(part("hello", -1, 3), Err(SubstringError::FromOutOfRange));
    assert_eq!(part("hello", i32::MIN, 3), Err(SubstringError::FromOutOfRange));
    assert_eq!(part("hello", 1, -1), Err(SubstringError::ToOutOfRange));
    assert_eq!(part("hello", 0, -1), Err(SubstringError::FromOutOfRange));
}

#[test]
fn substring_agrees_with_the_characters_of_the_text() {
    let table = SymbolTable::new();
    let text = "a\u{e9}\u{20ac}\u{1F600}z";
    for from in 1..=6 {
        for to in (from - 1)..=7 {
            let expected: String =
                text.chars().skip((from - 1) as usize).take((to - (from - 1)) as usize).collect();
            let got = prim_substring_from_to(&heap(text), from, to, &table).unwrap();
            assert_eq!(text_of(&got, &table), expected.as_bytes().to_vec());
        }
    }
}

#[test]
fn substring_takes_the_most_compact_form() {
    let table = SymbolTable::new();
    let short = prim_substring_from_to(&heap("hello world"), 1, 7, &table).unwrap();
    assert!(matches!(short, StringLike::TinyStr(_)));
    let long = prim_substring_from_to(&heap("hello world"), 1, 8, &table).unwrap();
    assert!(matches!(long, StringLike::String(_)));
}

#[test]
fn character_offsets() {
    let text = "a\u{e9}\u{20ac}z".as_bytes();
    assert_eq!(char_offset(text, 0, 0), 0);
    assert_eq!(char_offset(text, 0, 1), 1);
    assert_eq!(char_offset(text, 0, 2), 3);
    assert_eq!(char_offset(text, 0, 3), 6);
    assert_eq!(char_offset(text, 0, 4), 7);
    assert_eq!(char_offset(text, 0, 9), 7);
    assert_eq!(char_offset(text, 3, 1), 6);
}

#[test]
fn text_as_symbol() {
    let mut table = SymbolTable::new();
    let first = as_symbol(&heap("name"), &mut table).unwrap();
    let second = as_symbol(&tiny("name"), &mut table).unwrap();
    let third = as_symbol(&StringLike::Symbol(first), &mut table).unwrap();
    assert_eq!(first, second);
    assert_eq!(first, third);
    assert_eq!(table.len(), 1);
    let other = as_symbol(&tiny("other"), &mut table).unwrap();
    assert_ne!(first, other);
    assert_eq!(table.lookup(other), &b"other".to_vec());
}

#[test]
fn symbol_as_string_is_compact() {
    let mut table = SymbolTable::new();
    let short = table.intern(b"short").unwrap();
    let long = table.intern(b"a longer name").unwrap();
    let a = as_string(short, &table);
    assert!(matches!(a, StringLike::TinyStr(_)));
    assert_eq!(text_of(&a, &table), b"short".to_vec());
    let b = as_string(long, &table);
    assert!(matches!(b, StringLike::String(_)));
    assert_eq!(text_of(&b, &table), b"a longer name".to_vec());
}

#[test]
fn bytes_helpers() {
    assert!(bytes_equal(b"abc", b"abc"));
    assert!(!bytes_equal(b"abc", b"abd"));
    assert!(!bytes_equal(b"abc", b"ab"));
    assert!(bytes_equal(b"", b""));
    assert_eq!(copy_bytes(b"copy"), b"copy".to_vec());
}

#[test]
fn hash_code_is_that_of_the_bytes() {
    let mut table = SymbolTable::new();
    let symbol = table.intern(b"hash me").unwrap();
    let mut hasher = DefaultHasher::new();
    hasher.write(b"hash me");
    let expected = fold_hash(hasher.finish());
    assert_eq!(hashcode(&heap("hash me"), &table), expected);
    assert_eq!(hashcode(&tiny("hash me"), &table), expected);
    assert_eq!(hashcode(&StringLike::Symbol(symbol), &table), expected);
    assert!(expected >= 0);
    assert_ne!(hashcode(&heap("hash me"), &table), hashcode(&heap("hash you"), &table));
}

#[test]
fn hash_is_folded_into_a_machine_integer() {
    assert_eq!(fold_hash(0), 0);
    assert_eq!(fold_hash(5), 5);
    assert_eq!(fold_hash(0xFFFF_FFFF), 1);
    assert_eq!(fold_hash(0xFFFF_FFFB), 5);
    assert_eq!(fold_hash(0x1234_5678_0000_0007), 7);
    assert_eq!(fold_hash(0x7FFF_FFFF), i32::MAX);
    assert_eq!(fold_hash(0x8000_0001), i32::MAX);
    assert_eq!(fold_hash(0x8000_0000), i32::MIN);
}

#[test]
fn classes_of_characters() {
    let mut table = SymbolTable::new();
    let symbol = table.intern(b"letters").unwrap();
    assert!(is_letters(&heap("hello"), &table));
    assert!(is_letters(&tiny("h\u{e9}llo"), &table));
    assert!(is_letters(&StringLike::Symbol(symbol), &table));
    assert!(!is_letters(&heap("hello world"), &table));
    assert!(!is_letters(&heap("hello1"), &table));
    assert!(!is_letters(&heap(""), &table));
    assert!(!is_letters(&tiny(""), &table));
    assert!(is_digits(&heap("0123456789"), &table));
    assert!(is_digits(&tiny("42"), &table));
    assert!(is_digits(&heap("\u{661}\u{662}"), &table));
    assert!(!is_digits(&heap("4 2"), &table));
    assert!(!is_digits(&heap("-42"), &table));
    assert!(!is_digits(&heap(""), &table));
    assert!(is_whitespace(&heap(" \t\n"), &table));
    assert!(is_whitespace(&tiny(" "), &table));
    assert!(is_whitespace(&heap("\u{2003}"), &table));
    assert!(!is_whitespace(&heap(" a "), &table));
    assert!(!is_whitespace(&heap(""), &table));
    assert!(is_all(&heap("abc"), CharClass::Letters, &table));
    assert!(!is_all(&heap("abc"), CharClass::Digits, &table));
    assert!(!is_all(&heap("abc"), CharClass::WhiteSpace, &table));
}

#[test]
fn text_that_is_not_utf8_is_of_no_class() {
    let table = SymbolTable::new();
    let broken = StringLike::String(vec![b'a', 0xC3]);
    assert!(!is_letters(&broken, &table));
    assert!(!is_digits(&broken, &table));
    assert!(!is_whitespace(&broken, &table));
    assert!(!is_letters(&StringLike::TinyStr(pack(&[0xC3])), &table));
}

#[test]
fn white_space_is_the_fixed_set_of_code_points() {
    let listed = |c: char| {
        let code = c as u32;
        (0x09..=0x0D).contains(&code)
            || [0x20, 0x85, 0xA0, 0x1680, 0x2028, 0x2029, 0x202F, 0x205F, 0x3000].contains(&code)
            || (0x2000..=0x200A).contains(&code)
    };
    let mut count = 0;
    for code in 0..=0x10FFFFu32 {
        if let Some(c) = char::from_u32(code) {
            assert_eq!(CharClass::WhiteSpace.holds(c), listed(c), "{code:#x}");
            if listed(c) {
                count += 1;
            }
        }
    }
    assert_eq!(count, 25);
}

#[test]
fn compact_text_is_packed_with_sentinels_behind_it() {
    let table = SymbolTable::new();
    let joined = concatenate(&heap("ab"), &heap("c"), &table);
    assert!(matches!(joined, StringLike::TinyStr(0xFFFF_FFFF_FF63_6261)));
    let one = char_at(&heap("xyz"), 2, &table);
    assert!(matches!(one, StringLike::TinyStr(0xFFFF_FFFF_FFFF_FF79)));
    let part = prim_substring_from_to(&heap("hello world"), 1, 5, &table).unwrap();
    assert!(matches!(part, StringLike::TinyStr(0xFFFF_FF6F_6C6C_6568)));
    let seven = concatenate(&heap("abcd"), &heap("efg"), &table);
    assert!(matches!(seven, StringLike::TinyStr(0x0067_6665_6463_6261)));
}

#[test]
fn notation_of_a_symbol() {
    let mut table = SymbolTable::new();
    let plain = table.intern(b"foo:bar:").unwrap();
    let spaced = table.intern(b"two words").unwrap();
    let quoted = table.intern(b"it's").unwrap();
    let both = table.intern("a 'b'\u{2003}c".as_bytes()).unwrap();
    let empty = table.intern(b"").unwrap();
    let wide = table.intern("na\u{ef}ve".as_bytes()).unwrap();
    assert_eq!(notation(plain, &table), b"#foo:bar:".to_vec());
    assert_eq!(notation(spaced, &table), b"#'two words'".to_vec());
    assert_eq!(notation(quoted, &table), b"#'it\\'s'".to_vec());
    assert_eq!(notation(both, &table), "#'a \\'b\\'\u{2003}c'".as_bytes().to_vec());
    assert_eq!(notation(empty, &table), b"#".to_vec());
    assert_eq!(notation(wide, &table), "#na\u{ef}ve".as_bytes().to_vec());
}

#[test]
fn notation_agrees_with_the_text_operations_of_the_machine() {
    let mut table = SymbolTable::new();
    for name in ["plain", "with space", "tab\there", "q'uote", "''", " ", "\u{3000}", "x\u{85}y"] {
        let symbol = table.intern(name.as_bytes()).unwrap();
        let expected = if name.chars().any(|ch| ch.is_whitespace() || ch == '\'') {
            format!("#'{}'", name.replace('\'', "\\'"))
        } else {
            format!("#{name}")
        };
        assert_eq!(notation(symbol, &table), expected.as_bytes().to_vec(), "{name:?}");
    }
}

#[test]
fn quotes_and_escapes() {
    assert!(needs_quotes(b"a b"));
    assert!(needs_quotes(b"a'b"));
    assert!(needs_quotes("a\u{2028}b".as_bytes()));
    assert!(!needs_quotes(b"ab"));
    assert!(!needs_quotes(b""));
    assert!(!needs_quotes(&[b'a', b' ', 0xFF]));
    assert_eq!(escape(b"a'b'"), b"a\\'b\\'".to_vec());
    assert_eq!(escape(b"abc"), b"abc".to_vec());
    assert_eq!(escape(b""), Vec::<u8>::new());
}
