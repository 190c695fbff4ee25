//! The primitive operations on texts. Each takes its operands in any of
//! the three forms, and hands its result back in the most compact one.

use crate::bigint::utf8_text;
use crate::convert::StringLike;
use crate::interned::Interned;
use crate::interned::SymbolTable;
use crate::tiny_str;
use std::collections::hash_map::DefaultHasher;
use std::hash::Hasher;
use vstd::std_specs::hash::DefaultHasherAdditionalSpecFns;
use vstd::prelude::*;
use vstd::string::StrSliceExecFns;
use vstd::utf8::decode_utf8;
use vstd::utf8::valid_utf8;

verus! {

/// `text` is the most compact form of `content`: the word that the bytes
/// are packed into, every slot behind them filled with the sentinel, where
/// they fit in one; the bytes as a string of the heap otherwise.
pub open spec fn spec_is_compact(text: StringLike, content: Seq<u8>) -> bool {
    match text {
        StringLike::TinyStr(word) => tiny_str::spec_fits(content) && tiny_str::spec_is_packed(
            word,
            content,
        ),
        StringLike::String(bytes) => !tiny_str::spec_fits(content) && bytes@ == content,
        StringLike::Symbol(_) => false,
    }
}

/// The most compact form of a text: a word where the text fits in one, a
/// string of the heap otherwise.
pub fn compact(bytes: Vec<u8>) -> (r: StringLike)
    ensures
        spec_is_compact(r, bytes@),
        (r is TinyStr) == tiny_str::spec_fits(bytes@),
        !tiny_str::spec_fits(bytes@) ==> r == StringLike::String(bytes),
        r matches StringLike::TinyStr(word) ==> tiny_str::spec_is_packed(word, bytes@),
        forall|table: SymbolTable| r.spec_content(table) == bytes@,
{
    if bytes.len() <= tiny_str::MAX_LEN && has_no_sentinel(bytes.as_slice()) {
        StringLike::TinyStr(tiny_str::pack(bytes.as_slice()))
    } else {
        StringLike::String(bytes)
    }
}

/// Whether the sentinel of the short strings is missing from a text.
pub fn has_no_sentinel(bytes: &[u8]) -> (r: bool)
    ensures
        r == (forall|i: int| 0 <= i < bytes@.len() ==> bytes@[i] != tiny_str::SENTINEL),
{
    let mut i: usize = 0;
    while i < bytes.len()
        invariant
            i <= bytes@.len(),
            forall|j: int| 0 <= j < i ==> bytes@[j] != tiny_str::SENTINEL,
        decreases bytes@.len() - i,
    {
        if bytes[i] == tiny_str::SENTINEL {
            return false;
        }
        i = i + 1;
    }
    true
}

/// Number of bytes of a text, as the machine integer that the interpreter
/// counts in.
pub fn length(receiver: &StringLike, table: &SymbolTable) -> (r: i32)
    requires
        receiver.spec_resolves(*table),
    ensures
        r == receiver.spec_content(*table).len() as i32,
        receiver.spec_content(*table).len() <= i32::MAX ==> r == receiver.spec_content(
            *table,
        ).len(),
{
    match receiver {
        StringLike::TinyStr(word) => tiny_str::len(*word) as i32,
        StringLike::String(bytes) => {
            #[verifier::truncate]
            (bytes.len() as i32)
        },
        StringLike::Symbol(symbol) => {
            #[verifier::truncate]
            (table.lookup(*symbol).len() as i32)
        },
    }
}

/// The byte at a place of a text, counted from one, as a text of its own.
pub fn char_at(receiver: &StringLike, idx: i32, table: &SymbolTable) -> (r: StringLike)
    requires
        receiver.spec_resolves(*table),
        1 <= idx <= receiver.spec_content(*table).len(),
    ensures
        forall|any: SymbolTable| r.spec_content(any) == seq![receiver.spec_content(*table)[idx - 1]],
        (r is TinyStr) == (receiver.spec_content(*table)[idx - 1] != tiny_str::SENTINEL),
        spec_is_compact(r, seq![receiver.spec_content(*table)[idx - 1]]),
{
    let content = receiver.as_str(table);
    let mut one: Vec<u8> = Vec::new();
    one.push(content[(idx - 1) as usize]);
    assert(one@ =~= seq![receiver.spec_content(*table)[idx - 1]]);
    assert(tiny_str::spec_fits(one@) == (one@[0] != tiny_str::SENTINEL));
    compact(one)
}

/// The two texts, one behind the other.
pub fn concatenate(receiver: &StringLike, other: &StringLike, table: &SymbolTable) -> (r:
    StringLike)
    requires
        receiver.spec_resolves(*table),
        other.spec_resolves(*table),
    ensures
        forall|any: SymbolTable|
            r.spec_content(any) == receiver.spec_content(*table) + other.spec_content(*table),
        (r is TinyStr) == tiny_str::spec_fits(
            receiver.spec_content(*table) + other.spec_content(*table),
        ),
        !(r is Symbol),
        spec_is_compact(r, receiver.spec_content(*table) + other.spec_content(*table)),
{
    let mut joined = receiver.as_str(table);
    let mut tail = other.as_str(table);
    joined.append(&mut tail);
    compact(joined)
}

/// The symbol of a text. A text that is a symbol already keeps it; any
/// other is interned, which a full table cannot do.
pub fn as_symbol(receiver: &StringLike, table: &mut SymbolTable) -> (r: Option<Interned>)
    requires
        old(table).spec_well_formed(),
        receiver.spec_resolves(*old(table)),
    ensures
        final(table).spec_well_formed(),
        old(table)@.len() <= final(table)@.len(),
        forall|i: int| 0 <= i < old(table)@.len() ==> final(table)@[i] == old(table)@[i],
        *receiver matches StringLike::Symbol(symbol) ==> r == Some(symbol) && *final(table)
            == *old(table),
        r matches Some(symbol) ==> final(table).spec_knows(symbol) && final(table).spec_lookup(
            symbol,
        ) == receiver.spec_content(*old(table)),
        r is None ==> old(table)@.len() == 0x1_0000 && *final(table) == *old(table),
        (exists|i: int|
            0 <= i < old(table)@.len() && old(table)@[i] == receiver.spec_content(*old(table)))
            ==> final(table)@ == old(table)@ && r is Some,
        r is Some && !(*receiver is Symbol) && (forall|i: int|
            0 <= i < old(table)@.len() ==> old(table)@[i] != receiver.spec_content(*old(table)))
            ==> final(table)@ == old(table)@.push(receiver.spec_content(*old(table))),
{
    match receiver {
        StringLike::TinyStr(word) => {
            let bytes = tiny_str::unpack(*word);
            table.intern(bytes.as_slice())
        },
        StringLike::String(bytes) => table.intern(bytes.as_slice()),
        StringLike::Symbol(symbol) => Some(*symbol),
    }
}

/// Identity of texts: by their bytes, whatever their forms.
pub fn eq(a: &StringLike, b: &StringLike, table: &SymbolTable) -> (r: bool)
    requires
        a.spec_resolves(*table),
        b.spec_resolves(*table),
    ensures
        r == (a.spec_content(*table) == b.spec_content(*table)),
{
    a.eq_stringlike(b, table)
}

/// Why no part of a text could be taken.
#[derive(Debug, PartialEq, Eq, Clone, Copy, Structural)]
pub enum SubstringError {
    /// The first place, counted from one, lies in front of the text.
    FromOutOfRange,
    /// The last place is negative.
    ToOutOfRange,
}

/// A byte that goes on a character of more than one byte.
pub open spec fn spec_is_continuation(byte: u8) -> bool {
    byte & 0xC0 == 0x80
}

/// The first place from `at` on where a character begins, or the end of
/// the text.
pub open spec fn spec_char_boundary(bytes: Seq<u8>, at: int) -> int
    decreases bytes.len() - at,
{
    if at < 0 || at >= bytes.len() {
        bytes.len() as int
    } else if !spec_is_continuation(bytes[at]) {
        at
    } else {
        spec_char_boundary(bytes, at + 1)
    }
}

/// The place that lies `count` characters behind `start`, where a
/// character begins, or the end of the text where it has fewer.
pub open spec fn spec_char_offset(bytes: Seq<u8>, start: int, count: nat) -> int
    decreases count,
{
    if start < 0 || start >= bytes.len() {
        bytes.len() as int
    } else if count == 0 {
        start
    } else {
        spec_char_offset(bytes, spec_char_boundary(bytes, start + 1), (count - 1) as nat)
    }
}

/// The characters `skip + 1` to `skip + count` of a text.
pub open spec fn spec_substring(bytes: Seq<u8>, skip: nat, count: nat) -> Seq<u8> {
    let first = spec_char_offset(bytes, 0, skip);
    bytes.subrange(first, spec_char_offset(bytes, first, count))
}

proof fn lemma_char_boundary_bounds(bytes: Seq<u8>, at: int)
    requires
        0 <= at,
    ensures
        at <= spec_char_boundary(bytes, at) <= bytes.len() || (at > bytes.len()
            && spec_char_boundary(bytes, at) == bytes.len()),
    decreases bytes.len() - at,
{
    if at < bytes.len() && spec_is_continuation(bytes[at]) {
        lemma_char_boundary_bounds(bytes, at + 1);
    }
}

proof fn lemma_char_offset_bounds(bytes: Seq<u8>, start: int, count: nat)
    requires
        0 <= start <= bytes.len(),
    ensures
        start <= spec_char_offset(bytes, start, count) <= bytes.len(),
    decreases count,
{
    if start < bytes.len() && count > 0 {
        lemma_char_boundary_bounds(bytes, start + 1);
        lemma_char_offset_bounds(bytes, spec_char_boundary(bytes, start + 1), (count - 1) as nat);
    }
}

/// The place that lies `count` characters behind `start`.
pub fn char_offset(bytes: &[u8], start: usize, count: usize) -> (r: usize)
    requires
        start <= bytes@.len(),
    ensures
        r == spec_char_offset(bytes@, start as int, count as nat),
        start <= r <= bytes@.len(),
{
    let mut at: usize = start;
    let mut left: usize = count;
    proof {
        lemma_char_offset_bounds(bytes@, start as int, count as nat);
    }
    while left > 0 && at < bytes.len()
        invariant
            start <= at <= bytes@.len(),
            spec_char_offset(bytes@, at as int, left as nat) == spec_char_offset(
                bytes@,
                start as int,
                count as nat,
            ),
        decreases left,
    {
        let ghost from = at;
        at = at + 1;
        while at < bytes.len() && bytes[at] & 0xC0 == 0x80
            invariant
                from < at <= bytes@.len(),
                spec_char_boundary(bytes@, at as int) == spec_char_boundary(bytes@, from + 1),
            decreases bytes@.len() - at,
        {
            at = at + 1;
        }
        left = left - 1;
    }
    at
}

/// The characters `from` to `to` of a text, counted from one. A character
/// is a byte with the continuation bytes behind it.
pub fn prim_substring_from_to(receiver: &StringLike, from: i32, to: i32, table: &SymbolTable) -> (r:
    Result<StringLike, SubstringError>)
    requires
        receiver.spec_resolves(*table),
        from >= 1 && to >= 0 ==> to >= from - 1,
    ensures
        r is Ok <==> from >= 1 && to >= 0,
        r == Err::<StringLike, SubstringError>(SubstringError::FromOutOfRange) <==> from < 1,
        r == Err::<StringLike, SubstringError>(SubstringError::ToOutOfRange) <==> from >= 1 && to
            < 0,
        r is Ok ==> !(r.unwrap() is Symbol) && (r.unwrap() is TinyStr) == tiny_str::spec_fits(
            spec_substring(
                receiver.spec_content(*table),
                (from - 1) as nat,
                (to - (from - 1)) as nat,
            ),
        ),
        r is Ok ==> spec_is_compact(
            r.unwrap(),
            spec_substring(
                receiver.spec_content(*table),
                (from - 1) as nat,
                (to - (from - 1)) as nat,
            ),
        ),
        r is Ok ==> forall|any: SymbolTable|
            r.unwrap().spec_content(any) == spec_substring(
                receiver.spec_content(*table),
                (from - 1) as nat,
                (to - (from - 1)) as nat,
            ),
{
    if from < 1 {
        return Err(SubstringError::FromOutOfRange);
    }
    if to < 0 {
        return Err(SubstringError::ToOutOfRange);
    }
    let skip: usize = (from - 1) as usize;
    let count: usize = (to - (from - 1)) as usize;
    let content = receiver.as_str(table);
    let first: usize = char_offset(content.as_slice(), 0, skip);
    let last: usize = char_offset(content.as_slice(), first, count);
    let mut part: Vec<u8> = Vec::new();
    let mut i: usize = first;
    while i < last
        invariant
            first <= i <= last <= content@.len(),
            part@ == content@.subrange(first as int, i as int),
        decreases last - i,
    {
        part.push(content[i]);
        assert(part@ =~= content@.subrange(first as int, i + 1));
        i = i + 1;
    }
    Ok(compact(part))
}

/// The hash code that a hash of 64 bits gives: its low 32 bits as a
/// signed integer, without the sign. The least integer has no positive
/// counterpart and stays.
pub open spec fn spec_fold_hash(hash: u64) -> i32 {
    let low = hash as i32;
    if low < 0 && low != i32::MIN {
        (-low) as i32
    } else {
        low
    }
}

/// The hash code that a hash of 64 bits gives.
pub fn fold_hash(hash: u64) -> (r: i32)
    ensures
        r == spec_fold_hash(hash),
        r >= 0 || r == i32::MIN,
{
    let low: i32 = #[verifier::truncate]
    (hash as i32);
    if low < 0 && low != i32::MIN {
        -low
    } else {
        low
    }
}

/// The hash code of a text: that of its bytes, whatever its form, as the
/// default hasher of the standard library works it out.
pub fn hashcode(receiver: &StringLike, table: &SymbolTable) -> (r: i32)
    requires
        receiver.spec_resolves(*table),
    ensures
        r == spec_fold_hash(DefaultHasher::spec_finish(seq![receiver.spec_content(*table)])),
        r >= 0 || r == i32::MIN,
{
    let content = receiver.as_str(table);
    let mut hasher = DefaultHasher::new();
    hasher.write(content.as_slice());
    assert(hasher@ =~= seq![receiver.spec_content(*table)]);
    fold_hash(hasher.finish())
}

/// Whether the standard library counts a character among the letters.
pub uninterp spec fn spec_is_alphabetic(c: char) -> bool;

/// Whether the standard library counts a character among the numerals.
pub uninterp spec fn spec_is_numeric(c: char) -> bool;

/// Whether a character is white space: one of the twenty-five code
/// points that Unicode gives the property `White_Space`.
pub open spec fn spec_is_whitespace(c: char) -> bool {
    let code = c as u32;
    (0x09 <= code <= 0x0D) || code == 0x20 || code == 0x85 || code == 0xA0 || code == 0x1680 || (
    0x2000 <= code <= 0x200A) || code == 0x2028 || code == 0x2029 || code == 0x202F || code
        == 0x205F || code == 0x3000
}

/// `char::is_alphabetic`: whether the character is a letter, as the
/// standard library counts them.
#[verifier::external_body]
fn char_is_alphabetic(c: char) -> (r: bool)
    ensures
        r == spec_is_alphabetic(c),
{
    c.is_alphabetic()
}

/// `char::is_numeric`: whether the character is a numeral, as the
/// standard library counts them.
#[verifier::external_body]
fn char_is_numeric(c: char) -> (r: bool)
    ensures
        r == spec_is_numeric(c),
{
    c.is_numeric()
}

/// `char::is_whitespace`: whether the character has the Unicode property
/// `White_Space`.
#[verifier::external_body]
fn char_is_whitespace(c: char) -> (r: bool)
    ensures
        r == spec_is_whitespace(c),
{
    c.is_whitespace()
}

/// A class of characters.
#[derive(Debug, Clone, Copy, PartialEq, Eq, Structural)]
pub enum CharClass {
    Letters,
    Digits,
    WhiteSpace,
}

impl CharClass {
    pub open spec fn spec_holds(self, c: char) -> bool {
        match self {
            CharClass::Letters => spec_is_alphabetic(c),
            CharClass::Digits => spec_is_numeric(c),
            CharClass::WhiteSpace => spec_is_whitespace(c),
        }
    }

    /// Whether a character is of the class.
    pub fn holds(self, c: char) -> (r: bool)
        ensures
            r == self.spec_holds(c),
    {
        match self {
            CharClass::Letters => char_is_alphabetic(c),
            CharClass::Digits => char_is_numeric(c),
            CharClass::WhiteSpace => char_is_whitespace(c),
        }
    }
}

/// A text that is UTF-8, is not empty, and holds characters of one class
/// only.
pub open spec fn spec_is_all(bytes: Seq<u8>, class: CharClass) -> bool {
    &&& valid_utf8(bytes)
    &&& decode_utf8(bytes).len() > 0
    &&& forall|i: int| 0 <= i < decode_utf8(bytes).len() ==> class.spec_holds(decode_utf8(bytes)[i])
}

/// Whether a text is not empty and holds characters of one class only. A
/// text that is not UTF-8 holds none.
pub fn is_all(receiver: &StringLike, class: CharClass, table: &SymbolTable) -> (r: bool)
    requires
        receiver.spec_resolves(*table),
    ensures
        r == spec_is_all(receiver.spec_content(*table), class),
{
    let content = receiver.as_str(table);
    match utf8_text(content.as_slice()) {
        None => false,
        Some(text) => {
            let n: usize = text.unicode_len();
            if n == 0 {
                return false;
            }
            let mut i: usize = 0;
            while i < n
                invariant
                    n == text@.len(),
                    n > 0,
                    i <= n,
                    valid_utf8(content@),
                    text@ == decode_utf8(content@),
                    content@ == receiver.spec_content(*table),
                    forall|j: int| 0 <= j < i ==> class.spec_holds(text@[j]),
                decreases n - i,
            {
                if !class.holds(text.get_char(i)) {
                    assert(!class.spec_holds(decode_utf8(content@)[i as int]));
                    return false;
                }
                i = i + 1;
            }
            true
        },
    }
}

/// Whether a text is not empty and holds letters only.
pub fn is_letters(receiver: &StringLike, table: &SymbolTable) -> (r: bool)
    requires
        receiver.spec_resolves(*table),
    ensures
        r == spec_is_all(receiver.spec_content(*table), CharClass::Letters),
{
    is_all(receiver, CharClass::Letters, table)
}

/// Whether a text is not empty and holds numerals only.
pub fn is_digits(receiver: &StringLike, table: &SymbolTable) -> (r: bool)
    requires
        receiver.spec_resolves(*table),
    ensures
        r == spec_is_all(receiver.spec_content(*table), CharClass::Digits),
{
    is_all(receiver, CharClass::Digits, table)
}

/// Whether a text is not empty and holds white space only.
pub fn is_whitespace(receiver: &StringLike, table: &SymbolTable) -> (r: bool)
    requires
        receiver.spec_resolves(*table),
    ensures
        r == spec_is_all(receiver.spec_content(*table), CharClass::WhiteSpace),
{
    is_all(receiver, CharClass::WhiteSpace, table)
}

} // verus!
