//! The primitive operation on symbols.

use crate::convert::StringLike;
use crate::bigint::utf8_text;
use crate::convert::copy_bytes;
use crate::interned::Interned;
use crate::interned::SymbolTable;
use crate::string::compact;
use crate::string::spec_is_whitespace;
use crate::string::CharClass;
use crate::tiny_str;
use vstd::prelude::*;
use vstd::string::StrSliceExecFns;
use vstd::utf8::decode_utf8;
use vstd::utf8::valid_utf8;

verus! {

/// The text of a symbol as a string, in the most compact form.
pub fn as_string(symbol: Interned, table: &SymbolTable) -> (r: StringLike)
    requires
        table.spec_knows(symbol),
    ensures
        crate::string::spec_is_compact(r, table.spec_lookup(symbol)),
        (r is TinyStr) == tiny_str::spec_fits(table.spec_lookup(symbol)),
        forall|any: SymbolTable| r.spec_content(any) == table.spec_lookup(symbol),
{
    compact(copy_bytes(table.lookup(symbol).as_slice()))
}

pub const HASH: u8 = 0x23;
pub const APOSTROPHE: u8 = 0x27;
pub const BACKSLASH: u8 = 0x5C;

/// Whether the name of a symbol has to stand between apostrophes: it is
/// UTF-8 and holds white space or an apostrophe.
pub open spec fn spec_needs_quotes(name: Seq<u8>) -> bool {
    valid_utf8(name) && exists|i: int|
        0 <= i < decode_utf8(name).len() && (spec_is_whitespace(#[trigger] decode_utf8(name)[i])
            || decode_utf8(name)[i] == '\'')
}

/// A name with a backslash in front of every apostrophe.
pub open spec fn spec_escape(name: Seq<u8>) -> Seq<u8>
    decreases name.len(),
{
    if name.len() == 0 {
        name
    } else if name.last() == APOSTROPHE {
        spec_escape(name.drop_last()).push(BACKSLASH).push(APOSTROPHE)
    } else {
        spec_escape(name.drop_last()).push(name.last())
    }
}

/// How a symbol is written: a hash sign and the name; where the name has
/// to stand between apostrophes, it does, with a backslash in front of
/// each apostrophe of its own.
pub open spec fn spec_notation(name: Seq<u8>) -> Seq<u8> {
    if spec_needs_quotes(name) {
        (seq![HASH, APOSTROPHE] + spec_escape(name)).push(APOSTROPHE)
    } else {
        seq![HASH] + name
    }
}

/// Whether the name of a symbol has to stand between apostrophes.
pub fn needs_quotes(name: &[u8]) -> (r: bool)
    ensures
        r == spec_needs_quotes(name@),
{
    match utf8_text(name) {
        None => false,
        Some(text) => {
            let n: usize = text.unicode_len();
            let mut i: usize = 0;
            while i < n
                invariant
                    n == text@.len(),
                    i <= n,
                    valid_utf8(name@),
                    text@ == decode_utf8(name@),
                    forall|j: int|
                        0 <= j < i ==> !(spec_is_whitespace(#[trigger] decode_utf8(name@)[j])
                            || decode_utf8(name@)[j] == '\''),
                decreases n - i,
            {
                let c: char = text.get_char(i);
                if CharClass::WhiteSpace.holds(c) || c == '\'' {
                    assert(spec_is_whitespace(decode_utf8(name@)[i as int]) || decode_utf8(
                        name@,
                    )[i as int] == '\'');
                    return true;
                }
                i = i + 1;
            }
            false
        },
    }
}

/// A name with a backslash in front of every apostrophe.
pub fn escape(name: &[u8]) -> (r: Vec<u8>)
    ensures
        r@ == spec_escape(name@),
{
    let mut out: Vec<u8> = Vec::new();
    let mut i: usize = 0;
    assert(name@.subrange(0, 0) =~= Seq::<u8>::empty());
    while i < name.len()
        invariant
            i <= name@.len(),
            out@ == spec_escape(name@.subrange(0, i as int)),
        decreases name@.len() - i,
    {
        assert(name@.subrange(0, i + 1).drop_last() =~= name@.subrange(0, i as int));
        assert(name@.subrange(0, i + 1).last() == name@[i as int]);
        if name[i] == APOSTROPHE {
            out.push(BACKSLASH);
        }
        out.push(name[i]);
        i = i + 1;
    }
    assert(name@.subrange(0, name@.len() as int) =~= name@);
    out
}

/// How a symbol is written.
pub fn notation(symbol: Interned, table: &SymbolTable) -> (r: Vec<u8>)
    requires
        table.spec_knows(symbol),
    ensures
        r@ == spec_notation(table.spec_lookup(symbol)),
{
    let name = table.lookup(symbol);
    let mut out: Vec<u8> = Vec::new();
    out.push(HASH);
    if needs_quotes(name.as_slice()) {
        out.push(APOSTROPHE);
        let mut escaped = escape(name.as_slice());
        out.append(&mut escaped);
        out.push(APOSTROPHE);
        assert(out@ =~= (seq![HASH, APOSTROPHE] + spec_escape(name@)).push(APOSTROPHE));
    } else {
        let mut copy = copy_bytes(name.as_slice());
        out.append(&mut copy);
        assert(out@ =~= seq![HASH] + name@);
    }
    out
}

} // verus!
