//! The operands of the primitive operations: what a value is taken as once
//! its tag has been looked at.

use crate::bigint::big_eq;
use crate::bigint::big_from_i64;
use crate::bigint::big_lt;
use crate::bigint::big_to_i32;
use crate::bigint::spec_big_value;
use crate::double;
use crate::interned::Interned;
use crate::interned::SymbolTable;
use crate::interned::bytes_equal;
use crate::tiny_str;
use num_bigint::BigInt;
use vstd::prelude::*;

verus! {

/// An integer of either size.
#[derive(Debug, Clone)]
pub enum IntegerLike {
    Integer(i32),
    BigInteger(BigInt),
}

impl IntegerLike {
    /// The integer that the operand stands for.
    pub open spec fn spec_value(self) -> int {
        match self {
            IntegerLike::Integer(value) => value as int,
            IntegerLike::BigInteger(value) => spec_big_value(value),
        }
    }

    /// Canonical form: an integer that fits in 32 bits is never held as a
    /// big one.
    pub open spec fn spec_is_canonical(self) -> bool {
        self is BigInteger ==> !(i32::MIN <= self.spec_value() <= i32::MAX)
    }

    /// Whether `self` is the lesser integer, whatever the sizes.
    pub fn lt(&self, other: &IntegerLike) -> (r: bool)
        ensures
            r == (self.spec_value() < other.spec_value()),
    {
        match (self, other) {
            (IntegerLike::Integer(a), IntegerLike::Integer(b)) => *a < *b,
            (IntegerLike::BigInteger(a), IntegerLike::BigInteger(b)) => big_lt(a, b),
            (IntegerLike::BigInteger(a), IntegerLike::Integer(b)) => big_lt(
                a,
                &big_from_i64(*b as i64),
            ),
            (IntegerLike::Integer(a), IntegerLike::BigInteger(b)) => big_lt(
                &big_from_i64(*a as i64),
                b,
            ),
        }
    }

    /// Whether `self` is the greater integer, whatever the sizes.
    pub fn gt(&self, other: &IntegerLike) -> (r: bool)
        ensures
            r == (self.spec_value() > other.spec_value()),
    {
        other.lt(self)
    }

    pub fn lt_or_eq(&self, other: &IntegerLike) -> (r: bool)
        ensures
            r == (self.spec_value() <= other.spec_value()),
    {
        self.lt(other) || self.eq_value(other)
    }

    pub fn gt_or_eq(&self, other: &IntegerLike) -> (r: bool)
        ensures
            r == (self.spec_value() >= other.spec_value()),
    {
        self.gt(other) || self.eq_value(other)
    }

    /// Whether the two stand for the same integer, whatever the sizes.
    pub fn eq_value(&self, other: &IntegerLike) -> (r: bool)
        ensures
            r == (self.spec_value() == other.spec_value()),
    {
        match (self, other) {
            (IntegerLike::Integer(a), IntegerLike::Integer(b)) => *a == *b,
            (IntegerLike::BigInteger(a), IntegerLike::BigInteger(b)) => big_eq(a, b),
            (IntegerLike::BigInteger(a), IntegerLike::Integer(b)) => big_eq(
                a,
                &big_from_i64(*b as i64),
            ),
            (IntegerLike::Integer(a), IntegerLike::BigInteger(b)) => big_eq(
                &big_from_i64(*a as i64),
                b,
            ),
        }
    }

    /// A copy of the operand.
    pub fn duplicate(&self) -> (r: Self)
        ensures
            r.spec_value() == self.spec_value(),
            (r is BigInteger) == (self is BigInteger),
    {
        match self {
            IntegerLike::Integer(value) => IntegerLike::Integer(*value),
            IntegerLike::BigInteger(value) => IntegerLike::BigInteger(value.clone()),
        }
    }
}

/// Brings an arbitrary-precision result into canonical form: a machine
/// integer where it fits in one, the big integer otherwise.
pub fn demote(value: BigInt) -> (r: IntegerLike)
    ensures
        r.spec_value() == spec_big_value(value),
        r.spec_is_canonical(),
        (r is Integer) == (i32::MIN <= spec_big_value(value) <= i32::MAX),
{
    match big_to_i32(&value) {
        Some(small) => IntegerLike::Integer(small),
        None => IntegerLike::BigInteger(value),
    }
}

/// A number of any kind: a double, held as its 64-bit pattern, or an
/// integer of either size.
#[derive(Debug, Clone)]
pub enum DoubleLike {
    Double(u64),
    Integer(i32),
    BigInteger(BigInt),
}

impl DoubleLike {
    /// The integer that the operand stands for, where it is one.
    pub open spec fn spec_integer(self) -> int
        recommends
            !(self is Double),
    {
        match self {
            DoubleLike::Double(_) => 0,
            DoubleLike::Integer(value) => value as int,
            DoubleLike::BigInteger(value) => spec_big_value(value),
        }
    }

    /// Equality of numbers: by what they are worth, whatever they are held
    /// as. Doubles are equal as doubles are; a double and an integer are
    /// equal where the double is that integer.
    pub open spec fn spec_eq(self, other: DoubleLike) -> bool {
        match (self, other) {
            (DoubleLike::Double(a), DoubleLike::Double(b)) => double::spec_eq(a, b),
            (DoubleLike::Double(a), _) => double::spec_eq_integer(a, other.spec_integer()),
            (_, DoubleLike::Double(b)) => double::spec_eq_integer(b, self.spec_integer()),
            _ => self.spec_integer() == other.spec_integer(),
        }
    }

    /// Order of numbers: by what they are worth, whatever they are held as.
    pub open spec fn spec_lt(self, other: DoubleLike) -> bool {
        match (self, other) {
            (DoubleLike::Double(a), DoubleLike::Double(b)) => double::spec_lt(a, b),
            (DoubleLike::Double(a), _) => double::spec_integer_gt(other.spec_integer(), a),
            (_, DoubleLike::Double(b)) => double::spec_integer_lt(self.spec_integer(), b),
            _ => self.spec_integer() < other.spec_integer(),
        }
    }

    /// The operand as an integer, where it is one.
    pub fn as_integer_like(&self) -> (r: Option<IntegerLike>)
        ensures
            r is None == (*self is Double),
            r matches Some(value) ==> value.spec_value() == self.spec_integer() && (
            value is BigInteger) == (*self is BigInteger),
    {
        match self {
            DoubleLike::Double(_) => None,
            DoubleLike::Integer(value) => Some(IntegerLike::Integer(*value)),
            DoubleLike::BigInteger(value) => Some(IntegerLike::BigInteger(value.clone())),
        }
    }

    pub fn lt(&self, other: &DoubleLike) -> (r: bool)
        ensures
            r == self.spec_lt(*other),
    {
        match (self, other) {
            (DoubleLike::Double(a), DoubleLike::Double(b)) => double::lt(*a, *b),
            (DoubleLike::Double(a), DoubleLike::Integer(n)) => double::integer_gt(
                &IntegerLike::Integer(*n),
                *a,
            ),
            (DoubleLike::Double(a), DoubleLike::BigInteger(n)) => double::integer_gt(
                &IntegerLike::BigInteger(n.clone()),
                *a,
            ),
            (DoubleLike::Integer(n), DoubleLike::Double(b)) => double::integer_lt(
                &IntegerLike::Integer(*n),
                *b,
            ),
            (DoubleLike::BigInteger(n), DoubleLike::Double(b)) => double::integer_lt(
                &IntegerLike::BigInteger(n.clone()),
                *b,
            ),
            (DoubleLike::Integer(x), DoubleLike::Integer(y)) => *x < *y,
            (DoubleLike::Integer(x), DoubleLike::BigInteger(y)) => big_lt(
                &big_from_i64(*x as i64),
                y,
            ),
            (DoubleLike::BigInteger(x), DoubleLike::Integer(y)) => big_lt(
                x,
                &big_from_i64(*y as i64),
            ),
            (DoubleLike::BigInteger(x), DoubleLike::BigInteger(y)) => big_lt(x, y),
        }
    }

    pub fn gt(&self, other: &DoubleLike) -> (r: bool)
        ensures
            r == other.spec_lt(*self),
    {
        other.lt(self)
    }

    pub fn lt_or_eq(&self, other: &DoubleLike) -> (r: bool)
        ensures
            r == (self.spec_lt(*other) || self.spec_eq(*other)),
    {
        self.lt(other) || self.eq(other)
    }

    pub fn gt_or_eq(&self, other: &DoubleLike) -> (r: bool)
        ensures
            r == (other.spec_lt(*self) || self.spec_eq(*other)),
    {
        self.gt(other) || self.eq(other)
    }

    pub fn eq(&self, other: &DoubleLike) -> (r: bool)
        ensures
            r == self.spec_eq(*other),
    {
        match (self, other) {
            (DoubleLike::Double(a), DoubleLike::Double(b)) => double::eq(*a, *b),
            (DoubleLike::Double(a), DoubleLike::Integer(n)) => double::eq_integer(
                *a,
                &IntegerLike::Integer(*n),
            ),
            (DoubleLike::Double(a), DoubleLike::BigInteger(n)) => double::eq_integer(
                *a,
                &IntegerLike::BigInteger(n.clone()),
            ),
            (DoubleLike::Integer(n), DoubleLike::Double(b)) => double::eq_integer(
                *b,
                &IntegerLike::Integer(*n),
            ),
            (DoubleLike::BigInteger(n), DoubleLike::Double(b)) => double::eq_integer(
                *b,
                &IntegerLike::BigInteger(n.clone()),
            ),
            (DoubleLike::Integer(x), DoubleLike::Integer(y)) => *x == *y,
            (DoubleLike::Integer(x), DoubleLike::BigInteger(y)) => big_eq(
                &big_from_i64(*x as i64),
                y,
            ),
            (DoubleLike::BigInteger(x), DoubleLike::Integer(y)) => big_eq(
                x,
                &big_from_i64(*y as i64),
            ),
            (DoubleLike::BigInteger(x), DoubleLike::BigInteger(y)) => big_eq(x, y),
        }
    }
}

impl DoubleLike {
    /// A number that is neither infinite nor a double that is not a
    /// number.
    pub open spec fn spec_is_finite(self) -> bool {
        match self {
            DoubleLike::Double(bits) => double::spec_is_finite(bits),
            _ => true,
        }
    }

    /// A double that is not a number.
    pub open spec fn spec_is_nan(self) -> bool {
        match self {
            DoubleLike::Double(bits) => double::spec_is_nan(bits),
            _ => false,
        }
    }

    /// The key of a double, by which the doubles are ordered.
    pub open spec fn spec_key(self) -> int
        recommends
            self is Double,
    {
        match self {
            DoubleLike::Double(bits) => double::spec_key(bits),
            _ => 0,
        }
    }

    /// What a finite number is worth, counted in the least double above
    /// zero.
    pub open spec fn spec_units(self) -> int {
        match self {
            DoubleLike::Double(bits) => double::spec_signed_units(bits),
            _ => self.spec_integer() * double::spec_units_of_one(),
        }
    }
}

/// Finite numbers are ordered, and equal, by what they are worth, whatever
/// they are held as.
pub proof fn lemma_order_is_by_worth(a: DoubleLike, b: DoubleLike)
    requires
        a.spec_is_finite(),
        b.spec_is_finite(),
    ensures
        a.spec_lt(b) <==> a.spec_units() < b.spec_units(),
        a.spec_eq(b) <==> a.spec_units() == b.spec_units(),
{
    let one = double::spec_units_of_one();
    vstd::arithmetic::power2::lemma_pow2_pos(1074);
    match (a, b) {
        (DoubleLike::Double(x), DoubleLike::Double(y)) => {
            double::lemma_key_orders_units(x, y);
        },
        (DoubleLike::Double(x), _) => {
            double::lemma_integer_order_is_by_units(b.spec_integer(), x);
        },
        (_, DoubleLike::Double(y)) => {
            double::lemma_integer_order_is_by_units(a.spec_integer(), y);
        },
        _ => {
            let n = a.spec_integer();
            let m = b.spec_integer();
            assert(n < m <==> n * one < m * one) by (nonlinear_arith)
                requires
                    one > 0,
            ;
            assert(n == m <==> n * one == m * one) by (nonlinear_arith)
                requires
                    one > 0,
            ;
        },
    }
}

/// The order of numbers is transitive, whatever the numbers are held as:
/// of three numbers of which none is a double that is not a number, the
/// first is less than the third where it is less than the second and the
/// second is less than the third.
pub proof fn lemma_lt_is_transitive(a: DoubleLike, b: DoubleLike, c: DoubleLike)
    requires
        a.spec_lt(b),
        b.spec_lt(c),
    ensures
        a.spec_lt(c),
{
    if a.spec_is_finite() && b.spec_is_finite() && c.spec_is_finite() {
        lemma_order_is_by_worth(a, b);
        lemma_order_is_by_worth(b, c);
        lemma_order_is_by_worth(a, c);
    } else {
        if let DoubleLike::Double(x) = a {
            if !double::spec_is_finite(x) {
                lemma_beside_the_infinite(x, b);
                lemma_beside_the_infinite(x, c);
            }
        }
        if let DoubleLike::Double(x) = b {
            if !double::spec_is_finite(x) {
                lemma_beside_the_infinite(x, a);
                lemma_beside_the_infinite(x, c);
            }
        }
        if let DoubleLike::Double(x) = c {
            if !double::spec_is_finite(x) {
                lemma_beside_the_infinite(x, a);
                lemma_beside_the_infinite(x, b);
            }
        }
    }
}

/// Equality of numbers is transitive, whatever the numbers are held as.
pub proof fn lemma_eq_is_transitive(a: DoubleLike, b: DoubleLike, c: DoubleLike)
    requires
        a.spec_eq(b),
        b.spec_eq(c),
    ensures
        a.spec_eq(c),
{
    if a.spec_is_finite() && b.spec_is_finite() && c.spec_is_finite() {
        lemma_order_is_by_worth(a, b);
        lemma_order_is_by_worth(b, c);
        lemma_order_is_by_worth(a, c);
    } else {
        if let DoubleLike::Double(x) = a {
            if !double::spec_is_finite(x) {
                lemma_beside_the_infinite(x, b);
                lemma_beside_the_infinite(x, c);
            }
        }
        if let DoubleLike::Double(x) = b {
            if !double::spec_is_finite(x) {
                lemma_beside_the_infinite(x, a);
                lemma_beside_the_infinite(x, c);
            }
        }
        if let DoubleLike::Double(x) = c {
            if !double::spec_is_finite(x) {
                lemma_beside_the_infinite(x, a);
                lemma_beside_the_infinite(x, b);
            }
        }
    }
}

/// An infinite double is less than every number but itself where it is
/// negative, and greater where it is positive; it equals itself only. A
/// double that is not a number is neither less than, nor greater than,
/// nor equal to any number.
proof fn lemma_beside_the_infinite(x: u64, b: DoubleLike)
    requires
        !double::spec_is_finite(x),
    ensures
        !double::spec_is_nan(x) && !b.spec_is_nan() ==> {
            let a = DoubleLike::Double(x);
            let same = b is Double && b.spec_key() == double::spec_key(x);
            &&& a.spec_lt(b) <==> (double::spec_is_negative(x) && !same)
            &&& b.spec_lt(a) <==> (!double::spec_is_negative(x) && !same)
            &&& a.spec_eq(b) <==> same
            &&& b.spec_eq(a) <==> same
        },
        double::spec_is_nan(x) ==> {
            let a = DoubleLike::Double(x);
            !a.spec_lt(b) && !b.spec_lt(a) && !a.spec_eq(b) && !b.spec_eq(a)
        },
{
    double::lemma_key_bounds(x);
    if let DoubleLike::Double(y) = b {
        double::lemma_key_bounds(y);
    }
}

/// Equality of numbers does not depend on the side that a number stands
/// on.
pub proof fn lemma_eq_is_symmetric(a: DoubleLike, b: DoubleLike)
    ensures
        a.spec_eq(b) == b.spec_eq(a),
{
}

/// Two numbers of which none is a double that is not a number are ordered
/// one way only: the first is less, or the two are equal, or the second is
/// less, and no two of these hold at once.
pub proof fn lemma_order_is_total(a: DoubleLike, b: DoubleLike)
    requires
        a matches DoubleLike::Double(bits) ==> !double::spec_is_nan(bits),
        b matches DoubleLike::Double(bits) ==> !double::spec_is_nan(bits),
    ensures
        a.spec_lt(b) || a.spec_eq(b) || b.spec_lt(a),
        !(a.spec_lt(b) && a.spec_eq(b)),
        !(a.spec_lt(b) && b.spec_lt(a)),
        !(a.spec_eq(b) && b.spec_lt(a)),
{
}

/// Equal numbers have the same place in the order, whatever they are held
/// as.
pub proof fn lemma_eq_keeps_order(a: DoubleLike, b: DoubleLike, c: DoubleLike)
    requires
        a.spec_eq(b),
    ensures
        a.spec_lt(c) == b.spec_lt(c),
        c.spec_lt(a) == c.spec_lt(b),
        a.spec_eq(c) == b.spec_eq(c),
{
    if a.spec_is_finite() && b.spec_is_finite() && c.spec_is_finite() {
        lemma_order_is_by_worth(a, b);
        lemma_order_is_by_worth(a, c);
        lemma_order_is_by_worth(b, c);
        lemma_order_is_by_worth(c, a);
        lemma_order_is_by_worth(c, b);
    } else {
        if let DoubleLike::Double(x) = a {
            if !double::spec_is_finite(x) {
                lemma_beside_the_infinite(x, b);
                lemma_beside_the_infinite(x, c);
            }
        }
        if let DoubleLike::Double(x) = b {
            if !double::spec_is_finite(x) {
                lemma_beside_the_infinite(x, a);
                lemma_beside_the_infinite(x, c);
            }
        }
        if let DoubleLike::Double(x) = c {
            if !double::spec_is_finite(x) {
                lemma_beside_the_infinite(x, a);
                lemma_beside_the_infinite(x, b);
            }
        }
    }
}

/// A text in any of its three forms: packed into a word, on the heap, or
/// interned.
#[derive(Debug, Clone)]
pub enum StringLike {
    /// At most seven bytes, packed as `tiny_str` says.
    TinyStr(u64),
    /// The bytes of a string of the heap.
    String(Vec<u8>),
    Symbol(Interned),
}

impl StringLike {
    /// Whether the table can say what the text is: it knows the symbol, if
    /// the text is one.
    pub open spec fn spec_resolves(self, table: SymbolTable) -> bool {
        match self {
            StringLike::Symbol(symbol) => table.spec_knows(symbol),
            _ => true,
        }
    }

    /// The bytes of the text.
    pub open spec fn spec_content(self, table: SymbolTable) -> Seq<u8> {
        match self {
            StringLike::TinyStr(word) => tiny_str::spec_bytes(word),
            StringLike::String(bytes) => bytes@,
            StringLike::Symbol(symbol) => table.spec_lookup(symbol),
        }
    }

    /// The bytes of the text.
    pub fn as_str(&self, table: &SymbolTable) -> (content: Vec<u8>)
        requires
            self.spec_resolves(*table),
        ensures
            content@ == self.spec_content(*table),
    {
        match self {
            StringLike::TinyStr(word) => tiny_str::unpack(*word),
            StringLike::String(bytes) => copy_bytes(bytes.as_slice()),
            StringLike::Symbol(symbol) => copy_bytes(table.lookup(*symbol).as_slice()),
        }
    }

    /// Whether two texts hold the same bytes, whatever their forms. Two
    /// equal words and two equal symbols are known to without a look at
    /// the bytes.
    pub fn eq_stringlike(&self, other: &StringLike, table: &SymbolTable) -> (r: bool)
        requires
            self.spec_resolves(*table),
            other.spec_resolves(*table),
        ensures
            r == (self.spec_content(*table) == other.spec_content(*table)),
    {
        match (self, other) {
            (StringLike::Symbol(a), StringLike::Symbol(b)) => {
                a.0 == b.0 || bytes_equal(
                    table.lookup(*a).as_slice(),
                    table.lookup(*b).as_slice(),
                )
            },
            (StringLike::String(a), StringLike::String(b)) => bytes_equal(
                a.as_slice(),
                b.as_slice(),
            ),
            (StringLike::TinyStr(a), StringLike::TinyStr(b)) => {
                if *a == *b {
                    true
                } else {
                    let x = tiny_str::unpack(*a);
                    let y = tiny_str::unpack(*b);
                    bytes_equal(x.as_slice(), y.as_slice())
                }
            },
            _ => {
                let x = self.as_str(table);
                let y = other.as_str(table);
                bytes_equal(x.as_slice(), y.as_slice())
            },
        }
    }
}

/// A copy of the bytes.
pub fn copy_bytes(bytes: &[u8]) -> (r: Vec<u8>)
    ensures
        r@ == bytes@,
{
    let mut copy: Vec<u8> = Vec::new();
    let mut i: usize = 0;
    while i < bytes.len()
        invariant
            i <= bytes@.len(),
            copy@ == bytes@.subrange(0, i as int),
        decreases bytes@.len() - i,
    {
        copy.push(bytes[i]);
        assert(copy@ =~= bytes@.subrange(0, i + 1));
        i = i + 1;
    }
    assert(copy@ =~= bytes@);
    copy
}

} // verus!
