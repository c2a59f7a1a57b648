//! Floating-point values as bit patterns, and the three helpers that work on
//! them for the library.
//!
//! A float is held as the 64 bits of an IEEE-754 binary64 value. Negation
//! and the comparisons are functions of the bits alone and are defined here.
//! The rest is asked of functions that the caller hands in:
//!
//! - the float unit, for the conversion from integers and the four rounding
//!   operations: a function from [`FloatOp`] to the bits of the result;
//! - the float reader, for reading a float: a function from a text to the
//!   bits of the float that it denotes, if it denotes one;
//! - the float writer, for writing a float: a function from the bits to the
//!   notation.
//!
//! Whatever is proved of a function that takes one of them is proved of
//! every helper that answers every request and answers it in one way. The
//! contracts then speak of the mathematical function that the helper
//! computes: [`float_fn`], [`read_fn`], [`write_fn`].

use vstd::prelude::*;

verus! {

/// One request to the float unit. Operands and answers are binary64 bit
/// patterns.
#[derive(Clone, Copy, Debug)]
pub enum FloatOp {
    /// The float nearest to the integer.
    FromInt(i64),
    /// The rounded sum of the two operands.
    Add(u64, u64),
    /// The rounded difference, first operand minus second.
    Sub(u64, u64),
    /// The rounded product of the two operands.
    Mul(u64, u64),
    /// The rounded quotient, first operand divided by second.
    Div(u64, u64),
}

/// The mathematical function that a float unit computes.
pub type FloatFn = spec_fn(FloatOp) -> u64;

/// A float unit accepts every request and gives one answer to each.
pub open spec fn is_float_unit<F: Fn(FloatOp) -> u64>(unit: &F) -> bool {
    &&& forall|op: FloatOp| #[trigger] unit.requires((op,))
    &&& forall|op: FloatOp, r1: u64, r2: u64|
        #[trigger] unit.ensures((op,), r1) && #[trigger] unit.ensures((op,), r2) ==> r1 == r2
}

/// The function computed by `unit`.
pub open spec fn float_fn<F: Fn(FloatOp) -> u64>(unit: &F) -> FloatFn {
    |op: FloatOp| choose|r: u64| unit.ensures((op,), r)
}

/// Puts one request to the float unit.
pub fn ask<F: Fn(FloatOp) -> u64>(unit: &F, op: FloatOp) -> (r: u64)
    requires
        is_float_unit(unit),
    ensures
        r == float_fn(unit)(op),
{
    unit(op)
}

/// The mathematical function that a float reader computes: the bits of the
/// float that a text denotes, if it denotes one.
pub type ReadFn = spec_fn(Seq<char>) -> Option<u64>;

/// A float reader accepts every text and gives one answer to each.
pub open spec fn is_float_reader<R: Fn(&str) -> Option<u64>>(reader: &R) -> bool {
    &&& forall|text: &str| #[trigger] reader.requires((text,))
    &&& forall|t1: &str, t2: &str, r1: Option<u64>, r2: Option<u64>|
        t1@ == t2@ && #[trigger] reader.ensures((t1,), r1) && #[trigger] reader.ensures((t2,), r2)
            ==> r1 == r2
}

/// What `reader` makes of a text, as a relation.
pub open spec fn reads<R: Fn(&str) -> Option<u64>>(
    reader: &R,
    chars: Seq<char>,
    r: Option<u64>,
) -> bool {
    exists|text: &str| text@ == chars && #[trigger] reader.ensures((text,), r)
}

/// The function computed by `reader`.
pub open spec fn read_fn<R: Fn(&str) -> Option<u64>>(reader: &R) -> ReadFn {
    |chars: Seq<char>| choose|r: Option<u64>| reads(reader, chars, r)
}

/// Puts one text to the float reader.
pub fn read_float<R: Fn(&str) -> Option<u64>>(reader: &R, text: &str) -> (r: Option<u64>)
    requires
        is_float_reader(reader),
    ensures
        r == read_fn(reader)(text@),
{
    let r = reader(text);
    assert(reads(reader, text@, r));
    r
}

/// The mathematical function that a float writer computes: the notation of
/// the float with the given bits.
pub type WriteFn = spec_fn(u64) -> Seq<char>;

/// A float writer accepts every float and gives one notation to each.
pub open spec fn is_float_writer<W: Fn(u64) -> String>(writer: &W) -> bool {
    &&& forall|bits: u64| #[trigger] writer.requires((bits,))
    &&& forall|bits: u64, r1: String, r2: String|
        #[trigger] writer.ensures((bits,), r1) && #[trigger] writer.ensures((bits,), r2) ==> r1@
            == r2@
}

/// What `writer` makes of a float, as a relation.
pub open spec fn writes<W: Fn(u64) -> String>(writer: &W, bits: u64, chars: Seq<char>) -> bool {
    exists|text: String| text@ == chars && #[trigger] writer.ensures((bits,), text)
}

/// The function computed by `writer`.
pub open spec fn write_fn<W: Fn(u64) -> String>(writer: &W) -> WriteFn {
    |bits: u64| choose|chars: Seq<char>| writes(writer, bits, chars)
}

/// Puts one float to the float writer.
pub fn write_float<W: Fn(u64) -> String>(writer: &W, bits: u64) -> (r: String)
    requires
        is_float_writer(writer),
    ensures
        r@ == write_fn(writer)(bits),
{
    let r = writer(bits);
    assert(writes(writer, bits, r@));
    r
}

/// The sign bit of a binary64 value.
pub const SIGN_BIT: u64 = 0x8000_0000_0000_0000;

/// The bits of positive infinity: every pattern with a greater magnitude is
/// a NaN.
pub const INFINITY_BITS: u64 = 0x7ff0_0000_0000_0000;

/// The bits without the sign.
pub open spec fn magnitude(bits: u64) -> u64 {
    if bits >= SIGN_BIT {
        (bits - SIGN_BIT) as u64
    } else {
        bits
    }
}

/// Whether the bits hold a NaN.
pub open spec fn is_nan(bits: u64) -> bool {
    magnitude(bits) > INFINITY_BITS
}

/// The place of a float that is not a NaN in the order of the floats: both
/// zeros are at 0, and a greater float is at a greater place.
pub open spec fn ordinal(bits: u64) -> int {
    if bits >= SIGN_BIT {
        -(magnitude(bits) as int)
    } else {
        bits as int
    }
}

/// Float equality: a NaN equals nothing, and the two zeros are equal.
pub open spec fn bits_equal(a: u64, b: u64) -> bool {
    !is_nan(a) && !is_nan(b) && ordinal(a) == ordinal(b)
}

/// Float order: a NaN is below nothing and nothing is below it.
pub open spec fn bits_less(a: u64, b: u64) -> bool {
    !is_nan(a) && !is_nan(b) && ordinal(a) < ordinal(b)
}

/// The bits with the sign flipped.
pub open spec fn bits_negated(bits: u64) -> u64 {
    if bits >= SIGN_BIT {
        (bits - SIGN_BIT) as u64
    } else {
        (bits + SIGN_BIT) as u64
    }
}

/// Among floats that are no NaN, exactly one of three holds: the first is
/// below the second, they are equal, or the second is below the first.
pub proof fn lemma_floats_are_ordered(a: u64, b: u64)
    requires
        !is_nan(a),
        !is_nan(b),
    ensures
        bits_less(a, b) || bits_equal(a, b) || bits_less(b, a),
        !(bits_less(a, b) && bits_equal(a, b)),
        !(bits_less(a, b) && bits_less(b, a)),
        !(bits_equal(a, b) && bits_less(b, a)),
{
}

/// The order of the floats is transitive, and equal floats take the same
/// place in it.
pub proof fn lemma_float_order_is_transitive(a: u64, b: u64, c: u64)
    ensures
        bits_less(a, b) && bits_less(b, c) ==> bits_less(a, c),
        bits_equal(a, b) && bits_less(b, c) ==> bits_less(a, c),
        bits_less(a, b) && bits_equal(b, c) ==> bits_less(a, c),
        bits_equal(a, b) && bits_equal(b, c) ==> bits_equal(a, c),
        bits_equal(a, b) == bits_equal(b, a),
{
}

/// Negation undoes itself, keeps a NaN a NaN, and turns the order around.
pub proof fn lemma_negation_mirrors(a: u64, b: u64)
    ensures
        bits_negated(bits_negated(a)) == a,
        is_nan(bits_negated(a)) == is_nan(a),
        bits_less(bits_negated(a), bits_negated(b)) == bits_less(b, a),
        bits_equal(bits_negated(a), bits_negated(b)) == bits_equal(a, b),
{
}

/// The place of a float that is no NaN.
fn place(bits: u64) -> (r: i64)
    requires
        !is_nan(bits),
    ensures
        r == ordinal(bits),
{
    if bits >= SIGN_BIT {
        let m: u64 = bits - SIGN_BIT;
        0 - (m as i64)
    } else {
        bits as i64
    }
}

/// Tells whether the bits hold a NaN.
fn nan(bits: u64) -> (r: bool)
    ensures
        r == is_nan(bits),
{
    if bits >= SIGN_BIT {
        bits - SIGN_BIT > INFINITY_BITS
    } else {
        bits > INFINITY_BITS
    }
}

/// Negates a float by flipping its sign bit.
pub fn float_neg(bits: u64) -> (r: u64)
    ensures
        r == bits_negated(bits),
{
    if bits >= SIGN_BIT {
        bits - SIGN_BIT
    } else {
        bits + SIGN_BIT
    }
}

/// Compares two floats for equality.
pub fn float_eq(a: u64, b: u64) -> (r: bool)
    ensures
        r == bits_equal(a, b),
{
    if nan(a) || nan(b) {
        false
    } else {
        place(a) == place(b)
    }
}

/// Tells whether the first float is below the second.
pub fn float_lt(a: u64, b: u64) -> (r: bool)
    ensures
        r == bits_less(a, b),
{
    if nan(a) || nan(b) {
        false
    } else {
        place(a) < place(b)
    }
}

} // verus!
