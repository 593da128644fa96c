//! Numbers as the scanner side of the format hands them on.

use vstd::prelude::*;
use vstd::std_specs::iter::IteratorSpec;
use crate::text::{decimal_value, digit_of, is_digit_char, is_digits, lemma_decimal_value_grows};

verus! {

/// An integer as sign and magnitude. The magnitude is limited to 128 bits:
/// a literal with a larger magnitude has no `Int`.
#[derive(Debug, Eq, PartialEq, Ord, PartialOrd, Hash, Clone)]
pub struct Int {
    pub negative: bool,
    pub value: u128,
}

impl View for Int {
    type V = int;

    /// The mathematical integer; a negative zero is zero.
    open spec fn view(&self) -> int {
        if self.negative {
            -(self.value as int)
        } else {
            self.value as int
        }
    }
}

impl Int {
    pub fn new(negative: bool, value: u128) -> (r: Int)
        ensures
            r == (Int { negative: negative, value: value }),
    {
        Int { negative: negative, value: value }
    }

    /// The signed integer `v`.
    pub fn from_i128(v: i128) -> (r: Int)
        ensures
            r@ == v,
            r.negative == (v < 0),
    {
        if v < 0 {
            // The magnitude of the least value does not fit the signed type.
            Int { negative: true, value: ((-(v + 1)) as u128) + 1 }
        } else {
            Int { negative: false, value: v as u128 }
        }
    }

    /// The unsigned integer `v`.
    pub fn from_u128(v: u128) -> (r: Int)
        ensures
            r@ == v,
            !r.negative,
    {
        Int { negative: false, value: v }
    }
}

/// The digits behind the sign of a literal, or all of it where it has none.
pub open spec fn digits_of(literal: Seq<char>, signed: bool) -> Seq<char> {
    if signed {
        literal.skip(1)
    } else {
        literal
    }
}

/// Whether a literal can be read as a magnitude: a minus sign in front if it
/// is signed, then digits only, at least one, that stand for a number of at
/// most 128 bits.
pub open spec fn is_magnitude(literal: Seq<char>, signed: bool) -> bool {
    &&& signed ==> literal.len() > 0 && literal[0] == '-'
    &&& is_digits(digits_of(literal, signed))
    &&& decimal_value(digits_of(literal, signed)) <= u128::MAX
}

/// Reads the magnitude of a decimal literal.
fn magnitude(slice: &str, signed: bool) -> (r: Option<u128>)
    ensures
        r is Some <==> is_magnitude(slice@, signed),
        r is Some ==> r->0 == decimal_value(digits_of(slice@, signed)),
{
    let ghost digits = digits_of(slice@, signed);
    let ghost start: int = if signed {
        1
    } else {
        0
    };
    let mut n: u128 = 0;
    let mut sign_pending = signed;
    let mut any = false;
    assert(digits.take(0) =~= Seq::<char>::empty());
    for c in it: slice.chars()
        invariant
            it.seq() == slice@,
            digits == digits_of(slice@, signed),
            start == (if signed {
                1int
            } else {
                0int
            }),
            sign_pending == (signed && it.index() == 0),
            !sign_pending ==> {
                &&& start <= it.index()
                &&& signed ==> slice@[0] == '-'
                &&& forall|j: int| 0 <= j < it.index() - start ==> is_digit_char(#[trigger] digits[j])
                &&& n == decimal_value(digits.take(it.index() - start))
                &&& any == (it.index() > start)
            },
            sign_pending ==> n == 0 && !any,
    {
        if sign_pending {
            if c != '-' {
                return None;
            }
            sign_pending = false;
        } else {
            let ghost k = it.index() - start;
            assert(digits[k] == c);
            let d = match digit_of(c) {
                Some(d) => d,
                None => {
                    return None;
                },
            };
            proof {
                assert(digits.take(k + 1).drop_last() =~= digits.take(k));
                assert(digits.take(k + 1).last() == c);
                lemma_decimal_value_grows(digits, k + 1);
            }
            let tens = match n.checked_mul(10) {
                Some(tens) => tens,
                None => {
                    return None;
                },
            };
            n = match tens.checked_add(d as u128) {
                Some(sum) => sum,
                None => {
                    return None;
                },
            };
            any = true;
        }
    }
    if sign_pending || !any {
        return None;
    }
    proof {
        assert(digits.take(digits.len() as int) =~= digits);
    }
    Some(n)
}

/// Reads a literal of decimal digits. There is no `Int` for a literal that
/// needs more than 128 bits, nor for a text that is not digits only.
pub fn pos_decimal(slice: &str) -> (r: Option<Int>)
    ensures
        r is Some <==> is_magnitude(slice@, false),
        r is Some ==> r->0 == (Int { negative: false, value: decimal_value(slice@) as u128 }),
{
    match magnitude(slice, false) {
        Some(n) => Some(Int { negative: false, value: n }),
        None => None,
    }
}

/// Reads a literal of a minus sign and decimal digits. There is no `Int`
/// for a literal whose digits need more than 128 bits, nor for a text of
/// another shape.
pub fn neg_decimal(slice: &str) -> (r: Option<Int>)
    ensures
        r is Some <==> is_magnitude(slice@, true),
        r is Some ==> r->0 == (Int {
            negative: true,
            value: decimal_value(slice@.skip(1)) as u128,
        }),
{
    match magnitude(slice, true) {
        Some(n) => Some(Int { negative: true, value: n }),
        None => None,
    }
}

} // verus!
