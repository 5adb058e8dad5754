//! Double-precision numbers as the library holds them.
//!
//! The library carries numbers and compares them; it leaves arithmetic to its
//! callers. A number is held by the 64 bits of its IEEE 754 binary64 form: the
//! top bit is the sign, and the other 63 bits, read as an integer, grow with the
//! size of the number. Bit patterns above that of infinity are not numbers (NaN).

use vstd::prelude::*;

verus! {

/// The bit that holds the sign.
pub const SIGN_BIT: u64 = 0x8000_0000_0000_0000;

/// The bits of positive infinity.
pub const INFINITY_BITS: u64 = 0x7ff0_0000_0000_0000;

/// The bits of one.
pub const ONE_BITS: u64 = 0x3ff0_0000_0000_0000;

/// A double-precision number, held by its bits.
#[derive(Debug, Clone, Copy, PartialEq, Eq, Hash)]
pub struct Number {
    pub bits: u64,
}

impl Number {
    /// The bits without the sign.
    pub open spec fn magnitude(&self) -> int {
        if self.bits >= SIGN_BIT {
            self.bits - SIGN_BIT
        } else {
            self.bits as int
        }
    }

    /// Whether the bits stand for no number.
    pub open spec fn nan(&self) -> bool {
        self.magnitude() > INFINITY_BITS
    }

    /// An integer that orders the numbers as their values do. It is the same for
    /// the two zeros.
    pub open spec fn rank(&self) -> int {
        if self.bits >= SIGN_BIT {
            -self.magnitude()
        } else {
            self.magnitude()
        }
    }

    /// `self < other`: false when either is not a number.
    pub open spec fn below(&self, other: Number) -> bool {
        !self.nan() && !other.nan() && self.rank() < other.rank()
    }

    /// `self <= other`: false when either is not a number.
    pub open spec fn at_most(&self, other: Number) -> bool {
        !self.nan() && !other.nan() && self.rank() <= other.rank()
    }

    /// `self == other` as numbers: the two zeros are equal, and what is not a
    /// number equals nothing.
    pub open spec fn same(&self, other: Number) -> bool {
        !self.nan() && !other.nan() && self.rank() == other.rank()
    }

    /// The larger of two numbers; the other one where one of them is not a number.
    pub open spec fn larger(&self, other: Number) -> Number {
        if self.nan() {
            other
        } else if other.nan() {
            *self
        } else if self.rank() < other.rank() {
            other
        } else {
            *self
        }
    }

    /// The smaller of two numbers; the other one where one of them is not a number.
    pub open spec fn smaller(&self, other: Number) -> Number {
        if self.nan() {
            other
        } else if other.nan() {
            *self
        } else if other.rank() < self.rank() {
            other
        } else {
            *self
        }
    }

    /// The number with the given bits.
    pub fn from_bits(bits: u64) -> (r: Number)
        ensures
            r.bits == bits,
    {
        Number { bits }
    }

    /// The bits of the number.
    pub fn to_bits(&self) -> (r: u64)
        ensures
            r == self.bits,
    {
        self.bits
    }

    /// Zero.
    pub fn zero() -> (r: Number)
        ensures
            r.bits == 0,
    {
        Number { bits: 0 }
    }

    /// One.
    pub fn one() -> (r: Number)
        ensures
            r.bits == ONE_BITS,
    {
        Number { bits: ONE_BITS }
    }

    fn key(&self) -> (r: i128)
        ensures
            r == self.rank(),
    {
        if self.bits >= SIGN_BIT {
            -((self.bits - SIGN_BIT) as i128)
        } else {
            self.bits as i128
        }
    }

    /// Whether the bits stand for no number.
    pub fn is_nan(&self) -> (r: bool)
        ensures
            r == self.nan(),
    {
        let magnitude = if self.bits >= SIGN_BIT {
            self.bits - SIGN_BIT
        } else {
            self.bits
        };
        magnitude > INFINITY_BITS
    }

    /// `self < other`.
    pub fn lt(&self, other: &Number) -> (r: bool)
        ensures
            r == self.below(*other),
    {
        !self.is_nan() && !other.is_nan() && self.key() < other.key()
    }

    /// `self <= other`.
    pub fn le(&self, other: &Number) -> (r: bool)
        ensures
            r == self.at_most(*other),
    {
        !self.is_nan() && !other.is_nan() && self.key() <= other.key()
    }

    /// `self > other`.
    pub fn gt(&self, other: &Number) -> (r: bool)
        ensures
            r == other.below(*self),
    {
        other.lt(self)
    }

    /// `self >= other`.
    pub fn ge(&self, other: &Number) -> (r: bool)
        ensures
            r == other.at_most(*self),
    {
        other.le(self)
    }

    /// `self == other` as numbers.
    pub fn equals(&self, other: &Number) -> (r: bool)
        ensures
            r == self.same(*other),
    {
        !self.is_nan() && !other.is_nan() && self.key() == other.key()
    }

    /// The number without its sign.
    pub open spec fn magnitude_of(&self) -> Number {
        Number { bits: self.magnitude() as u64 }
    }

    /// The number with the other sign.
    pub open spec fn opposite(&self) -> Number {
        Number {
            bits: if self.bits >= SIGN_BIT {
                (self.bits - SIGN_BIT) as u64
            } else {
                (self.bits + SIGN_BIT) as u64
            },
        }
    }

    /// The absolute value: the number without its sign.
    pub fn abs(self) -> (r: Number)
        ensures
            r == self.magnitude_of(),
            r.nan() == self.nan(),
            !self.nan() ==> r.rank() == if self.rank() < 0 {
                -self.rank()
            } else {
                self.rank()
            },
    {
        if self.bits >= SIGN_BIT {
            Number { bits: self.bits - SIGN_BIT }
        } else {
            self
        }
    }

    /// The number with the other sign.
    pub fn neg(self) -> (r: Number)
        ensures
            r == self.opposite(),
            r.nan() == self.nan(),
            r.rank() == -self.rank(),
    {
        if self.bits >= SIGN_BIT {
            Number { bits: self.bits - SIGN_BIT }
        } else {
            Number { bits: self.bits + SIGN_BIT }
        }
    }

    /// The larger of the two.
    pub fn max(self, other: Number) -> (r: Number)
        ensures
            r == self.larger(other),
    {
        if self.is_nan() {
            other
        } else if other.is_nan() {
            self
        } else if self.key() < other.key() {
            other
        } else {
            self
        }
    }

    /// The smaller of the two.
    pub fn min(self, other: Number) -> (r: Number)
        ensures
            r == self.smaller(other),
    {
        if self.is_nan() {
            other
        } else if other.is_nan() {
            self
        } else if other.key() < self.key() {
            other
        } else {
            self
        }
    }
}

/// Among numbers, `at_most` is a total order and `below` its strict part.
pub proof fn lemma_order(a: Number, b: Number, c: Number)
    requires
        !a.nan(),
        !b.nan(),
        !c.nan(),
    ensures
        a.at_most(a),
        a.at_most(b) || b.at_most(a),
        a.at_most(b) && b.at_most(c) ==> a.at_most(c),
        a.below(b) && b.at_most(c) ==> a.below(c),
        a.at_most(b) && b.below(c) ==> a.below(c),
        a.below(b) <==> !b.at_most(a),
        a.at_most(b) && b.at_most(a) <==> a.same(b),
{
}

/// The larger of two values is one of them and, among numbers, at least each;
/// the smaller is one of them and at most each.
pub proof fn lemma_larger_smaller(a: Number, b: Number)
    ensures
        a.larger(b) == a || a.larger(b) == b,
        a.smaller(b) == a || a.smaller(b) == b,
        !a.nan() && !b.nan() ==> a.at_most(a.larger(b)) && b.at_most(a.larger(b)),
        !a.nan() && !b.nan() ==> a.smaller(b).at_most(a) && a.smaller(b).at_most(b),
        !b.nan() ==> !a.larger(b).nan() && b.at_most(a.larger(b)),
        !b.nan() ==> !a.smaller(b).nan() && a.smaller(b).at_most(b),
{
}

/// Whether no number stands before a smaller one.
pub open spec fn ascending(s: Seq<Number>) -> bool {
    forall|i: int, j: int| 0 <= i <= j < s.len() ==> (#[trigger] s[i]).at_most(#[trigger] s[j])
}

/// Whether all are numbers.
pub open spec fn all_numbers(s: Seq<Number>) -> bool {
    forall|i: int| 0 <= i < s.len() ==> !(#[trigger] s[i]).nan()
}

/// The numbers in rising order. Numbers that are equal keep the order they had.
pub fn sorted_numbers(values: &Vec<Number>) -> (r: Vec<Number>)
    requires
        all_numbers(values@),
    ensures
        ascending(r@),
        r@.to_multiset() == values@.to_multiset(),
        r@.len() == values@.len(),
{
    let mut sorted: Vec<Number> = Vec::new();
    let mut i: usize = 0;
    assert(values@.take(0) =~= Seq::<Number>::empty());
    while i < values.len()
        invariant
            i <= values@.len(),
            all_numbers(values@),
            all_numbers(sorted@),
            ascending(sorted@),
            sorted@.len() == i,
            sorted@.to_multiset() == values@.take(i as int).to_multiset(),
        decreases values@.len() - i,
    {
        let x = values[i];
        let mut p: usize = 0;
        while p < sorted.len() && !x.lt(&sorted[p])
            invariant
                p <= sorted@.len(),
                !x.nan(),
                all_numbers(sorted@),
                forall|k: int| 0 <= k < p ==> (#[trigger] sorted@[k]).at_most(x),
            decreases sorted@.len() - p,
        {
            p += 1;
        }
        let ghost before = sorted@;
        sorted.insert(p, x);
        proof {
            vstd::seq_lib::to_multiset_insert(before, p as int, x);
            vstd::seq_lib::to_multiset_build(values@.take(i as int), x);
            assert(values@.take(i + 1) =~= values@.take(i as int).push(x));
            assert forall|a: int, b: int| 0 <= a <= b < sorted@.len() implies (
            #[trigger] sorted@[a]).at_most(#[trigger] sorted@[b]) by {
                let ia = if a < p { a } else { a - 1 };
                let ib = if b < p { b } else { b - 1 };
                if a == p && b == p {
                } else if a == p {
                    assert(sorted@[b] == before[b - 1]);
                    assert(x.below(before[p as int]));
                    assert(before[p as int].at_most(before[b - 1]));
                } else if b == p {
                    assert(sorted@[a] == before[a]);
                } else {
                    assert(sorted@[a] == before[ia]);
                    assert(sorted@[b] == before[ib]);
                    assert(before[ia].at_most(before[ib]));
                }
            }
            assert forall|k: int| 0 <= k < sorted@.len() implies !(#[trigger] sorted@[k]).nan() by {
                if k < p {
                    assert(sorted@[k] == before[k]);
                } else if k > p {
                    assert(sorted@[k] == before[k - 1]);
                }
            }
        }
        i += 1;
    }
    assert(values@.take(values@.len() as int) =~= values@);
    sorted
}

} // verus!
