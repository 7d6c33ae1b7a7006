//! Unsigned 256-bit token amounts and signed balance deltas.
//!
//! An amount is held as four 64-bit limbs, one per MASP digit position:
//! a token amount is split into four limbs so that each fits the integers
//! the proof system works over. All arithmetic is overflow-checked; nothing
//! here wraps silently.

use vstd::prelude::*;
use vstd::arithmetic::div_mod::lemma_fundamental_div_mod_converse;

verus! {

pub open spec fn pow2_64() -> int {
    0x1_0000_0000_0000_0000
}

pub open spec fn pow2_128() -> int {
    pow2_64() * pow2_64()
}

pub open spec fn pow2_192() -> int {
    pow2_128() * pow2_64()
}

pub open spec fn pow2_256() -> int {
    pow2_192() * pow2_64()
}

/// One of the four 64-bit limbs an amount is split into. Each digit position
/// of a token, together with the token and its denomination, derives its own
/// pseudo-asset identifier.
#[derive(Clone, Copy, PartialEq, Eq, Structural, Debug)]
pub enum MaspDigitPos {
    Zero,
    One,
    Two,
    Three,
}

impl MaspDigitPos {
    /// The index of this digit position, 0 through 3.
    pub open spec fn pos(self) -> int {
        match self {
            MaspDigitPos::Zero => 0,
            MaspDigitPos::One => 1,
            MaspDigitPos::Two => 2,
            MaspDigitPos::Three => 3,
        }
    }

    /// The weight of one unit at this digit position.
    pub open spec fn scale(self) -> int {
        match self {
            MaspDigitPos::Zero => 1,
            MaspDigitPos::One => pow2_64(),
            MaspDigitPos::Two => pow2_128(),
            MaspDigitPos::Three => pow2_192(),
        }
    }

    /// The byte tag used when this digit position is serialized.
    pub fn tag(self) -> (r: u8)
        ensures
            r == self.pos(),
    {
        match self {
            MaspDigitPos::Zero => 0,
            MaspDigitPos::One => 1,
            MaspDigitPos::Two => 2,
            MaspDigitPos::Three => 3,
        }
    }
}

/// An unsigned 256-bit token amount, as four little-endian 64-bit limbs.
#[derive(Clone, Copy, PartialEq, Eq, Structural, Debug)]
pub struct Amount {
    pub l0: u64,
    pub l1: u64,
    pub l2: u64,
    pub l3: u64,
}

/// The canonical amount whose value is `n`, for `0 <= n < 2^256`.
#[verifier::opaque]
pub open spec fn amount_of(n: int) -> Amount {
    Amount {
        l0: (n % pow2_64()) as u64,
        l1: ((n / pow2_64()) % pow2_64()) as u64,
        l2: ((n / pow2_128()) % pow2_64()) as u64,
        l3: ((n / pow2_192()) % pow2_64()) as u64,
    }
}

impl Amount {
    /// The mathematical value of this amount.
    pub open spec fn value(self) -> nat {
        (self.l0 + self.l1 * pow2_64() + self.l2 * pow2_128() + self.l3 * pow2_192()) as nat
    }

    pub open spec fn spec_zero() -> Amount {
        Amount { l0: 0, l1: 0, l2: 0, l3: 0 }
    }

    pub fn zero() -> (r: Amount)
        ensures
            r == Amount::spec_zero(),
            r.value() == 0,
    {
        Amount { l0: 0, l1: 0, l2: 0, l3: 0 }
    }

    /// The amount contributed by `value` units at digit position `digit`.
    pub fn from_masp_denominated(value: u64, digit: MaspDigitPos) -> (r: Amount)
        ensures
            r.value() == value * digit.scale(),
            r == amount_of(value * digit.scale()),
    {
        let r = match digit {
            MaspDigitPos::Zero => Amount { l0: value, l1: 0, l2: 0, l3: 0 },
            MaspDigitPos::One => Amount { l0: 0, l1: value, l2: 0, l3: 0 },
            MaspDigitPos::Two => Amount { l0: 0, l1: 0, l2: value, l3: 0 },
            MaspDigitPos::Three => Amount { l0: 0, l1: 0, l2: 0, l3: value },
        };
        proof {
            lemma_amount_canonical(r);
            match digit {
                MaspDigitPos::Zero => {
                    assert(r == Amount { l0: value, l1: 0, l2: 0, l3: 0 });
                    assert(r.value() == value + 0 * pow2_64() + 0 * pow2_128() + 0 * pow2_192());
                },
                MaspDigitPos::One => {
                    assert(r.value() == 0 + value * pow2_64() + 0 * pow2_128() + 0 * pow2_192());
                },
                MaspDigitPos::Two => {
                    assert(r.value() == 0 + 0 * pow2_64() + value * pow2_128() + 0 * pow2_192());
                },
                MaspDigitPos::Three => {
                    assert(r.value() == 0 + 0 * pow2_64() + 0 * pow2_128() + value * pow2_192());
                },
            }
        }
        r
    }

    /// Overflow-checked addition: the sum when it fits in 256 bits.
    pub fn checked_add(&self, other: &Amount) -> (r: Option<Amount>)
        ensures
            r is Some <==> self.value() + other.value() < pow2_256(),
            r matches Some(c) ==> c.value() == self.value() + other.value(),
            r matches Some(c) ==> c == amount_of(self.value() + other.value() as int),
    {
        let b: u128 = 0x1_0000_0000_0000_0000;
        let s0: u128 = self.l0 as u128 + other.l0 as u128;
        let (r0, c0): (u64, u128) = if s0 >= b { ((s0 - b) as u64, 1) } else { (s0 as u64, 0) };
        let s1: u128 = self.l1 as u128 + other.l1 as u128 + c0;
        let (r1, c1): (u64, u128) = if s1 >= b { ((s1 - b) as u64, 1) } else { (s1 as u64, 0) };
        let s2: u128 = self.l2 as u128 + other.l2 as u128 + c1;
        let (r2, c2): (u64, u128) = if s2 >= b { ((s2 - b) as u64, 1) } else { (s2 as u64, 0) };
        let s3: u128 = self.l3 as u128 + other.l3 as u128 + c2;
        let (r3, c3): (u64, u128) = if s3 >= b { ((s3 - b) as u64, 1) } else { (s3 as u64, 0) };
        proof {
            assert(r0 + pow2_64() * c0 == self.l0 + other.l0);
            assert(r1 + pow2_64() * c1 == self.l1 + other.l1 + c0);
            assert(r2 + pow2_64() * c2 == self.l2 + other.l2 + c1);
            assert(r3 + pow2_64() * c3 == self.l3 + other.l3 + c2);
        }
        if c3 == 1 {
            proof {
                lemma_sum_with_carries(*self, *other, r0, r1, r2, r3, c0 as int, c1 as int, c2 as int, c3 as int);
            }
            None
        } else {
            let c = Amount { l0: r0, l1: r1, l2: r2, l3: r3 };
            proof {
                lemma_sum_with_carries(*self, *other, r0, r1, r2, r3, c0 as int, c1 as int, c2 as int, c3 as int);
                lemma_amount_canonical(c);
            }
            Some(c)
        }
    }

    /// Underflow-checked subtraction: the difference when `other` does not
    /// exceed `self`.
    pub fn checked_sub(&self, other: &Amount) -> (r: Option<Amount>)
        ensures
            r is Some <==> other.value() <= self.value(),
            r matches Some(c) ==> c.value() == self.value() - other.value(),
            r matches Some(c) ==> c == amount_of(self.value() - other.value()),
    {
        let b: u128 = 0x1_0000_0000_0000_0000;
        let d0: u128 = other.l0 as u128;
        let (r0, w0): (u64, u128) = if self.l0 as u128 >= d0 {
            ((self.l0 as u128 - d0) as u64, 0)
        } else {
            ((self.l0 as u128 + b - d0) as u64, 1)
        };
        let d1: u128 = other.l1 as u128 + w0;
        let (r1, w1): (u64, u128) = if self.l1 as u128 >= d1 {
            ((self.l1 as u128 - d1) as u64, 0)
        } else {
            ((self.l1 as u128 + b - d1) as u64, 1)
        };
        let d2: u128 = other.l2 as u128 + w1;
        let (r2, w2): (u64, u128) = if self.l2 as u128 >= d2 {
            ((self.l2 as u128 - d2) as u64, 0)
        } else {
            ((self.l2 as u128 + b - d2) as u64, 1)
        };
        let d3: u128 = other.l3 as u128 + w2;
        let (r3, w3): (u64, u128) = if self.l3 as u128 >= d3 {
            ((self.l3 as u128 - d3) as u64, 0)
        } else {
            ((self.l3 as u128 + b - d3) as u64, 1)
        };
        proof {
            assert(r0 == self.l0 - other.l0 + pow2_64() * w0);
            assert(r1 == self.l1 - other.l1 - w0 + pow2_64() * w1);
            assert(r2 == self.l2 - other.l2 - w1 + pow2_64() * w2);
            assert(r3 == self.l3 - other.l3 - w2 + pow2_64() * w3);
            lemma_diff_with_borrows(*self, *other, r0, r1, r2, r3, w0 as int, w1 as int, w2 as int, w3 as int);
        }
        if w3 == 1 {
            proof {
                assert(r0 + r1 * pow2_64() + r2 * pow2_128() + r3 * pow2_192()
                    == self.value() - other.value() + pow2_256());
                lemma_amount_canonical(*self);
                lemma_amount_canonical(*other);
                assert(self.value() < pow2_256());
                assert(other.value() > self.value());
            }
            None
        } else {
            let c = Amount { l0: r0, l1: r1, l2: r2, l3: r3 };
            proof {
                lemma_amount_canonical(c);
                assert(c.value() == self.value() - other.value());
                assert(other.value() <= self.value());
            }
            Some(c)
        }
    }
}

/// The limb recomposition of a sum with carry digits is exact.
proof fn lemma_sum_with_carries(
    a: Amount,
    b: Amount,
    r0: u64,
    r1: u64,
    r2: u64,
    r3: u64,
    c0: int,
    c1: int,
    c2: int,
    c3: int,
)
    requires
        r0 + pow2_64() * c0 == a.l0 + b.l0,
        r1 + pow2_64() * c1 == a.l1 + b.l1 + c0,
        r2 + pow2_64() * c2 == a.l2 + b.l2 + c1,
        r3 + pow2_64() * c3 == a.l3 + b.l3 + c2,
    ensures
        r0 + r1 * pow2_64() + r2 * pow2_128() + r3 * pow2_192() + c3 * pow2_256()
            == a.value() + b.value(),
{
    let p1 = pow2_64();
    let p2 = pow2_128();
    let p3 = pow2_192();
    let p4 = pow2_256();
    assert(p2 == p1 * p1);
    assert((r1 + p1 * c1) * p1 == r1 * p1 + c1 * p2) by (nonlinear_arith)
        requires
            p2 == p1 * p1,
    ;
    assert((r2 + p1 * c2) * p2 == r2 * p2 + c2 * p3) by (nonlinear_arith)
        requires
            p3 == p2 * p1,
    ;
    assert((r3 + p1 * c3) * p3 == r3 * p3 + c3 * p4) by (nonlinear_arith)
        requires
            p4 == p3 * p1,
    ;
    assert((a.l1 + b.l1 + c0) * p1 == a.l1 * p1 + b.l1 * p1 + c0 * p1) by (nonlinear_arith);
    assert((a.l2 + b.l2 + c1) * p2 == a.l2 * p2 + b.l2 * p2 + c1 * p2) by (nonlinear_arith);
    assert((a.l3 + b.l3 + c2) * p3 == a.l3 * p3 + b.l3 * p3 + c2 * p3) by (nonlinear_arith);
}

/// The limb recomposition of a difference with borrow digits is exact.
proof fn lemma_diff_with_borrows(
    a: Amount,
    b: Amount,
    r0: u64,
    r1: u64,
    r2: u64,
    r3: u64,
    w0: int,
    w1: int,
    w2: int,
    w3: int,
)
    requires
        r0 == a.l0 - b.l0 + pow2_64() * w0,
        r1 == a.l1 - b.l1 - w0 + pow2_64() * w1,
        r2 == a.l2 - b.l2 - w1 + pow2_64() * w2,
        r3 == a.l3 - b.l3 - w2 + pow2_64() * w3,
    ensures
        r0 + r1 * pow2_64() + r2 * pow2_128() + r3 * pow2_192()
            == a.value() - b.value() + w3 * pow2_256(),
{
    let p1 = pow2_64();
    let p2 = pow2_128();
    let p3 = pow2_192();
    let p4 = pow2_256();
    assert((a.l1 - b.l1 - w0 + p1 * w1) * p1 == a.l1 * p1 - b.l1 * p1 - w0 * p1 + w1 * p2)
        by (nonlinear_arith)
        requires
            p2 == p1 * p1,
    ;
    assert((a.l2 - b.l2 - w1 + p1 * w2) * p2 == a.l2 * p2 - b.l2 * p2 - w1 * p2 + w2 * p3)
        by (nonlinear_arith)
        requires
            p3 == p2 * p1,
    ;
    assert((a.l3 - b.l3 - w2 + p1 * w3) * p3 == a.l3 * p3 - b.l3 * p3 - w2 * p3 + w3 * p4)
        by (nonlinear_arith)
        requires
            p4 == p3 * p1,
    ;
}

/// Every amount is the canonical amount of its own value: limbs are the
/// base-2^64 digits of the value, so equal values mean equal limbs.
pub proof fn lemma_amount_canonical(a: Amount)
    ensures
        amount_of(a.value() as int) == a,
        a.value() < pow2_256(),
{
    reveal(crate::amount::amount_of);
    let p1 = pow2_64();
    let p2 = pow2_128();
    let p3 = pow2_192();
    let v = a.value() as int;
    assert(a.l1 * p1 + a.l2 * p2 + a.l3 * p3 == (a.l1 + a.l2 * p1 + a.l3 * p2) * p1)
        by (nonlinear_arith)
        requires
            p2 == p1 * p1,
            p3 == p2 * p1,
    ;
    lemma_fundamental_div_mod_converse(v, p1, a.l1 + a.l2 * p1 + a.l3 * p2, a.l0 as int);
    assert(v % p1 == a.l0);
    assert(v / p1 == a.l1 + a.l2 * p1 + a.l3 * p2);
    lemma_fundamental_div_mod_converse(v / p1, p1, a.l2 + a.l3 * p1, a.l1 as int);
    assert((v / p1) % p1 == a.l1);
    assert((v / p1) / p1 == a.l2 + a.l3 * p1);
    lemma_div_twice(v, p1, p1, p2);
    assert(v / p2 == a.l2 + a.l3 * p1);
    lemma_fundamental_div_mod_converse(v / p2, p1, a.l3 as int, a.l2 as int);
    assert((v / p2) % p1 == a.l2);
    assert((v / p2) / p1 == a.l3);
    lemma_div_twice(v, p2, p1, p3);
    assert(v / p3 == a.l3);
    lemma_fundamental_div_mod_converse(v / p3, p1, 0, a.l3 as int);
    assert((v / p3) % p1 == a.l3);
    assert(a.l3 * p3 < pow2_256()) by (nonlinear_arith)
        requires
            pow2_256() == p3 * p1,
            a.l3 < p1,
            p3 > 0,
    ;
}

/// Dividing twice is dividing by the product.
proof fn lemma_div_twice(x: int, c: int, d: int, cd: int)
    requires
        0 <= x,
        0 < c,
        0 < d,
        cd == c * d,
    ensures
        (x / c) / d == x / cd,
{
    vstd::arithmetic::div_mod::lemma_div_denominator(x, c, d);
}

/// A signed balance delta over [`Amount`]. Addition works by cross-sign
/// subtraction: the tag of the result follows the sign of the mathematical
/// sum, a mixed-sign sum that lands exactly on zero is tagged positive, and
/// a same-sign sum that overflows 256 bits fails rather than wrapping.
#[derive(Clone, Copy, PartialEq, Eq, Structural, Debug)]
pub enum SignedAmount {
    Positive(Amount),
    Negative(Amount),
}

impl SignedAmount {
    /// The mathematical value of this delta.
    pub open spec fn as_int(self) -> int {
        match self {
            SignedAmount::Positive(a) => a.value() as int,
            SignedAmount::Negative(a) => -(a.value() as int),
        }
    }

    /// What [`SignedAmount::checked_add`] returns.
    #[verifier::opaque]
    pub open spec fn spec_checked_add(self, other: SignedAmount) -> Option<SignedAmount> {
        match (self, other) {
            (SignedAmount::Positive(a), SignedAmount::Positive(b)) => {
                if a.value() + b.value() < pow2_256() {
                    Some(SignedAmount::Positive(amount_of(a.value() + b.value() as int)))
                } else {
                    None
                }
            },
            (SignedAmount::Negative(a), SignedAmount::Negative(b)) => {
                if a.value() + b.value() < pow2_256() {
                    Some(SignedAmount::Negative(amount_of(a.value() + b.value() as int)))
                } else {
                    None
                }
            },
            (SignedAmount::Positive(a), SignedAmount::Negative(b)) => {
                if b.value() <= a.value() {
                    Some(SignedAmount::Positive(amount_of(a.value() - b.value())))
                } else {
                    Some(SignedAmount::Negative(amount_of(b.value() - a.value())))
                }
            },
            (SignedAmount::Negative(a), SignedAmount::Positive(b)) => {
                if a.value() <= b.value() {
                    Some(SignedAmount::Positive(amount_of(b.value() - a.value())))
                } else {
                    Some(SignedAmount::Negative(amount_of(a.value() - b.value())))
                }
            },
        }
    }

    /// Overflow-checked signed addition; fails only when two deltas of the
    /// same sign exceed 256 bits in magnitude.
    pub fn checked_add(&self, other: &SignedAmount) -> (r: Option<SignedAmount>)
        ensures
            r == self.spec_checked_add(*other),
            r matches Some(c) ==> c.as_int() == self.as_int() + other.as_int(),
            r is None <==> self.as_int() + other.as_int() >= pow2_256()
                || self.as_int() + other.as_int() <= -pow2_256(),
    {
        let r = match (self, other) {
            (SignedAmount::Positive(a), SignedAmount::Positive(b)) => match a.checked_add(b) {
                Some(c) => Some(SignedAmount::Positive(c)),
                None => None,
            },
            (SignedAmount::Negative(a), SignedAmount::Negative(b)) => match a.checked_add(b) {
                Some(c) => Some(SignedAmount::Negative(c)),
                None => None,
            },
            (SignedAmount::Positive(a), SignedAmount::Negative(b)) => match a.checked_sub(b) {
                Some(c) => Some(SignedAmount::Positive(c)),
                None => {
                    let c = b.checked_sub(a).unwrap();
                    Some(SignedAmount::Negative(c))
                },
            },
            (SignedAmount::Negative(a), SignedAmount::Positive(b)) => match b.checked_sub(a) {
                Some(c) => Some(SignedAmount::Positive(c)),
                None => {
                    let c = a.checked_sub(b).unwrap();
                    Some(SignedAmount::Negative(c))
                },
            },
        };
        proof {
            reveal(crate::amount::SignedAmount::spec_checked_add);
            match *self {
                SignedAmount::Positive(a) => lemma_amount_canonical(a),
                SignedAmount::Negative(a) => lemma_amount_canonical(a),
            }
            match *other {
                SignedAmount::Positive(b) => lemma_amount_canonical(b),
                SignedAmount::Negative(b) => lemma_amount_canonical(b),
            }
        }
        r
    }
}

} // verus!
