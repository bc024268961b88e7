//! Exact sign-magnitude rational numbers for the calculator engine.
//!
//! The calculator works on exact rationals rather than machine floating
//! point. Every operation either returns the exact reduced result or reports
//! that it cannot be represented within the machine word (which the engine
//! shows as an error, as it does for a division by zero).

use vstd::prelude::*;
use vstd::arithmetic::div_mod::{
    lemma_fundamental_div_mod, lemma_mod_division_less_than_divisor, lemma_mod_multiples_basic,
    lemma_mod_self_0, lemma_small_mod, lemma_div_multiples_vanish,
};
use vstd::arithmetic::mul::lemma_mul_unary_negation;
use vstd::math::abs;

verus! {

/// Mathematical value of a rational: an exact pair of integers, denominator
/// positive. The pair need not be reduced; the arithmetic below returns
/// reduced results to keep the magnitudes small.
pub ghost struct RatModel {
    pub num: int,
    pub den: int,
}

/// Shorthand constructor for the model.
pub open spec fn rm(num: int, den: int) -> RatModel {
    RatModel { num, den }
}

/// A rational number held as a sign and two magnitudes.
pub struct Rat {
    /// Sign: true for a negative value. Zero is never negative.
    pub neg: bool,
    /// Magnitude of the numerator.
    pub mag: u128,
    /// Denominator, at least 1.
    pub den: u128,
}

impl View for Rat {
    type V = RatModel;

    open spec fn view(&self) -> RatModel {
        rm(
            if self.neg {
                -(self.mag as int)
            } else {
                self.mag as int
            },
            self.den as int,
        )
    }
}

impl Rat {
    /// Denominator positive; zero never carries a sign.
    pub open spec fn wf(&self) -> bool {
        &&& self.den >= 1
        &&& (self.mag == 0 ==> !self.neg)
    }

    /// The rational zero.
    pub fn zero() -> (r: Rat)
        ensures
            r.wf(),
            r@ == rm(0, 1),
    {
        Rat { neg: false, mag: 0, den: 1 }
    }

    /// Whether the value is exactly zero.
    pub fn is_zero(&self) -> (r: bool)
        ensures
            r == (self@.num == 0),
    {
        self.mag == 0
    }
}

impl Clone for Rat {
    fn clone(&self) -> (r: Rat)
        ensures
            r == *self,
    {
        Rat { neg: self.neg, mag: self.mag, den: self.den }
    }
}

/// Exact sum over the models.
pub open spec fn spec_add(a: RatModel, b: RatModel) -> RatModel {
    rm(a.num * b.den + b.num * a.den, a.den * b.den)
}

/// Exact difference over the models.
pub open spec fn spec_sub(a: RatModel, b: RatModel) -> RatModel {
    rm(a.num * b.den - b.num * a.den, a.den * b.den)
}

/// Exact product over the models.
pub open spec fn spec_mul(a: RatModel, b: RatModel) -> RatModel {
    rm(a.num * b.num, a.den * b.den)
}

/// Exact quotient over the models, denominator kept positive.
pub open spec fn spec_div(a: RatModel, b: RatModel) -> RatModel
    recommends
        b.num != 0,
{
    if b.num >= 0 {
        rm(a.num * b.den, a.den * b.num)
    } else {
        rm(-(a.num * b.den), a.den * -b.num)
    }
}

/// The bound within which the executable magnitudes must stay.
pub open spec fn mag_max() -> int {
    u128::MAX as int
}

/// The sum is representable: every magnitude the evaluation passes through
/// fits a machine word.
pub open spec fn add_fits(a: RatModel, b: RatModel) -> bool {
    &&& abs(a.num) * b.den <= mag_max()
    &&& abs(b.num) * a.den <= mag_max()
    &&& a.den * b.den <= mag_max()
    &&& abs(a.num * b.den + b.num * a.den) <= mag_max()
}

/// The difference is representable.
pub open spec fn sub_fits(a: RatModel, b: RatModel) -> bool {
    add_fits(a, rm(-b.num, b.den))
}

/// The product is representable.
pub open spec fn mul_fits(a: RatModel, b: RatModel) -> bool {
    &&& abs(a.num) * abs(b.num) <= mag_max()
    &&& a.den * b.den <= mag_max()
}

/// The quotient is representable.
pub open spec fn div_fits(a: RatModel, b: RatModel) -> bool {
    &&& abs(a.num) * b.den <= mag_max()
    &&& a.den * abs(b.num) <= mag_max()
}

/// Greatest common divisor, by Euclid's recursion.
pub open spec fn spec_gcd(a: nat, b: nat) -> nat
    decreases b,
{
    if b == 0 {
        a
    } else {
        spec_gcd(b, a % b)
    }
}

/// The gcd of two numbers, not both zero, is positive and divides both.
pub proof fn lemma_gcd_properties(a: nat, b: nat)
    requires
        a > 0 || b > 0,
    ensures
        spec_gcd(a, b) >= 1,
        (a as int) % (spec_gcd(a, b) as int) == 0,
        (b as int) % (spec_gcd(a, b) as int) == 0,
    decreases b,
{
    let g = spec_gcd(a, b) as int;
    if b == 0 {
        lemma_mod_self_0(a as int);
        lemma_small_mod(0, a);
    } else {
        lemma_mod_division_less_than_divisor(a as int, b as int);
        lemma_gcd_properties(b, a % b);
        let q = a as int / b as int;
        let r = (a % b) as int;
        lemma_fundamental_div_mod(a as int, b as int);
        assert(a as int == b as int * q + r);
        let bq = b as int / g;
        let rq = r / g;
        lemma_fundamental_div_mod(b as int, g);
        lemma_fundamental_div_mod(r, g);
        assert(b as int == g * bq);
        assert(r == g * rq);
        assert(a as int == g * (bq * q + rq)) by (nonlinear_arith)
            requires
                a as int == b as int * q + r,
                b as int == g * bq,
                r == g * rq,
        ;
        lemma_mod_multiples_basic(bq * q + rq, g);
    }
}

/// A positive multiple of a divisor yields a positive exact quotient, no
/// larger than the multiple.
proof fn lemma_exact_div_pos(x: int, g: int)
    requires
        x >= 1,
        g >= 1,
        x % g == 0,
    ensures
        1 <= x / g <= x,
        x == g * (x / g),
{
    lemma_fundamental_div_mod(x, g);
    assert(x == g * (x / g));
    if x / g <= 0 {
        assert(g * (x / g) <= 0) by (nonlinear_arith)
            requires
                g >= 1,
                x / g <= 0,
        ;
    }
    assert(g * (x / g) >= x / g) by (nonlinear_arith)
        requires
            g >= 1,
            x / g >= 1,
    ;
}

/// The reduced form: both components divided by their gcd.
pub open spec fn spec_reduce(m: RatModel) -> RatModel {
    let g = spec_gcd(abs(m.num) as nat, m.den as nat) as int;
    if g == 0 {
        m
    } else {
        rm(m.num / g, m.den / g)
    }
}

/// Euclid's algorithm.
fn gcd_u128(a0: u128, b0: u128) -> (g: u128)
    ensures
        g as nat == spec_gcd(a0 as nat, b0 as nat),
{
    let mut a = a0;
    let mut b = b0;
    while b != 0
        invariant
            spec_gcd(a as nat, b as nat) == spec_gcd(a0 as nat, b0 as nat),
        decreases b,
    {
        proof {
            lemma_mod_division_less_than_divisor(a as int, b as int);
        }
        let t = a % b;
        a = b;
        b = t;
    }
    a
}

/// Builds the reduced rational equal to `(sign, mag, den)`.
fn rat_reduced(neg: bool, mag: u128, den: u128) -> (r: Rat)
    requires
        den >= 1,
    ensures
        r.wf(),
        r@ == spec_reduce(rm(if neg { -(mag as int) } else { mag as int }, den as int)),
{
    let ghost num: int = if neg {
        -(mag as int)
    } else {
        mag as int
    };
    if mag == 0 {
        proof {
            assert(abs(0int) == 0);
            assert(spec_gcd(0, den as nat) == spec_gcd(den as nat, 0));
            lemma_small_mod(0, den as nat);
            let g = den as int;
            assert(spec_reduce(rm(0, den as int)) == rm(0int / g, den as int / g));
            vstd::arithmetic::div_mod::lemma_div_of0(g);
            vstd::arithmetic::div_mod::lemma_div_by_self(g);
        }
        return Rat { neg: false, mag: 0, den: 1 };
    }
    let g = gcd_u128(mag, den);
    proof {
        lemma_gcd_properties(mag as nat, den as nat);
        assert(abs(num) == mag as int);
        lemma_exact_div_pos(mag as int, g as int);
        lemma_exact_div_pos(den as int, g as int);
    }
    let m2 = mag / g;
    let d2 = den / g;
    proof {
        if neg {
            assert(mag as int == g as int * (mag as int / g as int));
            lemma_mul_unary_negation(g as int, mag as int / g as int);
            lemma_div_multiples_vanish(-(mag as int / g as int), g as int);
            assert(-(mag as int) / g as int == -(mag as int / g as int));
        }
    }
    Rat { neg, mag: m2, den: d2 }
}

/// Sign rules of multiplication.
proof fn lemma_mul_signs(x: int, y: int)
    ensures
        (-x) * y == -(x * y),
        x * (-y) == -(x * y),
        (-x) * (-y) == x * y,
{
    lemma_mul_unary_negation(x, y);
    assert(x * (-y) == -(x * y)) by (nonlinear_arith);
    assert((-x) * (-y) == x * y) by (nonlinear_arith);
}

/// The product of two positive numbers is positive.
proof fn lemma_pos_mul_pos(x: int, y: int)
    requires
        x >= 1,
        y >= 1,
    ensures
        x * y >= 1,
{
    assert(x * y >= 1) by (nonlinear_arith)
        requires
            x >= 1,
            y >= 1,
    ;
}

/// Exact sum; `None` exactly when the result cannot be represented.
pub(crate) fn rat_add(a: &Rat, b: &Rat) -> (r: Option<Rat>)
    requires
        a.wf(),
        b.wf(),
    ensures
        (r is Some) == add_fits(a@, b@),
        r matches Some(c) ==> c.wf() && c@ == spec_reduce(spec_add(a@, b@)),
{
    proof {
        lemma_mul_signs(a.mag as int, b.den as int);
        lemma_mul_signs(b.mag as int, a.den as int);
        lemma_pos_mul_pos(a.den as int, b.den as int);
    }
    let p1 = match a.mag.checked_mul(b.den) {
        Some(v) => v,
        None => {
            return None;
        },
    };
    let p2 = match b.mag.checked_mul(a.den) {
        Some(v) => v,
        None => {
            return None;
        },
    };
    let d = match a.den.checked_mul(b.den) {
        Some(v) => v,
        None => {
            return None;
        },
    };
    if a.neg == b.neg {
        let m = match p1.checked_add(p2) {
            Some(v) => v,
            None => {
                return None;
            },
        };
        proof {
            if a.neg {
                assert(spec_add(a@, b@) == rm(-(m as int), d as int));
            } else {
                assert(spec_add(a@, b@) == rm(m as int, d as int));
            }
        }
        Some(rat_reduced(a.neg, m, d))
    } else if p1 >= p2 {
        proof {
            if a.neg {
                assert(spec_add(a@, b@) == rm(-((p1 - p2) as int), d as int));
            } else {
                assert(spec_add(a@, b@) == rm((p1 - p2) as int, d as int));
            }
        }
        Some(rat_reduced(a.neg, p1 - p2, d))
    } else {
        proof {
            if b.neg {
                assert(spec_add(a@, b@) == rm(-((p2 - p1) as int), d as int));
            } else {
                assert(spec_add(a@, b@) == rm((p2 - p1) as int, d as int));
            }
        }
        Some(rat_reduced(b.neg, p2 - p1, d))
    }
}

/// Exact difference; `None` exactly when the result cannot be represented.
pub(crate) fn rat_sub(a: &Rat, b: &Rat) -> (r: Option<Rat>)
    requires
        a.wf(),
        b.wf(),
    ensures
        (r is Some) == sub_fits(a@, b@),
        r matches Some(c) ==> c.wf() && c@ == spec_reduce(spec_sub(a@, b@)),
{
    let nb = Rat { neg: if b.mag == 0 { false } else { !b.neg }, mag: b.mag, den: b.den };
    proof {
        assert(nb@ == rm(-b@.num, b@.den));
        lemma_mul_unary_negation(b@.num, a@.den);
        assert(spec_sub(a@, b@) == spec_add(a@, nb@));
    }
    rat_add(a, &nb)
}

/// Exact product; `None` exactly when the result cannot be represented.
pub(crate) fn rat_mul(a: &Rat, b: &Rat) -> (r: Option<Rat>)
    requires
        a.wf(),
        b.wf(),
    ensures
        (r is Some) == mul_fits(a@, b@),
        r matches Some(c) ==> c.wf() && c@ == spec_reduce(spec_mul(a@, b@)),
{
    proof {
        lemma_mul_signs(a.mag as int, b.mag as int);
        lemma_pos_mul_pos(a.den as int, b.den as int);
    }
    let m = match a.mag.checked_mul(b.mag) {
        Some(v) => v,
        None => {
            return None;
        },
    };
    let d = match a.den.checked_mul(b.den) {
        Some(v) => v,
        None => {
            return None;
        },
    };
    proof {
        if a.neg != b.neg {
            assert(spec_mul(a@, b@) == rm(-(m as int), d as int));
        } else {
            assert(spec_mul(a@, b@) == rm(m as int, d as int));
        }
    }
    Some(rat_reduced(a.neg != b.neg, m, d))
}

/// Exact quotient; `None` exactly when the result cannot be represented.
/// The divisor must not be zero: the engine tests that first.
pub(crate) fn rat_div(a: &Rat, b: &Rat) -> (r: Option<Rat>)
    requires
        a.wf(),
        b.wf(),
        b@.num != 0,
    ensures
        (r is Some) == div_fits(a@, b@),
        r matches Some(c) ==> c.wf() && c@ == spec_reduce(spec_div(a@, b@)),
{
    proof {
        lemma_mul_signs(a.mag as int, b.den as int);
        lemma_pos_mul_pos(a.den as int, b.mag as int);
    }
    let m = match a.mag.checked_mul(b.den) {
        Some(v) => v,
        None => {
            return None;
        },
    };
    let d = match a.den.checked_mul(b.mag) {
        Some(v) => v,
        None => {
            return None;
        },
    };
    proof {
        if a.neg != b.neg {
            assert(spec_div(a@, b@) == rm(-(m as int), d as int));
        } else {
            assert(spec_div(a@, b@) == rm(m as int, d as int));
        }
    }
    Some(rat_reduced(a.neg != b.neg, m, d))
}

} // verus!
