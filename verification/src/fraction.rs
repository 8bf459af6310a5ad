use vstd::prelude::*;

verus! {

/// The exact value of a [`Fraction`]: the rational number `num / den`.
pub struct Ratio {
    pub num: int,
    pub den: int,
}

impl Ratio {
    /// Whether the ratio denotes a number between zero and one.
    pub open spec fn in_unit_interval(self) -> bool {
        0 <= self.num <= self.den && 0 < self.den
    }
}

/// `numer / denom` clamped to the unit interval. A quotient without a
/// positive denominator is no number, and counts as zero.
pub open spec fn clamped_ratio(numer: int, denom: int) -> Ratio {
    if denom <= 0 {
        Ratio { num: 0, den: 1 }
    } else if numer <= 0 {
        Ratio { num: 0, den: denom }
    } else if numer >= denom {
        Ratio { num: denom, den: denom }
    } else {
        Ratio { num: numer, den: denom }
    }
}

/// `numer / denom` rounded to the nearest integer, halves upward.
pub open spec fn round_div(numer: int, denom: int) -> int {
    (2 * numer + denom) / (2 * denom)
}

/// What tells `round_div` apart from every other integer: it lies within
/// one half of the exact quotient, and a tie goes to the larger neighbour.
pub proof fn lemma_round_div_nearest(numer: int, denom: int)
    requires
        0 < denom,
    ensures
        2 * denom * round_div(numer, denom) - denom <= 2 * numer,
        2 * numer < 2 * denom * round_div(numer, denom) + denom,
{
    let n: int = 2 * numer + denom;
    let d: int = 2 * denom;
    vstd::arithmetic::div_mod::lemma_fundamental_div_mod(n, d);
    vstd::arithmetic::div_mod::lemma_mod_bound(n, d);
}

/// Rounding keeps the order of the unit interval: a part of a whole rounds
/// to no less than nothing and to no more than the whole.
pub proof fn lemma_round_div_bounds(extent: int, numer: int, denom: int)
    requires
        0 <= extent,
        0 <= numer <= denom,
        0 < denom,
    ensures
        0 <= round_div(extent * numer, denom) <= extent,
        numer == 0 ==> round_div(extent * numer, denom) == 0,
        numer == denom ==> round_div(extent * numer, denom) == extent,
{
    let r: int = round_div(extent * numer, denom);
    lemma_round_div_nearest(extent * numer, denom);
    assert(0 <= extent * numer <= extent * denom) by (nonlinear_arith)
        requires
            0 <= extent,
            0 <= numer <= denom,
    ;
    assert(0 <= r <= extent) by (nonlinear_arith)
        requires
            0 < denom,
            0 <= extent * numer <= extent * denom,
            2 * denom * r - denom <= 2 * (extent * numer),
            2 * (extent * numer) < 2 * denom * r + denom,
    ;
    if numer == 0 {
        assert(extent * numer == 0) by (nonlinear_arith)
            requires
                numer == 0,
        ;
        assert(r == 0) by (nonlinear_arith)
            requires
                0 < denom,
                0 <= r,
                2 * denom * r - denom <= 0,
        ;
    }
    if numer == denom {
        assert(r == extent) by (nonlinear_arith)
            requires
                0 < denom,
                r <= extent,
                numer == denom,
                2 * (extent * numer) < 2 * denom * r + denom,
        ;
    }
}

/// A proportion between zero and one, held as an exact quotient of two
/// integers.
#[derive(Clone, Copy, Debug)]
pub struct Fraction {
    numer: u32,
    denom: u32,
}

impl View for Fraction {
    type V = Ratio;

    closed spec fn view(&self) -> Ratio {
        Ratio { num: self.numer as int, den: self.denom as int }
    }
}

impl Fraction {
    #[verifier::type_invariant]
    spec fn well_formed(self) -> bool {
        0 < self.denom && self.numer <= self.denom
    }

    /// The proportion zero, as `0 / 1`.
    pub fn zero() -> (f: Fraction)
        ensures
            f@ == (Ratio { num: 0, den: 1 }),
    {
        Fraction { numer: 0, denom: 1 }
    }

    /// The proportion one, as `1 / 1`.
    pub fn one() -> (f: Fraction)
        ensures
            f@ == (Ratio { num: 1, den: 1 }),
    {
        Fraction { numer: 1, denom: 1 }
    }

    /// `numer / denom` clamped to the unit interval; zero where `denom` is
    /// zero. The quotient is kept as given, without reducing it.
    pub fn clamped(numer: i64, denom: u32) -> (f: Fraction)
        ensures
            f@ == clamped_ratio(numer as int, denom as int),
            f@.in_unit_interval(),
    {
        if denom == 0 {
            Fraction { numer: 0, denom: 1 }
        } else if numer <= 0 {
            Fraction { numer: 0, denom }
        } else if numer >= denom as i64 {
            Fraction { numer: denom, denom }
        } else {
            Fraction { numer: numer as u32, denom }
        }
    }

    /// The numerator of the quotient.
    pub fn numer(&self) -> (n: u32)
        ensures
            n == self@.num,
            self@.in_unit_interval(),
    {
        proof {
            use_type_invariant(self);
        }
        self.numer
    }

    /// The denominator of the quotient, never zero.
    pub fn denom(&self) -> (d: u32)
        ensures
            d == self@.den,
            d > 0,
            self@.in_unit_interval(),
    {
        proof {
            use_type_invariant(self);
        }
        self.denom
    }

    /// This proportion of `extent`, rounded to the nearest whole unit with
    /// halves upward.
    pub fn scale(&self, extent: u32) -> (part: u32)
        ensures
            part == round_div(extent * self@.num, self@.den),
            part <= extent,
            self@.in_unit_interval(),
    {
        proof {
            use_type_invariant(self);
            lemma_round_div_bounds(extent as int, self.numer as int, self.denom as int);
            assert(extent * self.numer <= 0xffff_ffff * 0xffff_ffff) by (nonlinear_arith)
                requires
                    0 <= extent <= 0xffff_ffff,
                    0 <= self.numer <= 0xffff_ffff,
            ;
        }
        let product: u64 = (extent as u64) * (self.numer as u64);
        let n: u128 = 2 * (product as u128) + (self.denom as u128);
        let d: u128 = 2 * (self.denom as u128);
        let part: u128 = n / d;
        part as u32
    }
}

} // verus!
