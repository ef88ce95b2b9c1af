//! IEEE-754 binary64 values held by their bit patterns.
//!
//! The scene rules compare, classify and select numbers; they never need to add or multiply them.
//! Those questions have exact integer answers on the bit pattern, which is what this type offers.

use vstd::arithmetic::power2::*;
use vstd::prelude::*;

verus! {

/// The sign bit.
pub const SIGN: u64 = 0x8000_0000_0000_0000;

/// The pattern of positive infinity; larger magnitudes are NaNs.
pub const INFINITY: u64 = 0x7ff0_0000_0000_0000;

/// One step of the exponent field.
pub const EXPONENT_STEP: u64 = 0x0010_0000_0000_0000;

/// A binary64 number, held by its bit pattern.
#[derive(Clone, Copy, Debug, PartialEq, Eq, Structural)]
pub struct Scalar {
    pub bits: u64,
}

/// 0.0
pub const ZERO: u64 = 0;

/// 1.0
pub const ONE: u64 = 0x3ff0_0000_0000_0000;

/// The number with a bit pattern.
pub open spec fn num(bits: u64) -> Scalar {
    Scalar { bits }
}

impl Scalar {
    /// The bit pattern without its sign.
    pub open spec fn magnitude(self) -> int {
        if self.bits >= SIGN { self.bits - SIGN } else { self.bits as int }
    }

    pub open spec fn is_nan_spec(self) -> bool {
        self.magnitude() > INFINITY
    }

    pub open spec fn finite(self) -> bool {
        self.magnitude() < INFINITY
    }

    /// Position of a number among all numbers: equal numbers share it (both zeros are 0), a
    /// smaller number has a smaller one. It says nothing of a NaN.
    pub open spec fn order(self) -> int {
        if self.bits >= SIGN { -self.magnitude() } else { self.magnitude() }
    }

    /// `self < other`: false whenever either side is a NaN.
    pub open spec fn lt_spec(self, other: Scalar) -> bool {
        !self.is_nan_spec() && !other.is_nan_spec() && self.order() < other.order()
    }

    /// `self <= other`: false whenever either side is a NaN.
    pub open spec fn le_spec(self, other: Scalar) -> bool {
        !self.is_nan_spec() && !other.is_nan_spec() && self.order() <= other.order()
    }

    /// `self == other`: false whenever either side is a NaN.
    pub open spec fn eq_spec(self, other: Scalar) -> bool {
        !self.is_nan_spec() && !other.is_nan_spec() && self.order() == other.order()
    }

    /// `low <= self && self <= high`.
    pub open spec fn within(self, low: Scalar, high: Scalar) -> bool {
        low.le_spec(self) && self.le_spec(high)
    }

    pub fn from_bits(bits: u64) -> (r: Scalar)
        ensures
            r.bits == bits,
    {
        Scalar { bits }
    }

    pub fn to_bits(self) -> (r: u64)
        ensures
            r == self.bits,
    {
        self.bits
    }

    fn magnitude_bits(self) -> (r: u64)
        ensures
            r == self.magnitude(),
    {
        if self.bits >= SIGN { self.bits - SIGN } else { self.bits }
    }

    pub fn is_nan(self) -> (r: bool)
        ensures
            r == self.is_nan_spec(),
    {
        self.magnitude_bits() > INFINITY
    }

    pub fn is_finite(self) -> (r: bool)
        ensures
            r == self.finite(),
    {
        self.magnitude_bits() < INFINITY
    }

    pub fn lt(self, other: Scalar) -> (r: bool)
        ensures
            r == self.lt_spec(other),
    {
        if self.is_nan() || other.is_nan() {
            return false;
        }
        let a: u64 = self.magnitude_bits();
        let b: u64 = other.magnitude_bits();
        if self.bits >= SIGN {
            if other.bits >= SIGN { a > b } else { a > 0 || b > 0 }
        } else {
            other.bits < SIGN && a < b
        }
    }

    pub fn eq_value(self, other: Scalar) -> (r: bool)
        ensures
            r == self.eq_spec(other),
    {
        if self.is_nan() || other.is_nan() {
            return false;
        }
        let a: u64 = self.magnitude_bits();
        let b: u64 = other.magnitude_bits();
        a == b && ((self.bits >= SIGN) == (other.bits >= SIGN) || a == 0)
    }

    pub fn le(self, other: Scalar) -> (r: bool)
        ensures
            r == self.le_spec(other),
    {
        self.lt(other) || self.eq_value(other)
    }

    /// `(low..=high).contains(&self)`.
    pub fn in_range(self, low: Scalar, high: Scalar) -> (r: bool)
        ensures
            r == self.within(low, high),
    {
        low.le(self) && self.le(high)
    }

    /// The number with its sign cleared.
    pub open spec fn abs_spec(self) -> Scalar {
        Scalar { bits: self.magnitude() as u64 }
    }

    pub fn abs(self) -> (r: Scalar)
        ensures
            r == self.abs_spec(),
    {
        Scalar { bits: self.magnitude_bits() }
    }

    /// The number with its sign flipped.
    pub open spec fn neg_spec(self) -> Scalar {
        Scalar { bits: (if self.bits >= SIGN { self.bits - SIGN } else { self.bits + SIGN }) as u64 }
    }

    pub fn neg(self) -> (r: Scalar)
        ensures
            r == self.neg_spec(),
    {
        if self.bits >= SIGN {
            Scalar { bits: self.bits - SIGN }
        } else {
            Scalar { bits: self.bits + SIGN }
        }
    }

    /// `self` forced into `low..=high`: a NaN stays a NaN.
    pub open spec fn clamp_spec(self, low: Scalar, high: Scalar) -> Scalar {
        if self.lt_spec(low) {
            low
        } else if high.lt_spec(self) {
            high
        } else {
            self
        }
    }

    pub fn clamp(self, low: Scalar, high: Scalar) -> (r: Scalar)
        ensures
            r == self.clamp_spec(low, high),
    {
        if self.lt(low) {
            low
        } else if high.lt(self) {
            high
        } else {
            self
        }
    }
}

/// Floor of the binary logarithm.
pub open spec fn exponent_of(m: nat) -> nat
    decreases m,
{
    if m < 2 { 0 } else { 1 + exponent_of(m / 2) }
}

/// The pattern of a non-negative integer below 2^53.
pub open spec fn integer_bits(m: nat) -> int {
    if m == 0 {
        0
    } else {
        let p = pow2(exponent_of(m));
        (1023 + exponent_of(m)) * EXPONENT_STEP + (m - p) * (EXPONENT_STEP as int / p as int)
    }
}

proof fn exponent_of_range(m: nat, e: nat)
    requires
        pow2(e) <= m < 2 * pow2(e),
    ensures
        exponent_of(m) == e,
    decreases e,
{
    lemma_pow2_pos(e);
    if e == 0 {
        lemma2_to64();
    } else {
        lemma_pow2_unfold(e);
        lemma_pow2_pos((e - 1) as nat);
        exponent_of_range(m / 2, (e - 1) as nat);
    }
}

proof fn exponent_of_bounds(m: nat)
    requires
        m > 0,
    ensures
        pow2(exponent_of(m)) <= m < 2 * pow2(exponent_of(m)),
    decreases m,
{
    if m < 2 {
        lemma2_to64();
    } else {
        exponent_of_bounds(m / 2);
        lemma_pow2_unfold(exponent_of(m));
    }
}

proof fn step_split(e: nat)
    requires
        e <= 52,
    ensures
        EXPONENT_STEP as int == pow2(e) * pow2((52 - e) as nat),
        EXPONENT_STEP as int / pow2(e) as int == pow2((52 - e) as nat),
        pow2(e) > 0,
        pow2((52 - e) as nat) > 0,
        pow2(e) <= EXPONENT_STEP,
{
    lemma2_to64();
    lemma2_to64_rest();
    assert(pow2(52) == EXPONENT_STEP);
    lemma_pow2_adds(e, (52 - e) as nat);
    lemma_pow2_pos(e);
    lemma_pow2_pos((52 - e) as nat);
    let p = pow2(e) as int;
    let q = pow2((52 - e) as nat) as int;
    assert(p * q / p == q) by (nonlinear_arith)
        requires
            p > 0,
    ;
    assert(p <= p * q) by (nonlinear_arith)
        requires
            p > 0,
            q > 0,
    ;
}

fn power_of_two(e: u64) -> (r: u64)
    requires
        e <= 62,
    ensures
        r == pow2(e as nat),
        r <= 0x4000_0000_0000_0000,
{
    let mut p: u64 = 1;
    let mut i: u64 = 0;
    proof {
        lemma2_to64();
        if e < 62 {
            lemma_pow2_strictly_increases(e as nat, 62);
        }
        lemma2_to64_rest();
    }
    while i < e
        invariant
            i <= e <= 62,
            p == pow2(i as nat),
            pow2(e as nat) <= 0x4000_0000_0000_0000,
        decreases e - i,
    {
        proof {
            lemma_pow2_unfold((i + 1) as nat);
            if i + 1 < e {
                lemma_pow2_strictly_increases((i + 1) as nat, e as nat);
            }
        }
        p = p * 2;
        i = i + 1;
    }
    p
}

impl Scalar {
    /// The number that an unsigned 32-bit integer converts to.
    pub fn from_u32(n: u32) -> (r: Scalar)
        ensures
            r.bits == integer_bits(n as nat),
            r.finite(),
    {
        if n == 0 {
            return Scalar { bits: 0 };
        }
        let mut p: u64 = 1;
        let mut e: u64 = 0;
        proof {
            lemma2_to64();
        }
        while p * 2 <= n as u64
            invariant
                p == pow2(e as nat),
                1 <= p <= n <= 0xffff_ffff,
                e < 32,
            decreases n - p,
        {
            proof {
                lemma_pow2_unfold((e + 1) as nat);
                if e >= 31 {
                    lemma2_to64();
                    if e > 31 {
                        lemma_pow2_strictly_increases(31, e as nat);
                    }
                }
            }
            p = p * 2;
            e = e + 1;
        }
        proof {
            exponent_of_range(n as nat, e as nat);
            step_split(e as nat);
            let q = pow2((52 - e) as nat) as int;
            assert((n - p) * q < p * q) by (nonlinear_arith)
                requires
                    0 <= n - p < p,
                    q > 0,
            ;
            assert(0 <= (n - p) * q) by (nonlinear_arith)
                requires
                    0 <= n - p,
                    q > 0,
            ;
        }
        let q: u64 = EXPONENT_STEP / p;
        Scalar { bits: (1023 + e) * EXPONENT_STEP + (n as u64 - p) * q }
    }

    /// The absolute value as an integer, where it is one below 2^53.
    pub open spec fn whole(self, m: nat) -> bool {
        m < 0x20_0000_0000_0000 && self.magnitude() == integer_bits(m)
    }

    /// The absolute value as an integer, where it is one below 2^53.
    pub fn small_integer(self) -> (r: Option<u64>)
        ensures
            match r {
                Some(m) => self.whole(m as nat),
                None => forall|m: nat| !#[trigger] self.whole(m),
            },
    {
        let mag: u64 = self.magnitude_bits();
        if mag == 0 {
            return Some(0);
        }
        let field: u64 = mag / EXPONENT_STEP;
        let frac: u64 = mag % EXPONENT_STEP;
        proof {
            assert forall|m: nat| #[trigger] self.whole(m) implies exists_shape(m, field, frac) by {
                whole_shape(self, m, field as int, frac as int);
            }
        }
        if field < 1023 || field > 1075 {
            return None;
        }
        let e: u64 = field - 1023;
        proof {
            step_split(e as nat);
        }
        let p: u64 = power_of_two(e);
        let q: u64 = EXPONENT_STEP / p;
        if frac % q != 0 {
            proof {
                assert forall|m: nat| !#[trigger] self.whole(m) by {
                    if self.whole(m) {
                        assert(exists_shape(m, field, frac));
                        let d = (m - pow2(exponent_of(m))) as int;
                        assert(d * (q as int) % (q as int) == 0) by (nonlinear_arith)
                            requires
                                q > 0,
                        ;
                    }
                }
            }
            return None;
        }
        proof {
            let k = frac as int / q as int;
            let qi = q as int;
            assert(frac == k * qi) by (nonlinear_arith)
                requires
                    frac as int % qi == 0,
                    k == frac as int / qi,
                    qi > 0,
            ;
            assert(0 <= k < p) by (nonlinear_arith)
                requires
                    frac == k * qi,
                    0 <= frac < p * qi,
                    qi > 0,
            ;
            exponent_of_range((p + k) as nat, e as nat);
        }
        let m: u64 = p + frac / q;
        Some(m)
    }

    /// The greatest integer below or at the number, and 0 for negative numbers and NaNs. Infinity
    /// counts as 2^1024.
    pub open spec fn floor_int(self) -> int {
        let field = self.magnitude() / (EXPONENT_STEP as int);
        let whole = EXPONENT_STEP + self.magnitude() % (EXPONENT_STEP as int);
        if self.is_nan_spec() || self.bits >= SIGN || field < 1023 {
            0
        } else if field <= 1075 {
            whole / pow2((1075 - field) as nat) as int
        } else {
            whole * pow2((field - 1075) as nat)
        }
    }

    /// The floor of the number, at least 0 and at most `cap`.
    pub fn floor_at_most(self, cap: usize) -> (r: usize)
        ensures
            r == (if self.floor_int() <= cap { self.floor_int() } else { cap as int }),
    {
        let mag: u64 = self.magnitude_bits();
        let field: u64 = mag / EXPONENT_STEP;
        if self.is_nan() || self.bits >= SIGN || field < 1023 {
            return 0;
        }
        let whole: u64 = EXPONENT_STEP + mag % EXPONENT_STEP;
        let limit: u64 = cap as u64;
        if field <= 1075 {
            let p: u64 = power_of_two(1075 - field);
            proof {
                lemma_pow2_pos((1075 - field) as nat);
            }
            let v: u64 = whole / p;
            return if v <= limit { v as usize } else { cap };
        }
        let mut v: u64 = whole;
        let mut left: u64 = field - 1075;
        while left > 0
            invariant
                self.floor_int() == v * pow2(left as nat),
                limit == cap,
                v > 0,
            decreases left,
        {
            proof {
                lemma_pow2_unfold(left as nat);
                lemma_pow2_pos((left - 1) as nat);
                let q = pow2((left - 1) as nat) as int;
                assert(v * (2 * q) == (2 * v) * q) by (nonlinear_arith);
                assert((2 * v) * q >= 2 * v) by (nonlinear_arith)
                    requires
                        q >= 1,
                        v > 0,
                ;
            }
            if v > 0x7fff_ffff_ffff_ffff || 2 * v > limit {
                return cap;
            }
            v = 2 * v;
            left = left - 1;
        }
        proof {
            lemma2_to64();
            assert(v * pow2(0) == v) by (nonlinear_arith)
                requires
                    pow2(0) == 1,
            ;
        }
        if v <= limit {
            v as usize
        } else {
            cap
        }
    }

    /// The number that a signed 32-bit integer converts to.
    pub open spec fn integer(n: int) -> Scalar {
        if n >= 0 {
            Scalar { bits: integer_bits(n as nat) as u64 }
        } else {
            Scalar { bits: integer_bits((-n) as nat) as u64 }.neg_spec()
        }
    }

    pub fn from_i32(n: i32) -> (r: Scalar)
        ensures
            r == Scalar::integer(n as int),
    {
        if n >= 0 {
            Scalar::from_u32(n as u32)
        } else {
            let m: u32 = (-(n as i64)) as u32;
            Scalar::from_u32(m).neg()
        }
    }
}

/// What `whole` says of the exponent and fraction fields.
spec fn exists_shape(m: nat, field: u64, frac: u64) -> bool {
    m == 0 || {
        &&& field == 1023 + exponent_of(m)
        &&& exponent_of(m) <= 52
        &&& frac == (m - pow2(exponent_of(m))) * (EXPONENT_STEP as int / pow2(exponent_of(m)) as int)
    }
}

proof fn whole_shape(x: Scalar, m: nat, field: int, frac: int)
    requires
        x.whole(m),
        field == x.magnitude() / (EXPONENT_STEP as int),
        frac == x.magnitude() % (EXPONENT_STEP as int),
    ensures
        m > 0 ==> field == 1023 + exponent_of(m) && exponent_of(m) <= 52 && frac == (m - pow2(
            exponent_of(m),
        )) * (EXPONENT_STEP as int / pow2(exponent_of(m)) as int),
{
    if m > 0 {
        exponent_of_bounds(m);
        let e = exponent_of(m);
        lemma2_to64();
        lemma2_to64_rest();
        if e > 52 {
            if e > 53 {
                lemma_pow2_strictly_increases(53, e);
            }
            assert(pow2(53) <= pow2(e));
            assert(false);
        }
        step_split(e);
        let p = pow2(e) as int;
        let q = pow2((52 - e) as nat) as int;
        let d = m - p;
        assert(0 <= d * q < p * q) by (nonlinear_arith)
            requires
                0 <= d < p,
                q > 0,
        ;
        let step = EXPONENT_STEP as int;
        let a = 1023 + e;
        assert((a * step + d * q) / step == a && (a * step + d * q) % step == d * q)
            by (nonlinear_arith)
            requires
                0 <= d * q < step,
                step > 0,
        ;
    }
}

/// A number is at most one integer.
pub proof fn whole_is_unique(x: Scalar, a: nat, b: nat)
    requires
        x.whole(a),
        x.whole(b),
    ensures
        a == b,
{
    let step = EXPONENT_STEP as int;
    let field = x.magnitude() / step;
    let frac = x.magnitude() % step;
    whole_shape(x, a, field, frac);
    whole_shape(x, b, field, frac);
    if a > 0 && b > 0 {
        exponent_of_bounds(a);
        exponent_of_bounds(b);
        let e = exponent_of(a);
        step_split(e);
        let p = pow2(e) as int;
        let q = step / p;
        let c = a - p;
        let d = b - p;
        assert(c == d) by (nonlinear_arith)
            requires
                c * q == d * q,
                q > 0,
        ;
    }
}

/// Negation reverses the order of numbers, and undoes itself.
pub proof fn negation_reverses_order(a: Scalar, b: Scalar)
    ensures
        a.lt_spec(b) == b.neg_spec().lt_spec(a.neg_spec()),
        a.neg_spec().neg_spec() == a,
        a.finite() == a.neg_spec().finite(),
{
}

/// Comparison of numbers is a total order up to the two zeros.
pub proof fn comparison_is_total(a: Scalar, b: Scalar, c: Scalar)
    requires
        !a.is_nan_spec(),
        !b.is_nan_spec(),
        !c.is_nan_spec(),
    ensures
        a.lt_spec(b) || a.eq_spec(b) || b.lt_spec(a),
        !(a.lt_spec(b) && b.lt_spec(a)),
        a.le_spec(b) && b.le_spec(c) ==> a.le_spec(c),
        a.le_spec(b) && b.le_spec(a) ==> a.eq_spec(b),
{
}

/// A clamped number lies inside the bounds it was clamped to.
pub proof fn clamp_stays_inside(value: Scalar, low: Scalar, high: Scalar)
    requires
        !value.is_nan_spec(),
        low.le_spec(high),
    ensures
        value.clamp_spec(low, high).within(low, high),
        value.within(low, high) ==> value.clamp_spec(low, high) == value,
{
}

} // verus!
