use vstd::prelude::*;

verus! {

/// The sign bit of a double's pattern.
pub const SIGN_BIT: u64 = 0x8000_0000_0000_0000;

/// The pattern of positive infinity. A larger magnitude is a NaN.
pub const INFINITY_BITS: u64 = 0x7FF0_0000_0000_0000;

/// The pattern of negative infinity.
pub const NEG_INFINITY_BITS: u64 = 0xFFF0_0000_0000_0000;

/// The pattern of `1.0`.
pub const ONE_BITS: u64 = 0x3FF0_0000_0000_0000;

/// The pattern of `0.5`.
pub const HALF_BITS: u64 = 0x3FE0_0000_0000_0000;

/// `num::clamp` on machine integers: `min` where `input` is below it, `max`
/// where `input` is above it, `input` otherwise. The bounds must be in order,
/// or a debug build of num panics.
#[verifier::external_body]
fn clamp_key(input: i64, min: i64, max: i64) -> (r: i64)
    requires
        min <= max,
    ensures
        r == if input < min {
            min
        } else if input > max {
            max
        } else {
            input
        },
{
    num::clamp(input, min, max)
}

/// A real number in IEEE-754 double precision, held by its bit pattern.
///
/// The model of a scalar is its `rank`: the magnitude bits taken as an integer,
/// negated when the sign bit is set. Two scalars that are not NaN order as their
/// ranks do, and both zeros have rank 0.
#[derive(Clone, Copy, Debug)]
pub struct Scalar {
    pub bits: u64,
}

impl Scalar {
    /// The pattern without its sign bit.
    pub open spec fn magnitude(self) -> int {
        if self.bits >= SIGN_BIT {
            self.bits - SIGN_BIT
        } else {
            self.bits as int
        }
    }

    /// Whether the sign bit is set.
    pub open spec fn negative(self) -> bool {
        self.bits >= SIGN_BIT
    }

    /// Whether the pattern is a NaN.
    pub open spec fn nan(self) -> bool {
        self.magnitude() > INFINITY_BITS
    }

    /// Whether the pattern is a number that is neither NaN nor infinite.
    pub open spec fn finite(self) -> bool {
        self.magnitude() < INFINITY_BITS
    }

    /// Whether the scalar lies in `[low, high]`; it does not where one of the
    /// three is NaN.
    pub open spec fn between(self, low: Scalar, high: Scalar) -> bool {
        low.at_most(self) && self.at_most(high)
    }

    /// The signed magnitude, by which scalars are ordered.
    pub open spec fn rank(self) -> int {
        if self.negative() {
            -self.magnitude()
        } else {
            self.magnitude()
        }
    }

    /// `self < other` as IEEE-754 decides it: false as soon as one side is NaN.
    pub open spec fn precedes(self, other: Scalar) -> bool {
        !self.nan() && !other.nan() && self.rank() < other.rank()
    }

    /// `self <= other` as IEEE-754 decides it: false as soon as one side is NaN.
    pub open spec fn at_most(self, other: Scalar) -> bool {
        !self.nan() && !other.nan() && self.rank() <= other.rank()
    }

    /// The smaller of two scalars, a NaN giving way to the other side.
    pub open spec fn lower(self, other: Scalar) -> Scalar {
        if self.nan() {
            other
        } else if other.nan() {
            self
        } else if other.rank() < self.rank() {
            other
        } else {
            self
        }
    }

    /// The larger of two scalars, a NaN giving way to the other side.
    pub open spec fn upper(self, other: Scalar) -> Scalar {
        if self.nan() {
            other
        } else if other.nan() {
            self
        } else if other.rank() > self.rank() {
            other
        } else {
            self
        }
    }

    /// The scalar with the sign bit flipped.
    pub open spec fn negated(self) -> Scalar {
        if self.bits >= SIGN_BIT {
            Scalar { bits: (self.bits - SIGN_BIT) as u64 }
        } else {
            Scalar { bits: (self.bits + SIGN_BIT) as u64 }
        }
    }

    /// The scalar with the sign bit cleared.
    pub open spec fn absolute(self) -> Scalar {
        if self.bits >= SIGN_BIT {
            Scalar { bits: (self.bits - SIGN_BIT) as u64 }
        } else {
            self
        }
    }

    /// The scalar held to `[low, high]`: `low` when it is below, `high` when it is
    /// above, itself otherwise (a NaN is neither below nor above).
    pub open spec fn clamped(self, low: Scalar, high: Scalar) -> Scalar {
        if self.precedes(low) {
            low
        } else if high.precedes(self) {
            high
        } else {
            self
        }
    }

    pub fn from_bits(bits: u64) -> (s: Scalar)
        ensures
            s.bits == bits,
    {
        Scalar { bits }
    }

    pub fn to_bits(self) -> (bits: u64)
        ensures
            bits == self.bits,
    {
        self.bits
    }

    /// Positive zero.
    pub fn zero() -> (s: Scalar)
        ensures
            s.bits == 0,
            s.rank() == 0,
            !s.nan(),
    {
        Scalar { bits: 0 }
    }

    /// The scalar `1.0`.
    pub fn one() -> (s: Scalar)
        ensures
            s.bits == ONE_BITS,
            s.rank() == ONE_BITS,
            !s.nan(),
    {
        Scalar { bits: ONE_BITS }
    }

    /// Positive infinity: no scalar that is not NaN has a larger rank.
    pub fn infinity() -> (s: Scalar)
        ensures
            s.bits == INFINITY_BITS,
            !s.nan(),
            forall|x: Scalar| !x.nan() ==> x.rank() <= s.rank(),
    {
        Scalar { bits: INFINITY_BITS }
    }

    /// Negative infinity: no scalar that is not NaN has a smaller rank.
    pub fn neg_infinity() -> (s: Scalar)
        ensures
            s.bits == NEG_INFINITY_BITS,
            !s.nan(),
            forall|x: Scalar| !x.nan() ==> s.rank() <= x.rank(),
    {
        Scalar { bits: NEG_INFINITY_BITS }
    }

    fn magnitude_bits(self) -> (m: u64)
        ensures
            m == self.magnitude(),
            m < SIGN_BIT,
    {
        if self.bits >= SIGN_BIT {
            self.bits - SIGN_BIT
        } else {
            self.bits
        }
    }

    pub fn is_nan(self) -> (r: bool)
        ensures
            r == self.nan(),
    {
        self.magnitude_bits() > INFINITY_BITS
    }

    pub fn is_finite(self) -> (r: bool)
        ensures
            r == self.finite(),
    {
        self.magnitude_bits() < INFINITY_BITS
    }

    /// Whether the scalar lies in `[low, high]`.
    pub fn within(self, low: Scalar, high: Scalar) -> (r: bool)
        ensures
            r == self.between(low, high),
    {
        low.le(self) && self.le(high)
    }

    /// The rank as a machine integer: the key by which scalars are sorted.
    pub fn key(self) -> (k: i64)
        ensures
            k == self.rank(),
    {
        let m: u64 = self.magnitude_bits();
        if self.bits >= SIGN_BIT {
            -(m as i64)
        } else {
            m as i64
        }
    }

    pub fn lt(self, other: Scalar) -> (r: bool)
        ensures
            r == self.precedes(other),
    {
        !self.is_nan() && !other.is_nan() && self.key() < other.key()
    }

    pub fn le(self, other: Scalar) -> (r: bool)
        ensures
            r == self.at_most(other),
    {
        !self.is_nan() && !other.is_nan() && self.key() <= other.key()
    }

    pub fn min(self, other: Scalar) -> (r: Scalar)
        ensures
            r == self.lower(other),
    {
        if self.is_nan() {
            other
        } else if other.is_nan() {
            self
        } else if other.key() < self.key() {
            other
        } else {
            self
        }
    }

    pub fn max(self, other: Scalar) -> (r: Scalar)
        ensures
            r == self.upper(other),
    {
        if self.is_nan() {
            other
        } else if other.is_nan() {
            self
        } else if other.key() > self.key() {
            other
        } else {
            self
        }
    }

    /// The magnitude of the scalar.
    pub fn abs(self) -> (r: Scalar)
        ensures
            r == self.absolute(),
            !r.negative(),
            r.magnitude() == self.magnitude(),
            r.nan() == self.nan(),
    {
        Scalar { bits: self.magnitude_bits() }
    }

    /// Holds the scalar to `[low, high]`; a NaN is left as it is. The bounds
    /// must be in order.
    pub fn clamp(self, low: Scalar, high: Scalar) -> (r: Scalar)
        requires
            low.at_most(high),
        ensures
            r == self.clamped(low, high),
    {
        if self.is_nan() {
            return self;
        }
        let k: i64 = clamp_key(self.key(), low.key(), high.key());
        if k == self.key() {
            self
        } else if self.key() < k {
            low
        } else {
            high
        }
    }

    /// The scalar of opposite sign and equal magnitude.
    pub fn neg(self) -> (r: Scalar)
        ensures
            r == self.negated(),
            r.magnitude() == self.magnitude(),
            r.negative() == !self.negative(),
            r.rank() == -self.rank(),
            r.nan() == self.nan(),
    {
        if self.bits >= SIGN_BIT {
            Scalar { bits: self.bits - SIGN_BIT }
        } else {
            Scalar { bits: self.bits + SIGN_BIT }
        }
    }
}

/// The order that `lt` and `le` decide is a total preorder on the scalars
/// that are not NaN, and `min` and `max` pick its bounds.
pub proof fn lemma_scalar_order(a: Scalar, b: Scalar, c: Scalar)
    requires
        !a.nan(),
        !b.nan(),
        !c.nan(),
    ensures
        a.at_most(a),
        a.at_most(b) || b.at_most(a),
        a.at_most(b) && b.at_most(c) ==> a.at_most(c),
        a.precedes(b) <==> !b.at_most(a),
        a.lower(b).at_most(a) && a.lower(b).at_most(b),
        a.at_most(a.upper(b)) && b.at_most(a.upper(b)),
        c.at_most(a) && c.at_most(b) ==> c.at_most(a.lower(b)),
        a.at_most(c) && b.at_most(c) ==> a.upper(b).at_most(c),
{
}

} // verus!
