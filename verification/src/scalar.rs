use vstd::prelude::*;

verus! {

/// The sign bit of a pattern.
pub const SIGN_BIT: u64 = 0x8000_0000_0000_0000;

/// The magnitude of infinity; larger magnitudes are no numbers.
pub const INFINITY_BITS: u64 = 0x7ff0_0000_0000_0000;

/// The pattern of zero.
pub const ZERO_BITS: u64 = 0;

/// The pattern of one.
pub const ONE_BITS: u64 = 0x3ff0_0000_0000_0000;

/// A real number in double precision as the caller computed it, held as its
/// 64-bit pattern (IEEE 754 binary64): the top bit is the sign, the next
/// eleven bits are the exponent, the lowest 52 the fraction. This crate does
/// no arithmetic on such numbers. It compares them, and for that the pattern
/// is enough: the 63 bits below the sign, read as an integer, grow with the
/// distance of the number from zero.
#[derive(Clone, Copy, Debug, PartialEq, Eq, Structural)]
pub struct Scalar {
    pub bits: u64,
}

impl Scalar {
    /// The pattern without its sign.
    pub open spec fn magnitude(self) -> int {
        if self.bits < SIGN_BIT {
            self.bits as int
        } else {
            self.bits - SIGN_BIT
        }
    }

    /// The pattern stands for a number, an infinity included.
    pub open spec fn is_number(self) -> bool {
        self.magnitude() <= INFINITY_BITS
    }

    /// The place of the pattern in the order of all patterns: the magnitude,
    /// counted downwards from zero where the sign is set. Both zeros have
    /// place 0.
    pub open spec fn rank(self) -> int {
        if self.bits < SIGN_BIT {
            self.magnitude()
        } else {
            -self.magnitude()
        }
    }

    /// `self < other` as numbers: false where either is no number.
    pub open spec fn below(self, other: Scalar) -> bool {
        self.is_number() && other.is_number() && self.rank() < other.rank()
    }

    /// `self <= other` as numbers: false where either is no number.
    pub open spec fn at_most(self, other: Scalar) -> bool {
        self.is_number() && other.is_number() && self.rank() <= other.rank()
    }

    /// The pattern with the sign cleared.
    pub open spec fn positive(self) -> Scalar {
        Scalar { bits: self.magnitude() as u64 }
    }

    /// The pattern with the sign turned round.
    pub open spec fn opposite(self) -> Scalar {
        if self.bits < SIGN_BIT {
            Scalar { bits: (self.bits + SIGN_BIT) as u64 }
        } else {
            Scalar { bits: (self.bits - SIGN_BIT) as u64 }
        }
    }

    /// The number with the given pattern.
    pub fn new(bits: u64) -> (scalar: Scalar)
        ensures
            scalar.bits == bits,
    {
        Scalar { bits }
    }

    /// Whether the pattern stands for a number.
    pub fn number(self) -> (yes: bool)
        ensures
            yes == self.is_number(),
    {
        if self.bits < SIGN_BIT {
            self.bits <= INFINITY_BITS
        } else {
            self.bits - SIGN_BIT <= INFINITY_BITS
        }
    }

    /// The rank, moved up so that it is never negative.
    pub fn key(self) -> (key: u64)
        ensures
            key == self.rank() + SIGN_BIT,
    {
        if self.bits < SIGN_BIT {
            self.bits + SIGN_BIT
        } else {
            SIGN_BIT - (self.bits - SIGN_BIT)
        }
    }

    /// `self < other`.
    pub fn less(self, other: Scalar) -> (yes: bool)
        ensures
            yes == self.below(other),
    {
        self.number() && other.number() && self.key() < other.key()
    }

    /// `self <= other`.
    pub fn less_eq(self, other: Scalar) -> (yes: bool)
        ensures
            yes == self.at_most(other),
    {
        self.number() && other.number() && self.key() <= other.key()
    }

    /// The number with the opposite sign.
    pub fn neg(self) -> (scalar: Scalar)
        ensures
            scalar == self.opposite(),
    {
        if self.bits < SIGN_BIT {
            Scalar { bits: self.bits + SIGN_BIT }
        } else {
            Scalar { bits: self.bits - SIGN_BIT }
        }
    }

    /// The absolute value.
    pub fn abs(self) -> (scalar: Scalar)
        ensures
            scalar == self.positive(),
    {
        if self.bits < SIGN_BIT {
            self
        } else {
            Scalar { bits: self.bits - SIGN_BIT }
        }
    }
}

/// The size of the fraction field of a pattern: two to the power 52.
pub const FRACTION_SPAN: u64 = 0x0010_0000_0000_0000;

/// The exponent field of the number one.
pub const EXPONENT_OF_ONE: u64 = 1023;

/// `m` halved `k` times, each time without the remainder.
pub open spec fn halved(m: nat, k: nat) -> nat
    decreases k,
{
    if k == 0 {
        m
    } else {
        halved(m, (k - 1) as nat) / 2
    }
}

impl Scalar {
    /// The exponent field: the eleven bits below the sign.
    pub open spec fn exponent(self) -> int {
        self.magnitude() / (FRACTION_SPAN as int)
    }

    /// The fraction field: the lowest 52 bits.
    pub open spec fn fraction(self) -> int {
        self.magnitude() % (FRACTION_SPAN as int)
    }

    /// The whole part of the number as an unsigned 32-bit integer. What is
    /// no number, below one or negative gives 0; what does not fit gives the
    /// largest integer. In between the number is its fraction field with a
    /// leading one bit, taken as an integer and halved once for every step
    /// that the exponent field stays below that of two to the power 52.
    pub open spec fn whole(self) -> nat {
        if !self.is_number() || self.bits >= SIGN_BIT || self.exponent() < EXPONENT_OF_ONE {
            0
        } else if self.exponent() >= EXPONENT_OF_ONE + 32 {
            0xffff_ffff
        } else {
            halved(
                (FRACTION_SPAN + self.fraction()) as nat,
                (EXPONENT_OF_ONE + 52 - self.exponent()) as nat,
            )
        }
    }

    /// Cuts the number down to its whole part.
    pub fn truncate(self) -> (whole: u32)
        ensures
            whole == self.whole(),
    {
        if !self.number() || self.bits >= SIGN_BIT {
            return 0;
        }
        let exponent: u64 = self.bits / FRACTION_SPAN;
        let fraction: u64 = self.bits % FRACTION_SPAN;
        if exponent < EXPONENT_OF_ONE {
            return 0;
        }
        if exponent >= EXPONENT_OF_ONE + 32 {
            return u32::MAX;
        }
        let steps: u64 = EXPONENT_OF_ONE + 52 - exponent;
        let mut value: u64 = FRACTION_SPAN + fraction;
        let mut done: u64 = 0;
        proof {
            lemma_halved_bound((FRACTION_SPAN + fraction) as nat, steps as nat);
        }
        while done < steps
            invariant
                done <= steps,
                value == halved((FRACTION_SPAN + fraction) as nat, done as nat),
            decreases steps - done,
        {
            value = value / 2;
            done += 1;
        }
        value as u32
    }
}

/// A number below two to the power 53 that is halved at least 21 times fits
/// in 32 bits.
pub proof fn lemma_halved_bound(m: nat, k: nat)
    requires
        m < 0x0020_0000_0000_0000,
        21 <= k,
    ensures
        halved(m, k) <= 0xffff_ffff,
{
    assert(halved(m, 21) <= 0xffff_ffff) by {
        reveal_with_fuel(halved, 22);
    }
    lemma_halved_falls(m, 21, k);
}

/// Halving more often never gives more.
pub proof fn lemma_halved_falls(m: nat, j: nat, k: nat)
    requires
        j <= k,
    ensures
        halved(m, k) <= halved(m, j),
    decreases k,
{
    if j < k {
        lemma_halved_falls(m, j, (k - 1) as nat);
    }
}

/// `x` held between `min` and `max`: `min` where `x` is below it, `max` where
/// `x` is above it, and `x` itself otherwise, also where it is no number.
pub open spec fn clamped(x: Scalar, min: Scalar, max: Scalar) -> Scalar {
    if x.below(min) {
        min
    } else if max.below(x) {
        max
    } else {
        x
    }
}

/// Holds `x` between `min` and `max`.
pub fn clamp(x: Scalar, min: Scalar, max: Scalar) -> (held: Scalar)
    ensures
        held == clamped(x, min, max),
{
    if x.less(min) {
        min
    } else if max.less(x) {
        max
    } else {
        x
    }
}

/// A number held between two bounds in order lies between them.
pub proof fn lemma_clamped_between(x: Scalar, min: Scalar, max: Scalar)
    requires
        x.is_number(),
        min.at_most(max),
    ensures
        min.at_most(clamped(x, min, max)),
        clamped(x, min, max).at_most(max),
        min.at_most(x) && x.at_most(max) ==> clamped(x, min, max) == x,
{
}

/// A half-open range of numbers: from `start` on and up to but without `end`.
#[derive(Clone, Copy, Debug, PartialEq, Eq, Structural)]
pub struct Interval {
    pub start: Scalar,
    pub end: Scalar,
}

impl Interval {
    /// `t` lies in the range. Nothing that is no number does.
    pub open spec fn holds(self, t: Scalar) -> bool {
        self.start.at_most(t) && t.below(self.end)
    }

    /// Whether `t` lies in the range.
    pub fn contains(&self, t: Scalar) -> (inside: bool)
        ensures
            inside == self.holds(t),
    {
        self.start.less_eq(t) && t.less(self.end)
    }
}

/// Numbers are in order: of two different numbers exactly one is below the
/// other, and below is transitive.
pub proof fn lemma_order(a: Scalar, b: Scalar, c: Scalar)
    requires
        a.is_number(),
        b.is_number(),
        c.is_number(),
    ensures
        !a.below(a),
        a.at_most(b) <==> !b.below(a),
        a.below(b) && b.below(c) ==> a.below(c),
        a.at_most(b) && b.at_most(a) <==> a.rank() == b.rank(),
        a.rank() == b.rank() <==> a == b || (a.magnitude() == 0 && b.magnitude() == 0),
{
}

/// Turning the sign round mirrors a number at zero, and doing it twice
/// gives the number back.
pub proof fn lemma_opposite(a: Scalar)
    ensures
        a.opposite().rank() == -a.rank(),
        a.opposite().magnitude() == a.magnitude(),
        a.opposite().is_number() == a.is_number(),
        a.opposite().opposite() == a,
{
}

} // verus!
