//! Floating-point settings as bit patterns.
//!
//! The library carries gains, rates and times without computing with them; the
//! few tests that it makes on them, and the step to double precision, work on
//! their IEEE 754 bits.

use vstd::arithmetic::power2::{
    lemma2_to64, lemma2_to64_rest, lemma_pow2_pos, lemma_pow2_unfold, pow2,
};
use vstd::prelude::*;

verus! {

/// A single-precision number by its bits.
#[derive(Clone, Copy, Debug, PartialEq, Eq, Structural)]
pub struct F32Bits {
    pub bits: u32,
}

/// A double-precision number by its bits.
#[derive(Clone, Copy, Debug, PartialEq, Eq, Structural)]
pub struct F64Bits {
    pub bits: u64,
}

/// The bits of 1.0.
pub const ONE: u32 = 0x3f80_0000;

/// The bits of -1.0.
pub const MINUS_ONE: u32 = 0xbf80_0000;

/// The bits of the largest number below 1.0.
pub const BELOW_ONE: u32 = 0x3f7f_ffff;

/// The bits of the machine epsilon.
pub const EPSILON: u32 = 0x3400_0000;

/// The bits of infinity; a larger magnitude is not a number.
pub const INFINITY: u32 = 0x7f80_0000;

/// The sign bit.
pub const SIGN: u32 = 0x8000_0000;

/// The bits of the double-precision 1.0.
pub const WIDE_ONE: u64 = 0x3ff0_0000_0000_0000;

/// The bits of the double-precision infinity.
pub const WIDE_INFINITY: u64 = 0x7ff0_0000_0000_0000;

/// The sign bit of a double-precision number.
pub const WIDE_SIGN: u64 = 0x8000_0000_0000_0000;

/// One more than the largest fraction of a single-precision number.
pub const FRACTION: u32 = 0x80_0000;

/// One more than the largest fraction of a double-precision number.
pub const WIDE_FRACTION: u64 = 0x10_0000_0000_0000;

/// What a fraction is multiplied by to become a double-precision one.
pub const FRACTION_STEP: u64 = 0x2000_0000;

/// The doublings that bring a number up to the leading bit of a double-precision
/// number, and what it then is.
pub open spec fn doubled_up(n: nat) -> (nat, nat)
    decreases 2 * WIDE_FRACTION - n,
{
    if n == 0 || n >= WIDE_FRACTION {
        (0, n)
    } else {
        let (times, top) = doubled_up(2 * n);
        (times + 1, top)
    }
}

/// Doubling ends within the fraction of a double-precision number.
pub proof fn doubling_ends(n: nat, k: nat)
    requires
        k <= 52,
        pow2(k) <= n < 2 * WIDE_FRACTION,
    ensures
        doubled_up(n).0 <= 52 - k,
        WIDE_FRACTION <= doubled_up(n).1 < 2 * WIDE_FRACTION,
    decreases 52 - k,
{
    lemma2_to64_rest();
    lemma_pow2_pos(k);
    if n < WIDE_FRACTION {
        assert(k < 52) by {
            if k == 52 {
                assert(pow2(52) == WIDE_FRACTION);
            }
        }
        lemma_pow2_unfold(k + 1);
        doubling_ends(2 * n, k + 1);
    }
}

impl F32Bits {
    /// The bits without the sign.
    pub open spec fn magnitude(self) -> u32 {
        if self.bits >= SIGN {
            (self.bits - SIGN) as u32
        } else {
            self.bits
        }
    }

    /// Nearer to 1.0 than the machine epsilon. Single-precision numbers are
    /// spaced so that only 1.0 and its lower neighbour are.
    pub open spec fn unity(self) -> bool {
        self.bits == ONE || self.bits == BELOW_ONE
    }

    /// A gain that changes what it is applied to: a number that differs from 1.0
    /// by the machine epsilon or more.
    pub open spec fn rescales(self) -> bool {
        self.magnitude() <= INFINITY && !self.unity()
    }

    /// Nearer to 0.0 than the machine epsilon.
    pub open spec fn negligible(self) -> bool {
        self.magnitude() < EPSILON
    }

    /// The number clamped to -1.0..=1.0; what is not a number stays so.
    pub open spec fn clamped(self) -> F32Bits {
        if self.magnitude() > ONE && self.magnitude() <= INFINITY {
            F32Bits {
                bits: if self.bits >= SIGN {
                    MINUS_ONE
                } else {
                    ONE
                },
            }
        } else {
            self
        }
    }

    /// A number, infinities included.
    pub open spec fn is_number(self) -> bool {
        self.magnitude() <= INFINITY
    }

    /// The magnitude of the same number in double precision. A number without a
    /// leading bit gets one.
    pub open spec fn wide_magnitude(self) -> int {
        let exponent = self.magnitude() / FRACTION;
        let fraction = self.magnitude() % FRACTION;
        if self.magnitude() == 0 {
            0
        } else if exponent == 0 {
            let (times, top) = doubled_up(fraction as nat);
            (926 - times) * WIDE_FRACTION + (top - WIDE_FRACTION)
        } else if exponent == 255 {
            WIDE_INFINITY + fraction * FRACTION_STEP
        } else {
            (exponent + 896) * WIDE_FRACTION + fraction * FRACTION_STEP
        }
    }

    /// The same number in double precision.
    pub open spec fn widened(self) -> F64Bits {
        F64Bits {
            bits: (self.wide_magnitude() + if self.bits >= SIGN {
                WIDE_SIGN as int
            } else {
                0
            }) as u64,
        }
    }

    /// A position that rises with the number; both zeros are at 0.
    pub open spec fn rank(self) -> int {
        if self.bits >= SIGN {
            -(self.bits - SIGN)
        } else {
            self.bits as int
        }
    }

    /// The number is below the other one.
    pub open spec fn less(self, other: F32Bits) -> bool {
        self.is_number() && other.is_number() && self.rank() < other.rank()
    }

    /// The number is not above the other one.
    pub open spec fn at_most(self, other: F32Bits) -> bool {
        self.is_number() && other.is_number() && self.rank() <= other.rank()
    }

    /// A number from 0.0 to 1.0.
    pub open spec fn in_unit(self) -> bool {
        self.is_number() && 0 <= self.rank() <= ONE
    }

    /// The number kept between two bounds; what is not a number stays so.
    pub open spec fn limited(self, min: F32Bits, max: F32Bits) -> F32Bits {
        if self.less(min) {
            min
        } else if max.less(self) {
            max
        } else {
            self
        }
    }

    /// A number that differs from 1.0 by more than the machine epsilon. The two
    /// numbers below 1.0 and the one above do not.
    pub open spec fn off_unity(self) -> bool {
        self.magnitude() <= INFINITY && !(ONE - 2 <= self.bits <= ONE + 1)
    }

    /// A number that differs from 0.0 by more than the machine epsilon.
    pub open spec fn off_zero(self) -> bool {
        EPSILON < self.magnitude() <= INFINITY
    }

    /// Whether the number is below the other one.
    pub fn is_below(self, other: F32Bits) -> (r: bool)
        ensures
            r == self.less(other),
    {
        let negative: bool = self.bits >= SIGN;
        let size: u32 = if negative {
            self.bits - SIGN
        } else {
            self.bits
        };
        let other_negative: bool = other.bits >= SIGN;
        let other_size: u32 = if other_negative {
            other.bits - SIGN
        } else {
            other.bits
        };
        if size > INFINITY || other_size > INFINITY {
            false
        } else if negative {
            if other_negative {
                other_size < size
            } else {
                size > 0 || other_size > 0
            }
        } else {
            !other_negative && size < other_size
        }
    }

    /// Whether the number is not above the other one.
    pub fn is_at_most(self, other: F32Bits) -> (r: bool)
        ensures
            r == self.at_most(other),
    {
        let size: u32 = if self.bits >= SIGN {
            self.bits - SIGN
        } else {
            self.bits
        };
        let other_size: u32 = if other.bits >= SIGN {
            other.bits - SIGN
        } else {
            other.bits
        };
        size <= INFINITY && other_size <= INFINITY && !other.is_below(self)
    }

    /// The same number in double precision.
    pub fn widen(self) -> (r: F64Bits)
        ensures
            r == self.widened(),
    {
        let negative: bool = self.bits >= SIGN;
        let magnitude: u32 = if negative {
            self.bits - SIGN
        } else {
            self.bits
        };
        let exponent: u64 = (magnitude / FRACTION) as u64;
        let fraction: u64 = (magnitude % FRACTION) as u64;
        let wide: u64 = if magnitude == 0 {
            0
        } else if exponent == 0 {
            let mut top: u64 = fraction;
            let mut place: u64 = 926;
            proof {
                lemma2_to64();
                doubling_ends(fraction as nat, 0);
            }
            while top < WIDE_FRACTION
                invariant
                    0 < top < 2 * WIDE_FRACTION,
                    place <= 926,
                    doubled_up(fraction as nat).0 <= 52,
                    doubled_up(fraction as nat).0 == 926 - place + doubled_up(top as nat).0,
                    doubled_up(fraction as nat).1 == doubled_up(top as nat).1,
                decreases 2 * WIDE_FRACTION - top,
            {
                top = 2 * top;
                place = place - 1;
            }
            place * WIDE_FRACTION + (top - WIDE_FRACTION)
        } else if exponent == 255 {
            WIDE_INFINITY + fraction * FRACTION_STEP
        } else {
            (exponent + 896) * WIDE_FRACTION + fraction * FRACTION_STEP
        };
        F64Bits {
            bits: if negative {
                wide + WIDE_SIGN
            } else {
                wide
            },
        }
    }

    /// Keep the number between two bounds.
    pub fn limit(self, min: F32Bits, max: F32Bits) -> (r: F32Bits)
        ensures
            r == self.limited(min, max),
    {
        if self.is_below(min) {
            min
        } else if max.is_below(self) {
            max
        } else {
            self
        }
    }

    /// Whether the number differs from 1.0 by more than the machine epsilon.
    pub fn is_off_unity(self) -> (r: bool)
        ensures
            r == self.off_unity(),
    {
        let magnitude: u32 = if self.bits >= SIGN {
            self.bits - SIGN
        } else {
            self.bits
        };
        magnitude <= INFINITY && !(ONE - 2 <= self.bits && self.bits <= ONE + 1)
    }

    /// Whether the number differs from 0.0 by more than the machine epsilon.
    pub fn is_off_zero(self) -> (r: bool)
        ensures
            r == self.off_zero(),
    {
        let magnitude: u32 = if self.bits >= SIGN {
            self.bits - SIGN
        } else {
            self.bits
        };
        EPSILON < magnitude && magnitude <= INFINITY
    }

    /// Whether the number is nearer to 1.0 than the machine epsilon.
    pub fn is_unity(self) -> (r: bool)
        ensures
            r == self.unity(),
    {
        self.bits == ONE || self.bits == BELOW_ONE
    }

    /// Whether the gain changes what it is applied to.
    pub fn is_rescaling(self) -> (r: bool)
        ensures
            r == self.rescales(),
    {
        let magnitude: u32 = if self.bits >= SIGN {
            self.bits - SIGN
        } else {
            self.bits
        };
        magnitude <= INFINITY && !self.is_unity()
    }

    /// Whether the number is nearer to 0.0 than the machine epsilon.
    pub fn is_negligible(self) -> (r: bool)
        ensures
            r == self.negligible(),
    {
        let magnitude: u32 = if self.bits >= SIGN {
            self.bits - SIGN
        } else {
            self.bits
        };
        magnitude < EPSILON
    }

    /// Clamp to -1.0..=1.0.
    pub fn clamp_unit(self) -> (r: F32Bits)
        ensures
            r == self.clamped(),
    {
        let negative: bool = self.bits >= SIGN;
        let magnitude: u32 = if negative {
            self.bits - SIGN
        } else {
            self.bits
        };
        if magnitude > ONE && magnitude <= INFINITY {
            F32Bits {
                bits: if negative {
                    MINUS_ONE
                } else {
                    ONE
                },
            }
        } else {
            self
        }
    }
}

impl F64Bits {
    /// A number, infinities included.
    pub open spec fn is_number(self) -> bool {
        (if self.bits >= WIDE_SIGN {
            self.bits - WIDE_SIGN
        } else {
            self.bits as int
        }) <= WIDE_INFINITY
    }

    /// A number that differs from 1.0 by more than the machine epsilon. The two
    /// numbers below 1.0 and the one above do not.
    pub open spec fn off_unity(self) -> bool {
        let magnitude = if self.bits >= WIDE_SIGN {
            self.bits - WIDE_SIGN
        } else {
            self.bits as int
        };
        magnitude <= WIDE_INFINITY && !(WIDE_ONE - 2 <= self.bits <= WIDE_ONE + 1)
    }

    /// Whether the number differs from 1.0 by more than the machine epsilon.
    pub fn is_off_unity(self) -> (r: bool)
        ensures
            r == self.off_unity(),
    {
        let magnitude: u64 = if self.bits >= WIDE_SIGN {
            self.bits - WIDE_SIGN
        } else {
            self.bits
        };
        magnitude <= WIDE_INFINITY && !(WIDE_ONE - 2 <= self.bits && self.bits <= WIDE_ONE + 1)
    }
}

} // verus!
