//! Binary64 values as bit patterns.
//!
//! Nothing in this library rounds. A number is held as the 64 bits of its
//! IEEE 754 encoding, and everything here is exact on that encoding: reading
//! the sign, flipping it, the IEEE ordering relations, and cutting a number
//! to an integer. Arithmetic that rounds is left to the caller.

use vstd::prelude::*;
use vstd::arithmetic::power2::{
    lemma2_to64, lemma2_to64_rest, lemma_pow2_pos, lemma_pow2_strictly_increases, lemma_pow2_unfold,
    pow2,
};

verus! {

/// The sign bit of a binary64 encoding.
pub const SIGN_BIT: u64 = 0x8000_0000_0000_0000;

/// The encoding of positive infinity; every larger magnitude is a NaN.
pub const INFINITY_BITS: u64 = 0x7FF0_0000_0000_0000;

/// The encoding of `1.0`.
pub const ONE_BITS: u64 = 0x3FF0_0000_0000_0000;

/// The encoding of the tolerance `0.00001` under which two numbers count as equal.
pub const EPSILON_BITS: u64 = 0x3EE4_F8B5_88E3_68F1;

/// Two to the 52nd: the weight of the exponent field, and the leading bit
/// of a normal number's significand.
pub const FRACTION_SPAN: u64 = 0x10_0000_0000_0000;

/// The exponent field of `1.0`: a field of `EXPONENT_BIAS + k` scales by two
/// to the `k`.
pub const EXPONENT_BIAS: u64 = 1023;

/// The exponent field at which the significand, read as an integer, is the
/// value.
pub const EXPONENT_WHOLE: u64 = 1075;

/// A binary64 number, stored as its encoding.
#[derive(Clone, Copy, Debug)]
pub struct Scalar {
    pub bits: u64,
}

impl Scalar {
    /// The encoding with the sign bit cleared.
    pub open spec fn magnitude_spec(self) -> u64 {
        if self.bits >= SIGN_BIT {
            (self.bits - SIGN_BIT) as u64
        } else {
            self.bits
        }
    }

    /// Whether the sign bit is set. True of `-0.0` as well.
    pub open spec fn is_sign_negative_spec(self) -> bool {
        self.bits >= SIGN_BIT
    }

    /// Whether the encoding is one of the NaNs.
    pub open spec fn is_nan_spec(self) -> bool {
        self.magnitude_spec() > INFINITY_BITS
    }

    /// An integer that orders the numbers as their values do.
    ///
    /// Among non-NaN encodings a larger magnitude is a larger absolute value,
    /// so the signed magnitude rises and falls with the value; both zeros
    /// map to 0.
    pub open spec fn order_key(self) -> int {
        if self.is_sign_negative_spec() {
            -(self.magnitude_spec() as int)
        } else {
            self.magnitude_spec() as int
        }
    }

    /// IEEE `<`: false whenever a NaN is involved.
    pub open spec fn lt_spec(self, other: Scalar) -> bool {
        &&& !self.is_nan_spec()
        &&& !other.is_nan_spec()
        &&& self.order_key() < other.order_key()
    }

    /// IEEE `<=`: false whenever a NaN is involved.
    pub open spec fn le_spec(self, other: Scalar) -> bool {
        &&& !self.is_nan_spec()
        &&& !other.is_nan_spec()
        &&& self.order_key() <= other.order_key()
    }

    /// IEEE `==`: the zeros are equal, a NaN equals nothing.
    pub open spec fn eq_spec(self, other: Scalar) -> bool {
        &&& !self.is_nan_spec()
        &&& !other.is_nan_spec()
        &&& self.order_key() == other.order_key()
    }

    /// The encoding with the sign bit flipped.
    pub open spec fn neg_spec(self) -> Scalar {
        if self.bits >= SIGN_BIT {
            Scalar { bits: (self.bits - SIGN_BIT) as u64 }
        } else {
            Scalar { bits: (self.bits + SIGN_BIT) as u64 }
        }
    }

    /// The encoding with the sign bit cleared.
    pub open spec fn abs_spec(self) -> Scalar {
        Scalar { bits: self.magnitude_spec() }
    }

    /// Whether the number is within the tolerance of zero: `|x| < 0.00001`.
    pub open spec fn near_zero_spec(self) -> bool {
        self.abs_spec().lt_spec(Scalar { bits: EPSILON_BITS })
    }

    /// The integer part of the absolute value of a number that is no NaN.
    ///
    /// A number with exponent field `e >= 1` is its significand, an integer
    /// from two to the 52nd up, times two to the `e - 1075`; below the bias
    /// the absolute value is under one. For an infinity this is an integer
    /// beyond 64 bits.
    pub open spec fn whole_part(self) -> nat {
        let e = self.magnitude_spec() / FRACTION_SPAN;
        let m = FRACTION_SPAN + self.magnitude_spec() % FRACTION_SPAN;
        if e < EXPONENT_BIAS {
            0
        } else if e <= EXPONENT_WHOLE {
            (m as nat) / pow2((EXPONENT_WHOLE - e) as nat)
        } else {
            (m as nat) * pow2((e - EXPONENT_WHOLE) as nat)
        }
    }

    /// The number as an unsigned index: its integer part, 0 for a NaN and
    /// for a negative number, the largest index for a number beyond it.
    pub open spec fn to_usize_spec(self) -> usize {
        if self.is_nan_spec() || self.is_sign_negative_spec() {
            0
        } else if self.whole_part() > usize::MAX {
            usize::MAX
        } else {
            self.whole_part() as usize
        }
    }

    /// The number as a signed offset: rounded toward zero, 0 for a NaN, the
    /// nearest offset for a number beyond the range.
    pub open spec fn to_isize_spec(self) -> isize {
        if self.is_nan_spec() {
            0
        } else if self.is_sign_negative_spec() {
            if -(self.whole_part() as int) < isize::MIN {
                isize::MIN
            } else {
                (-(self.whole_part() as int)) as isize
            }
        } else if self.whole_part() > isize::MAX {
            isize::MAX
        } else {
            self.whole_part() as isize
        }
    }

    pub fn from_bits(bits: u64) -> (s: Scalar)
        ensures
            s.bits == bits,
    {
        Scalar { bits }
    }

    pub fn to_bits(self) -> (bits: u64)
        ensures
            bits == self.bits,
    {
        self.bits
    }

    /// `0.0`
    pub fn zero() -> (s: Scalar)
        ensures
            s.bits == 0,
    {
        Scalar { bits: 0 }
    }

    /// `1.0`
    pub fn one() -> (s: Scalar)
        ensures
            s.bits == ONE_BITS,
    {
        Scalar { bits: ONE_BITS }
    }

    pub fn magnitude(self) -> (m: u64)
        ensures
            m == self.magnitude_spec(),
    {
        if self.bits >= SIGN_BIT {
            self.bits - SIGN_BIT
        } else {
            self.bits
        }
    }

    pub fn is_sign_negative(self) -> (r: bool)
        ensures
            r == self.is_sign_negative_spec(),
    {
        self.bits >= SIGN_BIT
    }

    pub fn is_nan(self) -> (r: bool)
        ensures
            r == self.is_nan_spec(),
    {
        self.magnitude() > INFINITY_BITS
    }

    pub fn neg(self) -> (r: Scalar)
        ensures
            r == self.neg_spec(),
    {
        if self.bits >= SIGN_BIT {
            Scalar { bits: self.bits - SIGN_BIT }
        } else {
            Scalar { bits: self.bits + SIGN_BIT }
        }
    }

    pub fn abs(self) -> (r: Scalar)
        ensures
            r == self.abs_spec(),
    {
        Scalar { bits: self.magnitude() }
    }

    pub fn lt(self, other: Scalar) -> (r: bool)
        ensures
            r == self.lt_spec(other),
    {
        if self.is_nan() || other.is_nan() {
            return false;
        }
        let a: u64 = self.magnitude();
        let b: u64 = other.magnitude();
        if self.is_sign_negative() {
            if other.is_sign_negative() {
                b < a
            } else {
                a != 0 || b != 0
            }
        } else {
            !other.is_sign_negative() && a < b
        }
    }

    pub fn le(self, other: Scalar) -> (r: bool)
        ensures
            r == self.le_spec(other),
    {
        if self.is_nan() || other.is_nan() {
            return false;
        }
        let a: u64 = self.magnitude();
        let b: u64 = other.magnitude();
        if self.is_sign_negative() {
            if other.is_sign_negative() {
                b <= a
            } else {
                true
            }
        } else {
            if other.is_sign_negative() {
                a == 0 && b == 0
            } else {
                a <= b
            }
        }
    }

    pub fn float_eq(self, other: Scalar) -> (r: bool)
        ensures
            r == self.eq_spec(other),
    {
        if self.is_nan() || other.is_nan() {
            return false;
        }
        let a: u64 = self.magnitude();
        let b: u64 = other.magnitude();
        if self.is_sign_negative() == other.is_sign_negative() {
            a == b
        } else {
            a == 0 && b == 0
        }
    }

    /// The integer part of the absolute value, or `None` where it does not
    /// fit 64 bits.
    fn whole(self) -> (r: Option<u64>)
        requires
            !self.is_nan_spec(),
        ensures
            match r {
                Some(v) => v == self.whole_part(),
                None => self.whole_part() > u64::MAX,
            },
    {
        let mag: u64 = self.magnitude();
        let e: u64 = mag / FRACTION_SPAN;
        let m: u64 = FRACTION_SPAN + mag % FRACTION_SPAN;
        if e < EXPONENT_BIAS {
            Some(0)
        } else if e <= EXPONENT_WHOLE {
            let p: u64 = power_of_two(EXPONENT_WHOLE - e);
            proof {
                lemma_pow2_pos((EXPONENT_WHOLE - e) as nat);
            }
            Some(m / p)
        } else if e - EXPONENT_WHOLE >= 12 {
            proof {
                let k = (e - EXPONENT_WHOLE) as nat;
                lemma2_to64();
                if k > 12 {
                    lemma_pow2_strictly_increases(12, k);
                }
                assert(pow2(k) >= 0x1000);
                assert((m as nat) * pow2(k) >= 0x10_0000_0000_0000 * 0x1000) by (nonlinear_arith)
                    requires
                        m >= 0x10_0000_0000_0000,
                        pow2(k) >= 0x1000,
                ;
            }
            None
        } else {
            let p: u64 = power_of_two(e - EXPONENT_WHOLE);
            proof {
                let k = (e - EXPONENT_WHOLE) as nat;
                lemma2_to64();
                if k < 11 {
                    lemma_pow2_strictly_increases(k, 11);
                }
                assert(p <= 0x800);
                assert(m * p <= 0x1f_ffff_ffff_ffff * 0x800) by (nonlinear_arith)
                    requires
                        m <= 0x1f_ffff_ffff_ffff,
                        p <= 0x800,
                ;
            }
            Some(m * p)
        }
    }

    /// The number as an unsigned index, as a cast gives it: the integer part,
    /// 0 for a NaN and for a negative number, the largest index for a number
    /// beyond it.
    pub fn to_usize(self) -> (r: usize)
        ensures
            r == self.to_usize_spec(),
    {
        if self.is_nan() || self.is_sign_negative() {
            return 0;
        }
        match self.whole() {
            None => usize::MAX,
            Some(v) => {
                if v > usize::MAX as u64 {
                    usize::MAX
                } else {
                    v as usize
                }
            },
        }
    }

    /// The number as a signed offset, as a cast gives it: rounded toward
    /// zero, 0 for a NaN, the nearest offset for a number beyond the range.
    pub fn to_isize(self) -> (r: isize)
        ensures
            r == self.to_isize_spec(),
    {
        if self.is_nan() {
            return 0;
        }
        let negative = self.is_sign_negative();
        match self.whole() {
            None => {
                if negative {
                    isize::MIN
                } else {
                    isize::MAX
                }
            },
            Some(v) => {
                if negative {
                    if v > isize::MAX as u64 {
                        isize::MIN
                    } else {
                        -(v as isize)
                    }
                } else {
                    if v > isize::MAX as u64 {
                        isize::MAX
                    } else {
                        v as isize
                    }
                }
            },
        }
    }

    pub fn near_zero(self) -> (r: bool)
        ensures
            r == self.near_zero_spec(),
    {
        self.abs().lt(Scalar { bits: EPSILON_BITS })
    }
}

/// Two to the `k`, for a `k` that leaves it within 64 bits.
fn power_of_two(k: u64) -> (p: u64)
    requires
        k < 64,
    ensures
        p == pow2(k as nat),
{
    let mut p: u64 = 1;
    let mut i: u64 = 0;
    proof {
        lemma2_to64();
    }
    while i < k
        invariant
            0 <= i <= k,
            k < 64,
            p == pow2(i as nat),
        decreases k - i,
    {
        proof {
            lemma_pow2_unfold((i + 1) as nat);
            lemma2_to64_rest();
            if i + 1 < 63 {
                lemma_pow2_strictly_increases((i + 1) as nat, 63);
            }
        }
        p = p * 2;
        i += 1;
    }
    p
}

/// Negating twice gives the encoding back.
pub proof fn lemma_neg_involution(s: Scalar)
    ensures
        s.neg_spec().neg_spec() == s,
{
}

/// Negation mirrors the order: it negates the key and keeps NaNs NaN.
pub proof fn lemma_neg_mirrors_order(s: Scalar)
    ensures
        s.neg_spec().order_key() == -s.order_key(),
        s.neg_spec().is_nan_spec() == s.is_nan_spec(),
{
}

/// `<=` is `<` or `==`, and `<` is transitive.
pub proof fn lemma_order_laws(a: Scalar, b: Scalar, c: Scalar)
    ensures
        a.le_spec(b) == (a.lt_spec(b) || a.eq_spec(b)),
        a.lt_spec(b) && b.lt_spec(c) ==> a.lt_spec(c),
        a.le_spec(b) && b.le_spec(c) ==> a.le_spec(c),
        !a.is_nan_spec() && !b.is_nan_spec() ==> a.le_spec(b) || b.lt_spec(a),
{
}

} // verus!
