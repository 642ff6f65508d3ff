//! IEEE 754 numbers held as their bit patterns.
//!
//! The library never computes with such numbers. It tells finite ones apart from the others,
//! orders them, and turns a 64-bit draw into a fraction of one.
use vstd::arithmetic::power2::*;
use vstd::prelude::*;

verus! {

/// The bits of positive infinity: every finite magnitude lies below, every NaN above.
pub const INFINITE: u64 = 0x7FF0_0000_0000_0000;

/// The sign bit.
pub const SIGN: u64 = 0x8000_0000_0000_0000;

/// A binary64 number.
#[derive(Clone, Copy, Debug)]
pub struct Float64 {
    pub bits: u64,
}

/// A binary32 number; the library only carries these.
#[derive(Clone, Copy, Debug)]
pub struct Float32 {
    pub bits: u32,
}

impl Float64 {
    /// The number without its sign, as bits.
    pub open spec fn magnitude(self) -> u64 {
        if self.bits >= SIGN {
            (self.bits - SIGN) as u64
        } else {
            self.bits
        }
    }

    pub open spec fn is_nan_spec(self) -> bool {
        self.magnitude() > INFINITE
    }

    pub open spec fn is_finite_spec(self) -> bool {
        self.magnitude() < INFINITE
    }

    /// The position of a number that is not NaN among all such numbers; both zeros are at 0.
    pub open spec fn rank(self) -> int {
        if self.bits >= SIGN {
            -(self.magnitude() as int)
        } else {
            self.magnitude() as int
        }
    }

    /// The order of the numbers: false wherever a NaN takes part.
    pub open spec fn less(self, other: Float64) -> bool {
        !self.is_nan_spec() && !other.is_nan_spec() && self.rank() < other.rank()
    }

    pub open spec fn less_or_equal(self, other: Float64) -> bool {
        !self.is_nan_spec() && !other.is_nan_spec() && self.rank() <= other.rank()
    }

    /// Numeric equality: NaN equals nothing, the two zeros equal each other.
    pub open spec fn equals(self, other: Float64) -> bool {
        !self.is_nan_spec() && !other.is_nan_spec() && self.rank() == other.rank()
    }

    pub open spec fn negated(self) -> Float64 {
        if self.bits >= SIGN {
            Float64 { bits: (self.bits - SIGN) as u64 }
        } else {
            Float64 { bits: (self.bits + SIGN) as u64 }
        }
    }

    pub open spec fn zero_spec() -> Float64 {
        Float64 { bits: 0 }
    }

    /// A measured quantity that cannot be: negative, infinite or NaN.
    pub open spec fn invalid_quantity_spec(self) -> bool {
        self.less(Self::zero_spec()) || !self.is_finite_spec()
    }

    pub fn from_bits(bits: u64) -> (r: Self)
        ensures
            r.bits == bits,
    {
        Float64 { bits }
    }

    pub fn zero() -> (r: Self)
        ensures
            r == Self::zero_spec(),
    {
        Float64 { bits: 0 }
    }

    pub fn infinity() -> (r: Self)
        ensures
            r.bits == INFINITE,
    {
        Float64 { bits: INFINITE }
    }

    fn magnitude_bits(self) -> (r: u64)
        ensures
            r == self.magnitude(),
    {
        if self.bits >= SIGN {
            self.bits - SIGN
        } else {
            self.bits
        }
    }

    pub fn is_nan(self) -> (r: bool)
        ensures
            r == self.is_nan_spec(),
    {
        self.magnitude_bits() > INFINITE
    }

    pub fn is_finite(self) -> (r: bool)
        ensures
            r == self.is_finite_spec(),
    {
        self.magnitude_bits() < INFINITE
    }

    fn rank_value(self) -> (r: i128)
        ensures
            r == self.rank(),
    {
        if self.bits >= SIGN {
            -(self.magnitude_bits() as i128)
        } else {
            self.magnitude_bits() as i128
        }
    }

    pub fn lt(self, other: Float64) -> (r: bool)
        ensures
            r == self.less(other),
    {
        !self.is_nan() && !other.is_nan() && self.rank_value() < other.rank_value()
    }

    pub fn le(self, other: Float64) -> (r: bool)
        ensures
            r == self.less_or_equal(other),
    {
        !self.is_nan() && !other.is_nan() && self.rank_value() <= other.rank_value()
    }

    pub fn same(self, other: Float64) -> (r: bool)
        ensures
            r == self.equals(other),
    {
        !self.is_nan() && !other.is_nan() && self.rank_value() == other.rank_value()
    }

    pub fn neg(self) -> (r: Self)
        ensures
            r == self.negated(),
    {
        if self.bits >= SIGN {
            Float64 { bits: self.bits - SIGN }
        } else {
            Float64 { bits: self.bits + SIGN }
        }
    }

    pub fn invalid_quantity(self) -> (r: bool)
        ensures
            r == self.invalid_quantity_spec(),
    {
        self.lt(Float64::zero()) || !self.is_finite()
    }
}

/// The number of binary digits of `x`.
pub open spec fn bit_len(x: nat) -> nat
    decreases x,
{
    if x == 0 {
        0
    } else {
        1 + bit_len(x / 2)
    }
}

/// `x / d` rounded to the nearest integer, a tie to the even one.
pub open spec fn nearest_even(x: nat, d: nat) -> nat {
    let q = x / d;
    let r = x % d;
    if 2 * r < d || (2 * r == d && q % 2 == 0) {
        q
    } else {
        q + 1
    }
}

/// `x` rounded to the 53 significant bits that a binary64 number holds.
pub open spec fn round53(x: nat) -> nat {
    if bit_len(x) <= 53 {
        x
    } else {
        let d = pow2((bit_len(x) - 53) as nat);
        nearest_even(x, d) * d
    }
}

/// The value of a finite, non-negative number in units of the smallest positive one.
pub open spec fn units(f: Float64) -> nat {
    let e = f.bits as nat / 0x10_0000_0000_0000;
    let m = f.bits as nat % 0x10_0000_0000_0000;
    if e == 0 {
        m
    } else {
        (0x10_0000_0000_0000 + m) * pow2((e - 1) as nat)
    }
}

proof fn lemma_bit_len_bounds(x: nat)
    requires
        x > 0,
    ensures
        bit_len(x) > 0,
        pow2((bit_len(x) - 1) as nat) <= x < pow2(bit_len(x)),
    decreases x,
{
    lemma2_to64();
    reveal_with_fuel(bit_len, 2);
    if x / 2 == 0 {
        assert(x == 1);
    } else {
        lemma_bit_len_bounds(x / 2);
        let l = bit_len(x);
        lemma_pow2_unfold(l);
        lemma_pow2_unfold((l - 1) as nat);
        assert(x == 2 * (x / 2) + x % 2);
    }
}

/// The number of binary digits of `x`.
fn bit_length(x: u64) -> (r: u32)
    ensures
        r == bit_len(x as nat),
        r <= 64,
        x > 0 ==> pow2((r - 1) as nat) <= x < pow2(r as nat),
{
    let mut y: u64 = x;
    let mut n: u32 = 0;
    proof {
        lemma2_to64();
        lemma2_to64_rest();
    }
    assert(x < pow2(64));
    while y > 0
        invariant
            n <= 64,
            n + bit_len(y as nat) == bit_len(x as nat),
            y < pow2((64 - n) as nat),
        decreases y,
    {
        proof {
            lemma2_to64();
            assert(n < 64);
            lemma_pow2_unfold((64 - n) as nat);
        }
        y = y / 2;
        n = n + 1;
    }
    proof {
        if x > 0 {
            lemma_bit_len_bounds(x as nat);
        }
    }
    n
}

/// Two to the power `k`.
fn power_of_two(k: u32) -> (r: u64)
    requires
        k < 64,
    ensures
        r == pow2(k as nat),
{
    let mut r: u64 = 1;
    let mut i: u32 = 0;
    proof {
        lemma2_to64();
    }
    while i < k
        invariant
            i <= k < 64,
            r == pow2(i as nat),
        decreases k - i,
    {
        proof {
            lemma_pow2_unfold((i + 1) as nat);
            if i + 1 < 63 {
                lemma_pow2_strictly_increases((i + 1) as nat, 63);
            }
            lemma2_to64_rest();
        }
        r = r * 2;
        i = i + 1;
    }
    r
}

proof fn lemma_scale(m: nat, a: nat, b: nat, c: nat)
    requires
        a + b == c,
    ensures
        (m * pow2(a)) * pow2(b) == m * pow2(c),
{
    lemma_pow2_adds(a, b);
    assert((m * pow2(a)) * pow2(b) == m * (pow2(a) * pow2(b))) by (nonlinear_arith);
}

/// The fraction `x / 2^64`, where `x` first becomes the nearest binary64 number.
pub fn unit_fraction(x: u64) -> (r: Float64)
    ensures
        r.is_finite_spec(),
        r.bits < SIGN,
        units(r) == round53(x as nat) * pow2(1010),
{
    proof {
        lemma2_to64();
        lemma2_to64_rest();
    }
    if x == 0 {
        assert(0 * pow2(1010) == 0);
        return Float64 { bits: 0 };
    }
    let hidden: u64 = 0x10_0000_0000_0000;
    let len: u32 = bit_length(x);
    let mut mant: u64;
    let mut exponent: u64 = len as u64 + 958;
    if len <= 53 {
        let d: u64 = power_of_two(53 - len);
        proof {
            let a = (53 - len) as nat;
            lemma_pow2_adds(a, len as nat);
            lemma_pow2_adds(a, (len - 1) as nat);
            lemma_pow2_pos(a);
            assert(pow2(a) * pow2((len - 1) as nat) <= d * x < pow2(a) * pow2(len as nat))
                by (nonlinear_arith)
                requires
                    d == pow2(a),
                    pow2(a) > 0,
                    pow2((len - 1) as nat) <= x < pow2(len as nat),
            ;
            assert(d * x == x * d) by (nonlinear_arith);
            lemma_scale(x as nat, a, (len + 957) as nat, 1010);
        }
        mant = x * d;
        assert(mant * pow2((exponent - 1) as nat) == round53(x as nat) * pow2(1010));
    } else {
        let d: u64 = power_of_two(len - 53);
        let q: u64 = x / d;
        let r: u64 = x % d;
        proof {
            let a = (len - 53) as nat;
            lemma_pow2_adds(a, 53);
            lemma_pow2_adds(a, 52);
            lemma_pow2_pos(a);
            if a < 11 {
                lemma_pow2_strictly_increases(a, 11);
            }
            assert(x == q * d + r && r < d) by {
                vstd::arithmetic::div_mod::lemma_fundamental_div_mod(x as int, d as int);
                assert(d * q == q * d) by (nonlinear_arith);
            }
            assert(0x10_0000_0000_0000 <= q < 0x20_0000_0000_0000) by (nonlinear_arith)
                requires
                    x == q * d + r,
                    r < d,
                    d * 0x10_0000_0000_0000 <= x < d * 0x20_0000_0000_0000,
            ;
        }
        mant = q;
        if !(2 * r < d || (2 * r == d && q % 2 == 0)) {
            mant = q + 1;
        }
        proof {
            assert(mant == nearest_even(x as nat, d as nat));
            lemma_scale(mant as nat, (len - 53) as nat, 1010, (len + 957) as nat);
        }
        assert(mant * pow2((exponent - 1) as nat) == round53(x as nat) * pow2(1010));
        if mant == 2 * hidden {
            proof {
                lemma_pow2_unfold(exponent as nat);
                assert(hidden * pow2(exponent as nat) == mant * pow2((exponent - 1) as nat))
                    by (nonlinear_arith)
                    requires
                        mant == 2 * hidden,
                        pow2(exponent as nat) == 2 * pow2((exponent - 1) as nat),
                ;
            }
            mant = hidden;
            exponent = exponent + 1;
        }
    }
    let bits: u64 = exponent * hidden + (mant - hidden);
    assert(bits as nat / 0x10_0000_0000_0000 == exponent);
    assert(bits as nat % 0x10_0000_0000_0000 == mant - hidden);
    Float64 { bits }
}

} // verus!
