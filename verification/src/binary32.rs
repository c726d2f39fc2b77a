//! IEEE 754 binary32 numbers, held as their bit patterns.
//!
//! The renderer never computes with the shape's numbers: it stores them and
//! hands them to the shading stage bit for bit. The only numbers it produces
//! itself are the entries of the projection matrix, which this module
//! derives from integer pixel counts with round-to-nearest, ties-to-even.

use vstd::prelude::*;

verus! {

/// Bit pattern of `0.0`.
pub const ZERO_BITS: u32 = 0x0000_0000;

/// Bit pattern of `1.0`.
pub const ONE_BITS: u32 = 0x3f80_0000;

/// Bit pattern of `-1.0`.
pub const MINUS_ONE_BITS: u32 = 0xbf80_0000;

/// `2^k` as a real number, for any integer `k`.
pub open spec fn exp2(k: int) -> real
    decreases (if k >= 0 { k } else { -k }),
{
    if k == 0 {
        1real
    } else if k > 0 {
        2real * exp2(k - 1)
    } else {
        exp2(k + 1) / 2real
    }
}

/// `exp2(k + 1)` is twice `exp2(k)`, on both sides of zero.
pub proof fn lemma_exp2_succ(k: int)
    ensures
        exp2(k + 1) == 2real * exp2(k),
{
    if k < 0 {
        assert(exp2(k) == exp2(k + 1) / 2real);
    } else {
        assert(exp2(k + 1) == 2real * exp2(k + 1 - 1));
    }
}

/// Every power of two is positive.
pub proof fn lemma_exp2_positive(k: int)
    ensures
        exp2(k) > 0real,
    decreases (if k >= 0 { k } else { -k }),
{
    if k > 0 {
        lemma_exp2_positive(k - 1);
    } else if k < 0 {
        lemma_exp2_positive(k + 1);
    }
}

/// Exponents add when powers of two multiply.
pub proof fn lemma_exp2_add(a: int, b: int)
    ensures
        exp2(a + b) == exp2(a) * exp2(b),
    decreases (if b >= 0 { b } else { -b }),
{
    if b > 0 {
        lemma_exp2_add(a, b - 1);
        lemma_exp2_succ(a + b - 1);
        lemma_exp2_succ(b - 1);
        let x = exp2(a);
        let y = exp2(b - 1);
        assert(2real * (x * y) == x * (2real * y)) by (nonlinear_arith);
    } else if b < 0 {
        lemma_exp2_add(a, b + 1);
        lemma_exp2_succ(a + b);
        lemma_exp2_succ(b);
        let x = exp2(a);
        let y = exp2(b);
        assert(x * (2real * y) == 2real * (x * y)) by (nonlinear_arith);
    } else {
        assert(exp2(a) * 1real == exp2(a)) by (nonlinear_arith);
    }
}

/// Larger exponents give larger powers of two.
pub proof fn lemma_exp2_increases(a: int, b: int)
    requires
        a < b,
    ensures
        exp2(a) < exp2(b),
    decreases b - a,
{
    lemma_exp2_succ(b - 1);
    lemma_exp2_positive(b - 1);
    if a < b - 1 {
        lemma_exp2_increases(a, b - 1);
    }
}

/// An IEEE 754 binary32 number, identified by its encoding.
///
/// Equality compares encodings: it tells `+0` from `-0`, and a NaN pattern
/// equals itself.
#[derive(Clone, Copy, Debug, PartialEq, Eq, Structural)]
pub struct Binary32 {
    /// Sign (1 bit), biased exponent (8 bits), fraction (23 bits).
    pub bits: u32,
}

impl Binary32 {
    /// The number `0`.
    pub open spec fn zero() -> Binary32 {
        Binary32 { bits: ZERO_BITS }
    }

    /// The number `1`.
    pub open spec fn one() -> Binary32 {
        Binary32 { bits: ONE_BITS }
    }

    /// The number `-1`.
    pub open spec fn minus_one() -> Binary32 {
        Binary32 { bits: MINUS_ONE_BITS }
    }

    /// The sign bit is set.
    pub open spec fn negative(self) -> bool {
        self.bits >= 0x8000_0000
    }

    /// The biased exponent field.
    pub open spec fn exponent(self) -> int {
        (self.bits as int / 0x80_0000) % 0x100
    }

    /// The fraction field.
    pub open spec fn fraction(self) -> int {
        self.bits as int % 0x80_0000
    }

    /// Neither an infinity nor a NaN.
    pub open spec fn is_finite(self) -> bool {
        self.exponent() <= 254
    }

    /// Finite, with the implicit leading bit set.
    pub open spec fn is_normal(self) -> bool {
        1 <= self.exponent() <= 254
    }

    /// The integer that the fraction field stands for, leading bit included.
    pub open spec fn significand(self) -> int {
        if self.exponent() == 0 {
            self.fraction()
        } else {
            0x80_0000 + self.fraction()
        }
    }

    /// The distance to the next number of the same binade: `exp2` of the
    /// unbiased exponent less the 23 fraction bits.
    pub open spec fn ulp(self) -> real {
        if self.exponent() == 0 {
            exp2(-149)
        } else {
            exp2(self.exponent() - 150)
        }
    }

    /// The absolute value of a finite number.
    pub open spec fn magnitude(self) -> real {
        self.significand() as real * self.ulp()
    }

    /// The real number that a finite encoding stands for.
    pub open spec fn value(self) -> real {
        if self.negative() {
            -self.magnitude()
        } else {
            self.magnitude()
        }
    }

    /// `self` is a normal number whose magnitude is what `x > 0` rounds to
    /// under round-to-nearest, ties-to-even: `x` lies within half a unit in
    /// the last place (a quarter below the bottom of a binade, where the
    /// numbers underneath are twice as dense), and a midpoint goes to the
    /// even significand.
    pub open spec fn nearest_magnitude(self, x: real) -> bool {
        let v = self.magnitude();
        let u = self.ulp();
        &&& self.is_normal()
        &&& 2real * (x - v) <= u
        &&& 2real * (v - x) <= u
        &&& (self.fraction() == 0 && self.exponent() > 1) ==> 4real * (v - x) <= u
        &&& (2real * (x - v) == u || 2real * (v - x) == u) ==> self.fraction() % 2 == 0
    }

    /// `self` is what the real number `x` rounds to: `+0` for `x == 0`, else
    /// the normal number of the sign of `x` whose magnitude is nearest. No
    /// encoding `rounds` an `x` that is too small or too large for a normal
    /// number.
    pub open spec fn rounds(self, x: real) -> bool {
        if x > 0real {
            !self.negative() && self.nearest_magnitude(x)
        } else if x < 0real {
            self.negative() && self.nearest_magnitude(-x)
        } else {
            self.bits == ZERO_BITS
        }
    }

    /// The encoding without its sign bit.
    pub open spec fn magnitude_bits(self) -> int {
        if self.bits >= 0x8000_0000 {
            self.bits - 0x8000_0000
        } else {
            self.bits as int
        }
    }

    /// The same magnitude with the other sign.
    pub open spec fn negation(self) -> Binary32 {
        if self.bits >= 0x8000_0000 {
            Binary32 { bits: (self.bits - 0x8000_0000) as u32 }
        } else {
            Binary32 { bits: (self.bits + 0x8000_0000) as u32 }
        }
    }

    /// Wraps an encoding.
    pub fn from_bits(bits: u32) -> (r: Binary32)
        ensures
            r.bits == bits,
    {
        Binary32 { bits }
    }

    /// The encoding.
    pub fn to_bits(self) -> (bits: u32)
        ensures
            bits == self.bits,
    {
        self.bits
    }

    /// Whether `self` and `other` are finite and `self` is no greater than
    /// `other`. The two zeros are equal.
    pub fn le(self, other: Binary32) -> (r: bool)
        ensures
            r == (self.is_finite() && other.is_finite() && self.value() <= other.value()),
    {
        let a_negative: bool = self.bits >= 0x8000_0000;
        let b_negative: bool = other.bits >= 0x8000_0000;
        let a: u32 = if a_negative {
            self.bits - 0x8000_0000
        } else {
            self.bits
        };
        let b: u32 = if b_negative {
            other.bits - 0x8000_0000
        } else {
            other.bits
        };
        if a >= 0x7f80_0000 || b >= 0x7f80_0000 {
            return false;
        }
        proof {
            let zero = Binary32 { bits: ZERO_BITS };
            lemma_exp2_positive(-149);
            assert(zero.magnitude() == 0real) by (nonlinear_arith)
                requires
                    zero.magnitude() == 0 as real * exp2(-149),
            ;
            if a > 0 {
                lemma_magnitude_increases(zero, self);
            } else {
                assert(self.magnitude() == zero.magnitude());
            }
            if b > 0 {
                lemma_magnitude_increases(zero, other);
            } else {
                assert(other.magnitude() == zero.magnitude());
            }
            if a < b {
                lemma_magnitude_increases(self, other);
            } else if b < a {
                lemma_magnitude_increases(other, self);
            } else {
                assert(self.magnitude() == other.magnitude());
            }
        }
        if a_negative {
            if b_negative {
                b <= a
            } else {
                true
            }
        } else {
            if b_negative {
                a == 0 && b == 0
            } else {
                a <= b
            }
        }
    }

    /// Flips the sign.
    pub fn negated(self) -> (r: Binary32)
        ensures
            r == self.negation(),
    {
        if self.bits >= 0x8000_0000 {
            Binary32 { bits: self.bits - 0x8000_0000 }
        } else {
            Binary32 { bits: self.bits + 0x8000_0000 }
        }
    }
}

impl Binary32 {
    /// Converts a pixel count below `2^24`, all of which binary32 holds
    /// exactly.
    fn exact(n: u32) -> (r: Binary32)
        requires
            0 < n < 0x100_0000,
        ensures
            !r.negative(),
            127 <= r.exponent() <= 150,
            r.magnitude() == n as real,
    {
        let mut sig: u32 = n;
        let mut e: u32 = 150;
        while sig < 0x80_0000
            invariant
                0 < sig < 0x100_0000,
                e <= 150,
                sig as real * exp2(e as int - 150) == n as real,
                sig as real >= exp2(150 - e as int),
            decreases e,
        {
            proof {
                lemma_exp2_23();
                if e <= 127 {
                    if e < 127 {
                        lemma_exp2_increases(23, 150 - e as int);
                    }
                    assert(false);
                }
                lemma_exp2_succ(e as int - 151);
                lemma_exp2_succ(150 - e as int);
                let s = sig as real;
                let y = exp2(e as int - 151);
                assert((2real * s) * y == s * (2real * y)) by (nonlinear_arith);
            }
            sig = sig * 2;
            e = e - 1;
        }
        proof {
            lemma_exp2_23();
            if e < 127 {
                if e < 126 {
                    lemma_exp2_increases(24, 150 - e as int);
                }
                assert(false);
            }
        }
        let r = Binary32 { bits: e * 0x80_0000 + (sig - 0x80_0000) };
        assert(r.exponent() == e);
        assert(r.fraction() == sig - 0x80_0000);
        r
    }

    /// Converts a pixel count of `2^24` or more, which may fall between two
    /// binary32 numbers.
    fn rounded(n: u32) -> (r: Binary32)
        requires
            n >= 0x100_0000,
        ensures
            !r.negative(),
            151 <= r.exponent() <= 159,
            r.nearest_magnitude(n as real),
    {
        let mut q: u32 = n;
        let mut d: u32 = 1;
        let mut rem: u32 = 0;
        let mut e: u32 = 150;
        while q >= 0x100_0000
            invariant
                n as real == q as real * d as real + rem as real,
                rem < d <= 256,
                150 <= e <= 158,
                d as real == exp2(e as int - 150),
                q >= 0x80_0000,
                e == 150 ==> q == n,
            decreases q,
        {
            proof {
                let qr = q as real;
                let dr = d as real;
                assert(dr < 256real) by (nonlinear_arith)
                    requires
                        n as real == qr * dr + rem as real,
                        qr >= 0x100_0000 as real,
                        rem as real >= 0real,
                        dr >= 1real,
                        (n as real) < 0x1_0000_0000 as real,
                ;
                lemma_exp2_8();
                if e >= 158 {
                    assert(false);
                }
                if e < 157 {
                    lemma_exp2_increases(e as int - 149, 8);
                }
                lemma_exp2_succ(e as int - 150);
                let h = (q / 2) as real;
                if q % 2 == 1 {
                    assert(qr == 2real * h + 1real);
                    assert(h * (2real * dr) + (rem as real + dr) == qr * dr + rem as real)
                        by (nonlinear_arith)
                        requires
                            qr == 2real * h + 1real,
                    ;
                } else {
                    assert(qr == 2real * h);
                    assert(h * (2real * dr) + rem as real == qr * dr + rem as real)
                        by (nonlinear_arith)
                        requires
                            qr == 2real * h,
                    ;
                }
            }
            if q % 2 == 1 {
                rem = rem + d;
            }
            q = q / 2;
            d = d * 2;
            e = e + 1;
        }
        let up: bool = 2 * rem > d || (2 * rem == d && q % 2 == 1);
        let q2: u32 = if up {
            q + 1
        } else {
            q
        };
        let r = Binary32 { bits: e * 0x80_0000 + (q2 - 0x80_0000) };
        proof {
            let x = n as real;
            let qr = q as real;
            let dr = d as real;
            let rr = rem as real;
            lemma_exp2_succ(e as int - 150);
            if q2 == 0x100_0000 {
                assert(r.exponent() == e + 1);
                assert(r.fraction() == 0);
                let v = r.magnitude();
                assert(v == 0x80_0000 as real * (2real * dr));
                assert(v - x == dr - rr) by (nonlinear_arith)
                    requires
                        v == 0x80_0000 as real * (2real * dr),
                        x == qr * dr + rr,
                        qr == 0xff_ffff as real,
                ;
            } else {
                assert(r.exponent() == e);
                assert(r.fraction() == q2 - 0x80_0000);
                let v = r.magnitude();
                assert(v == q2 as real * dr);
                if up {
                    assert(v - x == dr - rr) by (nonlinear_arith)
                        requires
                            v == q2 as real * dr,
                            x == qr * dr + rr,
                            q2 as real == qr + 1real,
                    ;
                } else {
                    assert(x - v == rr) by (nonlinear_arith)
                        requires
                            v == q2 as real * dr,
                            x == qr * dr + rr,
                            q2 as real == qr,
                    ;
                }
            }
        }
        r
    }

    /// The binary32 number that the integer `n` converts to: `n` itself
    /// where binary32 holds it, else the nearer of its two neighbours, the
    /// one with the even significand when `n` lies midway.
    pub fn from_u32(n: u32) -> (r: Binary32)
        ensures
            r.rounds(n as real),
            !r.negative(),
            n > 0 ==> 127 <= r.exponent() <= 159,
            n < 0x100_0000 ==> r.value() == n as real,
    {
        if n == 0 {
            proof {
                lemma_constants();
            }
            Binary32 { bits: ZERO_BITS }
        } else if n < 0x100_0000 {
            let r = Self::exact(n);
            proof {
                lemma_exp2_positive(r.exponent() - 150);
            }
            r
        } else {
            Self::rounded(n)
        }
    }

    /// The quotient `2 / self`, rounded to nearest, for a positive normal
    /// number whose half and whose quotient are normal too. This is what
    /// dividing `1` by the half of `self` gives, the halving being exact.
    pub fn reciprocal_of_half(self) -> (r: Binary32)
        requires
            !self.negative(),
            2 <= self.exponent() <= 253,
        ensures
            !r.negative(),
            r.rounds(2real / self.value()),
            r.exponent() == 254 - self.exponent() || r.exponent() == 255 - self.exponent(),
    {
        let e: u32 = self.bits / 0x80_0000;
        let f: u32 = self.bits % 0x80_0000;
        proof {
            lemma_exp2_positive(e as int - 150);
            lemma_exp2_positive(104 - e as int);
            lemma_exp2_positive(105 - e as int);
            lemma_exp2_add(e as int - 150, 104 - e as int);
            lemma_exp2_succ(104 - e as int);
            lemma_exp2_47();
            lemma_exp2_add(-46, 47);
            lemma_exp2_succ(0);
            lemma_exp2_23();
        }
        let ghost s = exp2(e as int - 150);
        let ghost u = exp2(104 - e as int);
        let ghost x = 2real / self.value();
        proof {
            assert(self.value() == (0x80_0000 + f) as real * s);
            assert(self.value() > 0real && x > 0real) by (nonlinear_arith)
                requires
                    self.value() == (0x80_0000 + f) as real * s,
                    x == 2real / self.value(),
                    s > 0real,
            ;
            assert(s * u == exp2(-46));
            assert(exp2(-46) * 0x8000_0000_0000 as real == 2real);
        }
        if f == 0 {
            let r = Binary32 { bits: (255 - e) * 0x80_0000 };
            proof {
                assert(r.exponent() == 255 - e);
                assert(r.fraction() == 0);
                let v = r.magnitude();
                assert(v == 0x80_0000 as real * (2real * u));
                assert(x == v) by (nonlinear_arith)
                    requires
                        x == 2real / (0x80_0000 as real * s),
                        v == 0x80_0000 as real * (2real * u),
                        s * u * 0x8000_0000_0000 as real == 2real,
                        s > 0real,
                ;
                assert(r.nearest_magnitude(x));
            }
            r
        } else {
            let m: u64 = 0x80_0000 + f as u64;
            let q: u64 = 0x8000_0000_0000 / m;
            let rem: u64 = 0x8000_0000_0000 % m;
            proof {
                vstd::arithmetic::div_mod::lemma_fundamental_div_mod(0x8000_0000_0000, m as int);
                assert(0x80_0000 <= q <= 0xff_fffe) by (nonlinear_arith)
                    requires
                        0x8000_0000_0000 == m * q + rem,
                        0 <= rem < m,
                        0x80_0000 < m < 0x100_0000,
                ;
            }
            let up: bool = 2 * rem > m || (2 * rem == m && q % 2 == 1);
            let q2: u64 = if up {
                q + 1
            } else {
                q
            };
            let r = Binary32 { bits: (254 - e) * 0x80_0000 + (q2 - 0x80_0000) as u32 };
            proof {
                assert(r.exponent() == 254 - e);
                assert(r.fraction() == q2 - 0x80_0000);
                let v = r.magnitude();
                let mr = m as real;
                let qr = q as real;
                let rr = rem as real;
                assert(v == q2 as real * u);
                assert(0x8000_0000_0000 as real == mr * qr + rr) by (nonlinear_arith)
                    requires
                        0x8000_0000_0000 == m * q + rem,
                        mr == m as real,
                        qr == q as real,
                        rr == rem as real,
                ;
                assert((x - qr * u) * mr == rr * u) by (nonlinear_arith)
                    requires
                        x == 2real / (mr * s),
                        s * u * 0x8000_0000_0000 as real == 2real,
                        0x8000_0000_0000 as real == mr * qr + rr,
                        s > 0real,
                        mr > 0real,
                ;
                if up {
                    assert(2real * (v - x) <= u && v - x >= 0real && (2real * (v - x) == u ==> 2real
                        * rr == mr)) by (nonlinear_arith)
                        requires
                            (x - qr * u) * mr == rr * u,
                            v == (qr + 1real) * u,
                            2real * rr >= mr,
                            rr < mr,
                            mr > 0real,
                            u > 0real,
                    ;
                } else {
                    assert(2real * (x - v) <= u && x - v >= 0real && (2real * (x - v) == u ==> 2real
                        * rr == mr)) by (nonlinear_arith)
                        requires
                            (x - qr * u) * mr == rr * u,
                            v == qr * u,
                            2real * rr <= mr,
                            rr >= 0real,
                            mr > 0real,
                            u > 0real,
                    ;
                }
                assert(r.ulp() == u);
                assert(2real * rr == mr ==> 2 * rem == m);
                assert(r.nearest_magnitude(x));
            }
            r
        }
    }
}

/// Flipping the sign keeps the fields and negates the value.
pub proof fn lemma_negation(x: Binary32)
    ensures
        x.negation().negative() == !x.negative(),
        x.negation().exponent() == x.exponent(),
        x.negation().fraction() == x.fraction(),
        x.negation().magnitude() == x.magnitude(),
        x.negation().value() == -x.value(),
        x.negation().negation() == x,
{
}

/// A normal number is not zero.
pub proof fn lemma_normal_magnitude(x: Binary32)
    requires
        x.is_normal(),
    ensures
        x.magnitude() > 0real,
{
    lemma_exp2_positive(x.exponent() - 150);
    let m = x.significand() as real;
    let u = x.ulp();
    assert(m * u > 0real) by (nonlinear_arith)
        requires
            m >= 1real,
            u > 0real,
    ;
}

/// Among finite numbers, the encoding without its sign orders as the
/// magnitude does.
pub proof fn lemma_magnitude_increases(a: Binary32, b: Binary32)
    requires
        b.is_finite(),
        a.magnitude_bits() < b.magnitude_bits(),
    ensures
        0real <= a.magnitude() < b.magnitude(),
{
    let ea = a.exponent();
    let eb = b.exponent();
    let ua = a.ulp();
    let ub = b.ulp();
    let ma = a.significand() as real;
    let mb = b.significand() as real;
    assert(a.magnitude_bits() == ea * 0x80_0000 + a.fraction());
    assert(b.magnitude_bits() == eb * 0x80_0000 + b.fraction());
    lemma_exp2_positive(ea - 150);
    lemma_exp2_positive(eb - 150);
    lemma_exp2_positive(-149);
    assert(ma * ua >= 0real) by (nonlinear_arith)
        requires
            ma >= 0real,
            ua > 0real,
    ;
    if ea == eb {
        assert(ma * ua < mb * ub) by (nonlinear_arith)
            requires
                ma < mb,
                ua == ub,
                ua > 0real,
        ;
    } else {
        // `a` lies below the top of its binade, which is no higher than
        // the bottom of the binade of `b`.
        assert(ea < eb);
        lemma_exp2_23();
        let top = if ea == 0 {
            -126
        } else {
            ea - 126
        };
        lemma_exp2_add(24, ea - 150);
        lemma_exp2_add(23, -149);
        lemma_exp2_add(23, eb - 150);
        assert(ma * ua < exp2(top)) by (nonlinear_arith)
            requires
                ua > 0real,
                ea == 0 ==> ma < 0x80_0000 as real && 0x80_0000 as real * ua == exp2(top),
                ea != 0 ==> ma < 0x100_0000 as real && 0x100_0000 as real * ua == exp2(top),
        ;
        if top < eb - 127 {
            lemma_exp2_increases(top, eb - 127);
        }
        assert(exp2(eb - 127) <= mb * ub) by (nonlinear_arith)
            requires
                ub > 0real,
                mb >= 0x80_0000 as real,
                0x80_0000 as real * ub == exp2(eb - 127),
        ;
    }
}

/// The finite number after `a` in magnitude lies one unit in the last place
/// of `a` further from zero.
pub proof fn lemma_successor(a: Binary32, next: Binary32)
    requires
        next.is_finite(),
        next.magnitude_bits() == a.magnitude_bits() + 1,
    ensures
        next.magnitude() == a.magnitude() + a.ulp(),
        a.fraction() < 0x7f_ffff ==> next.fraction() == a.fraction() + 1 && next.exponent()
            == a.exponent(),
        a.fraction() == 0x7f_ffff ==> next.fraction() == 0 && next.exponent() == a.exponent() + 1,
        next.fraction() != 0 || next.exponent() == 1 ==> next.ulp() == a.ulp(),
        next.fraction() == 0 && next.exponent() > 1 ==> next.ulp() == 2real * a.ulp(),
{
    let e = a.exponent();
    let u = a.ulp();
    let m = a.significand() as real;
    assert(a.magnitude_bits() == e * 0x80_0000 + a.fraction());
    assert(next.magnitude_bits() == next.exponent() * 0x80_0000 + next.fraction());
    if a.fraction() < 0x7f_ffff {
        assert(next.exponent() == e);
        assert(next.fraction() == a.fraction() + 1);
        assert((m + 1real) * u == m * u + u) by (nonlinear_arith);
    } else {
        assert(next.exponent() == e + 1);
        assert(next.fraction() == 0);
        if e == 0 {
            assert(0x80_0000 as real * u == m * u + u) by (nonlinear_arith)
                requires
                    m == 0x7f_ffff as real,
            ;
        } else {
            lemma_exp2_succ(e - 150);
            assert(0x80_0000 as real * (2real * u) == m * u + u) by (nonlinear_arith)
                requires
                    m == 0xff_ffff as real,
            ;
        }
    }
}

/// Of two normal numbers that are both nearest to `x`, the first is not
/// the smaller in magnitude.
proof fn lemma_nearest_not_below(a: Binary32, b: Binary32, x: real)
    requires
        a.nearest_magnitude(x),
        b.nearest_magnitude(x),
    ensures
        a.magnitude_bits() >= b.magnitude_bits(),
{
    if a.magnitude_bits() < b.magnitude_bits() {
        let after = Binary32 { bits: (a.magnitude_bits() + 1) as u32 };
        let before = Binary32 { bits: (b.magnitude_bits() - 1) as u32 };
        assert(b.magnitude_bits() == b.exponent() * 0x80_0000 + b.fraction());
        assert(a.magnitude_bits() == a.exponent() * 0x80_0000 + a.fraction());
        assert(after.magnitude_bits() == a.magnitude_bits() + 1);
        assert(before.magnitude_bits() == b.magnitude_bits() - 1);
        lemma_exp2_positive(a.exponent() - 150);
        lemma_exp2_positive(b.exponent() - 150);
        lemma_successor(a, after);
        lemma_successor(before, b);
        let va = a.magnitude();
        let vb = b.magnitude();
        let ua = a.ulp();
        let gap = before.ulp();
        // `x` lies no further from `b` than half the way down to its
        // neighbour.
        assert(2real * (vb - x) <= gap);
        if after.magnitude_bits() < b.magnitude_bits() {
            if after.magnitude_bits() < before.magnitude_bits() {
                lemma_magnitude_increases(after, before);
            } else {
                assert(after.magnitude() == before.magnitude());
            }
            assert(false);
        } else {
            // `b` is the neighbour of `a`: `x` is their midpoint, and
            // their fractions cannot both be even.
            assert(before.magnitude() == va);
            assert(gap == ua);
            assert(2real * (x - va) == ua);
            assert(a.fraction() % 2 == 0);
            if b.fraction() != 0 {
                assert(2real * (vb - x) == b.ulp());
            }
            assert(false);
        }
    }
}

/// No positive number rounds to two magnitudes.
pub proof fn lemma_nearest_unique(a: Binary32, b: Binary32, x: real)
    requires
        a.nearest_magnitude(x),
        b.nearest_magnitude(x),
    ensures
        a.magnitude_bits() == b.magnitude_bits(),
{
    lemma_nearest_not_below(a, b, x);
    lemma_nearest_not_below(b, a, x);
}

/// No real number rounds to two encodings: `rounds` determines its result.
pub proof fn lemma_rounds_unique(a: Binary32, b: Binary32, x: real)
    requires
        a.rounds(x),
        b.rounds(x),
    ensures
        a == b,
{
    if x > 0real {
        lemma_nearest_unique(a, b, x);
    } else if x < 0real {
        lemma_nearest_unique(a, b, -x);
    }
}

/// Rounding to nearest moves a number by no more than the `2^24`th part of
/// what it becomes.
pub proof fn lemma_rounding_error(b: Binary32, x: real)
    requires
        b.nearest_magnitude(x),
    ensures
        b.magnitude() > 0real,
        0x100_0000 as real * (x - b.magnitude()) <= b.magnitude(),
        0x100_0000 as real * (b.magnitude() - x) <= b.magnitude(),
{
    lemma_normal_magnitude(b);
    lemma_exp2_positive(b.exponent() - 150);
    let m = b.significand() as real;
    let u = b.ulp();
    let v = b.magnitude();
    assert(0x80_0000 as real * u <= v) by (nonlinear_arith)
        requires
            v == m * u,
            m >= 0x80_0000 as real,
            u > 0real,
    ;
}

/// The three constants stand for `0`, `1` and `-1`.
pub proof fn lemma_constants()
    ensures
        Binary32::zero().value() == 0real,
        Binary32::one().value() == 1real,
        Binary32::minus_one().value() == -1real,
        Binary32::minus_one() == Binary32::one().negation(),
{
    lemma_exp2_23();
    lemma_exp2_add(-23, 23);
    let u = exp2(-23);
    assert(Binary32::one().ulp() == u);
    assert(Binary32::one().significand() == 0x80_0000);
    assert(0x80_0000 as real * u == 1real);
    assert(Binary32::zero().significand() == 0);
    assert(0 as real * exp2(-149) == 0real) by (nonlinear_arith);
}

/// `exp2(8)` is the widest spacing between neighbours below `2^32`.
pub proof fn lemma_exp2_8()
    ensures
        exp2(8) == 256real,
{
    reveal_with_fuel(exp2, 9);
}

/// `exp2(47)` is the dividend that yields a 24-bit quotient from a 24-bit
/// divisor.
pub proof fn lemma_exp2_47()
    ensures
        exp2(47) == 0x8000_0000_0000 as real,
{
    lemma_exp2_23();
    lemma_exp2_add(23, 24);
    assert(0x80_0000 as real * 0x100_0000 as real == 0x8000_0000_0000 as real);
}

/// `exp2(23)` is the weight of the implicit leading bit.
pub proof fn lemma_exp2_23()
    ensures
        exp2(23) == 0x80_0000 as real,
        exp2(24) == 0x100_0000 as real,
{
    reveal_with_fuel(exp2, 25);
}

} // verus!
