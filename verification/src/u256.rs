//! Unsigned 256-bit integers, held as two 128-bit halves.
//!
//! Arithmetic is specified over the mathematical value `value()`, bit
//! operations over the bit predicate `bit(k)`.
use vstd::prelude::*;

verus! {

/// 2^64 as a mathematical integer.
pub open spec fn pow64() -> nat {
    18446744073709551616
}

/// 2^128 as a mathematical integer.
pub open spec fn pow128() -> nat {
    340282366920938463463374607431768211456nat
}

/// 2^256 as a mathematical integer.
pub open spec fn pow256() -> nat {
    115792089237316195423570985008687907853269984665640564039457584007913129639936nat
}

/// Bit `k` of a 128-bit word.
pub open spec fn u128_bit(x: u128, k: nat) -> bool {
    k < 128 && (x >> (k as u128)) & 1 == 1
}

/// Floor of the base-2 logarithm (0 for inputs below 2).
pub open spec fn floor_log2(x: nat) -> nat
    decreases x,
{
    if x < 2 {
        0
    } else {
        1 + floor_log2(x / 2)
    }
}

/// Two to the power of `e`, written out without an opaque definition.
pub open spec fn two_pow(e: nat) -> nat
    decreases e,
{
    if e == 0 {
        1
    } else {
        2 * two_pow((e - 1) as nat)
    }
}

pub proof fn lemma_two_pow_pos(e: nat)
    ensures
        two_pow(e) >= 1,
    decreases e,
{
    if e > 0 {
        lemma_two_pow_pos((e - 1) as nat);
    }
}

pub proof fn lemma_two_pow_adds(a: nat, b: nat)
    ensures
        two_pow(a + b) == two_pow(a) * two_pow(b),
    decreases a,
{
    if a == 0 {
        assert(two_pow(a) == 1);
        assert(a + b == b);
    } else {
        lemma_two_pow_adds((a - 1) as nat, b);
        assert(((a - 1) as nat + b) as nat == (a + b - 1) as nat);
        assert(two_pow(a + b) == 2 * two_pow((a + b - 1) as nat));
        assert(2 * (two_pow((a - 1) as nat) * two_pow(b)) == (2 * two_pow((a - 1) as nat))
            * two_pow(b)) by (nonlinear_arith);
    }
}

pub proof fn lemma_two_pow_monotone(a: nat, b: nat)
    requires
        a <= b,
    ensures
        two_pow(a) <= two_pow(b),
    decreases b,
{
    if a < b {
        lemma_two_pow_monotone(a, (b - 1) as nat);
        lemma_two_pow_pos((b - 1) as nat);
    }
}

/// `two_pow` agrees with vstd's `pow2`.
pub proof fn lemma_two_pow_is_pow2(e: nat)
    ensures
        two_pow(e) == vstd::arithmetic::power2::pow2(e),
    decreases e,
{
    if e == 0 {
        vstd::arithmetic::power2::lemma2_to64();
    } else {
        lemma_two_pow_is_pow2((e - 1) as nat);
        vstd::arithmetic::power2::lemma_pow2_unfold(e);
    }
}

/// Concrete powers of two used by the fixed-point code.
pub proof fn lemma_two_pow_values()
    ensures
        two_pow(16) == 65536,
        two_pow(31) == 2147483648,
        two_pow(32) == 4294967296,
        two_pow(63) == 9223372036854775808,
        two_pow(64) == 18446744073709551616,
        two_pow(96) == 79228162514264337593543950336,
        two_pow(127) == 170141183460469231731687303715884105728,
        two_pow(128) == 340282366920938463463374607431768211456int,
{
    assert(two_pow(16) == 65536) by {
        reveal_with_fuel(two_pow, 17);
    }
    lemma_two_pow_adds(16, 16);
    lemma_two_pow_adds(32, 32);
    lemma_two_pow_adds(64, 32);
    lemma_two_pow_adds(64, 64);
    assert(two_pow(31) == 2147483648) by {
        reveal_with_fuel(two_pow, 32);
    }
    assert(two_pow(63) == 9223372036854775808) by {
        lemma_two_pow_adds(31, 32);
    }
    assert(two_pow(127) == 170141183460469231731687303715884105728) by {
        lemma_two_pow_adds(63, 64);
    }
}

/// `floor_log2` brackets its argument between two consecutive powers of two.
pub proof fn lemma_floor_log2_bounds(x: nat)
    requires
        x >= 1,
    ensures
        two_pow(floor_log2(x)) <= x < two_pow(floor_log2(x) + 1),
    decreases x,
{
    if x >= 2 {
        lemma_floor_log2_bounds(x / 2);
    }
}

/// A value between two consecutive powers of two has that exponent as its logarithm.
pub proof fn lemma_floor_log2_unique(x: nat, e: nat)
    requires
        two_pow(e) <= x < two_pow(e + 1),
    ensures
        floor_log2(x) == e,
    decreases e,
{
    if e == 0 {
        assert(x < 2);
    } else {
        lemma_two_pow_pos((e - 1) as nat);
        assert(two_pow(e) == 2 * two_pow((e - 1) as nat));
        assert(two_pow(e + 1) == 2 * two_pow(e));
        lemma_floor_log2_unique(x / 2, (e - 1) as nat);
    }
}

proof fn lemma_mul_split(a0: int, a1: int, b0: int, b1: int)
    ensures
        (a1 * 18446744073709551616 + a0) * (b1 * 18446744073709551616 + b0) == a1 * b1
            * 340282366920938463463374607431768211456int + (a1 * b0 + a0 * b1) * 18446744073709551616
            + a0 * b0,
{
    assert((a1 * 18446744073709551616 + a0) * (b1 * 18446744073709551616 + b0) == a1 * b1
        * 340282366920938463463374607431768211456int + (a1 * b0 + a0 * b1) * 18446744073709551616 + a0
        * b0) by (nonlinear_arith);
}

proof fn lemma_small_product(x: int, y: int)
    requires
        0 <= x < 18446744073709551616,
        0 <= y < 18446744073709551616,
    ensures
        0 <= x * y <= 340282366920938463426481119284349108225,
{
    assert(0 <= x * y <= 18446744073709551615 * 18446744073709551615) by (nonlinear_arith)
        requires
            0 <= x < 18446744073709551616,
            0 <= y < 18446744073709551616,
    ;
}

proof fn lemma_mul_le_bound(x: int, y: int, bx: int, by_: int)
    requires
        0 <= x <= bx,
        0 <= y <= by_,
    ensures
        x * y <= bx * by_,
{
    assert(x * y <= bx * by_) by (nonlinear_arith)
        requires
            0 <= x <= bx,
            0 <= y <= by_,
    ;
}

/// Full 128 x 128 -> 256 bit product.
pub fn mul_wide(a: u128, b: u128) -> (r: U256)
    ensures
        r.value() == a * b,
{
    let a0 = a % 18446744073709551616;
    let a1 = a / 18446744073709551616;
    let b0 = b % 18446744073709551616;
    let b1 = b / 18446744073709551616;
    proof {
        lemma_small_product(a0 as int, b0 as int);
        lemma_small_product(a0 as int, b1 as int);
        lemma_small_product(a1 as int, b0 as int);
        lemma_small_product(a1 as int, b1 as int);
    }
    let p00 = a0 * b0;
    let p01 = a0 * b1;
    let p10 = a1 * b0;
    let p11 = a1 * b1;
    let mid = p00 / 18446744073709551616 + p01 % 18446744073709551616 + p10
        % 18446744073709551616;
    let lo = p00 % 18446744073709551616 + (mid % 18446744073709551616) * 18446744073709551616;
    let ghost hi_int: int = p11 + p01 / 18446744073709551616 + p10 / 18446744073709551616 + mid
        / 18446744073709551616;
    proof {
        lemma_mul_split(a0 as int, a1 as int, b0 as int, b1 as int);
        assert(a == a1 * 18446744073709551616 + a0);
        assert(b == b1 * 18446744073709551616 + b0);
        assert(a * b == hi_int * 340282366920938463463374607431768211456int + lo);
        lemma_mul_le_bound(
            a as int,
            b as int,
            340282366920938463463374607431768211455,
            340282366920938463463374607431768211455,
        );
    }
    let hi = p11 + p01 / 18446744073709551616 + p10 / 18446744073709551616 + mid
        / 18446744073709551616;
    U256 { lo, hi }
}

/// An unsigned 256-bit integer: `hi * 2^128 + lo`.
#[derive(Clone, Copy, PartialEq, Eq, Debug)]
pub struct U256 {
    pub lo: u128,
    pub hi: u128,
}

impl U256 {
    /// The mathematical value of the integer.
    pub open spec fn value(self) -> nat {
        self.hi as nat * pow128() + self.lo as nat
    }

    /// Bit `k` (0 is the least significant) of the integer.
    pub open spec fn bit(self, k: nat) -> bool {
        if k < 128 {
            u128_bit(self.lo, k)
        } else {
            u128_bit(self.hi, (k - 128) as nat)
        }
    }

    /// True when no bit below 256 is set.
    pub open spec fn no_bits(self) -> bool {
        forall|k: nat| k < 256 ==> !#[trigger] self.bit(k)
    }

    /// Index of the highest set bit (meaningful when some bit is set).
    pub open spec fn highest_bit(self) -> nat {
        choose|k: nat| k < 256 && self.bit(k) && forall|j: nat| k < j < 256 ==> !#[trigger] self.bit(j)
    }

    pub proof fn lemma_value_bound(self)
        ensures
            self.value() < pow256(),
    {
    }

    pub fn zero() -> (r: U256)
        ensures
            r.value() == 0,
            r.no_bits(),
    {
        let r = U256 { lo: 0, hi: 0 };
        proof {
            assert forall|k: nat| k < 256 implies !#[trigger] r.bit(k) by {
                if k < 128 {
                    lemma_u128_zero_bit(k);
                } else {
                    lemma_u128_zero_bit((k - 128) as nat);
                }
            }
        }
        r
    }

    pub fn from_u128(x: u128) -> (r: U256)
        ensures
            r.value() == x,
            r.lo == x,
            r.hi == 0,
    {
        U256 { lo: x, hi: 0 }
    }

    /// `self <= other` on the values.
    pub fn le(&self, other: &U256) -> (r: bool)
        ensures
            r == (self.value() <= other.value()),
    {
        self.hi < other.hi || (self.hi == other.hi && self.lo <= other.lo)
    }

    /// Product with a 128-bit factor, or `None` when it does not fit in 256 bits.
    pub fn checked_mul_u128(&self, b: u128) -> (r: Option<U256>)
        ensures
            r is Some <==> self.value() * b < pow256(),
            r matches Some(p) ==> p.value() == self.value() * b,
    {
        let p = mul_wide(self.lo, b);
        let q = mul_wide(self.hi, b);
        proof {
            assert(self.value() * b == (self.hi * b) * pow128() + self.lo * b) by (nonlinear_arith)
                requires
                    self.value() == self.hi as nat * pow128() + self.lo as nat,
                    pow128() == 340282366920938463463374607431768211456int,
            ;
            assert(self.value() * b == q.hi * pow256() + (q.lo + p.hi) * pow128() + p.lo);
        }
        if q.hi != 0 {
            proof {
                assert(q.hi * pow256() >= pow256()) by (nonlinear_arith)
                    requires
                        q.hi >= 1,
                ;
            }
            None
        } else {
            match q.lo.checked_add(p.hi) {
                Some(h) => Some(U256 { lo: p.lo, hi: h }),
                None => None,
            }
        }
    }

    /// Left shift by 64 bits (multiplication by 2^64); the result has to fit.
    pub fn shl(&self, k: u32) -> (r: U256)
        requires
            k == 64,
            self.value() * pow64() < pow256(),
        ensures
            r.value() == self.value() * two_pow(k as nat),
    {
        proof {
            lemma_two_pow_values();
            assert(self.hi < pow64()) by (nonlinear_arith)
                requires
                    self.value() * pow64() < pow256(),
                    self.value() == self.hi * pow128() + self.lo,
                    pow256() == pow128() * pow64() * pow64(),
                    pow128() == pow64() * pow64(),
                    pow64() > 0,
            ;
        }
        let lo = (self.lo % 18446744073709551616) * 18446744073709551616;
        let hi = self.hi * 18446744073709551616 + self.lo / 18446744073709551616;
        U256 { lo, hi }
    }

    /// Right shift by 32, 64 or 96 bits (division by the power of two).
    pub fn shr(&self, k: u32) -> (r: U256)
        requires
            k == 32 || k == 64 || k == 96,
        ensures
            r.value() == self.value() / two_pow(k as nat),
    {
        proof {
            lemma_two_pow_values();
        }
        if k == 32 {
            let hi = self.hi / 4294967296;
            let lo = (self.hi % 4294967296) * 79228162514264337593543950336 + self.lo
                / 4294967296;
            let r = U256 { lo, hi };
            proof {
                lemma_two_pow_values();
                lemma_shr_value(self.hi as int, self.lo as int, 4294967296, 79228162514264337593543950336);
            }
            r
        } else if k == 64 {
            let hi = self.hi / 18446744073709551616;
            let lo = (self.hi % 18446744073709551616) * 18446744073709551616 + self.lo
                / 18446744073709551616;
            let r = U256 { lo, hi };
            proof {
                lemma_two_pow_values();
                lemma_shr_value(self.hi as int, self.lo as int, 18446744073709551616, 18446744073709551616);
            }
            r
        } else {
            let hi = self.hi / 79228162514264337593543950336;
            let lo = (self.hi % 79228162514264337593543950336) * 4294967296 + self.lo
                / 79228162514264337593543950336;
            let r = U256 { lo, hi };
            proof {
                lemma_two_pow_values();
                lemma_shr_value(self.hi as int, self.lo as int, 79228162514264337593543950336, 4294967296);
            }
            r
        }
    }

    /// The value as a `u128`; the value has to fit.
    pub fn as_u128(&self) -> (r: u128)
        requires
            self.value() < pow128(),
        ensures
            r == self.value(),
    {
        self.lo
    }

    /// Floor of `n / d` as a `u128`, `None` when `d` is zero.
    /// The quotient has to fit in 128 bits.
    pub fn div_to_u128(n: &U256, d: &U256) -> (r: Option<u128>)
        requires
            d.value() == 0 || n.value() / d.value() < pow128(),
        ensures
            r is None <==> d.value() == 0,
            r matches Some(q) ==> q == n.value() / d.value(),
    {
        if d.hi == 0 && d.lo == 0 {
            return None;
        }
        let ghost nv = n.value() as int;
        let ghost dv = d.value() as int;
        proof {
            lemma_quotient_bound(nv, dv);
            lemma_two_pow_values();
        }
        let mut q: u128 = 0;
        let mut step: u128 = 170141183460469231731687303715884105728;
        let ghost mut e: nat = 127;
        loop
            invariant
                dv == d.value(),
                nv == n.value(),
                dv > 0,
                step == two_pow(e),
                e <= 127,
                q * dv <= nv,
                nv < (q + 2 * step) * dv,
                q + 2 * step <= pow128(),
            decreases step,
        {
            proof {
                lemma_two_pow_pos(e);
            }
            let cand = q + step;
            let fits = match d.checked_mul_u128(cand) {
                Some(p) => p.le(n),
                None => false,
            };
            proof {
                lemma_step_product(q as int, step as int, dv);
                if !fits {
                    if dv * cand < pow256() {
                        assert(cand * dv > nv);
                    } else {
                        n.lemma_value_bound();
                        assert(cand * dv > nv);
                    }
                }
            }
            if fits {
                q = cand;
            }
            assert(q * dv <= nv < (q + step) * dv);
            if step == 1 {
                proof {
                    lemma_quotient_exact(nv, dv, q as int);
                }
                return Some(q);
            }
            proof {
                assert(two_pow(e) == 2 * two_pow((e - 1) as nat));
                e = (e - 1) as nat;
            }
            step = step / 2;
        }
    }

    /// Flip bit `k` (`k < 256`).
    pub fn flip_bit(&mut self, k: u8)
        ensures
            forall|j: nat| j < 256 ==> #[trigger] final(self).bit(j) == (if j == k {
                !old(self).bit(j)
            } else {
                old(self).bit(j)
            }),
            final(self).value() == (if old(self).bit(k as nat) {
                old(self).value() - two_pow(k as nat)
            } else {
                old(self).value() + two_pow(k as nat) as int
            }),
    {
        let ghost old_self = *self;
        proof {
            lemma_two_pow_values();
        }
        if k < 128 {
            let m = 1u128 << k;
            proof {
                lemma_u128_one_shl(k as u128);
                lemma_u128_flip_value(old_self.lo, k as u128);
            }
            self.lo = self.lo ^ m;
            proof {
                assert forall|j: nat| j < 256 implies #[trigger] self.bit(j) == (if j == k {
                    !old_self.bit(j)
                } else {
                    old_self.bit(j)
                }) by {
                    if j < 128 {
                        lemma_u128_flip(old_self.lo, k as u128, j as u128);
                    }
                }
            }
        } else {
            let m = 1u128 << (k - 128);
            proof {
                lemma_u128_one_shl((k - 128) as u128);
                lemma_u128_flip_value(old_self.hi, (k - 128) as u128);
                lemma_two_pow_adds((k - 128) as nat, 128);
                assert(((k - 128) as nat + 128) as nat == k as nat);
            }
            self.hi = self.hi ^ m;
            proof {
                let d = two_pow((k - 128) as nat) as int;
                let h = old_self.hi as int;
                assert((h + d) * pow128() == h * pow128() + d * pow128()) by (nonlinear_arith);
                assert((h - d) * pow128() == h * pow128() - d * pow128()) by (nonlinear_arith);
                assert forall|j: nat| j < 256 implies #[trigger] self.bit(j) == (if j == k {
                    !old_self.bit(j)
                } else {
                    old_self.bit(j)
                }) by {
                    if j >= 128 {
                        lemma_u128_flip(old_self.hi, (k - 128) as u128, (j - 128) as u128);
                    }
                }
            }
        }
    }

    /// Whether bit `k` is set.
    pub fn is_bit_set(&self, k: u8) -> (r: bool)
        ensures
            r == self.bit(k as nat),
    {
        if k < 128 {
            proof {
                lemma_u128_test(self.lo, k as u128);
            }
            self.lo & (1u128 << k) != 0
        } else {
            proof {
                lemma_u128_test(self.hi, (k - 128) as u128);
            }
            self.hi & (1u128 << (k - 128)) != 0
        }
    }

    /// Number of leading zero bits: 256 when no bit is set, otherwise
    /// 255 minus the index of the highest set bit.
    pub fn leading_zeros(&self) -> (r: u32)
        ensures
            self.no_bits() ==> r == 256,
            !self.no_bits() ==> r < 256 && self.bit((255 - r) as nat) && forall|j: nat|
                (255 - r) < j < 256 ==> !#[trigger] self.bit(j),
    {
        let mut i: u32 = 256;
        while i > 0
            invariant
                i <= 256,
                forall|j: nat| i <= j < 256 ==> !#[trigger] self.bit(j),
            decreases i,
        {
            if self.is_bit_set((i - 1) as u8) {
                return 256 - i;
            }
            i = i - 1;
        }
        256
    }

    /// Index of the highest set bit, which has to exist.
    pub fn highest_set_bit(&self) -> (r: u8)
        requires
            !self.no_bits(),
        ensures
            self.bit(r as nat),
            forall|j: nat| r < j < 256 ==> !#[trigger] self.bit(j),
            r == self.highest_bit(),
    {
        let lz = self.leading_zeros();
        let r = (255 - lz) as u8;
        proof {
            self.lemma_highest_bit_unique(r as nat);
        }
        r
    }

    /// Index of the lowest set bit, which has to exist.
    pub fn lowest_set_bit(&self) -> (r: u8)
        requires
            !self.no_bits(),
        ensures
            self.bit(r as nat),
            forall|j: nat| j < r ==> !#[trigger] self.bit(j),
    {
        let mut i: u32 = 0;
        while i < 256
            invariant
                i <= 256,
                !self.no_bits(),
                forall|j: nat| j < i ==> !#[trigger] self.bit(j),
            decreases 256 - i,
        {
            if self.is_bit_set(i as u8) {
                return i as u8;
            }
            i = i + 1;
        }
        proof {
            assert(self.no_bits());
        }
        0
    }

    /// When some bit is set, `highest_bit` is set and no bit above it is.
    pub proof fn lemma_highest_bit_props(self)
        requires
            !self.no_bits(),
        ensures
            self.highest_bit() < 256,
            self.bit(self.highest_bit()),
            forall|j: nat| self.highest_bit() < j < 256 ==> !#[trigger] self.bit(j),
    {
        let k = choose|k: nat| k < 256 && self.bit(k);
        self.lemma_highest_from(k);
    }

    proof fn lemma_highest_from(self, i: nat)
        requires
            i < 256,
            self.bit(i),
        ensures
            self.highest_bit() < 256,
            self.bit(self.highest_bit()),
            forall|j: nat| self.highest_bit() < j < 256 ==> !#[trigger] self.bit(j),
        decreases 256 - i,
    {
        if forall|j: nat| i < j < 256 ==> !#[trigger] self.bit(j) {
            self.lemma_highest_bit_unique(i);
        } else {
            let j = choose|j: nat| i < j < 256 && self.bit(j);
            self.lemma_highest_from(j);
        }
    }

    pub proof fn lemma_highest_bit_unique(self, k: nat)
        requires
            k < 256,
            self.bit(k),
            forall|j: nat| k < j < 256 ==> !#[trigger] self.bit(j),
        ensures
            self.highest_bit() == k,
    {
        let h = self.highest_bit();
        assert(h < 256 && self.bit(h) && forall|j: nat| h < j < 256 ==> !#[trigger] self.bit(j));
        if h < k {
            assert(!self.bit(k));
        }
        if k < h {
            assert(!self.bit(h));
        }
    }
}

proof fn lemma_shr_value(hi: int, lo: int, d: int, m: int)
    requires
        0 <= hi < 340282366920938463463374607431768211456int,
        0 <= lo < 340282366920938463463374607431768211456int,
        d > 0,
        m > 0,
        d * m == 340282366920938463463374607431768211456int,
    ensures
        (hi / d) * 340282366920938463463374607431768211456int + ((hi % d) * m + lo / d) == (hi
            * 340282366920938463463374607431768211456int + lo) / d,
        (hi % d) * m + lo / d < 340282366920938463463374607431768211456int,
{
    assert((hi / d) * 340282366920938463463374607431768211456int + ((hi % d) * m + lo / d) == (hi
        * 340282366920938463463374607431768211456int + lo) / d && (hi % d) * m + lo / d
        < 340282366920938463463374607431768211456int) by (nonlinear_arith)
        requires
            0 <= hi,
            0 <= lo < 340282366920938463463374607431768211456int,
            d > 0,
            m > 0,
            d * m == 340282366920938463463374607431768211456int,
    {
        let q = hi / d;
        let s = hi % d;
        assert(hi == q * d + s && 0 <= s < d);
        let lq = lo / d;
        let ls = lo % d;
        assert(lo == lq * d + ls && 0 <= ls < d);
        assert(hi * 340282366920938463463374607431768211456int + lo == (q
            * 340282366920938463463374607431768211456int + s * m + lq) * d + ls);
        assert(lq * d <= lo);
        assert(lq < m);
        assert(s <= d - 1);
        assert(s * m <= (d - 1) * m);
    }
}

proof fn lemma_quotient_bound(n: int, d: int)
    requires
        n >= 0,
        d > 0,
        n / d < 340282366920938463463374607431768211456int,
    ensures
        n < (0 + 2 * 170141183460469231731687303715884105728) * d,
        0 * d <= n,
{
    assert(n < 340282366920938463463374607431768211456int * d) by (nonlinear_arith)
        requires
            n >= 0,
            d > 0,
            n / d < 340282366920938463463374607431768211456int,
    {
        assert(n == (n / d) * d + n % d);
        assert(n / d + 1 <= 340282366920938463463374607431768211456int);
        assert((n / d + 1) * d <= 340282366920938463463374607431768211456int * d);
    }
}

proof fn lemma_step_product(q: int, s: int, d: int)
    ensures
        (q + s) * d == q * d + s * d,
        (q + 2 * s) * d == (q + s) * d + s * d,
        (q + s) * d == d * (q + s),
{
    assert((q + s) * d == q * d + s * d) by (nonlinear_arith);
    assert((q + 2 * s) * d == (q + s) * d + s * d) by (nonlinear_arith);
    assert((q + s) * d == d * (q + s)) by (nonlinear_arith);
}

proof fn lemma_quotient_exact(n: int, d: int, q: int)
    requires
        d > 0,
        q * d <= n < (q + 1) * d,
    ensures
        q == n / d,
{
    assert(q == n / d) by (nonlinear_arith)
        requires
            d > 0,
            q * d <= n < (q + 1) * d,
    {
        let r = n - q * d;
        assert(0 <= r < d);
        assert(n == q * d + r);
        vstd::arithmetic::div_mod::lemma_fundamental_div_mod_converse(n, d, q, r);
    }
}

proof fn lemma_u128_zero_bit(k: nat)
    ensures
        !u128_bit(0, k),
{
    if k < 128 {
        let kk = k as u128;
        assert((0u128 >> kk) & 1 == 0) by (bit_vector);
    }
}

proof fn lemma_u128_flip(x: u128, k: u128, j: u128)
    requires
        k < 128,
        j < 128,
    ensures
        ((x ^ (1u128 << k)) >> j) & 1 == 1 <==> (if j == k {
            !((x >> j) & 1 == 1)
        } else {
            (x >> j) & 1 == 1
        }),
{
    assert(((x ^ (1u128 << k)) >> j) & 1 == 1 <==> (if j == k {
        !((x >> j) & 1 == 1)
    } else {
        (x >> j) & 1 == 1
    })) by (bit_vector)
        requires
            k < 128,
            j < 128,
    ;
}

/// `1 << k` is two to the power of `k`.
proof fn lemma_u128_one_shl(k: u128)
    requires
        k < 128,
    ensures
        (1u128 << k) as nat == two_pow(k as nat),
    decreases k,
{
    if k == 0 {
        assert(1u128 << 0u128 == 1u128) by (bit_vector);
    } else {
        lemma_u128_one_shl((k - 1) as u128);
        assert(1u128 << k == 2 * (1u128 << ((k - 1) as u128))) by (bit_vector)
            requires
                0 < k < 128,
        ;
    }
}

/// Flipping a bit subtracts its weight when it was set and adds it otherwise.
proof fn lemma_u128_flip_value(x: u128, k: u128)
    requires
        k < 128,
    ensures
        (x ^ (1u128 << k)) as int == (if (x >> k) & 1 == 1 {
            x - (1u128 << k)
        } else {
            x + (1u128 << k)
        }),
{
    assert((x ^ (1u128 << k)) as int == (if (x >> k) & 1 == 1 {
        x - (1u128 << k)
    } else {
        x + (1u128 << k)
    })) by (bit_vector)
        requires
            k < 128,
    ;
}

proof fn lemma_u128_test(x: u128, k: u128)
    requires
        k < 128,
    ensures
        (x & (1u128 << k) != 0) <==> ((x >> k) & 1 == 1),
{
    assert((x & (1u128 << k) != 0) <==> ((x >> k) & 1 == 1)) by (bit_vector)
        requires
            k < 128,
    ;
}

} // verus!
