//! Signed 256-bit integers and their scaling by powers of ten.
use vstd::prelude::*;

verus! {

/// Two to the power 64.
pub const B64: u128 = 0x1_0000_0000_0000_0000;

/// Two to the power 128.
pub open spec fn b128() -> int {
    0x1_0000_0000_0000_0000_0000_0000_0000_0000int
}

/// Two to the power 255: the magnitude of the smallest 256-bit integer.
pub open spec fn b255() -> int {
    0x8000_0000_0000_0000_0000_0000_0000_0000_0000_0000_0000_0000_0000_0000_0000_0000int
}

/// Ten to the power `k`.
pub open spec fn pow10(k: nat) -> int
    decreases k,
{
    if k == 0 {
        1
    } else {
        10 * pow10((k - 1) as nat)
    }
}

/// The absolute value.
pub open spec fn magnitude_of(v: int) -> int {
    if v < 0 {
        -v
    } else {
        v
    }
}

/// Whether a value is a 256-bit integer.
pub open spec fn fits_i256(v: int) -> bool {
    -b255() <= v < b255()
}

/// A 256-bit integer in two's complement: `high * 2^128 + low`.
#[derive(Clone, Copy, Debug, PartialEq, Eq, Structural)]
pub struct I256 {
    pub high: i128,
    pub low: u128,
}

impl View for I256 {
    type V = int;

    open spec fn view(&self) -> int {
        self.high * b128() + self.low
    }
}

/// An unsigned 256-bit integer: `high * 2^128 + low`.
#[derive(Clone, Copy)]
struct U256 {
    high: u128,
    low: u128,
}

impl U256 {
    spec fn value(self) -> int {
        self.high * b128() + self.low
    }

    /// Ten times the value, if it fits.
    fn times_ten(self) -> (r: Option<U256>)
        ensures
            r matches Some(p) ==> p.value() == 10 * self.value(),
            r is None ==> 10 * self.value() >= b128() * b128(),
    {
        let l0: u128 = (self.low % B64) * 10;
        let l1: u128 = (self.low / B64) * 10 + l0 / B64;
        let low: u128 = (l1 % B64) * B64 + l0 % B64;
        let carry: u128 = l1 / B64;
        assert(low + carry * b128() == 10 * self.low);
        match self.high.checked_mul(10) {
            Some(h10) => {
                match h10.checked_add(carry) {
                    Some(high) => Some(U256 { high, low }),
                    None => None,
                }
            },
            None => None,
        }
    }

    /// The quotient and remainder by ten.
    fn by_ten(self) -> (r: (U256, u128))
        ensures
            r.0.value() == self.value() / 10,
            r.1 == self.value() % 10,
    {
        let qh: u128 = self.high / 10;
        let t1: u128 = (self.high % 10) * B64 + self.low / B64;
        let t0: u128 = (t1 % 10) * B64 + self.low % B64;
        let low: u128 = (t1 / 10) * B64 + t0 / 10;
        let q = U256 { high: qh, low };
        let digit: u128 = t0 % 10;
        assert(self.value() == 10 * q.value() + digit);
        (q, digit)
    }
}

impl I256 {
    /// Every value lies in the 256-bit range.
    pub proof fn in_range(self)
        ensures
            fits_i256(self@),
    {
    }

    /// The sign extension of a 128-bit integer.
    pub fn from_i128(v: i128) -> (r: I256)
        ensures
            r@ == v,
    {
        if v < 0 {
            let complement: i128 = -(v + 1);
            I256 { high: -1, low: u128::MAX - complement as u128 }
        } else {
            I256 { high: 0, low: v as u128 }
        }
    }

    /// The value as a 128-bit integer, if it fits.
    pub fn to_i128(self) -> (r: Option<i128>)
        ensures
            r is Some <==> i128::MIN <= self@ <= i128::MAX,
            r matches Some(v) ==> v == self@,
    {
        if self.high == 0 && self.low <= i128::MAX as u128 {
            Some(self.low as i128)
        } else if self.high == -1 && self.low > i128::MAX as u128 {
            let complement: u128 = u128::MAX - self.low;
            Some(-(complement as i128) - 1)
        } else {
            None
        }
    }

    /// Whether the value is below zero.
    fn is_negative(self) -> (b: bool)
        ensures
            b == (self@ < 0),
    {
        self.high < 0
    }

    fn magnitude(self) -> (m: U256)
        ensures
            m.value() == magnitude_of(self@),
    {
        if self.high >= 0 {
            U256 { high: self.high as u128, low: self.low }
        } else {
            let complement: i128 = -(self.high + 1);
            if self.low == 0 {
                U256 { high: complement as u128 + 1, low: 0 }
            } else {
                U256 { high: complement as u128, low: (u128::MAX - self.low) + 1 }
            }
        }
    }

    fn from_magnitude(negative: bool, m: U256) -> (r: Option<I256>)
        ensures
            r is Some <==> fits_i256(if negative { -m.value() } else { m.value() }),
            r matches Some(v) ==> v@ == (if negative { -m.value() } else { m.value() }),
    {
        if !negative {
            if m.high <= i128::MAX as u128 {
                Some(I256 { high: m.high as i128, low: m.low })
            } else {
                None
            }
        } else if m.low == 0 {
            if m.high == 0 {
                Some(I256 { high: 0, low: 0 })
            } else if m.high - 1 <= i128::MAX as u128 {
                let h: i128 = (m.high - 1) as i128;
                Some(I256 { high: -h - 1, low: 0 })
            } else {
                None
            }
        } else if m.high <= i128::MAX as u128 {
            let h: i128 = m.high as i128;
            Some(I256 { high: -h - 1, low: (u128::MAX - m.low) + 1 })
        } else {
            None
        }
    }
}

/// `v / p` rounded to the nearest integer, halves away from zero. `p` is positive and even.
pub open spec fn div_half_away(v: int, p: int) -> int {
    let q = (magnitude_of(v) + p / 2) / p;
    if v < 0 {
        -q
    } else {
        q
    }
}

/// The largest power of ten, by exponent, that a 256-bit integer holds.
pub const MAX_POW10: u32 = 76;

/// The mantissa at scale `to_scale` of the decimal with mantissa `v` at scale `from_scale`.
/// Raising the scale is exact, and `None` where the result is no 256-bit integer. Lowering it
/// rounds halves away from zero. A change of scale by more than the largest power of ten is
/// `None` for every mantissa.
pub open spec fn rescaled(v: int, from_scale: int, to_scale: int) -> Option<int> {
    let delta = to_scale - from_scale;
    if delta > MAX_POW10 || -delta > MAX_POW10 {
        None
    } else if delta == 0 {
        Some(v)
    } else if delta > 0 {
        if fits_i256(v * pow10(delta as nat)) {
            Some(v * pow10(delta as nat))
        } else {
            None
        }
    } else {
        Some(div_half_away(v, pow10((-delta) as nat)))
    }
}

/// Powers of ten are positive and grow with their exponent.
pub proof fn pow10_grows(a: nat, b: nat)
    requires
        a <= b,
    ensures
        1 <= pow10(a) <= pow10(b),
    decreases b,
{
    if b > a {
        pow10_grows(a, (b - 1) as nat);
    } else if b > 0 {
        pow10_grows((a - 1) as nat, (b - 1) as nat);
    }
}

/// The powers of ten multiply by adding exponents.
pub proof fn pow10_adds(a: nat, b: nat)
    ensures
        pow10(a + b) == pow10(a) * pow10(b),
    decreases b,
{
    if b > 0 {
        pow10_adds(a, (b - 1) as nat);
        assert(pow10(a) * (10 * pow10((b - 1) as nat)) == 10 * (pow10(a) * pow10((b - 1) as nat)))
            by (nonlinear_arith);
    }
}

/// Dropping `k` digits and rounding the last dropped one up from five is division by `10^k`
/// rounded to nearest, halves up.
proof fn last_digit_rounds(n: int, k: nat)
    requires
        n >= 0,
        k >= 1,
    ensures
        (n + pow10(k) / 2) / pow10(k) == n / pow10(k) + (if (n / pow10((k - 1) as nat)) % 10 >= 5 {
            1int
        } else {
            0
        }),
{
    let t = pow10((k - 1) as nat);
    let p = pow10(k);
    pow10_grows(0, (k - 1) as nat);
    assert(p == 10 * t);
    let m = n / t;
    let r = n % t;
    vstd::arithmetic::div_mod::lemma_fundamental_div_mod(n, t);
    assert(0 <= r < t) by {
        vstd::arithmetic::div_mod::lemma_mod_bound(n, t);
    }
    let q = m / 10;
    let digit = m % 10;
    assert(n == q * p + digit * t + r) by (nonlinear_arith)
        requires
            n == t * m + r,
            m == 10 * q + digit,
            p == 10 * t,
    ;
    assert(0 <= digit * t + r < p) by (nonlinear_arith)
        requires
            0 <= digit <= 9,
            0 <= r < t,
            p == 10 * t,
    ;
    vstd::arithmetic::div_mod::lemma_fundamental_div_mod_converse(n, p, q, digit * t + r);
    let half = p / 2;
    assert(half == 5 * t);
    if digit >= 5 {
        assert(n + half == (q + 1) * p + ((digit - 5) * t + r)) by (nonlinear_arith)
            requires
                n == q * p + digit * t + r,
                half == 5 * t,
                p == 10 * t,
        ;
        assert(0 <= (digit - 5) * t + r < p) by (nonlinear_arith)
            requires
                5 <= digit <= 9,
                0 <= r < t,
                p == 10 * t,
        ;
        vstd::arithmetic::div_mod::lemma_fundamental_div_mod_converse(
            n + half,
            p,
            q + 1,
            (digit - 5) * t + r,
        );
    } else {
        assert(n + half == q * p + ((digit + 5) * t + r)) by (nonlinear_arith)
            requires
                n == q * p + digit * t + r,
                half == 5 * t,
                p == 10 * t,
        ;
        assert(0 <= (digit + 5) * t + r < p) by (nonlinear_arith)
            requires
                0 <= digit <= 4,
                0 <= r < t,
                p == 10 * t,
        ;
        vstd::arithmetic::div_mod::lemma_fundamental_div_mod_converse(
            n + half,
            p,
            q,
            (digit + 5) * t + r,
        );
    }
}

/// A product by a power of ten has the factor's sign and the product's magnitude.
proof fn scaled_magnitude(v: int, p: int)
    requires
        p >= 1,
    ensures
        magnitude_of(v * p) == magnitude_of(v) * p,
        v < 0 ==> v * p < 0,
        v >= 0 ==> v * p >= 0,
{
    assert(v < 0 ==> v * p < 0 && -(v * p) == (-v) * p) by (nonlinear_arith)
        requires
            p >= 1,
    ;
    assert(v >= 0 ==> v * p >= 0) by (nonlinear_arith)
        requires
            p >= 1,
    ;
}

impl I256 {
    /// The value times ten to the power `k`, if that is a 256-bit integer.
    fn times_pow10(self, k: u32) -> (r: Option<I256>)
        ensures
            r is Some <==> fits_i256(self@ * pow10(k as nat)),
            r matches Some(v) ==> v@ == self@ * pow10(k as nat),
    {
        let mut m: U256 = self.magnitude();
        let mut i: u32 = 0;
        while i < k
            invariant
                i <= k,
                m.value() == magnitude_of(self@) * pow10(i as nat),
            decreases k - i,
        {
            let ghost before = m.value();
            proof {
                assert(10 * before == magnitude_of(self@) * pow10((i + 1) as nat))
                    by (nonlinear_arith)
                    requires
                        before == magnitude_of(self@) * pow10(i as nat),
                        pow10((i + 1) as nat) == 10 * pow10(i as nat),
                ;
            }
            match m.times_ten() {
                Some(next) => {
                    m = next;
                },
                None => {
                    proof {
                        pow10_grows((i + 1) as nat, k as nat);
                        assert(magnitude_of(self@) * pow10(k as nat) >= magnitude_of(self@) * pow10(
                            (i + 1) as nat,
                        )) by (nonlinear_arith)
                            requires
                                magnitude_of(self@) >= 0,
                                pow10(k as nat) >= pow10((i + 1) as nat),
                        ;
                        scaled_magnitude(self@, pow10(k as nat));
                    }
                    return None;
                },
            }
            i = i + 1;
        }
        proof {
            pow10_grows(0, k as nat);
            scaled_magnitude(self@, pow10(k as nat));
        }
        I256::from_magnitude(self.is_negative(), m)
    }

    /// The value divided by ten to the power `k`, halves away from zero.
    fn over_pow10(self, k: u32) -> (r: I256)
        requires
            k >= 1,
        ensures
            r@ == div_half_away(self@, pow10(k as nat)),
    {
        let mut m: U256 = self.magnitude();
        let mut digit: u128 = 0;
        let mut i: u32 = 0;
        let ghost n = magnitude_of(self@);
        assert(n / 1 == n);
        while i < k
            invariant
                i <= k,
                n == magnitude_of(self@),
                n <= b255(),
                m.value() == n / pow10(i as nat),
                i >= 1 ==> digit == (n / pow10((i - 1) as nat)) % 10,
                i >= 1 ==> m.value() <= n / 10,
            decreases k - i,
        {
            proof {
                pow10_grows(0, i as nat);
                vstd::arithmetic::div_mod::lemma_div_denominator(n, pow10(i as nat), 10);
                assert(pow10(i as nat) * 10 == pow10((i + 1) as nat));
                if i == 0 {
                    assert(n / pow10(0) == n);
                }
            }
            let step = m.by_ten();
            m = step.0;
            digit = step.1;
            i = i + 1;
        }
        proof {
            last_digit_rounds(n, k as nat);
        }
        let ghost q = m.value();
        if digit >= 5 {
            if m.low == u128::MAX {
                m = U256 { high: m.high + 1, low: 0 };
            } else {
                m = U256 { high: m.high, low: m.low + 1 };
            }
        }
        match I256::from_magnitude(self.is_negative(), m) {
            Some(r) => r,
            None => {
                assert(false);
                self
            },
        }
    }

    /// The mantissa at `to_scale` of the decimal whose mantissa at `from_scale` this is.
    pub fn rescale(self, from_scale: i8, to_scale: i8) -> (r: Option<I256>)
        ensures
            match r {
                Some(v) => rescaled(self@, from_scale as int, to_scale as int) == Some(v@),
                None => rescaled(self@, from_scale as int, to_scale as int) is None,
            },
    {
        let delta: i32 = to_scale as i32 - from_scale as i32;
        if delta > MAX_POW10 as i32 || -delta > MAX_POW10 as i32 {
            None
        } else if delta == 0 {
            Some(self)
        } else if delta > 0 {
            self.times_pow10(delta as u32)
        } else {
            Some(self.over_pow10((-delta) as u32))
        }
    }
}

/// Raising the scale and lowering it back gives the mantissa unchanged.
pub proof fn widening_then_narrowing_is_identity(v: int, from_scale: int, to_scale: int)
    requires
        from_scale <= to_scale,
        rescaled(v, from_scale, to_scale) is Some,
    ensures
        rescaled(rescaled(v, from_scale, to_scale)->Some_0, to_scale, from_scale) == Some(v),
{
    let k = (to_scale - from_scale) as nat;
    if k > 0 {
        let p = pow10(k);
        pow10_grows(0, k);
        assert(p == 10 * pow10((k - 1) as nat));
        pow10_grows(0, (k - 1) as nat);
        scaled_magnitude(v, p);
        let m = magnitude_of(v);
        assert(m * p + p / 2 == p * m + p / 2) by (nonlinear_arith);
        vstd::arithmetic::div_mod::lemma_fundamental_div_mod_converse(m * p + p / 2, p, m, p / 2);
        assert(magnitude_of(v * p) == m * p);
    }
}

/// Rounding never moves a mantissa by more than half a unit of the new scale.
pub proof fn narrowing_error_is_at_most_half(v: int, from_scale: int, to_scale: int)
    requires
        to_scale < from_scale <= to_scale + MAX_POW10,
    ensures
        rescaled(v, from_scale, to_scale) is Some,
        ({
            let p = pow10((from_scale - to_scale) as nat);
            let r = rescaled(v, from_scale, to_scale)->Some_0;
            2 * magnitude_of(v - r * p) <= p
        }),
{
    let k = (from_scale - to_scale) as nat;
    let p = pow10(k);
    pow10_grows(0, (k - 1) as nat);
    assert(p == 10 * pow10((k - 1) as nat));
    let m = magnitude_of(v);
    let q = (m + p / 2) / p;
    vstd::arithmetic::div_mod::lemma_fundamental_div_mod(m + p / 2, p);
    vstd::arithmetic::div_mod::lemma_mod_bound(m + p / 2, p);
    assert(p * q == q * p && (-q) * p == -(q * p)) by (nonlinear_arith);
}

/// Ten to the power `k` is `k` factors of ten.
pub proof fn pow10_is_power(k: nat)
    ensures
        pow10(k) == vstd::arithmetic::power::pow(10, k),
    decreases k,
{
    reveal(vstd::arithmetic::power::pow);
    if k > 0 {
        pow10_is_power((k - 1) as nat);
    }
}

/// The bound of 256-bit integers is two to the power 255.
pub proof fn bound_is_power()
    ensures
        b255() == vstd::arithmetic::power2::pow2(255),
{
    vstd::arithmetic::power2::lemma2_to64();
    vstd::arithmetic::power2::lemma2_to64_rest();
    vstd::arithmetic::power2::lemma_pow2_adds(64, 64);
    vstd::arithmetic::power2::lemma_pow2_adds(128, 64);
    vstd::arithmetic::power2::lemma_pow2_adds(192, 63);
}

/// Whether `w` is `v` moved by `delta` decimal places: multiplied exactly, or divided and rounded
/// to the nearest, so that `v` lies within half a unit of `w`, and exactly halfway only below `w`
/// in magnitude.
pub open spec fn moved_by_places(v: int, delta: int, w: int) -> bool {
    if delta >= 0 {
        w == v * vstd::arithmetic::power::pow(10, delta as nat)
    } else {
        let p = vstd::arithmetic::power::pow(10, (-delta) as nat);
        if v >= 0 {
            w >= 0 && 2 * w * p - p <= 2 * v < 2 * w * p + p
        } else {
            w <= 0 && 2 * w * p - p < 2 * v <= 2 * w * p + p
        }
    }
}

/// Whether `v` can be moved by `delta` decimal places: by at most 76, and to a 256-bit integer.
pub open spec fn has_place(v: int, delta: int) -> bool {
    &&& -76 <= delta <= 76
    &&& delta > 0 ==> -vstd::arithmetic::power2::pow2(255) <= v * vstd::arithmetic::power::pow(
        10,
        delta as nat,
    ) < vstd::arithmetic::power2::pow2(255)
}

/// A rescaled mantissa is the mantissa moved by the difference of the scales. Rescaling succeeds
/// where that difference is at most 76 places and the result a 256-bit integer, and nowhere else.
pub proof fn rescaling_moves_by_places(v: int, from_scale: int, to_scale: int)
    requires
        fits_i256(v),
    ensures
        rescaled(v, from_scale, to_scale) matches Some(w) ==> moved_by_places(
            v,
            to_scale - from_scale,
            w,
        ),
        rescaled(v, from_scale, to_scale) is Some <==> has_place(v, to_scale - from_scale),
{
    bound_is_power();
    let delta = to_scale - from_scale;
    if delta >= 0 {
        pow10_is_power(delta as nat);
        assert(delta == 0 ==> v * pow10(delta as nat) == v) by {
            assert(pow10(0) == 1);
            assert(v * 1 == v);
        }
    } else {
        let k = (-delta) as nat;
        let p = pow10(k);
        pow10_is_power(k);
        pow10_grows(0, (k - 1) as nat);
        assert(p == 10 * pow10((k - 1) as nat));
        let m = magnitude_of(v);
        let q = (m + p / 2) / p;
        vstd::arithmetic::div_mod::lemma_fundamental_div_mod(m + p / 2, p);
        vstd::arithmetic::div_mod::lemma_mod_bound(m + p / 2, p);
        assert(2 * q * p == 2 * (p * q) && 2 * (-q) * p == -(2 * (p * q))) by (nonlinear_arith);
        vstd::arithmetic::div_mod::lemma_div_pos_is_pos(m + p / 2, p);
    }
}

} // verus!
