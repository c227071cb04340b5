//! Time on the media axis, held to the nanosecond or to the fraction of one, and
//! the conversions from and to the units in which containers and decoders count.

use vstd::prelude::*;

verus! {

/// Nanoseconds in a second.
pub const NANOS: i128 = 1_000_000_000;

/// A point or a span of time, in whole nanoseconds.
#[derive(Debug, Clone, Copy, PartialEq, Eq, Structural)]
pub struct Seconds {
    pub nanos: i128,
}

/// A point in time to the fraction of a nanosecond: `nanos` and `num / den`
/// nanoseconds.
#[derive(Debug, Clone, Copy, PartialEq, Eq, Structural)]
pub struct ExactTime {
    pub nanos: i128,
    pub num: u64,
    pub den: u64,
}

/// The unit of a stream's timestamps: `num / den` seconds, as the container
/// announces it. A denominator under one counts as one.
#[derive(Debug, Clone, Copy, PartialEq, Eq, Structural)]
pub struct TimeBase {
    pub num: i32,
    pub den: i32,
}

/// A fraction.
#[derive(Debug, Clone, Copy, PartialEq, Eq, Structural)]
pub struct Ratio {
    pub num: i64,
    pub den: i64,
}

/// The `i128` nearest to `x`.
pub open spec fn saturated(x: int) -> int {
    if x > i128::MAX {
        i128::MAX as int
    } else if x < i128::MIN {
        i128::MIN as int
    } else {
        x
    }
}

/// The `i64` nearest to `x`.
pub open spec fn saturated64(x: int) -> int {
    if x > i64::MAX {
        i64::MAX as int
    } else if x < i64::MIN {
        i64::MIN as int
    } else {
        x
    }
}

/// `a / b` with the fraction dropped, as a cast to an integer drops it.
pub open spec fn truncated_div(a: int, b: int) -> int {
    if a >= 0 {
        a / b
    } else {
        -((-a) / b)
    }
}

/// The largest integer not above `a / b`.
pub fn floor_div(a: i128, b: i128) -> (r: i128)
    requires
        b > 0,
    ensures
        r == (a as int) / (b as int),
{
    if a >= 0 {
        a / b
    } else {
        // -1 - (-1 - a) / b: neither step leaves the range.
        let q: i128 = (-1 - a) / b;
        proof {
            let x = (-1 - a) as int;
            vstd::arithmetic::div_mod::lemma_fundamental_div_mod(x, b as int);
            let m = x % b as int;
            assert(a as int == b * (-1 - q) + (b - 1 - m)) by (nonlinear_arith)
                requires
                    x == -1 - a,
                    x == b * q + m,
            ;
            vstd::arithmetic::div_mod::lemma_fundamental_div_mod_converse(
                a as int,
                b as int,
                -1 - q,
                b - 1 - m,
            );
            assert(q <= x) by (nonlinear_arith)
                requires
                    x >= 0,
                    q == x / (b as int),
                    b > 0,
            ;
        }
        -1 - q
    }
}

/// `a + b`, at the end of the range where it would leave it.
pub fn saturating_sum(a: i128, b: i128) -> (r: i128)
    ensures
        r == saturated(a + b),
{
    if b >= 0 {
        if a > i128::MAX - b {
            i128::MAX
        } else {
            a + b
        }
    } else {
        if a < i128::MIN - b {
            i128::MIN
        } else {
            a + b
        }
    }
}

/// `a * b`, exactly.
pub fn product(a: usize, b: usize) -> (r: u128)
    ensures
        r == a * b,
        r <= 0xffff_ffff_ffff_ffff * 0xffff_ffff_ffff_ffff,
{
    assert(0 <= a * b <= 0xffff_ffff_ffff_ffff * 0xffff_ffff_ffff_ffff) by (nonlinear_arith)
        requires
            0 <= a <= 0xffff_ffff_ffff_ffff,
            0 <= b <= 0xffff_ffff_ffff_ffff,
    ;
    a as u128 * b as u128
}

/// The `i64` nearest to `x`.
pub fn clamp64(x: i128) -> (r: i64)
    ensures
        r == saturated64(x as int),
{
    if x > i64::MAX as i128 {
        i64::MAX
    } else if x < i64::MIN as i128 {
        i64::MIN
    } else {
        x as i64
    }
}

impl TimeBase {
    /// The denominator that counts.
    pub open spec fn divisor(self) -> int {
        if self.den < 1 {
            1
        } else {
            self.den as int
        }
    }

    /// `ticks` of this unit, in nanoseconds.
    pub open spec fn nanos(self, ticks: int) -> int {
        (ticks * self.num * 1_000_000_000) / self.divisor()
    }

    /// `ticks` of this unit, counted from `start`, to the fraction.
    pub open spec fn exact(self, ticks: int, start: Seconds) -> ExactTime {
        ExactTime::of(
            self.nanos(ticks) - start.nanos,
            (ticks * self.num * 1_000_000_000) % self.divisor(),
            self.divisor(),
        )
    }

    /// `ticks` of this unit, counted from `start`, to the fraction.
    pub fn time_since(self, ticks: i64, start: Seconds) -> (r: ExactTime)
        ensures
            r.wf(),
            r == self.exact(ticks as int, start),
    {
        let whole = self.seconds(ticks);
        let den: i128 = if self.den < 1 {
            1
        } else {
            self.den as i128
        };
        let t: i128 = ticks as i128;
        let n: i128 = self.num as i128;
        assert(-0x4000_0000_0000_0000_0000_0000 <= t * n <= 0x4000_0000_0000_0000_0000_0000)
            by (nonlinear_arith)
            requires
                -0x8000_0000_0000_0000 <= t <= 0x7fff_ffff_ffff_ffff,
                -0x8000_0000 <= n <= 0x7fff_ffff,
        ;
        let scaled: i128 = t * n * NANOS;
        proof {
            vstd::arithmetic::div_mod::lemma_fundamental_div_mod(scaled as int, den as int);
            vstd::arithmetic::div_mod::lemma_mod_bound(scaled as int, den as int);
            assert(whole.nanos * den == den * whole.nanos) by (nonlinear_arith);
        }
        let num: u64 = (scaled - whole.nanos * den) as u64;
        ExactTime {
            nanos: whole.minus(start).nanos,
            num,
            den: if num == 0 {
                1
            } else {
                den as u64
            },
        }
    }

    /// `ticks` of this unit.
    pub fn seconds(self, ticks: i64) -> (r: Seconds)
        ensures
            r.nanos == self.nanos(ticks as int),
            -0x1000_0000_0000_0000_0000_0000_0000_0000 <= r.nanos
                <= 0x1000_0000_0000_0000_0000_0000_0000_0000,
    {
        let den: i128 = if self.den < 1 {
            1
        } else {
            self.den as i128
        };
        let t: i128 = ticks as i128;
        let n: i128 = self.num as i128;
        assert(-0x4000_0000_0000_0000_0000_0000 <= t * n <= 0x4000_0000_0000_0000_0000_0000)
            by (nonlinear_arith)
            requires
                -0x8000_0000_0000_0000 <= t <= 0x7fff_ffff_ffff_ffff,
                -0x8000_0000 <= n <= 0x7fff_ffff,
        ;
        let scaled: i128 = t * n * NANOS;
        let q: i128 = floor_div(scaled, den);
        proof {
            assert(-0x1000_0000_0000_0000_0000_0000_0000_0000 <= q
                <= 0x1000_0000_0000_0000_0000_0000_0000_0000) by (nonlinear_arith)
                requires
                    q == (scaled as int) / (den as int),
                    den >= 1,
                    -0x1000_0000_0000_0000_0000_0000_0000_0000 <= scaled
                        <= 0x1000_0000_0000_0000_0000_0000_0000_0000,
            ;
        }
        Seconds { nanos: q }
    }
}

impl Seconds {
    /// `micros` millionths of a second.
    pub fn from_micros(micros: i64) -> (r: Seconds)
        ensures
            r.nanos == micros * 1000,
    {
        Seconds { nanos: micros as i128 * 1000 }
    }

    /// This time in whole microseconds, the fraction dropped.
    pub fn micros(self) -> (r: i64)
        ensures
            r == saturated64(truncated_div(self.nanos as int, 1000)),
    {
        if self.nanos >= 0 {
            clamp64(self.nanos / 1000)
        } else if self.nanos == i128::MIN {
            i64::MIN
        } else {
            clamp64(-((-self.nanos) / 1000))
        }
    }

    /// This time counted from `other`.
    pub fn minus(self, other: Seconds) -> (r: Seconds)
        ensures
            r.nanos == saturated(self.nanos - other.nanos),
    {
        let a: i128 = self.nanos;
        let b: i128 = other.nanos;
        let nanos: i128 = if b > 0 {
            if a < i128::MIN + b {
                i128::MIN
            } else {
                a - b
            }
        } else {
            if a > i128::MAX + b {
                i128::MAX
            } else {
                a - b
            }
        };
        Seconds { nanos }
    }

    /// This time after `other`.
    pub fn plus(self, other: Seconds) -> (r: Seconds)
        ensures
            r.nanos == saturated(self.nanos + other.nanos),
    {
        Seconds { nanos: saturating_sum(self.nanos, other.nanos) }
    }
}

impl ExactTime {
    /// The fraction is less than a nanosecond; nothing of one is nothing over
    /// one.
    pub open spec fn wf(self) -> bool {
        &&& self.num < self.den
        &&& self.num == 0 ==> self.den == 1
    }

    /// This time counted in parts of a nanosecond, `den` to the nanosecond.
    pub open spec fn scaled(self) -> int {
        self.nanos * self.den + self.num
    }

    /// This time lies after zero.
    pub open spec fn positive(self) -> bool {
        self.nanos >= 0 && (self.nanos > 0 || self.num > 0)
    }

    /// Zero.
    pub open spec fn zero() -> ExactTime {
        ExactTime { nanos: 0, num: 0, den: 1 }
    }

    /// `nanos` nanoseconds and the fraction `num / den` of one.
    pub open spec fn of(nanos: int, num: int, den: int) -> ExactTime {
        ExactTime {
            nanos: saturated(nanos) as i128,
            num: num as u64,
            den: if num == 0 {
                1
            } else {
                den as u64
            },
        }
    }

    /// The fraction that is left can be written down after `rate` has come in:
    /// its denominator is a multiple of `rate` already, or has room for it.
    pub open spec fn takes(self, rate: u32) -> bool {
        self.den as int % rate as int == 0 || self.den * rate <= u64::MAX
    }

    /// The denominator of this time and spans of `rate` to the second.
    pub open spec fn common_den(self, rate: u32) -> int {
        if self.den as int % rate as int == 0 {
            self.den as int
        } else if self.den * rate <= u64::MAX {
            self.den * rate
        } else {
            rate as int
        }
    }

    /// This time and `samples / rate` seconds more. The sum is exact while the
    /// machine can hold its denominator; past that the fraction is cut to parts
    /// of which `rate` make a nanosecond.
    pub open spec fn later(self, samples: int, rate: u32) -> ExactTime {
        let span = samples * 1_000_000_000;
        let den = self.common_den(rate);
        let num = self.num * den / (self.den as int) + (span % rate as int) * (den / (
        rate as int));
        ExactTime::of(
            self.nanos + span / (rate as int) + num / den,
            num % den,
            den,
        )
    }

    /// This time in units of which `rate` make a second, the fraction dropped.
    pub open spec fn ticks(self, rate: u32) -> int {
        (self.scaled() * rate) / (self.den * 1_000_000_000)
    }

    /// The last whole nanosecond that is not after this time.
    pub fn whole(self) -> (r: Seconds)
        ensures
            r.nanos == self.nanos,
    {
        Seconds { nanos: self.nanos }
    }

    /// `time` with no fraction.
    pub fn from_whole(time: Seconds) -> (r: ExactTime)
        ensures
            r.wf(),
            r == (ExactTime { nanos: time.nanos, num: 0, den: 1 }),
    {
        ExactTime { nanos: time.nanos, num: 0, den: 1 }
    }

    /// Whether this time lies after zero.
    pub fn is_positive(self) -> (r: bool)
        ensures
            r == self.positive(),
    {
        self.nanos > 0 || (self.nanos == 0 && self.num > 0)
    }

    /// This time and `samples / rate` seconds more.
    pub fn plus_samples(self, samples: usize, rate: u32) -> (r: ExactTime)
        requires
            self.wf(),
            rate > 0,
        ensures
            r.wf(),
            r == self.later(samples as int, rate),
            self.nanos >= 0 ==> r.nanos >= 0,
    {
        let span: u128 = samples as u128 * 1_000_000_000;
        let k: u128 = rate as u128;
        let own: u128 = self.den as u128;
        let whole: u128 = span / k;
        let part: u128 = span % k;
        proof {
            lemma_common_den(self, samples as int, rate);
        }
        let den: u128 = if own % k == 0 {
            own
        } else if own * k <= 0xffff_ffff_ffff_ffff {
            own * k
        } else {
            k
        };
        let first: u128 = (self.num as u128 * den) / own;
        let second: u128 = part * (den / k);
        let num: u128 = first + second;
        let left: u64 = (num % den) as u64;
        let carried: i128 = whole as i128 + (num / den) as i128;
        ExactTime {
            nanos: saturating_sum(self.nanos, carried),
            num: left,
            den: if left == 0 {
                1
            } else {
                den as u64
            },
        }
    }

    /// This time in units of which `rate` make a second.
    pub fn to_ticks(self, rate: u32) -> (r: i64)
        requires
            self.wf(),
            self.nanos >= 0,
        ensures
            r == saturated64(self.ticks(rate)),
    {
        let limit: i128 = 0x4000_0000_0000_0000_0000_0000;
        proof {
            lemma_ticks(self, rate);
        }
        if rate == 0 {
            return 0;
        }
        let t: i128 = self.nanos;
        let k: i128 = rate as i128;
        if t >= limit {
            return i64::MAX;
        }
        assert(0 <= t * k <= 0x4000_0000_0000_0000_0000_0000 * 0x1_0000_0000) by (nonlinear_arith)
            requires
                0 <= t <= 0x4000_0000_0000_0000_0000_0000,
                0 <= k <= 0x1_0000_0000,
        ;
        let n: u128 = self.num as u128;
        let fine: u128 = (n * (rate as u128)) / (self.den as u128);
        clamp64((t * k + fine as i128) / NANOS)
    }
}

proof fn lemma_ticks(t: ExactTime, rate: u32)
    requires
        t.wf(),
        t.nanos >= 0,
    ensures
        t.ticks(rate) == (t.nanos * rate + t.num * rate / (t.den as int)) / 1_000_000_000,
        0 <= t.num * rate / (t.den as int) <= rate,
        0 <= t.num * rate <= 0xffff_ffff_ffff_ffff * 0xffff_ffff,
        rate == 0 ==> t.ticks(rate) == 0,
        rate > 0 && t.nanos >= 0x4000_0000_0000_0000_0000_0000 ==> t.ticks(rate) > i64::MAX,
{
    let d = t.den as int;
    let r = rate as int;
    let f = t.num * r;
    let x = t.scaled() * r;
    assert(x == d * (t.nanos * r) + f) by (nonlinear_arith)
        requires
            x == (t.nanos * d + t.num) * r,
            f == t.num * r,
    ;
    assert(0 <= f <= d * r && f <= 0xffff_ffff_ffff_ffff * 0xffff_ffff) by (nonlinear_arith)
        requires
            f == t.num * r,
            0 <= t.num <= d,
            t.num <= 0xffff_ffff_ffff_ffff,
            0 <= r <= 0xffff_ffff,
    ;
    assert(0 <= f / d <= r) by (nonlinear_arith)
        requires
            0 <= f <= d * r,
            d > 0,
    ;
    assert(0 <= x) by (nonlinear_arith)
        requires
            x == (t.nanos * d + t.num) * r,
            t.nanos >= 0,
            d >= 0,
            t.num >= 0,
            r >= 0,
    ;
    vstd::arithmetic::div_mod::lemma_div_denominator(x, d, 1_000_000_000);
    vstd::arithmetic::div_mod::lemma_hoist_over_denominator(f, t.nanos * r, d as nat);
    assert(d * (t.nanos * r) == (t.nanos * r) * d) by (nonlinear_arith);
    if r == 0 {
        assert(f == 0 && t.nanos * r == 0) by (nonlinear_arith)
            requires
                f == t.num * r,
                r == 0,
        ;
    } else if t.nanos >= 0x4000_0000_0000_0000_0000_0000 {
        assert(t.nanos * r >= 0x4000_0000_0000_0000_0000_0000) by (nonlinear_arith)
            requires
                t.nanos >= 0x4000_0000_0000_0000_0000_0000,
                r >= 1,
        ;
    }
}

proof fn lemma_common_den(t: ExactTime, samples: int, rate: u32)
    requires
        t.wf(),
        rate > 0,
        0 <= samples <= 0xffff_ffff_ffff_ffff,
    ensures
        ({
            let den = t.common_den(rate);
            let part = (samples * 1_000_000_000) % (rate as int);
            let first = t.num * den / (t.den as int);
            let second = part * (den / (rate as int));
            &&& 0 < den <= u64::MAX
            &&& 0 <= t.den * rate <= 0xffff_ffff_ffff_ffff * 0xffff_ffff
            &&& 0 <= t.num * den <= 0xffff_ffff_ffff_ffff * 0xffff_ffff_ffff_ffff
            &&& 0 <= first <= den
            &&& 0 <= second <= den
            &&& 0 <= (first + second) / den <= 2
            &&& 0 <= (first + second) % den < den
            &&& 0 <= (samples * 1_000_000_000) / (rate as int) <= samples * 1_000_000_000
        }),
{
    let den = t.common_den(rate);
    let own = t.den as int;
    let k = rate as int;
    let n = t.num as int;
    let span = samples * 1_000_000_000;
    let part = span % k;
    assert(own <= own * k <= 0xffff_ffff_ffff_ffff * 0xffff_ffff) by (nonlinear_arith)
        requires
            0 < own <= 0xffff_ffff_ffff_ffff,
            0 < k <= 0xffff_ffff,
    ;
    assert(0 <= n * den <= 0xffff_ffff_ffff_ffff * 0xffff_ffff_ffff_ffff && n * den <= own * den)
        by (nonlinear_arith)
        requires
            0 <= n <= own,
            n <= 0xffff_ffff_ffff_ffff,
            0 < den <= 0xffff_ffff_ffff_ffff,
    ;
    assert(0 <= n * den / own <= den) by (nonlinear_arith)
        requires
            0 <= n * den <= own * den,
            own > 0,
    ;
    let each = den / k;
    assert(0 <= each && each * k <= den) by (nonlinear_arith)
        requires
            each == den / k,
            den > 0,
            k > 0,
    ;
    assert(0 <= part * each <= den) by (nonlinear_arith)
        requires
            0 <= part < k,
            0 <= each,
            each * k <= den,
    ;
    let sum = n * den / own + part * each;
    assert(0 <= sum / den <= 2 && 0 <= sum % den < den) by (nonlinear_arith)
        requires
            0 <= sum <= 2 * den,
            den > 0,
    ;
    assert(0 <= span / k <= span) by (nonlinear_arith)
        requires
            span >= 0,
            k > 0,
    ;
}

/// Samples lead from one exact time to another, not to an earlier one.
pub proof fn lemma_later_is_wf(t: ExactTime, samples: int, rate: u32)
    requires
        t.wf(),
        t.nanos >= 0,
        rate > 0,
        0 <= samples <= 0xffff_ffff_ffff_ffff,
    ensures
        t.later(samples, rate).wf(),
        t.later(samples, rate).nanos >= t.nanos,
{
    lemma_common_den(t, samples, rate);
}

/// Adding samples loses nothing: the sum is this time and `samples / rate`
/// seconds, told by fractions over the product of the denominators.
pub proof fn law_samples_add_exactly(t: ExactTime, samples: int, rate: u32)
    requires
        t.wf(),
        rate > 0,
        0 <= samples <= 0xffff_ffff_ffff_ffff,
        t.takes(rate),
        t.nanos + samples * 1_000_000_000 + 2 <= i128::MAX,
    ensures
        ({
            let sum = t.later(samples, rate);
            &&& sum.wf()
            &&& sum.scaled() * (t.den * rate) == (t.scaled() * rate + samples * 1_000_000_000
                * t.den) * sum.den
        }),
{
    let sum = t.later(samples, rate);
    let den = t.common_den(rate);
    let own = t.den as int;
    let k = rate as int;
    let n = t.num as int;
    let span = samples * 1_000_000_000;
    let q = span / k;
    let part = span % k;
    lemma_common_den(t, samples, rate);
    let a = if own % k == 0 {
        1
    } else {
        k
    };
    let b = if own % k == 0 {
        own / k
    } else {
        own
    };
    vstd::arithmetic::div_mod::lemma_fundamental_div_mod(own, k);
    assert(own * k == k * own) by (nonlinear_arith);
    assert(den == own * a && den == k * b);
    assert(n * den / own == n * a) by {
        assert(n * (own * a) == own * (n * a)) by (nonlinear_arith);
        vstd::arithmetic::div_mod::lemma_div_multiples_vanish(n * a, own);
    }
    assert(den / k == b) by {
        vstd::arithmetic::div_mod::lemma_div_multiples_vanish(b, k);
    }
    let num = n * a + part * b;
    let carry = num / den;
    let left = num % den;
    vstd::arithmetic::div_mod::lemma_fundamental_div_mod(num, den);
    vstd::arithmetic::div_mod::lemma_fundamental_div_mod(span, k);
    let nanos = t.nanos + q + carry;
    assert(sum.nanos == nanos);
    let s = nanos * den + left;
    assert(s == (t.nanos + q) * den + num) by (nonlinear_arith)
        requires
            s == (t.nanos + q + carry) * den + left,
            num == den * carry + left,
    ;
    assert(sum.scaled() * den == s * sum.den) by (nonlinear_arith)
        requires
            s == nanos * den + left,
            sum.scaled() == nanos * sum.den + sum.num,
            sum.num == left,
            left == 0 ==> sum.den == 1,
            left != 0 ==> sum.den == den,
    ;
    let exact = t.scaled() * k + span * own;
    lemma_same_sum(t.nanos as int, n, own, k, q, part, a, b, den);
    assert(s * (own * k) == exact * den);
    let left_side = sum.scaled() * (own * k);
    let right_side = exact * sum.den;
    assert(left_side * den == right_side * den) by (nonlinear_arith)
        requires
            left_side == sum.scaled() * (own * k),
            right_side == exact * sum.den,
            sum.scaled() * den == s * sum.den,
            s * (own * k) == exact * den,
    {
        assert(sum.scaled() * (own * k) * den == (sum.scaled() * den) * (own * k));
        assert((s * sum.den) * (own * k) == (s * (own * k)) * sum.den);
        assert((exact * den) * sum.den == exact * sum.den * den);
    }
    vstd::arithmetic::mul::lemma_mul_equality_converse(den, left_side, right_side);
}

proof fn lemma_same_sum(
    nanos: int,
    n: int,
    own: int,
    k: int,
    q: int,
    part: int,
    a: int,
    b: int,
    den: int,
)
    requires
        den == own * a,
        den == k * b,
    ensures
        ((nanos + q) * den + (n * a + part * b)) * (own * k) == ((nanos * own + n) * k + (k * q
            + part) * own) * den,
{
    assert(n * a * (own * k) == n * k * den) by (nonlinear_arith)
        requires
            den == own * a,
    ;
    assert(part * b * (own * k) == part * own * den) by (nonlinear_arith)
        requires
            den == k * b,
    ;
    assert((nanos + q) * den * (own * k) == (nanos * own * k + k * q * own) * den)
        by (nonlinear_arith);
    assert(((nanos + q) * den + (n * a + part * b)) * (own * k) == (nanos + q) * den * (own * k)
        + n * a * (own * k) + part * b * (own * k)) by (nonlinear_arith);
    assert(((nanos * own + n) * k + (k * q + part) * own) * den == (nanos * own * k + k * q * own)
        * den + n * k * den + part * own * den) by (nonlinear_arith);
}

/// Samples at one rate, however many times they are added, always find room for
/// their fraction.
pub proof fn law_a_steady_rate_stays_exact(t: ExactTime, samples: int, rate: u32)
    requires
        t.wf(),
        rate > 0,
        0 <= samples <= 0xffff_ffff_ffff_ffff,
    ensures
        t.later(samples, rate).takes(rate),
{
    let k = rate as int;
    let own = t.den as int;
    lemma_common_den(t, samples, rate);
    vstd::arithmetic::div_mod::lemma_mod_multiples_basic(own, k);
    vstd::arithmetic::div_mod::lemma_mod_self_0(k);
    let sum = t.later(samples, rate);
    assert(sum.den == 1 || sum.den == t.common_den(rate));
    if sum.den == 1 {
        assert(sum.den * k == k) by (nonlinear_arith)
            requires
                sum.den == 1,
        ;
    }
}

/// Later timestamps are never earlier in time.
pub proof fn law_time_runs_forward(tb: TimeBase, first: int, second: int)
    requires
        tb.num >= 0,
        first <= second,
    ensures
        tb.nanos(first) <= tb.nanos(second),
{
    let n = tb.num as int;
    let a = first * n * 1_000_000_000;
    let b = second * n * 1_000_000_000;
    assert(first * n <= second * n) by (nonlinear_arith)
        requires
            first <= second,
            n >= 0,
    ;
    vstd::arithmetic::div_mod::lemma_div_is_ordered(a, b, tb.divisor());
}

/// A time that does not fit is the nearest that does.
pub proof fn law_saturation_is_nearest(x: int, y: int)
    ensures
        i128::MIN <= saturated(x) <= i128::MAX,
        i128::MIN <= x <= i128::MAX ==> saturated(x) == x,
        x > i128::MAX ==> saturated(x) == i128::MAX,
        x < i128::MIN ==> saturated(x) == i128::MIN,
        x <= y ==> saturated(x) <= saturated(y),
        i64::MIN <= saturated64(x) <= i64::MAX,
        i64::MIN <= x <= i64::MAX ==> saturated64(x) == x,
        x > i64::MAX ==> saturated64(x) == i64::MAX,
        x < i64::MIN ==> saturated64(x) == i64::MIN,
        x <= y ==> saturated64(x) <= saturated64(y),
{
}

/// A dropped fraction is less than one, on the side away from zero.
pub proof fn law_truncation_goes_towards_zero(a: int, b: int)
    requires
        b > 0,
    ensures
        a >= 0 ==> b * truncated_div(a, b) <= a < b * truncated_div(a, b) + b,
        a <= 0 ==> b * truncated_div(a, b) - b < a <= b * truncated_div(a, b),
        truncated_div(a * b, b) == a,
{
    let p = if a >= 0 {
        a
    } else {
        -a
    };
    vstd::arithmetic::div_mod::lemma_fundamental_div_mod(p, b);
    vstd::arithmetic::div_mod::lemma_mod_bound(p, b);
    assert(b * (-(p / b)) == -(b * (p / b))) by (nonlinear_arith);
    vstd::arithmetic::div_mod::lemma_div_multiples_vanish(p, b);
    assert(p * b == b * p) by (nonlinear_arith);
    assert(a < 0 ==> -(a * b) == p * b) by (nonlinear_arith)
        requires
            a < 0 ==> p == -a,
    ;
    assert(a >= 0 ==> a * b >= 0) by (nonlinear_arith)
        requires
            b > 0,
    ;
    assert(a < 0 ==> a * b < 0) by (nonlinear_arith)
        requires
            b > 0,
    ;
}

/// A timestamp stands for `ticks * num / den` seconds: in nanoseconds, the last
/// whole one not after it.
pub proof fn law_ticks_are_seconds(tb: TimeBase, ticks: int)
    requires
        tb.den >= 1,
    ensures
        tb.nanos(ticks) * tb.den <= ticks * tb.num * 1_000_000_000 < (tb.nanos(ticks) + 1) * tb.den,
{
    let d = tb.den as int;
    let x = ticks * tb.num * 1_000_000_000;
    vstd::arithmetic::div_mod::lemma_fundamental_div_mod(x, d);
    vstd::arithmetic::div_mod::lemma_mod_bound(x, d);
    assert(d * (x / d) == (x / d) * d) by (nonlinear_arith);
    assert((x / d + 1) * d == (x / d) * d + d) by (nonlinear_arith);
}

/// A timestamp counted from the start of the content is exactly `ticks * num /
/// den` seconds less the start.
pub proof fn law_exact_times_are_exact(tb: TimeBase, ticks: int, start: Seconds)
    requires
        tb.den >= 1,
        i128::MIN <= tb.nanos(ticks) - start.nanos <= i128::MAX,
    ensures
        ({
            let t = tb.exact(ticks, start);
            &&& t.wf()
            &&& t.scaled() * tb.den == (ticks * tb.num * 1_000_000_000 - start.nanos * tb.den)
                * t.den
        }),
{
    let d = tb.den as int;
    let x = ticks * tb.num * 1_000_000_000;
    let t = tb.exact(ticks, start);
    let (q, m) = (x / d, x % d);
    vstd::arithmetic::div_mod::lemma_fundamental_div_mod(x, d);
    vstd::arithmetic::div_mod::lemma_mod_bound(x, d);
    let s = start.nanos as int;
    assert(t.nanos == q - s && t.num == m);
    let e = t.den as int;
    assert((t.nanos * e + t.num) * d == (x - s * d) * e) by (nonlinear_arith)
        requires
            x == d * q + m,
            t.nanos == q - s,
            t.num == m,
            m == 0 ==> e == 1,
            m != 0 ==> e == d,
    ;
}

/// A time in samples is the last sample not after it.
pub proof fn law_ticks_are_the_last_not_after(t: ExactTime, rate: u32)
    requires
        t.wf(),
    ensures
        t.ticks(rate) * (t.den * 1_000_000_000) <= t.scaled() * rate < (t.ticks(rate) + 1) * (t.den
            * 1_000_000_000),
{
    let x = t.scaled() * rate;
    let d = t.den * 1_000_000_000;
    vstd::arithmetic::div_mod::lemma_fundamental_div_mod(x, d);
    vstd::arithmetic::div_mod::lemma_mod_bound(x, d);
    assert(d * (x / d) == (x / d) * d) by (nonlinear_arith);
    assert((x / d + 1) * d == (x / d) * d + d) by (nonlinear_arith);
}

} // verus!
