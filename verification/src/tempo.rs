//! Playback at other speeds than one.
//!
//! Sound is stretched by a chain of `atempo` filters, which change its length
//! and keep its pitch. One such filter takes factors from a half to two, so
//! that larger and smaller speeds need two of them.

use vstd::prelude::*;

use crate::text;
use crate::text::{push_number, push_padded, push_text, string_of};

verus! {

/// A speed in units of 2⁻²⁵: fine enough to hold any single-precision number
/// between a quarter and four.
#[derive(Debug, Clone, Copy, PartialEq, Eq, Structural)]
pub struct Speed {
    pub units: i64,
}

/// Normal speed.
pub const SPEED_ONE: i64 = 33_554_432;

/// The slowest speed, a quarter.
pub const SPEED_MIN: i64 = 8_388_608;

/// The fastest speed, four.
pub const SPEED_MAX: i64 = 134_217_728;

/// Two speeds no further apart than this, one thousandth, are the same.
pub const SPEED_STEP: i64 = 33_554;

/// A filter factor of one; factors are counted in units of 2⁻²⁶.
pub const FACTOR_ONE: i64 = 67_108_864;

impl Speed {
    /// A speed that playback can have.
    pub open spec fn wf(self) -> bool {
        SPEED_MIN <= self.units <= SPEED_MAX
    }

    /// The speed nearest to this one that playback can have.
    pub open spec fn spec_clamped(self) -> Speed {
        if self.units < SPEED_MIN {
            Speed { units: SPEED_MIN }
        } else if self.units > SPEED_MAX {
            Speed { units: SPEED_MAX }
        } else {
            self
        }
    }

    /// The two speeds count as one.
    pub open spec fn close_to(self, other: Speed) -> bool {
        -SPEED_STEP <= self.units - other.units <= SPEED_STEP
    }

    /// The factors that together make this speed.
    pub open spec fn factors(self) -> Seq<int> {
        let q = 2 * self.units;
        if q > 2 * FACTOR_ONE {
            seq![(2 * FACTOR_ONE) as int, q / 2]
        } else if 2 * q < FACTOR_ONE {
            seq![FACTOR_ONE / 2, 2 * q]
        } else {
            seq![q]
        }
    }

    /// Normal speed.
    pub fn normal() -> (r: Speed)
        ensures
            r.units == SPEED_ONE,
            r.wf(),
    {
        Speed { units: SPEED_ONE }
    }

    /// The speed nearest to this one that playback can have.
    pub fn clamped(self) -> (r: Speed)
        ensures
            r == self.spec_clamped(),
            r.wf(),
    {
        if self.units < SPEED_MIN {
            Speed { units: SPEED_MIN }
        } else if self.units > SPEED_MAX {
            Speed { units: SPEED_MAX }
        } else {
            self
        }
    }

    /// Whether the two speeds count as one.
    pub fn is_close_to(self, other: Speed) -> (r: bool)
        requires
            self.wf(),
            other.wf(),
        ensures
            r == self.close_to(other),
    {
        let d: i64 = self.units - other.units;
        -SPEED_STEP <= d && d <= SPEED_STEP
    }
}

/// A factor in millionths, to the nearest; to the even one when two are.
pub open spec fn millionths(factor: int) -> int {
    let n = factor * 1_000_000;
    let low = n / (FACTOR_ONE as int);
    let rest = n % (FACTOR_ONE as int);
    if 2 * rest > FACTOR_ONE || (2 * rest == FACTOR_ONE && low % 2 == 1) {
        low + 1
    } else {
        low
    }
}

/// The filter for `factor`, written with six decimals.
pub open spec fn filter_text(factor: int) -> Seq<char> {
    let m = millionths(factor);
    "atempo="@ + text::digits((m / 1_000_000) as nat, 10) + "."@ + text::padded(
        (m % 1_000_000) as nat,
        6,
    )
}

/// The chain of filters for `factors`.
pub open spec fn chain_text(factors: Seq<int>) -> Seq<char>
    decreases factors.len(),
{
    if factors.len() == 0 {
        seq![]
    } else if factors.len() == 1 {
        filter_text(factors[0])
    } else {
        chain_text(factors.drop_last()) + ","@ + filter_text(factors.last())
    }
}

fn push_filter(out: &mut Vec<char>, factor: i64)
    requires
        0 <= factor <= 4 * FACTOR_ONE,
    ensures
        final(out)@ == old(out)@ + filter_text(factor as int),
{
    let n: i64 = factor * 1_000_000;
    let low: i64 = n / FACTOR_ONE;
    let rest: i64 = n % FACTOR_ONE;
    let m: i64 = if 2 * rest > FACTOR_ONE || (2 * rest == FACTOR_ONE && low % 2 == 1) {
        low + 1
    } else {
        low
    };
    let whole: u64 = (m / 1_000_000) as u64;
    let decimals: u64 = (m % 1_000_000) as u64;
    push_text(out, "atempo=");
    push_number(out, whole, 10);
    push_text(out, ".");
    push_padded(out, decimals, 6);
    assert(out@ =~= old(out)@ + filter_text(factor as int));
}

/// The chain of filters that plays sound at `speed`.
pub fn atempo_chain(speed: Speed) -> (r: String)
    requires
        speed.wf(),
    ensures
        r@ == chain_text(speed.factors()),
{
    let mut out: Vec<char> = Vec::new();
    let q: i64 = 2 * speed.units;
    let ghost factors = speed.factors();
    if q > 2 * FACTOR_ONE {
        push_filter(&mut out, 2 * FACTOR_ONE);
        push_text(&mut out, ",");
        push_filter(&mut out, q / 2);
    } else if 2 * q < FACTOR_ONE {
        push_filter(&mut out, FACTOR_ONE / 2);
        push_text(&mut out, ",");
        push_filter(&mut out, 2 * q);
    } else {
        push_filter(&mut out, q);
    }
    proof {
        if factors.len() == 2 {
            assert(factors.drop_last() =~= seq![factors[0]]);
            assert(chain_text(seq![factors[0]]) == filter_text(factors[0]));
        }
        assert(out@ =~= chain_text(factors));
    }
    string_of(&out)
}

/// What describes the sound to the start of the filter chain.
pub open spec fn graph_args(rate: u32, layout: u64) -> Seq<char> {
    "time_base=1/"@ + text::digits(rate as nat, 10) + ":sample_rate="@ + text::digits(
        rate as nat,
        10,
    ) + ":sample_fmt=flt:channel_layout=0x"@ + text::digits(layout as nat, 16)
}

/// Describes sound of `rate` samples a second and this channel layout to the
/// start of the filter chain.
pub fn tempo_graph_args(rate: u32, layout: u64) -> (r: String)
    ensures
        r@ == graph_args(rate, layout),
{
    let mut out: Vec<char> = Vec::new();
    push_text(&mut out, "time_base=1/");
    push_number(&mut out, rate as u64, 10);
    push_text(&mut out, ":sample_rate=");
    push_number(&mut out, rate as u64, 10);
    push_text(&mut out, ":sample_fmt=flt:channel_layout=0x");
    push_number(&mut out, layout, 16);
    assert(out@ =~= graph_args(rate, layout));
    string_of(&out)
}

/// The product of `factors`, in units of 2⁻²⁶ to the power of their number.
pub open spec fn product(factors: Seq<int>) -> int
    decreases factors.len(),
{
    if factors.len() == 0 {
        1
    } else {
        product(factors.drop_last()) * factors.last()
    }
}

/// A speed that was set is a speed that playback can have, and setting it again
/// changes nothing.
pub proof fn law_speeds_settle(speed: Speed)
    ensures
        speed.spec_clamped().wf(),
        speed.spec_clamped().spec_clamped() == speed.spec_clamped(),
        speed.spec_clamped().close_to(speed.spec_clamped()),
{
}

/// Every filter gets a factor that it accepts, from a half to two.
pub proof fn law_factors_are_accepted(speed: Speed, i: int)
    requires
        speed.wf(),
        0 <= i < speed.factors().len(),
    ensures
        FACTOR_ONE <= 2 * speed.factors()[i] <= 4 * FACTOR_ONE,
{
}

/// Together the filters make exactly the speed asked for: one filter the speed
/// itself, two filters a product that is the speed.
pub proof fn law_factors_make_the_speed(speed: Speed)
    requires
        speed.wf(),
    ensures
        1 <= speed.factors().len() <= 2,
        speed.factors().len() == 1 ==> product(speed.factors()) == 2 * speed.units,
        speed.factors().len() == 2 ==> product(speed.factors()) == 2 * speed.units * FACTOR_ONE,
{
    let f = speed.factors();
    reveal_with_fuel(product, 3);
    assert(f.drop_last().len() == f.len() - 1);
    if f.len() == 2 {
        assert(f.drop_last()[0] == f[0]);
        assert(f.drop_last().last() == f[0]);
        assert(f.drop_last().drop_last() =~= Seq::empty());
        assert(product(f) == f[0] * f[1]);
        let u = speed.units as int;
        assert((2 * FACTOR_ONE) * ((2 * u) / 2) == 2 * u * FACTOR_ONE);
        assert(FACTOR_ONE / 2 == 33_554_432);
        assert((FACTOR_ONE / 2) * (2 * (2 * u)) == 2 * u * FACTOR_ONE);
    }
}

/// The limits are a quarter and four times normal speed; a speed outside them
/// becomes the nearest inside, and a speed inside stays.
pub proof fn law_speeds_are_held_between_a_quarter_and_four(speed: Speed, other: Speed)
    requires
        SPEED_ONE <= 4 * other.units <= 16 * SPEED_ONE,
    ensures
        ({
            let c = speed.spec_clamped();
            &&& SPEED_ONE <= 4 * c.units <= 16 * SPEED_ONE
            &&& SPEED_ONE <= 4 * speed.units <= 16 * SPEED_ONE ==> c == speed
            &&& speed.units <= other.units ==> c.units <= other.units
            &&& speed.units >= other.units ==> c.units >= other.units
        }),
        other.wf(),
{
}

/// Speeds count as one when they are less than a thousandth apart, whichever
/// comes first.
pub proof fn law_close_speeds_differ_by_less_than_a_thousandth(a: Speed, b: Speed)
    ensures
        a.close_to(b) <==> 1000 * (a.units - b.units) < SPEED_ONE && 1000 * (b.units - a.units)
            < SPEED_ONE,
        a.close_to(b) == b.close_to(a),
{
}

/// A filter is written with its factor to the nearest millionth, the even one
/// where two are as near: what stands before and after the point reads back as
/// that number.
pub proof fn law_filters_read_back(factor: int) -> (parts: (Seq<char>, Seq<char>))
    requires
        0 <= factor <= 4 * FACTOR_ONE,
    ensures
        filter_text(factor) == "atempo="@ + parts.0 + "."@ + parts.1,
        parts.1.len() == 6,
        ({
            let written = text::value_of(parts.0, 10) * 1_000_000 + text::value_of(parts.1, 10);
            let off = 2 * (written * FACTOR_ONE - factor * 1_000_000);
            &&& -FACTOR_ONE <= off <= FACTOR_ONE
            &&& off == FACTOR_ONE || off == -FACTOR_ONE ==> written % 2 == 0
        }),
{
    let m = millionths(factor);
    let n = factor * 1_000_000;
    let one = FACTOR_ONE as int;
    assert(n >= 0);
    assert(n == one * (n / one) + n % one);
    assert(0 <= n / one && 0 <= n % one < one);
    assert(m >= 0);
    text::law_numbers_read_back((m / 1_000_000) as nat, 10);
    assert(text::power(10, 6) == 1_000_000) by {
        reveal_with_fuel(text::power, 7);
    }
    text::law_decimals_read_back((m % 1_000_000) as nat, 6);
    (text::digits((m / 1_000_000) as nat, 10), text::padded((m % 1_000_000) as nat, 6))
}

/// The chain names its filters in order, with a comma between two.
pub proof fn law_filters_are_listed(speed: Speed)
    requires
        speed.wf(),
    ensures
        ({
            let f = speed.factors();
            &&& f.len() == 1 ==> chain_text(f) == filter_text(f[0])
            &&& f.len() == 2 ==> chain_text(f) == filter_text(f[0]) + ","@ + filter_text(f[1])
        }),
{
    let f = speed.factors();
    if f.len() == 2 {
        assert(f.drop_last() =~= seq![f[0]]);
        assert(chain_text(seq![f[0]]) == filter_text(f[0]));
    }
}

/// The start of the chain is told the rate of the sound, as its time base and as
/// its rate, and the layout of its channels: each reads back.
pub proof fn law_the_chain_is_told_the_sound(rate: u32, layout: u64) -> (parts: (
    Seq<char>,
    Seq<char>,
))
    ensures
        graph_args(rate, layout) == "time_base=1/"@ + parts.0 + ":sample_rate="@ + parts.0
            + ":sample_fmt=flt:channel_layout=0x"@ + parts.1,
        text::value_of(parts.0, 10) == rate,
        text::value_of(parts.1, 16) == layout,
{
    text::law_numbers_read_back(rate as nat, 10);
    text::law_numbers_read_back(layout as nat, 16);
    (text::digits(rate as nat, 10), text::digits(layout as nat, 16))
}

} // verus!
