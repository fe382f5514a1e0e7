use vstd::arithmetic::div_mod::{lemma_fundamental_div_mod, lemma_fundamental_div_mod_converse};
use vstd::prelude::*;

use crate::sample::WatchTimePair;

verus! {

/// `n / d` rounded to the nearest integer, a half rounded away from zero
/// (meaningful for `d > 0`).
pub open spec fn round_div(n: int, d: int) -> int {
    if n >= 0 {
        (2 * n + d) / (2 * d)
    } else {
        -((2 * (-n) + d) / (2 * d))
    }
}

/// Real time elapsed between two synchronisations, in milliseconds.
pub open spec fn real_elapsed(start: WatchTimePair, end: WatchTimePair) -> int {
    end.real_time - start.real_time
}

/// Time elapsed on the watch face between two synchronisations, in milliseconds.
pub open spec fn watch_elapsed(start: WatchTimePair, end: WatchTimePair) -> int {
    end.watch_time - start.watch_time
}

/// The drift of a watch over a measure, in milliseconds gained per `unit_ms`
/// of real time: the gain `watch_elapsed - real_elapsed` scaled to the unit
/// and rounded to the nearest millisecond. Divided by 1000 it is the drift
/// in seconds per unit, to the thousandth.
pub open spec fn drift_ms(start: WatchTimePair, end: WatchTimePair, unit_ms: int) -> int {
    round_div(
        (watch_elapsed(start, end) - real_elapsed(start, end)) * unit_ms,
        real_elapsed(start, end),
    )
}

/// A drift is only defined over a span of real time that moves forward.
pub open spec fn valid_interval(start: WatchTimePair, end: WatchTimePair) -> bool {
    real_elapsed(start, end) > 0
}

/// Why a drift could not be computed.
#[derive(Clone, Copy, Debug, PartialEq, Eq, Structural)]
pub enum DriftError {
    /// The real time at the end of the measure is not after its start.
    InvalidInterval,
}

/// `n / d` rounded to the nearest integer, a half rounded up.
fn round_div_unsigned(n: u128, d: u128) -> (r: u128)
    requires
        d > 0,
    ensures
        r == (2 * n + d) / (2 * d),
{
    let q = n / d;
    let rem = n % d;
    proof {
        lemma_fundamental_div_mod(n as int, d as int);
    }
    if rem >= d - rem {
        proof {
            assert(2 * n + d == (q + 1) * (2 * d) + (2 * rem - d)) by (nonlinear_arith)
                requires
                    n == d * q + rem,
            ;
            lemma_fundamental_div_mod_converse(
                2 * n + d,
                2 * d,
                q + 1,
                2 * rem - d,
            );
            if d == 1 {
                assert(rem == 0);
            } else {
                assert(q * 2 <= n) by (nonlinear_arith)
                    requires
                        n == d * q + rem,
                        d >= 2,
                        rem >= 0,
                        q >= 0,
                ;
            }
        }
        q + 1
    } else {
        proof {
            assert(2 * n + d == q * (2 * d) + (2 * rem + d)) by (nonlinear_arith)
                requires
                    n == d * q + rem,
            ;
            lemma_fundamental_div_mod_converse(2 * n + d, 2 * d, q as int, 2 * rem + d);
        }
        q
    }
}

/// `n / d` rounded to the nearest integer, a half rounded away from zero.
fn round_div_signed(n: i128, d: i128) -> (r: i128)
    requires
        d > 0,
        -0x10_0000_0000_0000_0000_0000_0000 < n < 0x10_0000_0000_0000_0000_0000_0000,
    ensures
        r == round_div(n as int, d as int),
        n >= 0 ==> 0 <= r <= n,
        n < 0 ==> n <= r <= 0,
{
    let mag: u128 = if n >= 0 {
        n as u128
    } else {
        (-n) as u128
    };
    let rounded: u128 = round_div_unsigned(mag, d as u128);
    proof {
        assert(rounded <= mag) by (nonlinear_arith)
            requires
                rounded == (2 * mag + d) / (2 * d),
                d >= 1,
                mag >= 0,
        ;
    }
    if n >= 0 {
        rounded as i128
    } else {
        -(rounded as i128)
    }
}

/// The drift of a watch between two synchronisations, in milliseconds per
/// `unit_ms` of real time (see `drift_ms`); an error where the real time does
/// not move forward.
pub fn compute_drift(start: &WatchTimePair, end: &WatchTimePair, unit_ms: u32) -> (r: Result<
    i128,
    DriftError,
>)
    ensures
        valid_interval(*start, *end) ==> r == Ok::<i128, DriftError>(
            drift_ms(*start, *end, unit_ms as int) as i128,
        ),
        !valid_interval(*start, *end) ==> r == Err::<i128, DriftError>(
            DriftError::InvalidInterval,
        ),
{
    let real_ms: i128 = end.real_time as i128 - start.real_time as i128;
    if real_ms <= 0 {
        return Err(DriftError::InvalidInterval);
    }
    let watch_ms: i128 = end.watch_time as i128 - start.watch_time as i128;
    let gain: i128 = watch_ms - real_ms;
    let unit: i128 = unit_ms as i128;
    assert(-0x10_0000_0000_0000_0000_0000_0000 < gain * unit < 0x10_0000_0000_0000_0000_0000_0000)
        by (nonlinear_arith)
        requires
            -0x2_0000_0000_0000_0000 < gain < 0x2_0000_0000_0000_0000,
            0 <= unit < 0x1_0000_0000,
    ;
    Ok(round_div_signed(gain * unit, real_ms))
}

/// `compute_drift` is deterministic: any two results that it may return on
/// the same arguments are equal.
pub proof fn lemma_compute_drift_deterministic(
    start: WatchTimePair,
    end: WatchTimePair,
    unit_ms: u32,
    r1: Result<i128, DriftError>,
    r2: Result<i128, DriftError>,
)
    requires
        call_ensures(compute_drift, (&start, &end, unit_ms), r1),
        call_ensures(compute_drift, (&start, &end, unit_ms), r2),
    ensures
        r1 == r2,
{
}

/// A watch that gains time over a measure has a positive drift, and one that
/// loses time a negative drift, wherever the gain or loss comes to at least
/// half a millisecond per unit (a smaller one rounds to zero).
pub proof fn lemma_drift_sign(start: WatchTimePair, end: WatchTimePair, unit_ms: u32)
    requires
        valid_interval(start, end),
        2 * (watch_elapsed(start, end) - real_elapsed(start, end)) * unit_ms >= real_elapsed(
            start,
            end,
        ) || 2 * (real_elapsed(start, end) - watch_elapsed(start, end)) * unit_ms >= real_elapsed(
            start,
            end,
        ),
    ensures
        watch_elapsed(start, end) > real_elapsed(start, end) ==> drift_ms(start, end, unit_ms as int)
            > 0,
        watch_elapsed(start, end) < real_elapsed(start, end) ==> drift_ms(start, end, unit_ms as int)
            < 0,
{
    let d = real_elapsed(start, end);
    let gain = watch_elapsed(start, end) - d;
    let n = gain * unit_ms;
    if gain > 0 {
        assert(n >= 0 && 2 * n >= d) by (nonlinear_arith)
            requires
                n == gain * unit_ms,
                gain > 0,
                unit_ms >= 0,
                d > 0,
                2 * gain * unit_ms >= d || 2 * (-gain) * unit_ms >= d,
        ;
        assert((2 * n + d) / (2 * d) >= 1) by (nonlinear_arith)
            requires
                2 * n >= d,
                d > 0,
        ;
    } else if gain < 0 {
        assert(n < 0 && 2 * (-n) >= d) by (nonlinear_arith)
            requires
                n == gain * unit_ms,
                gain < 0,
                unit_ms >= 0,
                d > 0,
                2 * gain * unit_ms >= d || 2 * (-gain) * unit_ms >= d,
        ;
        assert((2 * (-n) + d) / (2 * d) >= 1) by (nonlinear_arith)
            requires
                2 * (-n) >= d,
                d > 0,
        ;
    }
}

/// The drift never has the opposite sign to the time that the watch gained.
pub proof fn lemma_drift_follows_gain(start: WatchTimePair, end: WatchTimePair, unit_ms: u32)
    requires
        valid_interval(start, end),
    ensures
        watch_elapsed(start, end) >= real_elapsed(start, end) ==> drift_ms(
            start,
            end,
            unit_ms as int,
        ) >= 0,
        watch_elapsed(start, end) <= real_elapsed(start, end) ==> drift_ms(
            start,
            end,
            unit_ms as int,
        ) <= 0,
{
    let d = real_elapsed(start, end);
    let gain = watch_elapsed(start, end) - d;
    let n = gain * unit_ms;
    assert(gain >= 0 ==> n >= 0) by (nonlinear_arith)
        requires
            n == gain * unit_ms,
            unit_ms >= 0,
    ;
    assert(gain <= 0 ==> n <= 0) by (nonlinear_arith)
        requires
            n == gain * unit_ms,
            unit_ms >= 0,
    ;
    assert(n >= 0 ==> (2 * n + d) / (2 * d) >= 0) by (nonlinear_arith)
        requires
            d > 0,
    ;
    assert(n < 0 ==> (2 * (-n) + d) / (2 * d) >= 0) by (nonlinear_arith)
        requires
            d > 0,
    ;
    assert(n == 0 ==> (2 * n + d) / (2 * d) == 0) by (nonlinear_arith)
        requires
            d > 0,
    ;
}

/// The unit that the length of a measure is reported in.
#[derive(Clone, Copy, Debug, PartialEq, Eq, Structural)]
pub enum SpanUnit {
    Days,
    Hours,
}

impl SpanUnit {
    pub open spec fn spec_label(self) -> Seq<char> {
        match self {
            SpanUnit::Days => "days"@,
            SpanUnit::Hours => "hours"@,
        }
    }

    pub fn label(&self) -> (r: &'static str)
        ensures
            r@ == self.spec_label(),
    {
        match self {
            SpanUnit::Days => "days",
            SpanUnit::Hours => "hours",
        }
    }
}

/// Whole seconds in `ms` milliseconds, truncated toward zero.
pub open spec fn whole_seconds(ms: int) -> int {
    if ms >= 0 {
        ms / 1000
    } else {
        -((-ms) / 1000)
    }
}

/// The length of a measure in hundredths of its unit: whole elapsed real
/// seconds in days, rounded to the hundredth, or in hours where that rounds
/// to less than one day.
pub open spec fn measured_span(start: WatchTimePair, end: WatchTimePair) -> (int, SpanUnit) {
    let secs = whole_seconds(real_elapsed(start, end));
    let days = round_div(secs, 864);
    if days < 100 {
        (round_div(secs, 36), SpanUnit::Hours)
    } else {
        (days, SpanUnit::Days)
    }
}

/// The real time between two synchronisations, in hundredths of a day, or of
/// an hour where the span is under a day once rounded.
pub fn measured_duration(start: &WatchTimePair, end: &WatchTimePair) -> (r: (i64, SpanUnit))
    ensures
        r.0 == measured_span(*start, *end).0,
        r.1 == measured_span(*start, *end).1,
{
    let real_ms: i128 = end.real_time as i128 - start.real_time as i128;
    let secs: i128 = if real_ms >= 0 {
        (real_ms as u128 / 1000) as i128
    } else {
        -(((-real_ms) as u128 / 1000) as i128)
    };
    let days = round_div_signed(secs, 864);
    if days < 100 {
        let hours = round_div_signed(secs, 36);
        (hours as i64, SpanUnit::Hours)
    } else {
        (days as i64, SpanUnit::Days)
    }
}

} // verus!
