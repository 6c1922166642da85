//! Band-limited waveforms built from sines.
//!
//! A phase is a `u32` that counts 2^-32 turns, so that phases wrap by
//! themselves. The sine is the Taylor polynomial of degree 15 of the angle
//! within a quarter turn, worked out with eighteen places.

use crate::fixed::{clamp, saturate, trunc_div, Sample, ONE};
use vstd::prelude::*;

verus! {

/// The number of phases in a full turn.
pub const TURN: u64 = 0x1_0000_0000;

/// The phase of half a turn.
pub const HALF_TURN: u32 = 0x8000_0000;

/// The phase of a quarter turn.
pub const QUARTER_TURN: u32 = 0x4000_0000;

/// One in the eighteen places that the sine is worked out with.
pub const FINE: u64 = 1_000_000_000_000_000_000;

/// The number pi, in units of [`FINE`].
pub const FINE_PI: u64 = 3_141_592_653_589_793_238;

/// How many units of [`FINE`] make one unit of a sample.
pub const FINE_PER_SAMPLE: u64 = 1_000_000;

/// The most that the square of an angle within a quarter turn can be.
pub const SQUARE_LIMIT: u64 = 2_467_401_100_272_339_653;

/// The number of terms after the first of the polynomial that the sine is.
pub const SINE_TERMS: u64 = 7;

/// How far `phase` is from the nearest phase at which the sine is zero: up
/// to a quarter turn.
pub open spec fn spec_arc(phase: u32) -> u32 {
    let offset = phase % QUARTER_TURN;
    if (phase / QUARTER_TURN) % 2 == 0 {
        offset
    } else {
        (QUARTER_TURN - offset) as u32
    }
}

/// The angle of an arc in radians, in units of [`FINE`]: `arc * pi / 2^31`.
pub open spec fn spec_angle(arc: u32) -> int {
    (arc * FINE_PI) / 0x8000_0000
}

/// The factor that stands behind term `k` of the sine's series when the
/// series ends with term `last`:
/// `1 - x^2 / ((2k)(2k+1)) * (1 - x^2 / ((2k+2)(2k+3)) * (1 - ...))`, for the
/// square `x2` of the angle, all in units of [`FINE`].
pub open spec fn spec_tail(x2: int, k: nat, last: nat) -> int
    decreases last + 1 - k,
{
    if k > last {
        FINE as int
    } else {
        FINE - (x2 * spec_tail(x2, k + 1, last)) / (FINE * (2 * k * (2 * k + 1)))
    }
}

/// The Taylor polynomial of the sine at the angle of `arc` that ends with
/// term `last`, of degree `2 * last + 1`, in units of [`FINE`].
pub open spec fn spec_sine_series(arc: u32, last: nat) -> int {
    let x = spec_angle(arc);
    (x * spec_tail((x * x) / (FINE as int), 1, last)) / (FINE as int)
}

/// The sine at a distance `arc` from a zero of the sine: one at a quarter
/// turn, and before it the Taylor polynomial of degree 15, cut to the places
/// of a sample and never more than one.
pub open spec fn spec_quarter_sine(arc: u32) -> Sample
    recommends
        arc <= QUARTER_TURN,
{
    if arc >= QUARTER_TURN {
        ONE
    } else {
        let series = spec_sine_series(arc, SINE_TERMS as nat) / (FINE_PER_SAMPLE as int);
        if series > ONE {
            ONE
        } else {
            series as Sample
        }
    }
}

/// The sine of `phase`, as a sample between `-ONE` and `ONE`.
pub open spec fn spec_sine(phase: u32) -> Sample {
    let magnitude = spec_quarter_sine(spec_arc(phase));
    if phase < HALF_TURN {
        magnitude
    } else {
        (-magnitude) as Sample
    }
}

/// The phase of the `n`-th harmonic when the fundamental is at `phase`.
pub open spec fn spec_harmonic_phase(phase: u32, n: u64) -> u32 {
    ((n * phase) % (TURN as int)) as u32
}

/// The highest harmonic of `freq` that `rate` samples per second can carry:
/// `rate / (2 * freq)`, rounded down, and none for a frequency that is not
/// positive. A count beyond what a `u64` holds is kept at the most that it
/// holds, which changes no wave.
pub open spec fn spec_max_harmonic(rate: u32, freq: Sample) -> u64 {
    if freq <= 0 {
        0
    } else if (rate * ONE) / (2 * freq) > u64::MAX {
        u64::MAX
    } else {
        ((rate * ONE) / (2 * freq)) as u64
    }
}

/// The sum of the first `count` harmonics of a saw: the `n`-th is the sine at
/// the harmonic's phase, divided by `2 * n`.
pub open spec fn spec_saw_sum(phase: u32, count: nat) -> int
    decreases count,
{
    if count == 0 {
        0
    } else {
        spec_saw_sum(phase, (count - 1) as nat) + trunc_div(
            spec_sine(spec_harmonic_phase(phase, count as u64)) as int,
            2 * (count as int),
        )
    }
}

/// The sum of the first `count` odd harmonics of a square: the `i`-th is the
/// sine at the phase of harmonic `n = 2 * i - 1`, divided by `n`.
pub open spec fn spec_square_sum(phase: u32, count: nat) -> int
    decreases count,
{
    if count == 0 {
        0
    } else {
        spec_square_sum(phase, (count - 1) as nat) + trunc_div(
            spec_sine(spec_harmonic_phase(phase, (2 * count - 1) as u64)) as int,
            2 * count - 1,
        )
    }
}

/// The sum of the first `count` odd harmonics of a triangle: the `i`-th is the
/// sine at the phase of harmonic `n = 2 * i - 1`, divided by `n * n`, added
/// for an even `i` and subtracted for an odd one.
pub open spec fn spec_triangle_sum(phase: u32, count: nat) -> int
    decreases count,
{
    if count == 0 {
        0
    } else {
        let n = 2 * count - 1;
        let term = trunc_div(
            spec_sine(spec_harmonic_phase(phase, n as u64)) as int,
            n * n,
        );
        spec_triangle_sum(phase, (count - 1) as nat) + if count % 2 == 0 {
            term
        } else {
            -term
        }
    }
}

/// How many harmonics a saw adds to its fundamental: those below `max_harmonic`.
pub open spec fn spec_saw_terms(max_harmonic: u64) -> nat {
    if max_harmonic == 0 {
        0
    } else {
        (max_harmonic - 1) as nat
    }
}

/// How many odd harmonics a square or a triangle adds to its fundamental:
/// those with an index below `max_harmonic / 2`.
pub open spec fn spec_odd_terms(max_harmonic: u64) -> nat {
    if max_harmonic / 2 == 0 {
        0
    } else {
        (max_harmonic / 2 - 1) as nat
    }
}

/// The saw at `phase`: the fundamental sine and the harmonics below
/// `max_harmonic`, upside down for a saw that ramps up.
pub open spec fn spec_saw(phase: u32, ramp_up: bool, max_harmonic: u64) -> Sample {
    let sum = spec_sine(phase) + spec_saw_sum(phase, spec_saw_terms(max_harmonic));
    clamp(
        if ramp_up {
            -sum
        } else {
            sum
        },
    )
}

/// The square at `phase`: the fundamental sine and the odd harmonics with an
/// index below `max_harmonic / 2`.
pub open spec fn spec_square(phase: u32, max_harmonic: u64) -> Sample {
    clamp(spec_sine(phase) + spec_square_sum(phase, spec_odd_terms(max_harmonic)))
}

/// The triangle at `phase`: the fundamental sine and the odd harmonics with an
/// index below `max_harmonic / 2`, with alternating signs.
pub open spec fn spec_triangle(phase: u32, max_harmonic: u64) -> Sample {
    clamp(spec_sine(phase) + spec_triangle_sum(phase, spec_odd_terms(max_harmonic)))
}

/// The square of an angle within a quarter turn is within its limit.
pub proof fn lemma_angle_range(arc: u32)
    requires
        arc <= QUARTER_TURN,
    ensures
        0 <= spec_angle(arc) <= 1_570_796_326_794_896_619,
        0 <= (spec_angle(arc) * spec_angle(arc)) / (FINE as int) <= SQUARE_LIMIT,
{
    let x = spec_angle(arc);
    assert(0 <= arc * FINE_PI <= 0x4000_0000 * 3_141_592_653_589_793_238) by (nonlinear_arith)
        requires
            0 <= arc <= 0x4000_0000,
            FINE_PI == 3_141_592_653_589_793_238,
    ;
    assert(0 <= x * x <= 1_570_796_326_794_896_619 * 1_570_796_326_794_896_619)
        by (nonlinear_arith)
        requires
            0 <= x <= 1_570_796_326_794_896_619,
    ;
}

/// The factor behind a term stays between zero and one.
pub proof fn lemma_tail_range(x2: int, k: nat, last: nat)
    requires
        0 <= x2 <= SQUARE_LIMIT,
        k >= 1,
    ensures
        0 <= spec_tail(x2, k, last) <= FINE,
    decreases last + 1 - k,
{
    if k <= last {
        lemma_tail_range(x2, k + 1, last);
        let t = spec_tail(x2, k + 1, last);
        let c = (2 * k * (2 * k + 1)) as int;
        assert(c >= 6) by (nonlinear_arith)
            requires
                c == 2 * k * (2 * k + 1),
                k >= 1,
        ;
        lemma_step_range(x2, t, c);
    }
}

/// What one step of the series takes from one is between zero and one.
pub proof fn lemma_step_range(x2: int, t: int, c: int)
    requires
        0 <= x2 <= SQUARE_LIMIT,
        0 <= t <= FINE,
        c >= 6,
    ensures
        0 <= (x2 * t) / (FINE * c) <= FINE,
        0 <= x2 * t <= SQUARE_LIMIT * FINE,
{
    let q = FINE as int;
    assert(0 <= x2 * t <= 2_467_401_100_272_339_653 * q) by (nonlinear_arith)
        requires
            0 <= x2 <= 2_467_401_100_272_339_653,
            0 <= t <= q,
    ;
    assert(q * c >= 6 * q) by (nonlinear_arith)
        requires
            c >= 6,
            q > 0,
    ;
    assert(0 <= (x2 * t) / (q * c) <= q) by (nonlinear_arith)
        requires
            0 <= x2 * t <= 2_467_401_100_272_339_653 * q,
            q * c >= 6 * q,
            q == 1_000_000_000_000_000_000,
    ;
}

/// The sine of a quarter lies between zero and one, and is zero at the
/// start of the quarter and one at its end.
pub proof fn lemma_quarter_sine_range(arc: u32)
    requires
        arc <= QUARTER_TURN,
    ensures
        0 <= spec_quarter_sine(arc) <= ONE,
        arc == 0 ==> spec_quarter_sine(arc) == 0,
        arc == QUARTER_TURN ==> spec_quarter_sine(arc) == ONE,
{
    if arc < QUARTER_TURN {
        lemma_angle_range(arc);
        let x = spec_angle(arc);
        let x2 = (x * x) / (FINE as int);
        lemma_tail_range(x2, 1, SINE_TERMS as nat);
        let t = spec_tail(x2, 1, SINE_TERMS as nat);
        assert(0 <= x * t) by (nonlinear_arith)
            requires
                0 <= x,
                0 <= t,
        ;
        if arc == 0 {
            assert(0 * FINE_PI == 0);
            assert(x == 0);
            assert(x * t == 0) by (nonlinear_arith)
                requires
                    x == 0,
            ;
        }
    }
}

/// Two dividends that are near each other have quotients that are near each other.
pub proof fn lemma_quotients_near(a: int, b: int, m: int, bound: int)
    requires
        m > 0,
        -bound <= a - b <= bound,
    ensures
        -(bound / m + 1) <= a / m - b / m <= bound / m + 1,
{
    let qa = a / m;
    let qb = b / m;
    let qd = bound / m;
    assert(-(qd + 1) <= qa - qb <= qd + 1) by (nonlinear_arith)
        requires
            m > 0,
            -bound <= a - b <= bound,
            qa == a / m,
            qb == b / m,
            qd == bound / m,
    {
        assert(qa * m <= a < qa * m + m);
        assert(qb * m <= b < qb * m + m);
        assert(qd * m <= bound < qd * m + m);
        assert((qa - qb) * m < (qd + 2) * m);
        assert((qb - qa) * m < (qd + 2) * m);
    }
}

/// The most by which the factors behind term `k` of the series of degree 13
/// and of the series of degree 15 differ.
pub open spec fn spec_gap_limit(k: nat) -> int {
    if k >= 7 {
        11749529048915904
    } else if k == 6 {
        185838467326776
    } else if k == 5 {
        4168527625046
    } else if k == 4 {
        142853189564
    } else if k == 3 {
        8392288503
    } else if k == 2 {
        1035357095
    } else {
        425773540
    }
}

/// One more term changes the factor behind term `k` by ever less the
/// further `k` is from the end of the series.
pub proof fn lemma_series_gap(x2: int, k: nat)
    requires
        0 <= x2 <= SQUARE_LIMIT,
        1 <= k <= 7,
    ensures
        -spec_gap_limit(k) <= spec_tail(x2, k, 6) - spec_tail(x2, k, 7) <= spec_gap_limit(k),
    decreases 7 - k,
{
    if k == 7 {
        assert(spec_tail(x2, 8, 7) == FINE);
        assert(spec_tail(x2, 7, 6) == FINE);
        assert(2 * k * (2 * k + 1) == 210) by (nonlinear_arith)
            requires
                k == 7,
        ;
        assert(0 <= x2 * FINE <= 2467401100272339653 * 1_000_000_000_000_000_000) by (nonlinear_arith)
            requires
                0 <= x2 <= 2467401100272339653,
                FINE == 1_000_000_000_000_000_000,
        ;
        lemma_quotients_near(x2 * FINE, 0, FINE * 210, 2467401100272339653000000000000000000int);
        assert(0int / (FINE * 210) == 0);
    } else if k == 6 {
        lemma_series_gap(x2, 7);
        lemma_tail_range(x2, 7, 6);
        lemma_tail_range(x2, 7, 7);
        let upper = spec_tail(x2, 7, 6);
        let lower = spec_tail(x2, 7, 7);
        assert(2 * k * (2 * k + 1) == 156) by (nonlinear_arith)
            requires
                k == 6,
        ;
        assert(-2467401100272339653 * 11749529048915904 <= x2 * upper - x2 * lower <= 2467401100272339653 * 11749529048915904)
            by (nonlinear_arith)
            requires
                0 <= x2 <= 2467401100272339653,
                -11749529048915904 <= upper - lower <= 11749529048915904,
        ;
        lemma_quotients_near(x2 * upper, x2 * lower, FINE * 156, 28990800902976918001189577321541312int);
    } else if k == 5 {
        lemma_series_gap(x2, 6);
        lemma_tail_range(x2, 6, 6);
        lemma_tail_range(x2, 6, 7);
        let upper = spec_tail(x2, 6, 6);
        let lower = spec_tail(x2, 6, 7);
        assert(2 * k * (2 * k + 1) == 110) by (nonlinear_arith)
            requires
                k == 5,
        ;
        assert(-2467401100272339653 * 185838467326776 <= x2 * upper - x2 * lower <= 2467401100272339653 * 185838467326776)
            by (nonlinear_arith)
            requires
                0 <= x2 <= 2467401100272339653,
                -185838467326776 <= upper - lower <= 185838467326776,
        ;
        lemma_quotients_near(x2 * upper, x2 * lower, FINE * 110, 458538038755012345559426013448728int);
    } else if k == 4 {
        lemma_series_gap(x2, 5);
        lemma_tail_range(x2, 5, 6);
        lemma_tail_range(x2, 5, 7);
        let upper = spec_tail(x2, 5, 6);
        let lower = spec_tail(x2, 5, 7);
        assert(2 * k * (2 * k + 1) == 72) by (nonlinear_arith)
            requires
                k == 4,
        ;
        assert(-2467401100272339653 * 4168527625046 <= x2 * upper - x2 * lower <= 2467401100272339653 * 4168527625046)
            by (nonlinear_arith)
            requires
                0 <= x2 <= 2467401100272339653,
                -4168527625046 <= upper - lower <= 4168527625046,
        ;
        lemma_quotients_near(x2 * upper, x2 * lower, FINE * 72, 10285429648554143317525941749038int);
    } else if k == 3 {
        lemma_series_gap(x2, 4);
        lemma_tail_range(x2, 4, 6);
        lemma_tail_range(x2, 4, 7);
        let upper = spec_tail(x2, 4, 6);
        let lower = spec_tail(x2, 4, 7);
        assert(2 * k * (2 * k + 1) == 42) by (nonlinear_arith)
            requires
                k == 3,
        ;
        assert(-2467401100272339653 * 142853189564 <= x2 * upper - x2 * lower <= 2467401100272339653 * 142853189564)
            by (nonlinear_arith)
            requires
                0 <= x2 <= 2467401100272339653,
                -142853189564 <= upper - lower <= 142853189564,
        ;
        lemma_quotients_near(x2 * upper, x2 * lower, FINE * 42, 352476117107626708475802981292int);
    } else if k == 2 {
        lemma_series_gap(x2, 3);
        lemma_tail_range(x2, 3, 6);
        lemma_tail_range(x2, 3, 7);
        let upper = spec_tail(x2, 3, 6);
        let lower = spec_tail(x2, 3, 7);
        assert(2 * k * (2 * k + 1) == 20) by (nonlinear_arith)
            requires
                k == 2,
        ;
        assert(-2467401100272339653 * 8392288503 <= x2 * upper - x2 * lower <= 2467401100272339653 * 8392288503)
            by (nonlinear_arith)
            requires
                0 <= x2 <= 2467401100272339653,
                -8392288503 <= upper - lower <= 8392288503,
        ;
        lemma_quotients_near(x2 * upper, x2 * lower, FINE * 20, 20707141886105106238782909459int);
    } else if k == 1 {
        lemma_series_gap(x2, 2);
        lemma_tail_range(x2, 2, 6);
        lemma_tail_range(x2, 2, 7);
        let upper = spec_tail(x2, 2, 6);
        let lower = spec_tail(x2, 2, 7);
        assert(2 * k * (2 * k + 1) == 6) by (nonlinear_arith)
            requires
                k == 1,
        ;
        assert(-2467401100272339653 * 1035357095 <= x2 * upper - x2 * lower <= 2467401100272339653 * 1035357095)
            by (nonlinear_arith)
            requires
                0 <= x2 <= 2467401100272339653,
                -1035357095 <= upper - lower <= 1035357095,
        ;
        lemma_quotients_near(x2 * upper, x2 * lower, FINE * 6, 2554641235377773291983388035int);
    }
}

/// A sample of the sine is the Taylor polynomial of degree 15 of the angle,
/// cut to the places of a sample, and that polynomial is within 10^-9 of the
/// polynomial of degree 13. The sine of an angle up to a quarter turn lies
/// between the two, so the sample is within 10^-9 of the sine of the angle
/// `arc * pi / 2^31`.
pub proof fn law_sine_between_series(arc: u32)
    requires
        arc < QUARTER_TURN,
    ensures
        -1_000_000_000 <= spec_sine_series(arc, 6) - spec_sine_series(arc, 7) <= 1_000_000_000,
        spec_quarter_sine(arc) * FINE_PER_SAMPLE <= spec_sine_series(arc, 7),
        spec_quarter_sine(arc) == ONE || spec_sine_series(arc, 7) < (spec_quarter_sine(arc) + 1)
            * FINE_PER_SAMPLE,
{
    lemma_angle_range(arc);
    let x = spec_angle(arc);
    let x2 = (x * x) / (FINE as int);
    lemma_series_gap(x2, 1);
    lemma_tail_range(x2, 1, 6);
    lemma_tail_range(x2, 1, 7);
    let upper = spec_tail(x2, 1, 6);
    let lower = spec_tail(x2, 1, 7);
    assert(-1_570_796_326_794_896_619 * 425773540 <= x * upper - x * lower
        <= 1_570_796_326_794_896_619 * 425773540) by (nonlinear_arith)
        requires
            0 <= x <= 1_570_796_326_794_896_619,
            -425773540 <= upper - lower <= 425773540,
    ;
    lemma_quotients_near(x * upper, x * lower, FINE as int, 668803512678459987405661260int);
    assert(0 <= x * lower) by (nonlinear_arith)
        requires
            0 <= x,
            0 <= lower,
    ;
    let series = spec_sine_series(arc, 7);
    assert(series >= 0 && (series / 1_000_000) * 1_000_000 <= series < (series / 1_000_000
        + 1) * 1_000_000) by (nonlinear_arith)
        requires
            series == (x * lower) / 1_000_000_000_000_000_000,
            0 <= x * lower,
    ;
}

/// The sine stays between minus one and one.
pub proof fn lemma_sine_range(phase: u32)
    ensures
        -ONE <= spec_sine(phase) <= ONE,
{
    lemma_quarter_sine_range(spec_arc(phase));
}

/// The sine is zero at the start of a turn and at its half, one at the first
/// quarter and minus one at the third.
pub proof fn law_sine_at_quarters()
    ensures
        spec_sine(0) == 0,
        spec_sine(QUARTER_TURN) == ONE,
        spec_sine(HALF_TURN) == 0,
        spec_sine(0xc000_0000) == -ONE,
{
    assert(spec_arc(0) == 0);
    assert(spec_arc(QUARTER_TURN) == QUARTER_TURN);
    assert(spec_arc(HALF_TURN) == 0);
    assert(spec_arc(0xc000_0000) == QUARTER_TURN);
    lemma_quarter_sine_range(0);
    lemma_quarter_sine_range(QUARTER_TURN);
}

/// Half a turn later the sine has the opposite sign.
pub proof fn law_sine_half_turn(phase: u32)
    requires
        phase < HALF_TURN,
    ensures
        spec_sine((phase + HALF_TURN) as u32) == -spec_sine(phase),
{
    let later = (phase + HALF_TURN) as u32;
    assert(later % QUARTER_TURN == phase % QUARTER_TURN);
    assert(later / QUARTER_TURN == phase / QUARTER_TURN + 2);
    assert(spec_arc(later) == spec_arc(phase));
    lemma_quarter_sine_range(spec_arc(phase));
}

/// A sample whose size is below the divisor leaves nothing when divided.
pub proof fn lemma_trunc_div_small(a: int, b: int)
    requires
        -b < a < b,
    ensures
        trunc_div(a, b) == 0,
{
    if a >= 0 {
        assert(a / b == 0) by (nonlinear_arith)
            requires
                0 <= a < b,
        ;
    } else {
        assert((-a) / b == 0) by (nonlinear_arith)
            requires
                0 <= -a < b,
        ;
    }
}

/// A quotient is no larger in size than what was divided.
pub proof fn lemma_trunc_div_bound(a: int, b: int, limit: int)
    requires
        -limit <= a <= limit,
        b >= 1,
    ensures
        -limit <= trunc_div(a, b) <= limit,
{
    if a >= 0 {
        assert(0 <= a / b <= a) by (nonlinear_arith)
            requires
                0 <= a,
                b >= 1,
        ;
    } else {
        assert(0 <= (-a) / b <= -a) by (nonlinear_arith)
            requires
                0 <= -a,
                b >= 1,
        ;
    }
}

/// A quotient times its divisor is no larger in size than what was divided.
pub proof fn lemma_trunc_div_times(a: int, b: int, limit: int)
    requires
        -limit <= a <= limit,
        b >= 1,
    ensures
        -limit <= trunc_div(a, b) * b <= limit,
{
    if a >= 0 {
        assert(0 <= (a / b) * b <= a) by (nonlinear_arith)
            requires
                0 <= a,
                b >= 1,
        ;
    } else {
        assert(0 <= ((-a) / b) * b <= -a) by (nonlinear_arith)
            requires
                0 <= -a,
                b >= 1,
        ;
        assert((-((-a) / b)) * b == -(((-a) / b) * b)) by (nonlinear_arith);
    }
}

/// From its first odd harmonic on, which takes the fundamental away again,
/// a triangle of `count` harmonics is within `(count - 1) / count` of one.
pub proof fn lemma_triangle_bound(phase: u32, count: nat)
    requires
        count >= 1,
    ensures
        -ONE * (count - 1) <= count * (spec_sine(phase) + spec_triangle_sum(phase, count)) <= ONE
            * (count - 1),
    decreases count,
{
    let n = 2 * count - 1;
    let s = spec_sine(spec_harmonic_phase(phase, n as u64)) as int;
    let t = trunc_div(s, n * n);
    let total = spec_sine(phase) + spec_triangle_sum(phase, count);
    if count == 1 {
        assert(n * n == 1) by (nonlinear_arith)
            requires
                n == 1,
        ;
        assert((1 * phase) % (TURN as int) == phase);
        assert(spec_harmonic_phase(phase, 1) == phase);
        assert(s == spec_sine(phase));
        assert(t == s);
        assert(spec_triangle_sum(phase, 0) == 0);
        assert(spec_triangle_sum(phase, 1) == spec_triangle_sum(phase, 0) + (-t));
        assert(total == 0);
    } else {
        let c = (count - 1) as int;
        let before = spec_sine(phase) + spec_triangle_sum(phase, c as nat);
        lemma_triangle_bound(phase, c as nat);
        lemma_sine_range(spec_harmonic_phase(phase, n as u64));
        assert(n * n >= 1) by (nonlinear_arith)
            requires
                n >= 1,
        ;
        lemma_trunc_div_times(s, n * n, ONE as int);
        let w = if count % 2 == 0 {
            t
        } else {
            -t
        };
        assert(total == before + w);
        let one = ONE as int;
        let nn = n * n;
        assert(-one <= w * nn <= one) by (nonlinear_arith)
            requires
                -one <= t * nn <= one,
                w == t || w == -t,
        ;
        assert(-one <= (c * (c + 1)) * w <= one) by (nonlinear_arith)
            requires
                -one <= w * nn <= one,
                nn == (2 * c + 1) * (2 * c + 1),
                c >= 1,
                one >= 0,
        {
            assert(0 < c * (c + 1) <= nn);
            if w >= 0 {
                assert((c * (c + 1)) * w <= nn * w);
            } else {
                assert((c * (c + 1)) * w >= nn * w);
            }
        }
        assert(-one * c <= (c + 1) * (before + w) <= one * c) by (nonlinear_arith)
            requires
                -one * (c - 1) <= c * before <= one * (c - 1),
                -one <= (c * (c + 1)) * w <= one,
                c >= 1,
        {
            assert(c * ((c + 1) * (before + w)) == (c + 1) * (c * before) + (c * (c + 1)) * w);
            assert((c + 1) * (c * before) <= (c + 1) * (one * (c - 1)));
            assert((c + 1) * (c * before) >= (c + 1) * (-one * (c - 1)));
            assert((c + 1) * (one * (c - 1)) + one == c * (one * c));
            assert(c * ((c + 1) * (before + w)) <= c * (one * c));
            assert(c * ((c + 1) * (before + w)) >= c * (-one * c));
        }
    }
}

/// The triangle stays between minus one and one, whatever the phase and
/// however many harmonics it has.
pub proof fn law_triangle_within_one(phase: u32, max_harmonic: u64)
    ensures
        -ONE <= spec_triangle(phase, max_harmonic) <= ONE,
{
    let count = spec_odd_terms(max_harmonic);
    let total = spec_sine(phase) + spec_triangle_sum(phase, count);
    lemma_sine_range(phase);
    if count >= 1 {
        lemma_triangle_bound(phase, count);
        let one = ONE as int;
        let c = count as int;
        assert(-one <= total <= one) by (nonlinear_arith)
            requires
                -one * (c - 1) <= c * total <= one * (c - 1),
                c >= 1,
                one >= 0,
        ;
    } else {
        assert(spec_triangle_sum(phase, 0) == 0);
    }
}

/// A saw gains nothing from its harmonics above half of [`ONE`]: a sine is at
/// most one, and twice the number of such a harmonic is more.
pub proof fn lemma_saw_sum_settles(phase: u32, count: nat)
    requires
        2 * count >= ONE,
    ensures
        spec_saw_sum(phase, count) == spec_saw_sum(phase, (ONE / 2) as nat),
    decreases count,
{
    if 2 * count > ONE {
        lemma_saw_sum_settles(phase, (count - 1) as nat);
        lemma_sine_range(spec_harmonic_phase(phase, count as u64));
        lemma_trunc_div_small(
            spec_sine(spec_harmonic_phase(phase, count as u64)) as int,
            2 * (count as int),
        );
    }
}

/// A square gains nothing from its odd harmonics above [`ONE`].
pub proof fn lemma_square_sum_settles(phase: u32, count: nat)
    requires
        2 * count >= ONE,
    ensures
        spec_square_sum(phase, count) == spec_square_sum(phase, (ONE / 2) as nat),
    decreases count,
{
    if 2 * count > ONE {
        lemma_square_sum_settles(phase, (count - 1) as nat);
        lemma_sine_range(spec_harmonic_phase(phase, (2 * count - 1) as u64));
        lemma_trunc_div_small(
            spec_sine(spec_harmonic_phase(phase, (2 * count - 1) as u64)) as int,
            2 * count - 1,
        );
    }
}

/// A triangle gains nothing from its odd harmonics above [`ONE`].
pub proof fn lemma_triangle_sum_settles(phase: u32, count: nat)
    requires
        2 * count >= ONE,
    ensures
        spec_triangle_sum(phase, count) == spec_triangle_sum(phase, (ONE / 2) as nat),
    decreases count,
{
    if 2 * count > ONE {
        let n = 2 * count - 1;
        lemma_triangle_sum_settles(phase, (count - 1) as nat);
        lemma_sine_range(spec_harmonic_phase(phase, n as u64));
        assert(n * n > ONE) by (nonlinear_arith)
            requires
                n > ONE,
                ONE == 1_000_000_000_000,
        ;
        lemma_trunc_div_small(spec_sine(spec_harmonic_phase(phase, n as u64)) as int, n * n);
    }
}

/// Every wave is the same for any two highest harmonics above [`ONE`]: what
/// lies above adds nothing. So a count of harmonics that is kept at the most
/// that a `u64` holds gives the wave that the full count would give.
pub proof fn law_harmonics_above_one_add_nothing(phase: u32, ramp_up: bool, a: u64, b: u64)
    requires
        a >= ONE + 2,
        b >= ONE + 2,
    ensures
        spec_saw(phase, ramp_up, a) == spec_saw(phase, ramp_up, b),
        spec_square(phase, a) == spec_square(phase, b),
        spec_triangle(phase, a) == spec_triangle(phase, b),
{
    lemma_saw_sum_settles(phase, spec_saw_terms(a));
    lemma_saw_sum_settles(phase, spec_saw_terms(b));
    lemma_square_sum_settles(phase, spec_odd_terms(a));
    lemma_square_sum_settles(phase, spec_odd_terms(b));
    lemma_triangle_sum_settles(phase, spec_odd_terms(a));
    lemma_triangle_sum_settles(phase, spec_odd_terms(b));
}

/// A saw with no harmonic above the first stays within one and a half. With
/// more harmonics it does not: three of them reach 1.57.
pub proof fn law_saw_of_one_harmonic_within_one_and_a_half(
    phase: u32,
    ramp_up: bool,
    max_harmonic: u64,
)
    requires
        max_harmonic <= 2,
    ensures
        -(ONE + ONE / 2) <= spec_saw(phase, ramp_up, max_harmonic) <= ONE + ONE / 2,
{
    lemma_sine_range(phase);
    lemma_sine_range(spec_harmonic_phase(phase, 1));
    assert(spec_saw_sum(phase, 0) == 0);
    assert(spec_saw_sum(phase, 1) == spec_saw_sum(phase, 0) + trunc_div(
        spec_sine(spec_harmonic_phase(phase, 1)) as int,
        2,
    ));
}

/// A square with no harmonic above the fundamental stays within one. With
/// its first odd harmonic, which is the fundamental once more, it reaches two.
pub proof fn law_square_of_no_harmonic_within_one(phase: u32, max_harmonic: u64)
    requires
        max_harmonic <= 3,
    ensures
        -ONE <= spec_square(phase, max_harmonic) <= ONE,
{
    lemma_sine_range(phase);
    assert(spec_square_sum(phase, 0) == 0);
}

/// A sum of saw harmonics grows by at most one per harmonic.
pub proof fn lemma_saw_sum_bound(phase: u32, count: nat)
    ensures
        -count * ONE <= spec_saw_sum(phase, count) <= count * ONE,
    decreases count,
{
    if count > 0 {
        lemma_saw_sum_bound(phase, (count - 1) as nat);
        lemma_sine_range(spec_harmonic_phase(phase, count as u64));
        lemma_trunc_div_bound(
            spec_sine(spec_harmonic_phase(phase, count as u64)) as int,
            2 * (count as int),
            ONE as int,
        );
    }
}

/// A sum of square harmonics grows by at most one per harmonic.
pub proof fn lemma_square_sum_bound(phase: u32, count: nat)
    ensures
        -count * ONE <= spec_square_sum(phase, count) <= count * ONE,
    decreases count,
{
    if count > 0 {
        lemma_square_sum_bound(phase, (count - 1) as nat);
        lemma_sine_range(spec_harmonic_phase(phase, (2 * count - 1) as u64));
        lemma_trunc_div_bound(
            spec_sine(spec_harmonic_phase(phase, (2 * count - 1) as u64)) as int,
            2 * count - 1,
            ONE as int,
        );
    }
}

/// A sum of triangle harmonics grows by at most one per harmonic.
pub proof fn lemma_triangle_sum_bound(phase: u32, count: nat)
    ensures
        -count * ONE <= spec_triangle_sum(phase, count) <= count * ONE,
    decreases count,
{
    if count > 0 {
        let n = 2 * count - 1;
        lemma_triangle_sum_bound(phase, (count - 1) as nat);
        lemma_sine_range(spec_harmonic_phase(phase, n as u64));
        assert(n * n >= 1) by (nonlinear_arith)
            requires
                n >= 1,
        ;
        lemma_trunc_div_bound(
            spec_sine(spec_harmonic_phase(phase, n as u64)) as int,
            n * n,
            ONE as int,
        );
    }
}

/// The sine at a distance `arc` from a zero of the sine.
fn quarter_sine(arc: u32) -> (r: Sample)
    requires
        arc <= QUARTER_TURN,
    ensures
        r == spec_quarter_sine(arc),
        0 <= r <= ONE,
{
    proof {
        lemma_quarter_sine_range(arc);
        lemma_angle_range(arc);
    }
    if arc >= QUARTER_TURN {
        return ONE;
    }
    assert(0 <= arc * FINE_PI <= 0x4000_0000 * 3_141_592_653_589_793_238) by (nonlinear_arith)
        requires
            0 <= arc <= 0x4000_0000,
            FINE_PI == 3_141_592_653_589_793_238,
    ;
    let x: i128 = ((arc as i128) * (FINE_PI as i128)) / 0x8000_0000;
    assert(0 <= x * x <= 1_570_796_326_794_896_619 * 1_570_796_326_794_896_619)
        by (nonlinear_arith)
        requires
            0 <= x <= 1_570_796_326_794_896_619,
    ;
    let x2: i128 = (x * x) / (FINE as i128);
    let mut tail: i128 = FINE as i128;
    let mut k: u64 = SINE_TERMS;
    while k >= 1
        invariant
            k <= SINE_TERMS,
            0 <= x2 <= SQUARE_LIMIT,
            0 <= tail <= FINE,
            tail == spec_tail(x2 as int, (k + 1) as nat, SINE_TERMS as nat),
        decreases k,
    {
        assert(6 <= 2 * k * (2 * k + 1) <= 210) by (nonlinear_arith)
            requires
                1 <= k <= 7,
        ;
        let c: i128 = (2 * k * (2 * k + 1)) as i128;
        proof {
            assert(c >= 6) by (nonlinear_arith)
                requires
                    c == 2 * k * (2 * k + 1),
                    k >= 1,
            ;
            assert(0 < FINE * c <= FINE * 210) by (nonlinear_arith)
                requires
                    6 <= c,
                    c == 2 * k * (2 * k + 1),
                    k <= 7,
                    FINE == 1_000_000_000_000_000_000,
            ;
            lemma_step_range(x2 as int, tail as int, c as int);
        }
        tail = (FINE as i128) - (x2 * tail) / ((FINE as i128) * c);
        k = k - 1;
    }
    assert(0 <= x * tail <= 1_570_796_326_794_896_619 * 1_000_000_000_000_000_000)
        by (nonlinear_arith)
        requires
            0 <= x <= 1_570_796_326_794_896_619,
            0 <= tail <= 1_000_000_000_000_000_000,
    ;
    let series: i128 = ((x * tail) / (FINE as i128)) / (FINE_PER_SAMPLE as i128);
    if series > ONE as i128 {
        ONE
    } else {
        series as i64
    }
}

/// The sine of a phase.
pub fn sine(phase: u32) -> (r: Sample)
    ensures
        r == spec_sine(phase),
        -ONE <= r <= ONE,
{
    let offset: u32 = phase % QUARTER_TURN;
    let arc: u32 = if (phase / QUARTER_TURN) % 2 == 0 {
        offset
    } else {
        QUARTER_TURN - offset
    };
    let magnitude: Sample = quarter_sine(arc);
    if phase < HALF_TURN {
        magnitude
    } else {
        -magnitude
    }
}

/// The phase of a harmonic.
pub fn harmonic_phase(phase: u32, n: u64) -> (r: u32)
    ensures
        r == spec_harmonic_phase(phase, n),
{
    assert(0 <= n * phase <= 0xffff_ffff_ffff_ffff * 0xffff_ffff) by (nonlinear_arith)
        requires
            0 <= n <= 0xffff_ffff_ffff_ffff,
            0 <= phase <= 0xffff_ffff,
    ;
    (((n as u128) * (phase as u128)) % (TURN as u128)) as u32
}

/// The highest harmonic that fits below half the sample rate.
pub fn max_harmonic(rate: u32, freq: Sample) -> (r: u64)
    ensures
        r == spec_max_harmonic(rate, freq),
{
    if freq <= 0 {
        0
    } else {
        assert(0 <= rate * ONE <= 0xffff_ffff * 1_000_000_000_000) by (nonlinear_arith)
            requires
                0 <= rate <= 0xffff_ffff,
                ONE == 1_000_000_000_000,
        ;
        let count: u128 = ((rate as u128) * (ONE as u128)) / (2 * (freq as u128));
        if count > u64::MAX as u128 {
            u64::MAX
        } else {
            count as u64
        }
    }
}

/// A band-limited saw wave.
pub fn saw(phase: u32, ramp_up: bool, max_harmonic: u64) -> (r: Sample)
    ensures
        r == spec_saw(phase, ramp_up, max_harmonic),
{
    let mut sum: i128 = sine(phase) as i128;
    let mut n: u64 = 1;
    while n < max_harmonic
        invariant
            1 <= n,
            n <= max_harmonic || n == 1,
            sum == spec_sine(phase) + spec_saw_sum(phase, (n - 1) as nat),
        decreases max_harmonic - n,
    {
        proof {
            lemma_sine_range(phase);
            lemma_saw_sum_bound(phase, (n - 1) as nat);
            lemma_saw_sum_bound(phase, n as nat);
            assert(0 <= (n - 1) * ONE <= n * ONE <= 0xffff_ffff_ffff_ffff * 1_000_000_000_000)
                by (nonlinear_arith)
                requires
                    1 <= n <= 0xffff_ffff_ffff_ffff,
                    ONE == 1_000_000_000_000,
            ;
        }
        let term: i128 = (sine(harmonic_phase(phase, n)) as i128) / (2 * (n as i128));
        sum = sum + term;
        n = n + 1;
    }
    if ramp_up {
        proof {
            lemma_sine_range(phase);
            lemma_saw_sum_bound(phase, (n - 1) as nat);
            assert(0 <= (n - 1) * ONE <= 0xffff_ffff_ffff_ffff * 1_000_000_000_000) by (nonlinear_arith)
                requires
                    1 <= n <= 0xffff_ffff_ffff_ffff,
                    ONE == 1_000_000_000_000,
            ;
        }
        saturate(-sum)
    } else {
        saturate(sum)
    }
}

/// A band-limited square wave.
pub fn square(phase: u32, max_harmonic: u64) -> (r: Sample)
    ensures
        r == spec_square(phase, max_harmonic),
{
    let last: u64 = max_harmonic / 2;
    let mut sum: i128 = sine(phase) as i128;
    let mut i: u64 = 1;
    while i < last
        invariant
            1 <= i,
            i <= last || i == 1,
            last <= 0x7fff_ffff_ffff_ffff,
            sum == spec_sine(phase) + spec_square_sum(phase, (i - 1) as nat),
        decreases last - i,
    {
        proof {
            lemma_sine_range(phase);
            lemma_square_sum_bound(phase, (i - 1) as nat);
            lemma_square_sum_bound(phase, i as nat);
            assert(0 <= (i - 1) * ONE <= i * ONE <= 0xffff_ffff_ffff_ffff * 1_000_000_000_000)
                by (nonlinear_arith)
                requires
                    1 <= i <= 0xffff_ffff_ffff_ffff,
                    ONE == 1_000_000_000_000,
            ;
        }
        let n: u64 = 2 * i - 1;
        let term: i128 = (sine(harmonic_phase(phase, n)) as i128) / (n as i128);
        sum = sum + term;
        i = i + 1;
    }
    saturate(sum)
}

/// A band-limited triangle wave.
pub fn triangle(phase: u32, max_harmonic: u64) -> (r: Sample)
    ensures
        r == spec_triangle(phase, max_harmonic),
        -ONE <= r <= ONE,
{
    proof {
        law_triangle_within_one(phase, max_harmonic);
    }
    let last: u64 = max_harmonic / 2;
    let mut sum: i128 = sine(phase) as i128;
    let mut i: u64 = 1;
    while i < last
        invariant
            1 <= i,
            i <= last || i == 1,
            last <= 0x7fff_ffff_ffff_ffff,
            sum == spec_sine(phase) + spec_triangle_sum(phase, (i - 1) as nat),
        decreases last - i,
    {
        proof {
            lemma_sine_range(phase);
            lemma_triangle_sum_bound(phase, (i - 1) as nat);
            lemma_triangle_sum_bound(phase, i as nat);
            assert(0 <= (i - 1) * ONE <= i * ONE <= 0xffff_ffff_ffff_ffff * 1_000_000_000_000)
                by (nonlinear_arith)
                requires
                    1 <= i <= 0xffff_ffff_ffff_ffff,
                    ONE == 1_000_000_000_000,
            ;
        }
        let n: u64 = 2 * i - 1;
        let s: Sample = sine(harmonic_phase(phase, n));
        let term: i128 = if n > 1_000_000 {
            proof {
                assert(n * n > ONE) by (nonlinear_arith)
                    requires
                        n > 1_000_000,
                        ONE == 1_000_000_000_000,
                ;
                lemma_trunc_div_small(s as int, n * n);
            }
            0
        } else {
            assert(1 <= n * n <= 1_000_000_000_000) by (nonlinear_arith)
                requires
                    1 <= n <= 1_000_000,
            ;
            (s as i128) / ((n * n) as i128)
        };
        if i % 2 == 0 {
            sum = sum + term;
        } else {
            sum = sum - term;
        }
        i = i + 1;
    }
    saturate(sum)
}

} // verus!
