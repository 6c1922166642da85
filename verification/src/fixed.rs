//! Fixed-point arithmetic on samples.

use vstd::prelude::*;

verus! {

/// A signal value in fixed point: the integer counts 10^-12, so that a ramp
/// of any number of samples that a `u32` holds has a level of its own for
/// every sample.
pub type Sample = i64;

/// The sample that stands for one.
pub const ONE: Sample = 1_000_000_000_000;

/// `x` brought into the range of a sample: what lies beyond an end stays at that end.
pub open spec fn clamp(x: int) -> Sample {
    if x < i64::MIN {
        i64::MIN
    } else if x > i64::MAX {
        i64::MAX
    } else {
        x as i64
    }
}

/// The quotient of `a` by a positive `b`, rounded toward zero.
pub open spec fn trunc_div(a: int, b: int) -> int
    recommends
        b > 0,
{
    if a >= 0 {
        a / b
    } else {
        -((-a) / b)
    }
}

/// The fixed-point product of two samples.
pub open spec fn spec_product(a: Sample, b: Sample) -> Sample {
    clamp(trunc_div(a * b, ONE as int))
}

/// The point reached after `ticks` of `total` equal steps on the line from `from` to `to`.
pub open spec fn spec_lerp(from: Sample, to: Sample, ticks: u32, total: u32) -> int
    recommends
        total > 0,
{
    from + trunc_div((to - from) * ticks, total as int)
}

/// The number of whole samples that `seconds` last at `rate` samples per second,
/// kept within the range of a `u32`.
pub open spec fn spec_samples_for(seconds: Sample, rate: u32) -> u32 {
    let n = trunc_div(seconds * rate, ONE as int);
    if n < 0 {
        0
    } else if n > u32::MAX {
        u32::MAX
    } else {
        n as u32
    }
}

/// Saturates a wide intermediate result into a sample.
pub fn saturate(x: i128) -> (r: Sample)
    ensures
        r == clamp(x as int),
{
    if x < i64::MIN as i128 {
        i64::MIN
    } else if x > i64::MAX as i128 {
        i64::MAX
    } else {
        x as i64
    }
}

/// Multiplies two samples in fixed point, rounding toward zero and saturating.
pub fn product(a: Sample, b: Sample) -> (r: Sample)
    ensures
        r == spec_product(a, b),
{
    assert(-0x4000_0000_0000_0000_0000_0000_0000_0000 <= a * b
        <= 0x4000_0000_0000_0000_0000_0000_0000_0000) by (nonlinear_arith)
        requires
            -0x8000_0000_0000_0000 <= a <= 0x7fff_ffff_ffff_ffff,
            -0x8000_0000_0000_0000 <= b <= 0x7fff_ffff_ffff_ffff,
    ;
    let wide: i128 = (a as i128) * (b as i128);
    saturate(wide / (ONE as i128))
}

/// Interpolates linearly between two levels of a gain.
pub fn lerp(from: Sample, to: Sample, ticks: u32, total: u32) -> (r: Sample)
    requires
        0 <= from <= ONE,
        0 <= to <= ONE,
        ticks <= total,
        total > 0,
    ensures
        r == spec_lerp(from, to, ticks, total),
        from <= to ==> from <= r <= to,
        to <= from ==> to <= r <= from,
{
    let span: i64 = to - from;
    assert(-0x1_0000_0000 * 1_000_000_000_000 <= span * ticks <= 0x1_0000_0000
        * 1_000_000_000_000) by (nonlinear_arith)
        requires
            -1_000_000_000_000 <= span <= 1_000_000_000_000,
            0 <= ticks <= 0xffff_ffff,
    ;
    let moved: i128 = ((span as i128) * (ticks as i128)) / (total as i128);
    proof {
        lemma_lerp_between(from, to, ticks, total);
    }
    from + (moved as i64)
}

/// A point of the line from `from` to `to` lies between its two ends.
pub proof fn lemma_lerp_between(from: Sample, to: Sample, ticks: u32, total: u32)
    requires
        ticks <= total,
        total > 0,
    ensures
        from <= to ==> from <= spec_lerp(from, to, ticks, total) <= to,
        to <= from ==> to <= spec_lerp(from, to, ticks, total) <= from,
{
    let span = to - from;
    let t = ticks as int;
    let n = total as int;
    if span >= 0 {
        assert(0 <= (span * t) / n <= span) by (nonlinear_arith)
            requires
                0 <= span,
                0 <= t <= n,
                n > 0,
        ;
        assert(span * t >= 0) by (nonlinear_arith)
            requires
                0 <= span,
                0 <= t,
        ;
    } else {
        assert(0 <= ((-span) * t) / n <= (-span)) by (nonlinear_arith)
            requires
                0 <= -span,
                0 <= t <= n,
                n > 0,
        ;
        assert((-span) * t == -(span * t)) by (nonlinear_arith);
        assert(span * t <= 0) by (nonlinear_arith)
            requires
                span < 0,
                0 <= t,
        ;
    }
}

/// Further along the line means nearer to its end: the points are ordered as the ends are.
pub proof fn lemma_lerp_monotone(from: Sample, to: Sample, i: u32, j: u32, total: u32)
    requires
        i <= j,
        total > 0,
    ensures
        from <= to ==> spec_lerp(from, to, i, total) <= spec_lerp(from, to, j, total),
        to <= from ==> spec_lerp(from, to, j, total) <= spec_lerp(from, to, i, total),
{
    let span = to - from;
    let n = total as int;
    if span >= 0 {
        assert(0 <= span * i <= span * j) by (nonlinear_arith)
            requires
                0 <= span,
                0 <= i <= j,
        ;
        assert((span * i) / n <= (span * j) / n) by (nonlinear_arith)
            requires
                span * i <= span * j,
                n > 0,
        ;
        if span == 0 {
            assert(span * i == 0 && span * j == 0) by (nonlinear_arith)
                requires
                    span == 0,
            ;
        }
    } else {
        assert(0 <= (-span) * i <= (-span) * j) by (nonlinear_arith)
            requires
                0 <= -span,
                0 <= i <= j,
        ;
        assert(((-span) * i) / n <= ((-span) * j) / n) by (nonlinear_arith)
            requires
                (-span) * i <= (-span) * j,
                n > 0,
        ;
        assert((-span) * i == -(span * i)) by (nonlinear_arith);
        assert((-span) * j == -(span * j)) by (nonlinear_arith);
        assert(span * i <= 0) by (nonlinear_arith)
            requires
                span < 0,
                0 <= i,
        ;
        assert(span * j <= 0) by (nonlinear_arith)
            requires
                span < 0,
                0 <= j,
        ;
    }
}

/// A rising line from zero to one gains at least one level with every step:
/// there are more levels than a `u32` can count steps.
pub proof fn lemma_unit_ramp_strict(t: u32, total: u32)
    requires
        t + 1 <= total,
    ensures
        spec_lerp(0, ONE, t, total) < spec_lerp(0, ONE, (t + 1) as u32, total),
{
    let n = total as int;
    let one = ONE as int;
    let a = one * t;
    assert(a >= 0 && one * (t + 1) == a + one) by (nonlinear_arith)
        requires
            a == one * t,
            one > 0,
            t >= 0,
    ;
    assert(a / n < (a + one) / n) by (nonlinear_arith)
        requires
            0 < n <= one,
            a >= 0,
    ;
}

/// Before its last step a rising line from zero to one is still below one.
pub proof fn lemma_unit_ramp_below_one(t: u32, total: u32)
    requires
        t < total,
    ensures
        spec_lerp(0, ONE, t, total) < ONE,
{
    let n = total as int;
    let one = ONE as int;
    assert(0 <= (one * t) && (one * t) / n < one) by (nonlinear_arith)
        requires
            0 <= t < n,
            one > 0,
    ;
}

/// Converts a duration in seconds to a number of samples at `rate` samples per second.
pub fn samples_for(seconds: Sample, rate: u32) -> (r: u32)
    ensures
        r == spec_samples_for(seconds, rate),
{
    assert(-0x8000_0000_0000_0000 * 0x1_0000_0000 <= seconds * rate
        <= 0x8000_0000_0000_0000 * 0x1_0000_0000) by (nonlinear_arith)
        requires
            -0x8000_0000_0000_0000 <= seconds <= 0x7fff_ffff_ffff_ffff,
            0 <= rate <= 0xffff_ffff,
    ;
    let n: i128 = ((seconds as i128) * (rate as i128)) / (ONE as i128);
    if n < 0 {
        0
    } else if n > u32::MAX as i128 {
        u32::MAX
    } else {
        n as u32
    }
}

} // verus!
