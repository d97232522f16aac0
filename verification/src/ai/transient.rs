//! How long to back off after a transient fault.

use crate::ai::delay::{Delay, MAX_NANOS};
use vstd::arithmetic::power2::pow2;
use vstd::prelude::*;

verus! {

/// How many times the base delay the exponential part of a backoff can be.
pub const MAX_MULTIPLIER: u128 = 60;

/// What a drawn word is divided by for the fraction that it stands for: its
/// upper 53 bits are kept, as many as a double-precision number can hold.
pub const DRAW_DIVISOR: u64 = 2_048;

/// Four times the number of fractions that can be drawn: the jitter is a
/// quarter of the backoff times the fraction.
pub const JITTER_SCALE: u128 = 36_028_797_018_963_968;

/// The multiple of the base delay after `streak` transient faults: one, then
/// doubling from fault to fault, up to sixty.
pub open spec fn multiplier(streak: nat) -> nat {
    let doubled = pow2((streak - 1) as nat);
    if doubled <= MAX_MULTIPLIER {
        doubled
    } else {
        MAX_MULTIPLIER as nat
    }
}

/// The backoff before jitter: the multiple of the base delay, but no less than
/// what the server asked for.
pub open spec fn backoff(base: nat, streak: nat, retry_after: nat) -> nat {
    let exponential = base * multiplier(streak);
    if exponential >= retry_after {
        exponential
    } else {
        retry_after
    }
}

/// The numerator of the fraction that `draw` stands for, out of
/// `JITTER_SCALE / 4`.
pub open spec fn fraction(draw: u64) -> nat {
    (draw / DRAW_DIVISOR) as nat
}

/// The jitter that `draw` adds: a quarter of the backoff times the drawn
/// fraction, to the nearest nanosecond.
pub open spec fn jitter(backoff: nat, draw: u64) -> nat {
    (backoff * fraction(draw) + JITTER_SCALE as nat / 2) / JITTER_SCALE as nat
}

/// The multiple of the base delay after `streak` transient faults.
pub fn backoff_multiplier(streak: u32) -> (mult: u128)
    requires
        streak >= 1,
    ensures
        mult == multiplier(streak as nat),
        1 <= mult <= MAX_MULTIPLIER,
{
    let mut mult: u128 = 1;
    let mut faults: u32 = 1;
    proof {
        vstd::arithmetic::power2::lemma_pow2(0);
        vstd::arithmetic::power::lemma_pow0(2);
    }
    while faults < streak && mult < MAX_MULTIPLIER
        invariant
            1 <= faults <= streak,
            mult == pow2((faults - 1) as nat),
            1 <= mult < 2 * MAX_MULTIPLIER,
        decreases streak - faults,
    {
        proof {
            vstd::arithmetic::power2::lemma_pow2_unfold(faults as nat);
        }
        mult = mult * 2;
        faults = faults + 1;
    }
    if faults < streak {
        proof {
            vstd::arithmetic::power2::lemma_pow2_strictly_increases(
                (faults - 1) as nat,
                (streak - 1) as nat,
            );
        }
        MAX_MULTIPLIER
    } else if mult > MAX_MULTIPLIER {
        MAX_MULTIPLIER
    } else {
        mult
    }
}

/// The backoff before jitter, in nanoseconds, after `streak` transient faults,
/// the last of which came with `retry_after`.
pub fn backoff_nanos(base: Delay, streak: u32, retry_after: Delay) -> (nanos: u128)
    requires
        streak >= 1,
    ensures
        nanos == backoff(base@, streak as nat, retry_after@),
        nanos <= MAX_NANOS * MAX_MULTIPLIER,
{
    let mult: u128 = backoff_multiplier(streak);
    let base_nanos: u128 = base.as_nanos();
    let asked: u128 = retry_after.as_nanos();
    assert(base_nanos * mult <= MAX_NANOS * MAX_MULTIPLIER) by (nonlinear_arith)
        requires
            base_nanos <= MAX_NANOS,
            mult <= MAX_MULTIPLIER,
    ;
    let exponential: u128 = base_nanos * mult;
    if exponential >= asked {
        exponential
    } else {
        asked
    }
}

/// The jitter that `draw` adds to a backoff of `nanos` nanoseconds.
pub fn jitter_nanos(nanos: u128, draw: u64) -> (extra: u128)
    requires
        nanos <= MAX_NANOS,
    ensures
        extra == jitter(nanos as nat, draw),
        4 * extra <= nanos + 1,
{
    let drawn: u128 = (draw / DRAW_DIVISOR) as u128;
    let whole: u128 = nanos / JITTER_SCALE;
    let rest: u128 = nanos % JITTER_SCALE;
    let half: u128 = JITTER_SCALE / 2;
    assert(whole * drawn <= 1_000_000_000_000 * 9_007_199_254_740_992) by (nonlinear_arith)
        requires
            whole < 1_000_000_000_000,
            drawn < 9_007_199_254_740_992,
    ;
    assert(rest * drawn <= 36_028_797_018_963_968 * 9_007_199_254_740_992) by (nonlinear_arith)
        requires
            rest < 36_028_797_018_963_968,
            drawn < 9_007_199_254_740_992,
    ;
    proof {
        let scale = JITTER_SCALE as int;
        assert(nanos * drawn + half == (whole * drawn) * scale + (rest * drawn + half))
            by (nonlinear_arith)
            requires
                nanos == scale * whole + rest,
        ;
        vstd::arithmetic::div_mod::lemma_hoist_over_denominator(
            rest * drawn + half,
            whole * drawn,
            scale as nat,
        );
        jitter_is_at_most_a_quarter(nanos as nat, draw);
    }
    whole * drawn + (rest * drawn + half) / JITTER_SCALE
}

/// `backoff` with the jitter that `draw` stands for added to it.
pub fn jittered(backoff: Delay, draw: u64) -> (delay: Delay)
    requires
        backoff@ + jitter(backoff@, draw) <= MAX_NANOS,
    ensures
        delay@ == backoff@ + jitter(backoff@, draw),
{
    let nanos: u128 = backoff.as_nanos();
    Delay::from_nanos(nanos + jitter_nanos(nanos, draw))
}

/// The jitter is at most a quarter of the backoff. Where the quarter falls three
/// quarters of a nanosecond above a whole one, it can be rounded up.
pub proof fn jitter_is_at_most_a_quarter(backoff: nat, draw: u64)
    ensures
        4 * jitter(backoff, draw) <= backoff + 1,
        backoff % 4 != 3 ==> 4 * jitter(backoff, draw) <= backoff,
{
    let scale = JITTER_SCALE as int;
    let drawn = fraction(draw) as int;
    let sum = backoff * drawn + scale / 2;
    let extra = jitter(backoff, draw) as int;
    vstd::arithmetic::div_mod::lemma_fundamental_div_mod(sum, scale);
    assert(extra * scale <= sum) by (nonlinear_arith)
        requires
            sum == scale * extra + sum % scale,
            0 <= sum % scale,
    ;
    if backoff == 0 {
        assert(sum == scale / 2);
    } else {
        assert(4 * (backoff * drawn) <= backoff * (scale - 4)) by (nonlinear_arith)
            requires
                4 * drawn <= scale - 4,
                backoff >= 0,
        ;
        assert(4 * extra < backoff + 2) by (nonlinear_arith)
            requires
                extra * scale <= sum,
                4 * sum <= backoff * (scale - 4) + 2 * scale,
                backoff > 0,
                scale > 0,
        ;
    }
}

/// The jitter is a quarter of the backoff times the fraction that the upper 53 bits
/// of the drawn word stand for, out of 2^53, to the nearest nanosecond: no other
/// whole number is as close.
pub proof fn jitter_is_the_drawn_part_of_a_quarter(backoff: nat, draw: u64)
    ensures
        ({
            let extra = jitter(backoff, draw) as int;
            let exact = backoff * (draw / 2_048);
            36_028_797_018_963_968 * (2 * extra - 1) <= 2 * exact < 36_028_797_018_963_968 * (2
                * extra + 1)
        }),
{
    let scale = JITTER_SCALE as int;
    let sum = backoff * fraction(draw) + scale / 2;
    vstd::arithmetic::div_mod::lemma_fundamental_div_mod(sum, scale);
}

/// A larger draw adds no less jitter, and the smallest adds none.
pub proof fn jitter_grows_with_the_draw(backoff: nat, draw: u64, larger: u64)
    requires
        draw <= larger,
    ensures
        jitter(backoff, draw) <= jitter(backoff, larger),
        jitter(backoff, 0) == 0,
{
    jitter_is_the_drawn_part_of_a_quarter(backoff, draw);
    jitter_is_the_drawn_part_of_a_quarter(backoff, larger);
    jitter_is_the_drawn_part_of_a_quarter(backoff, 0);
    assert(backoff * (draw / 2_048) <= backoff * (larger / 2_048)) by (nonlinear_arith)
        requires
            draw / 2_048 <= larger / 2_048,
    ;
    assert(backoff * (0u64 / 2_048) == 0) by (nonlinear_arith);
}

/// The draws spread the jitter over the whole quarter of the backoff: the middle one
/// adds an eighth, and the largest a quarter but for a part in 2^53 and rounding.
pub proof fn jitter_takes_up_the_whole_quarter(backoff: nat)
    ensures
        backoff <= 8 * jitter(backoff, 0x8000_0000_0000_0000) + 4,
        8 * jitter(backoff, 0x8000_0000_0000_0000) <= backoff + 4,
        9_007_199_254_740_992 * backoff <= 9_007_199_254_740_992 * (4 * jitter(backoff, u64::MAX)
            + 2) + backoff,
        backoff <= 18_014_398_509_481_984 ==> backoff <= 4 * jitter(backoff, u64::MAX) + 4,
{
    jitter_is_the_drawn_part_of_a_quarter(backoff, 0x8000_0000_0000_0000);
    jitter_is_the_drawn_part_of_a_quarter(backoff, u64::MAX);
    assert(0x8000_0000_0000_0000u64 / 2_048 == 4_503_599_627_370_496);
    assert(u64::MAX / 2_048 == 9_007_199_254_740_991);
    assert(backoff * (0x8000_0000_0000_0000u64 / 2_048) == 4_503_599_627_370_496 * backoff);
    assert(backoff * (u64::MAX / 2_048) == 9_007_199_254_740_991 * backoff);
}

/// No draw adds more jitter than the largest word.
pub proof fn jitter_is_largest_at_the_largest_draw(backoff: nat, draw: u64)
    ensures
        jitter(backoff, draw) <= jitter(backoff, u64::MAX),
{
    let half = JITTER_SCALE as int / 2;
    assert(backoff * fraction(draw) <= backoff * fraction(u64::MAX)) by (nonlinear_arith)
        requires
            fraction(draw) <= fraction(u64::MAX),
    ;
    vstd::arithmetic::div_mod::lemma_div_is_ordered(
        backoff * fraction(draw) + half,
        backoff * fraction(u64::MAX) + half,
        JITTER_SCALE as int,
    );
}

/// The multiple of the base delay doubles from one transient fault to the next
/// until it reaches sixty, and stays there.
pub proof fn multiplier_doubles_up_to_the_cap(streak: nat)
    requires
        streak >= 1,
    ensures
        multiplier(1) == 1,
        multiplier(streak + 1) == if 2 * multiplier(streak) <= 60 {
            2 * multiplier(streak)
        } else {
            60
        },
{
    vstd::arithmetic::power2::lemma_pow2(0);
    vstd::arithmetic::power::lemma_pow0(2);
    vstd::arithmetic::power2::lemma_pow2_unfold(streak);
}

/// Where the server asks for nothing, the backoff is the base delay at first and
/// doubles from one transient fault to the next, up to sixty base delays.
pub proof fn backoff_doubles_up_to_sixty_base_delays(base: nat, streak: nat)
    requires
        streak >= 1,
    ensures
        backoff(base, 1, 0) == base,
        2 * backoff(base, streak, 0) <= 60 * base ==> backoff(base, streak + 1, 0) == 2 * backoff(
            base,
            streak,
            0,
        ),
        2 * backoff(base, streak, 0) >= 60 * base ==> backoff(base, streak + 1, 0) == 60 * base,
{
    multiplier_doubles_up_to_the_cap(streak);
    let now = multiplier(streak);
    let next = multiplier(streak + 1);
    assert(base * multiplier(1) == base) by (nonlinear_arith)
        requires
            multiplier(1) == 1,
    ;
    if 2 * now <= 60 {
        assert(base * next == 2 * (base * now)) by (nonlinear_arith)
            requires
                next == 2 * now,
        ;
        assert(2 * (base * now) <= 60 * base) by (nonlinear_arith)
            requires
                2 * now <= 60,
        ;
    } else {
        assert(base * next == 60 * base) by (nonlinear_arith)
            requires
                next == 60,
        ;
        assert(2 * (base * now) >= 60 * base) by (nonlinear_arith)
            requires
                2 * now >= 60,
        ;
    }
}

/// What the server asks for is a floor under the backoff, and nothing more: the
/// backoff is the longer of it and of the one where the server asks for nothing.
pub proof fn backoff_is_floored_by_what_the_server_asks_for(
    base: nat,
    streak: nat,
    retry_after: nat,
)
    ensures
        backoff(base, streak, retry_after) >= retry_after,
        backoff(base, streak, retry_after) >= backoff(base, streak, 0),
        backoff(base, streak, retry_after) == retry_after || backoff(base, streak, retry_after)
            == backoff(base, streak, 0),
{
}

/// A backoff is no shorter than what the server asked for, and no longer than
/// that or sixty times the base delay, whichever is longer.
pub proof fn backoff_stays_between_its_bounds(base: nat, streak: nat, retry_after: nat)
    ensures
        retry_after <= backoff(base, streak, retry_after),
        backoff(base, streak, retry_after) <= retry_after || backoff(base, streak, retry_after)
            <= base * MAX_MULTIPLIER,
{
    assert(base * multiplier(streak) <= base * MAX_MULTIPLIER) by (nonlinear_arith)
        requires
            multiplier(streak) <= MAX_MULTIPLIER,
    ;
}

} // verus!
