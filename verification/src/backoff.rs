//! Exponential backoff, with and without jitter.
use std::time::Duration;
use std::time::SystemTime;
use std::time::UNIX_EPOCH;

use vstd::prelude::*;

verus! {

/// Multiplier that spreads the clock reading over a whole seed.
pub const SEED_MULTIPLIER: u64 = 0x9E37_79B9_7F4A_7C15;

/// Output multiplier of the xorshift64* generator.
pub const OUTPUT_MULTIPLIER: u64 = 0x2545_F491_4F6C_DD1D;

/// The delay before a replay attempt: `min(max, base * 2^attempt)`.
pub open spec fn backoff_delay(base: nat, max: nat, attempt: nat) -> nat {
    if base * vstd::arithmetic::power2::pow2(attempt) < max {
        base * vstd::arithmetic::power2::pow2(attempt)
    } else {
        max
    }
}

/// The seed made of a counter and a clock reading in nanoseconds.
pub open spec fn seed(counter: u64, nanos: u64) -> u64 {
    counter ^ (nanos << 32) ^ nanos.wrapping_mul(SEED_MULTIPLIER)
}

/// One xorshift step with the shifts 12, 25 and 27.
pub open spec fn xorshift(state: u64) -> u64 {
    let a = state ^ (state >> 12);
    let b = a ^ (a << 25);
    b ^ (b >> 27)
}

/// The number between 0 and `max` that a counter and a clock reading give.
pub open spec fn drawn(max: nat, counter: u64, nanos: u64) -> nat {
    xorshift(seed(counter, nanos)).wrapping_mul(OUTPUT_MULTIPLIER) as nat % (max + 1)
}

/// Whether a number between 0 and `max` can be drawn with a counter: some
/// fraction of a second in nanoseconds gives it.
pub open spec fn can_be_drawn(max: nat, counter: u64, number: nat) -> bool {
    exists|nanos: u64|
        nanos < 1_000_000_000 && number == #[trigger] drawn(max, counter, nanos)
}

/// The counter after a draw up to `max`: the next one, but a draw up to 0 needs
/// no random number and leaves the counter alone.
pub open spec fn counter_after_draw(max: nat, counter: u64) -> u64 {
    if max == 0 {
        counter
    } else {
        counter.wrapping_add(1)
    }
}

/// [`SystemTime`], of which nothing is known but that it can be passed on.
#[verifier::external_type_specification]
#[verifier::external_body]
pub struct ExSystemTime(SystemTime);

/// [`SystemTime::now`] reads the clock; nothing is claimed of the reading.
pub assume_specification[ SystemTime::now ]() -> SystemTime;

/// [`Duration::subsec_nanos`] returns the part of a duration below one second,
/// in nanoseconds, which is always less than one billion.
pub assume_specification[ Duration::subsec_nanos ](duration: &Duration) -> (nanos: u32)
    ensures
        nanos < 1_000_000_000,
;

/// [`SystemTime::duration_since`] the Unix epoch, `None` for a clock that
/// stands before it. Nothing is claimed of the reading.
#[verifier::external_body]
fn since_epoch(now: SystemTime) -> Option<Duration> {
    now.duration_since(UNIX_EPOCH).ok()
}

/// The clock's fraction of a second in nanoseconds, 0 for a clock that stands
/// before the Unix epoch.
fn clock_nanos() -> (nanos: u64)
    ensures
        nanos < 1_000_000_000,
{
    let fraction = match since_epoch(SystemTime::now()) {
        Some(duration) => Some(duration.subsec_nanos()),
        None => None,
    };
    nanos_of_reading(fraction)
}

/// What a clock reading adds to the seed: its fraction of a second in
/// nanoseconds, and 0 when the clock stands before the Unix epoch and gives none.
pub fn nanos_of_reading(fraction: Option<u32>) -> (nanos: u64)
    ensures
        nanos == match fraction {
            Some(fraction) => fraction as u64,
            None => 0,
        },
{
    match fraction {
        Some(fraction) => fraction as u64,
        None => 0,
    }
}

/// Draws the number between 0 and `max` inclusive that a counter and a clock
/// reading give, with a small xorshift64* generator.
pub fn draw(max: u32, counter: u64, nanos: u64) -> (number: u32)
    ensures
        number == drawn(max as nat, counter, nanos),
        number <= max,
{
    let mut state: u64 = counter ^ (nanos << 32) ^ nanos.wrapping_mul(SEED_MULTIPLIER);
    state = state ^ (state >> 12);
    state = state ^ (state << 25);
    state = state ^ (state >> 27);
    (state.wrapping_mul(OUTPUT_MULTIPLIER) % (max as u64 + 1)) as u32
}

/// Returns a random number between 0 and `max` inclusive, using a small
/// xorshift64* generator seeded from the clock and a counter.
///
/// The counter rises by one with each draw, so that back-to-back calls within the
/// same nanosecond do not draw from the same seed.
pub fn random_int(max: u32, counter: &mut u64) -> (number: u32)
    ensures
        can_be_drawn(max as nat, *old(counter), number as nat),
        number <= max,
        *final(counter) == counter_after_draw(max as nat, *old(counter)),
        max == 0 ==> number == 0 && *final(counter) == *old(counter),
        max > 0 ==> *final(counter) == old(counter).wrapping_add(1),
        exists|nanos: u64|
            nanos < 1_000_000_000 && number == #[trigger] drawn(max as nat, *old(counter), nanos),
{
    if max == 0 {
        assert(drawn(0, *counter, 0) == 0);
        return 0;
    }
    let number = draw(max, *counter, clock_nanos());
    *counter = counter.wrapping_add(1);
    number
}

/// `min(max, base * 2^attempt)`
///
/// Example:
///
/// With a base of `30` and a max of `900`, the delay for each attempt will be
/// 1. `30 * 2^1 = 60`
/// 2. `30 * 2^2 = 120`
/// 3. `30 * 2^3 = 240`
/// 4. `30 * 2^4 = 480`
/// 5. `30 * 2^5 = 960 -> 900`
pub fn backoff(base: u32, max: u32, attempt: u32) -> (delay: u32)
    ensures
        delay == backoff_delay(base as nat, max as nat, attempt as nat),
        delay <= max,
        delay <= base * vstd::arithmetic::power2::pow2(attempt as nat),
        delay == max || delay == base * vstd::arithmetic::power2::pow2(attempt as nat),
{
    proof {
        vstd::arithmetic::power2::lemma2_to64();
        if attempt >= 32 {
            if attempt > 32 {
                vstd::arithmetic::power2::lemma_pow2_strictly_increases(32, attempt as nat);
            }
            let factor = vstd::arithmetic::power2::pow2(attempt as nat);
            assert(base > 0 ==> base * factor >= factor) by (nonlinear_arith);
        } else {
            vstd::arithmetic::power2::lemma_pow2_strictly_increases(attempt as nat, 32);
            let factor = vstd::arithmetic::power2::pow2(attempt as nat);
            vstd::bits::lemma_u64_shl_is_mul(1, attempt as u64);
            assert(base * factor <= u32::MAX * 0x1_0000_0000) by (nonlinear_arith)
                requires
                    base <= u32::MAX,
                    factor <= 0x1_0000_0000,
            ;
        }
    }
    if attempt >= 32 {
        if base == 0 {
            0
        } else {
            max
        }
    } else {
        let delay: u64 = base as u64 * (1u64 << attempt as u64);
        if delay < max as u64 {
            delay as u32
        } else {
            max
        }
    }
}

/// Calculates exponential backoff with jitter: a random number between 0 and
/// the result returned by [`backoff`], drawn with a counter that rises with
/// each draw.
///
/// See "Full Jitter" in
/// [Exponential Backoff and Jitter](https://aws.amazon.com/blogs/architecture/exponential-backoff-and-jitter/).
pub fn backoff_with_jitter(base: u32, max: u32, attempt: u32, counter: &mut u64) -> (delay: u32)
    ensures
        ({
            let limit = backoff_delay(base as nat, max as nat, attempt as nat);
            &&& can_be_drawn(limit, *old(counter), delay as nat)
            &&& delay <= limit
            &&& *final(counter) == counter_after_draw(limit, *old(counter))
        }),
        delay <= max,
        delay <= base * vstd::arithmetic::power2::pow2(attempt as nat),
        *final(counter) == if base == 0 || max == 0 {
            *old(counter)
        } else {
            old(counter).wrapping_add(1)
        },
{
    proof {
        backoff_is_positive(base as nat, max as nat, attempt as nat);
    }
    random_int(backoff(base, max, attempt), counter)
}

/// Each attempt waits twice as long as the one before, up to the maximum.
pub proof fn backoff_doubles_up_to_max(base: nat, max: nat, attempt: nat)
    ensures
        ({
            let doubled = 2 * backoff_delay(base, max, attempt);
            backoff_delay(base, max, attempt + 1) == if doubled < max {
                doubled
            } else {
                max
            }
        }),
{
    vstd::arithmetic::power2::lemma_pow2_unfold(attempt + 1);
    let factor = vstd::arithmetic::power2::pow2(attempt);
    assert(base * (2 * factor) == 2 * (base * factor)) by (nonlinear_arith);
}

/// The delay never exceeds the maximum and never shrinks from one attempt to a later one.
pub proof fn backoff_is_monotone_and_capped(base: nat, max: nat, earlier: nat, later: nat)
    requires
        earlier <= later,
    ensures
        backoff_delay(base, max, earlier) <= backoff_delay(base, max, later) <= max,
    decreases later - earlier,
{
    if earlier < later {
        backoff_is_monotone_and_capped(base, max, earlier, (later - 1) as nat);
        backoff_doubles_up_to_max(base, max, (later - 1) as nat);
    }
}

/// The counter after a number of draws above 0.
pub open spec fn counter_after_draws(counter: u64, draws: nat) -> u64
    decreases draws,
{
    if draws == 0 {
        counter
    } else {
        counter_after_draws(counter, (draws - 1) as nat).wrapping_add(1)
    }
}

/// The counter counts the draws and wraps around after 2^64 of them.
proof fn lemma_counter_counts(counter: u64, draws: nat)
    ensures
        counter_after_draws(counter, draws) == (counter + draws) % 0x1_0000_0000_0000_0000,
    decreases draws,
{
    if draws > 0 {
        lemma_counter_counts(counter, (draws - 1) as nat);
    }
}

/// Different counters give different seeds at one clock reading.
pub proof fn counters_give_distinct_seeds(a: u64, b: u64, nanos: u64)
    requires
        a != b,
    ensures
        seed(a, nanos) != seed(b, nanos),
{
    let shifted = nanos << 32;
    let spread = nanos.wrapping_mul(SEED_MULTIPLIER);
    assert(a ^ shifted ^ spread != b ^ shifted ^ spread) by (bit_vector)
        requires
            a != b,
    ;
}

/// No two draws of the counter's 2^64 use the same counter, so they do not draw
/// from the same seed even when the clock reads the same nanosecond.
pub proof fn draws_never_share_a_seed(counter: u64, earlier: nat, later: nat, nanos: u64)
    requires
        earlier < later,
        later - earlier < 0x1_0000_0000_0000_0000,
    ensures
        counter_after_draws(counter, earlier) != counter_after_draws(counter, later),
        seed(counter_after_draws(counter, earlier), nanos) != seed(
            counter_after_draws(counter, later),
            nanos,
        ),
{
    lemma_counter_counts(counter, earlier);
    lemma_counter_counts(counter, later);
    counters_give_distinct_seeds(
        counter_after_draws(counter, earlier),
        counter_after_draws(counter, later),
        nanos,
    );
}

/// The state from which an xorshift step leads to a given one.
spec fn unxorshift(state: u64) -> u64 {
    let b = state ^ (state >> 27) ^ (state >> 54);
    let a = b ^ (b << 25) ^ (b << 50);
    a ^ (a >> 12) ^ (a >> 24) ^ (a >> 36) ^ (a >> 48) ^ (a >> 60)
}

/// Every number between 0 and `max`, both ends included, is drawn with some
/// counter.
pub proof fn every_number_can_be_drawn(max: u32, number: u32)
    requires
        number <= max,
    ensures
        exists|counter: u64| #[trigger] can_be_drawn(max as nat, counter, number as nat),
{
    let inverse: u64 = 0x5907_1D96_D81E_CD35;
    let target = (number as u64).wrapping_mul(inverse);
    let counter = unxorshift(target);
    assert(xorshift(counter) == target) by {
        let b = target ^ (target >> 27) ^ (target >> 54);
        let a = b ^ (b << 25) ^ (b << 50);
        assert(b ^ (b >> 27) == target) by (bit_vector)
            requires
                b == target ^ (target >> 27) ^ (target >> 54),
        ;
        assert(a ^ (a << 25) == b) by (bit_vector)
            requires
                a == b ^ (b << 25) ^ (b << 50),
        ;
        assert(counter ^ (counter >> 12) == a) by (bit_vector)
            requires
                counter == a ^ (a >> 12) ^ (a >> 24) ^ (a >> 36) ^ (a >> 48) ^ (a >> 60),
        ;
    }
    assert(seed(counter, 0) == counter) by {
        assert(counter ^ (0u64 << 32) ^ 0u64 == counter) by (bit_vector);
    }
    assert(target.wrapping_mul(OUTPUT_MULTIPLIER) == number) by {
        let range: int = 0x1_0000_0000_0000_0000;
        let n = number as int;
        let (i, m) = (inverse as int, OUTPUT_MULTIPLIER as int);
        vstd::arithmetic::div_mod::lemma_mul_mod_noop_left(n * i, m, range);
        vstd::arithmetic::mul::lemma_mul_is_associative(n, i, m);
        assert(i * m == 0xCF65B3F17BF4A6B * range + 1);
        assert(n * (0xCF65B3F17BF4A6B * range + 1) == (n * 0xCF65B3F17BF4A6B) * range + n) by (nonlinear_arith);
        vstd::arithmetic::div_mod::lemma_mod_multiples_vanish(n * 0xCF65B3F17BF4A6B, n, range);
        vstd::arithmetic::div_mod::lemma_small_mod(number as nat, range as nat);
    }
    vstd::arithmetic::div_mod::lemma_small_mod(number as nat, (max + 1) as nat);
    assert(drawn(max as nat, counter, 0) == number);
    assert(can_be_drawn(max as nat, counter, number as nat));
}

/// The delay before an attempt is the smaller of the maximum and the base times
/// two to the power of the attempt.
pub proof fn backoff_is_the_smaller_of_the_two(base: nat, max: nat, attempt: nat)
    ensures
        backoff_delay(base, max, attempt) <= max,
        backoff_delay(base, max, attempt) <= base * vstd::arithmetic::power2::pow2(attempt),
        backoff_delay(base, max, attempt) == max || backoff_delay(base, max, attempt) == base
            * vstd::arithmetic::power2::pow2(attempt),
{
}

/// The doubling starts from the base.
pub proof fn backoff_starts_at_the_base(base: nat, max: nat)
    ensures
        backoff_delay(base, max, 0) == if base < max {
            base
        } else {
            max
        },
{
    vstd::arithmetic::power2::lemma2_to64();
}

/// There is a delay exactly when the base and the maximum are positive.
pub proof fn backoff_is_positive(base: nat, max: nat, attempt: nat)
    ensures
        backoff_delay(base, max, attempt) > 0 <==> base > 0 && max > 0,
{
    vstd::arithmetic::power2::lemma_pow2_pos(attempt);
    let factor = vstd::arithmetic::power2::pow2(attempt);
    assert(base * factor > 0 <==> base > 0) by (nonlinear_arith)
        requires
            factor > 0,
    ;
}

/// No number is drawn beyond the maximum.
pub proof fn draws_stay_within_the_maximum(max: nat, counter: u64, number: nat)
    requires
        can_be_drawn(max, counter, number),
    ensures
        number <= max,
{
}

/// Different seeds lead to different states of the generator.
pub proof fn xorshift_keeps_seeds_apart(a: u64, b: u64)
    requires
        a != b,
    ensures
        xorshift(a) != xorshift(b),
{
    let a1 = a ^ (a >> 12);
    let b1 = b ^ (b >> 12);
    let a2 = a1 ^ (a1 << 25);
    let b2 = b1 ^ (b1 << 25);
    assert(a1 != b1) by (bit_vector)
        requires
            a != b,
            a1 == a ^ (a >> 12),
            b1 == b ^ (b >> 12),
    ;
    assert(a2 != b2) by (bit_vector)
        requires
            a1 != b1,
            a2 == a1 ^ (a1 << 25),
            b2 == b1 ^ (b1 << 25),
    ;
    assert(a2 ^ (a2 >> 27) != b2 ^ (b2 >> 27)) by (bit_vector)
        requires
            a2 != b2,
    ;
}

/// The lower half of a seed without its counter reads back as the clock reading.
proof fn lemma_reading_of_seed(nanos: u64)
    requires
        nanos < 0x1_0000_0000,
    ensures
        ((nanos.wrapping_mul(SEED_MULTIPLIER) as int % 0x1_0000_0000) * 0x9937733D) % 0x1_0000_0000
            == nanos,
{
    let half: int = 0x1_0000_0000;
    let n = nanos as int;
    let (k, i) = (SEED_MULTIPLIER as int, 0x9937733Dint);
    let spread = n * k;
    vstd::arithmetic::div_mod::lemma_mod_mod(spread, half, half);
    vstd::arithmetic::div_mod::lemma_mul_mod_noop_left(spread, i, half);
    vstd::arithmetic::mul::lemma_mul_is_associative(n, k, i);
    assert(k * i == 0x5EB16CE3A2D4328B * half + 1);
    assert(n * (0x5EB16CE3A2D4328B * half + 1) == (n * 0x5EB16CE3A2D4328B) * half + n) by (nonlinear_arith);
    vstd::arithmetic::div_mod::lemma_mod_multiples_vanish(n * 0x5EB16CE3A2D4328B, n, half);
    vstd::arithmetic::div_mod::lemma_small_mod(nanos as nat, half as nat);
}

/// Different clock readings give different seeds with one counter.
pub proof fn readings_give_distinct_seeds(counter: u64, a: u64, b: u64)
    requires
        a != b,
        a < 1_000_000_000,
        b < 1_000_000_000,
    ensures
        seed(counter, a) != seed(counter, b),
{
    let pa = a.wrapping_mul(SEED_MULTIPLIER);
    let pb = b.wrapping_mul(SEED_MULTIPLIER);
    lemma_reading_of_seed(a);
    lemma_reading_of_seed(b);
    if seed(counter, a) == seed(counter, b) {
        assert(pa % 0x1_0000_0000 == pb % 0x1_0000_0000) by (bit_vector)
            requires
                counter ^ (a << 32) ^ pa == counter ^ (b << 32) ^ pb,
        ;
    }
}

} // verus!
