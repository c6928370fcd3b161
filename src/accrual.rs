//! Fixed-point reward accrual: settling a user's pending reward and refreshing a
//! pool's reward rate when it is funded.
use vstd::prelude::*;
use vstd::arithmetic::div_mod::{lemma_div_denominator, lemma_fundamental_div_mod};
use vstd::arithmetic::mul::lemma_mul_inequality;
use crate::types::{ErrorCode, Pool, User};

verus! {

/// Scale of the fixed-point reward rate: a rate divided by it is a whole-unit rate.
pub const PRECISION: u128 = 18446744073709551615;

/// Pending reward after `elapsed` seconds with `units` items staked at `rate`.
pub open spec fn earned_amount(elapsed: int, units: int, rate: int, pending: int) -> int {
    (rate / PRECISION as int) * units * elapsed + pending
}

/// Seconds from `last` to `now`, or 0 when the clock appears to move backward.
pub open spec fn elapsed_since(last: u64, now: u64) -> int {
    if now > last {
        now - last
    } else {
        0
    }
}

/// The pending reward of `user` once settled at `now` under `rate`.
pub open spec fn settled_pending(user: User, rate: u128, now: u64) -> int {
    earned_amount(
        elapsed_since(user.last_update_time, now),
        user.mint_staked_count as int,
        rate as int,
        user.reward_earned_pending as int,
    )
}

/// The record of `user` once settled at `now` under `rate`.
pub open spec fn settled(user: User, rate: u128, now: u64) -> User {
    User {
        reward_earned_pending: settled_pending(user, rate, now) as u64,
        last_update_time: now,
        ..user
    }
}

/// Rate after a funding of `amount` at `now`: the new amount, and when the period
/// is still running the scaled reward still owed over its rest
/// (`rate * remaining * units`), spread over a whole new period.
pub open spec fn refreshed_rate(
    amount: int,
    rate: int,
    duration: int,
    units: int,
    end: int,
    now: int,
) -> int {
    (amount * PRECISION as int + scaled_leftover(rate, duration, units, end, now)) / duration / units
}

/// Scaled reward still owed when funding at `now`, with the period ending at `end`.
pub open spec fn scaled_leftover(rate: int, duration: int, units: int, end: int, now: int) -> int {
    if now >= end {
        0
    } else {
        rate * (end - now) * units
    }
}

/// Whether the rate refresh stays within 128 bits and divides by nonzero values.
pub open spec fn refresh_fits(amount: int, rate: int, duration: int, units: int, end: int, now: int) -> bool {
    &&& duration > 0
    &&& units > 0
    &&& amount * PRECISION as int + scaled_leftover(rate, duration, units, end, now) <= u128::MAX
}

/// New pending reward after `elapsed_time` seconds with `balance_staked` items
/// staked at `reward_rate_per_token`; fails when it does not fit in 64 bits.
pub fn earned(
    elapsed_time: u64,
    balance_staked: u32,
    reward_rate_per_token: u128,
    user_reward_per_token_pending: u64,
) -> (r: Result<u64, ErrorCode>)
    ensures
        ({
            let e = earned_amount(
                elapsed_time as int,
                balance_staked as int,
                reward_rate_per_token as int,
                user_reward_per_token_pending as int,
            );
            &&& e <= u64::MAX ==> r == Ok::<u64, ErrorCode>(e as u64)
            &&& e > u64::MAX ==> r == Err::<u64, ErrorCode>(ErrorCode::NumericalOverflowError)
        }),
{
    let per_unit: u128 = reward_rate_per_token / PRECISION;
    assert(per_unit <= 18446744073709551617u128) by (nonlinear_arith)
        requires
            per_unit == reward_rate_per_token / PRECISION,
            PRECISION == 18446744073709551615u128,
    ;
    assert(per_unit as int * balance_staked as int <= 18446744073709551617 * 4294967295)
        by (nonlinear_arith)
        requires
            per_unit <= 18446744073709551617u128,
            balance_staked <= 4294967295u32,
    ;
    let rate_units: u128 = per_unit * (balance_staked as u128);
    if rate_units == 0 || elapsed_time == 0 {
        assert(rate_units as int * elapsed_time as int == 0) by (nonlinear_arith)
            requires
                rate_units == 0 || elapsed_time == 0,
        ;
        return Ok(user_reward_per_token_pending);
    }
    if rate_units > u64::MAX as u128 {
        assert(rate_units as int * elapsed_time as int >= rate_units as int) by (nonlinear_arith)
            requires
                elapsed_time >= 1,
        ;
        return Err(ErrorCode::NumericalOverflowError);
    }
    assert(rate_units as int * elapsed_time as int <= 18446744073709551615 * 18446744073709551615)
        by (nonlinear_arith)
        requires
            rate_units <= 18446744073709551615u128,
            elapsed_time <= 18446744073709551615u64,
    ;
    let total: u128 = rate_units * (elapsed_time as u128) + (user_reward_per_token_pending as u128);
    if total > u64::MAX as u128 {
        return Err(ErrorCode::NumericalOverflowError);
    }
    Ok(total as u64)
}

/// The pending reward of `user` once settled at `now` under the pool's rate.
pub fn pending_at(pool: &Pool, user: &User, now: u64) -> (r: Result<u64, ErrorCode>)
    ensures
        settled_pending(*user, pool.reward_rate_per_token, now) <= u64::MAX ==> r == Ok::<u64, ErrorCode>(
            settled_pending(*user, pool.reward_rate_per_token, now) as u64,
        ),
        settled_pending(*user, pool.reward_rate_per_token, now) > u64::MAX ==> r == Err::<u64, ErrorCode>(
            ErrorCode::NumericalOverflowError,
        ),
{
    let time_diff: u64 = if now > user.last_update_time {
        now - user.last_update_time
    } else {
        0
    };
    earned(time_diff, user.mint_staked_count, pool.reward_rate_per_token, user.reward_earned_pending)
}

/// Settles `user`'s pending reward as of `now` under the pool's current rate.
pub fn update_rewards(pool: &Pool, user: &mut User, now: u64) -> (r: Result<(), ErrorCode>)
    ensures
        settled_pending(*old(user), pool.reward_rate_per_token, now) <= u64::MAX ==> r == Ok::<(), ErrorCode>(())
            && *final(user) == settled(*old(user), pool.reward_rate_per_token, now),
        settled_pending(*old(user), pool.reward_rate_per_token, now) > u64::MAX ==> r == Err::<(), ErrorCode>(
            ErrorCode::NumericalOverflowError,
        ) && *final(user) == *old(user),
{
    let pending = pending_at(pool, user, now)?;
    user.reward_earned_pending = pending;
    user.last_update_time = now;
    Ok(())
}

/// The reward rate after funding `amount` at `now`, for a pool whose current
/// period ends at `reward_duration_end`, with `num_mint` units sharing it.
pub fn refresh_reward_rate(
    amount: u64,
    reward_rate_per_token: u128,
    reward_duration: u64,
    num_mint: u32,
    reward_duration_end: u64,
    now: u64,
) -> (r: Result<u128, ErrorCode>)
    ensures
        refresh_fits(
            amount as int,
            reward_rate_per_token as int,
            reward_duration as int,
            num_mint as int,
            reward_duration_end as int,
            now as int,
        ) ==> r == Ok::<u128, ErrorCode>(
            refreshed_rate(
                amount as int,
                reward_rate_per_token as int,
                reward_duration as int,
                num_mint as int,
                reward_duration_end as int,
                now as int,
            ) as u128,
        ),
        !refresh_fits(
            amount as int,
            reward_rate_per_token as int,
            reward_duration as int,
            num_mint as int,
            reward_duration_end as int,
            now as int,
        ) ==> r == Err::<u128, ErrorCode>(ErrorCode::NumericalOverflowError),
{
    if reward_duration == 0 || num_mint == 0 {
        return Err(ErrorCode::NumericalOverflowError);
    }
    assert(amount as int * PRECISION as int <= 18446744073709551615 * 18446744073709551615)
        by (nonlinear_arith)
        requires
            amount <= 18446744073709551615u64,
            PRECISION == 18446744073709551615u128,
    ;
    let scaled_amount: u128 = (amount as u128) * PRECISION;
    let leftover: u128 = if now >= reward_duration_end {
        0
    } else {
        let remaining: u64 = reward_duration_end - now;
        let by_time = match reward_rate_per_token.checked_mul(remaining as u128) {
            Some(v) => v,
            None => {
                assert(reward_rate_per_token as int * remaining as int * num_mint as int
                    >= reward_rate_per_token as int * remaining as int) by (nonlinear_arith)
                    requires
                        num_mint >= 1,
                        reward_rate_per_token as int * remaining as int >= 0,
                ;
                return Err(ErrorCode::NumericalOverflowError);
            },
        };
        match by_time.checked_mul(num_mint as u128) {
            Some(v) => v,
            None => {
                return Err(ErrorCode::NumericalOverflowError);
            },
        }
    };
    let numerator: u128 = match scaled_amount.checked_add(leftover) {
        Some(v) => v,
        None => {
            return Err(ErrorCode::NumericalOverflowError);
        },
    };
    let per_second: u128 = numerator / (reward_duration as u128);
    assert(per_second as int / num_mint as int <= per_second as int) by (nonlinear_arith)
        requires
            num_mint >= 1,
            per_second >= 0,
    ;
    Ok(per_second / (num_mint as u128))
}

/// Accrual never decreases with elapsed time, and nothing accrues when no time
/// has elapsed.
pub proof fn lemma_accrual_monotonic(t1: u64, t2: u64, units: u32, rate: u128, pending: u64)
    requires
        t1 <= t2,
    ensures
        earned_amount(t2 as int, units as int, rate as int, pending as int)
            - earned_amount(t1 as int, units as int, rate as int, pending as int) >= 0,
        earned_amount(0, units as int, rate as int, pending as int) == pending,
{
    let per_unit = rate as int / PRECISION as int;
    assert(per_unit >= 0);
    assert(per_unit * units as int >= 0) by (nonlinear_arith)
        requires
            per_unit >= 0,
    ;
    lemma_mul_inequality(t1 as int, t2 as int, per_unit * units as int);
    assert(per_unit * units * t1 == t1 * (per_unit * units)) by (nonlinear_arith);
    assert(per_unit * units * t2 == t2 * (per_unit * units)) by (nonlinear_arith);
    assert(per_unit * units * 0 == 0) by (nonlinear_arith);
}

/// Settling a user twice at the same instant changes nothing the second time.
pub proof fn lemma_settlement_idempotent(user: User, rate: u128, now: u64)
    requires
        settled_pending(user, rate, now) <= u64::MAX,
    ensures
        settled_pending(settled(user, rate, now), rate, now) == settled_pending(user, rate, now),
        settled(settled(user, rate, now), rate, now) == settled(user, rate, now),
{
    let once = settled(user, rate, now);
    let per_unit = rate as int / PRECISION as int;
    assert(per_unit * once.mint_staked_count * 0 == 0) by (nonlinear_arith);
}

/// Funding while a period is running keeps the reward still owed: the new rate,
/// paid over a whole new period to every unit, pays out the funded amount plus
/// the scaled leftover, short of it by less than one rate step.
pub proof fn lemma_funding_conservation(
    amount: u64,
    rate: u128,
    duration: u64,
    units: u32,
    end: u64,
    now: u64,
)
    requires
        duration > 0,
        units > 0,
        now < end,
    ensures
        ({
            let total = amount * PRECISION as int + rate * (end - now) * units;
            let new_rate = refreshed_rate(amount as int, rate as int, duration as int, units as int, end as int, now as int);
            &&& new_rate * duration * units <= total
            &&& total < (new_rate + 1) * duration * units
            &&& new_rate * duration * units > total - duration * units
        }),
{
    let total = amount * PRECISION as int + rate * (end - now) * units;
    assert(total >= 0) by (nonlinear_arith)
        requires
            total == amount * PRECISION as int + rate * (end - now) * units,
            PRECISION as int >= 0,
            rate >= 0,
            end - now > 0,
            units > 0,
            amount >= 0,
    ;
    let d = duration as int;
    let u = units as int;
    lemma_div_denominator(total, d, u);
    let new_rate = total / (d * u);
    assert(new_rate == refreshed_rate(amount as int, rate as int, d, u, end as int, now as int));
    lemma_fundamental_div_mod(total, d * u);
    assert(d * u > 0) by (nonlinear_arith)
        requires
            d > 0,
            u > 0,
    ;
    assert(0 <= total % (d * u) < d * u);
    assert(new_rate * d * u == (d * u) * new_rate) by (nonlinear_arith);
    assert((new_rate + 1) * d * u == (d * u) * new_rate + d * u) by (nonlinear_arith);
}

} // verus!
