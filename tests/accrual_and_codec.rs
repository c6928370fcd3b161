use nft_staking::accrual::{earned, pending_at, refresh_reward_rate, update_rewards, PRECISION};
use nft_staking::codec::{check_mint_address, get_config_count, write_range};
use nft_staking::types::{ErrorCode, Pool, Pubkey, User, MAX_FUNDERS};

fn key(b: u8) -> Pubkey {
    Pubkey::new([b; 32])
}

fn blank_pool() -> Pool {
    Pool {
        is_initialized: false,
        authority: Pubkey::empty(),
        paused: false,
        config: Pubkey::empty(),
        reward_mint: Pubkey::empty(),
        reward_vault: Pubkey::empty(),
        last_update_time: 0,
        reward_rate_per_token: 0,
        reward_duration: 0,
        reward_duration_end: 0,
        token_stake_count: 0,
        user_count: 0,
        funders: [Pubkey::empty(); MAX_FUNDERS],
    }
}

fn user_with(count: u32, pending: u64, last: u64) -> User {
    User {
        pool: key(1),
        user: key(2),
        reward_earned_claimed: 0,
        reward_earned_pending: pending,
        mint_staked_count: count,
        uuid: String::from("abc"),
        mint_staked: key(3),
        last_update_time: last,
    }
}

#[test]
fn earned_exact_value() {
    let rate = 7 * PRECISION + 5;
    assert_eq!(earned(10, 3, rate, 4), Ok(7 * 3 * 10 + 4));
}

#[test]
fn earned_zero_elapsed_keeps_pending() {
    assert_eq!(earned(0, 9, 123 * PRECISION, 55), Ok(55));
}

#[test]
fn earned_truncates_rate_below_precision() {
    assert_eq!(earned(1000, 5, PRECISION - 1, 0), Ok(0));
}

#[test]
fn earned_overflow_is_an_error() {
    assert_eq!(
        earned(u64::MAX, u32::MAX, u128::MAX, 0),
        Err(ErrorCode::NumericalOverflowError)
    );
    assert_eq!(earned(1, 1, PRECISION, u64::MAX), Err(ErrorCode::NumericalOverflowError));
    assert_eq!(earned(1, 1, 0, u64::MAX), Ok(u64::MAX));
}

#[test]
fn accrual_is_monotonic_in_time() {
    let rate = 3 * PRECISION;
    let a = earned(5, 2, rate, 1).unwrap();
    let b = earned(9, 2, rate, 1).unwrap();
    assert!(b >= a);
    assert_eq!(b - a, 3 * 2 * 4);
}

#[test]
fn settlement_twice_at_same_time_changes_nothing() {
    let mut pool = blank_pool();
    pool.reward_rate_per_token = 4 * PRECISION;
    let mut u = user_with(2, 10, 100);
    assert_eq!(update_rewards(&pool, &mut u, 150), Ok(()));
    assert_eq!(u.reward_earned_pending, 10 + 4 * 2 * 50);
    assert_eq!(u.last_update_time, 150);
    assert_eq!(update_rewards(&pool, &mut u, 150), Ok(()));
    assert_eq!(u.reward_earned_pending, 10 + 4 * 2 * 50);
}

#[test]
fn settlement_with_clock_moving_backward_accrues_nothing() {
    let mut pool = blank_pool();
    pool.reward_rate_per_token = 4 * PRECISION;
    let mut u = user_with(2, 10, 100);
    assert_eq!(update_rewards(&pool, &mut u, 40), Ok(()));
    assert_eq!(u.reward_earned_pending, 10);
    assert_eq!(u.last_update_time, 40);
}

#[test]
fn settlement_overflow_leaves_user_unchanged() {
    let mut pool = blank_pool();
    pool.reward_rate_per_token = u128::MAX;
    let mut u = user_with(u32::MAX, 10, 0);
    assert_eq!(
        update_rewards(&pool, &mut u, u64::MAX),
        Err(ErrorCode::NumericalOverflowError)
    );
    assert_eq!(u.reward_earned_pending, 10);
    assert_eq!(u.last_update_time, 0);
}

#[test]
fn first_funding_rate() {
    let r = refresh_reward_rate(1000, 1, 100, 1, 0, 0).unwrap();
    assert_eq!(r, 1000 * PRECISION / 100);
    assert_eq!(r / PRECISION, 10);
}

#[test]
fn funding_after_period_ignores_old_rate() {
    let r = refresh_reward_rate(600, 99 * PRECISION, 60, 3, 100, 100).unwrap();
    assert_eq!(r, 600 * PRECISION / 60 / 3);
}

#[test]
fn funding_mid_period_keeps_leftover() {
    let rate = 10 * PRECISION;
    let r = refresh_reward_rate(1000, rate, 100, 1, 100, 50).unwrap();
    let leftover = rate * 50;
    assert_eq!(r, (1000 * PRECISION + leftover) / 100);
    assert_eq!(r / PRECISION, 15);
    let payout = r * 100 / PRECISION;
    assert!(payout >= 1000 && payout >= 500);
    assert!(payout <= 1500);
}

#[test]
fn funding_with_zero_divisor_or_overflow_fails() {
    assert_eq!(refresh_reward_rate(1, 1, 0, 1, 0, 0), Err(ErrorCode::NumericalOverflowError));
    assert_eq!(refresh_reward_rate(1, 1, 1, 0, 0, 0), Err(ErrorCode::NumericalOverflowError));
    assert_eq!(
        refresh_reward_rate(1, u128::MAX, 1, 1, 10, 0),
        Err(ErrorCode::NumericalOverflowError)
    );
}

fn list_buffer(capacity: usize) -> Vec<u8> {
    vec![0u8; 4 + 32 * capacity]
}

#[test]
fn config_count_reads_little_endian() {
    let data = vec![0x01u8, 0x02, 0x03, 0x04, 9, 9];
    assert_eq!(get_config_count(&data), 0x04030201);
}

#[test]
fn write_range_then_contains() {
    let mut data = list_buffer(3);
    assert_eq!(write_range(&mut data, 3, 0, &vec![key(7), key(8)]), Ok(()));
    assert_eq!(get_config_count(&data), 2);
    assert!(check_mint_address(&data, &key(7)));
    assert!(check_mint_address(&data, &key(8)));
    assert!(!check_mint_address(&data, &key(9)));
    assert_eq!(&data[4..36], &[7u8; 32][..]);
    assert_eq!(&data[36..68], &[8u8; 32][..]);
}

#[test]
fn contains_ignores_slots_past_count() {
    let data = list_buffer(2);
    assert!(!check_mint_address(&data, &Pubkey::empty()));
}

#[test]
fn write_range_never_shrinks_count() {
    let mut data = list_buffer(4);
    assert_eq!(write_range(&mut data, 4, 0, &vec![key(1), key(2), key(3)]), Ok(()));
    assert_eq!(write_range(&mut data, 4, 0, &vec![key(5)]), Ok(()));
    assert_eq!(get_config_count(&data), 3);
    assert!(check_mint_address(&data, &key(5)));
    assert!(!check_mint_address(&data, &key(1)));
    assert!(check_mint_address(&data, &key(3)));
    assert_eq!(write_range(&mut data, 4, 3, &vec![key(6)]), Ok(()));
    assert_eq!(get_config_count(&data), 4);
}

#[test]
fn pending_at_does_not_change_the_user() {
    let mut pool = blank_pool();
    pool.reward_rate_per_token = 6 * PRECISION;
    let u = user_with(1, 3, 10);
    assert_eq!(pending_at(&pool, &u, 20), Ok(3 + 6 * 10));
    assert_eq!(pending_at(&pool, &u, 5), Ok(3));
    assert_eq!(u.reward_earned_pending, 3);
    assert_eq!(u.last_update_time, 10);
}

#[test]
fn write_range_outside_capacity_fails_and_changes_nothing() {
    let mut data = list_buffer(2);
    assert_eq!(write_range(&mut data, 2, 2, &vec![]), Err(ErrorCode::IndexGreaterThanLength));
    assert_eq!(write_range(&mut data, 2, 1, &vec![key(1), key(2)]), Err(ErrorCode::IndexGreaterThanLength));
    assert_eq!(data, list_buffer(2));
    assert_eq!(write_range(&mut data, 2, 1, &vec![key(1)]), Ok(()));
    assert_eq!(get_config_count(&data), 2);
}
