use nft_staking::accrual::PRECISION;
use nft_staking::codec::get_config_count;
use nft_staking::pool::{
    add_mint_addresses, authorize_funder, close_pool, deauthorize_funder, fund, initialize_pool, pause,
    resume,
};
use nft_staking::types::{Config, ErrorCode, MintStaked, Pool, Pubkey, TokenAccount, User, MAX_FUNDERS};
use nft_staking::user::{claim, close_user, create_user, stake, unstake};

fn key(b: u8) -> Pubkey {
    Pubkey::new([b; 32])
}

const AUTHORITY: u8 = 1;
const POOL: u8 = 2;
const CONFIG: u8 = 3;
const REWARD_MINT: u8 = 4;
const VAULT: u8 = 5;
const STAKER: u8 = 10;
const USER: u8 = 11;
const GEN0: u8 = 12;
const NFT_MINT: u8 = 20;
const NFT_ACCOUNT: u8 = 21;

fn blank_pool() -> Pool {
    Pool {
        is_initialized: false,
        authority: Pubkey::empty(),
        paused: false,
        config: Pubkey::empty(),
        reward_mint: Pubkey::empty(),
        reward_vault: Pubkey::empty(),
        last_update_time: 0,
        reward_rate_per_token: 0,
        reward_duration: 0,
        reward_duration_end: 0,
        token_stake_count: 0,
        user_count: 0,
        funders: [Pubkey::empty(); MAX_FUNDERS],
    }
}

fn new_pool(num_mint: u32, duration: u64) -> (Pool, Config) {
    let mut pool = blank_pool();
    let config = initialize_pool(
        &mut pool,
        &key(AUTHORITY),
        &key(CONFIG),
        &key(REWARD_MINT),
        &key(VAULT),
        String::from("cfg"),
        num_mint,
        duration,
        0,
    )
    .unwrap();
    (pool, config)
}

fn running_pool_with_mints(mints: &[u8]) -> (Pool, Config) {
    let (mut pool, mut config) = new_pool(mints.len() as u32, 100);
    let keys: Vec<Pubkey> = mints.iter().map(|m| key(*m)).collect();
    add_mint_addresses(&pool, &mut config, &key(AUTHORITY), &keys, 0).unwrap();
    resume(&mut pool, &key(AUTHORITY)).unwrap();
    (pool, config)
}

fn nft(account: u8, mint: u8) -> TokenAccount {
    TokenAccount { key: key(account), mint: key(mint), amount: 1 }
}

fn new_user(pool: &mut Pool, now: u64) -> (User, MintStaked) {
    create_user(pool, &key(POOL), &key(STAKER), &key(USER), &key(GEN0), String::from("u0"), now).unwrap()
}

fn listed(m: &MintStaked) -> Vec<u8> {
    m.mint_accounts.iter().map(|k| k.bytes[0]).collect()
}

#[test]
fn initialize_sets_paused_unfunded_pool() {
    let (pool, config) = new_pool(3, 100);
    assert!(pool.is_initialized);
    assert!(pool.paused);
    assert_eq!(pool.reward_rate_per_token, 1);
    assert_eq!(pool.reward_duration, 100);
    assert_eq!(pool.reward_duration_end, 0);
    assert!(pool.authority == key(AUTHORITY));
    assert!(pool.funders.iter().all(|f| *f == Pubkey::empty()));
    assert_eq!(config.num_mint, 3);
    assert_eq!(config.mint_data.len(), 4 + 32 * 3);
    assert_eq!(get_config_count(&config.mint_data), 0);
}

#[test]
fn initialize_rejects_bad_arguments() {
    let mut pool = blank_pool();
    let r = initialize_pool(&mut pool, &key(1), &key(2), &key(3), &key(4), String::new(), 0, 100, 0);
    assert_eq!(r.err(), Some(ErrorCode::InsufficientTokenStake));
    let r = initialize_pool(&mut pool, &key(1), &key(2), &key(3), &key(4), String::new(), 1, 0, 0);
    assert_eq!(r.err(), Some(ErrorCode::DurationTooShort));
    assert!(!pool.is_initialized);
    let (mut pool, _) = new_pool(1, 100);
    let r = initialize_pool(&mut pool, &key(1), &key(2), &key(3), &key(4), String::new(), 1, 100, 0);
    assert_eq!(r.err(), Some(ErrorCode::AccountAlreadyInitialized));
}

#[test]
fn add_mint_addresses_bounds_and_authority() {
    let (pool, mut config) = new_pool(2, 100);
    let one = vec![key(9)];
    assert_eq!(
        add_mint_addresses(&pool, &mut config, &key(AUTHORITY), &one, 2),
        Err(ErrorCode::IndexGreaterThanLength)
    );
    assert_eq!(
        add_mint_addresses(&pool, &mut config, &key(AUTHORITY), &vec![key(8), key(9)], 1),
        Err(ErrorCode::IndexGreaterThanLength)
    );
    assert_eq!(
        add_mint_addresses(&pool, &mut config, &key(STAKER), &one, 0),
        Err(ErrorCode::Unauthorized)
    );
    assert_eq!(get_config_count(&config.mint_data), 0);
    assert_eq!(add_mint_addresses(&pool, &mut config, &key(AUTHORITY), &one, 1), Ok(()));
    assert_eq!(get_config_count(&config.mint_data), 2);
}

#[test]
fn pause_and_resume_are_idempotent_and_guarded() {
    let (mut pool, _) = new_pool(1, 100);
    assert_eq!(pause(&mut pool, &key(AUTHORITY)), Ok(()));
    assert_eq!(pause(&mut pool, &key(AUTHORITY)), Ok(()));
    assert!(pool.paused);
    assert_eq!(resume(&mut pool, &key(STAKER)), Err(ErrorCode::Unauthorized));
    assert!(pool.paused);
    assert_eq!(resume(&mut pool, &key(AUTHORITY)), Ok(()));
    assert_eq!(resume(&mut pool, &key(AUTHORITY)), Ok(()));
    assert!(!pool.paused);
    let mut blank = blank_pool();
    assert_eq!(pause(&mut blank, &key(AUTHORITY)), Err(ErrorCode::PoolPaused));
}

#[test]
fn funder_roster_rules() {
    let (mut pool, _) = new_pool(1, 100);
    let a = key(AUTHORITY);
    assert_eq!(authorize_funder(&mut pool, &a, key(30)), Ok(()));
    assert_eq!(authorize_funder(&mut pool, &a, key(30)), Err(ErrorCode::FunderAlreadyAuthorized));
    assert_eq!(authorize_funder(&mut pool, &a, a), Err(ErrorCode::FunderAlreadyAuthorized));
    assert_eq!(authorize_funder(&mut pool, &key(30), key(31)), Err(ErrorCode::Unauthorized));
    for k in 31..35 {
        assert_eq!(authorize_funder(&mut pool, &a, key(k)), Ok(()));
    }
    assert_eq!(authorize_funder(&mut pool, &a, key(40)), Err(ErrorCode::MaxFunders));
    assert!(pool.funders.iter().all(|f| *f != a));
    assert_eq!(deauthorize_funder(&mut pool, &a, key(41)), Err(ErrorCode::CannotDeauthorizeMissingAuthority));
    assert_eq!(deauthorize_funder(&mut pool, &a, a), Err(ErrorCode::CannotDeauthorizePoolAuthority));
    assert_eq!(deauthorize_funder(&mut pool, &a, key(32)), Ok(()));
    assert!(pool.funders[2] == Pubkey::empty());
    assert_eq!(deauthorize_funder(&mut pool, &a, key(32)), Err(ErrorCode::CannotDeauthorizeMissingAuthority));
    assert_eq!(authorize_funder(&mut pool, &a, key(40)), Ok(()));
    assert!(pool.funders[2] == key(40));
}

#[test]
fn fund_requires_running_pool_and_known_funder() {
    let (mut pool, config) = new_pool(1, 100);
    assert_eq!(fund(&mut pool, &config, &key(AUTHORITY), &key(50), 10, 0).err(), Some(ErrorCode::PoolPaused));
    resume(&mut pool, &key(AUTHORITY)).unwrap();
    assert_eq!(fund(&mut pool, &config, &key(30), &key(50), 10, 0).err(), Some(ErrorCode::Unauthorized));
    assert_eq!(fund(&mut pool, &config, &Pubkey::empty(), &key(50), 10, 0).err(), Some(ErrorCode::Unauthorized));
    authorize_funder(&mut pool, &key(AUTHORITY), key(30)).unwrap();
    let t = fund(&mut pool, &config, &key(30), &key(50), 10, 7).unwrap();
    assert!(t.from == key(50) && t.to == key(VAULT) && t.authority == key(30));
    assert_eq!(t.amount, 10);
    assert_eq!(pool.reward_duration_end, 107);
    assert_eq!(pool.last_update_time, 7);
}

#[test]
fn fund_end_overflow_is_an_error() {
    let (mut pool, config) = new_pool(1, 100);
    resume(&mut pool, &key(AUTHORITY)).unwrap();
    let before = pool.reward_rate_per_token;
    assert_eq!(
        fund(&mut pool, &config, &key(AUTHORITY), &key(50), 10, u64::MAX - 5).err(),
        Some(ErrorCode::NumericalOverflowError)
    );
    assert_eq!(pool.reward_rate_per_token, before);
}

#[test]
fn stake_rejects_ineligible_mint_and_other_signer() {
    let (mut pool, config) = running_pool_with_mints(&[NFT_MINT]);
    let (mut user, gen0) = new_user(&mut pool, 0);
    let r = stake(&mut pool, &key(POOL), &config, &mut user, &gen0, &key(STAKER), &nft(NFT_ACCOUNT, 99), &key(13), String::from("u1"), 0);
    assert_eq!(r.err(), Some(ErrorCode::InvalidMint));
    let r = stake(&mut pool, &key(POOL), &config, &mut user, &gen0, &key(77), &nft(NFT_ACCOUNT, NFT_MINT), &key(13), String::from("u1"), 0);
    assert_eq!(r.err(), Some(ErrorCode::Unauthorized));
    assert_eq!(pool.token_stake_count, 0);
    assert_eq!(user.mint_staked_count, 0);
}

#[test]
fn stake_and_unstake_keep_membership_in_order() {
    let (mut pool, config) = running_pool_with_mints(&[NFT_MINT]);
    let (mut user, gen0) = new_user(&mut pool, 0);
    let s = key(STAKER);
    let p = key(POOL);
    let g1 = stake(&mut pool, &p, &config, &mut user, &gen0, &s, &nft(21, NFT_MINT), &key(13), String::from("u1"), 0).unwrap();
    let g2 = stake(&mut pool, &p, &config, &mut user, &g1.mint_staked, &s, &nft(22, NFT_MINT), &key(14), String::from("u2"), 0).unwrap();
    let g3 = stake(&mut pool, &p, &config, &mut user, &g2.mint_staked, &s, &nft(23, NFT_MINT), &key(15), String::from("u3"), 0).unwrap();
    assert_eq!(listed(&g3.mint_staked), vec![21, 22, 23]);
    assert!(g3.set_authority.account == key(23));
    assert!(g3.set_authority.new_authority == p);
    assert_eq!(pool.token_stake_count, 3);
    assert_eq!(user.mint_staked_count, 3);
    assert!(user.mint_staked == key(15));
    assert_eq!(user.uuid, "u3");
    let g4 = unstake(&mut pool, &p, &mut user, &g3.mint_staked, &s, &key(22), &key(16), String::from("u4"), 0).unwrap();
    assert_eq!(listed(&g4.mint_staked), vec![21, 23]);
    assert!(g4.set_authority.current_authority == p && g4.set_authority.new_authority == s);
    assert_eq!(pool.token_stake_count, 2);
    assert_eq!(user.mint_staked_count, 2);
    let r = unstake(&mut pool, &p, &mut user, &g4.mint_staked, &s, &key(22), &key(17), String::from("u5"), 0);
    assert_eq!(r.err(), Some(ErrorCode::MintNotStaked));
    assert_eq!(pool.token_stake_count, 2);
}

#[test]
fn unstake_removes_only_the_first_duplicate() {
    let (mut pool, config) = running_pool_with_mints(&[NFT_MINT]);
    let (mut user, _) = new_user(&mut pool, 0);
    user.mint_staked_count = 3;
    pool.token_stake_count = 3;
    let current = MintStaked { pool: key(POOL), user_account: key(USER), mint_accounts: vec![key(21), key(22), key(21)] };
    let _ = &config;
    let g = unstake(&mut pool, &key(POOL), &mut user, &current, &key(STAKER), &key(21), &key(16), String::new(), 0).unwrap();
    assert_eq!(listed(&g.mint_staked), vec![22, 21]);
}

#[test]
fn scenario_fund_stake_claim() {
    let (mut pool, config) = running_pool_with_mints(&[NFT_MINT]);
    let t = fund(&mut pool, &config, &key(AUTHORITY), &key(50), 1000, 0).unwrap();
    assert_eq!(t.amount, 1000);
    let rate = 1000u128 * PRECISION / 100 / 1;
    assert_eq!(pool.reward_rate_per_token, rate);
    let mut vault_balance: u64 = 1000;
    let (mut user, gen0) = new_user(&mut pool, 0);
    stake(&mut pool, &key(POOL), &config, &mut user, &gen0, &key(STAKER), &nft(NFT_ACCOUNT, NFT_MINT), &key(13), String::from("u1"), 0).unwrap();
    let expected = ((rate / PRECISION) * 1 * 50) as u64;
    assert_eq!(expected, 500);
    let paid = claim(&pool, &key(POOL), &mut user, &key(STAKER), &key(60), vault_balance, 50).unwrap().unwrap();
    assert_eq!(paid.amount, expected.min(vault_balance));
    assert!(paid.from == key(VAULT) && paid.to == key(60) && paid.authority == key(POOL));
    vault_balance -= paid.amount;
    assert_eq!(vault_balance, 500);
    assert_eq!(user.reward_earned_claimed, 500);
    assert_eq!(user.reward_earned_pending, 0);
    assert_eq!(user.last_update_time, 50);
}

#[test]
fn claim_pays_what_the_vault_holds() {
    let (mut pool, config) = running_pool_with_mints(&[NFT_MINT]);
    fund(&mut pool, &config, &key(AUTHORITY), &key(50), 1000, 0).unwrap();
    let (mut user, gen0) = new_user(&mut pool, 0);
    stake(&mut pool, &key(POOL), &config, &mut user, &gen0, &key(STAKER), &nft(NFT_ACCOUNT, NFT_MINT), &key(13), String::new(), 0).unwrap();
    let paid = claim(&pool, &key(POOL), &mut user, &key(STAKER), &key(60), 120, 50).unwrap().unwrap();
    assert_eq!(paid.amount, 120);
    assert_eq!(user.reward_earned_claimed, 500);
    assert_eq!(user.reward_earned_pending, 0);
    assert!(claim(&pool, &key(POOL), &mut user, &key(STAKER), &key(60), 0, 60).unwrap().is_none());
    assert_eq!(user.reward_earned_claimed, 600);
    assert!(claim(&pool, &key(POOL), &mut user, &key(STAKER), &key(60), 50, 60).unwrap().is_none());
    assert_eq!(claim(&pool, &key(POOL), &mut user, &key(77), &key(60), 50, 60).err(), Some(ErrorCode::Unauthorized));
}

#[test]
fn close_user_guards() {
    let (mut pool, config) = running_pool_with_mints(&[NFT_MINT]);
    fund(&mut pool, &config, &key(AUTHORITY), &key(50), 1000, 0).unwrap();
    let (mut user, gen0) = new_user(&mut pool, 0);
    let g1 = stake(&mut pool, &key(POOL), &config, &mut user, &gen0, &key(STAKER), &nft(NFT_ACCOUNT, NFT_MINT), &key(13), String::new(), 0).unwrap();
    assert_eq!(close_user(&mut pool, &user, &key(STAKER), 0), Err(ErrorCode::StakedMint));
    unstake(&mut pool, &key(POOL), &mut user, &g1.mint_staked, &key(STAKER), &key(NFT_ACCOUNT), &key(14), String::new(), 10).unwrap();
    assert_eq!(user.reward_earned_pending, 100);
    assert_eq!(close_user(&mut pool, &user, &key(STAKER), 10), Err(ErrorCode::PendingRewards));
    assert_eq!(pool.user_count, 1);
    claim(&pool, &key(POOL), &mut user, &key(STAKER), &key(60), 1000, 10).unwrap();
    assert_eq!(close_user(&mut pool, &user, &key(77), 10), Err(ErrorCode::Unauthorized));
    assert_eq!(close_user(&mut pool, &user, &key(STAKER), 10), Ok(()));
    assert_eq!(pool.user_count, 0);
}

#[test]
fn close_user_settles_before_guards() {
    let (mut pool, _) = running_pool_with_mints(&[NFT_MINT]);
    pool.reward_rate_per_token = 2 * PRECISION;
    let (mut user, _) = new_user(&mut pool, 0);
    user.mint_staked_count = 1;
    pool.token_stake_count = 1;
    assert_eq!(close_user(&mut pool, &user, &key(STAKER), 5), Err(ErrorCode::StakedMint));
    user.mint_staked_count = 0;
    assert_eq!(close_user(&mut pool, &user, &key(STAKER), 5), Ok(()));
}

#[test]
fn close_pool_guards() {
    let (mut pool, config) = running_pool_with_mints(&[NFT_MINT]);
    let a = key(AUTHORITY);
    assert_eq!(close_pool(&pool, &key(POOL), &a, 0, &key(61), &key(62), 5).err(), Some(ErrorCode::RewardPeriodNotElapsed));
    fund(&mut pool, &config, &a, &key(50), 1000, 0).unwrap();
    assert_eq!(close_pool(&pool, &key(POOL), &a, 1000, &key(61), &key(62), 100).err(), Some(ErrorCode::RewardPeriodNotElapsed));
    let (mut user, gen0) = new_user(&mut pool, 0);
    assert_eq!(close_pool(&pool, &key(POOL), &a, 1000, &key(61), &key(62), 101).err(), Some(ErrorCode::UsersRemaining));
    stake(&mut pool, &key(POOL), &config, &mut user, &gen0, &key(STAKER), &nft(NFT_ACCOUNT, NFT_MINT), &key(13), String::new(), 0).unwrap();
    assert_eq!(close_pool(&pool, &key(POOL), &a, 1000, &key(61), &key(62), 101).err(), Some(ErrorCode::TokensStaked));
    assert_eq!(close_pool(&pool, &key(POOL), &key(STAKER), 1000, &key(61), &key(62), 101).err(), Some(ErrorCode::Unauthorized));
    pool.token_stake_count = 0;
    pool.user_count = 0;
    pause(&mut pool, &a).unwrap();
    let c = close_pool(&pool, &key(POOL), &a, 1000, &key(61), &key(62), 101).unwrap();
    assert_eq!(c.refund.amount, 1000);
    assert!(c.refund.from == key(VAULT) && c.refund.to == key(61) && c.refund.authority == key(POOL));
    assert!(c.close_vault.account == key(VAULT) && c.close_vault.destination == key(62));
}

#[test]
fn operations_on_paused_pool_fail() {
    let (mut pool, config) = running_pool_with_mints(&[NFT_MINT]);
    let (mut user, gen0) = new_user(&mut pool, 0);
    pause(&mut pool, &key(AUTHORITY)).unwrap();
    let r = create_user(&mut pool, &key(POOL), &key(STAKER), &key(USER), &key(GEN0), String::new(), 0);
    assert_eq!(r.err(), Some(ErrorCode::PoolPaused));
    let r = stake(&mut pool, &key(POOL), &config, &mut user, &gen0, &key(STAKER), &nft(NFT_ACCOUNT, NFT_MINT), &key(13), String::new(), 0);
    assert_eq!(r.err(), Some(ErrorCode::PoolPaused));
    assert_eq!(claim(&pool, &key(POOL), &mut user, &key(STAKER), &key(60), 0, 0).err(), Some(ErrorCode::PoolPaused));
    assert_eq!(close_user(&mut pool, &user, &key(STAKER), 0), Err(ErrorCode::PoolPaused));
    assert_eq!(pool.user_count, 1);
}

#[test]
fn deauthorizing_the_empty_identity_fails() {
    let (mut pool, _) = new_pool(1, 100);
    let a = key(AUTHORITY);
    assert_eq!(
        deauthorize_funder(&mut pool, &a, Pubkey::empty()),
        Err(ErrorCode::CannotDeauthorizeMissingAuthority)
    );
    assert!(pool.funders.iter().all(|f| *f == Pubkey::empty()));
}

#[test]
fn user_operations_leave_pool_update_time() {
    let (mut pool, config) = running_pool_with_mints(&[NFT_MINT]);
    fund(&mut pool, &config, &key(AUTHORITY), &key(50), 1000, 0).unwrap();
    let (mut user, gen0) = new_user(&mut pool, 150);
    assert_eq!(user.last_update_time, 150);
    let g1 = stake(&mut pool, &key(POOL), &config, &mut user, &gen0, &key(STAKER), &nft(NFT_ACCOUNT, NFT_MINT), &key(13), String::new(), 150).unwrap();
    unstake(&mut pool, &key(POOL), &mut user, &g1.mint_staked, &key(STAKER), &key(NFT_ACCOUNT), &key(14), String::new(), 160).unwrap();
    assert_eq!(pool.last_update_time, 0);
    assert!(pool.last_update_time <= pool.reward_duration_end);
}

#[test]
fn generation_length_follows_staked_count() {
    let (mut pool, config) = running_pool_with_mints(&[NFT_MINT]);
    let (mut user, gen0) = new_user(&mut pool, 0);
    let s = key(STAKER);
    let p = key(POOL);
    let g1 = stake(&mut pool, &p, &config, &mut user, &gen0, &s, &nft(21, NFT_MINT), &key(13), String::new(), 0).unwrap();
    assert_eq!(g1.mint_staked.mint_accounts.len(), user.mint_staked_count as usize);
    let g2 = stake(&mut pool, &p, &config, &mut user, &g1.mint_staked, &s, &nft(22, NFT_MINT), &key(14), String::new(), 0).unwrap();
    assert_eq!(g2.mint_staked.mint_accounts.len(), user.mint_staked_count as usize);
    let g3 = unstake(&mut pool, &p, &mut user, &g2.mint_staked, &s, &key(21), &key(15), String::new(), 0).unwrap();
    assert_eq!(g3.mint_staked.mint_accounts.len(), user.mint_staked_count as usize);
    assert_eq!(listed(&g3.mint_staked), vec![22]);
}
