//! The user state machine: registration, staking and unstaking items, claiming
//! rewards and closing.
use vstd::prelude::*;
use crate::accrual::{elapsed_since, pending_at, settled, settled_pending, update_rewards, PRECISION};
use crate::codec::check_mint_address;
use crate::membership::{lemma_membership_step, list_contains, staked_keys, with_appended, without_first};
use crate::pool::{config_mints, config_wf};
use crate::types::{Config, ErrorCode, MintStaked, Pool, Pubkey, SetAuthority, TokenAccount, Transfer, User};

verus! {

/// Whether the pool takes user operations: initialized and running.
pub open spec fn pool_active(p: Pool) -> bool {
    p.is_initialized && !p.paused
}

/// Why `create_user` fails, if it does.
pub open spec fn create_user_error(p: Pool) -> Option<ErrorCode> {
    if !pool_active(p) {
        Some(ErrorCode::PoolPaused)
    } else if p.user_count == u32::MAX {
        Some(ErrorCode::NumericalOverflowError)
    } else {
        None
    }
}

/// Registers `owner` in the pool at `now`: a user record with zeroed counters and
/// an empty first staked-list generation. `user_key` and `mint_staked_key` are the
/// addresses of the two new records.
pub fn create_user(
    pool_account: &mut Pool,
    pool_key: &Pubkey,
    owner: &Pubkey,
    user_key: &Pubkey,
    mint_staked_key: &Pubkey,
    uuid: String,
    now: u64,
) -> (r: Result<(User, MintStaked), ErrorCode>)
    ensures
        match create_user_error(*old(pool_account)) {
            Some(e) => r == Err::<(User, MintStaked), ErrorCode>(e) && *final(pool_account) == *old(
                pool_account,
            ),
            None => r is Ok && ({
                let (u, m) = r->Ok_0;
                &&& *final(pool_account) == (Pool {
                    user_count: (old(pool_account).user_count + 1) as u32,
                    ..*old(pool_account)
                })
                &&& u == (User {
                    pool: *pool_key,
                    user: *owner,
                    reward_earned_claimed: 0,
                    reward_earned_pending: 0,
                    mint_staked_count: 0,
                    uuid: uuid,
                    mint_staked: *mint_staked_key,
                    last_update_time: now,
                })
                &&& m.pool == *pool_key
                &&& m.user_account == *user_key
                &&& m.mint_accounts@.len() == 0
            }),
        },
{
    if !pool_account.is_initialized || pool_account.paused {
        return Err(ErrorCode::PoolPaused);
    }
    if pool_account.user_count == u32::MAX {
        return Err(ErrorCode::NumericalOverflowError);
    }
    let user = User {
        pool: *pool_key,
        user: *owner,
        reward_earned_claimed: 0,
        reward_earned_pending: 0,
        mint_staked_count: 0,
        uuid,
        mint_staked: *mint_staked_key,
        last_update_time: now,
    };
    let mint_staked = MintStaked { pool: *pool_key, user_account: *user_key, mint_accounts: Vec::new() };
    pool_account.user_count = pool_account.user_count + 1;
    Ok((user, mint_staked))
}

/// Why `stake` fails, if it does.
pub open spec fn stake_error(p: Pool, c: Config, u: User, staker: Seq<u8>, mint: Seq<u8>, now: u64) -> Option<
    ErrorCode,
> {
    if !pool_active(p) {
        Some(ErrorCode::PoolPaused)
    } else if staker != u.user@ {
        Some(ErrorCode::Unauthorized)
    } else if !config_mints(c).contains(mint) {
        Some(ErrorCode::InvalidMint)
    } else if p.token_stake_count == u32::MAX || settled_pending(u, p.reward_rate_per_token, now) > u64::MAX
        || u.mint_staked_count == u32::MAX {
        Some(ErrorCode::NumericalOverflowError)
    } else {
        None
    }
}

/// A staked item together with the new staked-list generation and the hand-over
/// of the item's token account to the pool.
pub struct StakeChange {
    pub mint_staked: MintStaked,
    pub set_authority: SetAuthority,
}

/// Stakes the item held by `stake_from_account`, whose mint must be listed in the
/// config: settles the user's reward, counts the item, builds the next staked-list
/// generation (the current entries, then the new one) at `new_mint_staked_key`,
/// and hands the token account over to the pool at `pool_key`.
pub fn stake(
    pool_account: &mut Pool,
    pool_key: &Pubkey,
    config: &Config,
    user_account: &mut User,
    current_mint_staked: &MintStaked,
    staker: &Pubkey,
    stake_from_account: &TokenAccount,
    new_mint_staked_key: &Pubkey,
    uuid: String,
    now: u64,
) -> (r: Result<StakeChange, ErrorCode>)
    requires
        config_wf(*config),
    ensures
        match stake_error(
            *old(pool_account),
            *config,
            *old(user_account),
            staker@,
            stake_from_account.mint@,
            now,
        ) {
            Some(e) => r is Err && r->Err_0 == e && *final(pool_account) == *old(pool_account)
                && *final(user_account) == *old(user_account),
            None => r is Ok && ({
                let c = r->Ok_0;
                let settled_user = settled(*old(user_account), old(pool_account).reward_rate_per_token, now);
                &&& *final(pool_account) == (Pool {
                    token_stake_count: (old(pool_account).token_stake_count + 1) as u32,
                    ..*old(pool_account)
                })
                &&& *final(user_account) == (User {
                    mint_staked: *new_mint_staked_key,
                    mint_staked_count: (old(user_account).mint_staked_count + 1) as u32,
                    uuid: uuid,
                    ..settled_user
                })
                &&& c.mint_staked.pool == *pool_key
                &&& c.mint_staked.user_account == current_mint_staked.user_account
                &&& c.mint_staked.mint_accounts@ == current_mint_staked.mint_accounts@.push(stake_from_account.key)
                &&& current_mint_staked.mint_accounts@.len() == old(user_account).mint_staked_count
                    ==> c.mint_staked.mint_accounts@.len() == final(user_account).mint_staked_count
                &&& c.set_authority == (SetAuthority {
                    account: stake_from_account.key,
                    current_authority: *staker,
                    new_authority: *pool_key,
                })
            }),
        },
{
    if !pool_account.is_initialized || pool_account.paused {
        return Err(ErrorCode::PoolPaused);
    }
    if *staker != user_account.user {
        return Err(ErrorCode::Unauthorized);
    }
    if !check_mint_address(config.mint_data.as_slice(), &stake_from_account.mint) {
        return Err(ErrorCode::InvalidMint);
    }
    if pool_account.token_stake_count == u32::MAX || user_account.mint_staked_count == u32::MAX {
        return Err(ErrorCode::NumericalOverflowError);
    }
    update_rewards(pool_account, user_account, now)?;
    pool_account.token_stake_count = pool_account.token_stake_count + 1;
    user_account.mint_staked = *new_mint_staked_key;
    user_account.mint_staked_count = user_account.mint_staked_count + 1;
    user_account.uuid = uuid;
    let mint_accounts = with_appended(&current_mint_staked.mint_accounts, stake_from_account.key);
    Ok(
        StakeChange {
            mint_staked: MintStaked {
                pool: *pool_key,
                user_account: current_mint_staked.user_account,
                mint_accounts,
            },
            set_authority: SetAuthority {
                account: stake_from_account.key,
                current_authority: *staker,
                new_authority: *pool_key,
            },
        },
    )
}

/// Why `unstake` fails, if it does.
pub open spec fn unstake_error(p: Pool, u: User, current: Seq<Pubkey>, staker: Seq<u8>, item: Seq<u8>, now: u64) -> Option<
    ErrorCode,
> {
    if !pool_active(p) {
        Some(ErrorCode::PoolPaused)
    } else if staker != u.user@ {
        Some(ErrorCode::Unauthorized)
    } else if !staked_keys(current).contains(item) {
        Some(ErrorCode::MintNotStaked)
    } else if p.token_stake_count == 0 || settled_pending(u, p.reward_rate_per_token, now) > u64::MAX
        || u.mint_staked_count == 0 {
        Some(ErrorCode::NumericalOverflowError)
    } else {
        None
    }
}

/// Unstakes the item held by the token account `unstake_from_account`, which the
/// current generation must list: settles the user's reward, uncounts the item,
/// builds the next generation (the current entries less the first one for that
/// account, in order) at `new_mint_staked_key`, and hands the token account back
/// from the pool at `pool_key` to the staker.
pub fn unstake(
    pool_account: &mut Pool,
    pool_key: &Pubkey,
    user_account: &mut User,
    current_mint_staked: &MintStaked,
    staker: &Pubkey,
    unstake_from_account: &Pubkey,
    new_mint_staked_key: &Pubkey,
    uuid: String,
    now: u64,
) -> (r: Result<StakeChange, ErrorCode>)
    ensures
        match unstake_error(
            *old(pool_account),
            *old(user_account),
            current_mint_staked.mint_accounts@,
            staker@,
            unstake_from_account@,
            now,
        ) {
            Some(e) => r is Err && r->Err_0 == e && *final(pool_account) == *old(pool_account)
                && *final(user_account) == *old(user_account),
            None => r is Ok && ({
                let c = r->Ok_0;
                let settled_user = settled(*old(user_account), old(pool_account).reward_rate_per_token, now);
                &&& *final(pool_account) == (Pool {
                    token_stake_count: (old(pool_account).token_stake_count - 1) as u32,
                    ..*old(pool_account)
                })
                &&& *final(user_account) == (User {
                    mint_staked: *new_mint_staked_key,
                    mint_staked_count: (old(user_account).mint_staked_count - 1) as u32,
                    uuid: uuid,
                    ..settled_user
                })
                &&& c.mint_staked.pool == *pool_key
                &&& c.mint_staked.user_account == current_mint_staked.user_account
                &&& staked_keys(c.mint_staked.mint_accounts@) == staked_keys(
                    current_mint_staked.mint_accounts@,
                ).remove_value(unstake_from_account@)
                &&& current_mint_staked.mint_accounts@.len() == old(user_account).mint_staked_count
                    ==> c.mint_staked.mint_accounts@.len() == final(user_account).mint_staked_count
                &&& c.set_authority == (SetAuthority {
                    account: *unstake_from_account,
                    current_authority: *pool_key,
                    new_authority: *staker,
                })
            }),
        },
{
    if !pool_account.is_initialized || pool_account.paused {
        return Err(ErrorCode::PoolPaused);
    }
    if *staker != user_account.user {
        return Err(ErrorCode::Unauthorized);
    }
    if !list_contains(&current_mint_staked.mint_accounts, unstake_from_account) {
        return Err(ErrorCode::MintNotStaked);
    }
    if pool_account.token_stake_count == 0 || user_account.mint_staked_count == 0 {
        return Err(ErrorCode::NumericalOverflowError);
    }
    update_rewards(pool_account, user_account, now)?;
    pool_account.token_stake_count = pool_account.token_stake_count - 1;
    user_account.mint_staked = *new_mint_staked_key;
    user_account.mint_staked_count = user_account.mint_staked_count - 1;
    user_account.uuid = uuid;
    let mint_accounts = without_first(&current_mint_staked.mint_accounts, unstake_from_account);
    proof {
        lemma_membership_step(staked_keys(current_mint_staked.mint_accounts@), unstake_from_account@);
        assert(staked_keys(mint_accounts@).len() == mint_accounts@.len());
    }
    Ok(
        StakeChange {
            mint_staked: MintStaked {
                pool: *pool_key,
                user_account: current_mint_staked.user_account,
                mint_accounts,
            },
            set_authority: SetAuthority {
                account: *unstake_from_account,
                current_authority: *pool_key,
                new_authority: *staker,
            },
        },
    )
}

/// Why `claim` fails, if it does.
pub open spec fn claim_error(p: Pool, u: User, signer: Seq<u8>, now: u64) -> Option<ErrorCode> {
    if !pool_active(p) {
        Some(ErrorCode::PoolPaused)
    } else if signer != u.user@ {
        Some(ErrorCode::Unauthorized)
    } else if settled_pending(u, p.reward_rate_per_token, now) > u64::MAX
        || u.reward_earned_claimed + settled_pending(u, p.reward_rate_per_token, now) > u64::MAX {
        Some(ErrorCode::NumericalOverflowError)
    } else {
        None
    }
}

/// The smaller of `a` and `b`.
pub open spec fn min_u64(a: u64, b: u64) -> u64 {
    if a < b {
        a
    } else {
        b
    }
}

/// Claims the user's reward: settles it, moves all of it from pending to
/// claimed, and returns the transfer of what the vault can pay of it (at most
/// `vault_balance`) from the reward vault to `reward_to_account`; none when
/// nothing is paid. What the vault cannot pay is not carried forward.
pub fn claim(
    pool_account: &Pool,
    pool_key: &Pubkey,
    user_account: &mut User,
    signer: &Pubkey,
    reward_to_account: &Pubkey,
    vault_balance: u64,
    now: u64,
) -> (r: Result<Option<Transfer>, ErrorCode>)
    ensures
        match claim_error(*pool_account, *old(user_account), signer@, now) {
            Some(e) => r == Err::<Option<Transfer>, ErrorCode>(e) && *final(user_account) == *old(user_account),
            None => r is Ok && ({
                let pending = settled_pending(*old(user_account), pool_account.reward_rate_per_token, now) as u64;
                let paid = min_u64(pending, vault_balance);
                &&& *final(user_account) == (User {
                    reward_earned_claimed: (old(user_account).reward_earned_claimed + pending) as u64,
                    reward_earned_pending: 0,
                    ..settled(*old(user_account), pool_account.reward_rate_per_token, now)
                })
                &&& paid == 0 ==> r->Ok_0 is None
                &&& paid > 0 ==> r->Ok_0 == Some(
                    Transfer {
                        from: pool_account.reward_vault,
                        to: *reward_to_account,
                        authority: *pool_key,
                        amount: paid,
                    },
                )
            }),
        },
{
    if !pool_account.is_initialized || pool_account.paused {
        return Err(ErrorCode::PoolPaused);
    }
    if *signer != user_account.user {
        return Err(ErrorCode::Unauthorized);
    }
    let reward_amount = pending_at(pool_account, user_account, now)?;
    if reward_amount > u64::MAX - user_account.reward_earned_claimed {
        return Err(ErrorCode::NumericalOverflowError);
    }
    user_account.reward_earned_pending = 0;
    user_account.reward_earned_claimed = user_account.reward_earned_claimed + reward_amount;
    user_account.last_update_time = now;
    let paid = if vault_balance < reward_amount {
        vault_balance
    } else {
        reward_amount
    };
    if paid > 0 {
        Ok(
            Some(
                Transfer {
                    from: pool_account.reward_vault,
                    to: *reward_to_account,
                    authority: *pool_key,
                    amount: paid,
                },
            ),
        )
    } else {
        Ok(None)
    }
}

/// Why `close_user` fails, if it does; the reward is settled before the guards
/// are tested, so reward accrued since the last update blocks the close too.
pub open spec fn close_user_error(p: Pool, u: User, signer: Seq<u8>, now: u64) -> Option<ErrorCode> {
    if !pool_active(p) {
        Some(ErrorCode::PoolPaused)
    } else if signer != u.user@ {
        Some(ErrorCode::Unauthorized)
    } else if p.user_count == 0 || settled_pending(u, p.reward_rate_per_token, now) > u64::MAX {
        Some(ErrorCode::NumericalOverflowError)
    } else if u.mint_staked_count > 0 {
        Some(ErrorCode::StakedMint)
    } else if settled_pending(u, p.reward_rate_per_token, now) > 0 {
        Some(ErrorCode::PendingRewards)
    } else {
        None
    }
}

/// Closes a user with nothing staked and nothing pending once settled at `now`;
/// the pool counts one user less.
pub fn close_user(pool_account: &mut Pool, user_account: &User, signer: &Pubkey, now: u64) -> (r: Result<
    (),
    ErrorCode,
>)
    ensures
        user_account.mint_staked_count > 0 ==> r is Err,
        user_account.reward_earned_pending > 0 ==> r is Err,
        match close_user_error(*old(pool_account), *user_account, signer@, now) {
            Some(e) => r == Err::<(), ErrorCode>(e) && *final(pool_account) == *old(pool_account),
            None => r == Ok::<(), ErrorCode>(()) && *final(pool_account) == (Pool {
                user_count: (old(pool_account).user_count - 1) as u32,
                ..*old(pool_account)
            }),
        },
{
    if !pool_account.is_initialized || pool_account.paused {
        return Err(ErrorCode::PoolPaused);
    }
    if *signer != user_account.user {
        return Err(ErrorCode::Unauthorized);
    }
    if pool_account.user_count == 0 {
        return Err(ErrorCode::NumericalOverflowError);
    }
    let pending = pending_at(pool_account, user_account, now)?;
    if user_account.mint_staked_count > 0 {
        return Err(ErrorCode::StakedMint);
    }
    if pending > 0 {
        return Err(ErrorCode::PendingRewards);
    }
    pool_account.user_count = pool_account.user_count - 1;
    Ok(())
}

/// On a running pool, asked by the user's owner while the pool counts users:
/// closing a user with staked items fails with `StakedMint` even when nothing is
/// pending, and closing one with no staked items but a pending reward fails with
/// `PendingRewards`.
pub proof fn lemma_close_user_guards(p: Pool, u: User, signer: Seq<u8>, now: u64)
    requires
        pool_active(p),
        signer == u.user@,
        p.user_count >= 1,
    ensures
        u.mint_staked_count > 0 && settled_pending(u, p.reward_rate_per_token, now) <= u64::MAX
            ==> close_user_error(p, u, signer, now) == Some(ErrorCode::StakedMint),
        u.mint_staked_count == 0 && u.reward_earned_pending > 0 ==> close_user_error(p, u, signer, now) == Some(
            ErrorCode::PendingRewards,
        ),
{
    let per_unit = p.reward_rate_per_token as int / PRECISION as int;
    let elapsed = elapsed_since(u.last_update_time, now);
    assert(per_unit * 0 * elapsed == 0) by (nonlinear_arith);
}

} // verus!
