//! The pool state machine: creation, the eligible-mint list, pause control, the
//! funder roster, funding and closing.
use vstd::prelude::*;
use crate::accrual::{refresh_fits, refresh_reward_rate, refreshed_rate};
use crate::codec::{list_count, list_layout, mint_list, slot, slot_start, write_range, COUNT_SIZE};
use crate::types::{
    empty_key, CloseAccount, Config, ErrorCode, Pool, Pubkey, Transfer, MAX_FUNDERS, MIN_DURATION,
    PUBKEY_SIZE,
};

verus! {

/// The identities in the funder roster, slot by slot.
pub open spec fn funder_keys(p: Pool) -> Seq<Seq<u8>> {
    p.funders@.map_values(|k: Pubkey| k@)
}

/// Whether `k` is a registered funder: a non-empty identity in the roster.
pub open spec fn is_funder(p: Pool, k: Seq<u8>) -> bool {
    k != empty_key() && funder_keys(p).contains(k)
}

/// No non-empty roster entry is the authority.
pub open spec fn roster_excludes_authority(p: Pool) -> bool {
    forall|i: int|
        0 <= i < MAX_FUNDERS && #[trigger] funder_keys(p)[i] != empty_key() ==> funder_keys(p)[i]
            != p.authority@
}

/// The non-empty roster entries are pairwise distinct.
pub open spec fn roster_distinct(p: Pool) -> bool {
    forall|i: int, j: int|
        0 <= i < MAX_FUNDERS && 0 <= j < MAX_FUNDERS && i != j && #[trigger] funder_keys(p)[i] != empty_key()
            ==> funder_keys(p)[i] != #[trigger] funder_keys(p)[j]
}

/// `a` and `b` agree on every field but the roster.
pub open spec fn same_but_roster(a: Pool, b: Pool) -> bool {
    &&& a.is_initialized == b.is_initialized
    &&& a.authority == b.authority
    &&& a.paused == b.paused
    &&& a.config == b.config
    &&& a.reward_mint == b.reward_mint
    &&& a.reward_vault == b.reward_vault
    &&& a.last_update_time == b.last_update_time
    &&& a.reward_rate_per_token == b.reward_rate_per_token
    &&& a.reward_duration == b.reward_duration
    &&& a.reward_duration_end == b.reward_duration_end
    &&& a.token_stake_count == b.token_stake_count
    &&& a.user_count == b.user_count
}

/// A config whose list has room for `num_mint` keys.
pub open spec fn config_wf(c: Config) -> bool {
    &&& c.num_mint > 0
    &&& list_layout(c.mint_data@, c.num_mint as int)
}

/// The mint identities that a config lists.
pub open spec fn config_mints(c: Config) -> Seq<Seq<u8>> {
    mint_list(c.mint_data@)
}

/// Why `initialize_pool` fails, if it does.
pub open spec fn initialize_error(p: Pool, num_mint: u32, reward_duration: u64) -> Option<ErrorCode> {
    if num_mint == 0 {
        Some(ErrorCode::InsufficientTokenStake)
    } else if reward_duration < MIN_DURATION {
        Some(ErrorCode::DurationTooShort)
    } else if p.is_initialized {
        Some(ErrorCode::AccountAlreadyInitialized)
    } else if slot_start(num_mint as int) > usize::MAX {
        Some(ErrorCode::NumericalOverflowError)
    } else {
        None
    }
}

/// Creates a pool, paused and unfunded, and its empty config with room for
/// `num_mint` keys.
pub fn initialize_pool(
    pool_account: &mut Pool,
    authority: &Pubkey,
    config_key: &Pubkey,
    reward_mint: &Pubkey,
    reward_vault: &Pubkey,
    uuid: String,
    num_mint: u32,
    reward_duration: u64,
    now: u64,
) -> (r: Result<Config, ErrorCode>)
    ensures
        match initialize_error(*old(pool_account), num_mint, reward_duration) {
            Some(e) => r == Err::<Config, ErrorCode>(e) && *final(pool_account) == *old(pool_account),
            None => r is Ok && ({
                let p = *final(pool_account);
                let c = r->Ok_0;
                &&& p.is_initialized
                &&& p.authority == *authority
                &&& p.paused
                &&& p.config == *config_key
                &&& p.reward_mint == *reward_mint
                &&& p.reward_vault == *reward_vault
                &&& p.last_update_time == now
                &&& p.reward_rate_per_token == 1
                &&& p.reward_duration == reward_duration
                &&& p.reward_duration_end == 0
                &&& p.token_stake_count == 0
                &&& p.user_count == 0
                &&& funder_keys(p) == Seq::new(MAX_FUNDERS as nat, |i: int| empty_key())
                &&& c.authority == *authority
                &&& c.uuid == uuid
                &&& c.num_mint == num_mint
                &&& c.mint_data@ == Seq::new(slot_start(num_mint as int) as nat, |i: int| 0u8)
                &&& config_wf(c)
                &&& config_mints(c).len() == 0
            }),
        },
{
    if num_mint == 0 {
        return Err(ErrorCode::InsufficientTokenStake);
    }
    if reward_duration < MIN_DURATION {
        return Err(ErrorCode::DurationTooShort);
    }
    if pool_account.is_initialized {
        return Err(ErrorCode::AccountAlreadyInitialized);
    }
    if num_mint as usize > (usize::MAX - COUNT_SIZE) / PUBKEY_SIZE {
        return Err(ErrorCode::NumericalOverflowError);
    }
    pool_account.is_initialized = true;
    pool_account.authority = *authority;
    pool_account.paused = true;
    pool_account.config = *config_key;
    pool_account.reward_mint = *reward_mint;
    pool_account.reward_vault = *reward_vault;
    pool_account.last_update_time = now;
    pool_account.reward_rate_per_token = 1;
    pool_account.reward_duration = reward_duration;
    pool_account.reward_duration_end = 0;
    pool_account.token_stake_count = 0;
    pool_account.user_count = 0;
    pool_account.funders = [Pubkey::empty(), Pubkey::empty(), Pubkey::empty(), Pubkey::empty(), Pubkey::empty()];
    assert(funder_keys(*pool_account) =~= Seq::new(MAX_FUNDERS as nat, |i: int| empty_key()));
    let size: usize = COUNT_SIZE + (num_mint as usize) * PUBKEY_SIZE;
    let mint_data: Vec<u8> = vec![0u8; size];
    assert(mint_data@ =~= Seq::new(slot_start(num_mint as int) as nat, |i: int| 0u8));
    Ok(Config { authority: *authority, uuid, num_mint, mint_data })
}

/// Why `add_mint_addresses` fails, if it does.
pub open spec fn add_mints_error(p: Pool, c: Config, signer: Seq<u8>, count: int, index: u32) -> Option<
    ErrorCode,
> {
    if !p.is_initialized {
        Some(ErrorCode::PoolPaused)
    } else if signer != p.authority@ || signer != c.authority@ {
        Some(ErrorCode::Unauthorized)
    } else if index >= c.num_mint || index + count > c.num_mint {
        Some(ErrorCode::IndexGreaterThanLength)
    } else {
        None
    }
}

/// Writes `mint_addresses` into the config's list from slot `index` on; the
/// list's count grows to cover them and never shrinks.
pub fn add_mint_addresses(
    pool_account: &Pool,
    config: &mut Config,
    signer: &Pubkey,
    mint_addresses: &Vec<Pubkey>,
    index: u32,
) -> (r: Result<(), ErrorCode>)
    requires
        config_wf(*old(config)),
    ensures
        config_wf(*final(config)),
        match add_mints_error(*pool_account, *old(config), signer@, mint_addresses@.len() as int, index) {
            Some(e) => r == Err::<(), ErrorCode>(e) && *final(config) == *old(config),
            None => r == Ok::<(), ErrorCode>(()) && ({
                let old_count = list_count(old(config).mint_data@);
                let end = index + mint_addresses@.len();
                &&& final(config).authority == old(config).authority
                &&& final(config).uuid == old(config).uuid
                &&& final(config).num_mint == old(config).num_mint
                &&& list_count(final(config).mint_data@) == if end > old_count {
                    end
                } else {
                    old_count
                }
                &&& forall|i: int|
                    0 <= i < final(config).num_mint ==> #[trigger] slot(final(config).mint_data@, i) == if index
                        <= i < end {
                        mint_addresses@[i - index]@
                    } else {
                        slot(old(config).mint_data@, i)
                    }
            }),
        },
{
    if !pool_account.is_initialized {
        return Err(ErrorCode::PoolPaused);
    }
    if *signer != pool_account.authority || *signer != config.authority {
        return Err(ErrorCode::Unauthorized);
    }
    if index >= config.num_mint || mint_addresses.len() > (config.num_mint - index) as usize {
        return Err(ErrorCode::IndexGreaterThanLength);
    }
    write_range(&mut config.mint_data, config.num_mint as usize, index as usize, mint_addresses)
}

/// Why `pause` or `resume` fails, if it does.
pub open spec fn pause_error(p: Pool, signer: Seq<u8>) -> Option<ErrorCode> {
    if !p.is_initialized {
        Some(ErrorCode::PoolPaused)
    } else if signer != p.authority@ {
        Some(ErrorCode::Unauthorized)
    } else {
        None
    }
}

/// Pauses the pool; pausing a paused pool is no error.
pub fn pause(pool_account: &mut Pool, signer: &Pubkey) -> (r: Result<(), ErrorCode>)
    ensures
        match pause_error(*old(pool_account), signer@) {
            Some(e) => r == Err::<(), ErrorCode>(e) && *final(pool_account) == *old(pool_account),
            None => r == Ok::<(), ErrorCode>(()) && *final(pool_account) == (Pool {
                paused: true,
                ..*old(pool_account)
            }),
        },
{
    if !pool_account.is_initialized {
        return Err(ErrorCode::PoolPaused);
    }
    if *signer != pool_account.authority {
        return Err(ErrorCode::Unauthorized);
    }
    pool_account.paused = true;
    Ok(())
}

/// Resumes the pool; resuming a running pool is no error.
pub fn resume(pool_account: &mut Pool, signer: &Pubkey) -> (r: Result<(), ErrorCode>)
    ensures
        match pause_error(*old(pool_account), signer@) {
            Some(e) => r == Err::<(), ErrorCode>(e) && *final(pool_account) == *old(pool_account),
            None => r == Ok::<(), ErrorCode>(()) && *final(pool_account) == (Pool {
                paused: false,
                ..*old(pool_account)
            }),
        },
{
    if !pool_account.is_initialized {
        return Err(ErrorCode::PoolPaused);
    }
    if *signer != pool_account.authority {
        return Err(ErrorCode::Unauthorized);
    }
    pool_account.paused = false;
    Ok(())
}

/// Index of the first roster slot holding `k`.
fn roster_position(funders: &[Pubkey; MAX_FUNDERS], k: &Pubkey) -> (r: Option<usize>)
    ensures
        ({
            let keys = funders@.map_values(|f: Pubkey| f@);
            match r {
                Some(i) => i < MAX_FUNDERS && keys.contains(k@) && keys.index_of_first(k@) == Some(i as int),
                None => !keys.contains(k@),
            }
        }),
{
    let ghost keys = funders@.map_values(|f: Pubkey| f@);
    let mut i: usize = 0;
    while i < MAX_FUNDERS
        invariant
            i <= MAX_FUNDERS,
            keys == funders@.map_values(|f: Pubkey| f@),
            forall|j: int| 0 <= j < i ==> keys[j] != k@,
        decreases MAX_FUNDERS - i,
    {
        if funders[i] == *k {
            proof {
                keys.index_of_first_ensures(k@);
                assert(keys[i as int] == k@);
                let f = keys.index_of_first(k@).unwrap();
                assert(f == i) by {
                    if f < i {
                        assert(keys[f] != k@);
                    } else if i < f {
                        assert(keys[i as int] == k@);
                    }
                }
            }
            return Some(i);
        }
        i = i + 1;
    }
    assert(!keys.contains(k@)) by {
        if keys.contains(k@) {
            let j = choose|j: int| 0 <= j < keys.len() && keys[j] == k@;
            assert(keys[j] != k@);
        }
    }
    None
}

/// Why `authorize_funder` fails, if it does.
pub open spec fn authorize_error(p: Pool, signer: Seq<u8>, f: Seq<u8>) -> Option<ErrorCode> {
    if !p.is_initialized {
        Some(ErrorCode::PoolPaused)
    } else if signer != p.authority@ {
        Some(ErrorCode::Unauthorized)
    } else if f == p.authority@ || funder_keys(p).contains(f) {
        Some(ErrorCode::FunderAlreadyAuthorized)
    } else if !funder_keys(p).contains(empty_key()) {
        Some(ErrorCode::MaxFunders)
    } else {
        None
    }
}

/// Adds `funder_to_add` to the first empty roster slot.
pub fn authorize_funder(pool_account: &mut Pool, signer: &Pubkey, funder_to_add: Pubkey) -> (r: Result<
    (),
    ErrorCode,
>)
    ensures
        roster_excludes_authority(*old(pool_account)) ==> roster_excludes_authority(*final(pool_account)),
        roster_distinct(*old(pool_account)) ==> roster_distinct(*final(pool_account)),
        !funder_keys(*old(pool_account)).contains(old(pool_account).authority@) ==> !funder_keys(
            *final(pool_account),
        ).contains(final(pool_account).authority@),
        funder_keys(*final(pool_account)).len() == MAX_FUNDERS,
        match authorize_error(*old(pool_account), signer@, funder_to_add@) {
            Some(e) => r == Err::<(), ErrorCode>(e) && *final(pool_account) == *old(pool_account),
            None => r == Ok::<(), ErrorCode>(()) && same_but_roster(*final(pool_account), *old(pool_account))
                && funder_keys(*final(pool_account)) == funder_keys(*old(pool_account)).update(
                funder_keys(*old(pool_account)).index_of_first(empty_key()).unwrap(),
                funder_to_add@,
            ),
        },
{
    if !pool_account.is_initialized {
        return Err(ErrorCode::PoolPaused);
    }
    if *signer != pool_account.authority {
        return Err(ErrorCode::Unauthorized);
    }
    if funder_to_add == pool_account.authority {
        return Err(ErrorCode::FunderAlreadyAuthorized);
    }
    if roster_position(&pool_account.funders, &funder_to_add).is_some() {
        return Err(ErrorCode::FunderAlreadyAuthorized);
    }
    let empty = Pubkey::empty();
    match roster_position(&pool_account.funders, &empty) {
        Some(idx) => {
            let ghost before = *pool_account;
            pool_account.funders[idx] = funder_to_add;
            proof {
                assert(funder_keys(*pool_account) =~= funder_keys(before).update(idx as int, funder_to_add@));
                assert(funder_to_add@ != empty_key());
            }
            Ok(())
        },
        None => Err(ErrorCode::MaxFunders),
    }
}

/// Why `deauthorize_funder` fails, if it does.
pub open spec fn deauthorize_error(p: Pool, signer: Seq<u8>, f: Seq<u8>) -> Option<ErrorCode> {
    if !p.is_initialized {
        Some(ErrorCode::PoolPaused)
    } else if signer != p.authority@ {
        Some(ErrorCode::Unauthorized)
    } else if f == p.authority@ {
        Some(ErrorCode::CannotDeauthorizePoolAuthority)
    } else if !is_funder(p, f) {
        Some(ErrorCode::CannotDeauthorizeMissingAuthority)
    } else {
        None
    }
}

/// Empties the roster slot that holds `funder_to_remove`.
pub fn deauthorize_funder(pool_account: &mut Pool, signer: &Pubkey, funder_to_remove: Pubkey) -> (r: Result<
    (),
    ErrorCode,
>)
    ensures
        roster_excludes_authority(*old(pool_account)) ==> roster_excludes_authority(*final(pool_account)),
        roster_distinct(*old(pool_account)) ==> roster_distinct(*final(pool_account)),
        funder_keys(*final(pool_account)).len() == MAX_FUNDERS,
        match deauthorize_error(*old(pool_account), signer@, funder_to_remove@) {
            Some(e) => r == Err::<(), ErrorCode>(e) && *final(pool_account) == *old(pool_account),
            None => r == Ok::<(), ErrorCode>(()) && same_but_roster(*final(pool_account), *old(pool_account))
                && funder_keys(*final(pool_account)) == funder_keys(*old(pool_account)).update(
                funder_keys(*old(pool_account)).index_of_first(funder_to_remove@).unwrap(),
                empty_key(),
            ),
        },
{
    if !pool_account.is_initialized {
        return Err(ErrorCode::PoolPaused);
    }
    if *signer != pool_account.authority {
        return Err(ErrorCode::Unauthorized);
    }
    if funder_to_remove == pool_account.authority {
        return Err(ErrorCode::CannotDeauthorizePoolAuthority);
    }
    let empty = Pubkey::empty();
    if funder_to_remove == empty {
        return Err(ErrorCode::CannotDeauthorizeMissingAuthority);
    }
    match roster_position(&pool_account.funders, &funder_to_remove) {
        Some(idx) => {
            let ghost before = *pool_account;
            pool_account.funders[idx] = empty;
            assert(funder_keys(*pool_account) =~= funder_keys(before).update(idx as int, empty_key()));
            Ok(())
        },
        None => Err(ErrorCode::CannotDeauthorizeMissingAuthority),
    }
}

/// Authorizing a funder twice fails the second time, and the roster keeps its
/// five slots.
pub proof fn lemma_funder_roster(p0: Pool, p1: Pool, signer: Seq<u8>, f: Seq<u8>)
    requires
        authorize_error(p0, signer, f) is None,
        same_but_roster(p1, p0),
        funder_keys(p1) == funder_keys(p0).update(funder_keys(p0).index_of_first(empty_key()).unwrap(), f),
    ensures
        is_funder(p1, f),
        authorize_error(p1, signer, f) == Some(ErrorCode::FunderAlreadyAuthorized),
        funder_keys(p1).len() == MAX_FUNDERS,
{
    let keys = funder_keys(p0);
    keys.index_of_first_ensures(empty_key());
    let i = keys.index_of_first(empty_key()).unwrap();
    assert(funder_keys(p1)[i] == f);
    assert(f != empty_key());
}

/// On a pool whose authority asks: adding the authority or a funder already in the
/// roster fails as already authorized, adding anyone else to a full roster fails
/// for want of a slot, and removing the authority or anyone who is not a funder
/// (the empty-slot identity included) fails.
pub proof fn lemma_roster_errors(p: Pool, signer: Seq<u8>, f: Seq<u8>)
    requires
        p.is_initialized,
        signer == p.authority@,
    ensures
        f == p.authority@ || is_funder(p, f) ==> authorize_error(p, signer, f) == Some(
            ErrorCode::FunderAlreadyAuthorized,
        ),
        f != p.authority@ && !funder_keys(p).contains(f) && !funder_keys(p).contains(empty_key())
            ==> authorize_error(p, signer, f) == Some(ErrorCode::MaxFunders),
        f == p.authority@ ==> deauthorize_error(p, signer, f) == Some(ErrorCode::CannotDeauthorizePoolAuthority),
        f != p.authority@ && !is_funder(p, f) ==> deauthorize_error(p, signer, f) == Some(
            ErrorCode::CannotDeauthorizeMissingAuthority,
        ),
        deauthorize_error(p, signer, empty_key()) is Some,
{
}

/// Why `fund` fails, if it does.
pub open spec fn fund_error(p: Pool, num_mint: u32, funder: Seq<u8>, amount: u64, now: u64) -> Option<
    ErrorCode,
> {
    if !p.is_initialized || p.paused {
        Some(ErrorCode::PoolPaused)
    } else if funder != p.authority@ && !is_funder(p, funder) {
        Some(ErrorCode::Unauthorized)
    } else if !refresh_fits(
        amount as int,
        p.reward_rate_per_token as int,
        p.reward_duration as int,
        num_mint as int,
        p.reward_duration_end as int,
        now as int,
    ) || now + p.reward_duration > u64::MAX {
        Some(ErrorCode::NumericalOverflowError)
    } else {
        None
    }
}

/// The pool after a funding of `amount` at `now`.
pub open spec fn funded(p: Pool, num_mint: u32, amount: u64, now: u64) -> Pool {
    Pool {
        reward_rate_per_token: refreshed_rate(
            amount as int,
            p.reward_rate_per_token as int,
            p.reward_duration as int,
            num_mint as int,
            p.reward_duration_end as int,
            now as int,
        ) as u128,
        last_update_time: now,
        reward_duration_end: (now + p.reward_duration) as u64,
        ..p
    }
}

/// Funds the pool with `amount` at `now`: refreshes the reward rate, starts a new
/// reward period, and returns the transfer of `amount` from the funder's vault
/// into the reward vault.
pub fn fund(
    pool_account: &mut Pool,
    config: &Config,
    funder: &Pubkey,
    funder_vault: &Pubkey,
    amount: u64,
    now: u64,
) -> (r: Result<Transfer, ErrorCode>)
    ensures
        match fund_error(*old(pool_account), config.num_mint, funder@, amount, now) {
            Some(e) => r == Err::<Transfer, ErrorCode>(e) && *final(pool_account) == *old(pool_account),
            None => r == Ok::<Transfer, ErrorCode>(
                Transfer {
                    from: *funder_vault,
                    to: old(pool_account).reward_vault,
                    authority: *funder,
                    amount,
                },
            ) && *final(pool_account) == funded(*old(pool_account), config.num_mint, amount, now),
        },
{
    if !pool_account.is_initialized || pool_account.paused {
        return Err(ErrorCode::PoolPaused);
    }
    if *funder != pool_account.authority {
        let empty = Pubkey::empty();
        if *funder == empty || roster_position(&pool_account.funders, funder).is_none() {
            return Err(ErrorCode::Unauthorized);
        }
    }
    let rate = refresh_reward_rate(
        amount,
        pool_account.reward_rate_per_token,
        pool_account.reward_duration,
        config.num_mint,
        pool_account.reward_duration_end,
        now,
    )?;
    let end = match now.checked_add(pool_account.reward_duration) {
        Some(e) => e,
        None => {
            return Err(ErrorCode::NumericalOverflowError);
        },
    };
    pool_account.reward_rate_per_token = rate;
    pool_account.last_update_time = now;
    pool_account.reward_duration_end = end;
    Ok(Transfer { from: *funder_vault, to: pool_account.reward_vault, authority: *funder, amount })
}

/// The ledger work that closes a pool: the refund of the reward vault and its closing.
#[derive(Clone, Copy, Debug)]
pub struct PoolClosure {
    pub refund: Transfer,
    pub close_vault: CloseAccount,
}

/// Why `close_pool` fails, if it does.
pub open spec fn close_pool_error(p: Pool, signer: Seq<u8>, now: u64) -> Option<ErrorCode> {
    if !p.is_initialized {
        Some(ErrorCode::PoolPaused)
    } else if signer != p.authority@ {
        Some(ErrorCode::Unauthorized)
    } else if p.token_stake_count > 0 {
        Some(ErrorCode::TokensStaked)
    } else if p.user_count > 0 {
        Some(ErrorCode::UsersRemaining)
    } else if p.reward_duration_end == 0 || p.reward_duration_end >= now {
        Some(ErrorCode::RewardPeriodNotElapsed)
    } else {
        None
    }
}

/// Closes a pool with no users and no staked items whose reward period has
/// elapsed: the whole vault balance goes to `reward_refundee`, then the vault is
/// closed in favour of `refundee`. `pool_key` is the pool's own address, which
/// holds authority over the vault.
pub fn close_pool(
    pool_account: &Pool,
    pool_key: &Pubkey,
    signer: &Pubkey,
    vault_balance: u64,
    reward_refundee: &Pubkey,
    refundee: &Pubkey,
    now: u64,
) -> (r: Result<PoolClosure, ErrorCode>)
    ensures
        pool_account.token_stake_count > 0 ==> r is Err,
        pool_account.user_count > 0 ==> r is Err,
        pool_account.reward_duration_end == 0 || pool_account.reward_duration_end >= now ==> r is Err,
        match close_pool_error(*pool_account, signer@, now) {
            Some(e) => r == Err::<PoolClosure, ErrorCode>(e),
            None => r == Ok::<PoolClosure, ErrorCode>(
                PoolClosure {
                    refund: Transfer {
                        from: pool_account.reward_vault,
                        to: *reward_refundee,
                        authority: *pool_key,
                        amount: vault_balance,
                    },
                    close_vault: CloseAccount {
                        account: pool_account.reward_vault,
                        destination: *refundee,
                        authority: *pool_key,
                    },
                },
            ),
        },
{
    if !pool_account.is_initialized {
        return Err(ErrorCode::PoolPaused);
    }
    if *signer != pool_account.authority {
        return Err(ErrorCode::Unauthorized);
    }
    if pool_account.token_stake_count > 0 {
        return Err(ErrorCode::TokensStaked);
    }
    if pool_account.user_count > 0 {
        return Err(ErrorCode::UsersRemaining);
    }
    if pool_account.reward_duration_end == 0 || pool_account.reward_duration_end >= now {
        return Err(ErrorCode::RewardPeriodNotElapsed);
    }
    Ok(
        PoolClosure {
            refund: Transfer {
                from: pool_account.reward_vault,
                to: *reward_refundee,
                authority: *pool_key,
                amount: vault_balance,
            },
            close_vault: CloseAccount {
                account: pool_account.reward_vault,
                destination: *refundee,
                authority: *pool_key,
            },
        },
    )
}

} // verus!
