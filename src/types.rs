//! Records of the staking ledger and the errors its operations report.
use vstd::prelude::*;

verus! {

/// Size in bytes of an account identity.
pub const PUBKEY_SIZE: usize = 32;

/// Number of slots in a pool's funder roster.
pub const MAX_FUNDERS: usize = 5;

/// Shortest reward period, in seconds, that a pool accepts.
pub const MIN_DURATION: u64 = 1;

/// A 32-byte account identity. The all-zero identity marks an empty roster slot.
#[derive(Clone, Copy, Debug)]
pub struct Pubkey {
    pub bytes: [u8; PUBKEY_SIZE],
}

impl View for Pubkey {
    type V = Seq<u8>;

    open spec fn view(&self) -> Seq<u8> {
        self.bytes@
    }
}

/// The identity made of 32 zero bytes.
pub open spec fn empty_key() -> Seq<u8> {
    Seq::new(32, |i: int| 0u8)
}

impl Pubkey {
    /// The all-zero identity.
    pub fn empty() -> (r: Pubkey)
        ensures
            r@ == empty_key(),
    {
        let r = Pubkey { bytes: [0u8; PUBKEY_SIZE] };
        assert(r@ =~= empty_key());
        r
    }

    pub fn new(bytes: [u8; PUBKEY_SIZE]) -> (r: Pubkey)
        ensures
            r@ == bytes@,
    {
        Pubkey { bytes }
    }

    pub fn to_bytes(&self) -> (r: [u8; PUBKEY_SIZE])
        ensures
            r@ == self@,
    {
        self.bytes
    }
}

impl PartialEq for Pubkey {
    fn eq(&self, other: &Pubkey) -> (r: bool)
        ensures
            r == (self@ == other@),
    {
        let mut i: usize = 0;
        while i < PUBKEY_SIZE
            invariant
                i <= PUBKEY_SIZE,
                forall|j: int| 0 <= j < i ==> self.bytes@[j] == other.bytes@[j],
            decreases PUBKEY_SIZE - i,
        {
            if self.bytes[i] != other.bytes[i] {
                return false;
            }
            i = i + 1;
        }
        assert(self.bytes@ =~= other.bytes@);
        true
    }
}

impl vstd::std_specs::cmp::PartialEqSpecImpl for Pubkey {
    open spec fn obeys_eq_spec() -> bool {
        true
    }

    open spec fn eq_spec(&self, other: &Pubkey) -> bool {
        self@ == other@
    }
}

impl Eq for Pubkey {
}

/// The failures that an operation reports; each one aborts the operation with no
/// change to any record.
#[derive(Clone, Copy, Debug, PartialEq, Eq, Structural)]
pub enum ErrorCode {
    /// Insufficient tokens to stake.
    InsufficientTokenStake,
    /// Insufficient funds to stake.
    InsufficientFundStake,
    /// Insufficient funds to unstake.
    InsufficientFundUnstake,
    /// Amount must be greater than zero.
    AmountMustBeGreaterThanZero,
    /// Reward B cannot be funded - pool is single stake.
    SingleStakeTokenBCannotBeFunded,
    /// Pool is paused or is not initialized.
    PoolPaused,
    /// User has staked mint.
    StakedMint,
    /// User has pending rewards.
    PendingRewards,
    /// Duration cannot be shorter than the minimum.
    DurationTooShort,
    /// Provided funder is already authorized to fund.
    FunderAlreadyAuthorized,
    /// Maximum funders already authorized.
    MaxFunders,
    /// Cannot deauthorize the primary pool authority.
    CannotDeauthorizePoolAuthority,
    /// Authority not found for deauthorization.
    CannotDeauthorizeMissingAuthority,
    /// Index greater than length.
    IndexGreaterThanLength,
    /// Numerical overflow error.
    NumericalOverflowError,
    /// Mint address is not stakable.
    InvalidMint,
    /// The pool record was already initialized.
    AccountAlreadyInitialized,
    /// The signer is not the identity that the operation requires.
    Unauthorized,
    /// The item is not in the user's current staked list.
    MintNotStaked,
    /// The pool still has users.
    UsersRemaining,
    /// The pool still has staked items.
    TokensStaked,
    /// The reward period has not been set or has not elapsed yet.
    RewardPeriodNotElapsed,
}

/// Pool-wide staking economics and control flags.
pub struct Pool {
    pub is_initialized: bool,
    /// Authority (owner) of the pool.
    pub authority: Pubkey,
    /// Paused state of the pool.
    pub paused: bool,
    /// Config record that lists the items that can be staked.
    pub config: Pubkey,
    /// Mint of the reward token.
    pub reward_mint: Pubkey,
    /// Vault that holds reward tokens.
    pub reward_vault: Pubkey,
    /// The last time the pool's reward state was updated.
    pub last_update_time: u64,
    /// Reward per staked unit per second, scaled by `PRECISION`.
    pub reward_rate_per_token: u128,
    /// Length of a reward period, in seconds.
    pub reward_duration: u64,
    /// End of the current reward period; 0 before the first funding.
    pub reward_duration_end: u64,
    /// Items currently staked.
    pub token_stake_count: u32,
    /// Users currently registered.
    pub user_count: u32,
    /// Identities besides the authority allowed to fund; empty slots hold the zero identity.
    pub funders: [Pubkey; MAX_FUNDERS],
}

/// The list of items eligible for staking in a pool.
pub struct Config {
    /// Authority (owner) of the list.
    pub authority: Pubkey,
    /// Free-form tag chosen at creation.
    pub uuid: String,
    /// Capacity of the list.
    pub num_mint: u32,
    /// The list itself: a 4-byte little-endian count followed by `num_mint` key slots.
    pub mint_data: Vec<u8>,
}

/// One participant's account in a pool.
pub struct User {
    /// Pool this user belongs to.
    pub pool: Pubkey,
    /// Owner of this record.
    pub user: Pubkey,
    /// Total reward claimed so far.
    pub reward_earned_claimed: u64,
    /// Reward settled and not yet claimed.
    pub reward_earned_pending: u64,
    /// Number of items staked.
    pub mint_staked_count: u32,
    /// Correlation tag of the current staked-list generation.
    pub uuid: String,
    /// The current staked-list generation.
    pub mint_staked: Pubkey,
    /// Last time the user's pending reward was settled.
    pub last_update_time: u64,
}

/// One generation of a user's list of staked items.
pub struct MintStaked {
    pub pool: Pubkey,
    pub user_account: Pubkey,
    /// Token accounts that hold the staked items, in the order they were staked.
    pub mint_accounts: Vec<Pubkey>,
}

/// What the pool reads of a token account held by the external ledger.
#[derive(Clone, Copy, Debug)]
pub struct TokenAccount {
    /// Address of the token account.
    pub key: Pubkey,
    /// Mint of the tokens it holds.
    pub mint: Pubkey,
    /// Its balance.
    pub amount: u64,
}

/// A transfer for the external ledger to carry out.
#[derive(Clone, Copy, Debug)]
pub struct Transfer {
    pub from: Pubkey,
    pub to: Pubkey,
    pub authority: Pubkey,
    pub amount: u64,
}

/// A change of a token account's owner for the external ledger to carry out.
#[derive(Clone, Copy, Debug)]
pub struct SetAuthority {
    pub account: Pubkey,
    pub current_authority: Pubkey,
    pub new_authority: Pubkey,
}

/// The closing of a token account for the external ledger to carry out.
#[derive(Clone, Copy, Debug)]
pub struct CloseAccount {
    pub account: Pubkey,
    pub destination: Pubkey,
    pub authority: Pubkey,
}

} // verus!
