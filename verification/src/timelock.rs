//! A token vault behind a time lock: the owner may ask for the lock to be
//! released, and the release takes effect after a number of days.

use vstd::prelude::*;

verus! {

#[derive(Clone, Copy, Debug, PartialEq, Eq, Structural)]
pub enum ErrorCode {
    /// Invalid timelock state for this instruction
    InvalidTimeLockState,
    /// Invalid timelock duration provided
    InvalidTimeLockDuration,
    /// Invalid vault account
    InvalidVaultAccount,
    /// The timelock period has not yet been reached
    InsufficientTimeElapsed,
    /// Insufficient vault funds
    InsufficientVaultBalance,
    /// Invalid time authority
    InvalidTimeAuthority,
    /// Invalid vault owner
    InvalidVaultOwner,
    /// Invalid close authority
    InvalidCloseAuthority,
    /// Invalid token balance. Token balance must be zero.
    NonZeroTokenBalance,
    /// Invalid dust burn.
    InvalidDustBurn,
    /// Invalid token mint.
    InvalidTokenMint,
}

#[derive(Clone, Copy, Debug, PartialEq, Eq, Structural)]
pub enum TimeLockState {
    Unknown,
    Unlocked,
    WaitingForTimeout,
    Locked,
    Closed,
}

#[derive(Clone, Copy, Debug, PartialEq, Eq, Structural)]
pub enum DataVersion {
    Unknown,
    /// Legacy version of the timelock program
    Legacy,
    /// Used to prevent re-initialization attacks within a single transaction
    Closed,
    /// Current data version
    Version1,
    /// Future version, adds support for more than 255 days
    Version2,
}

impl DataVersion {
    /// The byte that stands for the version in a vault's address.
    pub fn to_byte(self) -> (byte: u8)
        ensures
            byte == match self {
                DataVersion::Unknown => 0u8,
                DataVersion::Legacy => 1u8,
                DataVersion::Closed => 2u8,
                DataVersion::Version1 => 3u8,
                DataVersion::Version2 => 4u8,
            },
    {
        match self {
            DataVersion::Unknown => 0,
            DataVersion::Legacy => 1,
            DataVersion::Closed => 2,
            DataVersion::Version1 => 3,
            DataVersion::Version2 => 4,
        }
    }
}

/// What is to be done with the tokens in the vault.
#[derive(Clone, Copy, Debug, PartialEq, Eq, Structural)]
pub enum VaultAction {
    /// Nothing.
    Nothing,
    /// Move `amount` tokens from the vault to the destination.
    Transfer { amount: u64 },
    /// Burn `amount` tokens of the vault.
    Burn { amount: u64 },
    /// Close the vault's token account.
    Close,
}

pub const SECONDS_PER_DAY: i64 = 86400;

#[derive(Clone, Copy, Debug, PartialEq, Eq)]
pub struct TimeLockAccount {
    pub data_version: DataVersion,
    pub time_authority: [u8; 32],
    pub close_authority: [u8; 32],
    pub mint: [u8; 32],
    pub vault: [u8; 32],
    pub vault_bump: u8,
    pub vault_state: TimeLockState,
    pub vault_owner: [u8; 32],
    pub unlock_at: Option<i64>,
    /// Max 255 days on Version1
    pub num_days_locked: u8,
}

/// The time at which a lock of `days` days that is revoked at `now` runs
/// out: `days` days after `now`, moved on to the start of the next day
/// unless it falls on one. A time that is not positive is not moved.
pub open spec fn unlock_time(now: int, days: int) -> int {
    let end = now + days * 86400;
    if end > 0 && end % 86400 > 0 {
        end + (86400 - end % 86400)
    } else {
        end
    }
}

/// Whether the time at which a lock of `days` days that is revoked at
/// `now` runs out can be held in 64 bits.
pub fn unlock_time_fits(now: i64, days: u8) -> (fits: bool)
    ensures
        fits == (unlock_time(now as int, days as int) <= i64::MAX),
{
    let end: i128 = now as i128 + (days as i128) * 86400;
    if end > 0 && end % 86400 > 0 {
        end + (86400 - end % 86400) <= i64::MAX as i128
    } else {
        end <= i64::MAX as i128
    }
}

impl TimeLockAccount {
    /// Size in bytes of a stored account.
    pub const LEN: usize = 8 + 1 + 32 + 32 + 32 + 32 + 1 + 1 + 32 + 9 + 1;

    /// Whether the time authority may move or burn tokens of the vault.
    pub open spec fn under_authority(&self) -> bool {
        self.vault_state == TimeLockState::Locked || self.vault_state
            == TimeLockState::WaitingForTimeout
    }

    /// What `deactivate` returns at time `now`.
    pub open spec fn deactivate_outcome(&self, now: i64) -> Result<(), ErrorCode> {
        if self.vault_state != TimeLockState::WaitingForTimeout || self.unlock_at is None {
            Err(ErrorCode::InvalidTimeLockState)
        } else if self.unlock_at->Some_0 > now {
            Err(ErrorCode::InsufficientTimeElapsed)
        } else {
            Ok(())
        }
    }

    /// What `burn_dust_with_authority` returns for a vault that holds
    /// `vault_amount` tokens.
    pub open spec fn burn_dust_outcome(&self, vault_amount: u64, max_amount: u64) -> Result<
        VaultAction,
        ErrorCode,
    > {
        if !self.under_authority() {
            Err(ErrorCode::InvalidTimeLockState)
        } else if max_amount == 0 {
            Err(ErrorCode::InvalidDustBurn)
        } else if vault_amount % max_amount == 0 {
            Ok(VaultAction::Nothing)
        } else {
            Ok(VaultAction::Burn { amount: (vault_amount % max_amount) as u64 })
        }
    }
}

/// A locked account for a new vault. The lock must last at least one
/// day.
pub fn initialize(
    time_authority: [u8; 32],
    close_authority: [u8; 32],
    mint: [u8; 32],
    vault: [u8; 32],
    vault_bump: u8,
    vault_owner: [u8; 32],
    num_days_locked: u8,
) -> (r: Result<TimeLockAccount, ErrorCode>)
    ensures
        num_days_locked == 0 ==> r == Err::<TimeLockAccount, ErrorCode>(
            ErrorCode::InvalidTimeLockDuration,
        ),
        num_days_locked > 0 ==> r == Ok::<TimeLockAccount, ErrorCode>(
            TimeLockAccount {
                data_version: DataVersion::Version1,
                time_authority,
                close_authority,
                mint,
                vault,
                vault_bump,
                vault_state: TimeLockState::Locked,
                vault_owner,
                unlock_at: None,
                num_days_locked,
            },
        ),
{
    if num_days_locked == 0 {
        return Err(ErrorCode::InvalidTimeLockDuration);
    }
    Ok(
        TimeLockAccount {
            data_version: DataVersion::Version1,
            time_authority,
            close_authority,
            mint,
            vault,
            vault_bump,
            vault_state: TimeLockState::Locked,
            vault_owner,
            unlock_at: None,
            num_days_locked,
        },
    )
}

/// Locks an unlocked vault again.
pub fn activate(timelock: &mut TimeLockAccount) -> (r: Result<(), ErrorCode>)
    ensures
        old(timelock).vault_state == TimeLockState::Unlocked ==> r is Ok && *final(timelock) == (
        TimeLockAccount { vault_state: TimeLockState::Locked, unlock_at: None, ..*old(timelock) }),
        old(timelock).vault_state != TimeLockState::Unlocked ==> r == Err::<(), ErrorCode>(
            ErrorCode::InvalidTimeLockState,
        ) && *final(timelock) == *old(timelock),
{
    if timelock.vault_state != TimeLockState::Unlocked {
        return Err(ErrorCode::InvalidTimeLockState);
    }
    timelock.vault_state = TimeLockState::Locked;
    timelock.unlock_at = None;
    Ok(())
}

/// Unlocks a vault whose lock has run out.
pub fn deactivate(timelock: &mut TimeLockAccount, now: i64) -> (r: Result<(), ErrorCode>)
    ensures
        r == old(timelock).deactivate_outcome(now),
        r is Ok ==> *final(timelock) == (TimeLockAccount {
            vault_state: TimeLockState::Unlocked,
            unlock_at: None,
            ..*old(timelock)
        }),
        r is Err ==> *final(timelock) == *old(timelock),
{
    if timelock.vault_state != TimeLockState::WaitingForTimeout {
        return Err(ErrorCode::InvalidTimeLockState);
    }
    match timelock.unlock_at {
        None => {
            return Err(ErrorCode::InvalidTimeLockState);
        },
        Some(unlock_at) => {
            if unlock_at > now {
                return Err(ErrorCode::InsufficientTimeElapsed);
            }
        },
    }
    timelock.vault_state = TimeLockState::Unlocked;
    timelock.unlock_at = None;
    Ok(())
}

/// Starts the release of a locked vault at the owner's request: the
/// lock runs out `num_days_locked` days from `now`, at the start of a
/// day.
pub fn revoke_lock_with_timeout(
    timelock: &mut TimeLockAccount,
    now: i64,
) -> (r: Result<(), ErrorCode>)
    requires
        unlock_time(now as int, old(timelock).num_days_locked as int) <= i64::MAX,
    ensures
        old(timelock).vault_state == TimeLockState::Locked ==> r is Ok && *final(timelock) == (
        TimeLockAccount {
            vault_state: TimeLockState::WaitingForTimeout,
            unlock_at: Some(
                unlock_time(now as int, old(timelock).num_days_locked as int) as i64,
            ),
            ..*old(timelock)
        }),
        old(timelock).vault_state != TimeLockState::Locked ==> r == Err::<(), ErrorCode>(
            ErrorCode::InvalidTimeLockState,
        ) && *final(timelock) == *old(timelock),
{
    if timelock.vault_state != TimeLockState::Locked {
        return Err(ErrorCode::InvalidTimeLockState);
    }
    let days: i64 = timelock.num_days_locked as i64;
    let mut unlock_at: i64 = now + days * SECONDS_PER_DAY;
    if unlock_at > 0 {
        let rest: i64 = unlock_at % SECONDS_PER_DAY;
        if rest > 0 {
            unlock_at = unlock_at + (SECONDS_PER_DAY - rest);
        }
    }
    timelock.unlock_at = Some(unlock_at);
    timelock.vault_state = TimeLockState::WaitingForTimeout;
    Ok(())
}

/// Starts the release of a locked vault with the time authority's
/// consent: the lock runs out at once.
pub fn revoke_lock_with_authority(
    timelock: &mut TimeLockAccount,
    now: i64,
) -> (r: Result<(), ErrorCode>)
    ensures
        old(timelock).vault_state == TimeLockState::Locked ==> r is Ok && *final(timelock) == (
        TimeLockAccount {
            vault_state: TimeLockState::WaitingForTimeout,
            unlock_at: Some(now),
            ..*old(timelock)
        }),
        old(timelock).vault_state != TimeLockState::Locked ==> r == Err::<(), ErrorCode>(
            ErrorCode::InvalidTimeLockState,
        ) && *final(timelock) == *old(timelock),
{
    if timelock.vault_state != TimeLockState::Locked {
        return Err(ErrorCode::InvalidTimeLockState);
    }
    timelock.unlock_at = Some(now);
    timelock.vault_state = TimeLockState::WaitingForTimeout;
    Ok(())
}

/// Cuts short the wait of a vault that is being released: the lock
/// runs out at once.
pub fn cancel_lock_timeout(timelock: &mut TimeLockAccount, now: i64) -> (r: Result<(), ErrorCode>)
    ensures
        old(timelock).vault_state == TimeLockState::WaitingForTimeout ==> {
            &&& r is Ok
            &&& *final(timelock) == (TimeLockAccount { unlock_at: Some(now), ..*old(timelock) })
        },
        old(timelock).vault_state != TimeLockState::WaitingForTimeout ==> r == Err::<
            (),
            ErrorCode,
        >(ErrorCode::InvalidTimeLockState) && *final(timelock) == *old(timelock),
{
    if timelock.vault_state != TimeLockState::WaitingForTimeout {
        return Err(ErrorCode::InvalidTimeLockState);
    }
    timelock.unlock_at = Some(now);
    Ok(())
}

/// The time authority moves `amount` tokens out of a vault that is
/// locked or being released.
pub fn transfer_with_authority(
    timelock: &TimeLockAccount,
    amount: u64,
) -> (r: Result<VaultAction, ErrorCode>)
    ensures
        timelock.under_authority() ==> r == Ok::<VaultAction, ErrorCode>(
            VaultAction::Transfer { amount },
        ),
        !timelock.under_authority() ==> r == Err::<VaultAction, ErrorCode>(
            ErrorCode::InvalidTimeLockState,
        ),
{
    if timelock.vault_state != TimeLockState::Locked && timelock.vault_state
        != TimeLockState::WaitingForTimeout {
        return Err(ErrorCode::InvalidTimeLockState);
    }
    Ok(VaultAction::Transfer { amount })
}

/// The time authority burns the dust of a vault that is locked or
/// being released: what is left of its balance after taking out
/// whole multiples of `max_amount`.
pub fn burn_dust_with_authority(
    timelock: &TimeLockAccount,
    vault_amount: u64,
    max_amount: u64,
) -> (r: Result<VaultAction, ErrorCode>)
    ensures
        r == timelock.burn_dust_outcome(vault_amount, max_amount),
{
    if timelock.vault_state != TimeLockState::Locked && timelock.vault_state
        != TimeLockState::WaitingForTimeout {
        return Err(ErrorCode::InvalidTimeLockState);
    }
    if max_amount == 0 {
        return Err(ErrorCode::InvalidDustBurn);
    }
    let amount: u64 = vault_amount % max_amount;
    if amount == 0 {
        return Ok(VaultAction::Nothing);
    }
    Ok(VaultAction::Burn { amount })
}

/// The owner takes everything out of an unlocked vault.
pub fn withdraw(
    timelock: &TimeLockAccount,
    vault_amount: u64,
) -> (r: Result<VaultAction, ErrorCode>)
    ensures
        timelock.vault_state == TimeLockState::Unlocked ==> r == Ok::<VaultAction, ErrorCode>(
            VaultAction::Transfer { amount: vault_amount },
        ),
        timelock.vault_state != TimeLockState::Unlocked ==> r == Err::<VaultAction, ErrorCode>(
            ErrorCode::InvalidTimeLockState,
        ),
{
    if timelock.vault_state != TimeLockState::Unlocked {
        return Err(ErrorCode::InvalidTimeLockState);
    }
    Ok(VaultAction::Transfer { amount: vault_amount })
}

/// Closes the vault and marks the account as closed, so that it cannot
/// be initialized again.
pub fn close_accounts(timelock: &mut TimeLockAccount) -> (action: VaultAction)
    ensures
        action == VaultAction::Close,
        *final(timelock) == (TimeLockAccount {
            vault_state: TimeLockState::Closed,
            data_version: DataVersion::Closed,
            ..*old(timelock)
        }),
{
    timelock.vault_state = TimeLockState::Closed;
    timelock.data_version = DataVersion::Closed;
    VaultAction::Close
}

} // verus!
