//! Checks around a token swap that someone else carries out: the state of
//! the user's two token accounts is saved before the swap and compared
//! with their state after it.

use vstd::prelude::*;

verus! {

#[derive(Clone, Copy, Debug, PartialEq, Eq, Structural)]
pub enum ErrorCode {
    /// Invalid input token amount sent
    InvalidInputTokenAmountSent,
    /// Invalid output token amount received
    InvalidOutputTokenAmountReceived,
    /// Unexpected writable user account
    UnexpectedWritableUserAccount,
    /// Unexpected update to user token account
    UnexpectedUserTokenAccountUpdate,
}

#[derive(Clone, Debug, PartialEq, Eq)]
pub struct PreSwapState {
    pub source: [u8; 32],
    pub destination: [u8; 32],
    pub nonce: [u8; 32],
    pub source_amount: u64,
    pub destination_amount: u64,
    pub source_account_state: Vec<u8>,
    pub destination_account_state: Vec<u8>,
}

/// Whether the bytes of `data` from position `at` on begin with `key`.
pub open spec fn key_at(data: Seq<u8>, key: Seq<u8>, at: int) -> bool {
    0 <= at && at + key.len() <= data.len() && data.subrange(at, at + key.len()) == key
}

/// Whether `key` occurs in `data` as a run of consecutive bytes.
pub open spec fn contains_key(data: Seq<u8>, key: Seq<u8>) -> bool {
    exists|at: int| key_at(data, key, at)
}

/// Whether some account's data holds `key`.
pub open spec fn any_contains_key(accounts: Seq<Vec<u8>>, key: Seq<u8>) -> bool {
    exists|k: int| 0 <= k < accounts.len() && contains_key(#[trigger] accounts[k]@, key)
}

/// Whether two token account images are equal but for the amount, which
/// the bytes from 64 up to 72 hold.
pub open spec fn same_but_amount(before: Seq<u8>, after: Seq<u8>) -> bool {
    &&& before.len() == after.len()
    &&& forall|i: int| 0 <= i < after.len() && !(64 <= i < 72) ==> before[i] == after[i]
}

/// What `post_swap` returns.
pub open spec fn post_swap_outcome(
    state: &PreSwapState,
    source_amount: u64,
    destination_amount: u64,
    source_data: Seq<u8>,
    destination_data: Seq<u8>,
    max_to_send: u64,
    min_to_receive: u64,
) -> Result<(), ErrorCode> {
    if source_amount > state.source_amount || state.source_amount - source_amount > max_to_send {
        Err(ErrorCode::InvalidInputTokenAmountSent)
    } else if destination_amount < state.destination_amount || destination_amount
        - state.destination_amount < min_to_receive {
        Err(ErrorCode::InvalidOutputTokenAmountReceived)
    } else if !same_but_amount(state.source_account_state@, source_data) || !same_but_amount(
        state.destination_account_state@,
        destination_data,
    ) {
        Err(ErrorCode::UnexpectedUserTokenAccountUpdate)
    } else {
        Ok(())
    }
}

fn has_key(data: &[u8], key: &[u8; 32]) -> (found: bool)
    ensures
        found == contains_key(data@, key@),
{
    if data.len() < 32 {
        return false;
    }
    let last: usize = data.len() - 32;
    let mut i: usize = 0;
    while i <= last
        invariant
            last == data@.len() - 32,
            last + 32 <= usize::MAX,
            i <= last + 1,
            forall|k: int| 0 <= k < i ==> !key_at(data@, key@, k),
        decreases last + 1 - i,
    {
        let mut j: usize = 0;
        while j < 32 && data[i + j] == key[j]
            invariant
                j <= 32,
                i <= last,
                last == data@.len() - 32,
                last + 32 <= usize::MAX,
                forall|m: int| 0 <= m < j ==> data@[i + m] == key@[m],
            decreases 32 - j,
        {
            j += 1;
        }
        if j == 32 {
            assert(data@.subrange(i as int, i + 32) =~= key@);
            assert(key_at(data@, key@, i as int));
            return true;
        }
        i += 1;
    }
    false
}

fn unchanged_but_amount(before: &Vec<u8>, after: &[u8]) -> (same: bool)
    ensures
        same == same_but_amount(before@, after@),
{
    if before.len() != after.len() {
        return false;
    }
    let mut i: usize = 0;
    while i < after.len()
        invariant
            before@.len() == after@.len(),
            i <= after@.len(),
            forall|k: int| 0 <= k < i && !(64 <= k < 72) ==> before@[k] == after@[k],
        decreases after@.len() - i,
    {
        if !(64 <= i && i < 72) && before[i] != after[i] {
            return false;
        }
        i += 1;
    }
    true
}

fn append_bytes(to: &mut Vec<u8>, bytes: &[u8])
    ensures
        final(to)@ == old(to)@ + bytes@,
{
    let mut i: usize = 0;
    while i < bytes.len()
        invariant
            i <= bytes@.len(),
            to@ == old(to)@ + bytes@.take(i as int),
        decreases bytes@.len() - i,
    {
        to.push(bytes[i]);
        i += 1;
    }
}

impl PreSwapState {
    /// Size in bytes of a stored state that holds no account image.
    pub const MIN_LEN: usize = 8 + 32 + 32 + 32 + 8 + 8 + 4 + 4;

    /// Size in bytes of a stored state that holds the two account images.
    pub fn get_total_space(source: &[u8], destination: &[u8]) -> (space: usize)
        requires
            PreSwapState::MIN_LEN + source@.len() + destination@.len() <= usize::MAX,
        ensures
            space == PreSwapState::MIN_LEN + source@.len() + destination@.len(),
    {
        PreSwapState::MIN_LEN + source.len() + destination.len()
    }
}

/// Saves the user's two token accounts before the swap, and refuses
/// the swap if any of the other accounts handed to it holds the
/// user's key. A refused call leaves the state as it was.
pub fn pre_swap(
    state: &mut PreSwapState,
    source: [u8; 32],
    destination: [u8; 32],
    nonce: [u8; 32],
    source_amount: u64,
    destination_amount: u64,
    source_data: &[u8],
    destination_data: &[u8],
    user: &[u8; 32],
    remaining_accounts: &Vec<Vec<u8>>,
) -> (r: Result<(), ErrorCode>)
    ensures
        any_contains_key(remaining_accounts@, user@) ==> r == Err::<(), ErrorCode>(
            ErrorCode::UnexpectedWritableUserAccount,
        ) && *final(state) == *old(state),
        !any_contains_key(remaining_accounts@, user@) ==> {
            &&& r is Ok
            &&& final(state).source == source
            &&& final(state).destination == destination
            &&& final(state).nonce == nonce
            &&& final(state).source_amount == source_amount
            &&& final(state).destination_amount == destination_amount
            &&& final(state).source_account_state@ == old(state).source_account_state@
                + source_data@
            &&& final(state).destination_account_state@ == old(
                state,
            ).destination_account_state@ + destination_data@
        },
{
    let mut k: usize = 0;
    while k < remaining_accounts.len()
        invariant
            k <= remaining_accounts@.len(),
            forall|m: int| 0 <= m < k ==> !contains_key(remaining_accounts@[m]@, user@),
        decreases remaining_accounts@.len() - k,
    {
        if has_key(remaining_accounts[k].as_slice(), user) {
            return Err(ErrorCode::UnexpectedWritableUserAccount);
        }
        k += 1;
    }
    state.source = source;
    state.destination = destination;
    state.nonce = nonce;
    state.source_amount = source_amount;
    state.destination_amount = destination_amount;
    append_bytes(&mut state.source_account_state, source_data);
    append_bytes(&mut state.destination_account_state, destination_data);
    Ok(())
}

/// Compares the user's two token accounts after the swap with what
/// was saved before it: at most `max_to_send` tokens have left the
/// source, at least `min_to_receive` have reached the destination, and
/// nothing but the two amounts has changed.
pub fn post_swap(
    state: &PreSwapState,
    source_amount: u64,
    destination_amount: u64,
    source_data: &[u8],
    destination_data: &[u8],
    max_to_send: u64,
    min_to_receive: u64,
) -> (r: Result<(), ErrorCode>)
    ensures
        r == post_swap_outcome(
            state,
            source_amount,
            destination_amount,
            source_data@,
            destination_data@,
            max_to_send,
            min_to_receive,
        ),
{
    if source_amount > state.source_amount {
        return Err(ErrorCode::InvalidInputTokenAmountSent);
    }
    if state.source_amount - source_amount > max_to_send {
        return Err(ErrorCode::InvalidInputTokenAmountSent);
    }
    if destination_amount < state.destination_amount {
        return Err(ErrorCode::InvalidOutputTokenAmountReceived);
    }
    if destination_amount - state.destination_amount < min_to_receive {
        return Err(ErrorCode::InvalidOutputTokenAmountReceived);
    }
    if !unchanged_but_amount(&state.source_account_state, source_data) {
        return Err(ErrorCode::UnexpectedUserTokenAccountUpdate);
    }
    if !unchanged_but_amount(&state.destination_account_state, destination_data) {
        return Err(ErrorCode::UnexpectedUserTokenAccountUpdate);
    }
    Ok(())
}

} // verus!
