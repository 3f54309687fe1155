use splitter::swap_validator::{post_swap, pre_swap, ErrorCode, PreSwapState};

fn empty_state() -> PreSwapState {
    PreSwapState {
        source: [0u8; 32],
        destination: [0u8; 32],
        nonce: [0u8; 32],
        source_amount: 0,
        destination_amount: 0,
        source_account_state: vec![],
        destination_account_state: vec![],
    }
}

/// The image of a token account: 165 bytes, the amount in bytes 64 to 71.
fn image(fill: u8, amount: u64) -> Vec<u8> {
    let mut data = vec![fill; 165];
    data[64..72].copy_from_slice(&amount.to_le_bytes());
    data
}

const USER: [u8; 32] = [
    1, 2, 3, 4, 5, 6, 7, 8, 9, 10, 11, 12, 13, 14, 15, 16, 17, 18, 19, 20, 21, 22, 23, 24, 25, 26,
    27, 28, 29, 30, 31, 32,
];

fn saved(source_amount: u64, destination_amount: u64) -> PreSwapState {
    let mut state = empty_state();
    pre_swap(
        &mut state,
        [1u8; 32],
        [2u8; 32],
        [3u8; 32],
        source_amount,
        destination_amount,
        &image(0x11, source_amount),
        &image(0x22, destination_amount),
        &USER,
        &vec![],
    )
    .unwrap();
    state
}

#[test]
fn pre_swap_saves_both_accounts() {
    let state = saved(1000, 50);
    assert_eq!(state.source, [1u8; 32]);
    assert_eq!(state.destination, [2u8; 32]);
    assert_eq!(state.nonce, [3u8; 32]);
    assert_eq!(state.source_amount, 1000);
    assert_eq!(state.destination_amount, 50);
    assert_eq!(state.source_account_state, image(0x11, 1000));
    assert_eq!(state.destination_account_state, image(0x22, 50));
}

#[test]
fn pre_swap_refuses_an_account_that_holds_the_users_key() {
    let mut holds_key = vec![0u8; 40];
    holds_key.extend_from_slice(&USER);
    holds_key.extend_from_slice(&[0u8; 9]);
    let mut at_start = USER.to_vec();
    at_start.push(0);
    let at_end = [vec![9u8; 3], USER.to_vec()].concat();
    for account in [holds_key, at_start, at_end, USER.to_vec()] {
        let mut state = empty_state();
        let r = pre_swap(
            &mut state,
            [1u8; 32],
            [2u8; 32],
            [3u8; 32],
            10,
            20,
            &[1, 2, 3],
            &[4, 5, 6],
            &USER,
            &vec![vec![0u8; 100], account],
        );
        assert_eq!(r, Err(ErrorCode::UnexpectedWritableUserAccount));
        assert_eq!(state, empty_state());
    }
}

#[test]
fn pre_swap_accepts_accounts_without_the_users_key() {
    let mut almost = USER.to_vec();
    almost[31] = 0;
    almost.extend_from_slice(&USER[..31]);
    let accounts = vec![vec![], vec![0u8; 31], USER[1..].to_vec(), almost, vec![7u8; 200]];
    let mut state = empty_state();
    let r = pre_swap(
        &mut state,
        [1u8; 32],
        [2u8; 32],
        [3u8; 32],
        10,
        20,
        &[1, 2, 3],
        &[4, 5, 6],
        &USER,
        &accounts,
    );
    assert_eq!(r, Ok(()));
    assert_eq!(state.source_account_state, vec![1, 2, 3]);
    assert_eq!(state.destination_account_state, vec![4, 5, 6]);
}

#[test]
fn pre_swap_appends_to_what_the_state_holds() {
    let mut state = empty_state();
    state.source_account_state = vec![9];
    state.destination_account_state = vec![8, 8];
    let r = pre_swap(
        &mut state,
        [1u8; 32],
        [2u8; 32],
        [3u8; 32],
        10,
        20,
        &[1, 2],
        &[4],
        &USER,
        &vec![],
    );
    assert_eq!(r, Ok(()));
    assert_eq!(state.source_account_state, vec![9, 1, 2]);
    assert_eq!(state.destination_account_state, vec![8, 8, 4]);
}

#[test]
fn post_swap_accepts_a_swap_within_the_limits() {
    let state = saved(1000, 50);
    assert_eq!(
        post_swap(&state, 900, 80, &image(0x11, 900), &image(0x22, 80), 100, 30),
        Ok(())
    );
    assert_eq!(
        post_swap(&state, 1000, 50, &image(0x11, 1000), &image(0x22, 50), 0, 0),
        Ok(())
    );
}

#[test]
fn post_swap_limits_what_leaves_the_source() {
    let state = saved(1000, 50);
    assert_eq!(
        post_swap(&state, 899, 80, &image(0x11, 899), &image(0x22, 80), 100, 30),
        Err(ErrorCode::InvalidInputTokenAmountSent)
    );
    assert_eq!(
        post_swap(&state, 1001, 80, &image(0x11, 1001), &image(0x22, 80), 100, 30),
        Err(ErrorCode::InvalidInputTokenAmountSent)
    );
    assert_eq!(
        post_swap(&state, 899, 0, &[], &[], 100, 30),
        Err(ErrorCode::InvalidInputTokenAmountSent)
    );
}

#[test]
fn post_swap_asks_for_enough_at_the_destination() {
    let state = saved(1000, 50);
    assert_eq!(
        post_swap(&state, 900, 79, &image(0x11, 900), &image(0x22, 79), 100, 30),
        Err(ErrorCode::InvalidOutputTokenAmountReceived)
    );
    assert_eq!(
        post_swap(&state, 900, 49, &image(0x11, 900), &image(0x22, 49), 100, 0),
        Err(ErrorCode::InvalidOutputTokenAmountReceived)
    );
    assert_eq!(
        post_swap(&state, 900, 79, &[], &[], 100, 30),
        Err(ErrorCode::InvalidOutputTokenAmountReceived)
    );
}

#[test]
fn post_swap_refuses_any_other_change_to_the_accounts() {
    let state = saved(1000, 50);
    for at in [0usize, 63, 72, 164] {
        let mut changed = image(0x11, 900);
        changed[at] ^= 1;
        assert_eq!(
            post_swap(&state, 900, 80, &changed, &image(0x22, 80), 100, 30),
            Err(ErrorCode::UnexpectedUserTokenAccountUpdate)
        );
        let mut changed = image(0x22, 80);
        changed[at] ^= 1;
        assert_eq!(
            post_swap(&state, 900, 80, &image(0x11, 900), &changed, 100, 30),
            Err(ErrorCode::UnexpectedUserTokenAccountUpdate)
        );
    }
    for at in [64usize, 67, 71] {
        let mut changed = image(0x11, 900);
        changed[at] ^= 1;
        assert_eq!(post_swap(&state, 900, 80, &changed, &image(0x22, 80), 100, 30), Ok(()));
    }
    let mut longer = image(0x11, 900);
    longer.push(0);
    assert_eq!(
        post_swap(&state, 900, 80, &longer, &image(0x22, 80), 100, 30),
        Err(ErrorCode::UnexpectedUserTokenAccountUpdate)
    );
    let mut shorter = image(0x22, 80);
    shorter.pop();
    assert_eq!(
        post_swap(&state, 900, 80, &image(0x11, 900), &shorter, 100, 30),
        Err(ErrorCode::UnexpectedUserTokenAccountUpdate)
    );
}

#[test]
fn total_space_adds_the_two_images() {
    assert_eq!(PreSwapState::MIN_LEN, 128);
    assert_eq!(PreSwapState::get_total_space(&[], &[]), 128);
    assert_eq!(PreSwapState::get_total_space(&[0u8; 165], &[0u8; 165]), 458);
    assert_eq!(PreSwapState::get_total_space(&[0u8; 1], &[0u8; 2]), 131);
}
