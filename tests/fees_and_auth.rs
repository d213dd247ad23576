use pokerd_backend::auth::{
    check_login_time, find_wallet, session_claims, AuthBody, AuthError, EmailAccount,
    LinkedAccount, LoginTimeError, WalletAccount,
};
use pokerd_backend::queries::{flop, hand, river, turn, CardsError};
use pokerd_backend::showdown::{winning_seats, HandRank};
use pokerd_backend::state::{Address, AppState, Seat, TablePlayer};
use pokerd_backend::submission::{update_gas, Escalation, FeeEstimate, RetryState};

fn fees(max: u128, priority: u128) -> FeeEstimate {
    FeeEstimate { max_fee_per_gas: max, max_priority_fee_per_gas: priority }
}

#[test]
fn low_estimates_lose_to_the_ten_percent_floor() {
    let mut state = RetryState::new(7);
    assert_eq!(state.next_fees(fees(1000, 100)), fees(1000, 100));
    assert_eq!(state.on_timeout(), Escalation::SameNonce);
    assert_eq!(state.next_fees(fees(900, 90)), fees(1100, 110));
    assert_eq!(state.on_timeout(), Escalation::SameNonce);
    assert_eq!(state.next_fees(fees(1000, 100)), fees(1210, 121));
    assert_eq!(state.on_timeout(), Escalation::SameNonce);
    assert_eq!(state.next_fees(fees(5, 5)), fees(1331, 134));
    assert_eq!(state.nonce, 7);
}

#[test]
fn higher_estimate_is_used_as_is() {
    let mut f = fees(100, 10);
    update_gas(&mut f, fees(500, 12));
    assert_eq!(f, fees(500, 12));
}

#[test]
fn raise_rounds_up_and_saturates() {
    let mut f = fees(1, 0);
    update_gas(&mut f, fees(0, 0));
    assert_eq!(f, fees(2, 0));
    let mut f = fees(u128::MAX, u128::MAX - 1);
    update_gas(&mut f, fees(0, 0));
    assert_eq!(f, fees(u128::MAX, u128::MAX));
}

#[test]
fn retries_escalate_by_attempt_count() {
    let mut state = RetryState::new(3);
    let mut seen = vec![];
    for _ in 0..12 {
        seen.push(state.on_timeout());
    }
    let mut expected = vec![Escalation::SameNonce; 6];
    expected.extend(vec![Escalation::RefreshNonce; 3]);
    expected.extend(vec![Escalation::GiveUp; 3]);
    assert_eq!(seen, expected);
    assert_eq!(state.failures, 9);
    state.set_nonce(2);
    assert_eq!(state.nonce, 2);
}

#[test]
fn auth_body_is_a_bearer_token() {
    let body = AuthBody::new("abc".to_string());
    assert_eq!(body.access_token, "abc");
    assert_eq!(body.token_type, "Bearer");
}

#[test]
fn auth_error_statuses() {
    assert_eq!(AuthError::InvalidToken.status_code(), 400);
    assert_eq!(AuthError::TokenCreation.status_code(), 500);
    assert_eq!(CardsError::FlopNotAvailable.status_code(), 400);
}

#[test]
fn login_time_window() {
    assert_eq!(check_login_time(1000, 1000), Ok(()));
    assert_eq!(check_login_time(970, 1000), Ok(()));
    assert_eq!(check_login_time(969, 1000), Err(LoginTimeError::TooOld));
    assert_eq!(check_login_time(1001, 1000), Err(LoginTimeError::InFuture));
    assert_eq!(check_login_time(i64::MIN, i64::MIN + 10), Ok(()));
}

#[test]
fn session_lasts_a_day() {
    let c = session_claims(Address([1u8; 20]), 1_000);
    assert_eq!(c.exp, 87_400);
}

fn wallet(address: &str, chain_type: &str) -> WalletAccount {
    WalletAccount {
        address: address.to_string(),
        chain_id: None,
        chain_type: chain_type.to_string(),
        connector_type: "embedded".to_string(),
        first_verified_at: 1,
        latest_verified_at: 2,
        verified_at: 3,
        wallet_client: "privy".to_string(),
        wallet_client_type: "privy".to_string(),
        delegated: false,
        imported: None,
        public_key: None,
        recovery_method: None,
        wallet_index: Some(0),
        id: None,
    }
}

#[test]
fn find_wallet_picks_first_on_chain() {
    let accounts = vec![
        LinkedAccount::Email(EmailAccount {
            address: "a@b.c".to_string(),
            first_verified_at: 0,
            latest_verified_at: 0,
            verified_at: 0,
        }),
        LinkedAccount::Wallet(wallet("sol1", "solana")),
        LinkedAccount::Unknown,
        LinkedAccount::Wallet(wallet("0xabc", "ethereum")),
        LinkedAccount::Wallet(wallet("0xdef", "ethereum")),
    ];
    assert_eq!(find_wallet(&accounts, "ethereum").unwrap().address, "0xabc");
    assert_eq!(find_wallet(&accounts, "solana").unwrap().address, "sol1");
    assert!(find_wallet(&accounts, "bitcoin").is_none());
    assert!(find_wallet(&[], "ethereum").is_none());
}

#[test]
fn card_queries_follow_the_phase() {
    let mut state = AppState::new();
    let me = Address([5u8; 20]);
    assert!(matches!(hand(me, &state), Err(CardsError::GameNotStarted)));
    assert!(matches!(flop(&state), Err(CardsError::FlopNotAvailable)));
    assert!(matches!(turn(&state), Err(CardsError::TurnNotAvailable)));
    assert!(matches!(river(&state), Err(CardsError::RiverNotAvailable)));
    state.set_ready();
    let table = vec![
        TablePlayer { address: me, seat: Seat(0) },
        TablePlayer { address: Address([6u8; 20]), seat: Seat(1) },
    ];
    state.start_game(&table).unwrap();
    let mine = state.get_players().unwrap()[0].starting_hand;
    assert_eq!(hand(me, &state).unwrap(), mine);
    match hand(Address([9u8; 20]), &state) {
        Err(CardsError::PlayerNotFound(a)) => assert!(a == Address([9u8; 20])),
        _ => panic!("expected an unknown player"),
    }
    state.set_waiting_for_flop().unwrap();
    let f = state.reveal_flop().unwrap();
    assert_eq!(flop(&state).unwrap(), f);
    assert!(matches!(turn(&state), Err(CardsError::TurnNotAvailable)));
}

#[test]
fn winning_seats_keep_all_ties_in_order() {
    let r = |category: u8, value: u16| HandRank { category, value };
    let ranked = vec![
        (Seat(0), r(1, 30)),
        (Seat(1), r(3, 2)),
        (Seat(2), r(2, 900)),
        (Seat(3), r(3, 2)),
        (Seat(4), r(3, 1)),
    ];
    assert_eq!(winning_seats(&ranked), vec![Seat(1), Seat(3)]);
    assert_eq!(winning_seats(&ranked[..1]), vec![Seat(0)]);
    assert!(winning_seats(&[]).is_empty());
}
