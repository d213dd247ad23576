use pokerd_backend::card::{Card, Deck};
use pokerd_backend::events::{order_logs, ChainEvent, ContractPhase, LogEntry};
use pokerd_backend::reconcile::{blocks_to_poll, initial_checkpoint, startup_call, TableCall};
use pokerd_backend::state::{Address, AppState, GamePhase, PhaseError, Player, Seat, TablePlayer};

fn addr(n: u8) -> Address {
    let mut bytes = [0u8; 20];
    bytes[19] = n;
    Address(bytes)
}

fn expect_phase_request(r: Result<Option<TableCall>, PhaseError>, phase: ContractPhase) -> String {
    match r {
        Ok(Some(TableCall::SetCurrentPhase { phase: p, cards })) => {
            assert_eq!(p, phase);
            cards
        },
        _ => panic!("expected a phase request"),
    }
}

fn deck_len(state: &AppState) -> usize {
    match &state.phase {
        GamePhase::PreFlop { deck, .. } | GamePhase::Flop { deck, .. } => deck.len(),
        _ => panic!("unexpected phase"),
    }
}

#[test]
fn two_joins_then_dealer_then_flop() {
    let mut state = AppState::new();
    let r = state.handle_event(ChainEvent::PlayerJoined { address: addr(1), seat: Seat(0) });
    assert!(matches!(r, Ok(None)));
    let r = state.handle_event(ChainEvent::PlayerJoined { address: addr(2), seat: Seat(1) });
    assert_eq!(expect_phase_request(r, ContractPhase::WaitingForDealer), "");

    let r = state.handle_event(ChainEvent::PhaseChanged { new_phase: ContractPhase::WaitingForDealer });
    assert_eq!(expect_phase_request(r, ContractPhase::PreFlop), "");
    let players = state.get_players().unwrap();
    assert_eq!(players.len(), 2);
    assert_eq!(deck_len(&state), 48);

    let r = state.handle_event(ChainEvent::PhaseChanged { new_phase: ContractPhase::PreFlop });
    assert!(matches!(r, Ok(None)));

    let r = state.handle_event(ChainEvent::PhaseChanged { new_phase: ContractPhase::WaitingForFlop });
    let cards = expect_phase_request(r, ContractPhase::Flop);
    assert_eq!(cards.len(), 6);
    assert_eq!(deck_len(&state), 45);
    let flop = state.get_flop().unwrap();
    let expected: String = flop.iter().map(|c| pokerd_backend::card::card_to_string(*c)).collect();
    assert_eq!(cards, expected);
}

#[test]
fn turn_river_and_showdown_requests() {
    let mut state = AppState::new();
    state.handle_event(ChainEvent::PlayerJoined { address: addr(1), seat: Seat(3) }).unwrap();
    state.handle_event(ChainEvent::PlayerJoined { address: addr(2), seat: Seat(1) }).unwrap();
    state.handle_event(ChainEvent::PhaseChanged { new_phase: ContractPhase::WaitingForDealer }).unwrap();
    state.handle_event(ChainEvent::PhaseChanged { new_phase: ContractPhase::WaitingForFlop }).unwrap();
    let r = state.handle_event(ChainEvent::PhaseChanged { new_phase: ContractPhase::WaitingForTurn });
    assert_eq!(expect_phase_request(r, ContractPhase::Turn).len(), 2);
    let r = state.handle_event(ChainEvent::PhaseChanged { new_phase: ContractPhase::WaitingForRiver });
    assert_eq!(expect_phase_request(r, ContractPhase::River).len(), 2);
    let players: Vec<Player> = state.get_players().unwrap().clone();
    let r = state.handle_event(ChainEvent::PhaseChanged { new_phase: ContractPhase::WaitingForResult });
    match r {
        Ok(Some(TableCall::RevealShowdownResult { hands, winners })) => {
            assert_eq!(hands.len(), 5);
            assert_eq!(hands[0], "");
            assert_eq!(hands[2], "");
            assert_eq!(hands[4], "");
            assert_eq!(hands[3], pokerd_backend::card::hand_to_string(&players[0].starting_hand));
            assert_eq!(hands[1], pokerd_backend::card::hand_to_string(&players[1].starting_hand));
            assert!(!winners.is_empty());
            assert!(winners.iter().all(|s| *s == Seat(3) || *s == Seat(1)));
        },
        _ => panic!("expected the showdown"),
    }
    let r = state.handle_event(ChainEvent::ShowdownEnded);
    assert!(matches!(r, Ok(None)));
    assert!(matches!(state.phase, GamePhase::WaitingForPlayers));
    assert_eq!(state.table_players.len(), 2);
}

#[test]
fn dealer_phase_with_one_player_is_refused() {
    let mut state = AppState::new();
    let r = state.handle_event(ChainEvent::PlayerJoined { address: addr(1), seat: Seat(0) });
    assert!(matches!(r, Ok(None)));
    let r = state.handle_event(ChainEvent::PhaseChanged { new_phase: ContractPhase::WaitingForDealer });
    assert!(matches!(r, Err(PhaseError::NotEnoughPlayers)));
    assert!(matches!(state.phase, GamePhase::WaitingForDealer));
}

#[test]
fn reveal_phase_out_of_order_is_refused() {
    let mut state = AppState::new();
    let r = state.handle_event(ChainEvent::PhaseChanged { new_phase: ContractPhase::WaitingForTurn });
    assert!(matches!(r, Err(PhaseError::TooSoon)));
    assert!(matches!(state.phase, GamePhase::WaitingForPlayers));
}

#[test]
fn waiting_for_players_asks_for_dealer_when_two_seated() {
    let mut state = AppState::new();
    let r = state.handle_event(ChainEvent::PhaseChanged { new_phase: ContractPhase::WaitingForPlayers });
    assert!(matches!(r, Ok(None)));
    state.table_players.push(TablePlayer { address: addr(1), seat: Seat(0) });
    state.table_players.push(TablePlayer { address: addr(2), seat: Seat(2) });
    let r = state.handle_event(ChainEvent::PhaseChanged { new_phase: ContractPhase::WaitingForPlayers });
    assert_eq!(expect_phase_request(r, ContractPhase::WaitingForDealer), "");
}

#[test]
fn replayed_join_is_recorded_once() {
    let mut state = AppState::new();
    state.handle_event(ChainEvent::PlayerJoined { address: addr(1), seat: Seat(0) }).unwrap();
    state.handle_event(ChainEvent::PlayerJoined { address: addr(1), seat: Seat(0) }).unwrap();
    assert_eq!(state.table_players.len(), 1);
}

#[test]
fn leaving_player_is_dropped_from_table_and_round() {
    let mut state = AppState::new();
    state.handle_event(ChainEvent::PlayerJoined { address: addr(1), seat: Seat(0) }).unwrap();
    state.handle_event(ChainEvent::PlayerJoined { address: addr(2), seat: Seat(1) }).unwrap();
    state.handle_event(ChainEvent::PlayerJoined { address: addr(3), seat: Seat(2) }).unwrap();
    state.handle_event(ChainEvent::PhaseChanged { new_phase: ContractPhase::WaitingForDealer }).unwrap();
    let r = state.handle_event(ChainEvent::PlayerLeft { address: addr(2), seat: Seat(1) });
    assert!(matches!(r, Ok(None)));
    assert_eq!(state.table_players.len(), 2);
    let seats: Vec<Seat> = state.get_players().unwrap().iter().map(|p| p.seat).collect();
    assert_eq!(seats, vec![Seat(0), Seat(2)]);
}

#[test]
fn leaving_between_rounds_is_fine() {
    let mut state = AppState::new();
    state.handle_event(ChainEvent::PlayerJoined { address: addr(1), seat: Seat(0) }).unwrap();
    let r = state.handle_event(ChainEvent::PlayerLeft { address: addr(1), seat: Seat(0) });
    assert!(matches!(r, Ok(None)));
    assert!(state.table_players.is_empty());
}

#[test]
fn fold_without_round_is_refused() {
    let mut state = AppState::new();
    let r = state.handle_event(ChainEvent::PlayerFolded { seat: Seat(0) });
    assert!(matches!(r, Err(PhaseError::NoActiveRound)));
}

#[test]
fn fold_drops_the_seat_from_the_round() {
    let mut state = AppState::new();
    state.set_ready();
    let table = vec![
        TablePlayer { address: addr(1), seat: Seat(0) },
        TablePlayer { address: addr(2), seat: Seat(1) },
    ];
    let cards: Vec<Card> = (0..52u8).map(|i| Card::new(i % 13, i / 13)).collect();
    state.start_game_with_deck(&table, Deck::from_cards(cards)).unwrap();
    let r = state.handle_event(ChainEvent::PlayerFolded { seat: Seat(0) });
    assert!(matches!(r, Ok(None)));
    let seats: Vec<Seat> = state.get_players().unwrap().iter().map(|p| p.seat).collect();
    assert_eq!(seats, vec![Seat(1)]);
    assert_eq!(state.table_players.len(), 0);
}

#[test]
fn bets_change_nothing() {
    let mut state = AppState::new();
    let r = state.handle_event(ChainEvent::PlayerBet);
    assert!(matches!(r, Ok(None)));
    assert!(matches!(state.phase, GamePhase::WaitingForPlayers));
}

#[test]
fn restart_mid_flop_cancels_the_round() {
    assert!(matches!(startup_call(ContractPhase::Flop), Some(TableCall::CancelCurrentRound)));
    assert!(matches!(startup_call(ContractPhase::WaitingForResult), Some(TableCall::CancelCurrentRound)));
    assert!(startup_call(ContractPhase::WaitingForPlayers).is_none());
}

#[test]
fn startup_registers_occupied_seats() {
    let mut state = AppState::new();
    state.register_seat(0, addr(7));
    state.register_seat(1, Address([0u8; 20]));
    state.register_seat(2, addr(9));
    assert_eq!(state.table_players.len(), 2);
    assert_eq!(state.table_players[1].seat, Seat(2));
    assert!(state.table_players[1].address == addr(9));
}

#[test]
fn checkpoint_starts_before_latest_block() {
    assert_eq!(initial_checkpoint(0, 1000), 999);
    assert_eq!(initial_checkpoint(500, 1000), 500);
    assert_eq!(initial_checkpoint(0, 0), 0);
}

#[test]
fn poll_range_follows_checkpoint() {
    assert_eq!(blocks_to_poll(10, 10), None);
    assert_eq!(blocks_to_poll(10, 9), None);
    assert_eq!(blocks_to_poll(10, 14), Some((11, 14)));
    let mut state = AppState::new();
    state.complete_tick(14);
    assert_eq!(state.last_processed_block, 14);
}

fn entry(block: Option<u64>, index: Option<u64>, tag: u32) -> LogEntry<u32> {
    LogEntry { block_number: block, log_index: index, payload: tag }
}

#[test]
fn logs_come_out_by_block_then_index() {
    let logs = vec![
        entry(Some(8), Some(2), 1),
        entry(Some(7), Some(5), 2),
        entry(Some(8), Some(0), 3),
        entry(Some(7), Some(1), 4),
        entry(Some(8), Some(1), 5),
    ];
    let ordered = order_logs(logs);
    let keys: Vec<(u64, u64)> =
        ordered.iter().map(|e| (e.block_number.unwrap(), e.log_index.unwrap())).collect();
    assert_eq!(keys, vec![(7, 1), (7, 5), (8, 0), (8, 1), (8, 2)]);
    let tags: Vec<u32> = ordered.iter().map(|e| e.payload).collect();
    assert_eq!(tags, vec![4, 2, 3, 5, 1]);
}

#[test]
fn logs_without_position_are_dropped() {
    let logs = vec![
        entry(None, Some(0), 1),
        entry(Some(3), None, 2),
        entry(Some(3), Some(4), 3),
        entry(None, None, 4),
    ];
    let ordered = order_logs(logs);
    assert_eq!(ordered.len(), 1);
    assert_eq!(ordered[0].payload, 3);
    assert!(order_logs(Vec::<LogEntry<u32>>::new()).is_empty());
}
