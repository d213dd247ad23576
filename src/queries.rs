use vstd::prelude::*;

use crate::card::Card;
use crate::state::{Address, AppState, Player, FLOP, RIVER, TURN};

verus! {

/// Why a card query could not be answered. All of these are the client's
/// error, never the server's.
#[derive(Clone, Copy, Debug)]
pub enum CardsError {
    GameNotStarted,
    FlopNotAvailable,
    TurnNotAvailable,
    RiverNotAvailable,
    PlayerNotFound(Address),
}

impl CardsError {
    /// The HTTP status the error is answered with.
    pub fn status_code(&self) -> (code: u16)
        ensures
            code == 400,
    {
        400
    }
}

/// Some player of the round has this address.
pub open spec fn has_player(players: Seq<Player>, wallet: Address) -> bool {
    exists|i: int| 0 <= i < players.len() && (#[trigger] players[i]).address == wallet
}

/// Position `i` holds the first player with this address.
pub open spec fn is_first_with(players: Seq<Player>, wallet: Address, i: int) -> bool {
    &&& 0 <= i < players.len()
    &&& players[i].address == wallet
    &&& forall|j: int| 0 <= j < i ==> (#[trigger] players[j]).address != wallet
}

/// The hole cards of the player with this wallet in the round being played.
pub fn hand(wallet: Address, state: &AppState) -> (r: Result<[Card; 2], CardsError>)
    ensures
        !(state.phase@ is InRound) ==> r matches Err(CardsError::GameNotStarted),
        state.phase@ is InRound && !has_player(state.phase@->players, wallet) ==> (r matches Err(
            CardsError::PlayerNotFound(w),
        ) && w == wallet),
        state.phase@ is InRound && has_player(state.phase@->players, wallet) ==> (r matches Ok(h)
            && exists|i: int|
            #[trigger] is_first_with(state.phase@->players, wallet, i)
                && h == state.phase@->players[i].starting_hand),
{
    let players = match state.get_players() {
        Some(players) => players,
        None => return Err(CardsError::GameNotStarted),
    };
    let mut i: usize = 0;
    while i < players.len()
        invariant
            i <= players@.len(),
            state.phase@ is InRound,
            players@ == state.phase@->players,
            forall|j: int| 0 <= j < i ==> (#[trigger] players@[j]).address != wallet,
        decreases players@.len() - i,
    {
        if players[i].address == wallet {
            assert(is_first_with(players@, wallet, i as int));
            return Ok(players[i].starting_hand);
        }
        i += 1;
    }
    Err(CardsError::PlayerNotFound(wallet))
}

/// The flop, once revealed.
pub fn flop(state: &AppState) -> (r: Result<[Card; 3], CardsError>)
    ensures
        state.phase@.stage() < FLOP ==> r matches Err(CardsError::FlopNotAvailable),
        state.phase@.stage() >= FLOP ==> (r matches Ok(f) && f@ == state.phase@->community.take(3)),
{
    match state.get_flop() {
        Some(f) => Ok(f),
        None => Err(CardsError::FlopNotAvailable),
    }
}

/// The turn card, once revealed.
pub fn turn(state: &AppState) -> (r: Result<Card, CardsError>)
    ensures
        state.phase@.stage() < TURN ==> r matches Err(CardsError::TurnNotAvailable),
        state.phase@.stage() >= TURN ==> r == Ok::<Card, CardsError>(state.phase@->community[3]),
{
    match state.get_turn() {
        Some(c) => Ok(c),
        None => Err(CardsError::TurnNotAvailable),
    }
}

/// The river card, once revealed.
pub fn river(state: &AppState) -> (r: Result<Card, CardsError>)
    ensures
        state.phase@.stage() < RIVER ==> r matches Err(CardsError::RiverNotAvailable),
        state.phase@.stage() >= RIVER ==> r == Ok::<Card, CardsError>(state.phase@->community[4]),
{
    match state.get_river() {
        Some(c) => Ok(c),
        None => Err(CardsError::RiverNotAvailable),
    }
}

} // verus!
