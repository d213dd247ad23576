use vstd::prelude::*;

use crate::card::{all_wf, Card, Deck, DECK_SIZE};
use crate::showdown::{best_seats, hand_rank, rank_cards, winning_seats, HandRank};

verus! {

/// The most players a round can seat.
pub const MAX_PLAYERS: usize = 5;

/// A wallet address on the ledger.
#[derive(Clone, Copy, Debug, Hash)]
pub struct Address(pub [u8; 20]);

impl Address {
    /// The all-zero address, which the table contract reports for an empty seat.
    pub open spec fn spec_is_zero(self) -> bool {
        forall|i: int| 0 <= i < 20 ==> self.0@[i] == 0
    }

    pub fn is_zero(&self) -> (r: bool)
        ensures
            r == self.spec_is_zero(),
    {
        let mut i: usize = 0;
        while i < 20
            invariant
                i <= 20,
                forall|j: int| 0 <= j < i ==> self.0@[j] == 0,
            decreases 20 - i,
        {
            if self.0[i] != 0 {
                return false;
            }
            i += 1;
        }
        true
    }
}

impl PartialEq for Address {
    fn eq(&self, other: &Address) -> (r: bool) {
        let mut i: usize = 0;
        while i < 20
            invariant
                i <= 20,
                forall|j: int| 0 <= j < i ==> self.0@[j] == other.0@[j],
            decreases 20 - i,
        {
            if self.0[i] != other.0[i] {
                return false;
            }
            i += 1;
        }
        assert(self.0 =~= other.0);
        true
    }
}

impl vstd::std_specs::cmp::PartialEqSpecImpl for Address {
    open spec fn obeys_eq_spec() -> bool {
        true
    }

    open spec fn eq_spec(&self, other: &Address) -> bool {
        *self == *other
    }
}

impl Eq for Address {
}

/// A table position, independent of which wallet sits there.
#[derive(Clone, Copy, Debug, PartialEq, Eq, Structural, PartialOrd, Ord, Hash)]
pub struct Seat(pub usize);

/// A wallet registered at a seat of the table; lasts across rounds.
#[derive(Clone, Copy, Debug)]
pub struct TablePlayer {
    pub address: Address,
    pub seat: Seat,
}

/// A player dealt into the current round.
#[derive(Clone, Copy, Debug)]
pub struct Player {
    /// The wallet address of the player
    pub address: Address,
    /// The seat of the player
    pub seat: Seat,
    /// The two cards dealt to the player, in deal order
    pub starting_hand: [Card; 2],
}

/// Why a phase step was refused.
#[derive(Clone, Copy, Debug, PartialEq, Eq, Structural)]
pub enum PhaseError {
    /// The round has not reached the phase the step starts from.
    TooSoon,
    /// The round is already past the phase the step starts from.
    TooLate,
    NotEnoughPlayers,
    TooManyPlayers,
    /// No round is being played, so there is no player list.
    NoActiveRound,
}

/// The local mirror of the table contract's phase, with the data each phase carries.
pub enum GamePhase {
    WaitingForPlayers,
    WaitingForDealer,
    PreFlop { deck: Deck, players: Vec<Player> },
    WaitingForFlop { deck: Deck, players: Vec<Player> },
    Flop { deck: Deck, players: Vec<Player>, flop: [Card; 3] },
    WaitingForTurn { deck: Deck, players: Vec<Player>, flop: [Card; 3] },
    Turn { deck: Deck, players: Vec<Player>, flop: [Card; 3], turn: Card },
    WaitingForRiver { deck: Deck, players: Vec<Player>, flop: [Card; 3], turn: Card },
    River { deck: Deck, players: Vec<Player>, flop: [Card; 3], turn: Card, river: Card },
    WaitingForResult { deck: Deck, players: Vec<Player>, flop: [Card; 3], turn: Card, river: Card },
}

/// Stage numbers of the phases, in the order the contract goes through them.
pub const WAITING_FOR_PLAYERS: usize = 0;
pub const WAITING_FOR_DEALER: usize = 1;
pub const PRE_FLOP: usize = 2;
pub const WAITING_FOR_FLOP: usize = 3;
pub const FLOP: usize = 4;
pub const WAITING_FOR_TURN: usize = 5;
pub const TURN: usize = 6;
pub const WAITING_FOR_RIVER: usize = 7;
pub const RIVER: usize = 8;
pub const WAITING_FOR_RESULT: usize = 9;

/// The mathematical model of a phase. A round in progress is its stage, the
/// cards still in the deck (in dealing order), its players, and the community
/// cards revealed so far (flop, then turn, then river).
pub ghost enum PhaseView {
    WaitingForPlayers,
    WaitingForDealer,
    InRound { stage: nat, deck: Seq<Card>, players: Seq<Player>, community: Seq<Card> },
}

/// How many community cards are revealed at a stage of a round.
pub open spec fn community_size(stage: nat) -> nat {
    if stage < FLOP {
        0
    } else if stage < TURN {
        3
    } else if stage < RIVER {
        4
    } else {
        5
    }
}

/// The two hole cards of each player, in player order.
pub open spec fn hole_cards(players: Seq<Player>) -> Seq<Card>
    decreases players.len(),
{
    if players.len() == 0 {
        seq![]
    } else {
        hole_cards(players.drop_last()) + players.last().starting_hand@
    }
}

/// The players of `players` that do not sit at `seat`, in order.
pub open spec fn without_seat(players: Seq<Player>, seat: Seat) -> Seq<Player>
    decreases players.len(),
{
    if players.len() == 0 {
        seq![]
    } else if players.last().seat == seat {
        without_seat(players.drop_last(), seat)
    } else {
        without_seat(players.drop_last(), seat).push(players.last())
    }
}

proof fn lemma_without_seat(players: Seq<Player>, seat: Seat)
    ensures
        without_seat(players, seat).len() <= players.len(),
        forall|k: int|
            0 <= k < without_seat(players, seat).len() ==> players.contains(
                #[trigger] without_seat(players, seat)[k],
            ),
    decreases players.len(),
{
    if players.len() > 0 {
        let rest = players.drop_last();
        lemma_without_seat(rest, seat);
        assert forall|k: int| 0 <= k < without_seat(players, seat).len() implies players.contains(
            #[trigger] without_seat(players, seat)[k],
        ) by {
            if k < without_seat(rest, seat).len() {
                assert(without_seat(players, seat)[k] == without_seat(rest, seat)[k]);
                let j = choose|j: int| 0 <= j < rest.len() && rest[j] == without_seat(rest, seat)[k];
                assert(players[j] == rest[j]);
            } else {
                assert(players[players.len() - 1] == players.last());
            }
        }
    }
}

/// `players` are the participants, in order, each dealt the next two cards of `deck`.
pub open spec fn deals(players: Seq<Player>, participants: Seq<TablePlayer>, deck: Seq<Card>) -> bool {
    &&& players.len() == participants.len()
    &&& forall|i: int|
        0 <= i < players.len() ==> {
            &&& (#[trigger] players[i]).address == participants[i].address
            &&& players[i].seat == participants[i].seat
            &&& players[i].starting_hand@ == deck.subrange(2 * i, 2 * i + 2)
        }
}

impl PhaseView {
    /// The position of the phase in the contract's order.
    pub open spec fn stage(self) -> nat {
        match self {
            PhaseView::WaitingForPlayers => WAITING_FOR_PLAYERS as nat,
            PhaseView::WaitingForDealer => WAITING_FOR_DEALER as nat,
            PhaseView::InRound { stage, .. } => stage,
        }
    }

    pub open spec fn wf(self) -> bool {
        match self {
            PhaseView::InRound { stage, deck, players, community } => {
                &&& PRE_FLOP <= stage <= WAITING_FOR_RESULT
                &&& players.len() <= MAX_PLAYERS
                &&& community.len() == community_size(stage)
                &&& deck.len() + community.len() >= 5
                &&& all_wf(deck)
                &&& all_wf(community)
                &&& forall|i: int|
                    0 <= i < players.len() ==> all_wf(#[trigger] players[i].starting_hand@)
            },
            _ => true,
        }
    }

    /// The refusal of a step that starts from stage `from`, when the phase is elsewhere.
    pub open spec fn misordered(self, from: nat) -> PhaseError {
        if self.stage() < from {
            PhaseError::TooSoon
        } else {
            PhaseError::TooLate
        }
    }

    /// The step from stage `from` to the next stage, revealing the next `n`
    /// cards of the deck as community cards.
    pub open spec fn advance(self, from: nat, n: nat) -> Result<PhaseView, PhaseError> {
        match self {
            PhaseView::InRound { stage, deck, players, community } => {
                if stage == from {
                    Ok(
                        PhaseView::InRound {
                            stage: from + 1,
                            deck: deck.skip(n as int),
                            players,
                            community: community + deck.take(n as int),
                        },
                    )
                } else {
                    Err(self.misordered(from))
                }
            },
            _ => Err(self.misordered(from)),
        }
    }

    /// The next `n` cards of the deck of a round.
    pub open spec fn next_cards(self, n: nat) -> Seq<Card> {
        self->deck.take(n as int)
    }

    /// The round without the player at `seat`, if any sits there.
    pub open spec fn without(self, seat: Seat) -> PhaseView {
        match self {
            PhaseView::InRound { stage, deck, players, community } => PhaseView::InRound {
                stage,
                deck,
                players: without_seat(players, seat),
                community,
            },
            _ => self,
        }
    }

    /// The outcome of starting a round with `n` participants.
    pub open spec fn start_status(self, n: nat) -> Result<(), PhaseError> {
        if self.stage() != WAITING_FOR_DEALER {
            Err(self.misordered(WAITING_FOR_DEALER as nat))
        } else if n < 2 {
            Err(PhaseError::NotEnoughPlayers)
        } else if n > MAX_PLAYERS {
            Err(PhaseError::TooManyPlayers)
        } else {
            Ok(())
        }
    }

    /// The round that `participants` start from a full deck, each dealt two cards.
    pub open spec fn is_start(self, participants: Seq<TablePlayer>, deck: Seq<Card>) -> bool {
        &&& self matches PhaseView::InRound { stage, deck: rest, players, community }
        &&& stage == PRE_FLOP
        &&& rest == deck.skip(2 * participants.len() as int)
        &&& community == Seq::<Card>::empty()
        &&& deals(players, participants, deck)
    }
}

/// The phase after a step: the step's result, or the phase unchanged when refused.
pub open spec fn after(outcome: Result<PhaseView, PhaseError>, before: PhaseView) -> PhaseView {
    match outcome {
        Ok(p) => p,
        Err(_) => before,
    }
}

/// Whether a step went through, and why not.
pub open spec fn status(outcome: Result<PhaseView, PhaseError>) -> Result<(), PhaseError> {
    match outcome {
        Ok(_) => Ok(()),
        Err(e) => Err(e),
    }
}

impl View for GamePhase {
    type V = PhaseView;

    open spec fn view(&self) -> PhaseView {
        match self {
            GamePhase::WaitingForPlayers => PhaseView::WaitingForPlayers,
            GamePhase::WaitingForDealer => PhaseView::WaitingForDealer,
            GamePhase::PreFlop { deck, players } => PhaseView::InRound {
                stage: PRE_FLOP as nat,
                deck: deck@,
                players: players@,
                community: seq![],
            },
            GamePhase::WaitingForFlop { deck, players } => PhaseView::InRound {
                stage: WAITING_FOR_FLOP as nat,
                deck: deck@,
                players: players@,
                community: seq![],
            },
            GamePhase::Flop { deck, players, flop } => PhaseView::InRound {
                stage: FLOP as nat,
                deck: deck@,
                players: players@,
                community: flop@,
            },
            GamePhase::WaitingForTurn { deck, players, flop } => PhaseView::InRound {
                stage: WAITING_FOR_TURN as nat,
                deck: deck@,
                players: players@,
                community: flop@,
            },
            GamePhase::Turn { deck, players, flop, turn } => PhaseView::InRound {
                stage: TURN as nat,
                deck: deck@,
                players: players@,
                community: flop@.push(*turn),
            },
            GamePhase::WaitingForRiver { deck, players, flop, turn } => PhaseView::InRound {
                stage: WAITING_FOR_RIVER as nat,
                deck: deck@,
                players: players@,
                community: flop@.push(*turn),
            },
            GamePhase::River { deck, players, flop, turn, river } => PhaseView::InRound {
                stage: RIVER as nat,
                deck: deck@,
                players: players@,
                community: flop@.push(*turn).push(*river),
            },
            GamePhase::WaitingForResult { deck, players, flop, turn, river } => PhaseView::InRound {
                stage: WAITING_FOR_RESULT as nat,
                deck: deck@,
                players: players@,
                community: flop@.push(*turn).push(*river),
            },
        }
    }
}

impl GamePhase {
    pub fn stage(&self) -> (s: usize)
        ensures
            s == self@.stage(),
    {
        match self {
            GamePhase::WaitingForPlayers => WAITING_FOR_PLAYERS,
            GamePhase::WaitingForDealer => WAITING_FOR_DEALER,
            GamePhase::PreFlop { .. } => PRE_FLOP,
            GamePhase::WaitingForFlop { .. } => WAITING_FOR_FLOP,
            GamePhase::Flop { .. } => FLOP,
            GamePhase::WaitingForTurn { .. } => WAITING_FOR_TURN,
            GamePhase::Turn { .. } => TURN,
            GamePhase::WaitingForRiver { .. } => WAITING_FOR_RIVER,
            GamePhase::River { .. } => RIVER,
            GamePhase::WaitingForResult { .. } => WAITING_FOR_RESULT,
        }
    }

    fn misordered(&self, from: usize) -> (e: PhaseError)
        ensures
            e == self@.misordered(from as nat),
    {
        if self.stage() < from {
            PhaseError::TooSoon
        } else {
            PhaseError::TooLate
        }
    }
}

impl Default for GamePhase {
    fn default() -> (p: GamePhase)
        ensures
            p@ == PhaseView::WaitingForPlayers,
    {
        GamePhase::WaitingForPlayers
    }
}

/// The service's state: the seated wallets, the local phase, and the last
/// block whose events have been applied.
pub struct AppState {
    pub table_players: Vec<TablePlayer>,
    pub phase: GamePhase,
    pub last_processed_block: u64,
}

/// The seven cards a player's hand is ranked from: the hole cards, then the board.
pub open spec fn seven_cards(player: Player, community: Seq<Card>) -> Seq<Card> {
    player.starting_hand@ + community
}

/// Each player's seat with the rank of its seven cards.
pub open spec fn ranked_seats(players: Seq<Player>, community: Seq<Card>) -> Seq<(Seat, HandRank)> {
    players.map_values(|p: Player| (p.seat, hand_rank(seven_cards(p, community))))
}

impl AppState {
    pub open spec fn wf(&self) -> bool {
        self.phase@.wf()
    }

    /// The seating and the checkpoint are those of `other`.
    pub open spec fn same_seating(&self, other: &AppState) -> bool {
        &&& self.table_players@ == other.table_players@
        &&& self.last_processed_block == other.last_processed_block
    }

    /// A fresh state: nobody seated, waiting for players, no checkpoint.
    pub fn new() -> (s: AppState)
        ensures
            s.wf(),
            s.table_players@ == Seq::<TablePlayer>::empty(),
            s.phase@ == PhaseView::WaitingForPlayers,
            s.last_processed_block == 0,
    {
        AppState {
            table_players: Vec::new(),
            phase: GamePhase::WaitingForPlayers,
            last_processed_block: 0,
        }
    }

    fn take_phase(&mut self) -> (p: GamePhase)
        ensures
            p == old(self).phase,
            final(self).phase@ == PhaseView::WaitingForPlayers,
            final(self).same_seating(old(self)),
    {
        let mut p = GamePhase::WaitingForPlayers;
        std::mem::swap(&mut self.phase, &mut p);
        p
    }

    /// The contract now waits for a dealer: whatever round was held locally is dropped.
    pub fn set_ready(&mut self)
        ensures
            final(self).wf(),
            final(self).same_seating(old(self)),
            final(self).phase@ == PhaseView::WaitingForDealer,
    {
        self.phase = GamePhase::WaitingForDealer;
    }

    /// Starts a round from `deck`: each participant, in order, is dealt the next two cards.
    pub fn start_game_with_deck(&mut self, participants: &[TablePlayer], deck: Deck) -> (r: Result<
        (),
        PhaseError,
    >)
        requires
            old(self).wf(),
            deck@.len() == DECK_SIZE,
            all_wf(deck@),
        ensures
            final(self).wf(),
            final(self).same_seating(old(self)),
            r == old(self).phase@.start_status(participants@.len()),
            r is Ok ==> final(self).phase@.is_start(participants@, deck@),
            r is Err ==> final(self).phase@ == old(self).phase@,
    {
        if self.phase.stage() != WAITING_FOR_DEALER {
            return Err(self.phase.misordered(WAITING_FOR_DEALER));
        }
        if participants.len() < 2 {
            return Err(PhaseError::NotEnoughPlayers);
        }
        if participants.len() > MAX_PLAYERS {
            return Err(PhaseError::TooManyPlayers);
        }
        let ghost full = deck@;
        let mut deck = deck;
        let mut players: Vec<Player> = Vec::new();
        let mut i: usize = 0;
        while i < participants.len()
            invariant
                i <= participants@.len() <= MAX_PLAYERS,
                full.len() == DECK_SIZE,
                all_wf(full),
                deck@ == full.skip(2 * i),
                deals(players@, participants@.take(i as int), full),
            decreases participants@.len() - i,
        {
            let first = deck.deal().unwrap();
            let second = deck.deal().unwrap();
            let hand = [first, second];
            let ghost before = players@;
            players.push(
                Player {
                    address: participants[i].address,
                    seat: participants[i].seat,
                    starting_hand: hand,
                },
            );
            proof {
                assert(hand@ =~= full.subrange(2 * i, 2 * i + 2));
                assert(players@.drop_last() =~= before);
                assert(deck@ =~= full.skip(2 * i + 2));
                assert forall|j: int| 0 <= j < players@.len() implies {
                    &&& (#[trigger] players@[j]).address == participants@.take(i + 1)[j].address
                    &&& players@[j].seat == participants@.take(i + 1)[j].seat
                    &&& players@[j].starting_hand@ == full.subrange(2 * j, 2 * j + 2)
                } by {
                    if j < i {
                        assert(players@[j] == before[j]);
                    }
                }
            }
            i += 1;
        }
        proof {
            assert(participants@.take(i as int) =~= participants@);
            assert forall|j: int| 0 <= j < players@.len() implies all_wf(
                #[trigger] players@[j].starting_hand@,
            ) by {
                assert forall|k: int| 0 <= k < 2 implies (#[trigger] players@[j].starting_hand@[k]).wf() by {
                    assert(players@[j].starting_hand@[k] == full[2 * j + k]);
                }
            }
            assert forall|k: int| 0 <= k < deck@.len() implies (#[trigger] deck@[k]).wf() by {
                assert(deck@[k] == full[k + 2 * i]);
            }
        }
        self.phase = GamePhase::PreFlop { deck, players };
        Ok(())
    }

    /// Starts a round from a freshly shuffled deck.
    pub fn start_game(&mut self, participants: &[TablePlayer]) -> (r: Result<(), PhaseError>)
        requires
            old(self).wf(),
        ensures
            final(self).wf(),
            final(self).same_seating(old(self)),
            r == old(self).phase@.start_status(participants@.len()),
            r is Ok ==> exists|deck: Seq<Card>|
                {
                    &&& deck.len() == DECK_SIZE
                    &&& deck.no_duplicates()
                    &&& all_wf(deck)
                    &&& final(self).phase@.is_start(participants@, deck)
                },
            r is Err ==> final(self).phase@ == old(self).phase@,
    {
        let deck = Deck::shuffled();
        let ghost full = deck@;
        let r = self.start_game_with_deck(participants, deck);
        proof {
            if r is Ok {
                assert(final(self).phase@.is_start(participants@, full));
            }
        }
        r
    }

    /// The contract announced the flop: the round now waits for it.
    pub fn set_waiting_for_flop(&mut self) -> (r: Result<(), PhaseError>)
        requires
            old(self).wf(),
        ensures
            final(self).wf(),
            final(self).same_seating(old(self)),
            r == status(old(self).phase@.advance(PRE_FLOP as nat, 0)),
            final(self).phase@ == after(old(self).phase@.advance(PRE_FLOP as nat, 0), old(self).phase@),
    {
        match self.take_phase() {
            GamePhase::PreFlop { deck, players } => {
                proof {
                    assert(deck@.skip(0) =~= deck@);
                    assert(deck@.take(0) =~= Seq::<Card>::empty());
                }
                self.phase = GamePhase::WaitingForFlop { deck, players };
                Ok(())
            },
            other => {
                let e = other.misordered(PRE_FLOP);
                self.phase = other;
                Err(e)
            },
        }
    }

    /// Deals the three flop cards off the deck and reveals them.
    pub fn reveal_flop(&mut self) -> (r: Result<[Card; 3], PhaseError>)
        requires
            old(self).wf(),
        ensures
            final(self).wf(),
            final(self).same_seating(old(self)),
            status(old(self).phase@.advance(WAITING_FOR_FLOP as nat, 3)) == (match r {
                Ok(_) => Ok(()),
                Err(e) => Err(e),
            }),
            r matches Ok(flop) ==> flop@ == old(self).phase@.next_cards(3) && all_wf(flop@),
            final(self).phase@ == after(
                old(self).phase@.advance(WAITING_FOR_FLOP as nat, 3),
                old(self).phase@,
            ),
    {
        match self.take_phase() {
            GamePhase::WaitingForFlop { mut deck, players } => {
                let ghost d = deck@;
                let a = deck.deal().unwrap();
                let b = deck.deal().unwrap();
                let c = deck.deal().unwrap();
                let flop = [a, b, c];
                proof {
                    assert(flop@ =~= d.take(3));
                    assert(deck@ =~= d.skip(3));
                    assert(Seq::<Card>::empty() + d.take(3) =~= flop@);
                    assert(all_wf(flop@)) by {
                        assert forall|k: int| 0 <= k < 3 implies (#[trigger] flop@[k]).wf() by {
                            assert(flop@[k] == d[k]);
                        }
                    }
                    assert forall|k: int| 0 <= k < deck@.len() implies (#[trigger] deck@[k]).wf() by {
                        assert(deck@[k] == d[k + 3]);
                    }
                }
                self.phase = GamePhase::Flop { deck, players, flop };
                Ok(flop)
            },
            other => {
                let e = other.misordered(WAITING_FOR_FLOP);
                self.phase = other;
                Err(e)
            },
        }
    }

    /// The contract announced the turn: the round now waits for it.
    pub fn set_waiting_for_turn(&mut self) -> (r: Result<(), PhaseError>)
        requires
            old(self).wf(),
        ensures
            final(self).wf(),
            final(self).same_seating(old(self)),
            r == status(old(self).phase@.advance(FLOP as nat, 0)),
            final(self).phase@ == after(old(self).phase@.advance(FLOP as nat, 0), old(self).phase@),
    {
        match self.take_phase() {
            GamePhase::Flop { deck, players, flop } => {
                proof {
                    assert(deck@.skip(0) =~= deck@);
                    assert(deck@.take(0) =~= Seq::<Card>::empty());
                }
                self.phase = GamePhase::WaitingForTurn { deck, players, flop };
                Ok(())
            },
            other => {
                let e = other.misordered(FLOP);
                self.phase = other;
                Err(e)
            },
        }
    }

    /// Deals the turn card off the deck and reveals it.
    pub fn reveal_turn(&mut self) -> (r: Result<Card, PhaseError>)
        requires
            old(self).wf(),
        ensures
            final(self).wf(),
            final(self).same_seating(old(self)),
            status(old(self).phase@.advance(WAITING_FOR_TURN as nat, 1)) == (match r {
                Ok(_) => Ok(()),
                Err(e) => Err(e),
            }),
            r matches Ok(card) ==> seq![card] == old(self).phase@.next_cards(1) && card.wf(),
            final(self).phase@ == after(
                old(self).phase@.advance(WAITING_FOR_TURN as nat, 1),
                old(self).phase@,
            ),
    {
        match self.take_phase() {
            GamePhase::WaitingForTurn { mut deck, players, flop } => {
                let ghost d = deck@;
                let turn = deck.deal().unwrap();
                proof {
                    assert(seq![turn] =~= d.take(1));
                    assert(deck@ =~= d.skip(1));
                    assert(flop@.push(turn) =~= flop@ + d.take(1));
                    assert forall|k: int| 0 <= k < deck@.len() implies (#[trigger] deck@[k]).wf() by {
                        assert(deck@[k] == d[k + 1]);
                    }
                    assert(all_wf(flop@.push(turn))) by {
                        assert forall|k: int| 0 <= k < flop@.len() + 1 implies (#[trigger] flop@.push(turn)[k]).wf() by {
                            if k < flop@.len() {
                                assert(flop@.push(turn)[k] == flop@[k]);
                            }
                        }
                    }
                }
                self.phase = GamePhase::Turn { deck, players, flop, turn };
                Ok(turn)
            },
            other => {
                let e = other.misordered(WAITING_FOR_TURN);
                self.phase = other;
                Err(e)
            },
        }
    }

    /// The contract announced the river: the round now waits for it.
    pub fn set_waiting_for_river(&mut self) -> (r: Result<(), PhaseError>)
        requires
            old(self).wf(),
        ensures
            final(self).wf(),
            final(self).same_seating(old(self)),
            r == status(old(self).phase@.advance(TURN as nat, 0)),
            final(self).phase@ == after(old(self).phase@.advance(TURN as nat, 0), old(self).phase@),
    {
        match self.take_phase() {
            GamePhase::Turn { deck, players, flop, turn } => {
                proof {
                    assert(deck@.skip(0) =~= deck@);
                    assert(deck@.take(0) =~= Seq::<Card>::empty());
                }
                self.phase = GamePhase::WaitingForRiver { deck, players, flop, turn };
                Ok(())
            },
            other => {
                let e = other.misordered(TURN);
                self.phase = other;
                Err(e)
            },
        }
    }

    /// Deals the river card off the deck and reveals it.
    pub fn reveal_river(&mut self) -> (r: Result<Card, PhaseError>)
        requires
            old(self).wf(),
        ensures
            final(self).wf(),
            final(self).same_seating(old(self)),
            status(old(self).phase@.advance(WAITING_FOR_RIVER as nat, 1)) == (match r {
                Ok(_) => Ok(()),
                Err(e) => Err(e),
            }),
            r matches Ok(card) ==> seq![card] == old(self).phase@.next_cards(1) && card.wf(),
            final(self).phase@ == after(
                old(self).phase@.advance(WAITING_FOR_RIVER as nat, 1),
                old(self).phase@,
            ),
    {
        match self.take_phase() {
            GamePhase::WaitingForRiver { mut deck, players, flop, turn } => {
                let ghost d = deck@;
                let river = deck.deal().unwrap();
                proof {
                    assert(seq![river] =~= d.take(1));
                    assert(deck@ =~= d.skip(1));
                    assert(flop@.push(turn).push(river) =~= flop@.push(turn) + d.take(1));
                    assert forall|k: int| 0 <= k < deck@.len() implies (#[trigger] deck@[k]).wf() by {
                        assert(deck@[k] == d[k + 1]);
                    }
                    assert(all_wf(flop@.push(turn).push(river))) by {
                        assert forall|k: int| 0 <= k < flop@.push(turn).len() + 1 implies (#[trigger] flop@.push(turn).push(river)[k]).wf() by {
                            if k < flop@.push(turn).len() {
                                assert(flop@.push(turn).push(river)[k] == flop@.push(turn)[k]);
                            }
                        }
                    }
                }
                self.phase = GamePhase::River { deck, players, flop, turn, river };
                Ok(river)
            },
            other => {
                let e = other.misordered(WAITING_FOR_RIVER);
                self.phase = other;
                Err(e)
            },
        }
    }

    /// Betting is over: the round now waits for the showdown.
    pub fn set_waiting_for_result(&mut self) -> (r: Result<(), PhaseError>)
        requires
            old(self).wf(),
        ensures
            final(self).wf(),
            final(self).same_seating(old(self)),
            r == status(old(self).phase@.advance(RIVER as nat, 0)),
            final(self).phase@ == after(old(self).phase@.advance(RIVER as nat, 0), old(self).phase@),
    {
        match self.take_phase() {
            GamePhase::River { deck, players, flop, turn, river } => {
                proof {
                    assert(deck@.skip(0) =~= deck@);
                    assert(deck@.take(0) =~= Seq::<Card>::empty());
                }
                self.phase = GamePhase::WaitingForResult { deck, players, flop, turn, river };
                Ok(())
            },
            other => {
                let e = other.misordered(RIVER);
                self.phase = other;
                Err(e)
            },
        }
    }
    /// Ranks every player's seven cards and picks the winners.
    ///
    /// Returns each player's seat and hole cards, and the seats whose rank is
    /// the greatest (all of them on a tie), both in player order.
    pub fn reveal_winner(&mut self) -> (r: Result<(Vec<(Seat, [Card; 2])>, Vec<Seat>), PhaseError>)
        requires
            old(self).wf(),
        ensures
            final(self).phase@ == old(self).phase@,
            final(self).same_seating(old(self)),
            old(self).phase@.stage() != WAITING_FOR_RESULT ==> r == Err::<
                (Vec<(Seat, [Card; 2])>, Vec<Seat>),
                PhaseError,
            >(PhaseError::TooSoon),
            old(self).phase@.stage() == WAITING_FOR_RESULT ==> (r matches Ok((hands, winners)) && {
                let players = old(self).phase@->players;
                &&& hands@ == players.map_values(|p: Player| (p.seat, p.starting_hand))
                &&& winners@ == best_seats(ranked_seats(players, old(self).phase@->community))
            }),
    {
        match &self.phase {
            GamePhase::WaitingForResult { players, flop, turn, river, .. } => {
                let ghost community = self.phase@->community;
                let mut hands: Vec<(Seat, [Card; 2])> = Vec::new();
                let mut ranked: Vec<(Seat, HandRank)> = Vec::new();
                let mut i: usize = 0;
                while i < players.len()
                    invariant
                        i <= players@.len(),
                        community == flop@.push(*turn).push(*river),
                        hands@ == players@.take(i as int).map_values(
                            |p: Player| (p.seat, p.starting_hand),
                        ),
                        ranked@ == ranked_seats(players@, community).take(i as int),
                    decreases players@.len() - i,
                {
                    let p = players[i];
                    hands.push((p.seat, p.starting_hand));
                    let seven = [
                        p.starting_hand[0],
                        p.starting_hand[1],
                        flop[0],
                        flop[1],
                        flop[2],
                        *turn,
                        *river,
                    ];
                    assert(seven@ =~= seven_cards(p, community));
                    let rank = rank_cards(&seven);
                    ranked.push((p.seat, rank));
                    i += 1;
                    assert(hands@ =~= players@.take(i as int).map_values(
                        |p: Player| (p.seat, p.starting_hand),
                    ));
                    assert(ranked@ =~= ranked_seats(players@, community).take(i as int));
                }
                assert(players@.take(i as int) =~= players@);
                assert(ranked_seats(players@, community).take(i as int) =~= ranked_seats(
                    players@,
                    community,
                ));
                let winners = winning_seats(ranked.as_slice());
                Ok((hands, winners))
            },
            _ => Err(PhaseError::TooSoon),
        }
    }

    /// Drops the player at `seat` from the round being played (a fold or a
    /// leave); the phase stays where it is.
    pub fn remove_player(&mut self, seat: Seat) -> (r: Result<(), PhaseError>)
        requires
            old(self).wf(),
        ensures
            final(self).wf(),
            final(self).same_seating(old(self)),
            old(self).phase@ is InRound ==> r is Ok && final(self).phase@ == old(self).phase@.without(seat),
            !(old(self).phase@ is InRound) ==> r == Err::<(), PhaseError>(PhaseError::NoActiveRound)
                && final(self).phase@ == old(self).phase@,
    {
        match self.take_phase() {
            GamePhase::WaitingForPlayers => {
                self.phase = GamePhase::WaitingForPlayers;
                Err(PhaseError::NoActiveRound)
            },
            GamePhase::WaitingForDealer => {
                self.phase = GamePhase::WaitingForDealer;
                Err(PhaseError::NoActiveRound)
            },
            GamePhase::PreFlop { deck, players } => {
                let players = players_without(&players, seat);
                self.phase = GamePhase::PreFlop { deck, players };
                Ok(())
            },
            GamePhase::WaitingForFlop { deck, players } => {
                let players = players_without(&players, seat);
                self.phase = GamePhase::WaitingForFlop { deck, players };
                Ok(())
            },
            GamePhase::Flop { deck, players, flop } => {
                let players = players_without(&players, seat);
                self.phase = GamePhase::Flop { deck, players, flop };
                Ok(())
            },
            GamePhase::WaitingForTurn { deck, players, flop } => {
                let players = players_without(&players, seat);
                self.phase = GamePhase::WaitingForTurn { deck, players, flop };
                Ok(())
            },
            GamePhase::Turn { deck, players, flop, turn } => {
                let players = players_without(&players, seat);
                self.phase = GamePhase::Turn { deck, players, flop, turn };
                Ok(())
            },
            GamePhase::WaitingForRiver { deck, players, flop, turn } => {
                let players = players_without(&players, seat);
                self.phase = GamePhase::WaitingForRiver { deck, players, flop, turn };
                Ok(())
            },
            GamePhase::River { deck, players, flop, turn, river } => {
                let players = players_without(&players, seat);
                self.phase = GamePhase::River { deck, players, flop, turn, river };
                Ok(())
            },
            GamePhase::WaitingForResult { deck, players, flop, turn, river } => {
                let players = players_without(&players, seat);
                self.phase = GamePhase::WaitingForResult { deck, players, flop, turn, river };
                Ok(())
            },
        }
    }

    /// The players of the round being played, if one is.
    pub fn get_players(&self) -> (r: Option<&Vec<Player>>)
        ensures
            r is Some <==> self.phase@ is InRound,
            r matches Some(players) ==> players@ == self.phase@->players,
    {
        match &self.phase {
            GamePhase::WaitingForPlayers | GamePhase::WaitingForDealer => None,
            GamePhase::PreFlop { players, .. }
            | GamePhase::WaitingForFlop { players, .. }
            | GamePhase::Flop { players, .. }
            | GamePhase::WaitingForTurn { players, .. }
            | GamePhase::Turn { players, .. }
            | GamePhase::WaitingForRiver { players, .. }
            | GamePhase::River { players, .. }
            | GamePhase::WaitingForResult { players, .. } => Some(players),
        }
    }

    /// The flop, once revealed.
    pub fn get_flop(&self) -> (r: Option<[Card; 3]>)
        ensures
            self.phase@.stage() < FLOP ==> r is None,
            self.phase@.stage() >= FLOP ==> (r matches Some(flop) && flop@ == self.phase@->community.take(3)),
    {
        match &self.phase {
            GamePhase::WaitingForPlayers
            | GamePhase::WaitingForDealer
            | GamePhase::PreFlop { .. }
            | GamePhase::WaitingForFlop { .. } => None,
            GamePhase::Flop { flop, .. }
            | GamePhase::WaitingForTurn { flop, .. }
            | GamePhase::Turn { flop, .. }
            | GamePhase::WaitingForRiver { flop, .. }
            | GamePhase::River { flop, .. }
            | GamePhase::WaitingForResult { flop, .. } => {
                assert(flop@ =~= self.phase@->community.take(3));
                Some(*flop)
            },
        }
    }

    /// The turn card, once revealed.
    pub fn get_turn(&self) -> (r: Option<Card>)
        ensures
            self.phase@.stage() < TURN ==> r is None,
            self.phase@.stage() >= TURN ==> r == Some(self.phase@->community[3]),
    {
        match &self.phase {
            GamePhase::WaitingForPlayers
            | GamePhase::WaitingForDealer
            | GamePhase::PreFlop { .. }
            | GamePhase::WaitingForFlop { .. }
            | GamePhase::Flop { .. }
            | GamePhase::WaitingForTurn { .. } => None,
            GamePhase::Turn { turn, .. }
            | GamePhase::WaitingForRiver { turn, .. }
            | GamePhase::River { turn, .. }
            | GamePhase::WaitingForResult { turn, .. } => Some(*turn),
        }
    }

    /// The river card, once revealed.
    pub fn get_river(&self) -> (r: Option<Card>)
        ensures
            self.phase@.stage() < RIVER ==> r is None,
            self.phase@.stage() >= RIVER ==> r == Some(self.phase@->community[4]),
    {
        match &self.phase {
            GamePhase::WaitingForPlayers
            | GamePhase::WaitingForDealer
            | GamePhase::PreFlop { .. }
            | GamePhase::WaitingForFlop { .. }
            | GamePhase::Flop { .. }
            | GamePhase::WaitingForTurn { .. }
            | GamePhase::Turn { .. }
            | GamePhase::WaitingForRiver { .. } => None,
            GamePhase::River { river, .. } | GamePhase::WaitingForResult { river, .. } => Some(*river),
        }
    }
}

/// The players that do not sit at `seat`, in order.
fn players_without(players: &Vec<Player>, seat: Seat) -> (r: Vec<Player>)
    requires
        players@.len() <= MAX_PLAYERS,
        forall|i: int| 0 <= i < players@.len() ==> all_wf(#[trigger] players@[i].starting_hand@),
    ensures
        r@ == without_seat(players@, seat),
        r@.len() <= MAX_PLAYERS,
        forall|i: int| 0 <= i < r@.len() ==> all_wf(#[trigger] r@[i].starting_hand@),
{
    let mut r: Vec<Player> = Vec::new();
    let mut i: usize = 0;
    while i < players.len()
        invariant
            i <= players@.len(),
            r@ == without_seat(players@.take(i as int), seat),
        decreases players@.len() - i,
    {
        let p = players[i];
        if p.seat != seat {
            r.push(p);
        }
        i += 1;
        assert(players@.take(i as int).drop_last() =~= players@.take(i - 1));
    }
    assert(players@.take(i as int) =~= players@);
    proof {
        lemma_without_seat(players@, seat);
        assert forall|i: int| 0 <= i < r@.len() implies all_wf(#[trigger] r@[i].starting_hand@) by {
            assert(players@.contains(r@[i]));
        }
    }
    r
}

impl PhaseView {
    /// Every card dealt so far: the players' hole cards, then the community cards.
    pub open spec fn cards_out(self) -> Seq<Card> {
        hole_cards(self->players) + self->community
    }
}

/// A step is refused by the order of phases alone: from a phase before the
/// one the step starts from it is too soon, from a later one too late. In
/// particular a reveal step taken right before its announcing step is too soon.
pub proof fn lemma_step_order(phase: PhaseView, from: nat, n: nat, participants: nat)
    ensures
        phase.stage() < from ==> phase.advance(from, n) == Err::<PhaseView, PhaseError>(
            PhaseError::TooSoon,
        ),
        phase.stage() > from ==> phase.advance(from, n) == Err::<PhaseView, PhaseError>(
            PhaseError::TooLate,
        ),
        phase.stage() == from ==> phase.advance(from + 1, n) == Err::<PhaseView, PhaseError>(
            PhaseError::TooSoon,
        ),
        phase.stage() < WAITING_FOR_DEALER ==> phase.start_status(participants) == Err::<
            (),
            PhaseError,
        >(PhaseError::TooSoon),
        phase.stage() > WAITING_FOR_DEALER ==> phase.start_status(participants) == Err::<
            (),
            PhaseError,
        >(PhaseError::TooLate),
{
}

proof fn lemma_hole_cards(players: Seq<Player>, participants: Seq<TablePlayer>, deck: Seq<Card>)
    requires
        deals(players, participants, deck),
        deck.len() >= 2 * players.len(),
    ensures
        hole_cards(players) == deck.take(2 * players.len() as int),
    decreases players.len(),
{
    if players.len() > 0 {
        let n = players.len() - 1;
        let rest = players.drop_last();
        assert(deals(rest, participants.drop_last(), deck)) by {
            assert forall|i: int| 0 <= i < rest.len() implies {
                &&& (#[trigger] rest[i]).address == participants.drop_last()[i].address
                &&& rest[i].seat == participants.drop_last()[i].seat
                &&& rest[i].starting_hand@ == deck.subrange(2 * i, 2 * i + 2)
            } by {
                assert(rest[i] == players[i]);
            }
        }
        lemma_hole_cards(rest, participants.drop_last(), deck);
        assert(players.last() == players[n]);
        assert(deck.take(2 * players.len() as int) =~= deck.take(2 * n) + deck.subrange(2 * n, 2 * n + 2));
    }
}

pub(crate) proof fn lemma_prefix_no_duplicates(deck: Seq<Card>, k: int)
    requires
        deck.no_duplicates(),
        0 <= k <= deck.len(),
    ensures
        deck.take(k).no_duplicates(),
{
    assert forall|i: int, j: int| 0 <= i < k && 0 <= j < k && i != j implies deck.take(k)[i] != deck.take(
        k,
    )[j] by {
        assert(deck.take(k)[i] == deck[i]);
        assert(deck.take(k)[j] == deck[j]);
    }
}

/// Starting a round with two to five participants from a full deck succeeds,
/// and deals two cards to each participant with no card dealt twice.
pub proof fn lemma_start_deals_distinct_cards(
    start: PhaseView,
    participants: Seq<TablePlayer>,
    deck: Seq<Card>,
)
    requires
        2 <= participants.len() <= MAX_PLAYERS,
        deck.len() == DECK_SIZE,
        deck.no_duplicates(),
        start.is_start(participants, deck),
    ensures
        PhaseView::WaitingForDealer.start_status(participants.len()) == Ok::<(), PhaseError>(()),
        hole_cards(start->players) == deck.take(2 * participants.len() as int),
        hole_cards(start->players).len() == 2 * participants.len(),
        hole_cards(start->players).no_duplicates(),
{
    lemma_hole_cards(start->players, participants, deck);
    lemma_prefix_no_duplicates(deck, 2 * participants.len() as int);
}

} // verus!
