use vstd::prelude::*;

use crate::card::{
    all_wf, card_code, card_to_string, cards_code, hand_to_string, Card, DECK_SIZE,
};
use crate::events::{ChainEvent, ContractPhase};
use crate::showdown::best_seats;
use crate::state::{
    after, hole_cards, lemma_prefix_no_duplicates, lemma_start_deals_distinct_cards, ranked_seats,
    Address, AppState, GamePhase, PhaseError, PhaseView, Player, Seat, TablePlayer, FLOP,
    MAX_PLAYERS, PRE_FLOP, RIVER, TURN,
};

verus! {

/// A transaction to send to the table contract.
pub enum TableCall {
    /// `setCurrentPhase(phase, cards)`: move the contract on, revealing `cards`.
    SetCurrentPhase { phase: ContractPhase, cards: String },
    /// `revealShowdownResult(hands, winners)`: the code of each seat's hole
    /// cards (empty for an empty seat) and the winning seats.
    RevealShowdownResult { hands: Vec<String>, winners: Vec<Seat> },
    /// `cancelCurrentRound()`: send the contract back to waiting for players.
    CancelCurrentRound,
}

impl TableCall {
    /// Asks the contract to move to `phase`, revealing `cards`.
    pub open spec fn sets_phase(self, phase: ContractPhase, cards: Seq<char>) -> bool {
        self matches TableCall::SetCurrentPhase { phase: p, cards: c } && p == phase && c@ == cards
    }

    /// Reveals the showdown of a round with these players and community cards.
    pub open spec fn reveals_showdown(self, players: Seq<Player>, community: Seq<Card>) -> bool {
        self matches TableCall::RevealShowdownResult { hands, winners } && {
            &&& hands@.len() == MAX_PLAYERS
            &&& forall|s: int|
                0 <= s < MAX_PLAYERS ==> (#[trigger] hands@[s])@ == seat_code(players, Seat(s as usize))
            &&& winners@ == best_seats(ranked_seats(players, community))
        }
    }
}

/// The outcome asks for the contract to move to `phase`, revealing `cards`.
pub open spec fn requests(r: Result<Option<TableCall>, PhaseError>, phase: ContractPhase, cards: Seq<char>) -> bool {
    r matches Ok(Some(call)) && call.sets_phase(phase, cards)
}

/// The code of the hole cards of the first player at `seat`; empty if nobody sits there.
pub open spec fn seat_code(players: Seq<Player>, seat: Seat) -> Seq<char>
    decreases players.len(),
{
    if players.len() == 0 {
        seq![]
    } else if players[0].seat == seat {
        cards_code(players[0].starting_hand@)
    } else {
        seat_code(players.drop_first(), seat)
    }
}

/// Some table player has this address at this seat.
pub open spec fn is_seated(players: Seq<TablePlayer>, address: Address, seat: Seat) -> bool {
    exists|i: int| 0 <= i < players.len() && players[i].address == address && players[i].seat == seat
}

/// The table after `address` joins at `seat`; a join already on record changes nothing.
pub open spec fn joined(players: Seq<TablePlayer>, address: Address, seat: Seat) -> Seq<TablePlayer> {
    if is_seated(players, address, seat) {
        players
    } else {
        players.push(TablePlayer { address, seat })
    }
}

/// The table players whose address is not `address`, in order.
pub open spec fn without_address(players: Seq<TablePlayer>, address: Address) -> Seq<TablePlayer>
    decreases players.len(),
{
    if players.len() == 0 {
        seq![]
    } else if players.last().address == address {
        without_address(players.drop_last(), address)
    } else {
        without_address(players.drop_last(), address).push(players.last())
    }
}

/// Announces the next community cards and reveals them: the step from stage
/// `from`, then the step that deals `n` cards.
pub open spec fn reveal_step(phase: PhaseView, from: nat, n: nat) -> Result<PhaseView, PhaseError> {
    match phase.advance(from, 0) {
        Ok(waiting) => waiting.advance(from + 1, n),
        Err(e) => Err(e),
    }
}

/// The outcome of an announce-and-reveal pair: the phase moves as
/// `reveal_step` says and the contract is asked to move to `target` with the
/// revealed cards, or the first refusal is returned.
pub open spec fn reveals(
    before: PhaseView,
    now: PhaseView,
    r: Result<Option<TableCall>, PhaseError>,
    from: nat,
    n: nat,
    target: ContractPhase,
) -> bool {
    let outcome = reveal_step(before, from, n);
    &&& now == after(outcome, before)
    &&& match outcome {
        Ok(_) => requests(r, target, cards_code(before.next_cards(n))),
        Err(e) => r matches Err(x) && x == e,
    }
}

/// A full deck: 52 distinct valid cards.
pub open spec fn is_full_deck(deck: Seq<Card>) -> bool {
    deck.len() == DECK_SIZE && deck.no_duplicates() && all_wf(deck)
}

/// How the local phase (from `before` to `now`) and the outcome `r` follow the
/// contract's move to `new_phase`, with `seated` the table's players.
pub open spec fn follows_phase_change(
    before: PhaseView,
    now: PhaseView,
    seated: Seq<TablePlayer>,
    new_phase: ContractPhase,
    r: Result<Option<TableCall>, PhaseError>,
) -> bool {
    match new_phase {
        ContractPhase::WaitingForPlayers => {
            &&& now == before
            &&& if seated.len() >= 2 {
                requests(r, ContractPhase::WaitingForDealer, seq![])
            } else {
                r matches Ok(None)
            }
        },
        ContractPhase::WaitingForDealer => match PhaseView::WaitingForDealer.start_status(seated.len()) {
            Ok(_) => {
                &&& requests(r, ContractPhase::PreFlop, seq![])
                &&& exists|deck: Seq<Card>| is_full_deck(deck) && #[trigger] now.is_start(seated, deck)
            },
            Err(e) => {
                &&& r matches Err(x) && x == e
                &&& now == PhaseView::WaitingForDealer
            },
        },
        ContractPhase::WaitingForFlop => reveals(before, now, r, PRE_FLOP as nat, 3, ContractPhase::Flop),
        ContractPhase::WaitingForTurn => reveals(before, now, r, FLOP as nat, 1, ContractPhase::Turn),
        ContractPhase::WaitingForRiver => reveals(before, now, r, TURN as nat, 1, ContractPhase::River),
        ContractPhase::WaitingForResult => {
            let outcome = before.advance(RIVER as nat, 0);
            &&& now == after(outcome, before)
            &&& match outcome {
                Ok(round) => r matches Ok(Some(call)) && call.reveals_showdown(
                    round->players,
                    round->community,
                ),
                Err(e) => r matches Err(x) && x == e,
            }
        },
        _ => now == before && r matches Ok(None),
    }
}

/// The showdown transaction: per seat, the hole cards of the player there.
fn showdown_call(hands: &Vec<(Seat, [Card; 2])>, winners: Vec<Seat>, players: Ghost<Seq<Player>>) -> (call: TableCall)
    requires
        hands@ == players@.map_values(|p: Player| (p.seat, p.starting_hand)),
        forall|i: int| 0 <= i < players@.len() ==> all_wf(#[trigger] players@[i].starting_hand@),
    ensures
        call matches TableCall::RevealShowdownResult { hands: h, winners: w } && {
            &&& w@ == winners@
            &&& h@.len() == MAX_PLAYERS
            &&& forall|s: int|
                0 <= s < MAX_PLAYERS ==> (#[trigger] h@[s])@ == seat_code(players@, Seat(s as usize))
        },
{
    let mut cards: Vec<String> = Vec::new();
    let mut s: usize = 0;
    while s < MAX_PLAYERS
        invariant
            s <= MAX_PLAYERS,
            hands@ == players@.map_values(|p: Player| (p.seat, p.starting_hand)),
            forall|i: int| 0 <= i < players@.len() ==> all_wf(#[trigger] players@[i].starting_hand@),
            cards@.len() == s,
            forall|t: int| 0 <= t < s ==> (#[trigger] cards@[t])@ == seat_code(players@, Seat(t as usize)),
        decreases MAX_PLAYERS - s,
    {
        let mut k: usize = 0;
        let mut code = String::new();
        let mut found = false;
        assert(players@.skip(0) =~= players@);
        while k < hands.len() && !found
            invariant
                k <= hands@.len(),
                hands@ == players@.map_values(|p: Player| (p.seat, p.starting_hand)),
                forall|i: int| 0 <= i < players@.len() ==> all_wf(#[trigger] players@[i].starting_hand@),
                found ==> code@ == seat_code(players@, Seat(s)),
                !found ==> code@ == Seq::<char>::empty(),
                !found ==> seat_code(players@, Seat(s)) == seat_code(players@.skip(k as int), Seat(s)),
            decreases hands@.len() - k + (if found { 0int } else { 1int }),
        {
            assert(players@.skip(k as int).drop_first() =~= players@.skip(k + 1));
            assert(players@.skip(k as int)[0] == players@[k as int]);
            if hands[k].0 == Seat(s) {
                code = hand_to_string(&hands[k].1);
                found = true;
            } else {
                k += 1;
            }
        }
        proof {
            if !found {
                assert(players@.skip(k as int).len() == 0);
            }
        }
        assert(code@ == seat_code(players@, Seat(s)));
        cards.push(code);
        s += 1;
    }
    TableCall::RevealShowdownResult { hands: cards, winners }
}

proof fn lemma_single_card_code(card: Card)
    ensures
        cards_code(seq![card]) == card_code(card),
{
    let one = seq![card];
    assert(one.drop_last() =~= Seq::<Card>::empty());
    assert(cards_code(one.drop_last()) == Seq::<char>::empty());
    assert(one.last() == card);
    assert(cards_code(one) =~= cards_code(one.drop_last()) + card_code(card));
}

proof fn lemma_announce_keeps_deck(phase: PhaseView, from: nat)
    ensures
        phase.advance(from, 0) matches Ok(waiting) ==> waiting.next_cards(3) == phase.next_cards(3)
            && waiting.next_cards(1) == phase.next_cards(1) && waiting.stage() == from + 1,
{
    if phase.advance(from, 0) is Ok {
        assert(phase->deck.skip(0) =~= phase->deck);
    }
}

fn is_on_record(players: &Vec<TablePlayer>, address: Address, seat: Seat) -> (r: bool)
    ensures
        r == is_seated(players@, address, seat),
{
    let mut i: usize = 0;
    while i < players.len()
        invariant
            i <= players@.len(),
            forall|k: int|
                0 <= k < i ==> !(players@[k].address == address && players@[k].seat == seat),
        decreases players@.len() - i,
    {
        let p = players[i];
        if p.address == address && p.seat == seat {
            return true;
        }
        i += 1;
    }
    false
}

impl AppState {
    /// Records that `address` sits at `seat`, unless that is already on record.
    pub fn seat_player(&mut self, address: Address, seat: Seat)
        requires
            old(self).wf(),
        ensures
            final(self).wf(),
            final(self).phase@ == old(self).phase@,
            final(self).last_processed_block == old(self).last_processed_block,
            final(self).table_players@ == joined(old(self).table_players@, address, seat),
    {
        if is_on_record(&self.table_players, address, seat) {
            return;
        }
        self.table_players.push(TablePlayer { address, seat });
    }

    /// Registers a seat read from the contract at startup; the zero address means the seat is empty.
    pub fn register_seat(&mut self, seat: usize, player: Address)
        requires
            old(self).wf(),
        ensures
            final(self).wf(),
            final(self).phase@ == old(self).phase@,
            final(self).last_processed_block == old(self).last_processed_block,
            final(self).table_players@ == if player.spec_is_zero() {
                old(self).table_players@
            } else {
                joined(old(self).table_players@, player, Seat(seat))
            },
    {
        if !player.is_zero() {
            self.seat_player(player, Seat(seat));
        }
    }

    /// Forgets every seat held by `address`.
    pub fn unseat(&mut self, address: Address)
        requires
            old(self).wf(),
        ensures
            final(self).wf(),
            final(self).phase@ == old(self).phase@,
            final(self).last_processed_block == old(self).last_processed_block,
            final(self).table_players@ == without_address(old(self).table_players@, address),
    {
        let mut kept: Vec<TablePlayer> = Vec::new();
        let mut i: usize = 0;
        while i < self.table_players.len()
            invariant
                i <= self.table_players@.len(),
                kept@ == without_address(self.table_players@.take(i as int), address),
            decreases self.table_players@.len() - i,
        {
            let p = self.table_players[i];
            if p.address != address {
                kept.push(p);
            }
            i += 1;
            assert(self.table_players@.take(i as int).drop_last() =~= self.table_players@.take(i - 1));
        }
        assert(self.table_players@.take(i as int) =~= self.table_players@);
        self.table_players = kept;
    }

    /// Reacts to the contract moving to `new_phase`.
    pub fn on_phase_changed(&mut self, new_phase: ContractPhase) -> (r: Result<Option<TableCall>, PhaseError>)
        requires
            old(self).wf(),
        ensures
            final(self).wf(),
            final(self).same_seating(old(self)),
            follows_phase_change(
                old(self).phase@,
                final(self).phase@,
                old(self).table_players@,
                new_phase,
                r,
            ),
    {
        match new_phase {
            ContractPhase::WaitingForPlayers => {
                if self.table_players.len() >= 2 {
                    Ok(
                        Some(
                            TableCall::SetCurrentPhase {
                                phase: ContractPhase::WaitingForDealer,
                                cards: String::new(),
                            },
                        ),
                    )
                } else {
                    Ok(None)
                }
            },
            ContractPhase::WaitingForDealer => {
                self.set_ready();
                let participants = self.table_players.clone();
                assert(participants@ == self.table_players@);
                match self.start_game(participants.as_slice()) {
                    Ok(()) => Ok(
                        Some(
                            TableCall::SetCurrentPhase {
                                phase: ContractPhase::PreFlop,
                                cards: String::new(),
                            },
                        ),
                    ),
                    Err(e) => Err(e),
                }
            },
            ContractPhase::WaitingForFlop => {
                proof {
                    lemma_announce_keeps_deck(self.phase@, PRE_FLOP as nat);
                }
                if let Err(e) = self.set_waiting_for_flop() {
                    return Err(e);
                }
                match self.reveal_flop() {
                    Ok(flop) => {
                        let cards = hand_to_string(&flop);
                        Ok(Some(TableCall::SetCurrentPhase { phase: ContractPhase::Flop, cards }))
                    },
                    Err(e) => Err(e),
                }
            },
            ContractPhase::WaitingForTurn => {
                proof {
                    lemma_announce_keeps_deck(self.phase@, FLOP as nat);
                }
                if let Err(e) = self.set_waiting_for_turn() {
                    return Err(e);
                }
                match self.reveal_turn() {
                    Ok(turn) => {
                        let cards = card_to_string(turn);
                        proof {
                            lemma_single_card_code(turn);
                        }
                        Ok(Some(TableCall::SetCurrentPhase { phase: ContractPhase::Turn, cards }))
                    },
                    Err(e) => Err(e),
                }
            },
            ContractPhase::WaitingForRiver => {
                proof {
                    lemma_announce_keeps_deck(self.phase@, TURN as nat);
                }
                if let Err(e) = self.set_waiting_for_river() {
                    return Err(e);
                }
                match self.reveal_river() {
                    Ok(river) => {
                        let cards = card_to_string(river);
                        proof {
                            lemma_single_card_code(river);
                        }
                        Ok(Some(TableCall::SetCurrentPhase { phase: ContractPhase::River, cards }))
                    },
                    Err(e) => Err(e),
                }
            },
            ContractPhase::WaitingForResult => {
                if let Err(e) = self.set_waiting_for_result() {
                    return Err(e);
                }
                let ghost players = self.phase@->players;
                match self.reveal_winner() {
                    Ok((hands, winners)) => Ok(Some(showdown_call(&hands, winners, Ghost(players)))),
                    Err(e) => Err(e),
                }
            },
            _ => Ok(None),
        }
    }
    /// Applies one contract event to the local state and says which
    /// transaction, if any, to send in response.
    pub fn handle_event(&mut self, event: ChainEvent) -> (r: Result<Option<TableCall>, PhaseError>)
        requires
            old(self).wf(),
        ensures
            final(self).wf(),
            final(self).last_processed_block == old(self).last_processed_block,
            match event {
                ChainEvent::PlayerJoined { address, seat } => {
                    let seated = joined(old(self).table_players@, address, seat);
                    &&& final(self).table_players@ == seated
                    &&& final(self).phase@ == old(self).phase@
                    &&& if seated.len() >= 2 {
                        requests(r, ContractPhase::WaitingForDealer, seq![])
                    } else {
                        r matches Ok(None)
                    }
                },
                ChainEvent::PlayerLeft { address, seat } => {
                    &&& final(self).table_players@ == without_address(old(self).table_players@, address)
                    &&& final(self).phase@ == old(self).phase@.without(seat)
                    &&& r matches Ok(None)
                },
                ChainEvent::PhaseChanged { new_phase } => {
                    &&& final(self).table_players@ == old(self).table_players@
                    &&& follows_phase_change(
                        old(self).phase@,
                        final(self).phase@,
                        old(self).table_players@,
                        new_phase,
                        r,
                    )
                },
                ChainEvent::PlayerBet => {
                    &&& final(self).table_players@ == old(self).table_players@
                    &&& final(self).phase@ == old(self).phase@
                    &&& r matches Ok(None)
                },
                ChainEvent::PlayerFolded { seat } => {
                    &&& final(self).table_players@ == old(self).table_players@
                    &&& final(self).phase@ == old(self).phase@.without(seat)
                    &&& if old(self).phase@ is InRound {
                        r matches Ok(None)
                    } else {
                        r matches Err(PhaseError::NoActiveRound)
                    }
                },
                ChainEvent::RoundEndedWithoutShowdown | ChainEvent::ShowdownEnded => {
                    &&& final(self).table_players@ == old(self).table_players@
                    &&& final(self).phase@ == PhaseView::WaitingForPlayers
                    &&& r matches Ok(None)
                },
            },
    {
        match event {
            ChainEvent::PlayerJoined { address, seat } => {
                self.seat_player(address, seat);
                if self.table_players.len() >= 2 {
                    Ok(
                        Some(
                            TableCall::SetCurrentPhase {
                                phase: ContractPhase::WaitingForDealer,
                                cards: String::new(),
                            },
                        ),
                    )
                } else {
                    Ok(None)
                }
            },
            ChainEvent::PlayerLeft { address, seat } => {
                self.unseat(address);
                // a player who leaves between rounds has no hand to drop
                let _ = self.remove_player(seat);
                Ok(None)
            },
            ChainEvent::PhaseChanged { new_phase } => self.on_phase_changed(new_phase),
            ChainEvent::PlayerBet => Ok(None),
            ChainEvent::PlayerFolded { seat } => match self.remove_player(seat) {
                Ok(()) => Ok(None),
                Err(e) => Err(e),
            },
            ChainEvent::RoundEndedWithoutShowdown | ChainEvent::ShowdownEnded => {
                self.phase = GamePhase::WaitingForPlayers;
                Ok(None)
            },
        }
    }

    /// All events up to block `latest` have been applied.
    pub fn complete_tick(&mut self, latest: u64)
        ensures
            final(self).last_processed_block == latest,
            final(self).table_players@ == old(self).table_players@,
            final(self).phase == old(self).phase,
    {
        self.last_processed_block = latest;
    }
}

/// What to send on startup, given the phase the contract reports: a round
/// left over from an earlier run is cancelled before anything else.
pub fn startup_call(phase: ContractPhase) -> (call: Option<TableCall>)
    ensures
        phase == ContractPhase::WaitingForPlayers ==> call is None,
        phase != ContractPhase::WaitingForPlayers ==> call matches Some(TableCall::CancelCurrentRound),
{
    if phase == ContractPhase::WaitingForPlayers {
        None
    } else {
        Some(TableCall::CancelCurrentRound)
    }
}

/// The block to start tailing from: the checkpoint, or, when there is none
/// (zero), the block before the latest one.
pub fn initial_checkpoint(last_processed_block: u64, latest_block: u64) -> (b: u64)
    ensures
        last_processed_block != 0 ==> b == last_processed_block,
        last_processed_block == 0 && latest_block > 0 ==> b == latest_block - 1,
        last_processed_block == 0 && latest_block == 0 ==> b == 0,
{
    if last_processed_block != 0 {
        last_processed_block
    } else if latest_block > 0 {
        latest_block - 1
    } else {
        0
    }
}

/// The range of blocks whose logs a poll fetches, first and last included;
/// `None` when no block came after the checkpoint.
pub fn blocks_to_poll(last_processed_block: u64, latest_block: u64) -> (range: Option<(u64, u64)>)
    ensures
        latest_block <= last_processed_block ==> range is None,
        latest_block > last_processed_block ==> range == Some(
            ((last_processed_block + 1) as u64, latest_block),
        ),
{
    if latest_block <= last_processed_block {
        None
    } else {
        Some((last_processed_block + 1, latest_block))
    }
}

/// The round after its flop, turn and river have each been announced and revealed.
pub open spec fn through_river(start: PhaseView) -> Result<PhaseView, PhaseError> {
    match reveal_step(start, PRE_FLOP as nat, 3) {
        Ok(flop) => match reveal_step(flop, FLOP as nat, 1) {
            Ok(turn) => reveal_step(turn, TURN as nat, 1),
            Err(e) => Err(e),
        },
        Err(e) => Err(e),
    }
}

/// Over a whole round of two to five participants, from the start through the
/// river, the deck hands out two cards per participant and five community
/// cards, with no card dealt twice.
pub proof fn lemma_round_deals_distinct_cards(
    start: PhaseView,
    participants: Seq<TablePlayer>,
    deck: Seq<Card>,
)
    requires
        2 <= participants.len() <= MAX_PLAYERS,
        deck.len() == DECK_SIZE,
        deck.no_duplicates(),
        start.is_start(participants, deck),
    ensures
        through_river(start) is Ok,
        through_river(start)->Ok_0.cards_out() == deck.take(2 * participants.len() as int + 5),
        through_river(start)->Ok_0.cards_out().len() == 2 * participants.len() + 5,
        through_river(start)->Ok_0.cards_out().no_duplicates(),
{
    let n = 2 * participants.len() as int;
    lemma_start_deals_distinct_cards(start, participants, deck);
    let rest = deck.skip(n);
    assert(rest.skip(0) =~= rest);
    assert(rest.take(0) =~= Seq::<Card>::empty());
    let flop = reveal_step(start, PRE_FLOP as nat, 3)->Ok_0;
    assert(flop->deck =~= rest.skip(3));
    assert(flop->community =~= rest.take(3));
    assert(flop->deck.skip(0) =~= flop->deck);
    assert(flop->deck.take(0) =~= Seq::<Card>::empty());
    let turn = reveal_step(flop, FLOP as nat, 1)->Ok_0;
    assert(turn->deck =~= rest.skip(4));
    assert(turn->community =~= rest.take(4));
    assert(turn->deck.skip(0) =~= turn->deck);
    assert(turn->deck.take(0) =~= Seq::<Card>::empty());
    let river = reveal_step(turn, TURN as nat, 1)->Ok_0;
    assert(river->community =~= rest.take(5));
    assert(river->players == start->players);
    assert(hole_cards(river->players) == deck.take(n));
    assert(deck.take(n) + rest.take(5) =~= deck.take(n + 5));
    assert(river.cards_out() =~= deck.take(n + 5));
    lemma_prefix_no_duplicates(deck, n + 5);
}

} // verus!
