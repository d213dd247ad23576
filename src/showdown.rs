use vstd::prelude::*;

use crate::card::Card;
use crate::state::Seat;

verus! {

/// The strength of a hand: its category (0 for high card up to 8 for a
/// straight flush), then its order within the category.
#[derive(Clone, Copy, Debug, PartialEq, Eq, Structural)]
pub struct HandRank {
    pub category: u8,
    pub value: u16,
}

/// `a` is no stronger than `b`: category first, then order within it.
pub open spec fn rank_le(a: HandRank, b: HandRank) -> bool {
    a.category < b.category || (a.category == b.category && a.value <= b.value)
}

/// The rank of the best five cards among `cards`, as rs_poker's evaluator gives it.
pub uninterp spec fn hand_rank(cards: Seq<Card>) -> HandRank;

/// Relies on rs_poker's `Rankable::rank` for `Hand`, which ranks the best five
/// cards of the set and depends on the cards alone (its evaluator takes at
/// most seven cards); `Rank::category` and `Rank::value_bits` split the score
/// into its two parts.
#[verifier::external_body]
pub(crate) fn rank_cards(cards: &[Card]) -> (r: HandRank)
    requires
        cards@.len() <= 7,
    ensures
        r == hand_rank(cards@),
{
    let hand = rs_poker::core::Hand::new_with_cards(
        cards
            .iter()
            .map(
                |c| rs_poker::core::Card::new(
                    rs_poker::core::Value::from(c.value),
                    rs_poker::core::Suit::from(c.suit),
                ),
            )
            .collect(),
    );
    let rank = rs_poker::core::Rankable::rank(&hand);
    HandRank { category: rank.category() as u8, value: rank.value_bits() }
}

/// Position `i` holds a rank that no other rank of `ranks` beats.
pub open spec fn is_best(ranks: Seq<HandRank>, i: int) -> bool {
    &&& 0 <= i < ranks.len()
    &&& forall|j: int| 0 <= j < ranks.len() ==> rank_le(#[trigger] ranks[j], ranks[i])
}

/// The positions below `n` that hold a best rank of `ranks`, ascending.
pub open spec fn best_positions(ranks: Seq<HandRank>, n: nat) -> Seq<int>
    decreases n,
{
    if n == 0 {
        seq![]
    } else if is_best(ranks, n - 1) {
        best_positions(ranks, (n - 1) as nat).push(n - 1)
    } else {
        best_positions(ranks, (n - 1) as nat)
    }
}

/// The ranks of a list of seats with their ranks.
pub open spec fn ranks_of(ranked: Seq<(Seat, HandRank)>) -> Seq<HandRank> {
    ranked.map_values(|x: (Seat, HandRank)| x.1)
}

/// The seats that hold a best rank, in the order given.
pub open spec fn best_seats(ranked: Seq<(Seat, HandRank)>) -> Seq<Seat> {
    best_positions(ranks_of(ranked), ranked.len()).map_values(|i: int| ranked[i].0)
}

proof fn lemma_best_positions(ranks: Seq<HandRank>, n: nat)
    requires
        n <= ranks.len(),
    ensures
        forall|k: int|
            0 <= k < best_positions(ranks, n).len() ==> is_best(
                ranks,
                #[trigger] best_positions(ranks, n)[k],
            ) && best_positions(ranks, n)[k] < n,
    decreases n,
{
    if n > 0 {
        let prev = best_positions(ranks, (n - 1) as nat);
        lemma_best_positions(ranks, (n - 1) as nat);
        assert forall|k: int| 0 <= k < best_positions(ranks, n).len() implies is_best(
            ranks,
            #[trigger] best_positions(ranks, n)[k],
        ) && best_positions(ranks, n)[k] < n by {
            if k < prev.len() {
                assert(best_positions(ranks, n)[k] == prev[k]);
            }
        }
    }
}

/// Relies on itertools' `max_set_by_key`: every element whose key is greatest,
/// in iteration order (the key here orders ranks category first).
#[verifier::external_body]
fn max_rank_positions(ranks: &[HandRank]) -> (r: Vec<usize>)
    ensures
        r@.map_values(|i: usize| i as int) == best_positions(ranks@, ranks@.len()),
{
    itertools::Itertools::max_set_by_key(ranks.iter().enumerate(), |(_, r)| (r.category, r.value))
        .into_iter()
        .map(|(i, _)| i)
        .collect()
}

/// The seats whose rank is the greatest, in the order given; on a tie, all of them.
pub fn winning_seats(ranked: &[(Seat, HandRank)]) -> (w: Vec<Seat>)
    ensures
        w@ == best_seats(ranked@),
{
    let mut ranks: Vec<HandRank> = Vec::new();
    let mut i: usize = 0;
    while i < ranked.len()
        invariant
            i <= ranked@.len(),
            ranks@ == ranks_of(ranked@).take(i as int),
        decreases ranked@.len() - i,
    {
        ranks.push(ranked[i].1);
        i += 1;
        assert(ranks@ =~= ranks_of(ranked@).take(i as int));
    }
    assert(ranks@ =~= ranks_of(ranked@));
    let best = max_rank_positions(&ranks);
    let ghost positions = best_positions(ranks@, ranks@.len());
    proof {
        lemma_best_positions(ranks@, ranks@.len());
        assert(best@.len() == positions.len());
    }
    let mut w: Vec<Seat> = Vec::new();
    let mut k: usize = 0;
    while k < best.len()
        invariant
            k <= best@.len(),
            best@.len() == positions.len(),
            best@.map_values(|i: usize| i as int) == positions,
            positions == best_positions(ranks_of(ranked@), ranked@.len()),
            ranks@ == ranks_of(ranked@),
            forall|j: int| 0 <= j < positions.len() ==> #[trigger] positions[j] < ranked@.len(),
            w@ == positions.take(k as int).map_values(|i: int| ranked@[i].0),
        decreases best@.len() - k,
    {
        assert(best@[k as int] as int == positions[k as int]);
        let p = best[k];
        w.push(ranked[p].0);
        k += 1;
        assert(w@ =~= positions.take(k as int).map_values(|i: int| ranked@[i].0));
    }
    assert(positions.take(k as int) =~= positions);
    w
}

} // verus!
