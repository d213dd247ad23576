use vstd::prelude::*;

use crate::state::{Address, Seat};

verus! {

broadcast use vstd::seq_lib::group_to_multiset_ensures;

/// The phases of the table contract, in the order a round goes through them.
#[derive(Clone, Copy, Debug, PartialEq, Eq, Structural)]
pub enum ContractPhase {
    WaitingForPlayers,
    WaitingForDealer,
    PreFlop,
    WaitingForFlop,
    Flop,
    WaitingForTurn,
    Turn,
    WaitingForRiver,
    River,
    WaitingForResult,
}

/// An event of the table contract, decoded from its log.
#[derive(Clone, Copy, Debug)]
pub enum ChainEvent {
    PlayerJoined { address: Address, seat: Seat },
    PlayerLeft { address: Address, seat: Seat },
    PhaseChanged { new_phase: ContractPhase },
    PlayerBet,
    PlayerFolded { seat: Seat },
    RoundEndedWithoutShowdown,
    ShowdownEnded,
}

/// A log entry as the ledger reports it: where it stands, and what it holds.
#[derive(Debug)]
pub struct LogEntry<T> {
    pub block_number: Option<u64>,
    pub log_index: Option<u64>,
    pub payload: T,
}

/// The entry carries both its block number and its index in the block.
pub open spec fn is_placed<T>(entry: LogEntry<T>) -> bool {
    entry.block_number is Some && entry.log_index is Some
}

/// `a` comes no later than `b`: by block number, then by index in the block.
pub open spec fn log_le<T>(a: LogEntry<T>, b: LogEntry<T>) -> bool {
    let (ab, ai) = (a.block_number->Some_0, a.log_index->Some_0);
    let (bb, bi) = (b.block_number->Some_0, b.log_index->Some_0);
    ab < bb || (ab == bb && ai <= bi)
}

/// The entries that carry both a block number and a log index, in order.
pub open spec fn placed<T>(logs: Seq<LogEntry<T>>) -> Seq<LogEntry<T>>
    decreases logs.len(),
{
    if logs.len() == 0 {
        seq![]
    } else if is_placed(logs.last()) {
        placed(logs.drop_last()).push(logs.last())
    } else {
        placed(logs.drop_last())
    }
}

/// Every entry is placed, and each comes no later than the ones after it.
pub open spec fn in_log_order<T>(logs: Seq<LogEntry<T>>) -> bool {
    &&& forall|i: int| 0 <= i < logs.len() ==> is_placed(#[trigger] logs[i])
    &&& forall|i: int, j: int| 0 <= i < j < logs.len() ==> log_le(logs[i], logs[j])
}

proof fn lemma_placed<T>(logs: Seq<LogEntry<T>>)
    ensures
        forall|i: int| 0 <= i < placed(logs).len() ==> is_placed(#[trigger] placed(logs)[i]),
    decreases logs.len(),
{
    if logs.len() > 0 {
        lemma_placed(logs.drop_last());
        let prev = placed(logs.drop_last());
        assert forall|i: int| 0 <= i < placed(logs).len() implies is_placed(
            #[trigger] placed(logs)[i],
        ) by {
            if i < prev.len() {
                assert(placed(logs)[i] == prev[i]);
            }
        }
    }
}

fn is_placed_entry<T>(entry: &LogEntry<T>) -> (r: bool)
    ensures
        r == is_placed(*entry),
{
    entry.block_number.is_some() && entry.log_index.is_some()
}

fn comes_before<T>(a: &LogEntry<T>, b: &LogEntry<T>) -> (r: bool)
    requires
        is_placed(*a),
        is_placed(*b),
    ensures
        r == !log_le(*b, *a),
{
    let ab = a.block_number.unwrap();
    let ai = a.log_index.unwrap();
    let bb = b.block_number.unwrap();
    let bi = b.log_index.unwrap();
    ab < bb || (ab == bb && ai < bi)
}

/// Keeps the entries that carry a block number and a log index, and orders
/// them by block number, then by index in the block.
pub fn order_logs<T>(logs: Vec<LogEntry<T>>) -> (r: Vec<LogEntry<T>>)
    ensures
        in_log_order(r@),
        r@.to_multiset() == placed(logs@).to_multiset(),
{
    let ghost all = logs@;
    let mut logs = logs;
    let mut kept: Vec<LogEntry<T>> = Vec::new();
    let ghost mut done: int = 0;
    proof {
        lemma_placed(all);
    }
    while logs.len() > 0
        invariant
            0 <= done <= all.len(),
            logs@ == all.skip(done),
            in_log_order(kept@),
            kept@.to_multiset() == placed(all.take(done)).to_multiset(),
        decreases logs@.len(),
    {
        let e = logs.remove(0);
        proof {
            assert(e == all[done]);
            assert(all.take(done + 1).drop_last() =~= all.take(done));
            assert(all.take(done + 1).last() == e);
        }
        if is_placed_entry(&e) {
            let mut j: usize = 0;
            while j < kept.len() && !comes_before(&e, &kept[j])
                invariant
                    j <= kept@.len(),
                    is_placed(e),
                    in_log_order(kept@),
                    forall|k: int| 0 <= k < j ==> log_le(#[trigger] kept@[k], e),
                decreases kept@.len() - j,
            {
                j += 1;
            }
            let ghost before = kept@;
            kept.insert(j, e);
            proof {
                assert(kept@ == before.insert(j as int, e));
                assert forall|a: int, b: int| 0 <= a < b < kept@.len() implies log_le(
                    kept@[a],
                    kept@[b],
                ) by {
                    if j < before.len() {
                        assert(!log_le(before[j as int], e));
                    }
                    if a < j && b < j {
                        assert(kept@[a] == before[a]);
                        assert(kept@[b] == before[b]);
                    } else if a < j && b == j {
                        assert(kept@[a] == before[a]);
                    } else if a < j && b > j {
                        assert(kept@[a] == before[a]);
                        assert(kept@[b] == before[b - 1]);
                    } else if a == j {
                        assert(kept@[b] == before[b - 1]);
                        assert(log_le(before[j as int], before[b - 1]) || b - 1 == j);
                    } else {
                        assert(kept@[a] == before[a - 1]);
                        assert(kept@[b] == before[b - 1]);
                    }
                }
                assert forall|k: int| 0 <= k < kept@.len() implies is_placed(#[trigger] kept@[k]) by {
                    if k < j {
                        assert(kept@[k] == before[k]);
                    } else if k > j {
                        assert(kept@[k] == before[k - 1]);
                    }
                }
            }
        }
        proof {
            done = done + 1;
        }
    }
    proof {
        assert(all.take(done) =~= all);
    }
    kept
}

} // verus!
