use vstd::prelude::*;

verus! {

/// The fee caps of an EIP-1559 transaction, in wei per gas.
#[derive(Clone, Copy, Debug, PartialEq, Eq, Structural)]
pub struct FeeEstimate {
    pub max_fee_per_gas: u128,
    pub max_priority_fee_per_gas: u128,
}

/// A fee raised by 10%, rounded up, and capped at the largest `u128`.
pub open spec fn raised(fee: u128) -> u128 {
    let up = (fee * 110 + 99) / 100;
    if up > u128::MAX {
        u128::MAX
    } else {
        up as u128
    }
}

/// The fee for the next attempt: the network's estimate, but never less than
/// the previous fee raised by 10%.
pub open spec fn escalated(previous: u128, estimate: u128) -> u128 {
    if estimate >= raised(previous) {
        estimate
    } else {
        raised(previous)
    }
}

fn raise(fee: u128) -> (r: u128)
    ensures
        r == raised(fee),
{
    let tenth = fee / 10 + if fee % 10 == 0 {
        0
    } else {
        1
    };
    proof {
        let f = fee as int;
        let q = (f + 9) / 10;
        assert(tenth == q) by {
            assert(f == 10 * (f / 10) + f % 10);
            assert(f + 9 == 10 * q + (f + 9) % 10);
        }
        assert((f * 110 + 99) / 100 == f + q) by {
            assert(f + 9 == 10 * q + (f + 9) % 10);
            assert(f * 110 + 99 == 100 * (f + q) + 10 * ((f + 9) % 10) + 9);
            assert(0 <= 10 * ((f + 9) % 10) + 9 < 100);
        }
    }
    fee.saturating_add(tenth)
}

/// Takes in a new network estimate: each fee becomes the estimate, or the old
/// fee raised by 10% (rounded up) where that is more, so that a replacement
/// transaction with the same nonce is always accepted.
pub fn update_gas(fees: &mut FeeEstimate, new_estimate: FeeEstimate)
    ensures
        final(fees).max_fee_per_gas == escalated(old(fees).max_fee_per_gas, new_estimate.max_fee_per_gas),
        final(fees).max_priority_fee_per_gas == escalated(
            old(fees).max_priority_fee_per_gas,
            new_estimate.max_priority_fee_per_gas,
        ),
{
    let fee = raise(fees.max_fee_per_gas);
    fees.max_fee_per_gas = if new_estimate.max_fee_per_gas >= fee {
        new_estimate.max_fee_per_gas
    } else {
        fee
    };
    let priority = raise(fees.max_priority_fee_per_gas);
    fees.max_priority_fee_per_gas = if new_estimate.max_priority_fee_per_gas >= priority {
        new_estimate.max_priority_fee_per_gas
    } else {
        priority
    };
}

/// While the network's estimate stays below the previous fee raised by 10%,
/// three successive attempts each pay exactly that raised fee, not the estimate.
pub proof fn lemma_floor_beats_low_estimates(first: u128, e1: u128, e2: u128, e3: u128)
    requires
        e1 < raised(first),
        e2 < raised(raised(first)),
        e3 < raised(raised(raised(first))),
    ensures
        escalated(first, e1) == raised(first),
        escalated(escalated(first, e1), e2) == raised(raised(first)),
        escalated(escalated(escalated(first, e1), e2), e3) == raised(raised(raised(first))),
{
}

/// Failed attempts after which the nonce is fetched again from the confirmed count.
pub const SAME_NONCE_ATTEMPTS: usize = 6;

/// Failed attempts after which the transaction is abandoned.
pub const MAX_ATTEMPTS: usize = 9;

/// What to do after an attempt was not mined in time.
#[derive(Clone, Copy, Debug, PartialEq, Eq, Structural)]
pub enum Escalation {
    /// Send again with the same nonce and higher fees.
    SameNonce,
    /// Fetch the confirmed nonce, then send again with higher fees.
    RefreshNonce,
    /// Stop: the transaction could not be mined.
    GiveUp,
}

/// The escalation after the attempt that follows `failures` earlier failures.
pub open spec fn escalation_after(failures: nat) -> Escalation {
    if failures < SAME_NONCE_ATTEMPTS {
        Escalation::SameNonce
    } else if failures < MAX_ATTEMPTS {
        Escalation::RefreshNonce
    } else {
        Escalation::GiveUp
    }
}

/// The state of a transaction being submitted: its nonce, the fees of the
/// last attempt, and how many attempts have failed.
#[derive(Clone, Copy, Debug)]
pub struct RetryState {
    pub nonce: u64,
    pub fees: FeeEstimate,
    pub failures: usize,
}

impl RetryState {
    pub open spec fn wf(self) -> bool {
        self.failures <= MAX_ATTEMPTS
    }

    /// Starts with the signer's pending nonce and no fee paid yet.
    pub fn new(nonce: u64) -> (s: RetryState)
        ensures
            s.wf(),
            s.nonce == nonce,
            s.failures == 0,
            s.fees == (FeeEstimate { max_fee_per_gas: 0, max_priority_fee_per_gas: 0 }),
    {
        RetryState {
            nonce,
            fees: FeeEstimate { max_fee_per_gas: 0, max_priority_fee_per_gas: 0 },
            failures: 0,
        }
    }

    /// The fees of the next attempt, given a fresh network estimate.
    pub fn next_fees(&mut self, estimate: FeeEstimate) -> (fees: FeeEstimate)
        requires
            old(self).wf(),
        ensures
            final(self).wf(),
            final(self).nonce == old(self).nonce,
            final(self).failures == old(self).failures,
            fees == final(self).fees,
            fees.max_fee_per_gas == escalated(
                old(self).fees.max_fee_per_gas,
                estimate.max_fee_per_gas,
            ),
            fees.max_priority_fee_per_gas == escalated(
                old(self).fees.max_priority_fee_per_gas,
                estimate.max_priority_fee_per_gas,
            ),
    {
        update_gas(&mut self.fees, estimate);
        self.fees
    }

    /// The attempt was not mined in time: says what to do next and counts the failure.
    pub fn on_timeout(&mut self) -> (e: Escalation)
        requires
            old(self).wf(),
        ensures
            final(self).wf(),
            e == escalation_after(old(self).failures as nat),
            final(self).nonce == old(self).nonce,
            final(self).fees == old(self).fees,
            e == Escalation::GiveUp ==> final(self).failures == old(self).failures,
            e != Escalation::GiveUp ==> final(self).failures == old(self).failures + 1,
    {
        if self.failures < SAME_NONCE_ATTEMPTS {
            self.failures += 1;
            Escalation::SameNonce
        } else if self.failures < MAX_ATTEMPTS {
            self.failures += 1;
            Escalation::RefreshNonce
        } else {
            Escalation::GiveUp
        }
    }

    /// Uses the nonce fetched after a `RefreshNonce`.
    pub fn set_nonce(&mut self, nonce: u64)
        requires
            old(self).wf(),
        ensures
            final(self).wf(),
            final(self).nonce == nonce,
            final(self).fees == old(self).fees,
            final(self).failures == old(self).failures,
    {
        self.nonce = nonce;
    }
}

} // verus!
