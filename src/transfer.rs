//! Native (program-less) purse-to-purse transfers with a fixed protocol cost.
//!
//! The cost and the amount are added first; the sum is then compared with the
//! source balance. Every check happens before any balance changes, so a failed
//! transfer leaves the balances exactly as they were and records nothing.

use vstd::prelude::*;
use crate::amount::{U512, u512_bound};

verus! {

/// Why a native transfer was refused.
#[derive(Clone, Copy, Debug, PartialEq, Eq)]
pub enum TransferError {
    /// `amount + cost`, or the credited target balance, does not fit in 512 bits.
    Overflow,
    /// The source balance is below `amount + cost`.
    InsufficientPayment,
    /// The source or the target purse does not exist.
    PurseNotFound,
}

/// The record of one applied transfer.
#[derive(Clone, Copy, Debug, PartialEq, Eq)]
pub struct TransferRecord {
    /// The hash of the deploy that caused the transfer.
    pub deploy_hash: [u8; 32],
    pub source: usize,
    pub target: usize,
    pub amount: U512,
    pub id: Option<u64>,
}

/// The report of one execution: its transfers and the cost charged, or the cause
/// of its failure with no transfers.
#[derive(Clone, Debug, PartialEq, Eq)]
pub enum ExecutionResult {
    Success { transfers: Vec<TransferRecord>, cost: U512 },
    Failure { error: TransferError, transfers: Vec<TransferRecord> },
}

impl ExecutionResult {
    /// The transfers recorded by this execution.
    pub fn transfers(&self) -> (r: &Vec<TransferRecord>)
        ensures
            match self {
                ExecutionResult::Success { transfers, .. } => r == transfers,
                ExecutionResult::Failure { transfers, .. } => r == transfers,
            },
    {
        match self {
            ExecutionResult::Success { transfers, .. } => transfers,
            ExecutionResult::Failure { transfers, .. } => transfers,
        }
    }

    /// The cause of failure, if any.
    pub fn as_error(&self) -> (r: Option<TransferError>)
        ensures
            match self {
                ExecutionResult::Success { .. } => r is None,
                ExecutionResult::Failure { error, .. } => r == Some(*error),
            },
    {
        match self {
            ExecutionResult::Success { .. } => None,
            ExecutionResult::Failure { error, .. } => Some(*error),
        }
    }
}

/// The balances of a snapshot after a transfer, or why there is none.
///
/// The source is debited by `amount + cost`, then the target is credited by
/// `amount`; the cost is retained by the protocol.
pub open spec fn transfer_outcome(
    balances: Seq<nat>,
    source: int,
    target: int,
    amount: nat,
    cost: nat,
) -> Result<Seq<nat>, TransferError> {
    if !(0 <= source < balances.len() && 0 <= target < balances.len()) {
        Err(TransferError::PurseNotFound)
    } else if amount + cost >= u512_bound() {
        Err(TransferError::Overflow)
    } else if balances[source] < amount + cost {
        Err(TransferError::InsufficientPayment)
    } else if source != target && balances[target] + amount >= u512_bound() {
        Err(TransferError::Overflow)
    } else {
        let debited = balances.update(source, (balances[source] - amount - cost) as nat);
        Ok(debited.update(target, debited[target] + amount))
    }
}

/// A transfer whose amount and cost the source balance covers succeeds: the
/// source ends at `balance - amount - cost` and the target gains `amount`
/// (distinct existing purses, the credited target still within 512 bits).
pub proof fn lemma_covered_transfer_succeeds(
    balances: Seq<nat>,
    source: int,
    target: int,
    amount: nat,
    cost: nat,
)
    requires
        0 <= source < balances.len(),
        0 <= target < balances.len(),
        source != target,
        balances[source] < u512_bound(),
        balances[target] + amount < u512_bound(),
        amount + cost <= balances[source],
    ensures
        transfer_outcome(balances, source, target, amount, cost) matches Ok(after)
            && after.len() == balances.len()
            && after[source] == balances[source] - amount - cost
            && after[target] == balances[target] + amount
            && (forall|i: int| 0 <= i < balances.len() && i != source && i != target
                ==> after[i] == balances[i]),
{
}

/// A transfer whose `amount + cost` does not fit in 512 bits fails with
/// `Overflow`, whatever the balances.
pub proof fn lemma_overflowing_transfer_fails(
    balances: Seq<nat>,
    source: int,
    target: int,
    amount: nat,
    cost: nat,
)
    requires
        0 <= source < balances.len(),
        0 <= target < balances.len(),
        amount + cost >= u512_bound(),
    ensures
        transfer_outcome(balances, source, target, amount, cost) == Err::<Seq<nat>, TransferError>(
            TransferError::Overflow,
        ),
{
}

/// A transfer whose `amount + cost` fits in 512 bits but exceeds the source
/// balance fails with `InsufficientPayment`.
pub proof fn lemma_uncovered_transfer_fails(
    balances: Seq<nat>,
    source: int,
    target: int,
    amount: nat,
    cost: nat,
)
    requires
        0 <= source < balances.len(),
        0 <= target < balances.len(),
        amount + cost < u512_bound(),
        balances[source] < amount + cost,
    ensures
        transfer_outcome(balances, source, target, amount, cost) == Err::<Seq<nat>, TransferError>(
            TransferError::InsufficientPayment,
        ),
{
}

/// The purse balances of one ledger snapshot; a purse is named by its index.
#[derive(Clone, Debug, PartialEq, Eq)]
pub struct PurseBalances {
    balances: Vec<U512>,
}

impl View for PurseBalances {
    type V = Seq<nat>;

    closed spec fn view(&self) -> Seq<nat> {
        self.balances@.map_values(|b: U512| b.value())
    }
}

impl PurseBalances {
    /// A snapshot holding the given balances, purse `i` holding `balances[i]`.
    pub fn new(balances: Vec<U512>) -> (r: PurseBalances)
        ensures
            r@ == balances@.map_values(|b: U512| b.value()),
    {
        PurseBalances { balances }
    }

    /// The number of purses.
    pub fn len(&self) -> (r: usize)
        ensures
            r == self@.len(),
    {
        self.balances.len()
    }

    /// The balance of purse `purse`, if it exists.
    pub fn balance(&self, purse: usize) -> (r: Option<U512>)
        ensures
            purse < self@.len() ==> (r matches Some(b) && b.value() == self@[purse as int]),
            purse >= self@.len() ==> r is None,
    {
        if purse < self.balances.len() {
            Some(self.balances[purse])
        } else {
            None
        }
    }

    fn set_balance(&mut self, purse: usize, b: U512)
        requires
            purse < old(self)@.len(),
        ensures
            final(self)@ == old(self)@.update(purse as int, b.value()),
    {
        self.balances.set(purse, b);
        assert(self@ =~= old(self)@.update(purse as int, b.value()));
    }

    /// Executes one native transfer of `amount` from purse `source` to purse
    /// `target`, charging the fixed `cost`.
    ///
    /// On success the source loses `amount + cost`, the target gains `amount`,
    /// and exactly one transfer is recorded. On failure nothing changes and no
    /// transfer is recorded.
    pub fn execute_transfer(
        &mut self,
        source: usize,
        target: usize,
        amount: U512,
        cost: U512,
        id: Option<u64>,
        deploy_hash: [u8; 32],
    ) -> (r: ExecutionResult)
        ensures
            match transfer_outcome(
                old(self)@,
                source as int,
                target as int,
                amount.value(),
                cost.value(),
            ) {
                Ok(after) => {
                    &&& final(self)@ == after
                    &&& r matches ExecutionResult::Success { transfers, cost: charged }
                    &&& charged == cost
                    &&& transfers@ == seq![(TransferRecord { deploy_hash, source, target, amount, id })]
                },
                Err(e) => {
                    &&& final(self)@ == old(self)@
                    &&& r matches ExecutionResult::Failure { error, transfers }
                    &&& error == e
                    &&& transfers@.len() == 0
                },
            },
    {
        if source >= self.balances.len() || target >= self.balances.len() {
            return ExecutionResult::Failure { error: TransferError::PurseNotFound, transfers: Vec::new() };
        }
        let total = match amount.checked_add(&cost) {
            Some(t) => t,
            None => {
                return ExecutionResult::Failure { error: TransferError::Overflow, transfers: Vec::new() };
            },
        };
        let source_balance = self.balances[source];
        let debited = match source_balance.checked_sub(&total) {
            Some(d) => d,
            None => {
                return ExecutionResult::Failure {
                    error: TransferError::InsufficientPayment,
                    transfers: Vec::new(),
                };
            },
        };
        proof {
            source_balance.lemma_value_in_range();
            assert(self@[source as int] == source_balance.value());
            assert(self@[target as int] == self.balances@[target as int].value());
        }
        let credited = if source == target {
            debited.checked_add(&amount)
        } else {
            self.balances[target].checked_add(&amount)
        };
        let credited = match credited {
            Some(c) => c,
            None => {
                return ExecutionResult::Failure { error: TransferError::Overflow, transfers: Vec::new() };
            },
        };
        self.set_balance(source, debited);
        self.set_balance(target, credited);
        ExecutionResult::Success {
            transfers: vec![TransferRecord { deploy_hash, source, target, amount, id }],
            cost,
        }
    }
}

} // verus!
