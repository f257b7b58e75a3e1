//! The era step: slashing, then rewards, then (optionally) the auction that
//! picks the next era's validators. A step either applies in full, giving a
//! new auction state, or fails and leaves the parent state as it was.

use vstd::prelude::*;
use crate::amount::{U512, u512_bound};
use crate::step_request::{RewardItem, SlashItem, StepRequest, StepRequestView};

verus! {

/// Why a step was aborted.
#[derive(Clone, Copy, Debug, PartialEq, Eq)]
pub enum StepError {
    /// A slash or reward item names a validator with no bid.
    UnknownValidator(u64),
    /// A reward would take a stake past the 512-bit range.
    RewardOverflow(u64),
}

/// A validator's bid, as mathematical values.
pub struct BidModel {
    pub validator_id: u64,
    pub stake: nat,
    pub slashed: bool,
}

/// A validator's bid: its bonded stake, and whether it has been slashed.
#[derive(Clone, Copy, Debug, PartialEq, Eq)]
pub struct ValidatorBid {
    pub validator_id: u64,
    pub staked: U512,
    pub slashed: bool,
}

impl ValidatorBid {
    /// This bid as mathematical values.
    pub open spec fn model(&self) -> BidModel {
        BidModel { validator_id: self.validator_id, stake: self.staked.value(), slashed: self.slashed }
    }
}

/// Bids as mathematical values.
pub open spec fn bids_model(bids: Seq<ValidatorBid>) -> Seq<BidModel> {
    bids.map_values(|b: ValidatorBid| b.model())
}

/// Some bid belongs to validator `id`.
pub open spec fn has_bid(bids: Seq<BidModel>, id: u64) -> bool {
    exists|i: int| 0 <= i < bids.len() && bids[i].validator_id == id
}

/// A bid after slashing `id`.
pub open spec fn slashed_bid(b: BidModel, id: u64) -> BidModel {
    if b.validator_id == id {
        BidModel { validator_id: b.validator_id, stake: 0, slashed: true }
    } else {
        b
    }
}

/// A bid after rewarding `id` with `value`.
pub open spec fn rewarded_bid(b: BidModel, id: u64, value: nat) -> BidModel {
    if b.validator_id == id {
        BidModel { validator_id: b.validator_id, stake: b.stake + value, slashed: b.slashed }
    } else {
        b
    }
}

/// Slashing `id`: every bid of it loses its whole stake and is marked slashed.
/// A bid already slashed stays as it is.
pub open spec fn slash_one(bids: Seq<BidModel>, id: u64) -> Result<Seq<BidModel>, StepError> {
    if !has_bid(bids, id) {
        Err(StepError::UnknownValidator(id))
    } else {
        Ok(bids.map_values(|b: BidModel| slashed_bid(b, id)))
    }
}

/// Rewarding `id` with `value`: every bid of it gains `value`, unless one of
/// them would leave the 512-bit range.
pub open spec fn reward_one(bids: Seq<BidModel>, id: u64, value: nat) -> Result<
    Seq<BidModel>,
    StepError,
> {
    if !has_bid(bids, id) {
        Err(StepError::UnknownValidator(id))
    } else if exists|i: int|
        0 <= i < bids.len() && bids[i].validator_id == id && bids[i].stake + value >= u512_bound() {
        Err(StepError::RewardOverflow(id))
    } else {
        Ok(bids.map_values(|b: BidModel| rewarded_bid(b, id, value)))
    }
}

/// The slash items applied in order; the first failure aborts.
pub open spec fn apply_slashes(bids: Seq<BidModel>, items: Seq<SlashItem>) -> Result<
    Seq<BidModel>,
    StepError,
>
    decreases items.len(),
{
    if items.len() == 0 {
        Ok(bids)
    } else {
        match apply_slashes(bids, items.drop_last()) {
            Ok(b) => slash_one(b, items.last().validator_id),
            Err(e) => Err(e),
        }
    }
}

/// The reward items applied in order; the first failure aborts.
pub open spec fn apply_rewards(bids: Seq<BidModel>, items: Seq<RewardItem>) -> Result<
    Seq<BidModel>,
    StepError,
>
    decreases items.len(),
{
    if items.len() == 0 {
        Ok(bids)
    } else {
        match apply_rewards(bids, items.drop_last()) {
            Ok(b) => reward_one(b, items.last().validator_id, items.last().value as nat),
            Err(e) => Err(e),
        }
    }
}

/// The bids after the slash items, then the reward items, of a request.
pub open spec fn step_bids(bids: Seq<BidModel>, req: StepRequestView) -> Result<
    Seq<BidModel>,
    StepError,
> {
    match apply_slashes(bids, req.slash_items) {
        Ok(b) => apply_rewards(b, req.reward_items),
        Err(e) => Err(e),
    }
}

/// A bid that can be picked by the auction: present and not slashed.
pub open spec fn eligible(bids: Seq<BidModel>, i: int) -> bool {
    0 <= i < bids.len() && !bids[i].slashed
}

/// Bid `i` ranks above bid `j`: a larger stake, then a smaller validator id,
/// then an earlier position.
pub open spec fn ranks_above(bids: Seq<BidModel>, i: int, j: int) -> bool {
    ||| bids[i].stake > bids[j].stake
    ||| bids[i].stake == bids[j].stake && bids[i].validator_id < bids[j].validator_id
    ||| bids[i].stake == bids[j].stake && bids[i].validator_id == bids[j].validator_id && i < j
}

/// Bid `i` is the best eligible bid not yet picked.
pub open spec fn is_next_pick(bids: Seq<BidModel>, picked: Seq<int>, i: int) -> bool {
    &&& eligible(bids, i)
    &&& !picked.contains(i)
    &&& forall|j: int|
        eligible(bids, j) && !picked.contains(j) && j != i ==> #[trigger] ranks_above(bids, i, j)
}

/// The positions of the bids the auction picks for `slots` slots, best first.
pub open spec fn auction_picks(bids: Seq<BidModel>, slots: nat) -> Seq<int>
    decreases slots,
{
    if slots == 0 {
        Seq::empty()
    } else {
        let prev = auction_picks(bids, (slots - 1) as nat);
        if exists|i: int| is_next_pick(bids, prev, i) {
            prev.push(choose|i: int| is_next_pick(bids, prev, i))
        } else {
            prev
        }
    }
}

/// The validators the auction picks for `slots` slots, best first.
pub open spec fn auction_winners(bids: Seq<BidModel>, slots: nat) -> Seq<u64> {
    auction_picks(bids, slots).map_values(|i: int| bids[i].validator_id)
}

/// Once no bid is left to pick, more slots pick nothing more.
proof fn lemma_picks_stable(bids: Seq<BidModel>, k: nat, n: nat)
    requires
        k <= n,
        !exists|i: int| is_next_pick(bids, auction_picks(bids, k), i),
    ensures
        auction_picks(bids, n) == auction_picks(bids, k),
    decreases n,
{
    if n > k {
        lemma_picks_stable(bids, k, (n - 1) as nat);
    }
}

spec fn positions(p: Seq<usize>) -> Seq<int> {
    p.map_values(|i: usize| i as int)
}

/// Picks the next era's validators: the `slots` eligible bids of largest stake
/// (ties to the smaller validator id), best first.
pub fn select_validators(bids: &Vec<ValidatorBid>, slots: u64) -> (r: Vec<u64>)
    ensures
        r@ == auction_winners(bids_model(bids@), slots as nat),
{
    let ghost m = bids_model(bids@);
    let mut chosen: Vec<bool> = Vec::new();
    let mut t: usize = 0;
    while t < bids.len()
        invariant
            0 <= t <= bids@.len(),
            chosen@.len() == t,
            forall|x: int| 0 <= x < t ==> !chosen@[x],
        decreases bids.len() - t,
    {
        chosen.push(false);
        t += 1;
    }
    let mut picks: Vec<usize> = Vec::new();
    let mut ids: Vec<u64> = Vec::new();
    let mut k: u64 = 0;
    while k < slots
        invariant
            m == bids_model(bids@),
            m.len() == bids@.len(),
            chosen@.len() == m.len(),
            k <= slots,
            positions(picks@) == auction_picks(m, k as nat),
            ids@ == auction_winners(m, k as nat),
            forall|x: int| 0 <= x < m.len() ==> (chosen@[x] <==> positions(picks@).contains(x)),
            forall|x: int| #[trigger] positions(picks@).contains(x) ==> 0 <= x < m.len(),
        decreases slots - k,
    {
        let ghost picked = positions(picks@);
        let mut best: Option<usize> = None;
        let mut j: usize = 0;
        while j < bids.len()
            invariant
                m == bids_model(bids@),
                m.len() == bids@.len(),
                chosen@.len() == m.len(),
                0 <= j <= bids@.len(),
                picked == positions(picks@),
                forall|x: int| 0 <= x < m.len() ==> (chosen@[x] <==> picked.contains(x)),
                match best {
                    None => forall|x: int| 0 <= x < j && eligible(m, x) ==> chosen@[x],
                    Some(b) => {
                        &&& b < j
                        &&& eligible(m, b as int)
                        &&& !chosen@[b as int]
                        &&& forall|x: int|
                            0 <= x < j && x != b && eligible(m, x) && !chosen@[x] ==> ranks_above(
                                m,
                                b as int,
                                x,
                            )
                    },
                },
            decreases bids.len() - j,
        {
            assert(bids@[j as int].model() == m[j as int]);
            if !bids[j].slashed && !chosen[j] {
                match best {
                    None => {
                        best = Some(j);
                    },
                    Some(b) => {
                        assert(bids@[b as int].model() == m[b as int]);
                        let better = if bids[b].staked.lt(&bids[j].staked) {
                            true
                        } else if bids[j].staked.lt(&bids[b].staked) {
                            false
                        } else {
                            bids[j].validator_id < bids[b].validator_id
                        };
                        if better {
                            best = Some(j);
                        }
                    },
                }
            }
            j += 1;
        }
        match best {
            None => {
                proof {
                    assert(!exists|i: int| is_next_pick(m, picked, i));
                    lemma_picks_stable(m, k as nat, slots as nat);
                }
                k = slots;
            },
            Some(b) => {
                proof {
                    assert(is_next_pick(m, picked, b as int));
                    assert forall|c: int| is_next_pick(m, picked, c) implies c == b as int by {
                        if c != b as int {
                            assert(ranks_above(m, b as int, c));
                            assert(ranks_above(m, c, b as int));
                        }
                    }
                    assert(auction_picks(m, (k + 1) as nat) == picked.push(b as int));
                }
                assert(bids@[b as int].model() == m[b as int]);
                picks.push(b);
                ids.push(bids[b].validator_id);
                chosen.set(b, true);
                proof {
                    assert(positions(picks@) =~= picked.push(b as int));
                    assert(ids@ =~= auction_winners(m, (k + 1) as nat));
                    assert forall|x: int| 0 <= x < m.len() implies (chosen@[x] <==> positions(
                        picks@,
                    ).contains(x)) by {
                        if x == b as int {
                            assert(positions(picks@)[picks@.len() - 1] == x);
                        } else if picked.contains(x) {
                            let w = choose|w: int| 0 <= w < picked.len() && picked[w] == x;
                            assert(positions(picks@)[w] == x);
                        } else {
                            if positions(picks@).contains(x) {
                                let w = choose|w: int|
                                    0 <= w < positions(picks@).len() && positions(picks@)[w] == x;
                                if w < picked.len() {
                                    assert(picked[w] == x);
                                }
                            }
                        }
                    }
                    assert forall|x: int| #[trigger] positions(picks@).contains(x) implies 0 <= x
                        < m.len() by {
                        let w = choose|w: int|
                            0 <= w < positions(picks@).len() && positions(picks@)[w] == x;
                        if w < picked.len() {
                            assert(picked[w] == x);
                            assert(picked.contains(x));
                        }
                    }
                }
                k += 1;
            },
        }
    }
    ids
}

/// Slashes every bid of `id` in place.
fn slash_bids(bids: &mut Vec<ValidatorBid>, id: u64) -> (r: Result<(), StepError>)
    ensures
        match slash_one(bids_model(old(bids)@), id) {
            Ok(m) => r is Ok && bids_model(final(bids)@) == m,
            Err(e) => r == Err::<(), StepError>(e),
        },
{
    let ghost m0 = bids_model(bids@);
    let mut found = false;
    let mut i: usize = 0;
    while i < bids.len()
        invariant
            bids@.len() == m0.len(),
            m0 == bids_model(old(bids)@),
            0 <= i <= bids@.len(),
            found == (exists|j: int| 0 <= j < i && m0[j].validator_id == id),
            forall|j: int| 0 <= j < i ==> bids@[j].model() == slashed_bid(m0[j], id),
            forall|j: int| i <= j < bids@.len() ==> bids@[j].model() == m0[j],
        decreases bids.len() - i,
    {
        assert(bids@[i as int].model() == m0[i as int]);
        if bids[i].validator_id == id {
            let b = ValidatorBid { validator_id: id, staked: U512::zero(), slashed: true };
            bids.set(i, b);
            found = true;
        }
        i += 1;
    }
    if found {
        assert(bids_model(bids@) =~= m0.map_values(|b: BidModel| slashed_bid(b, id)));
        Ok(())
    } else {
        Err(StepError::UnknownValidator(id))
    }
}

/// Rewards every bid of `id` with `value` in place.
fn reward_bids(bids: &mut Vec<ValidatorBid>, id: u64, value: u64) -> (r: Result<(), StepError>)
    ensures
        match reward_one(bids_model(old(bids)@), id, value as nat) {
            Ok(m) => r is Ok && bids_model(final(bids)@) == m,
            Err(e) => r == Err::<(), StepError>(e),
        },
{
    let ghost m0 = bids_model(bids@);
    let amount = U512::from_u64(value);
    let mut found = false;
    let mut i: usize = 0;
    while i < bids.len()
        invariant
            bids@.len() == m0.len(),
            m0 == bids_model(old(bids)@),
            amount.value() == value,
            0 <= i <= bids@.len(),
            found == (exists|j: int| 0 <= j < i && m0[j].validator_id == id),
            forall|j: int|
                0 <= j < i && m0[j].validator_id == id ==> m0[j].stake + value < u512_bound(),
            forall|j: int| 0 <= j < i ==> bids@[j].model() == rewarded_bid(m0[j], id, value as nat),
            forall|j: int| i <= j < bids@.len() ==> bids@[j].model() == m0[j],
        decreases bids.len() - i,
    {
        if bids[i].validator_id == id {
            let b = bids[i];
            assert(b.model() == m0[i as int]);
            match b.staked.checked_add(&amount) {
                Some(s) => {
                    bids.set(i, ValidatorBid { validator_id: id, staked: s, slashed: b.slashed });
                },
                None => {
                    return Err(StepError::RewardOverflow(id));
                },
            }
            found = true;
        }
        i += 1;
    }
    if found {
        assert(bids_model(bids@) =~= m0.map_values(|b: BidModel| rewarded_bid(b, id, value as nat)));
        Ok(())
    } else {
        Err(StepError::UnknownValidator(id))
    }
}

/// The auction bookkeeping of one ledger snapshot: the validators' bids, the
/// number of validator slots, and the validators picked for `era_id`.
#[derive(Clone, Debug, PartialEq, Eq)]
pub struct AuctionState {
    pub bids: Vec<ValidatorBid>,
    pub validator_slots: u64,
    pub era_id: u64,
    pub validators: Vec<u64>,
}

/// What a step gives from a parent state: the step's bids, with the validator
/// set re-picked for `next_era_id` when the auction runs and kept otherwise;
/// or the first error, with no new state.
pub open spec fn step_outcome(
    bids: Seq<BidModel>,
    validator_slots: u64,
    era_id: u64,
    validators: Seq<u64>,
    req: StepRequestView,
) -> Result<(Seq<BidModel>, u64, Seq<u64>), StepError> {
    match step_bids(bids, req) {
        Ok(b) => if req.run_auction {
            Ok((b, req.next_era_id, auction_winners(b, validator_slots as nat)))
        } else {
            Ok((b, era_id, validators))
        },
        Err(e) => Err(e),
    }
}

impl AuctionState {
    /// The bids, as mathematical values.
    pub open spec fn bids_view(&self) -> Seq<BidModel> {
        bids_model(self.bids@)
    }

    /// Applies one era step to this state, giving the child state. The slash
    /// items apply first, in order, then the reward items, in order, then the
    /// auction if the request runs it. Any failure aborts the whole step; this
    /// state is never changed.
    pub fn run_step(&self, request: &StepRequest) -> (r: Result<AuctionState, StepError>)
        ensures
            match step_outcome(
                self.bids_view(),
                self.validator_slots,
                self.era_id,
                self.validators@,
                request@,
            ) {
                Ok((b, era, vals)) => r matches Ok(s) && s.bids_view() == b && s.era_id == era
                    && s.validators@ == vals && s.validator_slots == self.validator_slots,
                Err(e) => r == Err::<AuctionState, StepError>(e),
            },
    {
        let mut bids = self.bids.clone();
        proof {
            assert(bids@ =~= self.bids@);
        }
        let ghost m0 = self.bids_view();
        let mut k: usize = 0;
        while k < request.slash_items.len()
            invariant
                m0 == self.bids_view(),
                0 <= k <= request.slash_items@.len(),
                apply_slashes(m0, request.slash_items@.subrange(0, k as int)) == Ok::<
                    Seq<BidModel>,
                    StepError,
                >(bids_model(bids@)),
            decreases request.slash_items.len() - k,
        {
            
            let ghost before = bids_model(bids@);
            let item = request.slash_items[k];
            let res = slash_bids(&mut bids, item.validator_id);
            proof {
                let items = request.slash_items@.subrange(0, k + 1);
                assert(items.drop_last() =~= request.slash_items@.subrange(0, k as int));
                assert(items.last() == item);
                assert(apply_slashes(m0, items) == slash_one(before, item.validator_id));
            }
            match res {
                Ok(()) => {},
                Err(e) => {
                    proof {
                        assert(apply_slashes(m0, request.slash_items@.subrange(0, k + 1)) == Err::<Seq<BidModel>, StepError>(e));
                        lemma_slash_error_stays(m0, request.slash_items@, (k + 1) as nat);
                        assert(apply_slashes(m0, request.slash_items@) == Err::<Seq<BidModel>, StepError>(e));
                        assert(step_bids(m0, request@) == Err::<Seq<BidModel>, StepError>(e));
                        assert(request.slash_items@.subrange(0, request.slash_items@.len() as int)
                            =~= request.slash_items@);
                    }
                    return Err(e);
                },
            }
            k += 1;
        }
        proof {
            assert(request.slash_items@.subrange(0, request.slash_items@.len() as int)
                =~= request.slash_items@);
        }
        let ghost m1 = bids_model(bids@);
        let mut k: usize = 0;
        while k < request.reward_items.len()
            invariant
                m0 == self.bids_view(),
                apply_slashes(m0, request.slash_items@) == Ok::<Seq<BidModel>, StepError>(m1),
                0 <= k <= request.reward_items@.len(),
                apply_rewards(m1, request.reward_items@.subrange(0, k as int)) == Ok::<
                    Seq<BidModel>,
                    StepError,
                >(bids_model(bids@)),
            decreases request.reward_items.len() - k,
        {
            let ghost before = bids_model(bids@);
            let item = request.reward_items[k];
            let res = reward_bids(&mut bids, item.validator_id, item.value);
            proof {
                let items = request.reward_items@.subrange(0, k + 1);
                assert(items.drop_last() =~= request.reward_items@.subrange(0, k as int));
                assert(items.last() == item);
                assert(apply_rewards(m1, items) == reward_one(before, item.validator_id, item.value as nat));
            }
            match res {
                Ok(()) => {},
                Err(e) => {
                    proof {
                        assert(apply_rewards(m1, request.reward_items@.subrange(0, k + 1)) == Err::<Seq<BidModel>, StepError>(e));
                        lemma_reward_error_stays(m1, request.reward_items@, (k + 1) as nat);
                        assert(request.reward_items@.subrange(0, request.reward_items@.len() as int)
                            =~= request.reward_items@);
                    }
                    return Err(e);
                },
            }
            k += 1;
        }
        proof {
            assert(request.reward_items@.subrange(0, request.reward_items@.len() as int)
                =~= request.reward_items@);
        }
        if request.run_auction {
            let validators = select_validators(&bids, self.validator_slots);
            Ok(
                AuctionState {
                    bids,
                    validator_slots: self.validator_slots,
                    era_id: request.next_era_id,
                    validators,
                },
            )
        } else {
            Ok(
                AuctionState {
                    bids,
                    validator_slots: self.validator_slots,
                    era_id: self.era_id,
                    validators: self.validators.clone(),
                },
            )
        }
    }
}

/// An error after the first `k` slash items is the error of all of them.
proof fn lemma_slash_error_stays(bids: Seq<BidModel>, items: Seq<SlashItem>, k: nat)
    requires
        k <= items.len(),
        apply_slashes(bids, items.subrange(0, k as int)) is Err,
    ensures
        apply_slashes(bids, items) == apply_slashes(bids, items.subrange(0, k as int)),
    decreases items.len() - k,
{
    if k < items.len() {
        let next = items.subrange(0, k + 1 as int);
        assert(next.drop_last() =~= items.subrange(0, k as int));
        lemma_slash_error_stays(bids, items, k + 1);
    } else {
        assert(items.subrange(0, k as int) =~= items);
    }
}

/// An error after the first `k` reward items is the error of all of them.
proof fn lemma_reward_error_stays(bids: Seq<BidModel>, items: Seq<RewardItem>, k: nat)
    requires
        k <= items.len(),
        apply_rewards(bids, items.subrange(0, k as int)) is Err,
    ensures
        apply_rewards(bids, items) == apply_rewards(bids, items.subrange(0, k as int)),
    decreases items.len() - k,
{
    if k < items.len() {
        let next = items.subrange(0, k + 1 as int);
        assert(next.drop_last() =~= items.subrange(0, k as int));
        lemma_reward_error_stays(bids, items, k + 1);
    } else {
        assert(items.subrange(0, k as int) =~= items);
    }
}

/// The order of two slash items never matters, also when they name the same
/// validator (both validators having bids).
pub proof fn lemma_slashes_commute(bids: Seq<BidModel>, x: u64, y: u64)
    requires
        has_bid(bids, x),
        has_bid(bids, y),
    ensures
        slash_one(bids, x) matches Ok(bx) && slash_one(bids, y) matches Ok(by) && slash_one(bx, y)
            == slash_one(by, x) && slash_one(bx, y) is Ok,
{
    let bx = bids.map_values(|b: BidModel| slashed_bid(b, x));
    let by = bids.map_values(|b: BidModel| slashed_bid(b, y));
    let i = choose|i: int| 0 <= i < bids.len() && bids[i].validator_id == x;
    let j = choose|j: int| 0 <= j < bids.len() && bids[j].validator_id == y;
    assert(bx[j].validator_id == y);
    assert(by[i].validator_id == x);
    assert(bx.map_values(|b: BidModel| slashed_bid(b, y)) =~= by.map_values(
        |b: BidModel| slashed_bid(b, x),
    ));
}

/// Two reward items for different validators give the same bids in either
/// order, when neither takes a stake past the 512-bit range.
pub proof fn lemma_rewards_of_different_validators_commute(
    bids: Seq<BidModel>,
    x: u64,
    vx: nat,
    y: u64,
    vy: nat,
)
    requires
        x != y,
        reward_one(bids, x, vx) is Ok,
        reward_one(bids, y, vy) is Ok,
    ensures
        reward_one(bids, x, vx) matches Ok(bx) && reward_one(bids, y, vy) matches Ok(by)
            && reward_one(bx, y, vy) == reward_one(by, x, vx) && reward_one(bx, y, vy) is Ok,
{
    let bx = bids.map_values(|b: BidModel| rewarded_bid(b, x, vx));
    let by = bids.map_values(|b: BidModel| rewarded_bid(b, y, vy));
    let i = choose|i: int| 0 <= i < bids.len() && bids[i].validator_id == x;
    let j = choose|j: int| 0 <= j < bids.len() && bids[j].validator_id == y;
    assert(bx[j].validator_id == y);
    assert(by[i].validator_id == x);
    assert(!exists|k: int|
        0 <= k < bx.len() && bx[k].validator_id == y && bx[k].stake + vy >= u512_bound()) by {
        if exists|k: int|
            0 <= k < bx.len() && bx[k].validator_id == y && bx[k].stake + vy >= u512_bound() {
            let k = choose|k: int|
                0 <= k < bx.len() && bx[k].validator_id == y && bx[k].stake + vy >= u512_bound();
            assert(bids[k].validator_id == y && bids[k].stake + vy >= u512_bound());
        }
    }
    assert(!exists|k: int|
        0 <= k < by.len() && by[k].validator_id == x && by[k].stake + vx >= u512_bound()) by {
        if exists|k: int|
            0 <= k < by.len() && by[k].validator_id == x && by[k].stake + vx >= u512_bound() {
            let k = choose|k: int|
                0 <= k < by.len() && by[k].validator_id == x && by[k].stake + vx >= u512_bound();
            assert(bids[k].validator_id == x && bids[k].stake + vx >= u512_bound());
        }
    }
    assert(bx.map_values(|b: BidModel| rewarded_bid(b, y, vy)) =~= by.map_values(
        |b: BidModel| rewarded_bid(b, x, vx),
    ));
}

/// The same request applied to the same parent state always gives the same
/// outcome: a step depends on nothing but its parent state and the request's
/// values, however the request was built.
pub proof fn lemma_step_deterministic(
    bids: Seq<BidModel>,
    validator_slots: u64,
    era_id: u64,
    validators: Seq<u64>,
    req1: StepRequestView,
    req2: StepRequestView,
)
    requires
        req1 == req2,
    ensures
        step_outcome(bids, validator_slots, era_id, validators, req1) == step_outcome(
            bids,
            validator_slots,
            era_id,
            validators,
            req2,
        ),
{
}

} // verus!
