//! The instruction set of one era step, and its defaulted builder.

use vstd::prelude::*;

verus! {

/// The digest that identifies one immutable snapshot of the ledger.
#[derive(Clone, Copy, Debug, PartialEq, Eq)]
pub struct StateRoot {
    pub bytes: [u8; 32],
}

impl StateRoot {
    /// The all-zero digest.
    pub fn zero() -> (r: StateRoot)
        ensures
            forall|i: int| 0 <= i < 32 ==> r.bytes@[i] == 0u8,
    {
        StateRoot { bytes: [0u8; 32] }
    }
}

/// A protocol version, `major.minor.patch`.
#[derive(Clone, Copy, Debug, PartialEq, Eq)]
pub struct ProtocolVersion {
    pub major: u32,
    pub minor: u32,
    pub patch: u32,
}

impl ProtocolVersion {
    /// The default version, 0.0.0.
    pub fn default_version() -> (r: ProtocolVersion)
        ensures
            r == (ProtocolVersion { major: 0, minor: 0, patch: 0 }),
    {
        ProtocolVersion { major: 0, minor: 0, patch: 0 }
    }
}

/// Slash the validator `validator_id`.
#[derive(Clone, Copy, Debug, PartialEq, Eq)]
pub struct SlashItem {
    pub validator_id: u64,
}

/// Credit `value` to the stake of the validator `validator_id`.
#[derive(Clone, Copy, Debug, PartialEq, Eq)]
pub struct RewardItem {
    pub validator_id: u64,
    pub value: u64,
}

/// What a step request holds, as mathematical values.
pub struct StepRequestView {
    pub parent_state_hash: StateRoot,
    pub protocol_version: ProtocolVersion,
    pub slash_items: Seq<SlashItem>,
    pub reward_items: Seq<RewardItem>,
    pub run_auction: bool,
    pub next_era_id: u64,
}

/// The instruction set of one era step. Slash and reward items are applied in
/// the order in which they stand.
#[derive(Clone, Debug, PartialEq, Eq)]
pub struct StepRequest {
    pub parent_state_hash: StateRoot,
    pub protocol_version: ProtocolVersion,
    pub slash_items: Vec<SlashItem>,
    pub reward_items: Vec<RewardItem>,
    pub run_auction: bool,
    pub next_era_id: u64,
}

impl View for StepRequest {
    type V = StepRequestView;

    open spec fn view(&self) -> StepRequestView {
        StepRequestView {
            parent_state_hash: self.parent_state_hash,
            protocol_version: self.protocol_version,
            slash_items: self.slash_items@,
            reward_items: self.reward_items@,
            run_auction: self.run_auction,
            next_era_id: self.next_era_id,
        }
    }
}

/// Whether `v` is the request that a builder with no setters called gives:
/// zero digest, version 0.0.0, no slash or reward items, the auction run, era 0.
pub open spec fn is_default_request(v: StepRequestView) -> bool {
    &&& v.parent_state_hash.bytes@ == Seq::new(32, |i: int| 0u8)
    &&& v.protocol_version == (ProtocolVersion { major: 0, minor: 0, patch: 0 })
    &&& v.slash_items.len() == 0
    &&& v.reward_items.len() == 0
    &&& v.run_auction
    &&& v.next_era_id == 0
}

/// Setting the parent state hash of a request.
pub open spec fn set_parent_state_hash(v: StepRequestView, h: StateRoot) -> StepRequestView {
    StepRequestView { parent_state_hash: h, ..v }
}

/// Setting the protocol version of a request.
pub open spec fn set_protocol_version(v: StepRequestView, p: ProtocolVersion) -> StepRequestView {
    StepRequestView { protocol_version: p, ..v }
}

/// Setting whether a request runs the auction.
pub open spec fn set_run_auction(v: StepRequestView, b: bool) -> StepRequestView {
    StepRequestView { run_auction: b, ..v }
}

/// Setting the era a request selects validators for.
pub open spec fn set_next_era_id(v: StepRequestView, e: u64) -> StepRequestView {
    StepRequestView { next_era_id: e, ..v }
}

/// Builds a `StepRequest` field by field from defaults.
#[derive(Clone, Debug)]
pub struct StepRequestBuilder {
    request: StepRequest,
}

impl View for StepRequestBuilder {
    type V = StepRequestView;

    closed spec fn view(&self) -> StepRequestView {
        self.request@
    }
}

impl Default for StepRequestBuilder {
    fn default() -> (r: StepRequestBuilder)
        ensures
            is_default_request(r@),
    {
        let r = StepRequestBuilder {
            request: StepRequest {
                parent_state_hash: StateRoot { bytes: [0u8; 32] },
                protocol_version: ProtocolVersion::default_version(),
                slash_items: Vec::new(),
                reward_items: Vec::new(),
                run_auction: true,
                next_era_id: 0,
            },
        };
        assert(r@.parent_state_hash.bytes@ =~= Seq::new(32, |i: int| 0u8));
        r
    }
}

impl StepRequestBuilder {
    /// A builder holding the defaults.
    pub fn new() -> (r: StepRequestBuilder)
        ensures
            is_default_request(r@),
    {
        StepRequestBuilder::default()
    }

    pub fn with_parent_state_hash(self, parent_state_hash: StateRoot) -> (r: StepRequestBuilder)
        ensures
            r@ == set_parent_state_hash(self@, parent_state_hash),
    {
        let mut b = self;
        b.request.parent_state_hash = parent_state_hash;
        b
    }

    pub fn with_protocol_version(self, protocol_version: ProtocolVersion) -> (r: StepRequestBuilder)
        ensures
            r@ == set_protocol_version(self@, protocol_version),
    {
        let mut b = self;
        b.request.protocol_version = protocol_version;
        b
    }

    /// Appends a slash item after those already given.
    pub fn with_slash_item(self, slash_item: SlashItem) -> (r: StepRequestBuilder)
        ensures
            r@ == (StepRequestView { slash_items: self@.slash_items.push(slash_item), ..self@ }),
    {
        let mut b = self;
        b.request.slash_items.push(slash_item);
        b
    }

    /// Appends a reward item after those already given.
    pub fn with_reward_item(self, reward_item: RewardItem) -> (r: StepRequestBuilder)
        ensures
            r@ == (StepRequestView { reward_items: self@.reward_items.push(reward_item), ..self@ }),
    {
        let mut b = self;
        b.request.reward_items.push(reward_item);
        b
    }

    pub fn with_run_auction(self, run_auction: bool) -> (r: StepRequestBuilder)
        ensures
            r@ == set_run_auction(self@, run_auction),
    {
        let mut b = self;
        b.request.run_auction = run_auction;
        b
    }

    pub fn with_next_era_id(self, next_era_id: u64) -> (r: StepRequestBuilder)
        ensures
            r@ == set_next_era_id(self@, next_era_id),
    {
        let mut b = self;
        b.request.next_era_id = next_era_id;
        b
    }

    /// The request holding what was set, defaults elsewhere.
    pub fn build(self) -> (r: StepRequest)
        ensures
            r@ == self@,
    {
        self.request
    }
}

/// Setters of different fields commute, and of two calls of one setter the
/// later wins: a built request depends only on the last value given to each
/// field (and on the order of the slash and of the reward items).
pub proof fn lemma_setters_commute_and_overwrite(
    v: StepRequestView,
    h1: StateRoot,
    h2: StateRoot,
    p1: ProtocolVersion,
    p2: ProtocolVersion,
    b1: bool,
    b2: bool,
    e1: u64,
    e2: u64,
)
    ensures
        set_parent_state_hash(set_parent_state_hash(v, h1), h2) == set_parent_state_hash(v, h2),
        set_protocol_version(set_protocol_version(v, p1), p2) == set_protocol_version(v, p2),
        set_run_auction(set_run_auction(v, b1), b2) == set_run_auction(v, b2),
        set_next_era_id(set_next_era_id(v, e1), e2) == set_next_era_id(v, e2),
        set_run_auction(set_next_era_id(v, e1), b1) == set_next_era_id(set_run_auction(v, b1), e1),
        set_run_auction(set_parent_state_hash(v, h1), b1) == set_parent_state_hash(
            set_run_auction(v, b1),
            h1,
        ),
        set_next_era_id(set_parent_state_hash(v, h1), e1) == set_parent_state_hash(
            set_next_era_id(v, e1),
            h1,
        ),
        set_protocol_version(set_parent_state_hash(v, h1), p1) == set_parent_state_hash(
            set_protocol_version(v, p1),
            h1,
        ),
        set_protocol_version(set_run_auction(v, b1), p1) == set_run_auction(
            set_protocol_version(v, p1),
            b1,
        ),
        set_protocol_version(set_next_era_id(v, e1), p1) == set_next_era_id(
            set_protocol_version(v, p1),
            e1,
        ),
{
}

} // verus!
