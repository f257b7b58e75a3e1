use casper_core::amount::U512;
use casper_core::era_step::{select_validators, AuctionState, StepError, ValidatorBid};
use casper_core::step_request::{ProtocolVersion, RewardItem, SlashItem, StateRoot, StepRequestBuilder};

fn bid(validator_id: u64, stake: u64) -> ValidatorBid {
    ValidatorBid { validator_id, staked: U512::from_u64(stake), slashed: false }
}

fn state(slots: u64) -> AuctionState {
    AuctionState {
        bids: vec![bid(1, 100), bid(2, 300), bid(3, 200), bid(4, 300)],
        validator_slots: slots,
        era_id: 5,
        validators: vec![9],
    }
}

#[test]
fn builder_defaults() {
    let request = StepRequestBuilder::new().build();
    assert!(request.run_auction);
    assert!(request.slash_items.is_empty());
    assert!(request.reward_items.is_empty());
    assert_eq!(request.next_era_id, 0);
    assert_eq!(request.parent_state_hash, StateRoot::zero());
    assert_eq!(request.protocol_version, ProtocolVersion { major: 0, minor: 0, patch: 0 });
}

#[test]
fn builder_keeps_the_last_setting_and_item_order() {
    let root = StateRoot { bytes: [7u8; 32] };
    let a = StepRequestBuilder::new()
        .with_run_auction(false)
        .with_next_era_id(3)
        .with_next_era_id(4)
        .with_parent_state_hash(root)
        .with_protocol_version(ProtocolVersion { major: 1, minor: 2, patch: 3 })
        .with_slash_item(SlashItem { validator_id: 2 })
        .with_reward_item(RewardItem { validator_id: 1, value: 5 })
        .with_reward_item(RewardItem { validator_id: 3, value: 6 })
        .build();
    let b = StepRequestBuilder::new()
        .with_reward_item(RewardItem { validator_id: 1, value: 5 })
        .with_next_era_id(4)
        .with_slash_item(SlashItem { validator_id: 2 })
        .with_parent_state_hash(root)
        .with_protocol_version(ProtocolVersion { major: 1, minor: 2, patch: 3 })
        .with_reward_item(RewardItem { validator_id: 3, value: 6 })
        .with_run_auction(false)
        .build();
    assert_eq!(a, b);
    assert_eq!(a.next_era_id, 4);
    assert_eq!(a.reward_items[1].validator_id, 3);
    let parent = state(2);
    assert_eq!(parent.run_step(&a), parent.run_step(&b));
}

#[test]
fn auction_ranks_by_stake_then_validator_id() {
    let bids = vec![bid(1, 100), bid(4, 300), bid(3, 200), bid(2, 300)];
    assert_eq!(select_validators(&bids, 3), vec![2, 4, 3]);
    assert_eq!(select_validators(&bids, 10), vec![2, 4, 3, 1]);
    assert_eq!(select_validators(&bids, 0), Vec::<u64>::new());
}

#[test]
fn default_step_runs_the_auction() {
    let parent = state(2);
    let child = parent.run_step(&StepRequestBuilder::new().with_next_era_id(6).build()).unwrap();
    assert_eq!(child.validators, vec![2, 4]);
    assert_eq!(child.era_id, 6);
    assert_eq!(child.bids, parent.bids);
}

#[test]
fn step_without_auction_keeps_validators() {
    let parent = state(2);
    let request = StepRequestBuilder::new().with_run_auction(false).with_next_era_id(6).build();
    let child = parent.run_step(&request).unwrap();
    assert_eq!(child.validators, vec![9]);
    assert_eq!(child.era_id, 5);
}

#[test]
fn slashed_validator_loses_stake_and_seat() {
    let parent = state(2);
    let request = StepRequestBuilder::new()
        .with_slash_item(SlashItem { validator_id: 2 })
        .with_slash_item(SlashItem { validator_id: 2 })
        .build();
    let child = parent.run_step(&request).unwrap();
    assert_eq!(child.bids[1], ValidatorBid { validator_id: 2, staked: U512::zero(), slashed: true });
    assert_eq!(child.validators, vec![4, 3]);
}

#[test]
fn reward_after_slash_applies_to_slashed_stake() {
    let parent = state(3);
    let request = StepRequestBuilder::new()
        .with_slash_item(SlashItem { validator_id: 1 })
        .with_reward_item(RewardItem { validator_id: 1, value: 50 })
        .with_reward_item(RewardItem { validator_id: 3, value: 150 })
        .build();
    let child = parent.run_step(&request).unwrap();
    assert_eq!(child.bids[0].staked, U512::from_u64(50));
    assert_eq!(child.bids[2].staked, U512::from_u64(350));
    assert_eq!(child.validators, vec![3, 2, 4]);
}

#[test]
fn unknown_validator_aborts_the_step() {
    let parent = state(2);
    let slash = StepRequestBuilder::new().with_slash_item(SlashItem { validator_id: 8 }).build();
    assert_eq!(parent.run_step(&slash), Err(StepError::UnknownValidator(8)));
    let reward = StepRequestBuilder::new()
        .with_reward_item(RewardItem { validator_id: 1, value: 1 })
        .with_reward_item(RewardItem { validator_id: 9, value: 1 })
        .build();
    assert_eq!(parent.run_step(&reward), Err(StepError::UnknownValidator(9)));
    assert_eq!(parent, state(2));
}

#[test]
fn reward_past_the_range_aborts_the_step() {
    let parent = AuctionState {
        bids: vec![ValidatorBid { validator_id: 1, staked: U512::max_value(), slashed: false }],
        validator_slots: 1,
        era_id: 0,
        validators: vec![],
    };
    let request = StepRequestBuilder::new().with_reward_item(RewardItem { validator_id: 1, value: 1 }).build();
    assert_eq!(parent.run_step(&request), Err(StepError::RewardOverflow(1)));
}

#[test]
fn order_of_slashes_and_of_rewards_to_different_validators_does_not_matter() {
    let parent = state(2);
    let a = StepRequestBuilder::new()
        .with_slash_item(SlashItem { validator_id: 2 })
        .with_slash_item(SlashItem { validator_id: 4 })
        .with_reward_item(RewardItem { validator_id: 1, value: 10 })
        .with_reward_item(RewardItem { validator_id: 3, value: 20 })
        .build();
    let b = StepRequestBuilder::new()
        .with_slash_item(SlashItem { validator_id: 4 })
        .with_slash_item(SlashItem { validator_id: 2 })
        .with_reward_item(RewardItem { validator_id: 3, value: 20 })
        .with_reward_item(RewardItem { validator_id: 1, value: 10 })
        .build();
    let child = parent.run_step(&a).unwrap();
    assert_eq!(Ok(child.clone()), parent.run_step(&b));
    assert_eq!(child.validators, vec![3, 1]);
}
