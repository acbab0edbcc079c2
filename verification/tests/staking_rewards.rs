use game_economy::effects::{Action, TxError};
use game_economy::resource::ResourceMintingSc;
use game_economy::staking::WinterStakingSc;
use game_economy::tokens::Payment;

fn pay(token: &[u8], nonce: u64, amount: u64) -> Payment {
    Payment { token: token.to_vec(), nonce, amount }
}

#[test]
fn stake_and_claim_reward_once_per_day() {
    // Staking 1000 units, waiting the full cooldown, then accruing mints
    // floor(1000 / 100) = 10 reward tokens exactly once; a second immediate
    // call fails with no mint.
    let mut sc = WinterStakingSc::new();
    sc.stake_token_winter(1, 5, 1000, &vec![pay(b"WINTER-aa", 0, 1000)]).unwrap();

    // Cooldown runs from the first-stake anchor (timestamp 1000).
    assert_eq!(sc.claim_rewards(1, 1000 + 86399), Err(TxError::TemporalGate));
    let acts = sc.claim_rewards(1, 1000 + 86400).unwrap();
    assert_eq!(
        acts,
        vec![
            Action::MintTokens { token: b"SNOW-ab6b96".to_vec(), nonce: 0, amount: 10 },
            Action::SendTokens { to: 1, token: b"SNOW-ab6b96".to_vec(), nonce: 0, amount: 10 },
        ]
    );
    assert_eq!(sc.claim_rewards(1, 1000 + 86400), Err(TxError::TemporalGate));
}

#[test]
fn reward_is_floored_per_stake_entry() {
    let mut sc = WinterStakingSc::new();
    // 199 / 100 and 150 / 100 floor separately: 1 + 1, not 3.
    let payments = vec![pay(b"WINTER-aa", 0, 199), pay(b"WINTER-bb", 0, 150)];
    sc.stake_token_winter(1, 5, 0, &payments).unwrap();
    let acts = sc.claim_rewards(1, 86400).unwrap();
    assert_eq!(
        acts[0],
        Action::MintTokens { token: b"SNOW-ab6b96".to_vec(), nonce: 0, amount: 2 }
    );
}

#[test]
fn stake_accumulates_per_token() {
    let mut sc = WinterStakingSc::new();
    sc.stake_token_winter(1, 5, 0, &vec![pay(b"WINTER-aa", 0, 600)]).unwrap();
    sc.stake_token_winter(1, 6, 10, &vec![pay(b"WINTER-aa", 0, 400)]).unwrap();
    let acts = sc.claim_rewards(1, 86400).unwrap();
    assert_eq!(
        acts[0],
        Action::MintTokens { token: b"SNOW-ab6b96".to_vec(), nonce: 0, amount: 10 }
    );
}

#[test]
fn stake_rejects_bad_batches() {
    let mut sc = WinterStakingSc::new();
    assert_eq!(sc.stake_token_winter(1, 5, 0, &vec![]), Err(TxError::Validation));
    let r = sc.stake_token_winter(1, 5, 0, &vec![pay(b"SUMMER-aa", 0, 10)]);
    assert_eq!(r, Err(TxError::Validation));
    let r = sc.stake_token_winter(1, 5, 0, &vec![pay(b"WINTER-aa", 0, 0)]);
    assert_eq!(r, Err(TxError::Validation));
    // A foreign token in the middle rejects the whole batch: nothing staked.
    let r = sc.stake_token_winter(
        1,
        5,
        0,
        &vec![pay(b"WINTER-aa", 0, 500), pay(b"SUMMER-bb", 0, 1)],
    );
    assert_eq!(r, Err(TxError::Validation));
    assert_eq!(sc.claim_rewards(1, 86400), Err(TxError::Validation));
}

#[test]
fn claim_without_stake_pays_nothing() {
    let mut sc = WinterStakingSc::new();
    // The cooldown is over (no last claim recorded) but no reward is owed.
    assert_eq!(sc.claim_rewards(9, 86400), Err(TxError::Validation));
}

#[test]
fn rewards_go_to_the_beneficiary_once_set() {
    let mut sc = WinterStakingSc::new();
    assert_eq!(sc.set_beneficiary(1, 1), Err(TxError::Validation));
    sc.set_beneficiary(1, 2).unwrap();
    sc.stake_token_winter(1, 5, 0, &vec![pay(b"WINTER-aa", 0, 1000)]).unwrap();
    let acts = sc.claim_rewards(1, 86400).unwrap();
    assert_eq!(
        acts[1],
        Action::SendTokens { to: 2, token: b"SNOW-ab6b96".to_vec(), nonce: 0, amount: 10 }
    );
}

#[test]
fn resource_mint_and_claim_flow() {
    let mut sc = ResourceMintingSc::new(b"WOOD-contract".to_vec());
    sc.stake_winter(4, 100, &vec![pay(b"WINTER-aa", 0, 2000)]).unwrap();

    // The wood gate is 600 rounds from the first-stake anchor (round 100).
    assert_eq!(sc.mint_resources(4, 699), Err(TxError::TemporalGate));
    sc.mint_resources(4, 700).unwrap();

    // Minting again before claiming is a state conflict.
    assert_eq!(sc.mint_resources(4, 10000), Err(TxError::StateConflict));

    let acts = sc.claim_resources(4).unwrap();
    assert_eq!(
        acts,
        vec![
            Action::MintTokens { token: b"WOOD-contract".to_vec(), nonce: 0, amount: 2 },
            Action::SendTokens { to: 4, token: b"WOOD-contract".to_vec(), nonce: 0, amount: 2 },
        ]
    );
    assert_eq!(sc.claim_resources(4), Err(TxError::StateConflict));
}

#[test]
fn resource_round_gates_scale_by_contract_class() {
    let mut gold = ResourceMintingSc::new(b"GOLD-contract".to_vec());
    gold.stake_winter(4, 0, &vec![pay(b"WINTER-aa", 0, 1000)]).unwrap();
    assert_eq!(gold.mint_resources(4, 2399), Err(TxError::TemporalGate));
    gold.mint_resources(4, 2400).unwrap();
}

#[test]
fn resource_mint_rejects_unknown_contract_class() {
    let mut sc = ResourceMintingSc::new(b"OPAL-contract".to_vec());
    sc.stake_winter(4, 0, &vec![pay(b"WINTER-aa", 0, 2000)]).unwrap();
    assert_eq!(sc.mint_resources(4, 10000), Err(TxError::Validation));
}

#[test]
fn resource_mint_rejects_dust_stakes() {
    // 500 staked units yield floor(500 / 1000) = 0: nothing to mint.
    let mut sc = ResourceMintingSc::new(b"STONE-contract".to_vec());
    sc.stake_winter(4, 0, &vec![pay(b"WINTER-aa", 0, 500)]).unwrap();
    assert_eq!(sc.mint_resources(4, 1800), Err(TxError::Validation));
}
