use game_economy::citizen::CitizenNftMintingSc;
use game_economy::effects::{Action, TxError};
use game_economy::ore::OreMintingSc;
use game_economy::tokens::Payment;
use game_economy::tools::ToolNftMintingSc;

fn pay(token: &[u8], nonce: u64, amount: u64) -> Payment {
    Payment { token: token.to_vec(), nonce, amount }
}

#[test]
fn ore_request_and_claim_flow() {
    let mut sc = OreMintingSc::new();
    // The paid stone is burned: the whole total, under the last stone
    // identifier of the batch.
    let payments = vec![pay(b"STONE-11", 0, 12), pay(b"STONE-22", 0, 8)];
    let acts = sc.request_mint_ore(7, 1000, &payments).unwrap();
    assert_eq!(
        acts,
        vec![Action::BurnTokens { token: b"STONE-22".to_vec(), nonce: 0, amount: 20 }]
    );

    // One second before the hour has passed: rejected, nothing minted.
    assert_eq!(sc.claim_ore(7, 4599), Err(TxError::TemporalGate));
    // Exactly at the hour mark the ore is minted and sent.
    let acts = sc.claim_ore(7, 4600).unwrap();
    assert_eq!(
        acts,
        vec![
            Action::MintTokens { token: b"ORE".to_vec(), nonce: 0, amount: 1 },
            Action::SendTokens { to: 7, token: b"ORE".to_vec(), nonce: 0, amount: 1 },
        ]
    );
    // An immediate second claim finds no request and mints nothing again.
    assert_eq!(sc.claim_ore(7, 4600), Err(TxError::StateConflict));
}

#[test]
fn ore_request_rejects_foreign_and_short_batches() {
    let mut sc = OreMintingSc::new();
    let r = sc.request_mint_ore(7, 1000, &vec![pay(b"GOLD-11", 0, 50)]);
    assert_eq!(r, Err(TxError::Validation));
    let r = sc.request_mint_ore(7, 1000, &vec![pay(b"STONE-11", 0, 19)]);
    assert_eq!(r, Err(TxError::Validation));
    // Neither attempt left a pending request behind.
    assert_eq!(sc.claim_ore(7, u64::MAX), Err(TxError::StateConflict));
}

#[test]
fn ore_request_burns_the_paid_identifier() {
    let mut sc = OreMintingSc::new();
    let acts = sc.request_mint_ore(8, 1000, &vec![pay(b"STONE-ab12cd", 0, 25)]).unwrap();
    assert_eq!(
        acts,
        vec![Action::BurnTokens { token: b"STONE-ab12cd".to_vec(), nonce: 0, amount: 25 }]
    );
}

#[test]
fn ore_request_rejects_second_request_while_pending() {
    let mut sc = OreMintingSc::new();
    sc.request_mint_ore(7, 1000, &vec![pay(b"STONE-11", 0, 20)]).unwrap();
    let r = sc.request_mint_ore(7, 2000, &vec![pay(b"STONE-11", 0, 20)]);
    assert_eq!(r, Err(TxError::StateConflict));
}

#[test]
fn shield_request_with_one_ore_burns_nothing() {
    // One unit of the required input where the minimum is two: the request
    // fails, no burn occurs and no request is recorded.
    let mut sc = ToolNftMintingSc::new();
    let r = sc.request_mint_shield(5, 1000, &vec![pay(b"ORE-11", 0, 1)]);
    assert_eq!(r, Err(TxError::Validation));
    assert_eq!(sc.claim_shield(5, u64::MAX), Err(TxError::StateConflict));
}

#[test]
fn shield_request_and_claim_flow() {
    let mut sc = ToolNftMintingSc::new();
    let acts = sc.request_mint_shield(5, 1000, &vec![pay(b"ORE-11", 0, 2)]).unwrap();
    assert_eq!(
        acts,
        vec![Action::BurnTokens { token: b"ORE-11".to_vec(), nonce: 0, amount: 2 }]
    );
    assert_eq!(sc.claim_shield(5, 4599), Err(TxError::TemporalGate));
    let acts = sc.claim_shield(5, 4600).unwrap();
    assert_eq!(
        acts,
        vec![
            Action::MintTokens { token: b"SHIELD".to_vec(), nonce: 1, amount: 1 },
            Action::SendTokens { to: 5, token: b"SHIELD".to_vec(), nonce: 1, amount: 1 },
        ]
    );
    assert_eq!(sc.claim_shield(5, 4600), Err(TxError::StateConflict));
}

#[test]
fn sword_request_and_claim_flow() {
    let mut sc = ToolNftMintingSc::new();
    let payments = vec![pay(b"GOLD-77", 0, 1), pay(b"ORE-11", 0, 2), pay(b"ORE-11", 0, 1)];
    let acts = sc.request_mint_sword(5, 1000, &payments).unwrap();
    assert_eq!(
        acts,
        vec![
            Action::BurnTokens { token: b"GOLD-77".to_vec(), nonce: 0, amount: 1 },
            Action::BurnTokens { token: b"ORE-11".to_vec(), nonce: 0, amount: 3 },
        ]
    );
    let acts = sc.claim_sword(5, 4600).unwrap();
    assert_eq!(
        acts,
        vec![
            Action::MintTokens { token: b"SWORD".to_vec(), nonce: 1, amount: 1 },
            Action::SendTokens { to: 5, token: b"SWORD".to_vec(), nonce: 1, amount: 1 },
        ]
    );
}

#[test]
fn sword_request_rejects_missing_class() {
    let mut sc = ToolNftMintingSc::new();
    // Enough ore, but no gold at all.
    let r = sc.request_mint_sword(5, 1000, &vec![pay(b"ORE-11", 0, 3)]);
    assert_eq!(r, Err(TxError::Validation));
}

#[test]
fn citizen_request_and_claim_flow() {
    let mut sc = CitizenNftMintingSc::new();
    let payments = vec![pay(b"WOOD-aa", 0, 10), pay(b"FOOD-bb", 0, 15)];
    let acts = sc.request_mint_citizen(3, 500, &payments).unwrap();
    assert_eq!(
        acts,
        vec![
            Action::BurnTokens { token: b"WOOD-aa".to_vec(), nonce: 0, amount: 10 },
            Action::BurnTokens { token: b"FOOD-bb".to_vec(), nonce: 0, amount: 15 },
        ]
    );
    assert_eq!(sc.claim_citizen(3, 4099), Err(TxError::TemporalGate));
    let acts = sc.claim_citizen(3, 4100).unwrap();
    assert_eq!(
        acts,
        vec![
            Action::MintTokens { token: b"CITIZEN".to_vec(), nonce: 1, amount: 1 },
            Action::SendTokens { to: 3, token: b"CITIZEN".to_vec(), nonce: 1, amount: 1 },
        ]
    );
    assert_eq!(sc.claim_citizen(3, 4100), Err(TxError::StateConflict));
}

#[test]
fn citizen_request_rejects_bad_batches() {
    let mut sc = CitizenNftMintingSc::new();
    // Wood only: food is missing.
    let r = sc.request_mint_citizen(3, 500, &vec![pay(b"WOOD-aa", 0, 10)]);
    assert_eq!(r, Err(TxError::Validation));
    // Insufficient wood.
    let r = sc.request_mint_citizen(
        3,
        500,
        &vec![pay(b"WOOD-aa", 0, 9), pay(b"FOOD-bb", 0, 15)],
    );
    assert_eq!(r, Err(TxError::Validation));
    // A foreign token rejects the whole batch.
    let r = sc.request_mint_citizen(
        3,
        500,
        &vec![pay(b"WOOD-aa", 0, 10), pay(b"FOOD-bb", 0, 15), pay(b"GOLD-cc", 0, 1)],
    );
    assert_eq!(r, Err(TxError::Validation));
}

#[test]
fn soldier_upgrade_request_and_claim_flow() {
    let mut sc = CitizenNftMintingSc::new();
    let payments = vec![pay(b"GOLD-aa", 0, 5), pay(b"ORE-bb", 0, 5)];
    let acts = sc.request_upgrade_to_soldier(3, 500, 42, &payments).unwrap();
    assert_eq!(
        acts,
        vec![
            Action::BurnTokens { token: b"GOLD-aa".to_vec(), nonce: 0, amount: 5 },
            Action::BurnTokens { token: b"ORE-bb".to_vec(), nonce: 0, amount: 5 },
        ]
    );
    let acts = sc.claim_soldier(3, 4100, 42).unwrap();
    assert_eq!(
        acts,
        vec![Action::SetTokenAttributes {
            token: b"CITIZEN".to_vec(),
            nonce: 42,
            attributes: b"type:SOLDIER".to_vec(),
        }]
    );
    assert_eq!(sc.claim_soldier(3, 4100, 42), Err(TxError::StateConflict));
}

#[test]
fn shield_upgrade_consumes_shield_and_rewrites_attributes() {
    let mut sc = CitizenNftMintingSc::new();
    let citizen = b"CITIZEN".to_vec();
    let shield = b"SHIELD".to_vec();
    let payments = vec![pay(b"CITIZEN", 4, 1), pay(b"SHIELD", 9, 1)];
    let acts = sc
        .upgrade_soldier_with_shield(3, &payments, &citizen, 4, &shield, 9)
        .unwrap();
    assert_eq!(
        acts,
        vec![
            Action::BurnTokens { token: b"SHIELD".to_vec(), nonce: 9, amount: 1 },
            Action::SetTokenAttributes {
                token: b"CITIZEN".to_vec(),
                nonce: 4,
                attributes: b"defense:+1".to_vec(),
            },
        ]
    );
}

#[test]
fn shield_upgrade_rejects_wrong_batches() {
    let mut sc = CitizenNftMintingSc::new();
    let citizen = b"CITIZEN".to_vec();
    let shield = b"SHIELD".to_vec();
    // Only one non-fungible.
    let r = sc.upgrade_soldier_with_shield(3, &vec![pay(b"CITIZEN", 4, 1)], &citizen, 4, &shield, 9);
    assert_eq!(r, Err(TxError::Validation));
    // A token that is neither the citizen nor the shield.
    let r = sc.upgrade_soldier_with_shield(
        3,
        &vec![pay(b"CITIZEN", 4, 1), pay(b"SWORD", 9, 1)],
        &citizen,
        4,
        &shield,
        9,
    );
    assert_eq!(r, Err(TxError::Validation));
    // The citizen twice: the shield is missing.
    let r = sc.upgrade_soldier_with_shield(
        3,
        &vec![pay(b"CITIZEN", 4, 1), pay(b"CITIZEN", 4, 1)],
        &citizen,
        4,
        &shield,
        9,
    );
    assert_eq!(r, Err(TxError::Validation));
}

#[test]
fn sword_upgrade_consumes_sword_and_rewrites_attributes() {
    let mut sc = CitizenNftMintingSc::new();
    let soldier = b"CITIZEN".to_vec();
    let sword = b"SWORD".to_vec();
    let payments = vec![pay(b"SWORD", 9, 1), pay(b"CITIZEN", 4, 1)];
    let acts = sc
        .upgrade_soldier_with_sword(3, &payments, &soldier, 4, &sword, 9)
        .unwrap();
    assert_eq!(
        acts,
        vec![
            Action::BurnTokens { token: b"SWORD".to_vec(), nonce: 9, amount: 1 },
            Action::SetTokenAttributes {
                token: b"CITIZEN".to_vec(),
                nonce: 4,
                attributes: b"attack:+1".to_vec(),
            },
        ]
    );
}
