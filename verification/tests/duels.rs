use game_economy::arena::{win_chance_initiator, ArenaSc, Soldier};
use game_economy::effects::{Action, TxError};

fn soldier(token: &[u8], nonce: u64, attack: u32, defense: u32) -> Soldier {
    Soldier { token_id: token.to_vec(), nonce, attack, defense }
}

#[test]
fn win_chance_exact_values() {
    // diff = 5 < 100: integer division floors the bonus to 0.
    assert_eq!(win_chance_initiator(15, 10), 50);
    assert_eq!(win_chance_initiator(0, 0), 50);
    assert_eq!(win_chance_initiator(510, 10), 55);
    assert_eq!(win_chance_initiator(10, 510), 45);
    // diff >= 5000 saturates at +-50.
    assert_eq!(win_chance_initiator(10000, 10), 100);
    assert_eq!(win_chance_initiator(10, 10000), 0);
    assert_eq!(win_chance_initiator(u64::MAX, 0), 100);
}

#[test]
fn win_chance_bounds_and_monotonic_samples() {
    let competitor = 300u64;
    let mut last = 0u64;
    for score in 0..1000u64 {
        let c = win_chance_initiator(score, competitor);
        assert!(c <= 100);
        if score > 0 {
            assert!(c >= last);
        }
        last = c;
    }
}

#[test]
fn duel_full_flow_initiator_wins() {
    let mut arena = ArenaSc::new();
    let id = b"g1".to_vec();
    arena
        .create_game(1, 100, &id, soldier(b"SOLDIER-aa", 7, 10, 5), 100)
        .unwrap();
    arena.join_game(2, 100, &id, soldier(b"SOLDIER-bb", 9, 5, 5)).unwrap();
    assert_eq!(arena.deposits.balance(1), 100);
    assert_eq!(arena.deposits.balance(2), 100);

    // chance is 50; random 0 gives 0 % 100 = 0 < 50: the initiator wins.
    let acts = arena.start_fight(&id, 0).unwrap();
    assert_eq!(
        acts,
        vec![
            Action::SendCurrency { to: 1, amount: 200 },
            Action::SendTokens { to: 1, token: b"SOLDIER-aa".to_vec(), nonce: 7, amount: 1 },
        ]
    );
    // Conservation: both escrow balances are drained by exactly the pot.
    assert_eq!(arena.deposits.balance(1), 0);
    assert_eq!(arena.deposits.balance(2), 0);
}

#[test]
fn duel_competitor_wins_on_high_draw() {
    let mut arena = ArenaSc::new();
    let id = b"g2".to_vec();
    arena.create_game(1, 150, &id, soldier(b"S-aa", 1, 10, 5), 100).unwrap();
    arena.join_game(2, 120, &id, soldier(b"S-bb", 2, 5, 5)).unwrap();
    // 99 % 100 = 99 >= 50: the competitor wins the whole pot.
    let acts = arena.start_fight(&id, 99).unwrap();
    assert_eq!(
        acts,
        vec![
            Action::SendCurrency { to: 2, amount: 270 },
            Action::SendTokens { to: 2, token: b"S-aa".to_vec(), nonce: 1, amount: 1 },
        ]
    );
}

#[test]
fn create_game_rejects_short_payment() {
    let mut arena = ArenaSc::new();
    let id = b"g".to_vec();
    let r = arena.create_game(1, 99, &id, soldier(b"S-aa", 1, 0, 0), 100);
    assert_eq!(r, Err(TxError::Validation));
    assert_eq!(arena.deposits.balance(1), 0);
}

#[test]
fn create_game_rejects_used_identifier() {
    let mut arena = ArenaSc::new();
    let id = b"g".to_vec();
    arena.create_game(1, 100, &id, soldier(b"S-aa", 1, 0, 0), 100).unwrap();
    let r = arena.create_game(3, 100, &id, soldier(b"S-cc", 3, 0, 0), 100);
    assert_eq!(r, Err(TxError::StateConflict));
}

#[test]
fn join_game_rejects_missing_and_staged_games() {
    let mut arena = ArenaSc::new();
    let id = b"g".to_vec();
    // Missing game.
    let r = arena.join_game(2, 100, &id, soldier(b"S-bb", 2, 0, 0));
    assert_eq!(r, Err(TxError::StateConflict));

    arena.create_game(1, 100, &id, soldier(b"S-aa", 1, 0, 0), 100).unwrap();
    // Short payment on an open game.
    let r = arena.join_game(2, 99, &id, soldier(b"S-bb", 2, 0, 0));
    assert_eq!(r, Err(TxError::Validation));

    arena.join_game(2, 100, &id, soldier(b"S-bb", 2, 0, 0)).unwrap();
    // Staged game: no third party may join, whatever it pays.
    let r = arena.join_game(3, 1000, &id, soldier(b"S-cc", 3, 0, 0));
    assert_eq!(r, Err(TxError::StateConflict));
}

#[test]
fn join_game_rejects_resolved_game() {
    let mut arena = ArenaSc::new();
    let id = b"g".to_vec();
    arena.create_game(1, 100, &id, soldier(b"S-aa", 1, 0, 0), 100).unwrap();
    arena.join_game(2, 100, &id, soldier(b"S-bb", 2, 0, 0)).unwrap();
    arena.start_fight(&id, 17).unwrap();
    let r = arena.join_game(3, 1000, &id, soldier(b"S-cc", 3, 0, 0));
    assert_eq!(r, Err(TxError::StateConflict));
}

#[test]
fn start_fight_rejects_open_missing_and_completed_games() {
    let mut arena = ArenaSc::new();
    let id = b"g".to_vec();
    // Missing game.
    assert_eq!(arena.start_fight(&id, 0), Err(TxError::StateConflict));

    arena.create_game(1, 100, &id, soldier(b"S-aa", 1, 0, 0), 100).unwrap();
    // Open game: no competitor yet.
    assert_eq!(arena.start_fight(&id, 0), Err(TxError::StateConflict));

    arena.join_game(2, 100, &id, soldier(b"S-bb", 2, 0, 0)).unwrap();
    arena.start_fight(&id, 0).unwrap();
    // Completed game: a second resolution must fail and pay nothing.
    assert_eq!(arena.start_fight(&id, 0), Err(TxError::StateConflict));
    assert_eq!(arena.deposits.balance(1), 0);
    assert_eq!(arena.deposits.balance(2), 0);
}

#[test]
fn errors_carry_a_diagnostic() {
    assert_eq!(TxError::Validation.describe(), "a payment failed validation");
    assert_eq!(
        TxError::StateConflict.describe(),
        "the operation is not allowed in this state"
    );
    assert_eq!(TxError::TemporalGate.describe(), "the minimum delay has not elapsed");
    assert_eq!(
        TxError::InsufficientSupply.describe(),
        "the token balance cannot cover this"
    );
}
