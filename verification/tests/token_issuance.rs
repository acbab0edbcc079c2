use game_economy::effects::{Action, TokenProperties, TxError};
use game_economy::snow::{generate_random_token_name, IssueTokenSnowSc, ISSUE_COST};
use game_economy::stakes::StakeEntry;

fn props() -> TokenProperties {
    TokenProperties {
        can_freeze: false,
        can_wipe: false,
        can_pause: true,
        can_mint: true,
        can_burn: true,
        can_change_owner: false,
        can_upgrade: true,
        can_add_special_roles: true,
    }
}

#[test]
fn get_decimals_is_fixed() {
    let sc = IssueTokenSnowSc::new();
    assert_eq!(sc.get_decimals(), 8);
}

#[test]
fn issue_scales_the_supply_by_the_decimals() {
    let sc = IssueTokenSnowSc::new();
    let acts = sc
        .issue_token_snow(ISSUE_COST, b"MYTOKEN".to_vec(), 5, props(), 11, 22)
        .unwrap();
    assert_eq!(
        acts,
        vec![Action::IssueToken {
            name: b"MYTOKEN".to_vec(),
            ticker: b"SNOW".to_vec(),
            supply: 500_000_000u128,
            cost: ISSUE_COST,
            properties: props(),
        }]
    );
}

#[test]
fn issue_rejects_short_fee_and_zero_supply() {
    let sc = IssueTokenSnowSc::new();
    let r = sc.issue_token_snow(ISSUE_COST - 1, b"T".to_vec(), 5, props(), 0, 0);
    assert_eq!(r, Err(TxError::Validation));
    let r = sc.issue_token_snow(ISSUE_COST, b"T".to_vec(), 0, props(), 0, 0);
    assert_eq!(r, Err(TxError::Validation));
}

#[test]
fn issue_generates_a_name_when_none_is_given() {
    let sc = IssueTokenSnowSc::new();
    // Seed 0: every five-bit group is 0, so every character is '0'.
    let acts = sc
        .issue_token_snow_and_transfer(ISSUE_COST, Vec::new(), 1, props(), 0, 0)
        .unwrap();
    match &acts[0] {
        Action::IssueToken { name, .. } => assert_eq!(name, b"00000000"),
        other => panic!("unexpected action {:?}", other),
    }
}

#[test]
fn generated_names_map_five_bit_groups_to_digits_and_letters() {
    assert_eq!(generate_random_token_name(0, 0), b"00000000".to_vec());
    // Seed 10: low group is 10, which maps to 'A'; the rest are 0.
    assert_eq!(generate_random_token_name(10, 0), b"A0000000".to_vec());
    // The two sources are combined by xor: 10 ^ 10 = 0.
    assert_eq!(generate_random_token_name(10, 10), b"00000000".to_vec());
    // Seed 9: low group stays a digit.
    assert_eq!(generate_random_token_name(8, 1), b"90000000".to_vec());
}

#[test]
fn callback_success_credits_the_caller() {
    let mut sc = IssueTokenSnowSc::new();
    let acts = sc.esdt_issue_callback(3, true, Some(b"SNOW-123456".to_vec()), 700);
    assert_eq!(
        acts,
        vec![Action::SendTokens { to: 3, token: b"SNOW-123456".to_vec(), nonce: 0, amount: 700 }]
    );
    let balances = sc.get_account_tokens(3);
    assert_eq!(
        balances,
        vec![StakeEntry { owner: 3, token: b"SNOW-123456".to_vec(), amount: 700 }]
    );
    // A second settlement accumulates on the same token.
    sc.esdt_issue_callback(3, true, Some(b"SNOW-123456".to_vec()), 300);
    let balances = sc.get_account_tokens(3);
    assert_eq!(
        balances,
        vec![StakeEntry { owner: 3, token: b"SNOW-123456".to_vec(), amount: 1000 }]
    );
    // Another account sees nothing.
    assert_eq!(sc.get_account_tokens(4), vec![]);
}

#[test]
fn callback_failure_refunds_attached_currency() {
    let mut sc = IssueTokenSnowSc::new();
    let acts = sc.esdt_issue_callback(3, false, None, 55);
    assert_eq!(acts, vec![Action::SendCurrency { to: 3, amount: 55 }]);
    assert_eq!(sc.get_account_tokens(3), vec![]);
}

#[test]
fn callback_failure_without_currency_does_nothing() {
    let mut sc = IssueTokenSnowSc::new();
    let acts = sc.esdt_issue_callback(3, false, Some(b"SNOW-123456".to_vec()), 55);
    assert_eq!(acts, vec![]);
    let acts = sc.esdt_issue_callback(3, false, None, 0);
    assert_eq!(acts, vec![]);
}

#[test]
fn burn_checks_the_contract_balance() {
    let sc = IssueTokenSnowSc::new();
    let r = sc.burn_token(&b"SNOW-123456".to_vec(), 100, 99);
    assert_eq!(r, Err(TxError::InsufficientSupply));
    let acts = sc.burn_token(&b"SNOW-123456".to_vec(), 100, 100).unwrap();
    assert_eq!(
        acts,
        vec![Action::BurnTokens { token: b"SNOW-123456".to_vec(), nonce: 0, amount: 100 }]
    );
}
