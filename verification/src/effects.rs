//! Errors and outbound token actions shared by every engine.
//!
//! An operation either fails with a [`TxError`] and leaves every ledger
//! untouched, or succeeds and hands the host a list of [`Action`] values to
//! perform against the token system.

use vstd::prelude::*;

verus! {

/// Why an operation was rejected.  A rejected operation never mutates state.
#[derive(Clone, Copy, Debug, PartialEq, Eq, Structural)]
pub enum TxError {
    /// A payment had the wrong token class, a required payment was missing,
    /// or an amount was below the required minimum.
    Validation,
    /// The operation was attempted in the wrong state (joining a staged game,
    /// claiming with no pending request, re-requesting while one is pending).
    StateConflict,
    /// A claim was attempted before the minimum delay had elapsed.
    TemporalGate,
    /// The token system cannot satisfy the requested burn.
    InsufficientSupply,
}

impl TxError {
    /// The diagnostic an aborted operation reports to the caller.
    pub fn describe(&self) -> (r: &'static str)
        ensures
            *self == TxError::Validation ==> r@ == "a payment failed validation"@,
            *self == TxError::StateConflict ==> r@ == "the operation is not allowed in this state"@,
            *self == TxError::TemporalGate ==> r@ == "the minimum delay has not elapsed"@,
            *self == TxError::InsufficientSupply ==> r@ == "the token balance cannot cover this"@,
    {
        match self {
            TxError::Validation => "a payment failed validation",
            TxError::StateConflict => "the operation is not allowed in this state",
            TxError::TemporalGate => "the minimum delay has not elapsed",
            TxError::InsufficientSupply => "the token balance cannot cover this",
        }
    }
}

/// The capability flags a newly issued fungible token is configured with.
#[derive(Clone, Copy, Debug, PartialEq, Eq, Structural)]
pub struct TokenProperties {
    pub can_freeze: bool,
    pub can_wipe: bool,
    pub can_pause: bool,
    pub can_mint: bool,
    pub can_burn: bool,
    pub can_change_owner: bool,
    pub can_upgrade: bool,
    pub can_add_special_roles: bool,
}

/// An outbound token operation for the host to perform.  The engines only
/// decide; the host executes.
#[derive(Debug, PartialEq, Eq)]
pub enum Action {
    /// Mint `amount` units of `(token, nonce)` into the contract account.
    MintTokens { token: Vec<u8>, nonce: u64, amount: u64 },
    /// Burn `amount` units of `(token, nonce)` from the contract account.
    BurnTokens { token: Vec<u8>, nonce: u64, amount: u64 },
    /// Transfer `amount` units of `(token, nonce)` to account `to`.
    SendTokens { to: u64, token: Vec<u8>, nonce: u64, amount: u64 },
    /// Transfer `amount` of the native currency to account `to`.
    SendCurrency { to: u64, amount: u64 },
    /// Overwrite the attribute bytes of the non-fungible `(token, nonce)`.
    SetTokenAttributes { token: Vec<u8>, nonce: u64, attributes: Vec<u8> },
    /// Ask the token system to issue a new fungible token.
    IssueToken { name: Vec<u8>, ticker: Vec<u8>, supply: u128, cost: u64, properties: TokenProperties },
}

/// Mathematical model of an [`Action`].
pub enum ActionModel {
    MintTokens { token: Seq<u8>, nonce: u64, amount: u64 },
    BurnTokens { token: Seq<u8>, nonce: u64, amount: u64 },
    SendTokens { to: u64, token: Seq<u8>, nonce: u64, amount: u64 },
    SendCurrency { to: u64, amount: u64 },
    SetTokenAttributes { token: Seq<u8>, nonce: u64, attributes: Seq<u8> },
    IssueToken { name: Seq<u8>, ticker: Seq<u8>, supply: u128, cost: u64, properties: TokenProperties },
}

impl View for Action {
    type V = ActionModel;

    open spec fn view(&self) -> ActionModel {
        match self {
            Action::MintTokens { token, nonce, amount } => ActionModel::MintTokens {
                token: token@,
                nonce: *nonce,
                amount: *amount,
            },
            Action::BurnTokens { token, nonce, amount } => ActionModel::BurnTokens {
                token: token@,
                nonce: *nonce,
                amount: *amount,
            },
            Action::SendTokens { to, token, nonce, amount } => ActionModel::SendTokens {
                to: *to,
                token: token@,
                nonce: *nonce,
                amount: *amount,
            },
            Action::SendCurrency { to, amount } => ActionModel::SendCurrency {
                to: *to,
                amount: *amount,
            },
            Action::SetTokenAttributes { token, nonce, attributes } => ActionModel::SetTokenAttributes {
                token: token@,
                nonce: *nonce,
                attributes: attributes@,
            },
            Action::IssueToken { name, ticker, supply, cost, properties } => ActionModel::IssueToken {
                name: name@,
                ticker: ticker@,
                supply: *supply,
                cost: *cost,
                properties: *properties,
            },
        }
    }
}

/// The models of a list of actions, in order.
pub open spec fn action_models(s: Seq<Action>) -> Seq<ActionModel> {
    s.map_values(|a: Action| a@)
}

/// Whether `r` is a failure with exactly the error `e`.
pub open spec fn fails_with<T>(r: Result<T, TxError>, e: TxError) -> bool {
    match r {
        Result::Ok(_) => false,
        Result::Err(a) => a == e,
    }
}

} // verus!
