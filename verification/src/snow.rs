//! The token-issuance engine: issue a new fungible token against a fee,
//! settle the asynchronous issuance result, track per-user balances of the
//! issued tokens, and burn from the contract's own balance.

use vstd::prelude::*;

use vstd::arithmetic::mul::lemma_mul_inequality;
use vstd::string::{StrSliceExecFns, StringSliceAdditionalSpecFns};

use crate::effects::{action_models, Action, ActionModel, TokenProperties, TxError};
use crate::stakes::{
    stake_of, stakes_total, stakes_wf, token_amounts_entries, StakeEntry, TokenLedger,
};
use crate::tokens::clone_bytes;

verus! {

/// The fee an issuance must pay, in the smallest currency unit.
pub const ISSUE_COST: u64 = 50_000_000_000_000_000;

/// The fixed number of decimals of an issued token.
pub const TOKEN_DECIMALS: usize = 8;

/// `10 ^ n`.
pub open spec fn pow10(n: nat) -> nat
    decreases n,
{
    if n == 0 {
        1
    } else {
        10 * pow10((n - 1) as nat)
    }
}

proof fn lemma_pow10_pos(n: nat)
    ensures
        pow10(n) >= 1,
    decreases n,
{
    if n > 0 {
        lemma_pow10_pos((n - 1) as nat);
    }
}

proof fn lemma_pow10_mono(i: nat, j: nat)
    requires
        i <= j,
    ensures
        pow10(i) <= pow10(j),
    decreases j,
{
    if i < j {
        lemma_pow10_mono(i, (j - 1) as nat);
        lemma_pow10_pos((j - 1) as nat);
    }
}

proof fn lemma_pow10_eight()
    ensures
        pow10(8) == 100000000,
{
    assert(pow10(0) == 1);
    assert(pow10(1) == 10);
    assert(pow10(2) == 100);
    assert(pow10(3) == 1000);
    assert(pow10(4) == 10000);
    assert(pow10(5) == 100000);
    assert(pow10(6) == 1000000);
    assert(pow10(7) == 10000000);
    assert(pow10(8) == 100000000);
}

/// `10 ^ n` (executable form, for the supply scale).
pub fn pow10_u128(n: usize) -> (r: u128)
    requires
        n <= 8,
    ensures
        r == pow10(n as nat),
{
    let mut r: u128 = 1;
    let mut i: usize = 0;
    while i < n
        invariant
            i <= n <= 8,
            r == pow10(i as nat),
        decreases n - i,
    {
        proof {
            lemma_pow10_mono(i as nat, 7);
            lemma_pow10_eight();
            assert(pow10(7) == 10000000);
        }
        r = r * 10;
        i += 1;
    }
    r
}

/// The ticker every issued token carries.
pub open spec fn snow_ticker() -> Seq<u8> {
    "SNOW".spec_bytes()
}

/// The on-chain supply of an issued token: the requested supply scaled by
/// the fixed number of decimals.
pub open spec fn scaled_supply(initial_supply: u64) -> int {
    initial_supply * pow10(8)
}

/// One character of a generated token name: five bits of the seed, mapped
/// onto the digits and upper-case letters.
pub open spec fn name_char(seed: u64, i: u64) -> u8
    recommends
        i < 8,
{
    let idx = ((seed >> (i * 5)) & 0x1F) % 36;
    if idx <= 9 {
        (48 + idx) as u8
    } else {
        (65 + (idx - 10)) as u8
    }
}

/// The eight-character token name generated from a seed.
pub open spec fn token_name_of(seed: u64) -> Seq<u8> {
    Seq::new(8, |i: int| name_char(seed, i as u64))
}

/// The name an issuance uses: the requested one, or, when it is empty, one
/// generated from the block nonce and timestamp.
pub open spec fn issue_name(requested: Seq<u8>, block_nonce: u64, block_timestamp: u64) -> Seq<
    u8,
> {
    if requested.len() == 0 {
        token_name_of(block_nonce ^ block_timestamp)
    } else {
        requested
    }
}

/// Generate a token name from the block nonce and timestamp: eight
/// characters, each drawn from five bits of the xor of the two.
pub fn generate_random_token_name(block_nonce: u64, block_timestamp: u64) -> (r: Vec<u8>)
    ensures
        r@ =~= token_name_of(block_nonce ^ block_timestamp),
{
    let seed: u64 = block_nonce ^ block_timestamp;
    let mut name: Vec<u8> = Vec::new();
    let mut i: usize = 0;
    while i < 8
        invariant
            i <= 8,
            name@.len() == i,
            forall|j: int| 0 <= j < i ==> name@[j] == name_char(seed, j as u64),
        decreases 8 - i,
    {
        let shift: u64 = (i as u64) * 5;
        let idx: u64 = ((seed >> shift) & 0x1F) % 36;
        let c: u8 = if idx <= 9 {
            48 + (idx as u8)
        } else {
            65 + ((idx - 10) as u8)
        };
        proof {
            assert(c == name_char(seed, i as u64));
        }
        name.push(c);
        i += 1;
    }
    name
}

/// Issue new fungible tokens and track the per-user balances they settle
/// into.
pub struct IssueTokenSnowSc {
    pub issued_tokens: TokenLedger,
}

impl IssueTokenSnowSc {
    /// Engine well-formedness.
    pub open spec fn wf(&self) -> bool {
        stakes_wf(self.issued_tokens@)
    }

    /// A fresh engine with no issued tokens.
    pub fn new() -> (r: IssueTokenSnowSc)
        ensures
            r.wf(),
            r.issued_tokens@ =~= Seq::<crate::stakes::StakeEntryModel>::empty(),
    {
        IssueTokenSnowSc { issued_tokens: TokenLedger::new() }
    }

    /// The fixed number of decimals for issued tokens.
    pub fn get_decimals(&self) -> (r: usize)
        ensures
            r == TOKEN_DECIMALS,
    {
        8
    }

    /// Ask the token system to issue a fungible token: the payment must
    /// cover the issue cost and the supply must be positive; an empty name
    /// is replaced by one generated from the block nonce and timestamp.
    ///
    /// Fails with `Validation`, changing nothing, when the fee is short or
    /// the supply is zero.
    pub fn issue_token_snow(
        &self,
        payment: u64,
        token_name: Vec<u8>,
        initial_supply: u64,
        properties: TokenProperties,
        block_nonce: u64,
        block_timestamp: u64,
    ) -> (r: Result<Vec<Action>, TxError>)
        ensures
            r is Ok <==> (payment >= ISSUE_COST && initial_supply > 0),
            r matches Err(e) ==> e == TxError::Validation,
            r matches Ok(acts) ==> action_models(acts@) =~= seq![
                ActionModel::IssueToken {
                    name: issue_name(token_name@, block_nonce, block_timestamp),
                    ticker: snow_ticker(),
                    supply: scaled_supply(initial_supply) as u128,
                    cost: ISSUE_COST,
                    properties,
                },
            ],
    {
        if payment < ISSUE_COST {
            return Err(TxError::Validation);
        }
        let name = if token_name.len() == 0 {
            generate_random_token_name(block_nonce, block_timestamp)
        } else {
            token_name
        };
        if initial_supply == 0 {
            return Err(TxError::Validation);
        }
        let scale = pow10_u128(self.get_decimals());
        proof {
            lemma_pow10_eight();
            lemma_mul_inequality(initial_supply as int, u64::MAX as int, 100000000);
        }
        let adjusted_supply = (initial_supply as u128) * scale;
        let mut acts: Vec<Action> = Vec::new();
        acts.push(
            Action::IssueToken {
                name,
                ticker: "SNOW".as_bytes_vec(),
                supply: adjusted_supply,
                cost: ISSUE_COST,
                properties,
            },
        );
        proof {
            assert(action_models(acts@) =~= seq![
                ActionModel::IssueToken {
                    name: issue_name(token_name@, block_nonce, block_timestamp),
                    ticker: snow_ticker(),
                    supply: scaled_supply(initial_supply) as u128,
                    cost: ISSUE_COST,
                    properties,
                },
            ]);
        }
        Ok(acts)
    }

    /// Like [`Self::issue_token_snow`], for the flow where the host
    /// registers [`Self::esdt_issue_callback`] as the continuation of the
    /// issuance call and hands the issued tokens back through it.
    pub fn issue_token_snow_and_transfer(
        &self,
        payment: u64,
        token_name: Vec<u8>,
        initial_supply: u64,
        properties: TokenProperties,
        block_nonce: u64,
        block_timestamp: u64,
    ) -> (r: Result<Vec<Action>, TxError>)
        ensures
            r is Ok <==> (payment >= ISSUE_COST && initial_supply > 0),
            r matches Err(e) ==> e == TxError::Validation,
            r matches Ok(acts) ==> action_models(acts@) =~= seq![
                ActionModel::IssueToken {
                    name: issue_name(token_name@, block_nonce, block_timestamp),
                    ticker: snow_ticker(),
                    supply: scaled_supply(initial_supply) as u128,
                    cost: ISSUE_COST,
                    properties,
                },
            ],
    {
        self.issue_token_snow(
            payment,
            token_name,
            initial_supply,
            properties,
            block_nonce,
            block_timestamp,
        )
    }

    /// Settle the result of an issuance call.  On success the returned
    /// tokens go to the requesting caller and the caller's balance is
    /// credited; on failure an attached currency amount, if any, is
    /// refunded.
    ///
    /// On success the host hands back the freshly issued token, so
    /// `returned_token` is then present.
    pub fn esdt_issue_callback(
        &mut self,
        caller: u64,
        success: bool,
        returned_token: Option<Vec<u8>>,
        returned_amount: u64,
    ) -> (r: Vec<Action>)
        requires
            old(self).wf(),
            success ==> returned_token is Some,
            success ==> stakes_total(old(self).issued_tokens@) + returned_amount <= u64::MAX,
        ensures
            final(self).wf(),
            success ==> action_models(r@) =~= seq![
                ActionModel::SendTokens {
                    to: caller,
                    token: returned_token->0@,
                    nonce: 0,
                    amount: returned_amount,
                },
            ],
            success ==> stake_of(final(self).issued_tokens@, caller, returned_token->0@) as int
                == stake_of(old(self).issued_tokens@, caller, returned_token->0@)
                + returned_amount,
            success ==> forall|o2: u64, t: Seq<u8>|
                !(o2 == caller && t == returned_token->0@) ==> stake_of(
                    final(self).issued_tokens@,
                    o2,
                    t,
                ) == stake_of(old(self).issued_tokens@, o2, t),
            !success ==> final(self).issued_tokens@ == old(self).issued_tokens@,
            (!success && returned_token is None && returned_amount > 0) ==> action_models(r@)
                =~= seq![ActionModel::SendCurrency { to: caller, amount: returned_amount }],
            (!success && !(returned_token is None && returned_amount > 0)) ==> r@.len() == 0,
    {
        let mut acts: Vec<Action> = Vec::new();
        if success {
            let token = match returned_token {
                Some(t) => t,
                None => {
                    proof {
                        assert(false);
                    }
                    Vec::new()
                },
            };
            acts.push(
                Action::SendTokens {
                    to: caller,
                    token: clone_bytes(&token),
                    nonce: 0,
                    amount: returned_amount,
                },
            );
            self.update_user_balance(caller, &token, returned_amount);
        } else {
            if returned_token.is_none() && returned_amount > 0 {
                acts.push(Action::SendCurrency { to: caller, amount: returned_amount });
            }
        }
        acts
    }

    /// Burn tokens from the contract's own balance.
    ///
    /// Fails with `InsufficientSupply`, changing nothing, when the
    /// contract's balance does not cover the amount.
    pub fn burn_token(&self, token_ticker: &Vec<u8>, amount: u64, contract_balance: u64) -> (r:
        Result<Vec<Action>, TxError>)
        ensures
            r is Ok <==> contract_balance >= amount,
            r matches Err(e) ==> e == TxError::InsufficientSupply,
            r matches Ok(acts) ==> action_models(acts@) =~= seq![
                ActionModel::BurnTokens { token: token_ticker@, nonce: 0, amount },
            ],
    {
        if contract_balance < amount {
            return Err(TxError::InsufficientSupply);
        }
        let mut acts: Vec<Action> = Vec::new();
        acts.push(Action::BurnTokens { token: clone_bytes(token_ticker), nonce: 0, amount });
        proof {
            assert(action_models(acts@) =~= seq![
                ActionModel::BurnTokens { token: token_ticker@, nonce: 0, amount },
            ]);
        }
        Ok(acts)
    }

    /// The issued-token balances of `user_address`, in ledger order.
    pub fn get_account_tokens(&self, user_address: u64) -> (r: Vec<StakeEntry>)
        ensures
            r@.map_values(|e: StakeEntry| e@) =~= token_amounts_entries(
                self.issued_tokens@,
                user_address,
            ),
    {
        self.issued_tokens.tokens_of(user_address)
    }

    /// Credit `amount` of `token_identifier` to `user_address`.
    pub fn update_user_balance(
        &mut self,
        user_address: u64,
        token_identifier: &Vec<u8>,
        amount: u64,
    )
        requires
            old(self).wf(),
            stakes_total(old(self).issued_tokens@) + amount <= u64::MAX,
        ensures
            final(self).wf(),
            stake_of(final(self).issued_tokens@, user_address, token_identifier@) as int
                == stake_of(old(self).issued_tokens@, user_address, token_identifier@) + amount,
            forall|o2: u64, t: Seq<u8>|
                !(o2 == user_address && t == token_identifier@) ==> stake_of(
                    final(self).issued_tokens@,
                    o2,
                    t,
                ) == stake_of(old(self).issued_tokens@, o2, t),
            stakes_total(final(self).issued_tokens@) == stakes_total(old(self).issued_tokens@)
                + amount,
    {
        self.issued_tokens.add(user_address, token_identifier, amount);
    }
}

} // verus!
