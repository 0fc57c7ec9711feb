use vstd::prelude::*;

use crate::error::LinkDropError;
use crate::ledger::{Ledger, PublicKey};
use crate::request::{
    build_account_request, has_some_option, request_actions, AccountCreationRequest,
    CreateAccountOptions, RequestAction,
};

verus! {

/// Gas attached to the continuation scheduled after an account creation.
pub const ON_CREATE_ACCOUNT_CALLBACK_GAS: u64 = 13_000_000_000_000;

/// The outcome of an awaited operation, as the host reports it to a continuation.
#[derive(Clone, Debug, PartialEq, Eq)]
pub enum PromiseResult {
    NotReady,
    Successful(Vec<u8>),
    Failed,
}

/// What the host tells an entry point about the call being executed.
#[derive(Clone, Debug, PartialEq, Eq)]
pub struct Invocation {
    /// The contract's own account.
    pub current_account_id: String,
    /// The account that made this call.
    pub predecessor_account_id: String,
    /// The key that signed the transaction this call belongs to.
    pub signer_account_pk: PublicKey,
    /// The funds attached to this call.
    pub attached_deposit: u128,
    /// The results of the operations this call was scheduled after.
    pub promise_results: Vec<PromiseResult>,
}

/// The continuation scheduled after a creation request, with the data it needs
/// to reconcile the outcome.
#[derive(Clone, Debug, PartialEq, Eq)]
pub enum Continuation {
    OnAccountCreated { predecessor_account_id: String, amount: u128 },
    OnAccountCreatedAndClaimed { amount: u128 },
}

/// A creation request to hand to the host, and the continuation to run after it.
#[derive(Clone, Debug, PartialEq, Eq)]
pub struct PendingCreation {
    pub request: AccountCreationRequest,
    pub callback: Continuation,
    pub callback_gas: u64,
}

/// A corrective or concluding action a continuation asks the host to perform.
#[derive(Clone, Debug, PartialEq, Eq)]
pub enum FollowUp {
    /// Send `amount` back to `receiver_id`.
    Refund { receiver_id: String, amount: u128 },
    /// Delete `public_key` from `account_id`.
    DeleteKey { account_id: String, public_key: PublicKey },
}

/// How a continuation resolved: whether the creation succeeded, and what follows.
#[derive(Clone, Debug, PartialEq, Eq)]
pub struct Resolution {
    pub succeeded: bool,
    pub follow_up: Option<FollowUp>,
}

/// What is known about a key.
#[derive(Clone, Copy, Debug, PartialEq, Eq, Structural)]
pub struct KeyInfo {
    pub balance: u128,
}

/// The contract's state: the balances reserved under keys.
pub struct LinkDrop {
    pub accounts: Ledger,
}

/// Whether the awaited operation succeeded: `Err` unless exactly one result is present.
pub open spec fn promise_outcome(results: Seq<PromiseResult>) -> Result<bool, LinkDropError> {
    if results.len() != 1 {
        Err(LinkDropError::MalformedCallback)
    } else {
        Ok(results[0] is Successful)
    }
}

/// Whether the call comes from the contract itself, as a continuation must.
pub open spec fn is_self_call(ctx: Invocation) -> bool {
    ctx.predecessor_account_id@ == ctx.current_account_id@
}

/// The outcome of the continuation of an advanced creation: a refund of `amount`
/// to `predecessor_account_id` when the creation failed.
pub open spec fn advanced_resolution(
    ctx: Invocation,
    predecessor_account_id: String,
    amount: u128,
) -> Result<Resolution, LinkDropError> {
    if !is_self_call(ctx) {
        Err(LinkDropError::UnauthorizedCallback)
    } else {
        match promise_outcome(ctx.promise_results@) {
            Err(e) => Err(e),
            Ok(true) => Ok(Resolution { succeeded: true, follow_up: None }),
            Ok(false) => Ok(
                Resolution {
                    succeeded: false,
                    follow_up: Some(FollowUp::Refund { receiver_id: predecessor_account_id, amount }),
                },
            ),
        }
    }
}

/// The outcome of the continuation of a claim: the signing key is deleted from the
/// contract's account when the creation succeeded.
pub open spec fn claim_resolution(ctx: Invocation) -> Result<Resolution, LinkDropError> {
    if !is_self_call(ctx) {
        Err(LinkDropError::UnauthorizedCallback)
    } else {
        match promise_outcome(ctx.promise_results@) {
            Err(e) => Err(e),
            Ok(true) => Ok(
                Resolution {
                    succeeded: true,
                    follow_up: Some(
                        FollowUp::DeleteKey {
                            account_id: ctx.current_account_id,
                            public_key: ctx.signer_account_pk,
                        },
                    ),
                },
            ),
            Ok(false) => Ok(Resolution { succeeded: false, follow_up: None }),
        }
    }
}

/// The actions that create a claimed account: fund it and give it the new key.
pub open spec fn claim_actions(amount: u128, new_public_key: PublicKey) -> Seq<RequestAction> {
    seq![
        RequestAction::CreateAccount,
        RequestAction::Transfer { amount },
        RequestAction::AddFullAccessKey { public_key: new_public_key },
    ]
}

/// `after` is `before` once the balance `amount` under `key` has been taken out to
/// fund a claim.
pub open spec fn claim_step(before: LinkDrop, after: LinkDrop, key: Seq<u8>, amount: u128) -> bool {
    &&& before.accounts@.contains_key(key)
    &&& amount == before.accounts@[key]
    &&& after.accounts@ == before.accounts@.remove(key)
    &&& after.accounts.total() == before.accounts.total() - amount
}

/// `after` is `before` once a claim of `amount` under `key` has resolved: unchanged
/// on success, the balance put back on failure.
pub open spec fn claim_resolution_step(
    before: LinkDrop,
    after: LinkDrop,
    key: Seq<u8>,
    amount: u128,
    succeeded: bool,
) -> bool {
    if succeeded {
        &&& after.accounts@ == before.accounts@
        &&& after.accounts.total() == before.accounts.total()
    } else {
        &&& after.accounts@ == before.accounts@.insert(key, amount)
        &&& after.accounts.total() == before.accounts.total() - (if before.accounts@.contains_key(
            key,
        ) {
            before.accounts@[key] as int
        } else {
            0
        }) + amount
    }
}

/// Reads the single result a continuation awaits.
pub fn is_promise_success(results: &Vec<PromiseResult>) -> (r: Result<bool, LinkDropError>)
    ensures
        r == promise_outcome(results@),
{
    if results.len() != 1 {
        return Err(LinkDropError::MalformedCallback);
    }
    match &results[0] {
        PromiseResult::Successful(_) => Ok(true),
        _ => Ok(false),
    }
}

impl LinkDrop {
    pub open spec fn wf(&self) -> bool {
        self.accounts.wf()
    }

    /// A contract with no reserved balance.
    pub fn new() -> (r: LinkDrop)
        ensures
            r.wf(),
            r.accounts@ == Map::<Seq<u8>, u128>::empty(),
            r.accounts.total() == 0,
    {
        LinkDrop { accounts: Ledger::new() }
    }

    /// Requests a new account set up as `options` say, funded with the attached
    /// deposit; the continuation refunds the caller if the creation fails.
    pub fn create_account_advanced(
        &mut self,
        ctx: Invocation,
        new_account_id: String,
        options: CreateAccountOptions,
    ) -> (r: Result<PendingCreation, LinkDropError>)
        ensures
            *final(self) == *old(self),
            match r {
                Ok(p) => {
                    &&& has_some_option(options)
                    &&& p.request.account_id == new_account_id
                    &&& p.request.actions@ == request_actions(ctx.attached_deposit, options)
                    &&& p.callback == (Continuation::OnAccountCreated {
                        predecessor_account_id: ctx.predecessor_account_id,
                        amount: ctx.attached_deposit,
                    })
                    &&& p.callback_gas == ON_CREATE_ACCOUNT_CALLBACK_GAS
                },
                Err(e) => !has_some_option(options) && e == LinkDropError::InvalidConfiguration,
            },
    {
        let amount = ctx.attached_deposit;
        match build_account_request(new_account_id, amount, options) {
            Ok(request) => Ok(
                PendingCreation {
                    request,
                    callback: Continuation::OnAccountCreated {
                        predecessor_account_id: ctx.predecessor_account_id,
                        amount,
                    },
                    callback_gas: ON_CREATE_ACCOUNT_CALLBACK_GAS,
                },
            ),
            Err(e) => Err(e),
        }
    }

    /// Redeems the balance reserved under the signing key: takes it out of the
    /// ledger and requests a new account funded with it and controlled by
    /// `new_public_key`.
    pub fn create_account_and_claim(
        &mut self,
        ctx: Invocation,
        new_account_id: String,
        new_public_key: PublicKey,
    ) -> (r: Result<PendingCreation, LinkDropError>)
        requires
            old(self).wf(),
        ensures
            final(self).wf(),
            match r {
                Ok(p) => {
                    let amount = old(self).accounts@[ctx.signer_account_pk@];
                    &&& claim_step(*old(self), *final(self), ctx.signer_account_pk@, amount)
                    &&& p.request.account_id == new_account_id
                    &&& p.request.actions@ == claim_actions(amount, new_public_key)
                    &&& p.callback == (Continuation::OnAccountCreatedAndClaimed { amount })
                    &&& p.callback_gas == ON_CREATE_ACCOUNT_CALLBACK_GAS
                },
                Err(e) => {
                    &&& !old(self).accounts@.contains_key(ctx.signer_account_pk@)
                    &&& e == LinkDropError::KeyNotFound
                    &&& *final(self) == *old(self)
                },
            },
    {
        let amount = match self.accounts.get(&ctx.signer_account_pk) {
            Some(amount) => amount,
            None => {
                return Err(LinkDropError::KeyNotFound);
            },
        };
        let ghost key = new_public_key;
        let options = CreateAccountOptions {
            contract_bytes: None,
            full_access_keys: Some(vec![new_public_key]),
            limited_access_keys: None,
        };
        let ghost o = options;
        let request = match build_account_request(new_account_id, amount, options) {
            Ok(request) => request,
            Err(e) => {
                return Err(e);
            },
        };
        assert(o.full_access_keys->0@ =~= seq![key]);
        assert(request.actions@ =~= claim_actions(amount, key));
        self.accounts.remove(&ctx.signer_account_pk);
        Ok(
            PendingCreation {
                request,
                callback: Continuation::OnAccountCreatedAndClaimed { amount },
                callback_gas: ON_CREATE_ACCOUNT_CALLBACK_GAS,
            },
        )
    }

    /// Continuation of an advanced creation: on failure, refunds `amount` to the
    /// account that asked for the creation.
    pub fn on_account_created(
        &mut self,
        ctx: Invocation,
        predecessor_account_id: String,
        amount: u128,
    ) -> (r: Result<Resolution, LinkDropError>)
        ensures
            *final(self) == *old(self),
            r == advanced_resolution(ctx, predecessor_account_id, amount),
    {
        if ctx.predecessor_account_id != ctx.current_account_id {
            return Err(LinkDropError::UnauthorizedCallback);
        }
        let creation_succeeded = match is_promise_success(&ctx.promise_results) {
            Ok(b) => b,
            Err(e) => {
                return Err(e);
            },
        };
        if !creation_succeeded {
            Ok(
                Resolution {
                    succeeded: false,
                    follow_up: Some(FollowUp::Refund { receiver_id: predecessor_account_id, amount }),
                },
            )
        } else {
            Ok(Resolution { succeeded: true, follow_up: None })
        }
    }

    /// Continuation of a claim: on success, asks for the signing key to be deleted
    /// from the contract's account; on failure, puts `amount` back under that key.
    pub fn on_account_created_and_claimed(&mut self, ctx: Invocation, amount: u128) -> (r: Result<
        Resolution,
        LinkDropError,
    >)
        requires
            old(self).wf(),
        ensures
            final(self).wf(),
            r == claim_resolution(ctx),
            r is Err ==> *final(self) == *old(self),
            r matches Ok(res) ==> claim_resolution_step(
                *old(self),
                *final(self),
                ctx.signer_account_pk@,
                amount,
                res.succeeded,
            ),
    {
        if ctx.predecessor_account_id != ctx.current_account_id {
            return Err(LinkDropError::UnauthorizedCallback);
        }
        let creation_succeeded = match is_promise_success(&ctx.promise_results) {
            Ok(b) => b,
            Err(e) => {
                return Err(e);
            },
        };
        if creation_succeeded {
            Ok(
                Resolution {
                    succeeded: true,
                    follow_up: Some(
                        FollowUp::DeleteKey {
                            account_id: ctx.current_account_id,
                            public_key: ctx.signer_account_pk,
                        },
                    ),
                },
            )
        } else {
            self.accounts.insert(ctx.signer_account_pk, amount);
            Ok(Resolution { succeeded: false, follow_up: None })
        }
    }

    /// The balance reserved under `key`.
    pub fn get_key_balance(&self, key: PublicKey) -> (r: Result<u128, LinkDropError>)
        requires
            self.wf(),
        ensures
            r == (if self.accounts@.contains_key(key@) {
                Ok::<u128, LinkDropError>(self.accounts@[key@])
            } else {
                Err(LinkDropError::KeyNotFound)
            }),
    {
        match self.accounts.get(&key) {
            Some(balance) => Ok(balance),
            None => Err(LinkDropError::KeyNotFound),
        }
    }

    /// What is known about `key`, or a message saying it is absent.
    pub fn get_key_information(&self, key: PublicKey) -> (r: Result<KeyInfo, &'static str>)
        requires
            self.wf(),
        ensures
            match r {
                Ok(info) => self.accounts@.contains_key(key@) && info.balance == self.accounts@[key@],
                Err(msg) => !self.accounts@.contains_key(key@) && msg@ == "Key is missing"@,
            },
    {
        match self.accounts.get(&key) {
            Some(balance) => Ok(KeyInfo { balance }),
            None => Err("Key is missing"),
        }
    }
}

} // verus!
