//! A key-funded account-creation contract: reserved balances claimable by key,
//! account-creation requests, and the reconciliation of their outcomes.
mod error;
mod laws;
mod ledger;
mod protocol;
mod request;

pub use error::LinkDropError;
pub use laws::{
    delivered, delivered_total, deposited, event_step, in_flight, is_run,
    law_advanced_conserves_funds, law_callbacks_require_self, law_claim_conserves_funds,
    law_claim_success_invalidates_key, law_failed_claim_restores, law_funds_conserved, refunded,
    refunded_total, resolutions_answer_claims, touches, FundsEvent,
};
pub use ledger::{entries_map, entries_total, keys_unique, same_key, Ledger, LedgerEntry, PublicKey};
pub use protocol::{
    advanced_resolution, claim_actions, claim_resolution, claim_resolution_step, claim_step,
    is_promise_success, is_self_call, promise_outcome, Continuation, FollowUp, Invocation, KeyInfo,
    LinkDrop, PendingCreation, PromiseResult, Resolution, ON_CREATE_ACCOUNT_CALLBACK_GAS,
};
pub use request::{
    build_account_request, full_key_action, has_some_option, limited_key_action, request_actions,
    AccountCreationRequest, CreateAccountOptions, LimitedAccessKeyInfo, RequestAction,
};
