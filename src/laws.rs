use vstd::prelude::*;

use crate::error::LinkDropError;
use crate::protocol::{
    advanced_resolution, claim_resolution, claim_resolution_step, claim_step, FollowUp, Invocation,
    LinkDrop, Resolution,
};

verus! {

/// The funds a resolution sends back to whoever asked for the creation.
pub open spec fn refunded(res: Resolution) -> int {
    match res.follow_up {
        Some(FollowUp::Refund { amount, .. }) => amount as int,
        _ => 0,
    }
}

/// The funds a resolution leaves on the newly created account.
pub open spec fn delivered(res: Resolution, amount: u128) -> int {
    if res.succeeded {
        amount as int
    } else {
        0
    }
}

/// One step of the contract's life, as far as funds are concerned.
pub enum FundsEvent {
    /// The balance `amount` under `key` was taken out to fund a new account.
    Claim { key: Seq<u8>, amount: u128 },
    /// The claim of `amount` under `key` resolved.
    ClaimResolved { key: Seq<u8>, amount: u128, succeeded: bool },
    /// `amount` was attached to an advanced creation.
    Deposit { amount: u128 },
    /// An advanced creation funded with `amount` resolved.
    DepositResolved { amount: u128, succeeded: bool },
}

/// `after` follows `before` through `e`, as the entry points' contracts describe.
pub open spec fn event_step(before: LinkDrop, after: LinkDrop, e: FundsEvent) -> bool {
    match e {
        FundsEvent::Claim { key, amount } => claim_step(before, after, key, amount),
        FundsEvent::ClaimResolved { key, amount, succeeded } => claim_resolution_step(
            before,
            after,
            key,
            amount,
            succeeded,
        ),
        FundsEvent::Deposit { .. } => after == before,
        FundsEvent::DepositResolved { .. } => after == before,
    }
}

/// Whether `e` reads or writes the balance under `key`.
pub open spec fn touches(e: FundsEvent, key: Seq<u8>) -> bool {
    match e {
        FundsEvent::Claim { key: k, .. } => k == key,
        FundsEvent::ClaimResolved { key: k, .. } => k == key,
        _ => false,
    }
}

/// `states` is a run of the contract driven by `events`.
pub open spec fn is_run(states: Seq<LinkDrop>, events: Seq<FundsEvent>) -> bool {
    &&& states.len() == events.len() + 1
    &&& forall|i: int| 0 <= i < events.len() ==> event_step(states[i], states[i + 1], events[i])
}

/// Every claim resolution answers an earlier claim of the same key and amount,
/// with nothing touching that key in between.
pub open spec fn resolutions_answer_claims(events: Seq<FundsEvent>) -> bool {
    forall|i: int|
        0 <= i < events.len() && #[trigger] events[i] is ClaimResolved ==> exists|j: int|
            0 <= j < i && events[j] == (FundsEvent::Claim {
                key: events[i]->ClaimResolved_key,
                amount: events[i]->ClaimResolved_amount,
            }) && forall|m: int| j < m < i ==> !touches(#[trigger] events[m], events[i]->ClaimResolved_key)
}

/// Funds brought in from outside the ledger by the events.
pub open spec fn deposited(events: Seq<FundsEvent>) -> int
    decreases events.len(),
{
    if events.len() == 0 {
        0
    } else {
        deposited(events.drop_last()) + match events.last() {
            FundsEvent::Deposit { amount } => amount as int,
            _ => 0,
        }
    }
}

/// Funds handed to creation requests whose outcome is still awaited.
pub open spec fn in_flight(events: Seq<FundsEvent>) -> int
    decreases events.len(),
{
    if events.len() == 0 {
        0
    } else {
        in_flight(events.drop_last()) + match events.last() {
            FundsEvent::Claim { amount, .. } => amount as int,
            FundsEvent::Deposit { amount } => amount as int,
            FundsEvent::ClaimResolved { amount, .. } => -amount,
            FundsEvent::DepositResolved { amount, .. } => -amount,
        }
    }
}

/// Funds that reached newly created accounts.
pub open spec fn delivered_total(events: Seq<FundsEvent>) -> int
    decreases events.len(),
{
    if events.len() == 0 {
        0
    } else {
        delivered_total(events.drop_last()) + match events.last() {
            FundsEvent::ClaimResolved { amount, succeeded, .. } => if succeeded {
                amount as int
            } else {
                0
            },
            FundsEvent::DepositResolved { amount, succeeded } => if succeeded {
                amount as int
            } else {
                0
            },
            _ => 0,
        }
    }
}

/// Funds refunded to the accounts that paid for failed creations.
pub open spec fn refunded_total(events: Seq<FundsEvent>) -> int
    decreases events.len(),
{
    if events.len() == 0 {
        0
    } else {
        refunded_total(events.drop_last()) + match events.last() {
            FundsEvent::DepositResolved { amount, succeeded } => if succeeded {
                0
            } else {
                amount as int
            },
            _ => 0,
        }
    }
}

proof fn lemma_key_stays_absent(states: Seq<LinkDrop>, events: Seq<FundsEvent>, key: Seq<u8>, j: int, m: int)
    requires
        is_run(states, events),
        0 <= j < m <= events.len(),
        events[j] matches FundsEvent::Claim { key: k, .. } && k == key,
        forall|t: int| j < t < m ==> !touches(#[trigger] events[t], key),
    ensures
        !states[m].accounts@.contains_key(key),
    decreases m - j,
{
    if m > j + 1 {
        lemma_key_stays_absent(states, events, key, j, m - 1);
        assert(event_step(states[m - 1], states[m], events[m - 1]));
        assert(!touches(events[m - 1], key));
    } else {
        assert(event_step(states[j], states[j + 1], events[j]));
    }
}

/// Over any run in which each claim resolution answers an earlier claim, no funds
/// are created or destroyed: what the ledger holds, plus what is in flight, what
/// reached new accounts and what was refunded, is what the ledger first held plus
/// what was deposited.
pub proof fn law_funds_conserved(states: Seq<LinkDrop>, events: Seq<FundsEvent>)
    requires
        is_run(states, events),
        resolutions_answer_claims(events),
    ensures
        states.last().accounts.total() + in_flight(events) + delivered_total(events)
            + refunded_total(events) == states[0].accounts.total() + deposited(events),
    decreases events.len(),
{
    if events.len() > 0 {
        let n = events.len() - 1;
        let pre_events = events.drop_last();
        let pre_states = states.drop_last();
        assert(is_run(pre_states, pre_events)) by {
            assert forall|i: int| 0 <= i < pre_events.len() implies event_step(
                pre_states[i],
                pre_states[i + 1],
                pre_events[i],
            ) by {
                assert(event_step(states[i], states[i + 1], events[i]));
            }
        }
        assert(resolutions_answer_claims(pre_events)) by {
            assert forall|i: int|
                0 <= i < pre_events.len() && #[trigger] pre_events[i] is ClaimResolved implies exists|j: int|
                    0 <= j < i && pre_events[j] == (FundsEvent::Claim {
                        key: pre_events[i]->ClaimResolved_key,
                        amount: pre_events[i]->ClaimResolved_amount,
                    }) && forall|m: int| j < m < i ==> !touches(#[trigger] pre_events[m], pre_events[i]->ClaimResolved_key) by {
                assert(events[i] is ClaimResolved);
                let j = choose|j: int|
                    0 <= j < i && events[j] == (FundsEvent::Claim {
                        key: events[i]->ClaimResolved_key,
                        amount: events[i]->ClaimResolved_amount,
                    }) && forall|m: int| j < m < i ==> !touches(#[trigger] events[m], events[i]->ClaimResolved_key);
                let key = events[i]->ClaimResolved_key;
                assert(pre_events[j] == events[j]);
                assert forall|m: int| j < m < i implies !touches(#[trigger] pre_events[m], key) by {
                    assert(pre_events[m] == events[m]);
                }
            }
        }
        law_funds_conserved(pre_states, pre_events);
        assert(event_step(states[n], states[n + 1], events[n]));
        assert(pre_states.last() == states[n]);
        if events[n] is ClaimResolved {
            let key = events[n]->ClaimResolved_key;
            let j = choose|j: int|
                0 <= j < n && events[j] == (FundsEvent::Claim {
                    key: events[n]->ClaimResolved_key,
                    amount: events[n]->ClaimResolved_amount,
                }) && forall|m: int| j < m < n ==> !touches(#[trigger] events[m], events[n]->ClaimResolved_key);
            lemma_key_stays_absent(states, events, key, j, n);
        }
    }
}

/// A claim and its resolution neither create nor destroy funds: what the ledger
/// holds afterwards, plus what went to the new account, is what it held before.
pub proof fn law_claim_conserves_funds(
    l0: LinkDrop,
    l1: LinkDrop,
    l2: LinkDrop,
    key: Seq<u8>,
    amount: u128,
    ctx: Invocation,
)
    requires
        claim_step(l0, l1, key, amount),
        ctx.signer_account_pk@ == key,
        claim_resolution(ctx) is Ok,
        claim_resolution_step(l1, l2, key, amount, claim_resolution(ctx)->Ok_0.succeeded),
    ensures
        l2.accounts.total() + delivered(claim_resolution(ctx)->Ok_0, amount) == l0.accounts.total(),
        refunded(claim_resolution(ctx)->Ok_0) == 0,
{
}

/// An advanced creation neither creates nor destroys funds: the deposit ends up
/// either on the new account or refunded, never both, and the ledger is untouched.
pub proof fn law_advanced_conserves_funds(ctx: Invocation, predecessor_account_id: String, amount: u128)
    requires
        advanced_resolution(ctx, predecessor_account_id, amount) is Ok,
    ensures
        ({
            let res = advanced_resolution(ctx, predecessor_account_id, amount)->Ok_0;
            delivered(res, amount) + refunded(res) == amount
        }),
{
}

/// After a claim under `key` resolves successfully, the key's balance is spent for
/// good: the ledger no longer holds the key, and the one follow-up is the deletion
/// of the signing key from the contract's account.
pub proof fn law_claim_success_invalidates_key(
    l0: LinkDrop,
    l1: LinkDrop,
    l2: LinkDrop,
    amount: u128,
    ctx: Invocation,
)
    requires
        claim_step(l0, l1, ctx.signer_account_pk@, amount),
        claim_resolution(ctx) matches Ok(res) && res.succeeded,
        claim_resolution_step(l1, l2, ctx.signer_account_pk@, amount, true),
    ensures
        !l2.accounts@.contains_key(ctx.signer_account_pk@),
        l2.accounts@ == l0.accounts@.remove(ctx.signer_account_pk@),
        claim_resolution(ctx)->Ok_0.follow_up == Some(
            FollowUp::DeleteKey {
                account_id: ctx.current_account_id,
                public_key: ctx.signer_account_pk,
            },
        ),
{
}

/// A failed claim under `key` restores its balance exactly, and a later claim
/// with `key` behaves as the first one did.
pub proof fn law_failed_claim_restores(
    l0: LinkDrop,
    l1: LinkDrop,
    l2: LinkDrop,
    l3: LinkDrop,
    key: Seq<u8>,
    amount: u128,
    retry_amount: u128,
)
    requires
        claim_step(l0, l1, key, amount),
        claim_resolution_step(l1, l2, key, amount, false),
    ensures
        l2.accounts@ == l0.accounts@,
        l2.accounts.total() == l0.accounts.total(),
        claim_step(l2, l3, key, retry_amount) == claim_step(l0, l3, key, retry_amount),
{
    assert(l2.accounts@ =~= l0.accounts@);
}

/// A continuation invoked by anyone but the contract itself is refused.
pub proof fn law_callbacks_require_self(ctx: Invocation, predecessor_account_id: String, amount: u128)
    requires
        ctx.predecessor_account_id@ != ctx.current_account_id@,
    ensures
        advanced_resolution(ctx, predecessor_account_id, amount) == Err::<Resolution, LinkDropError>(
            LinkDropError::UnauthorizedCallback,
        ),
        claim_resolution(ctx) == Err::<Resolution, LinkDropError>(
            LinkDropError::UnauthorizedCallback,
        ),
{
}

} // verus!
