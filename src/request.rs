use vstd::prelude::*;

use crate::error::LinkDropError;
use crate::ledger::PublicKey;

verus! {

/// A key to be added with restricted authority: an allowance for fees, the one
/// account it may call, and the methods it may call there (comma separated).
#[derive(Clone, Debug, PartialEq, Eq)]
pub struct LimitedAccessKeyInfo {
    pub public_key: PublicKey,
    pub allowance: u128,
    pub receiver_id: String,
    pub method_names: String,
}

/// What a new account is to be set up with.
#[derive(Clone, Debug, PartialEq, Eq)]
pub struct CreateAccountOptions {
    pub contract_bytes: Option<Vec<u8>>,
    pub full_access_keys: Option<Vec<PublicKey>>,
    pub limited_access_keys: Option<Vec<LimitedAccessKeyInfo>>,
}

/// One step of an account-creation request, executed by the host in order.
#[derive(Clone, Debug, PartialEq, Eq)]
pub enum RequestAction {
    CreateAccount,
    Transfer { amount: u128 },
    AddFullAccessKey { public_key: PublicKey },
    AddAccessKey {
        public_key: PublicKey,
        allowance: u128,
        receiver_id: String,
        method_names: String,
    },
    DeployContract { code: Vec<u8> },
}

/// A composite request that creates `account_id` and runs `actions` on it.
#[derive(Clone, Debug, PartialEq, Eq)]
pub struct AccountCreationRequest {
    pub account_id: String,
    pub actions: Vec<RequestAction>,
}

/// At least one way to control or use the new account is given.
pub open spec fn has_some_option(o: CreateAccountOptions) -> bool {
    ||| o.contract_bytes is Some
    ||| o.full_access_keys is Some
    ||| o.limited_access_keys is Some
}

pub open spec fn full_key_action(k: PublicKey) -> RequestAction {
    RequestAction::AddFullAccessKey { public_key: k }
}

pub open spec fn limited_key_action(k: LimitedAccessKeyInfo) -> RequestAction {
    RequestAction::AddAccessKey {
        public_key: k.public_key,
        allowance: k.allowance,
        receiver_id: k.receiver_id,
        method_names: k.method_names,
    }
}

/// The actions of a request: create, fund, add the full-access keys and then the
/// limited-access keys in the order given, and deploy the code last.
pub open spec fn request_actions(amount: u128, o: CreateAccountOptions) -> Seq<RequestAction> {
    seq![RequestAction::CreateAccount, RequestAction::Transfer { amount }] + match o.full_access_keys {
        Some(v) => v@.map_values(|k: PublicKey| full_key_action(k)),
        None => Seq::empty(),
    } + match o.limited_access_keys {
        Some(v) => v@.map_values(|k: LimitedAccessKeyInfo| limited_key_action(k)),
        None => Seq::empty(),
    } + match o.contract_bytes {
        Some(code) => seq![RequestAction::DeployContract { code }],
        None => Seq::empty(),
    }
}

fn push_full_access_keys(actions: &mut Vec<RequestAction>, keys: Vec<PublicKey>)
    ensures
        final(actions)@ == old(actions)@ + keys@.map_values(|k: PublicKey| full_key_action(k)),
{
    let ghost start = actions@;
    let ghost all = keys@;
    let mut rest = keys;
    while rest.len() > 0
        invariant
            0 <= all.len() - rest@.len(),
            rest@ == all.subrange(all.len() - rest@.len(), all.len() as int),
            actions@ == start + all.subrange(0, all.len() - rest@.len()).map_values(
                |k: PublicKey| full_key_action(k),
            ),
        decreases rest@.len(),
    {
        let ghost done = all.len() - rest@.len();
        let key = rest.remove(0);
        actions.push(RequestAction::AddFullAccessKey { public_key: key });
        assert(all.subrange(0, done + 1) =~= all.subrange(0, done).push(key));
        assert(rest@ =~= all.subrange(all.len() - rest@.len(), all.len() as int));
        assert(actions@ =~= start + all.subrange(0, done + 1).map_values(
            |k: PublicKey| full_key_action(k),
        ));
    }
    assert(all.subrange(0, all.len() as int) =~= all);
}

fn push_limited_access_keys(actions: &mut Vec<RequestAction>, keys: Vec<LimitedAccessKeyInfo>)
    ensures
        final(actions)@ == old(actions)@ + keys@.map_values(
            |k: LimitedAccessKeyInfo| limited_key_action(k),
        ),
{
    let ghost start = actions@;
    let ghost all = keys@;
    let mut rest = keys;
    while rest.len() > 0
        invariant
            0 <= all.len() - rest@.len(),
            rest@ == all.subrange(all.len() - rest@.len(), all.len() as int),
            actions@ == start + all.subrange(0, all.len() - rest@.len()).map_values(
                |k: LimitedAccessKeyInfo| limited_key_action(k),
            ),
        decreases rest@.len(),
    {
        let ghost done = all.len() - rest@.len();
        let info = rest.remove(0);
        let ghost item = info;
        actions.push(
            RequestAction::AddAccessKey {
                public_key: info.public_key,
                allowance: info.allowance,
                receiver_id: info.receiver_id,
                method_names: info.method_names,
            },
        );
        assert(all.subrange(0, done + 1) =~= all.subrange(0, done).push(item));
        assert(rest@ =~= all.subrange(all.len() - rest@.len(), all.len() as int));
        assert(actions@ =~= start + all.subrange(0, done + 1).map_values(
            |k: LimitedAccessKeyInfo| limited_key_action(k),
        ));
    }
    assert(all.subrange(0, all.len() as int) =~= all);
}

/// Builds the request that creates `new_account_id`, transfers `amount` to it and
/// sets it up as `options` say; refuses options that give nothing to set up.
pub fn build_account_request(
    new_account_id: String,
    amount: u128,
    options: CreateAccountOptions,
) -> (r: Result<AccountCreationRequest, LinkDropError>)
    ensures
        match r {
            Ok(req) => {
                &&& has_some_option(options)
                &&& req.account_id == new_account_id
                &&& req.actions@ == request_actions(amount, options)
            },
            Err(e) => !has_some_option(options) && e == LinkDropError::InvalidConfiguration,
        },
{
    let is_some_option = options.contract_bytes.is_some() || options.full_access_keys.is_some()
        || options.limited_access_keys.is_some();
    if !is_some_option {
        return Err(LinkDropError::InvalidConfiguration);
    }
    let ghost o = options;
    let mut actions: Vec<RequestAction> = Vec::new();
    actions.push(RequestAction::CreateAccount);
    actions.push(RequestAction::Transfer { amount });
    assert(actions@ =~= seq![RequestAction::CreateAccount, RequestAction::Transfer { amount }]);
    let ghost a0 = actions@;
    match options.full_access_keys {
        Some(keys) => push_full_access_keys(&mut actions, keys),
        None => {
            assert(actions@ =~= a0 + Seq::<RequestAction>::empty());
        },
    }
    let ghost a1 = actions@;
    match options.limited_access_keys {
        Some(keys) => push_limited_access_keys(&mut actions, keys),
        None => {
            assert(actions@ =~= a1 + Seq::<RequestAction>::empty());
        },
    }
    let ghost a2 = actions@;
    match options.contract_bytes {
        Some(code) => {
            actions.push(RequestAction::DeployContract { code });
            assert(actions@ =~= a2 + seq![RequestAction::DeployContract { code: o.contract_bytes->0 }]);
        },
        None => {
            assert(actions@ =~= a2 + Seq::<RequestAction>::empty());
        },
    }
    Ok(AccountCreationRequest { account_id: new_account_id, actions })
}

} // verus!
