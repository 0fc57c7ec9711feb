use linkdrop::{
    is_promise_success, Continuation, CreateAccountOptions, FollowUp, Invocation, KeyInfo,
    LimitedAccessKeyInfo, LinkDrop, LinkDropError, PromiseResult, PublicKey, RequestAction,
    Resolution, ON_CREATE_ACCOUNT_CALLBACK_GAS,
};

const CONTRACT: &str = "linkdrop.near";

fn key(tag: u8) -> PublicKey {
    let mut data = vec![0u8];
    data.extend(std::iter::repeat(tag).take(32));
    PublicKey { data }
}

fn call(predecessor: &str, signer: PublicKey, deposit: u128, results: Vec<PromiseResult>) -> Invocation {
    Invocation {
        current_account_id: CONTRACT.to_string(),
        predecessor_account_id: predecessor.to_string(),
        signer_account_pk: signer,
        attached_deposit: deposit,
        promise_results: results,
    }
}

fn self_call(signer: PublicKey, results: Vec<PromiseResult>) -> Invocation {
    call(CONTRACT, signer, 0, results)
}

fn funded(entries: &[(u8, u128)]) -> LinkDrop {
    let mut contract = LinkDrop::new();
    for (tag, balance) in entries {
        contract.accounts.insert(key(*tag), *balance);
    }
    contract
}

fn no_options() -> CreateAccountOptions {
    CreateAccountOptions { contract_bytes: None, full_access_keys: None, limited_access_keys: None }
}

#[test]
fn failed_claim_restores_balance_scenario() {
    let mut contract = funded(&[(1, 500)]);
    let pending = contract
        .create_account_and_claim(self_call(key(1), vec![]), "bob.near".to_string(), key(9))
        .unwrap();
    assert_eq!(pending.callback, Continuation::OnAccountCreatedAndClaimed { amount: 500 });
    assert_eq!(pending.callback_gas, ON_CREATE_ACCOUNT_CALLBACK_GAS);
    assert_eq!(pending.request.account_id, "bob.near");
    assert_eq!(
        pending.request.actions,
        vec![
            RequestAction::CreateAccount,
            RequestAction::Transfer { amount: 500 },
            RequestAction::AddFullAccessKey { public_key: key(9) },
        ]
    );
    assert_eq!(contract.get_key_balance(key(1)), Err(LinkDropError::KeyNotFound));

    let res = contract
        .on_account_created_and_claimed(self_call(key(1), vec![PromiseResult::Failed]), 500)
        .unwrap();
    assert_eq!(res, Resolution { succeeded: false, follow_up: None });
    assert_eq!(contract.get_key_balance(key(1)), Ok(500));
}

#[test]
fn advanced_create_success_scenario() {
    let mut contract = funded(&[(1, 500)]);
    let options = CreateAccountOptions {
        contract_bytes: None,
        full_access_keys: Some(vec![key(7)]),
        limited_access_keys: None,
    };
    let pending = contract
        .create_account_advanced(call("p.near", key(3), 100, vec![]), "alice".to_string(), options)
        .unwrap();
    assert_eq!(pending.request.account_id, "alice");
    assert_eq!(
        pending.request.actions,
        vec![
            RequestAction::CreateAccount,
            RequestAction::Transfer { amount: 100 },
            RequestAction::AddFullAccessKey { public_key: key(7) },
        ]
    );
    assert_eq!(
        pending.callback,
        Continuation::OnAccountCreated { predecessor_account_id: "p.near".to_string(), amount: 100 }
    );
    let res = contract
        .on_account_created(
            self_call(key(3), vec![PromiseResult::Successful(vec![])]),
            "p.near".to_string(),
            100,
        )
        .unwrap();
    assert_eq!(res, Resolution { succeeded: true, follow_up: None });
    assert_eq!(contract.get_key_balance(key(1)), Ok(500));
}

#[test]
fn advanced_create_failure_refunds_caller() {
    let mut contract = LinkDrop::new();
    let res = contract
        .on_account_created(self_call(key(3), vec![PromiseResult::Failed]), "p.near".to_string(), 100)
        .unwrap();
    assert_eq!(
        res,
        Resolution {
            succeeded: false,
            follow_up: Some(FollowUp::Refund { receiver_id: "p.near".to_string(), amount: 100 }),
        }
    );
}

#[test]
fn empty_configuration_is_rejected() {
    let mut contract = funded(&[(1, 500)]);
    let r = contract.create_account_advanced(call("p.near", key(3), 100, vec![]), "alice".to_string(), no_options());
    assert_eq!(r.unwrap_err(), LinkDropError::InvalidConfiguration);
    assert_eq!(contract.get_key_balance(key(1)), Ok(500));
}

#[test]
fn code_alone_is_a_valid_configuration() {
    let mut contract = LinkDrop::new();
    let options = CreateAccountOptions { contract_bytes: Some(vec![0, 97, 115, 109]), ..no_options() };
    let pending = contract
        .create_account_advanced(call("p.near", key(3), 5, vec![]), "c.near".to_string(), options)
        .unwrap();
    assert_eq!(
        pending.request.actions,
        vec![
            RequestAction::CreateAccount,
            RequestAction::Transfer { amount: 5 },
            RequestAction::DeployContract { code: vec![0, 97, 115, 109] },
        ]
    );
}

#[test]
fn request_keeps_key_order_and_deploys_last() {
    let mut contract = LinkDrop::new();
    let limited = |tag: u8, receiver: &str| LimitedAccessKeyInfo {
        public_key: key(tag),
        allowance: 250,
        receiver_id: receiver.to_string(),
        method_names: "claim,send".to_string(),
    };
    let options = CreateAccountOptions {
        contract_bytes: Some(vec![1, 2]),
        full_access_keys: Some(vec![key(4), key(2)]),
        limited_access_keys: Some(vec![limited(6, "x.near"), limited(5, "y.near")]),
    };
    let pending = contract
        .create_account_advanced(call("p.near", key(3), 42, vec![]), "d.near".to_string(), options)
        .unwrap();
    assert_eq!(
        pending.request.actions,
        vec![
            RequestAction::CreateAccount,
            RequestAction::Transfer { amount: 42 },
            RequestAction::AddFullAccessKey { public_key: key(4) },
            RequestAction::AddFullAccessKey { public_key: key(2) },
            RequestAction::AddAccessKey {
                public_key: key(6),
                allowance: 250,
                receiver_id: "x.near".to_string(),
                method_names: "claim,send".to_string(),
            },
            RequestAction::AddAccessKey {
                public_key: key(5),
                allowance: 250,
                receiver_id: "y.near".to_string(),
                method_names: "claim,send".to_string(),
            },
            RequestAction::DeployContract { code: vec![1, 2] },
        ]
    );
}

#[test]
fn empty_key_lists_still_count_as_options() {
    let mut contract = LinkDrop::new();
    let options = CreateAccountOptions { full_access_keys: Some(vec![]), ..no_options() };
    let pending = contract
        .create_account_advanced(call("p.near", key(3), 0, vec![]), "e.near".to_string(), options)
        .unwrap();
    assert_eq!(
        pending.request.actions,
        vec![RequestAction::CreateAccount, RequestAction::Transfer { amount: 0 }]
    );
}

#[test]
fn callbacks_from_others_are_rejected() {
    let mut contract = funded(&[(1, 500)]);
    let intruder = call("mallory.near", key(1), 0, vec![PromiseResult::Failed]);
    assert_eq!(
        contract.on_account_created(intruder.clone(), "mallory.near".to_string(), 100),
        Err(LinkDropError::UnauthorizedCallback)
    );
    assert_eq!(
        contract.on_account_created_and_claimed(intruder, 900),
        Err(LinkDropError::UnauthorizedCallback)
    );
    assert_eq!(contract.get_key_balance(key(1)), Ok(500));
}

#[test]
fn callbacks_need_exactly_one_result() {
    let mut contract = funded(&[(1, 500)]);
    let two = vec![PromiseResult::Failed, PromiseResult::Failed];
    assert_eq!(
        contract.on_account_created_and_claimed(self_call(key(1), vec![]), 7),
        Err(LinkDropError::MalformedCallback)
    );
    assert_eq!(
        contract.on_account_created_and_claimed(self_call(key(1), two.clone()), 7),
        Err(LinkDropError::MalformedCallback)
    );
    assert_eq!(
        contract.on_account_created(self_call(key(1), two), "p.near".to_string(), 7),
        Err(LinkDropError::MalformedCallback)
    );
    assert_eq!(contract.get_key_balance(key(1)), Ok(500));
}

#[test]
fn promise_success_reads_the_single_result() {
    assert_eq!(is_promise_success(&vec![PromiseResult::Successful(vec![1])]), Ok(true));
    assert_eq!(is_promise_success(&vec![PromiseResult::Failed]), Ok(false));
    assert_eq!(is_promise_success(&vec![PromiseResult::NotReady]), Ok(false));
    assert_eq!(is_promise_success(&vec![]), Err(LinkDropError::MalformedCallback));
}

#[test]
fn successful_claim_deletes_signing_key() {
    let mut contract = funded(&[(1, 500), (2, 70)]);
    contract
        .create_account_and_claim(self_call(key(1), vec![]), "bob.near".to_string(), key(9))
        .unwrap();
    let res = contract
        .on_account_created_and_claimed(self_call(key(1), vec![PromiseResult::Successful(vec![])]), 500)
        .unwrap();
    assert_eq!(
        res,
        Resolution {
            succeeded: true,
            follow_up: Some(FollowUp::DeleteKey { account_id: CONTRACT.to_string(), public_key: key(1) }),
        }
    );
    assert_eq!(contract.get_key_balance(key(1)), Err(LinkDropError::KeyNotFound));
    assert_eq!(contract.get_key_balance(key(2)), Ok(70));
    assert_eq!(
        contract.create_account_and_claim(self_call(key(1), vec![]), "bob.near".to_string(), key(9)).unwrap_err(),
        LinkDropError::KeyNotFound
    );
}

#[test]
fn claim_with_unknown_key_is_refused() {
    let mut contract = funded(&[(1, 500)]);
    let r = contract.create_account_and_claim(self_call(key(8), vec![]), "bob.near".to_string(), key(9));
    assert_eq!(r.unwrap_err(), LinkDropError::KeyNotFound);
    assert_eq!(contract.get_key_balance(key(1)), Ok(500));
}

#[test]
fn retry_after_failure_matches_first_attempt() {
    let mut contract = funded(&[(1, 500), (2, 30)]);
    let first = contract
        .create_account_and_claim(self_call(key(1), vec![]), "bob.near".to_string(), key(9))
        .unwrap();
    contract
        .on_account_created_and_claimed(self_call(key(1), vec![PromiseResult::NotReady]), 500)
        .unwrap();
    let second = contract
        .create_account_and_claim(self_call(key(1), vec![]), "bob.near".to_string(), key(9))
        .unwrap();
    assert_eq!(first, second);
    assert_eq!(contract.get_key_balance(key(1)), Err(LinkDropError::KeyNotFound));
    assert_eq!(contract.get_key_balance(key(2)), Ok(30));
}

#[test]
fn claim_cycle_conserves_funds() {
    let mut contract = funded(&[(1, 500), (2, 30), (3, 1)]);
    let mut delivered: u128 = 0;
    for (tag, ok) in [(1u8, true), (2u8, false), (3u8, true)] {
        let pending = contract
            .create_account_and_claim(self_call(key(tag), vec![]), "n.near".to_string(), key(9))
            .unwrap();
        let amount = match pending.callback {
            Continuation::OnAccountCreatedAndClaimed { amount } => amount,
            other => panic!("unexpected continuation {:?}", other),
        };
        let outcome = if ok { PromiseResult::Successful(vec![]) } else { PromiseResult::Failed };
        let res = contract.on_account_created_and_claimed(self_call(key(tag), vec![outcome]), amount).unwrap();
        if res.succeeded {
            delivered += amount;
        }
    }
    let left: u128 = [1u8, 2, 3].iter().map(|t| contract.get_key_balance(key(*t)).unwrap_or(0)).sum();
    assert_eq!(delivered, 501);
    assert_eq!(left + delivered, 531);
}

#[test]
fn key_information_reports_balance_or_absence() {
    let contract = funded(&[(1, 500)]);
    assert_eq!(contract.get_key_information(key(1)), Ok(KeyInfo { balance: 500 }));
    assert_eq!(contract.get_key_information(key(2)), Err("Key is missing"));
    assert_eq!(contract.get_key_balance(key(2)), Err(LinkDropError::KeyNotFound));
    assert_eq!(LinkDropError::KeyNotFound.message(), "Key is missing");
}

#[test]
fn largest_balance_round_trips() {
    let mut contract = funded(&[(1, u128::MAX)]);
    contract
        .create_account_and_claim(self_call(key(1), vec![]), "big.near".to_string(), key(9))
        .unwrap();
    contract
        .on_account_created_and_claimed(self_call(key(1), vec![PromiseResult::Failed]), u128::MAX)
        .unwrap();
    assert_eq!(contract.get_key_balance(key(1)), Ok(u128::MAX));
}
