use nearyou::CallContext;
use nearyou::ExtLinkDrop;
use nearyou::NearYou;
use nearyou::PromiseOutcome;
use nearyou::RedeemError;
use nearyou::Settlement;
use nearyou::SettlementContinuation;

const FEE: u128 = 1_000_000;

fn self_ctx(pk: &[u8]) -> CallContext {
    CallContext {
        predecessor_account_id: String::from("linkdrop"),
        current_account_id: String::from("linkdrop"),
        signer_account_pk: pk.to_vec(),
    }
}

fn foreign_ctx(pk: &[u8]) -> CallContext {
    CallContext {
        predecessor_account_id: String::from("mallory"),
        current_account_id: String::from("linkdrop"),
        signer_account_pk: pk.to_vec(),
    }
}

fn fresh_contract() -> NearYou {
    NearYou::new(String::from("nft.linkdrop"), FEE)
}

#[test]
fn accumulation_of_two_deposits() {
    let mut c = fresh_contract();
    let pk = vec![7u8; 33];
    let ctx = self_ctx(&pk);
    c.send(pk.clone(), String::from("token-a"), 2_000_000, &ctx);
    c.send(pk.clone(), String::from("token-b"), 1_500_000, &ctx);
    assert_eq!(c.get_key_balance(&pk), Ok(1_500_000));
}

#[test]
fn token_reference_last_write_wins() {
    let mut c = fresh_contract();
    let pk = vec![9u8; 4];
    let ctx = self_ctx(&pk);
    c.send(pk.clone(), String::from("token-a"), 2_000_000, &ctx);
    c.send(pk.clone(), String::from("token-b"), 1_500_000, &ctx);
    let grant = c.grants.get(&pk).unwrap();
    assert_eq!(grant.token_ref, Some(String::from("token-b")));
    assert_eq!(grant.balance, Some(1_500_000));
}

#[test]
fn send_issues_capability_action() {
    let mut c = fresh_contract();
    let pk = vec![1u8, 2, 3];
    let ctx = self_ctx(&pk);
    let action = c.send(pk.clone(), String::from("tok"), 2_000_000, &ctx);
    assert_eq!(action.public_key, pk);
    assert_eq!(action.allowance, FEE);
    assert_eq!(action.receiver_id, String::from("linkdrop"));
    assert_eq!(action.method_names, String::from("claim,create_account_and_claim"));
    assert!(c.bindings.is_bound(&pk));
}

#[test]
fn end_to_end_claim_scenario() {
    let mut c = fresh_contract();
    let pk1 = vec![11u8; 8];
    let ctx = self_ctx(&pk1);
    c.send(pk1.clone(), String::from("token-1"), 2_000_000, &ctx);
    assert_eq!(c.get_key_balance(&pk1), Ok(1_000_000));

    let d = c.claim(String::from("alice"), &ctx).unwrap();
    assert_eq!(d.revoked_key, pk1);
    assert_eq!(d.receiver_id, String::from("alice"));
    assert_eq!(d.amount, Some(1_000_000));
    let t = d.token.unwrap();
    assert_eq!(t.token_contract, String::from("nft.linkdrop"));
    assert_eq!(t.receiver_id, String::from("alice"));
    assert_eq!(t.token_id, String::from("token-1"));

    assert!(!c.bindings.is_bound(&pk1));
    assert_eq!(c.get_key_balance(&pk1), Err(RedeemError::NotFound));
}

#[test]
fn claim_requires_self_authorization() {
    let mut c = fresh_contract();
    let pk = vec![3u8; 3];
    c.send(pk.clone(), String::from("tok"), 2_000_000, &self_ctx(&pk));
    let r = c.claim(String::from("alice"), &foreign_ctx(&pk));
    assert_eq!(r.unwrap_err(), RedeemError::Authorization);
    assert_eq!(c.get_key_balance(&pk), Ok(1_000_000));
}

#[test]
fn create_account_and_claim_requires_self_authorization() {
    let mut c = fresh_contract();
    let pk = vec![4u8; 3];
    c.send(pk.clone(), String::from("tok"), 2_000_000, &self_ctx(&pk));
    let r = c.create_account_and_claim(String::from("bob"), vec![5u8], &foreign_ctx(&pk));
    assert_eq!(r.unwrap_err(), RedeemError::Authorization);
    assert_eq!(c.get_key_balance(&pk), Ok(1_000_000));
}

#[test]
fn callback_requires_self_authorization() {
    let mut c = fresh_contract();
    let pk = vec![6u8; 3];
    let continuation = SettlementContinuation {
        capability: pk.clone(),
        payload: nearyou::Grant { balance: Some(1), token_ref: None },
    };
    let r = c.on_account_created_and_claimed(
        continuation,
        &vec![PromiseOutcome::Successful],
        &foreign_ctx(&pk),
    );
    assert_eq!(r.unwrap_err(), RedeemError::Authorization);
}

#[test]
fn claim_rejects_malformed_account_id() {
    let mut c = fresh_contract();
    let pk = vec![8u8; 3];
    c.send(pk.clone(), String::from("tok"), 2_000_000, &self_ctx(&pk));
    let r = c.claim(String::from("-bad-"), &self_ctx(&pk));
    assert_eq!(r.unwrap_err(), RedeemError::Validation);
    assert_eq!(c.get_key_balance(&pk), Ok(1_000_000));
}

#[test]
fn claim_unknown_capability_not_found() {
    let mut c = fresh_contract();
    let pk = vec![12u8; 3];
    let r = c.claim(String::from("alice"), &self_ctx(&pk));
    assert_eq!(r.unwrap_err(), RedeemError::NotFound);
}

#[test]
fn no_double_spend_second_claim_fails() {
    let mut c = fresh_contract();
    let pk = vec![13u8; 3];
    let ctx = self_ctx(&pk);
    c.send(pk.clone(), String::from("tok"), 2_000_000, &ctx);
    assert!(c.claim(String::from("alice"), &ctx).is_ok());
    let again = c.claim(String::from("alice"), &ctx);
    assert_eq!(again.unwrap_err(), RedeemError::NotFound);
}

#[test]
fn create_account_and_claim_dispatches_chain() {
    let mut c = fresh_contract();
    let pk = vec![14u8; 3];
    let ctx = self_ctx(&pk);
    c.send(pk.clone(), String::from("token-x"), 3_000_000, &ctx);
    let d = c.create_account_and_claim(String::from("carol"), vec![21u8; 2], &ctx).unwrap();
    assert_eq!(d.new_account_id, String::from("carol"));
    assert_eq!(d.new_public_key, vec![21u8; 2]);
    assert_eq!(d.amount, Some(2_000_000));
    let t = d.token.unwrap();
    assert_eq!(t.receiver_id, String::from("carol"));
    assert_eq!(t.token_id, String::from("token-x"));
    assert_eq!(d.continuation.capability, pk);
    assert_eq!(d.continuation.payload.balance, Some(2_000_000));
    assert_eq!(d.continuation.payload.token_ref, Some(String::from("token-x")));
    // the grant is consumed, the binding stays until settlement confirms
    assert_eq!(c.get_key_balance(&pk), Err(RedeemError::NotFound));
    assert!(c.bindings.is_bound(&pk));
}

#[test]
fn settlement_success_finalizes_and_revokes() {
    let mut c = fresh_contract();
    let pk = vec![15u8; 3];
    let ctx = self_ctx(&pk);
    c.send(pk.clone(), String::from("tok"), 2_000_000, &ctx);
    let d = c.create_account_and_claim(String::from("carol"), vec![22u8], &ctx).unwrap();
    let r = c.on_account_created_and_claimed(d.continuation, &vec![PromiseOutcome::Successful], &ctx);
    match r.unwrap() {
        Settlement::Finalized { revoked_key } => assert_eq!(revoked_key, pk),
        Settlement::Compensated => panic!("expected finalization"),
    }
    assert!(!c.bindings.is_bound(&pk));
    assert_eq!(c.get_key_balance(&pk), Err(RedeemError::NotFound));
}

#[test]
fn settlement_failure_compensates_grant() {
    let mut c = fresh_contract();
    let pk = vec![16u8; 3];
    let ctx = self_ctx(&pk);
    c.send(pk.clone(), String::from("token-y"), 2_000_000, &ctx);
    let d = c.create_account_and_claim(String::from("carol"), vec![23u8], &ctx).unwrap();
    let r = c.on_account_created_and_claimed(d.continuation, &vec![PromiseOutcome::Failed], &ctx);
    assert!(matches!(r.unwrap(), Settlement::Compensated));
    // the grant is back with its original payload; the capability may retry
    assert_eq!(c.get_key_balance(&pk), Ok(1_000_000));
    assert!(c.bindings.is_bound(&pk));
    let grant = c.grants.get(&pk).unwrap();
    assert_eq!(grant.token_ref, Some(String::from("token-y")));
}

#[test]
fn callback_arity_zero_is_fatal() {
    let mut c = fresh_contract();
    let pk = vec![17u8; 3];
    let ctx = self_ctx(&pk);
    c.send(pk.clone(), String::from("tok"), 2_000_000, &ctx);
    let d = c.create_account_and_claim(String::from("carol"), vec![24u8], &ctx).unwrap();
    let r = c.on_account_created_and_claimed(d.continuation, &vec![], &ctx);
    assert_eq!(r.unwrap_err(), RedeemError::ContinuationArity);
    // neither finalized nor compensated
    assert!(c.bindings.is_bound(&pk));
    assert_eq!(c.get_key_balance(&pk), Err(RedeemError::NotFound));
}

#[test]
fn callback_arity_two_is_fatal() {
    let mut c = fresh_contract();
    let pk = vec![18u8; 3];
    let ctx = self_ctx(&pk);
    c.send(pk.clone(), String::from("tok"), 2_000_000, &ctx);
    let d = c.create_account_and_claim(String::from("carol"), vec![25u8], &ctx).unwrap();
    let r = c.on_account_created_and_claimed(
        d.continuation,
        &vec![PromiseOutcome::Successful, PromiseOutcome::Successful],
        &ctx,
    );
    assert_eq!(r.unwrap_err(), RedeemError::ContinuationArity);
    assert!(c.bindings.is_bound(&pk));
}

#[test]
fn retry_after_compensation_succeeds_once() {
    let mut c = fresh_contract();
    let pk = vec![19u8; 3];
    let ctx = self_ctx(&pk);
    c.send(pk.clone(), String::from("tok"), 2_000_000, &ctx);
    let d = c.create_account_and_claim(String::from("carol"), vec![26u8], &ctx).unwrap();
    let r = c.on_account_created_and_claimed(d.continuation, &vec![PromiseOutcome::Failed], &ctx);
    assert!(matches!(r.unwrap(), Settlement::Compensated));
    // the retained capability redeems the reinstated grant, exactly once
    let d2 = c.claim(String::from("alice"), &ctx).unwrap();
    assert_eq!(d2.amount, Some(1_000_000));
    assert_eq!(c.claim(String::from("alice"), &ctx).unwrap_err(), RedeemError::NotFound);
}

#[test]
fn account_id_format_rules() {
    assert!(nearyou::is_valid_account_id("alice"));
    assert!(nearyou::is_valid_account_id("a1"));
    assert!(nearyou::is_valid_account_id("ok.sub_account-1"));
    assert!(!nearyou::is_valid_account_id("a"));
    assert!(!nearyou::is_valid_account_id(""));
    assert!(!nearyou::is_valid_account_id("Alice"));
    assert!(!nearyou::is_valid_account_id("-alice"));
    assert!(!nearyou::is_valid_account_id("alice-"));
    assert!(!nearyou::is_valid_account_id("a..b"));
    assert!(!nearyou::is_valid_account_id("has space"));
    let long = "a".repeat(64);
    assert!(nearyou::is_valid_account_id(&long));
    let too_long = "a".repeat(65);
    assert!(!nearyou::is_valid_account_id(&too_long));
}

#[test]
fn method_names_of_redemption_binding() {
    let m = nearyou::MethodSet { claim: true, create_account_and_claim: true };
    assert_eq!(m.method_names(), String::from("claim,create_account_and_claim"));
    let only_claim = nearyou::MethodSet { claim: true, create_account_and_claim: false };
    assert_eq!(only_claim.method_names(), String::from("claim"));
    let none = nearyou::MethodSet { claim: false, create_account_and_claim: false };
    assert_eq!(none.method_names(), String::new());
}

#[test]
fn grant_store_lookup_and_removal() {
    let mut s = nearyou::GrantStore::new();
    let k1 = vec![1u8, 2];
    let k2 = vec![1u8, 3];
    s.create(k1.clone(), Some(5), None);
    s.create(k2.clone(), None, Some(String::from("t")));
    s.create(k1.clone(), Some(7), None);
    let g1 = s.get(&k1).unwrap();
    assert_eq!(g1.balance, Some(12));
    assert_eq!(g1.token_ref, None);
    let g2 = s.remove(&k2).unwrap();
    assert_eq!(g2.balance, None);
    assert_eq!(g2.token_ref, Some(String::from("t")));
    assert_eq!(s.get(&k2).unwrap_err(), nearyou::RedeemError::NotFound);
    assert_eq!(s.remove(&k2).unwrap_err(), nearyou::RedeemError::NotFound);
}

#[test]
fn minimal_deposit_leaves_smallest_balance() {
    let mut c = fresh_contract();
    let pk = vec![20u8; 3];
    let ctx = self_ctx(&pk);
    c.send(pk.clone(), String::from("tok"), FEE + 1, &ctx);
    assert_eq!(c.get_key_balance(&pk), Ok(1));
}

#[test]
fn send_is_open_to_any_caller() {
    let mut c = fresh_contract();
    let pk = vec![27u8; 3];
    let action = c.send(pk.clone(), String::from("tok"), 2_000_000, &foreign_ctx(&pk));
    assert_eq!(action.receiver_id, String::from("linkdrop"));
    assert_eq!(c.get_key_balance(&pk), Ok(1_000_000));
}
