use vstd::prelude::*;
use crate::account::is_valid_account_id;
use crate::account::valid_account_id;
use crate::actions::CallContext;
use crate::actions::ClaimDispatch;
use crate::actions::CreateAndClaimDispatch;
use crate::actions::IssueCapability;
use crate::actions::PromiseOutcome;
use crate::actions::Settlement;
use crate::actions::SettlementContinuation;
use crate::actions::TokenTransfer;
use crate::capability::CapabilityBinding;
use crate::capability::CapabilityManager;
use crate::capability::MethodSet;
use crate::capability::redemption_binding;
use crate::capability::redemption_methods;
use crate::capability::regranted;
use crate::capability::spec_method_names;
use crate::capability::stored_binding;
use crate::errors::RedeemError;
use crate::grant::Grant;
use crate::grant::GrantStore;
use crate::grant::merged_grant;
use crate::grant::stored_balance;
use crate::grant::stored_grant;
use crate::store::clone_bytes;

verus! {

/// Allowance budgeted to each issued capability key, sized to cover the
/// cost of exercising it.
pub const ACCESS_KEY_ALLOWANCE: u128 = 1_000_000_000_000_000_000_000_000;

/// The token delivery part of a dispatch matches the token reference of
/// the consumed grant: present exactly when the grant held one, addressed
/// to the token contract, and naming `receiver` as recipient.
pub open spec fn delivers_token(
    t: Option<TokenTransfer>,
    token_ref: Option<String>,
    token_contract: Seq<char>,
    receiver: Seq<char>,
) -> bool {
    match token_ref {
        Some(id) => t matches Some(tt) && tt.token_contract@ == token_contract && tt.receiver_id@
            == receiver && tt.token_id@ == id@,
        None => t is None,
    }
}

/// A successful redemption step: the grant for `k` existed before and is
/// consumed, exactly once, by the step.
pub open spec fn redemption(pre: NearYou, post: NearYou, k: Seq<u8>) -> bool {
    &&& pre.grants@.contains_key(k)
    &&& post.grants@ == pre.grants@.remove(k)
}

/// The escrow-and-claim contract: deposits lock value behind one-time
/// capabilities, redemptions consume a grant and dispatch settlement, and
/// the settlement callback finalizes or compensates.
pub struct NearYou {
    /// The account of the external token contract payloads are delivered
    /// through.
    pub nft_contract: String,
    /// The allowance budgeted to each capability binding.
    pub access_key_allowance: u128,
    /// Locked value/token records, keyed by capability.
    pub grants: GrantStore,
    /// Capability bindings, keyed by capability.
    pub bindings: CapabilityManager,
}

impl NearYou {
    /// Both stores are well formed, every granted capability is still
    /// bound, and every binding is restricted to exactly the two
    /// redemption operations.
    pub open spec fn wf(&self) -> bool {
        &&& self.grants.wf()
        &&& self.bindings.wf()
        &&& forall|k: Seq<u8>|
            #[trigger] self.grants@.contains_key(k) ==> self.bindings@.contains_key(k)
        &&& forall|k: Seq<u8>|
            #[trigger] self.bindings@.contains_key(k) ==> self.bindings@[k].allowed
                == redemption_methods()
    }

    /// The configuration of the contract is untouched by an operation.
    pub open spec fn same_config(pre: NearYou, post: NearYou) -> bool {
        &&& post.nft_contract == pre.nft_contract
        &&& post.access_key_allowance == pre.access_key_allowance
    }

    /// Initialize the contract with the token contract's account and the
    /// per-capability allowance. Both stores start empty.
    pub fn new(nft_contract: String, access_key_allowance: u128) -> (r: Self)
        ensures
            r.wf(),
            r.nft_contract == nft_contract,
            r.access_key_allowance == access_key_allowance,
            r.grants@ == Map::<Seq<u8>, Grant>::empty(),
            r.bindings@ == Map::<Seq<u8>, CapabilityBinding>::empty(),
    {
        NearYou {
            nft_contract,
            access_key_allowance,
            grants: GrantStore::new(),
            bindings: CapabilityManager::new(),
        }
    }

    /// Deposit `attached_deposit` and a token reference under
    /// `public_key`: the deposit net of the allowance accumulates onto any
    /// stored balance, the token reference overwrites any stored one, and
    /// the capability is (re-)granted the two redemption operations,
    /// idempotently. Returns the instruction to authorize the capability
    /// key on the contract's own account.
    pub fn send(
        &mut self,
        public_key: Vec<u8>,
        nft_id: String,
        attached_deposit: u128,
        ctx: &CallContext,
    ) -> (r: IssueCapability)
        requires
            old(self).wf(),
            attached_deposit > old(self).access_key_allowance,
            stored_balance(old(self).grants@, public_key@) + attached_deposit - old(
                self,
            ).access_key_allowance <= u128::MAX,
        ensures
            final(self).wf(),
            NearYou::same_config(*old(self), *final(self)),
            final(self).grants@ == old(self).grants@.insert(
                public_key@,
                merged_grant(
                    stored_grant(old(self).grants@, public_key@),
                    Some((attached_deposit - old(self).access_key_allowance) as u128),
                    Some(nft_id),
                ),
            ),
            final(self).bindings@ == old(self).bindings@.insert(
                public_key@,
                regranted(
                    stored_binding(old(self).bindings@, public_key@),
                    redemption_binding(old(self).access_key_allowance),
                ),
            ),
            r.public_key@ == public_key@,
            r.allowance == old(self).access_key_allowance,
            r.receiver_id@ == ctx.current_account_id@,
            r.method_names@ == spec_method_names(redemption_methods()),
    {
        let fee = self.access_key_allowance;
        let net: u128 = attached_deposit - fee;
        let grant_key = clone_bytes(&public_key);
        let action_key = clone_bytes(&public_key);
        self.grants.create(grant_key, Some(net), Some(nft_id));
        let methods = MethodSet { claim: true, create_account_and_claim: true };
        let names = methods.method_names();
        self.bindings.grant(public_key, CapabilityBinding { allowed: methods, allowance: fee });
        proof {
            let k = public_key@;
            assert forall|q: Seq<u8>| #[trigger] self.grants@.contains_key(q)
                implies self.bindings@.contains_key(q) by {
                if q != k {
                    assert(old(self).grants@.contains_key(q));
                }
            }
            assert forall|q: Seq<u8>| #[trigger] self.bindings@.contains_key(q)
                implies self.bindings@[q].allowed == redemption_methods() by {
                if q != k {
                    assert(old(self).bindings@.contains_key(q));
                }
            }
        }
        IssueCapability {
            public_key: action_key,
            allowance: fee,
            receiver_id: ctx.current_account_id.clone(),
            method_names: names,
        }
    }

    /// Redeem the signer's capability toward an existing account:
    /// self-authorized only, the target identity must be well formed, and
    /// the grant must still exist. Consumes the grant, revokes the
    /// capability binding, and returns the fire-and-forget delivery of the
    /// whole payload to `account_id`.
    pub fn claim(&mut self, account_id: String, ctx: &CallContext) -> (r: Result<
        ClaimDispatch,
        RedeemError,
    >)
        requires
            old(self).wf(),
        ensures
            final(self).wf(),
            NearYou::same_config(*old(self), *final(self)),
            !ctx.self_authorized() ==> r == Err::<ClaimDispatch, RedeemError>(
                RedeemError::Authorization,
            ) && *final(self) == *old(self),
            ctx.self_authorized() && !valid_account_id(account_id@) ==> r == Err::<
                ClaimDispatch,
                RedeemError,
            >(RedeemError::Validation) && *final(self) == *old(self),
            ctx.self_authorized() && valid_account_id(account_id@) && !old(
                self,
            ).grants@.contains_key(ctx.signer_account_pk@) ==> r == Err::<
                ClaimDispatch,
                RedeemError,
            >(RedeemError::NotFound) && *final(self) == *old(self),
            ctx.self_authorized() && valid_account_id(account_id@) && old(
                self,
            ).grants@.contains_key(ctx.signer_account_pk@) ==> ({
                &&& redemption(*old(self), *final(self), ctx.signer_account_pk@)
                &&& final(self).bindings@ == old(self).bindings@.remove(ctx.signer_account_pk@)
                &&& r matches Ok(d) && d.revoked_key@ == ctx.signer_account_pk@ && d.receiver_id@
                    == account_id@ && d.amount == old(self).grants@[ctx.signer_account_pk@].balance
                    && delivers_token(
                    d.token,
                    old(self).grants@[ctx.signer_account_pk@].token_ref,
                    old(self).nft_contract@,
                    account_id@,
                )
            }),
    {
        if !(ctx.predecessor_account_id == ctx.current_account_id) {
            return Err(RedeemError::Authorization);
        }
        if !is_valid_account_id(account_id.as_str()) {
            return Err(RedeemError::Validation);
        }
        let grant = match self.grants.remove(&ctx.signer_account_pk) {
            Ok(g) => g,
            Err(e) => {
                return Err(e);
            },
        };
        self.bindings.revoke(&ctx.signer_account_pk);
        proof {
            assert forall|q: Seq<u8>| #[trigger] self.grants@.contains_key(q)
                implies self.bindings@.contains_key(q) by {
                assert(old(self).grants@.contains_key(q));
            }
            assert forall|q: Seq<u8>| #[trigger] self.bindings@.contains_key(q)
                implies self.bindings@[q].allowed == redemption_methods() by {
                assert(old(self).bindings@.contains_key(q));
            }
        }
        let token = match grant.token_ref {
            Some(id) => Some(
                TokenTransfer {
                    token_contract: self.nft_contract.clone(),
                    receiver_id: account_id.clone(),
                    token_id: id,
                },
            ),
            None => None,
        };
        Ok(
            ClaimDispatch {
                revoked_key: clone_bytes(&ctx.signer_account_pk),
                receiver_id: account_id,
                amount: grant.balance,
                token,
            },
        )
    }

    /// Redeem the signer's capability toward a brand-new account:
    /// self-authorized only, the new identity must be well formed, and the
    /// grant must still exist. Consumes the grant and returns the chained
    /// create-and-deliver sequence together with the settlement
    /// continuation; the capability binding stays in place until the
    /// settlement callback confirms the outcome.
    pub fn create_account_and_claim(
        &mut self,
        new_account_id: String,
        new_public_key: Vec<u8>,
        ctx: &CallContext,
    ) -> (r: Result<CreateAndClaimDispatch, RedeemError>)
        requires
            old(self).wf(),
        ensures
            final(self).wf(),
            NearYou::same_config(*old(self), *final(self)),
            !ctx.self_authorized() ==> r == Err::<CreateAndClaimDispatch, RedeemError>(
                RedeemError::Authorization,
            ) && *final(self) == *old(self),
            ctx.self_authorized() && !valid_account_id(new_account_id@) ==> r == Err::<
                CreateAndClaimDispatch,
                RedeemError,
            >(RedeemError::Validation) && *final(self) == *old(self),
            ctx.self_authorized() && valid_account_id(new_account_id@) && !old(
                self,
            ).grants@.contains_key(ctx.signer_account_pk@) ==> r == Err::<
                CreateAndClaimDispatch,
                RedeemError,
            >(RedeemError::NotFound) && *final(self) == *old(self),
            ctx.self_authorized() && valid_account_id(new_account_id@) && old(
                self,
            ).grants@.contains_key(ctx.signer_account_pk@) ==> ({
                &&& redemption(*old(self), *final(self), ctx.signer_account_pk@)
                &&& final(self).bindings@ == old(self).bindings@
                &&& r matches Ok(d) && d.new_account_id@ == new_account_id@ && d.new_public_key@
                    == new_public_key@ && d.amount == old(
                    self,
                ).grants@[ctx.signer_account_pk@].balance && delivers_token(
                    d.token,
                    old(self).grants@[ctx.signer_account_pk@].token_ref,
                    old(self).nft_contract@,
                    new_account_id@,
                ) && d.continuation.capability@ == ctx.signer_account_pk@ && d.continuation.payload
                    == old(self).grants@[ctx.signer_account_pk@]
            }),
    {
        if !(ctx.predecessor_account_id == ctx.current_account_id) {
            return Err(RedeemError::Authorization);
        }
        if !is_valid_account_id(new_account_id.as_str()) {
            return Err(RedeemError::Validation);
        }
        let grant = match self.grants.remove(&ctx.signer_account_pk) {
            Ok(g) => g,
            Err(e) => {
                return Err(e);
            },
        };
        proof {
            assert forall|q: Seq<u8>| #[trigger] self.grants@.contains_key(q)
                implies self.bindings@.contains_key(q) by {
                assert(old(self).grants@.contains_key(q));
            }
        }
        let token = match &grant.token_ref {
            Some(id) => Some(
                TokenTransfer {
                    token_contract: self.nft_contract.clone(),
                    receiver_id: new_account_id.clone(),
                    token_id: id.clone(),
                },
            ),
            None => None,
        };
        Ok(
            CreateAndClaimDispatch {
                new_account_id,
                new_public_key,
                amount: grant.balance,
                token,
                continuation: SettlementContinuation {
                    capability: clone_bytes(&ctx.signer_account_pk),
                    payload: grant,
                },
            },
        )
    }

    /// Read the stored balance behind a capability; `NotFound` where no
    /// grant exists (unknown, forged or already consumed).
    pub fn get_key_balance(&self, key: &Vec<u8>) -> (r: Result<u128, RedeemError>)
        requires
            self.wf(),
        ensures
            match r {
                Ok(b) => self.grants@.contains_key(key@) && b == stored_balance(
                    self.grants@,
                    key@,
                ),
                Err(e) => e == RedeemError::NotFound && !self.grants@.contains_key(key@),
            },
    {
        match self.grants.get(key) {
            Ok(g) => Ok(g.balance_or_zero()),
            Err(e) => Err(e),
        }
    }
}

/// The contract's own deferred-callback interface: the single designated
/// continuation handler that resolves a dispatched settlement.
pub trait ExtLinkDrop {
    /// The state a settlement callback presumes: a settlement for this
    /// continuation was dispatched and is still pending.
    spec fn settle_ready(&self, continuation: &SettlementContinuation) -> bool;

    /// Resolve a dispatched settlement from exactly one deferred external
    /// result: finalize on success, compensate on failure.
    fn on_account_created_and_claimed(
        &mut self,
        continuation: SettlementContinuation,
        results: &Vec<PromiseOutcome>,
        ctx: &CallContext,
    ) -> (r: Result<Settlement, RedeemError>)
        requires
            old(self).settle_ready(&continuation),
    ;
}

impl ExtLinkDrop for NearYou {
    /// While a settlement is pending, the grant is already consumed and
    /// the capability, under deferred revocation, is still bound; the
    /// pending payload is a real payload.
    open spec fn settle_ready(&self, continuation: &SettlementContinuation) -> bool {
        &&& self.wf()
        &&& continuation.payload.wf()
        &&& self.bindings@.contains_key(continuation.capability@)
        &&& !self.grants@.contains_key(continuation.capability@)
    }

    /// Self-authorized only. Reads exactly one prior external result; any
    /// other count is a fatal arity violation and mutates nothing. On
    /// success the capability binding is revoked permanently; on failure
    /// the grant is reinstated with the pending payload so the still-bound
    /// capability may retry.
    fn on_account_created_and_claimed(
        &mut self,
        continuation: SettlementContinuation,
        results: &Vec<PromiseOutcome>,
        ctx: &CallContext,
    ) -> (r: Result<Settlement, RedeemError>)
        ensures
            final(self).wf(),
            NearYou::same_config(*old(self), *final(self)),
            !ctx.self_authorized() ==> r == Err::<Settlement, RedeemError>(
                RedeemError::Authorization,
            ) && *final(self) == *old(self),
            ctx.self_authorized() && results@.len() != 1 ==> r == Err::<Settlement, RedeemError>(
                RedeemError::ContinuationArity,
            ) && *final(self) == *old(self),
            ctx.self_authorized() && results@.len() == 1 && results@[0] is Successful ==> ({
                &&& final(self).grants@ == old(self).grants@
                &&& final(self).bindings@ == old(self).bindings@.remove(continuation.capability@)
                &&& r matches Ok(s) && s matches Settlement::Finalized { revoked_key }
                    && revoked_key@ == continuation.capability@
            }),
            ctx.self_authorized() && results@.len() == 1 && results@[0] is Failed ==> ({
                &&& final(self).grants@ == old(self).grants@.insert(
                    continuation.capability@,
                    continuation.payload,
                )
                &&& final(self).bindings@ == old(self).bindings@
                &&& r matches Ok(s) && s is Compensated
            }),
    {
        if !(ctx.predecessor_account_id == ctx.current_account_id) {
            return Err(RedeemError::Authorization);
        }
        if results.len() != 1 {
            return Err(RedeemError::ContinuationArity);
        }
        match results[0] {
            PromiseOutcome::Successful => {
                self.bindings.revoke(&continuation.capability);
                proof {
                    assert forall|q: Seq<u8>| #[trigger] self.grants@.contains_key(q)
                        implies self.bindings@.contains_key(q) by {
                        assert(old(self).grants@.contains_key(q));
                        assert(q != continuation.capability@);
                    }
                    assert forall|q: Seq<u8>| #[trigger] self.bindings@.contains_key(q)
                        implies self.bindings@[q].allowed == redemption_methods() by {
                        assert(old(self).bindings@.contains_key(q));
                    }
                }
                Ok(Settlement::Finalized { revoked_key: continuation.capability })
            },
            PromiseOutcome::Failed => {
                let ghost pre = *self;
                self.grants.reinstate(continuation.capability, continuation.payload);
                proof {
                    assert forall|q: Seq<u8>| #[trigger] self.grants@.contains_key(q)
                        implies self.bindings@.contains_key(q) by {
                        if q != continuation.capability@ {
                            assert(old(self).grants@.contains_key(q));
                        }
                    }
                }
                Ok(Settlement::Compensated)
            },
        }
    }
}

} // verus!
