use vstd::prelude::*;
use crate::grant::Grant;

verus! {

/// The context the host hands every invocation: who called, which account
/// the contract itself runs as, and which capability signed the call.
#[derive(Debug)]
pub struct CallContext {
    pub predecessor_account_id: String,
    pub current_account_id: String,
    pub signer_account_pk: Vec<u8>,
}

impl CallContext {
    /// The invocation originates from the contract's own identity: the
    /// trust boundary every state-mutating redemption operation asserts.
    pub open spec fn self_authorized(&self) -> bool {
        self.predecessor_account_id@ == self.current_account_id@
    }
}

/// The external operation a deposit asks the host to perform: authorize
/// the capability key on the contract's own account, restricted to the
/// named operations and budgeted with the allowance.
#[derive(Debug)]
pub struct IssueCapability {
    pub public_key: Vec<u8>,
    pub allowance: u128,
    pub receiver_id: String,
    pub method_names: String,
}

/// A token delivery instruction addressed to the token contract.
#[derive(Debug)]
pub struct TokenTransfer {
    pub token_contract: String,
    pub receiver_id: String,
    pub token_id: String,
}

/// The external operations a direct claim asks the host to dispatch,
/// fire-and-forget: revoke the capability key and deliver the payload.
#[derive(Debug)]
pub struct ClaimDispatch {
    pub revoked_key: Vec<u8>,
    pub receiver_id: String,
    pub amount: Option<u128>,
    pub token: Option<TokenTransfer>,
}

/// The correlation state carried across the suspension between dispatch
/// and callback: which capability is settling, and the payload to
/// reinstate should settlement fail.
#[derive(Debug)]
pub struct SettlementContinuation {
    pub capability: Vec<u8>,
    pub payload: Grant,
}

/// The chained external sequence a create-and-claim asks the host to
/// dispatch: create the account, bind its credential, deliver the
/// payload, and report the outcome through the settlement callback.
#[derive(Debug)]
pub struct CreateAndClaimDispatch {
    pub new_account_id: String,
    pub new_public_key: Vec<u8>,
    pub amount: Option<u128>,
    pub token: Option<TokenTransfer>,
    pub continuation: SettlementContinuation,
}

/// How the settlement callback resolved a deferred external outcome.
#[derive(Debug)]
pub enum Settlement {
    /// The settlement succeeded: the capability key named here is to be
    /// revoked permanently; the payload is irrevocably delivered.
    Finalized { revoked_key: Vec<u8> },
    /// The settlement failed: the grant has been reinstated, and the
    /// still-bound capability may retry redemption.
    Compensated,
}

/// One deferred external result, as the host reports it.
#[derive(Clone, Copy, Debug, PartialEq, Eq, Structural)]
pub enum PromiseOutcome {
    Successful,
    Failed,
}

} // verus!
