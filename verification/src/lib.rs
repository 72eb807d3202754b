pub mod account;
pub mod actions;
pub mod capability;
pub mod contract;
pub mod errors;
pub mod grant;
pub mod laws;
pub mod store;

pub use account::is_valid_account_id;
pub use actions::CallContext;
pub use actions::ClaimDispatch;
pub use actions::CreateAndClaimDispatch;
pub use actions::IssueCapability;
pub use actions::PromiseOutcome;
pub use actions::Settlement;
pub use actions::SettlementContinuation;
pub use actions::TokenTransfer;
pub use capability::CapabilityBinding;
pub use capability::CapabilityManager;
pub use capability::MethodSet;
pub use contract::ACCESS_KEY_ALLOWANCE;
pub use contract::ExtLinkDrop;
pub use contract::NearYou;
pub use errors::RedeemError;
pub use grant::Grant;
pub use grant::GrantStore;
