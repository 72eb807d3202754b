use vstd::prelude::*;

verus! {

/// The errors a redemption or reconciliation operation can surface.
/// Each aborts the whole invocation: no state is mutated alongside one.
#[derive(Clone, Copy, Debug, PartialEq, Eq, Structural)]
pub enum RedeemError {
    /// A target account identity failed format validation.
    Validation,
    /// A self-authorized operation was invoked by a foreign caller.
    Authorization,
    /// No grant exists for the presented capability.
    NotFound,
    /// A settlement callback observed an external-result count other than
    /// one: a fatal internal-invariant violation.
    ContinuationArity,
}

} // verus!
