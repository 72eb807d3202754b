use vstd::prelude::*;
use crate::contract::NearYou;
use crate::contract::redemption;
use crate::grant::Grant;
use crate::grant::merged_grant;
use crate::grant::stored_balance;
use crate::grant::stored_grant;

verus! {

/// No double-spend: once a redemption has consumed capability `k`, the
/// store no longer holds a grant for `k`, so no later step can be a
/// redemption of `k` again before a new deposit; by the redemption
/// contracts, such an attempt fails with `NotFound` and mutates nothing.
pub proof fn lemma_no_double_spend(s0: NearYou, s1: NearYou, s2: NearYou, k: Seq<u8>)
    requires
        redemption(s0, s1, k),
    ensures
        !s1.grants@.contains_key(k),
        !redemption(s1, s2, k),
{
}

/// Conservation, compensation branch: a redemption that consumed the
/// grant for `k`, followed by a failed settlement that reinstated the
/// pending payload, leaves the grant store exactly as it stood before the
/// redemption — no value is created or destroyed on the way.
pub proof fn lemma_compensation_restores_grants(s0: NearYou, s1: NearYou, s2: NearYou, k: Seq<u8>)
    requires
        redemption(s0, s1, k),
        s2.grants@ == s1.grants@.insert(k, s0.grants@[k]),
    ensures
        s2.grants@ == s0.grants@,
{
    assert(s2.grants@ =~= s0.grants@);
}

/// Conservation, delivery branch: a deposit of net value `net` onto a
/// capability without a prior grant stores exactly `net` and exactly the
/// given token reference; a redemption then dispatches exactly that
/// stored payload to exactly one destination.
pub proof fn lemma_fresh_deposit_payload(
    m0: Map<Seq<u8>, Grant>,
    k: Seq<u8>,
    net: u128,
    token: String,
)
    requires
        !m0.contains_key(k),
    ensures
        merged_grant(stored_grant(m0, k), Some(net), Some(token)) == (Grant {
            balance: Some(net),
            token_ref: Some(token),
        }),
{
}

/// Accumulation: two deposits onto the same capability accumulate
/// additively — the stored balance afterwards is the prior balance plus
/// both net values — while the token reference of the later deposit
/// overwrites the earlier one (last write wins).
pub proof fn lemma_accumulation(
    m0: Map<Seq<u8>, Grant>,
    k: Seq<u8>,
    v1: u128,
    v2: u128,
    t1: String,
    t2: String,
)
    requires
        stored_balance(m0, k) + v1 + v2 <= u128::MAX,
    ensures
        ({
            let m1 = m0.insert(k, merged_grant(stored_grant(m0, k), Some(v1), Some(t1)));
            let m2 = m1.insert(k, merged_grant(stored_grant(m1, k), Some(v2), Some(t2)));
            &&& stored_balance(m2, k) == stored_balance(m0, k) + v1 + v2
            &&& m2[k].token_ref == Some(t2)
        }),
{
}

} // verus!
