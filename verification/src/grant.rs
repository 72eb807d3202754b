use vstd::prelude::*;
use crate::errors::RedeemError;
use crate::store::KeyedStore;

verus! {

/// The value locked behind one capability: a fungible balance, a token
/// reference, or both. A stored grant always carries at least one of the
/// two.
#[derive(Debug)]
pub struct Grant {
    pub balance: Option<u128>,
    pub token_ref: Option<String>,
}

impl Grant {
    /// At least one of the two payload parts is present.
    pub open spec fn wf(&self) -> bool {
        self.balance is Some || self.token_ref is Some
    }

    /// The fungible part of the payload, counting an absent balance as zero.
    pub open spec fn spec_balance(&self) -> u128 {
        match self.balance {
            Some(b) => b,
            None => 0,
        }
    }

    /// The fungible part of the payload, counting an absent balance as zero.
    pub fn balance_or_zero(&self) -> (r: u128)
        ensures
            r == self.spec_balance(),
    {
        match self.balance {
            Some(b) => b,
            None => 0,
        }
    }
}

/// The grant a deposit leaves behind: balances of repeated deposits to the
/// same capability accumulate, while a token reference overwrites any
/// prior one (last write wins).
pub open spec fn merged_grant(
    prev: Option<Grant>,
    value: Option<u128>,
    token: Option<String>,
) -> Grant {
    let prev_balance = match prev {
        Some(g) => g.spec_balance(),
        None => 0,
    };
    Grant {
        balance: match value {
            Some(v) => Some((prev_balance + v) as u128),
            None => match prev {
                Some(g) => g.balance,
                None => None,
            },
        },
        token_ref: match token {
            Some(t) => Some(t),
            None => match prev {
                Some(g) => g.token_ref,
                None => None,
            },
        },
    }
}

/// The stored grant for a capability, or `None` where the store holds none.
pub open spec fn stored_grant(m: Map<Seq<u8>, Grant>, k: Seq<u8>) -> Option<Grant> {
    if m.contains_key(k) {
        Some(m[k])
    } else {
        None
    }
}

/// The stored balance for a capability, counting an absent grant or an
/// absent balance as zero.
pub open spec fn stored_balance(m: Map<Seq<u8>, Grant>, k: Seq<u8>) -> u128 {
    match stored_grant(m, k) {
        Some(g) => g.spec_balance(),
        None => 0,
    }
}

/// Keyed storage mapping a capability identifier to its locked
/// value/token record. Owns every grant exclusively; redemption removes a
/// grant exactly once, and a failed settlement reinstates it.
pub struct GrantStore {
    store: KeyedStore<Grant>,
}

impl GrantStore {
    /// The abstract contents: capability bytes to grant record.
    pub closed spec fn view(&self) -> Map<Seq<u8>, Grant> {
        self.store@
    }

    pub closed spec fn wf(&self) -> bool {
        &&& self.store.wf()
        &&& forall|k: Seq<u8>| self@.contains_key(k) ==> (#[trigger] self@[k]).wf()
    }

    /// An empty store.
    pub fn new() -> (r: Self)
        ensures
            r.wf(),
            r@ == Map::<Seq<u8>, Grant>::empty(),
    {
        GrantStore { store: KeyedStore::new() }
    }

    /// Deposit a payload under `capability`: absent, the merged grant is
    /// inserted afresh; present, the new balance accumulates onto the
    /// stored one and a token reference overwrites the stored one.
    pub fn create(&mut self, capability: Vec<u8>, value: Option<u128>, token: Option<String>)
        requires
            old(self).wf(),
            value is Some || token is Some,
            stored_balance(old(self)@, capability@) + (match value {
                Some(v) => v as int,
                None => 0,
            }) <= u128::MAX,
        ensures
            final(self).wf(),
            final(self)@ == old(self)@.insert(
                capability@,
                merged_grant(stored_grant(old(self)@, capability@), value, token),
            ),
    {
        let ghost prev_spec = stored_grant(old(self)@, capability@);
        let prev = self.store.remove(&capability);
        let prev_balance: u128 = match &prev {
            Some(g) => g.balance_or_zero(),
            None => 0,
        };
        let merged = Grant {
            balance: match value {
                Some(v) => Some(prev_balance + v),
                None => match &prev {
                    Some(g) => g.balance,
                    None => None,
                },
            },
            token_ref: match token {
                Some(t) => Some(t),
                None => match prev {
                    Some(g) => g.token_ref,
                    None => None,
                },
            },
        };
        proof {
            assert(merged == merged_grant(prev_spec, value, token));
        }
        self.store.insert(capability, merged);
        proof {
            assert(self@ =~= old(self)@.insert(
                capability@,
                merged_grant(prev_spec, value, token),
            ));
        }
    }

    /// Consume the grant for `capability`; `NotFound` where none exists
    /// (an unknown, forged or already-claimed capability).
    pub fn remove(&mut self, capability: &Vec<u8>) -> (r: Result<Grant, RedeemError>)
        requires
            old(self).wf(),
        ensures
            final(self).wf(),
            match r {
                Ok(g) => old(self)@.contains_key(capability@) && g == old(self)@[capability@]
                    && final(self)@ == old(self)@.remove(capability@),
                Err(e) => e == RedeemError::NotFound && !old(self)@.contains_key(capability@)
                    && *final(self) == *old(self),
            },
    {
        match self.store.remove(capability) {
            Some(g) => Ok(g),
            None => Err(RedeemError::NotFound),
        }
    }

    /// Read the grant for `capability` without consuming it; `NotFound`
    /// where none exists.
    pub fn get(&self, capability: &Vec<u8>) -> (r: Result<&Grant, RedeemError>)
        requires
            self.wf(),
        ensures
            match r {
                Ok(g) => self@.contains_key(capability@) && *g == self@[capability@],
                Err(e) => e == RedeemError::NotFound && !self@.contains_key(capability@),
            },
    {
        match self.store.get(capability) {
            Some(g) => Ok(g),
            None => Err(RedeemError::NotFound),
        }
    }

    /// The capabilities a grant is currently stored under.
    pub fn keys(&self) -> (r: Vec<Vec<u8>>)
        ensures
            forall|i: int| 0 <= i < r@.len() ==> self@.contains_key(#[trigger] r@[i]@),
            forall|k: Seq<u8>| #[trigger] self@.contains_key(k) ==> exists|i: int|
                0 <= i < r@.len() && r@[i]@ == k,
    {
        self.store.keys()
    }

    /// Reinstate a consumed grant with its original payload, as the
    /// compensation branch of a failed settlement does.
    pub fn reinstate(&mut self, capability: Vec<u8>, payload: Grant)
        requires
            old(self).wf(),
            payload.wf(),
        ensures
            final(self).wf(),
            final(self)@ == old(self)@.insert(capability@, payload),
    {
        self.store.insert(capability, payload);
        proof {
            assert forall|k: Seq<u8>| self@.contains_key(k) implies (#[trigger] self@[k]).wf() by {
                if k != capability@ {
                    assert(old(self)@[k].wf());
                }
            }
        }
    }
}

} // verus!
