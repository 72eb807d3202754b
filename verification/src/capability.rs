use vstd::prelude::*;
use vstd::string::StringExecFns;
use crate::store::KeyedStore;

verus! {

/// The fixed, narrow set of operations a capability may invoke through
/// the contract's own execution path.
#[derive(Debug)]
pub struct MethodSet {
    pub claim: bool,
    pub create_account_and_claim: bool,
}

/// A capability bound to the contract's own execution identity,
/// restricted to `allowed` and budgeted with `allowance`.
#[derive(Debug)]
pub struct CapabilityBinding {
    pub allowed: MethodSet,
    pub allowance: u128,
}

/// The method set every redemption capability is granted: `claim` and
/// `create_account_and_claim`, nothing else.
pub open spec fn redemption_methods() -> MethodSet {
    MethodSet { claim: true, create_account_and_claim: true }
}

/// The comma-joined operation names of a method set, as the host's
/// restricted access path expects them.
pub open spec fn spec_method_names(m: MethodSet) -> Seq<char> {
    if m.claim && m.create_account_and_claim {
        "claim,create_account_and_claim"@
    } else if m.claim {
        "claim"@
    } else if m.create_account_and_claim {
        "create_account_and_claim"@
    } else {
        ""@
    }
}

impl MethodSet {
    /// Render the comma-joined operation names of this method set.
    pub fn method_names(&self) -> (r: String)
        ensures
            r@ == spec_method_names(*self),
    {
        if self.claim && self.create_account_and_claim {
            String::from_str("claim,create_account_and_claim")
        } else if self.claim {
            String::from_str("claim")
        } else if self.create_account_and_claim {
            String::from_str("create_account_and_claim")
        } else {
            proof {
                reveal_strlit("");
                assert(""@ =~= Seq::<char>::empty());
            }
            String::new()
        }
    }
}

/// The binding a fresh grant receives: the two redemption operations,
/// budgeted with `allowance`.
pub open spec fn redemption_binding(allowance: u128) -> CapabilityBinding {
    CapabilityBinding { allowed: redemption_methods(), allowance }
}

/// A re-grant of an already-bound capability is idempotent: the allowance
/// is refreshed, the method set stays what it was. An unbound capability
/// receives the binding as given.
pub open spec fn regranted(prev: Option<CapabilityBinding>, b: CapabilityBinding) -> CapabilityBinding {
    match prev {
        Some(p) => CapabilityBinding { allowed: p.allowed, allowance: b.allowance },
        None => b,
    }
}

/// The stored binding for a capability, or `None` where the manager holds
/// none.
pub open spec fn stored_binding(
    m: Map<Seq<u8>, CapabilityBinding>,
    k: Seq<u8>,
) -> Option<CapabilityBinding> {
    if m.contains_key(k) {
        Some(m[k])
    } else {
        None
    }
}

/// Binds and unbinds capabilities to the contract's restricted execution
/// path. A binding exists exactly while its capability may still redeem.
pub struct CapabilityManager {
    store: KeyedStore<CapabilityBinding>,
}

impl CapabilityManager {
    /// The abstract contents: capability bytes to binding.
    pub closed spec fn view(&self) -> Map<Seq<u8>, CapabilityBinding> {
        self.store@
    }

    pub closed spec fn wf(&self) -> bool {
        self.store.wf()
    }

    /// An empty manager.
    pub fn new() -> (r: Self)
        ensures
            r.wf(),
            r@ == Map::<Seq<u8>, CapabilityBinding>::empty(),
    {
        CapabilityManager { store: KeyedStore::new() }
    }

    /// Bind `capability` to the operations of `binding`. Re-granting an
    /// already-bound capability refreshes its allowance and keeps its
    /// method set, rather than creating a second independent binding.
    pub fn grant(&mut self, capability: Vec<u8>, binding: CapabilityBinding)
        requires
            old(self).wf(),
        ensures
            final(self).wf(),
            final(self)@ == old(self)@.insert(
                capability@,
                regranted(stored_binding(old(self)@, capability@), binding),
            ),
    {
        let ghost prev_spec = stored_binding(old(self)@, capability@);
        let refreshed = match self.store.remove(&capability) {
            Some(p) => CapabilityBinding { allowed: p.allowed, allowance: binding.allowance },
            None => binding,
        };
        proof {
            assert(refreshed == regranted(prev_spec, binding));
        }
        self.store.insert(capability, refreshed);
        proof {
            assert(self@ =~= old(self)@.insert(capability@, regranted(prev_spec, binding)));
        }
    }

    /// Destroy the binding for `capability`, if any.
    pub fn revoke(&mut self, capability: &Vec<u8>)
        requires
            old(self).wf(),
        ensures
            final(self).wf(),
            final(self)@ == old(self)@.remove(capability@),
    {
        let removed = self.store.remove(capability);
        proof {
            if removed is None {
                assert(self@ =~= old(self)@.remove(capability@));
            }
        }
    }

    /// Whether `capability` is currently bound.
    pub fn is_bound(&self, capability: &Vec<u8>) -> (r: bool)
        ensures
            r == self@.contains_key(capability@),
    {
        self.store.contains_key(capability)
    }

    /// The capabilities currently bound.
    pub fn keys(&self) -> (r: Vec<Vec<u8>>)
        ensures
            forall|i: int| 0 <= i < r@.len() ==> self@.contains_key(#[trigger] r@[i]@),
            forall|k: Seq<u8>| #[trigger] self@.contains_key(k) ==> exists|i: int|
                0 <= i < r@.len() && r@[i]@ == k,
    {
        self.store.keys()
    }

    /// Read the binding for `capability`, if any.
    pub fn get(&self, capability: &Vec<u8>) -> (r: Option<&CapabilityBinding>)
        requires
            self.wf(),
        ensures
            match r {
                Some(b) => self@.contains_key(capability@) && *b == self@[capability@],
                None => !self@.contains_key(capability@),
            },
    {
        self.store.get(capability)
    }
}

} // verus!
