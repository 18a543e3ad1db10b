use vstd::prelude::*;
use crate::identity::Address;

verus! {

/// The identities that have proved their consent to one call. The registry
/// does not verify proofs itself: whoever calls it lists here the identities
/// whose proofs it has verified.
#[derive(Debug)]
pub struct Authorization {
    signers: Vec<Address>,
}

impl View for Authorization {
    type V = Set<Address>;

    closed spec fn view(&self) -> Set<Address> {
        Set::new(|a: Address| self.signers@.contains(a))
    }
}

impl Authorization {
    /// Nobody has consented.
    pub fn none() -> (auth: Authorization)
        ensures
            auth@ == Set::<Address>::empty(),
    {
        let auth = Authorization { signers: Vec::new() };
        assert(auth@ =~= Set::<Address>::empty());
        auth
    }

    /// Only `signer` has consented.
    pub fn of(signer: Address) -> (auth: Authorization)
        ensures
            auth@ == Set::<Address>::empty().insert(signer),
    {
        Authorization::none().and(signer)
    }

    /// The same consents, and that of `signer`.
    pub fn and(self, signer: Address) -> (auth: Authorization)
        ensures
            auth@ == self@.insert(signer),
    {
        let mut signers = self.signers;
        let ghost before = signers@;
        signers.push(signer);
        let auth = Authorization { signers };
        assert forall|a: Address| auth@.contains(a) <==> #[trigger] self@.insert(signer).contains(
            a,
        ) by {
            if before.contains(a) {
                let i = choose|i: int| 0 <= i < before.len() && before[i] == a;
                assert(auth.signers@[i] == a);
            }
            if a == signer {
                assert(auth.signers@[before.len() as int] == a);
            }
        }
        assert(auth@ =~= self@.insert(signer));
        auth
    }

    /// Whether `who` has consented.
    pub fn covers(&self, who: &Address) -> (yes: bool)
        ensures
            yes == self@.contains(*who),
    {
        let mut i: usize = 0;
        while i < self.signers.len()
            invariant
                i <= self.signers.len(),
                forall|j: int| 0 <= j < i ==> self.signers@[j] != *who,
            decreases self.signers.len() - i,
        {
            if self.signers[i].same(who) {
                return true;
            }
            i += 1;
        }
        false
    }
}

} // verus!
