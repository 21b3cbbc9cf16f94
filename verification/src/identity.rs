use vstd::prelude::*;

verus! {

/// An opaque participant or account address: a realm, a token mint, a token
/// owner, a delegate or a custody endpoint. Identities carry no structure
/// beyond equality; the governance rules only ever compare them.
#[derive(Clone, Copy, PartialEq, Eq, Structural, Debug, Hash)]
pub struct Identity {
    pub key: u64,
}

impl Identity {
    /// Builds the identity with the given key.
    pub fn new(key: u64) -> (r: Identity)
        ensures
            r.key == key,
    {
        Identity { key }
    }
}

/// Whether `who` is among the identities that signed the current request.
pub open spec fn spec_is_signer(signers: Seq<Identity>, who: Identity) -> bool {
    signers.contains(who)
}

/// Scans the signer list for `who`.
pub fn is_signer(signers: &Vec<Identity>, who: Identity) -> (r: bool)
    ensures
        r == spec_is_signer(signers@, who),
{
    let mut i: usize = 0;
    while i < signers.len()
        invariant
            0 <= i <= signers@.len(),
            forall|j: int| 0 <= j < i ==> signers@[j] != who,
        decreases signers@.len() - i,
    {
        if signers[i] == who {
            assert(signers@.contains(who));
            return true;
        }
        i += 1;
    }
    assert(forall|j: int| 0 <= j < signers@.len() ==> signers@[j] != who);
    false
}

} // verus!
