use vstd::prelude::*;

use crate::error::GovernanceError;
use crate::identity::Identity;

verus! {

/// One entry of the realm's policy: a governing token mint the realm
/// recognizes, together with the custody endpoint that holds every deposit of
/// that mint for the realm.
#[derive(Clone, Copy, PartialEq, Eq, Structural, Debug)]
pub struct RealmMintConfig {
    /// The realm this entry belongs to.
    pub realm: Identity,
    /// A governing token mint the realm recognizes (for instance its
    /// community or its council token).
    pub mint: Identity,
    /// The realm's holding account for that mint: the custody endpoint
    /// deposits flow into and withdrawals flow out of.
    pub holding: Identity,
}

/// Whether the registry recognizes `mint` under `realm`'s policy.
pub open spec fn recognizes(entries: Seq<RealmMintConfig>, realm: Identity, mint: Identity) -> bool {
    exists|i: int| 0 <= i < entries.len() && entries[i].realm == realm && entries[i].mint == mint
}

/// The index of the (realm, mint) entry. Meaningful only when `recognizes`
/// holds; under `registry_wf` that index is unique.
pub open spec fn config_index(
    entries: Seq<RealmMintConfig>,
    realm: Identity,
    mint: Identity,
) -> int {
    choose|i: int| 0 <= i < entries.len() && entries[i].realm == realm && entries[i].mint == mint
}

/// The holding account the registry assigns to (realm, mint). Meaningful only
/// when `recognizes` holds.
pub open spec fn holding_of(entries: Seq<RealmMintConfig>, realm: Identity, mint: Identity) -> Identity {
    entries[config_index(entries, realm, mint)].holding
}

/// Well-formedness of the registry: at most one entry per (realm, mint) pair.
pub open spec fn registry_wf(entries: Seq<RealmMintConfig>) -> bool {
    forall|i: int, j: int|
        0 <= i < entries.len() && 0 <= j < entries.len() && i != j ==> !(#[trigger] entries[i].realm
            == #[trigger] entries[j].realm && entries[i].mint == entries[j].mint)
}

/// In a well-formed registry, two indices holding the same (realm, mint)
/// pair are equal: a pair's configuration is never duplicated.
pub proof fn lemma_config_unique(
    entries: Seq<RealmMintConfig>,
    realm: Identity,
    mint: Identity,
    i: int,
    j: int,
)
    requires
        registry_wf(entries),
        0 <= i < entries.len(),
        0 <= j < entries.len(),
        entries[i].realm == realm && entries[i].mint == mint,
        entries[j].realm == realm && entries[j].mint == mint,
    ensures
        i == j,
{
}

/// The realm registry, an external collaborator consulted read-only: it
/// resolves a realm and governing token mint to the realm's configuration.
/// The library holds its contents as plain values; whoever owns the real
/// policy source fills it before the governance operations run.
pub struct RealmRegistry {
    entries: Vec<RealmMintConfig>,
}

impl View for RealmRegistry {
    type V = Seq<RealmMintConfig>;

    closed spec fn view(&self) -> Seq<RealmMintConfig> {
        self.entries@
    }
}

impl RealmRegistry {
    /// Whether the registry upholds its invariant: one entry per (realm,
    /// mint) pair.
    pub open spec fn wf(&self) -> bool {
        registry_wf(self@)
    }

    /// A registry that recognizes nothing.
    pub fn new() -> (r: RealmRegistry)
        ensures
            r.wf(),
            r@.len() == 0,
    {
        RealmRegistry { entries: Vec::new() }
    }

    /// Registers a mint under a realm's policy with its holding account.
    /// Fails with `InvalidRealmConfig` when the pair is already registered;
    /// the registry is then unchanged.
    pub fn register(&mut self, config: RealmMintConfig) -> (r: Result<(), GovernanceError>)
        requires
            old(self).wf(),
        ensures
            final(self).wf(),
            match r {
                Ok(()) => !recognizes(old(self)@, config.realm, config.mint) && final(self)@ == old(
                    self,
                )@.push(config),
                Err(e) => e == GovernanceError::InvalidRealmConfig && recognizes(
                    old(self)@,
                    config.realm,
                    config.mint,
                ) && final(self)@ == old(self)@,
            },
    {
        if self.resolve(config.realm, config.mint).is_some() {
            return Err(GovernanceError::InvalidRealmConfig);
        }
        self.entries.push(config);
        proof {
            assert forall|i: int, j: int|
                0 <= i < self@.len() && 0 <= j < self@.len() && i != j implies !(self@[i].realm
                == self@[j].realm && self@[i].mint == self@[j].mint) by {
                if i == old(self)@.len() {
                    assert(!(old(self)@[j].realm == config.realm && old(self)@[j].mint
                        == config.mint));
                } else if j == old(self)@.len() {
                    assert(!(old(self)@[i].realm == config.realm && old(self)@[i].mint
                        == config.mint));
                }
            }
        }
        Ok(())
    }

    /// Resolves (realm, mint) to the realm's configuration entry, if the
    /// realm recognizes the mint.
    pub fn resolve(&self, realm: Identity, mint: Identity) -> (r: Option<RealmMintConfig>)
        requires
            self.wf(),
        ensures
            match r {
                Some(c) => recognizes(self@, realm, mint) && c.realm == realm && c.mint == mint
                    && c.holding == holding_of(self@, realm, mint),
                None => !recognizes(self@, realm, mint),
            },
    {
        let mut i: usize = 0;
        while i < self.entries.len()
            invariant
                self.wf(),
                0 <= i <= self@.len(),
                forall|j: int| 0 <= j < i ==> !(self@[j].realm == realm && self@[j].mint == mint),
            decreases self@.len() - i,
        {
            let c = self.entries[i];
            if c.realm == realm && c.mint == mint {
                proof {
                    assert(self@[i as int].realm == realm && self@[i as int].mint == mint);
                    let w = config_index(self@, realm, mint);
                    assert(0 <= w < self@.len() && self@[w].realm == realm && self@[w].mint
                        == mint);
                    lemma_config_unique(self@, realm, mint, w, i as int);
                }
                return Some(c);
            }
            i += 1;
        }
        None
    }
}

} // verus!
