//! The builder of a pallet for a fresh ledger.

use vstd::prelude::*;
use crate::authority::{RoleAuthority, RoleRegistry};
use crate::model::LedgerView;
use crate::pallet::Pallet;
use crate::types::{AccountId, Id, ProxyRole};

verus! {

/// Builds a pallet with an empty ledger and a role authority that has made
/// no grant yet.
pub struct ExtBuilder {
    timestamp: Option<u64>,
}

impl Default for ExtBuilder {
    /// A builder that leaves the ledger clock unset.
    fn default() -> (builder: Self)
        ensures
            builder.spec_timestamp() is None,
    {
        ExtBuilder { timestamp: None }
    }
}

impl ExtBuilder {
    /// The ledger time that the pallet will start with, if any.
    pub closed spec fn spec_timestamp(&self) -> Option<u64> {
        self.timestamp
    }

    /// The builder with a ledger time to start with.
    pub fn timestamp(self, now: u64) -> (builder: Self)
        ensures
            builder.spec_timestamp() == Some(now),
    {
        ExtBuilder { timestamp: Some(now) }
    }

    /// The pallet.
    pub fn build(self) -> (pallet: Pallet<RoleRegistry>)
        ensures
            pallet.wf(),
            pallet@.ledger == LedgerView::empty(),
            pallet@.now == self.spec_timestamp(),
            forall|a: AccountId, s: Id, r: ProxyRole| !#[trigger] pallet@.authority.holds(a, s, r),
    {
        let mut pallet = Pallet::new(RoleRegistry::new());
        if let Some(now) = self.timestamp {
            pallet.set_timestamp(now);
        }
        pallet
    }
}

} // verus!
