//! The role authority: who holds which role in which scope. The ledger asks
//! it before every privileged operation, and tells it who administers.

use vstd::prelude::*;
use crate::bounded::same_id;
use crate::types::{AccountId, Id, ProxyRole};

verus! {

/// What the ledger needs from a role authority.
pub trait RoleAuthority: Sized {
    /// Whether the account holds the role in the scope.
    spec fn holds(&self, account: AccountId, scope: Id, role: ProxyRole) -> bool;

    /// Says whether the account holds the role in the scope.
    fn has_role(&self, account: &AccountId, scope: &Id, role: ProxyRole) -> (held: bool)
        ensures
            held == self.holds(*account, *scope, role),
    ;

    /// Gives the account the role in the scope, and changes nothing else.
    fn assign_role(&mut self, account: AccountId, scope: Id, role: ProxyRole)
        ensures
            forall|a: AccountId, s: Id, r: ProxyRole| #[trigger]
                final(self).holds(a, s, r) <==> old(self).holds(a, s, r) || (a == account && s
                    == scope && r == role),
    ;

    /// Takes the role in the scope from the account, and changes nothing
    /// else.
    fn remove_role(&mut self, account: AccountId, scope: Id, role: ProxyRole)
        ensures
            forall|a: AccountId, s: Id, r: ProxyRole| #[trigger]
                final(self).holds(a, s, r) <==> old(self).holds(a, s, r) && !(a == account && s
                    == scope && r == role),
    ;
}

/// The second authority is the first with one grant more.
pub open spec fn granted<A: RoleAuthority>(
    before: A,
    after: A,
    account: AccountId,
    scope: Id,
    role: ProxyRole,
) -> bool {
    forall|a: AccountId, s: Id, r: ProxyRole| #[trigger]
        after.holds(a, s, r) <==> before.holds(a, s, r) || (a == account && s == scope && r
            == role)
}

/// The second authority is the first with one grant less.
pub open spec fn revoked<A: RoleAuthority>(
    before: A,
    after: A,
    account: AccountId,
    scope: Id,
    role: ProxyRole,
) -> bool {
    forall|a: AccountId, s: Id, r: ProxyRole| #[trigger]
        after.holds(a, s, r) <==> before.holds(a, s, r) && !(a == account && s == scope && r
            == role)
}

/// The second authority is the first without the grants of one role in one
/// scope to the given accounts.
pub open spec fn revoked_from<A: RoleAuthority>(
    before: A,
    after: A,
    accounts: Seq<AccountId>,
    scope: Id,
    role: ProxyRole,
) -> bool {
    forall|a: AccountId, s: Id, r: ProxyRole| #[trigger]
        after.holds(a, s, r) <==> before.holds(a, s, r) && !(accounts.contains(a) && s == scope
            && r == role)
}

/// Takes the role in the scope from each of the accounts, and changes
/// nothing else.
pub fn revoke_from<A: RoleAuthority>(
    authority: &mut A,
    accounts: &Vec<AccountId>,
    scope: Id,
    role: ProxyRole,
)
    ensures
        revoked_from(*old(authority), *final(authority), accounts@, scope, role),
{
    let ghost before = *authority;
    let mut i: usize = 0;
    proof {
        assert(accounts@.take(0).len() == 0);
    }
    while i < accounts.len()
        invariant
            i <= accounts.len(),
            revoked_from(before, *authority, accounts@.take(i as int), scope, role),
        decreases accounts.len() - i,
    {
        let ghost stage = *authority;
        authority.remove_role(accounts[i], scope, role);
        proof {
            let so_far = accounts@.take(i as int);
            let further = accounts@.take(i + 1);
            assert(further =~= so_far.push(accounts@[i as int]));
            assert forall|a: AccountId, s: Id, r: ProxyRole| #[trigger]
                authority.holds(a, s, r) <==> before.holds(a, s, r) && !(further.contains(a) && s
                    == scope && r == role) by {
                assert(stage.holds(a, s, r) <==> before.holds(a, s, r) && !(so_far.contains(a)
                    && s == scope && r == role));
                assert(further[i as int] == accounts@[i as int]);
                if so_far.contains(a) {
                    let j = so_far.index_of(a);
                    assert(0 <= j < i && so_far[j] == a);
                    assert(further[j] == a);
                }
                if further.contains(a) {
                    let j = further.index_of(a);
                    assert(0 <= j < i + 1 && further[j] == a);
                    if j < i {
                        assert(so_far[j] == a);
                    }
                }
            }
        }
        i += 1;
    }
    proof {
        assert(accounts@.take(accounts@.len() as int) =~= accounts@);
    }
}

/// One grant: an account holds a role in a scope.
#[derive(Clone, Copy, Debug)]
pub struct Grant {
    pub account: AccountId,
    pub scope: Id,
    pub role: ProxyRole,
}

/// A role authority that keeps its grants in memory.
pub struct RoleRegistry {
    grants: Vec<Grant>,
}

impl Grant {
    /// Whether the grant gives this account this role in this scope.
    pub fn gives(&self, account: &AccountId, scope: &Id, role: ProxyRole) -> (same: bool)
        ensures
            same == (*self == Grant { account: *account, scope: *scope, role }),
    {
        same_id(&self.account, account) && same_id(&self.scope, scope) && self.role == role
    }
}

impl RoleRegistry {
    /// The grants, oldest first.
    pub closed spec fn grants(&self) -> Seq<Grant> {
        self.grants@
    }

    /// An authority without grants.
    pub fn new() -> (registry: RoleRegistry)
        ensures
            registry.grants() == Seq::<Grant>::empty(),
            forall|a: AccountId, s: Id, r: ProxyRole| !#[trigger] registry.holds(a, s, r),
    {
        RoleRegistry { grants: Vec::new() }
    }

    /// The place of a grant.
    fn find(&self, account: &AccountId, scope: &Id, role: ProxyRole) -> (found: Option<usize>)
        ensures
            match found {
                Some(i) => i < self.grants@.len() && self.grants@[i as int] == (Grant {
                    account: *account,
                    scope: *scope,
                    role,
                }),
                None => !self.holds(*account, *scope, role),
            },
    {
        let mut i: usize = 0;
        while i < self.grants.len()
            invariant
                i <= self.grants.len(),
                forall|j: int|
                    0 <= j < i ==> self.grants@[j] != (Grant {
                        account: *account,
                        scope: *scope,
                        role,
                    }),
            decreases self.grants.len() - i,
        {
            if self.grants[i].gives(account, scope, role) {
                return Some(i);
            }
            i += 1;
        }
        None
    }
}

impl RoleAuthority for RoleRegistry {
    closed spec fn holds(&self, account: AccountId, scope: Id, role: ProxyRole) -> bool {
        self.grants@.contains(Grant { account, scope, role })
    }

    fn has_role(&self, account: &AccountId, scope: &Id, role: ProxyRole) -> (held: bool) {
        self.find(account, scope, role).is_some()
    }

    fn assign_role(&mut self, account: AccountId, scope: Id, role: ProxyRole) {
        let ghost before = self.grants@;
        let grant = Grant { account, scope, role };
        if self.find(&account, &scope, role).is_none() {
            self.grants.push(grant);
            proof {
                assert(self.grants@[before.len() as int] == grant);
                assert forall|a: AccountId, s: Id, r: ProxyRole| #[trigger]
                    self.holds(a, s, r) <==> before.contains(
                        Grant { account: a, scope: s, role: r },
                    ) || (a == account && s == scope && r == role) by {
                    let wanted = Grant { account: a, scope: s, role: r };
                    if self.grants@.contains(wanted) {
                        let i = self.grants@.index_of(wanted);
                        assert(0 <= i < self.grants@.len() && self.grants@[i] == wanted);
                        if i < before.len() {
                            assert(before[i] == wanted);
                        }
                    }
                    if before.contains(wanted) {
                        let i = before.index_of(wanted);
                        assert(0 <= i < before.len() && before[i] == wanted);
                        assert(self.grants@[i] == wanted);
                    }
                }
            }
        }
    }

    fn remove_role(&mut self, account: AccountId, scope: Id, role: ProxyRole) {
        let ghost before = self.grants@;
        let gone = Grant { account, scope, role };
        let mut kept: Vec<Grant> = Vec::new();
        let mut i: usize = 0;
        while i < self.grants.len()
            invariant
                i <= self.grants.len(),
                self.grants@ == before,
                gone == (Grant { account, scope, role }),
                forall|wanted: Grant| #[trigger]
                    kept@.contains(wanted) <==> before.take(i as int).contains(wanted) && wanted
                        != gone,
            decreases self.grants.len() - i,
        {
            let grant = self.grants[i];
            let ghost so_far = kept@;
            let drop = grant.gives(&account, &scope, role);
            if !drop {
                kept.push(grant);
            }
            proof {
                let earlier = before.take(i as int);
                let further = before.take(i + 1);
                assert(further =~= earlier.push(grant));
                assert forall|wanted: Grant| #[trigger]
                    kept@.contains(wanted) <==> further.contains(wanted) && wanted != gone by {
                    assert(further[i as int] == grant);
                    if further.contains(wanted) {
                        let j = further.index_of(wanted);
                        assert(0 <= j < i + 1 && further[j] == wanted);
                        if j < i {
                            assert(earlier[j] == wanted);
                        }
                    }
                    if earlier.contains(wanted) {
                        let j = earlier.index_of(wanted);
                        assert(0 <= j < i && earlier[j] == wanted);
                        assert(further[j] == wanted);
                    }
                    if kept@.contains(wanted) {
                        let j = kept@.index_of(wanted);
                        assert(0 <= j < kept@.len() && kept@[j] == wanted);
                        if j < so_far.len() {
                            assert(so_far[j] == wanted);
                        }
                    }
                    if so_far.contains(wanted) {
                        let j = so_far.index_of(wanted);
                        assert(0 <= j < so_far.len() && so_far[j] == wanted);
                        assert(kept@[j] == wanted);
                    }
                    if !drop {
                        assert(kept@[so_far.len() as int] == grant);
                    }
                }
            }
            i += 1;
        }
        proof {
            assert(before.take(before.len() as int) =~= before);
        }
        self.grants = kept;
    }
}

} // verus!
