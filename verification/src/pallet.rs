//! The dispatch surface: every operation of the ledger behind a check of
//! where the call comes from and whether its signer may make it.

use vstd::prelude::*;
use crate::authority::{granted, revoke_from, revoked, RoleAuthority};
use crate::identifiers::{
    expenditure_id, global_scope_id, project_id, spec_expenditure_id, spec_global_scope_id,
    spec_project_id,
};
use crate::ledger::Ledger;
use crate::model::{
    new_expenditure_data, new_project_data, new_user_data, LedgerView, ProjectView,
};
use crate::types::{
    AccountId, DispatchError, Document, Error, Event, ExpenditureSubType, ExpenditureType, Origin,
    ProjectId, ProxyRole,
};

verus! {

/// The ledger with the role authority it asks and the ledger clock.
pub struct Pallet<A: RoleAuthority> {
    pub(crate) ledger: Ledger,
    pub(crate) authority: A,
    pub(crate) now: Option<u64>,
}

/// What the pallet holds: the ledger, the role authority, and the ledger
/// time, once it has been set.
pub struct PalletView<A> {
    pub ledger: LedgerView,
    pub authority: A,
    pub now: Option<u64>,
}

/// The operation was refused with this error.
pub open spec fn refused(result: Result<Event, DispatchError>, error: DispatchError) -> bool {
    result matches Err(refusal) && refusal == error
}

/// The operation went through and gave this signal.
pub open spec fn emitted(result: Result<Event, DispatchError>, event: Event) -> bool {
    result matches Ok(signal) && signal == event
}

/// The second authority is the first without the grants that the roles of a
/// project gave in the scope of the project.
pub open spec fn project_revoked<A: RoleAuthority>(
    before: A,
    after: A,
    project: ProjectId,
    gone: ProjectView,
) -> bool {
    forall|a: AccountId, s: ProjectId, r: ProxyRole| #[trigger]
        after.holds(a, s, r) <==> before.holds(a, s, r) && !(s == project && gone.role_set(
            r,
        ).contains(a))
}

impl<A: RoleAuthority> PalletView<A> {
    /// The same pallet with another ledger.
    pub open spec fn with_ledger(self, ledger: LedgerView) -> PalletView<A> {
        PalletView { ledger, ..self }
    }

    /// The role authority knows every role that the ledger records: each
    /// administrator holds the administrator role in the global scope, and
    /// each account with a role in a project holds that role in the scope of
    /// the project.
    pub open spec fn mirrored(self) -> bool {
        &&& forall|account: AccountId| #[trigger]
            self.ledger.administrators.contains(account) ==> self.ledger.global_scope is Some
                && self.authority.holds(
                account,
                self.ledger.global_scope->0,
                ProxyRole::Administrator,
            )
        &&& forall|project: ProjectId, role: ProxyRole, account: AccountId| #[trigger]
            self.ledger.role_set(project, role).contains(account) ==> self.authority.holds(
                account,
                project,
                role,
            )
    }

    /// A ledger that records no new role keeps the authority informed.
    pub proof fn lemma_mirror_kept(self, next: LedgerView)
        requires
            self.mirrored(),
            next.roles_within(self.ledger),
        ensures
            self.with_ledger(next).mirrored(),
    {
        let after = self.with_ledger(next);
        assert forall|account: AccountId| #[trigger]
            after.ledger.administrators.contains(account) implies after.ledger.global_scope is Some
            && after.authority.holds(
            account,
            after.ledger.global_scope->0,
            ProxyRole::Administrator,
        ) by {
            assert(self.ledger.administrators.contains(account));
        }
        assert forall|project: ProjectId, role: ProxyRole, account: AccountId| #[trigger]
            after.ledger.role_set(project, role).contains(account) implies after.authority.holds(
            account,
            project,
            role,
        ) by {
            assert(self.ledger.role_set(project, role).contains(account));
        }
    }

    /// Who makes a privileged call: the signer, if the call is signed, the
    /// global scope is set, and the authority says that the signer holds the
    /// administrator role in it.
    pub open spec fn authorize(self, origin: Origin) -> Result<AccountId, DispatchError> {
        match origin {
            Origin::Signed(who) => match self.ledger.global_scope {
                None => Err(DispatchError::Module(Error::GlobalScopeNotSet)),
                Some(scope) => if self.authority.holds(who, scope, ProxyRole::Administrator) {
                    Ok(who)
                } else {
                    Err(DispatchError::NotAuthorized)
                },
            },
            _ => Err(DispatchError::BadOrigin),
        }
    }

    /// Who makes a privileged call that needs the ledger time, and when.
    pub open spec fn authorize_at(self, origin: Origin) -> Result<(AccountId, u64), DispatchError> {
        match self.authorize(origin) {
            Err(error) => Err(error),
            Ok(who) => match self.now {
                None => Err(DispatchError::Module(Error::TimestampError)),
                Some(now) => Ok((who, now)),
            },
        }
    }
}

impl<A: RoleAuthority> Pallet<A> {
    /// What the pallet holds.
    pub open(crate) spec fn view(&self) -> PalletView<A> {
        PalletView { ledger: self.ledger@, authority: self.authority, now: self.now }
    }

    /// The pallet is well formed: its ledger is, and the role authority
    /// knows every role that the ledger records.
    pub open(crate) spec fn wf(&self) -> bool {
        &&& self.ledger.wf()
        &&& self@.mirrored()
    }

    /// A well-formed pallet holds a ledger that is in order, and an
    /// authority that knows every role that the ledger records. This is what
    /// those who cannot see inside a pallet learn from its being well formed.
    pub proof fn lemma_wf_inv(&self)
        requires
            self.wf(),
        ensures
            self@.ledger.inv(),
            self@.mirrored(),
    {
    }

    /// A pallet with an empty ledger, which asks the given authority. Its
    /// clock is not set.
    pub fn new(authority: A) -> (pallet: Pallet<A>)
        ensures
            pallet.wf(),
            pallet@ == (PalletView { ledger: LedgerView::empty(), authority, now: None }),
    {
        Pallet { ledger: Ledger::new(), authority, now: None }
    }

    /// Sets the ledger clock.
    pub fn set_timestamp(&mut self, now: u64)
        requires
            old(self).wf(),
        ensures
            final(self).wf(),
            final(self)@ == (PalletView { now: Some(now), ..old(self)@ }),
    {
        self.now = Some(now);
    }

    /// The ledger time, once it has been set.
    pub fn now(&self) -> (now: Option<u64>)
        ensures
            now == self@.now,
    {
        self.now
    }

    /// The ledger.
    pub fn ledger(&self) -> (ledger: &Ledger)
        requires
            self.wf(),
        ensures
            ledger.wf(),
            ledger@ == self@.ledger,
    {
        &self.ledger
    }

    /// The role authority.
    pub fn authority(&self) -> (authority: &A)
        ensures
            *authority == self@.authority,
    {
        &self.authority
    }

    /// Who makes a privileged call.
    fn authorize(&self, origin: Origin) -> (who: Result<AccountId, DispatchError>)
        ensures
            who == self@.authorize(origin),
    {
        match origin {
            Origin::Signed(who) => match self.ledger.global_scope() {
                None => Err(DispatchError::Module(Error::GlobalScopeNotSet)),
                Some(scope) => if self.authority.has_role(
                    &who,
                    &scope,
                    ProxyRole::Administrator,
                ) {
                    Ok(who)
                } else {
                    Err(DispatchError::NotAuthorized)
                },
            },
            _ => Err(DispatchError::BadOrigin),
        }
    }

    /// Who makes a privileged call that needs the ledger time, and when.
    fn authorize_at(&self, origin: Origin) -> (pass: Result<(AccountId, u64), DispatchError>)
        ensures
            pass == self@.authorize_at(origin),
    {
        match self.authorize(origin) {
            Err(error) => Err(error),
            Ok(who) => match self.now {
                None => Err(DispatchError::Module(Error::TimestampError)),
                Some(now) => Ok((who, now)),
            },
        }
    }

    /// Names the global scope of the ledger. Only the privileged authority
    /// may do so.
    pub fn initial_setup(&mut self, origin: Origin) -> (result: Result<Event, DispatchError>)
        requires
            old(self).wf(),
        ensures
            final(self).wf(),
            match origin {
                Origin::Root => emitted(result, Event::ProxySetupCompleted) && final(self)@
                    == old(self)@.with_ledger(
                    old(self)@.ledger.initial_setup(spec_global_scope_id()),
                ),
                _ => refused(result, DispatchError::BadOrigin) && final(self)@ == old(self)@,
            },
    {
        match origin {
            Origin::Root => {},
            _ => {
                return Err(DispatchError::BadOrigin);
            },
        }
        let ghost before = self@;
        self.ledger.initial_setup(global_scope_id());
        proof {
            before.ledger.lemma_initial_setup_roles(global_scope_id());
            before.lemma_mirror_kept(self.ledger@);
        }
        Ok(Event::ProxySetupCompleted)
    }

    /// Makes an account an administrator, in the ledger and with the role
    /// authority. Only the privileged authority may do so.
    pub fn sudo_add_administrator(
        &mut self,
        origin: Origin,
        admin: AccountId,
    ) -> (result: Result<Event, DispatchError>)
        requires
            old(self).wf(),
        ensures
            final(self).wf(),
            final(self)@.now == old(self)@.now,
            origin !is Root ==> refused(result, DispatchError::BadOrigin) && final(self)@
                == old(self)@,
            origin is Root ==> match old(self)@.ledger.add_administrator(admin) {
                Ok(next) => emitted(result, Event::AdministratorAssigned(admin))
                    && final(self)@.ledger == next && granted(
                    old(self)@.authority,
                    final(self)@.authority,
                    admin,
                    old(self)@.ledger.global_scope->0,
                    ProxyRole::Administrator,
                ),
                Err(error) => refused(result, DispatchError::Module(error)) && final(self)@
                    == old(self)@,
            },
    {
        match origin {
            Origin::Root => {},
            _ => {
                return Err(DispatchError::BadOrigin);
            },
        }
        let scope = match self.ledger.global_scope() {
            Some(scope) => scope,
            None => {
                return Err(DispatchError::Module(Error::GlobalScopeNotSet));
            },
        };
        let ghost before = self@;
        match self.ledger.add_administrator(admin) {
            Err(error) => Err(DispatchError::Module(error)),
            Ok(()) => {
                self.authority.assign_role(admin, scope, ProxyRole::Administrator);
                proof {
                    before.ledger.lemma_add_administrator_roles(admin);
                    assert forall|project: ProjectId, role: ProxyRole, account: AccountId| #[trigger]
                        self@.ledger.role_set(project, role).contains(
                            account,
                        ) implies self@.authority.holds(account, project, role) by {
                        assert(before.ledger.role_set(project, role).contains(account));
                    }
                }
                Ok(Event::AdministratorAssigned(admin))
            },
        }
    }

    /// Takes the administrator role from an account, in the ledger and with
    /// the role authority. Only the privileged authority may do so.
    pub fn sudo_remove_administrator(
        &mut self,
        origin: Origin,
        admin: AccountId,
    ) -> (result: Result<Event, DispatchError>)
        requires
            old(self).wf(),
        ensures
            final(self).wf(),
            final(self)@.now == old(self)@.now,
            origin !is Root ==> refused(result, DispatchError::BadOrigin) && final(self)@
                == old(self)@,
            origin is Root ==> match old(self)@.ledger.remove_administrator(admin) {
                Ok(next) => emitted(result, Event::AdministratorRemoved(admin))
                    && final(self)@.ledger == next && old(self)@.ledger.global_scope is Some
                    && revoked(
                    old(self)@.authority,
                    final(self)@.authority,
                    admin,
                    old(self)@.ledger.global_scope->0,
                    ProxyRole::Administrator,
                ),
                Err(error) => refused(result, DispatchError::Module(error)) && final(self)@
                    == old(self)@,
            },
    {
        match origin {
            Origin::Root => {},
            _ => {
                return Err(DispatchError::BadOrigin);
            },
        }
        let scope = match self.ledger.global_scope() {
            Some(scope) => scope,
            None => {
                proof {
                    assert(self.ledger@.remove_administrator(admin) is Err);
                }
                return Err(DispatchError::Module(Error::CannotRemoveAdminRole));
            },
        };
        let ghost before = self@;
        match self.ledger.remove_administrator(admin) {
            Err(error) => Err(DispatchError::Module(error)),
            Ok(()) => {
                self.authority.remove_role(admin, scope, ProxyRole::Administrator);
                proof {
                    before.ledger.lemma_remove_administrator_roles(admin);
                    assert forall|account: AccountId| #[trigger]
                        self@.ledger.administrators.contains(
                            account,
                        ) implies self@.authority.holds(account, scope, ProxyRole::Administrator) by {
                        assert(before.ledger.administrators.contains(account));
                    }
                    assert forall|project: ProjectId, role: ProxyRole, account: AccountId| #[trigger]
                        self@.ledger.role_set(project, role).contains(
                            account,
                        ) implies self@.authority.holds(account, project, role) by {
                        assert(before.ledger.role_set(project, role).contains(account));
                    }
                }
                Ok(Event::AdministratorRemoved(admin))
            },
        }
    }

    /// Gives an account a profile.
    pub fn users_register_user(
        &mut self,
        origin: Origin,
        user: AccountId,
        name: Vec<u8>,
        image: Vec<u8>,
        email: Vec<u8>,
        documents: Option<Vec<Document>>,
    ) -> (result: Result<Event, DispatchError>)
        requires
            old(self).wf(),
        ensures
            final(self).wf(),
            match old(self)@.authorize_at(origin) {
                Err(error) => refused(result, error) && final(self)@ == old(self)@,
                Ok(pass) => match old(self)@.ledger.register_user(
                    user,
                    new_user_data(pass.0, name, image, email, documents, pass.1),
                ) {
                    Ok(next) => emitted(result, Event::UserAdded(user)) && final(self)@
                        == old(self)@.with_ledger(next),
                    Err(error) => refused(result, DispatchError::Module(error)) && final(self)@
                        == old(self)@,
                },
            },
    {
        let (who, now) = match self.authorize_at(origin) {
            Ok(pass) => pass,
            Err(error) => {
                return Err(error);
            },
        };
        let ghost before = self@;
        match self.ledger.register_user(who, user, name, image, email, documents, now) {
            Ok(()) => {
                proof {
                    before.ledger.lemma_register_user_roles(
                        user,
                        new_user_data(who, name, image, email, documents, now),
                    );
                    before.lemma_mirror_kept(self.ledger@);
                }
                Ok(Event::UserAdded(user))
            },
            Err(error) => Err(DispatchError::Module(error)),
        }
    }

    /// Changes the profile of an account: each field that is given replaces
    /// the stored one.
    pub fn users_update_user(
        &mut self,
        origin: Origin,
        user: AccountId,
        name: Option<Vec<u8>>,
        image: Option<Vec<u8>>,
        email: Option<Vec<u8>>,
        documents: Option<Vec<Document>>,
    ) -> (result: Result<Event, DispatchError>)
        requires
            old(self).wf(),
        ensures
            final(self).wf(),
            match old(self)@.authorize_at(origin) {
                Err(error) => refused(result, error) && final(self)@ == old(self)@,
                Ok(pass) => match old(self)@.ledger.update_user(
                    pass.0,
                    user,
                    name,
                    image,
                    email,
                    documents,
                    pass.1,
                ) {
                    Ok(next) => emitted(result, Event::UserUpdated(user)) && final(self)@
                        == old(self)@.with_ledger(next),
                    Err(error) => refused(result, DispatchError::Module(error)) && final(self)@
                        == old(self)@,
                },
            },
    {
        let (who, now) = match self.authorize_at(origin) {
            Ok(pass) => pass,
            Err(error) => {
                return Err(error);
            },
        };
        let ghost before = self@;
        match self.ledger.update_user(who, user, name, image, email, documents, now) {
            Ok(()) => {
                proof {
                    before.ledger.lemma_update_user_roles(
                        who,
                        user,
                        name,
                        image,
                        email,
                        documents,
                        now,
                    );
                    before.lemma_mirror_kept(self.ledger@);
                }
                Ok(Event::UserUpdated(user))
            },
            Err(error) => Err(DispatchError::Module(error)),
        }
    }

    /// Takes the profile of an account away. The account must belong to no
    /// project.
    pub fn users_delete_user(
        &mut self,
        origin: Origin,
        user: AccountId,
    ) -> (result: Result<Event, DispatchError>)
        requires
            old(self).wf(),
        ensures
            final(self).wf(),
            match old(self)@.authorize(origin) {
                Err(error) => refused(result, error) && final(self)@ == old(self)@,
                Ok(who) => match old(self)@.ledger.delete_user(user) {
                    Ok(next) => emitted(result, Event::UserDeleted(user)) && final(self)@
                        == old(self)@.with_ledger(next),
                    Err(error) => refused(result, DispatchError::Module(error)) && final(self)@
                        == old(self)@,
                },
            },
    {
        if let Err(error) = self.authorize(origin) {
            return Err(error);
        }
        let ghost before = self@;
        match self.ledger.delete_user(user) {
            Ok(()) => {
                proof {
                    before.ledger.lemma_delete_user_roles(user);
                    before.lemma_mirror_kept(self.ledger@);
                }
                Ok(Event::UserDeleted(user))
            },
            Err(error) => Err(DispatchError::Module(error)),
        }
    }

    /// Opens a project, created at the ledger time, under the identifier
    /// that its title and that time give.
    pub fn projects_create_project(
        &mut self,
        origin: Origin,
        title: Vec<u8>,
        description: Vec<u8>,
        image: Vec<u8>,
        address: Vec<u8>,
        completion_date: u64,
    ) -> (result: Result<Event, DispatchError>)
        requires
            old(self).wf(),
        ensures
            final(self).wf(),
            match old(self)@.authorize_at(origin) {
                Err(error) => refused(result, error) && final(self)@ == old(self)@,
                Ok(pass) => match old(self)@.ledger.create_project(
                    spec_project_id(title@, pass.1),
                    new_project_data(
                        pass.0,
                        title,
                        description,
                        image,
                        address,
                        pass.1,
                        completion_date,
                        pass.1,
                    ),
                    pass.1,
                ) {
                    Ok(next) => emitted(
                        result,
                        Event::ProjectCreated(pass.0, spec_project_id(title@, pass.1)),
                    ) && final(self)@ == old(self)@.with_ledger(next),
                    Err(error) => refused(result, DispatchError::Module(error)) && final(self)@
                        == old(self)@,
                },
            },
            old(self)@.authorize_at(origin) matches Ok(pass) && completion_date <= pass.1
                ==> refused(result, DispatchError::Module(Error::CompletitionDateMustBeLater))
                && final(self)@ == old(self)@,
    {
        let (who, now) = match self.authorize_at(origin) {
            Ok(pass) => pass,
            Err(error) => {
                return Err(error);
            },
        };
        let project = project_id(&title, now);
        let ghost before = self@;
        match self.ledger.create_project(
            who,
            project,
            title,
            description,
            image,
            address,
            now,
            completion_date,
            now,
        ) {
            Ok(()) => {
                proof {
                    before.ledger.lemma_create_project_roles(
                        project,
                        new_project_data(
                            who,
                            title,
                            description,
                            image,
                            address,
                            now,
                            completion_date,
                            now,
                        ),
                        now,
                    );
                    before.lemma_mirror_kept(self.ledger@);
                }
                Ok(Event::ProjectCreated(who, project))
            },
            Err(error) => Err(DispatchError::Module(error)),
        }
    }

    /// Changes the record of a project that is not completed: each field that
    /// is given replaces the stored one.
    pub fn projects_edit_project(
        &mut self,
        origin: Origin,
        project_id: ProjectId,
        title: Option<Vec<u8>>,
        description: Option<Vec<u8>>,
        image: Option<Vec<u8>>,
        address: Option<Vec<u8>>,
        creation_date: Option<u64>,
        completion_date: Option<u64>,
    ) -> (result: Result<Event, DispatchError>)
        requires
            old(self).wf(),
        ensures
            final(self).wf(),
            match old(self)@.authorize_at(origin) {
                Err(error) => refused(result, error) && final(self)@ == old(self)@,
                Ok(pass) => match old(self)@.ledger.edit_project(
                    pass.0,
                    project_id,
                    title,
                    description,
                    image,
                    address,
                    creation_date,
                    completion_date,
                    pass.1,
                ) {
                    Ok(next) => emitted(result, Event::ProjectEdited(project_id)) && final(self)@
                        == old(self)@.with_ledger(next),
                    Err(error) => refused(result, DispatchError::Module(error)) && final(self)@
                        == old(self)@,
                },
            },
    {
        let (who, now) = match self.authorize_at(origin) {
            Ok(pass) => pass,
            Err(error) => {
                return Err(error);
            },
        };
        let ghost before = self@;
        match self.ledger.edit_project(
            who,
            project_id,
            title,
            description,
            image,
            address,
            creation_date,
            completion_date,
            now,
        ) {
            Ok(()) => {
                proof {
                    before.ledger.lemma_edit_project_roles(
                        who,
                        project_id,
                        title,
                        description,
                        image,
                        address,
                        creation_date,
                        completion_date,
                        now,
                    );
                    before.lemma_mirror_kept(self.ledger@);
                }
                Ok(Event::ProjectEdited(project_id))
            },
            Err(error) => Err(DispatchError::Module(error)),
        }
    }

    /// Deletes a project that is not completed, and with it its place in the
    /// projects of every account, its roles and its expenditures. The role
    /// authority loses the grants of those roles.
    pub fn projects_delete_project(
        &mut self,
        origin: Origin,
        project_id: ProjectId,
    ) -> (result: Result<Event, DispatchError>)
        requires
            old(self).wf(),
        ensures
            final(self).wf(),
            final(self)@.now == old(self)@.now,
            match old(self)@.authorize_at(origin) {
                Err(error) => refused(result, error) && final(self)@ == old(self)@,
                Ok(pass) => match old(self)@.ledger.delete_project(project_id, pass.1) {
                    Ok(next) => emitted(result, Event::ProjectDeleted(project_id))
                        && final(self)@.ledger == next && project_revoked(
                        old(self)@.authority,
                        final(self)@.authority,
                        project_id,
                        old(self)@.ledger.projects[project_id],
                    ),
                    Err(error) => refused(result, DispatchError::Module(error)) && final(self)@
                        == old(self)@,
                },
            },
    {
        let (who, now) = match self.authorize_at(origin) {
            Ok(pass) => pass,
            Err(error) => {
                return Err(error);
            },
        };
        let developers = self.ledger.role_members(&project_id, ProxyRole::Developer);
        let investors = self.ledger.role_members(&project_id, ProxyRole::Investor);
        let issuers = self.ledger.role_members(&project_id, ProxyRole::Issuer);
        let regional_centers = self.ledger.role_members(&project_id, ProxyRole::RegionalCenter);
        let ghost before = self@;
        match self.ledger.delete_project(project_id, now) {
            Err(error) => Err(DispatchError::Module(error)),
            Ok(()) => {
                proof {
                    before.ledger.lemma_delete_project_roles(project_id, now);
                }
                revoke_from(&mut self.authority, &developers, project_id, ProxyRole::Developer);
                revoke_from(&mut self.authority, &investors, project_id, ProxyRole::Investor);
                revoke_from(&mut self.authority, &issuers, project_id, ProxyRole::Issuer);
                revoke_from(
                    &mut self.authority,
                    &regional_centers,
                    project_id,
                    ProxyRole::RegionalCenter,
                );
                proof {
                    assert forall|account: AccountId| #[trigger]
                        self@.ledger.administrators.contains(
                            account,
                        ) implies self@.ledger.global_scope is Some && self@.authority.holds(
                        account,
                        self@.ledger.global_scope->0,
                        ProxyRole::Administrator,
                    ) by {
                        assert(before.ledger.administrators.contains(account));
                    }
                    assert forall|project: ProjectId, role: ProxyRole, account: AccountId| #[trigger]
                        self@.ledger.role_set(project, role).contains(
                            account,
                        ) implies self@.authority.holds(account, project, role) by {
                        assert(before.ledger.role_set(project, role).contains(account));
                    }
                }
                Ok(Event::ProjectDeleted(project_id))
            },
        }
    }

    /// Gives an account a role in a project, in the ledger and, in the scope
    /// of the project, with the role authority.
    pub fn projects_assign_user(
        &mut self,
        origin: Origin,
        user: AccountId,
        project_id: ProjectId,
        role: ProxyRole,
    ) -> (result: Result<Event, DispatchError>)
        requires
            old(self).wf(),
        ensures
            final(self).wf(),
            final(self)@.now == old(self)@.now,
            match old(self)@.authorize(origin) {
                Err(error) => refused(result, error) && final(self)@ == old(self)@,
                Ok(who) => match old(self)@.ledger.assign_user(user, project_id, role) {
                    Ok(next) => emitted(result, Event::UserAssignedToProject(user, project_id))
                        && final(self)@.ledger == next && granted(
                        old(self)@.authority,
                        final(self)@.authority,
                        user,
                        project_id,
                        role,
                    ),
                    Err(error) => refused(result, DispatchError::Module(error)) && final(self)@
                        == old(self)@,
                },
            },
    {
        if let Err(error) = self.authorize(origin) {
            return Err(error);
        }
        let ghost before = self@;
        match self.ledger.assign_user(user, project_id, role) {
            Err(error) => Err(DispatchError::Module(error)),
            Ok(()) => {
                self.authority.assign_role(user, project_id, role);
                proof {
                    before.ledger.lemma_assign_user_roles(user, project_id, role);
                    assert forall|account: AccountId| #[trigger]
                        self@.ledger.administrators.contains(
                            account,
                        ) implies self@.ledger.global_scope is Some && self@.authority.holds(
                        account,
                        self@.ledger.global_scope->0,
                        ProxyRole::Administrator,
                    ) by {
                        assert(before.ledger.administrators.contains(account));
                    }
                }
                Ok(Event::UserAssignedToProject(user, project_id))
            },
        }
    }

    /// Takes from an account the role it holds in a project, in the ledger
    /// and, in the scope of the project, with the role authority.
    pub fn projects_unassign_user(
        &mut self,
        origin: Origin,
        user: AccountId,
        project_id: ProjectId,
        role: ProxyRole,
    ) -> (result: Result<Event, DispatchError>)
        requires
            old(self).wf(),
        ensures
            final(self).wf(),
            final(self)@.now == old(self)@.now,
            match old(self)@.authorize(origin) {
                Err(error) => refused(result, error) && final(self)@ == old(self)@,
                Ok(who) => match old(self)@.ledger.unassign_user(user, project_id, role) {
                    Ok(next) => emitted(result, Event::UserUnassignedFromProject(user, project_id))
                        && final(self)@.ledger == next && revoked(
                        old(self)@.authority,
                        final(self)@.authority,
                        user,
                        project_id,
                        role,
                    ),
                    Err(error) => refused(result, DispatchError::Module(error)) && final(self)@
                        == old(self)@,
                },
            },
    {
        if let Err(error) = self.authorize(origin) {
            return Err(error);
        }
        let ghost before = self@;
        match self.ledger.unassign_user(user, project_id, role) {
            Err(error) => Err(DispatchError::Module(error)),
            Ok(()) => {
                self.authority.remove_role(user, project_id, role);
                proof {
                    before.ledger.lemma_unassign_user_roles(user, project_id, role);
                    assert forall|account: AccountId| #[trigger]
                        self@.ledger.administrators.contains(
                            account,
                        ) implies self@.ledger.global_scope is Some && self@.authority.holds(
                        account,
                        self@.ledger.global_scope->0,
                        ProxyRole::Administrator,
                    ) by {
                        assert(before.ledger.administrators.contains(account));
                    }
                    assert forall|p: ProjectId, r: ProxyRole, account: AccountId| #[trigger]
                        self@.ledger.role_set(p, r).contains(
                            account,
                        ) implies self@.authority.holds(account, p, r) by {
                        assert(before.ledger.role_set(p, r).contains(account));
                    }
                }
                Ok(Event::UserUnassignedFromProject(user, project_id))
            },
        }
    }

    /// Adds a line item to the budget of a project, under the identifier
    /// that the project, the name and the ledger time give.
    pub fn expenditures_create_expenditure(
        &mut self,
        origin: Origin,
        project_id: ProjectId,
        name: Vec<u8>,
        expenditure_type: ExpenditureType,
        expenditure_subtype: ExpenditureSubType,
        budget_amount: Option<u64>,
        naics_code: Option<u32>,
        jobs_multiplier: Option<u32>,
    ) -> (result: Result<Event, DispatchError>)
        requires
            old(self).wf(),
        ensures
            final(self).wf(),
            match old(self)@.authorize_at(origin) {
                Err(error) => refused(result, error) && final(self)@ == old(self)@,
                Ok(pass) => match old(self)@.ledger.create_expenditure(
                    spec_expenditure_id(project_id, name@, pass.1),
                    new_expenditure_data(
                        pass.0,
                        project_id,
                        name,
                        expenditure_type,
                        expenditure_subtype,
                        budget_amount,
                        naics_code,
                        jobs_multiplier,
                        pass.1,
                    ),
                ) {
                    Ok(next) => emitted(
                        result,
                        Event::ExpenditureCreated(spec_expenditure_id(project_id, name@, pass.1)),
                    ) && final(self)@ == old(self)@.with_ledger(next),
                    Err(error) => refused(result, DispatchError::Module(error)) && final(self)@
                        == old(self)@,
                },
            },
    {
        let (who, now) = match self.authorize_at(origin) {
            Ok(pass) => pass,
            Err(error) => {
                return Err(error);
            },
        };
        let expenditure = expenditure_id(&project_id, &name, now);
        let ghost before = self@;
        match self.ledger.create_expenditure(
            who,
            expenditure,
            project_id,
            name,
            expenditure_type,
            expenditure_subtype,
            budget_amount,
            naics_code,
            jobs_multiplier,
            now,
        ) {
            Ok(()) => {
                proof {
                    before.ledger.lemma_create_expenditure_roles(
                        expenditure,
                        new_expenditure_data(
                            who,
                            project_id,
                            name,
                            expenditure_type,
                            expenditure_subtype,
                            budget_amount,
                            naics_code,
                            jobs_multiplier,
                            now,
                        ),
                    );
                    before.lemma_mirror_kept(self.ledger@);
                }
                Ok(Event::ExpenditureCreated(expenditure))
            },
            Err(error) => Err(DispatchError::Module(error)),
        }
    }
}

} // verus!
