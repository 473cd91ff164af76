//! The membership index: who administers the ledger, and which account holds
//! which role in which project.

use vstd::prelude::*;
use crate::bounded::{list_as_vec, list_remove, list_try_push, position};
use crate::ledger::Ledger;
use crate::lemmas::lemma_index_of;
use crate::types::{
    AccountId, Error, Id, ProjectId, ProxyRole, MAX_PROJECTS_PER_USER, MAX_USERS_PER_PROJECT,
};

verus! {

impl Ledger {
    /// Names the global scope, if it has no name yet.
    pub fn initial_setup(&mut self, scope: Id)
        requires
            old(self).wf(),
        ensures
            final(self).wf(),
            final(self)@ == old(self)@.initial_setup(scope),
    {
        let ghost before = *self;
        if self.global_scope.is_none() {
            self.global_scope = Some(scope);
        }
        proof {
            assert(self@ =~= before@.initial_setup(scope));
            before@.lemma_initial_setup_inv(scope);
        }
    }

    /// Makes an account an administrator.
    pub fn add_administrator(&mut self, account: AccountId) -> (added: Result<(), Error>)
        requires
            old(self).wf(),
        ensures
            final(self).wf(),
            match old(self)@.add_administrator(account) {
                Ok(next) => added is Ok && final(self)@ == next,
                Err(error) => added matches Err(refusal) && refusal == error && final(self)@
                    == old(self)@,
            },
    {
        let ghost before = *self;
        if self.global_scope.is_none() {
            return Err(Error::GlobalScopeNotSet);
        }
        if position(&self.administrators, &account).is_some() {
            return Err(Error::UserAlreadyHasRole);
        }
        if let Some(i) = self.users.find(&account) {
            if list_as_vec(&self.users.values[i].projects).len() > 0 {
                return Err(Error::CannotRegisterAdminRole);
            }
        }
        self.administrators.push(account);
        proof {
            assert(self@ =~= before@.add_administrator(account)->Ok_0);
            before@.lemma_add_administrator_inv(account);
        }
        Ok(())
    }

    /// Takes the administrator role from an account.
    pub fn remove_administrator(&mut self, account: AccountId) -> (removed: Result<(), Error>)
        requires
            old(self).wf(),
        ensures
            final(self).wf(),
            match old(self)@.remove_administrator(account) {
                Ok(next) => removed is Ok && final(self)@ == next,
                Err(error) => removed matches Err(refusal) && refusal == error && final(self)@
                    == old(self)@,
            },
    {
        let ghost before = *self;
        match position(&self.administrators, &account) {
            None => Err(Error::CannotRemoveAdminRole),
            Some(i) => {
                proof {
                    lemma_index_of(self.administrators@, i as int);
                }
                self.administrators.remove(i);
                proof {
                    assert(self@ =~= before@.remove_administrator(account)->Ok_0);
                    before@.lemma_remove_administrator_inv(account);
                }
                Ok(())
            },
        }
    }

    /// Gives an account a role in a project.
    pub fn assign_user(
        &mut self,
        user: AccountId,
        project: ProjectId,
        role: ProxyRole,
    ) -> (assigned: Result<(), Error>)
        requires
            old(self).wf(),
        ensures
            final(self).wf(),
            match old(self)@.assign_user(user, project, role) {
                Ok(next) => assigned is Ok && final(self)@ == next,
                Err(error) => assigned matches Err(refusal) && refusal == error && final(self)@
                    == old(self)@,
            },
    {
        let ghost before = *self;
        let iu = match self.users.find(&user) {
            Some(i) => i,
            None => {
                return Err(Error::UserNotRegistered);
            },
        };
        let ip = match self.projects.find(&project) {
            Some(i) => i,
            None => {
                return Err(Error::ProjectNotFound);
            },
        };
        let in_role = match self.projects.values[ip].role_members(role) {
            Some(members) => members.len(),
            None => {
                return Err(Error::CannotAddAdminRole);
            },
        };
        if position(&self.administrators, &user).is_some() {
            return Err(Error::UserCannotHaveMoreThanOneRole);
        }
        let members = list_as_vec(&self.projects.values[ip].users);
        if position(members, &user).is_some() {
            return Err(Error::UserAlreadyAssignedToProject);
        }
        if in_role >= role.capacity() {
            return Err(role.capacity_error());
        }
        if members.len() >= MAX_USERS_PER_PROJECT as usize {
            return Err(Error::MaxUsersPerProjectReached);
        }
        if list_as_vec(&self.users.values[iu].projects).len() >= MAX_PROJECTS_PER_USER as usize {
            return Err(Error::MaxProjectsPerUserReached);
        }
        let in_project = list_try_push(&mut self.projects.values[ip].users, user);
        let in_role = match role {
            ProxyRole::Administrator => Ok(()),
            ProxyRole::Developer => list_try_push(&mut self.projects.values[ip].developers, user),
            ProxyRole::Investor => list_try_push(&mut self.projects.values[ip].investors, user),
            ProxyRole::Issuer => list_try_push(&mut self.projects.values[ip].issuers, user),
            ProxyRole::RegionalCenter => list_try_push(
                &mut self.projects.values[ip].regional_centers,
                user,
            ),
        };
        let in_account = list_try_push(&mut self.users.values[iu].projects, project);
        proof {
            assert(in_project is Ok && in_role is Ok && in_account is Ok);
            self.lemma_user_replaced(&before, iu as int);
            assert(self.projects.values@ =~= before.projects.values@.update(
                ip as int,
                self.projects.values@[ip as int],
            ));
            self.lemma_project_replaced(&before, ip as int);
            assert(self@ =~= before@.with_assignment(user, project, role));
            before@.lemma_assign_user_inv(user, project, role);
        }
        Ok(())
    }

    /// Takes from an account the role it holds in a project.
    pub fn unassign_user(
        &mut self,
        user: AccountId,
        project: ProjectId,
        role: ProxyRole,
    ) -> (unassigned: Result<(), Error>)
        requires
            old(self).wf(),
        ensures
            final(self).wf(),
            match old(self)@.unassign_user(user, project, role) {
                Ok(next) => unassigned is Ok && final(self)@ == next,
                Err(error) => unassigned matches Err(refusal) && refusal == error && final(self)@
                    == old(self)@,
            },
    {
        let ghost before = *self;
        let ip = match self.projects.find(&project) {
            Some(i) => i,
            None => {
                return Err(Error::UserNotAssignedToProject);
            },
        };
        let place_in_role = match self.projects.values[ip].role_members(role) {
            Some(members) => position(members, &user),
            None => None,
        };
        let ir = match place_in_role {
            Some(i) => i,
            None => {
                return Err(Error::UserNotAssignedToProject);
            },
        };
        proof {
            before@.lemma_unassign_user_inv(user, project, role);
        }
        let iu = self.users.find(&user).unwrap();
        let im = position(list_as_vec(&self.projects.values[ip].users), &user).unwrap();
        let ia = position(list_as_vec(&self.users.values[iu].projects), &project).unwrap();
        proof {
            let entry = before@.projects[project];
            let account = before@.users[user];
            assert(before@.project_inv(project));
            assert(before@.user_inv(user));
            lemma_index_of(entry.role_set(role), ir as int);
            lemma_index_of(entry.users, im as int);
            lemma_index_of(account.projects, ia as int);
        }
        list_remove(&mut self.projects.values[ip].users, im);
        match role {
            ProxyRole::Administrator => {},
            ProxyRole::Developer => {
                list_remove(&mut self.projects.values[ip].developers, ir);
            },
            ProxyRole::Investor => {
                list_remove(&mut self.projects.values[ip].investors, ir);
            },
            ProxyRole::Issuer => {
                list_remove(&mut self.projects.values[ip].issuers, ir);
            },
            ProxyRole::RegionalCenter => {
                list_remove(&mut self.projects.values[ip].regional_centers, ir);
            },
        }
        list_remove(&mut self.users.values[iu].projects, ia);
        proof {
            self.lemma_user_replaced(&before, iu as int);
            assert(self.projects.values@ =~= before.projects.values@.update(
                ip as int,
                self.projects.values@[ip as int],
            ));
            self.lemma_project_replaced(&before, ip as int);
            assert(self@ =~= before@.without_assignment(user, project, role));
        }
        Ok(())
    }
}

} // verus!
