//! Every operation keeps what always holds of the ledger.

use vstd::prelude::*;
use crate::lemmas::{lemma_contains_nonempty, lemma_push, lemma_remove_id};
use crate::model::LedgerView;
use crate::types::{
    AccountId, Document, ExpenditureData, ExpenditureId, Id, ProjectData, ProjectId, ProxyRole,
    UserData,
};

verus! {

impl LedgerView {
    /// The empty ledger is in order.
    pub proof fn lemma_empty_inv()
        ensures
            LedgerView::empty().inv(),
    {
    }

    /// The setup keeps the ledger in order.
    pub proof fn lemma_initial_setup_inv(self, scope: Id)
        requires
            self.inv(),
        ensures
            self.initial_setup(scope).inv(),
    {
        let next = self.initial_setup(scope);
        assert forall|account: AccountId| #[trigger]
            next.users.contains_key(account) implies next.user_inv(account) by {
            assert(self.user_inv(account));
        }
        assert forall|project: ProjectId| #[trigger]
            next.projects.contains_key(project) implies next.project_inv(project) by {
            assert(self.project_inv(project));
        }
        assert forall|expenditure: ExpenditureId| #[trigger]
            next.expenditures.contains_key(expenditure) implies next.expenditure_inv(
            expenditure,
        ) by {
            assert(self.expenditure_inv(expenditure));
        }
    }

    /// A new administrator keeps the ledger in order.
    pub proof fn lemma_add_administrator_inv(self, account: AccountId)
        requires
            self.inv(),
            self.add_administrator(account) is Ok,
        ensures
            self.add_administrator(account)->Ok_0.inv(),
    {
        let next = self.add_administrator(account)->Ok_0;
        lemma_push(self.administrators, account);
        assert forall|other: AccountId| #[trigger]
            next.users.contains_key(other) implies next.user_inv(other) by {
            assert(self.user_inv(other));
        }
        assert forall|project: ProjectId| #[trigger]
            next.projects.contains_key(project) implies next.project_inv(project) by {
            assert(self.project_inv(project));
        }
        assert forall|expenditure: ExpenditureId| #[trigger]
            next.expenditures.contains_key(expenditure) implies next.expenditure_inv(
            expenditure,
        ) by {
            assert(self.expenditure_inv(expenditure));
        }
    }

    /// Removing an administrator keeps the ledger in order.
    pub proof fn lemma_remove_administrator_inv(self, account: AccountId)
        requires
            self.inv(),
            self.remove_administrator(account) is Ok,
        ensures
            self.remove_administrator(account)->Ok_0.inv(),
    {
        let next = self.remove_administrator(account)->Ok_0;
        lemma_remove_id(self.administrators, account);
        lemma_contains_nonempty(self.administrators, account);
        assert forall|other: AccountId| #[trigger]
            next.users.contains_key(other) implies next.user_inv(other) by {
            assert(self.user_inv(other));
        }
        assert forall|project: ProjectId| #[trigger]
            next.projects.contains_key(project) implies next.project_inv(project) by {
            assert(self.project_inv(project));
        }
        assert forall|expenditure: ExpenditureId| #[trigger]
            next.expenditures.contains_key(expenditure) implies next.expenditure_inv(
            expenditure,
        ) by {
            assert(self.expenditure_inv(expenditure));
        }
    }

    /// A new profile keeps the ledger in order.
    pub proof fn lemma_register_user_inv(self, target: AccountId, data: UserData)
        requires
            self.inv(),
            self.register_user(target, data) is Ok,
        ensures
            self.register_user(target, data)->Ok_0.inv(),
    {
        let next = self.register_user(target, data)->Ok_0;
        assert forall|other: AccountId| #[trigger]
            next.users.contains_key(other) implies next.user_inv(other) by {
            if other != target {
                assert(self.user_inv(other));
            }
        }
        assert forall|project: ProjectId| #[trigger]
            next.projects.contains_key(project) implies next.project_inv(project) by {
            assert(self.project_inv(project));
        }
        assert forall|expenditure: ExpenditureId| #[trigger]
            next.expenditures.contains_key(expenditure) implies next.expenditure_inv(
            expenditure,
        ) by {
            assert(self.expenditure_inv(expenditure));
        }
    }

    /// A changed profile keeps the ledger in order.
    pub proof fn lemma_update_user_inv(
        self,
        caller: AccountId,
        target: AccountId,
        name: Option<Vec<u8>>,
        image: Option<Vec<u8>>,
        email: Option<Vec<u8>>,
        documents: Option<Vec<Document>>,
        now: u64,
    )
        requires
            self.inv(),
            self.update_user(caller, target, name, image, email, documents, now) is Ok,
        ensures
            self.update_user(caller, target, name, image, email, documents, now)->Ok_0.inv(),
    {
        let next = self.update_user(caller, target, name, image, email, documents, now)->Ok_0;
        assert forall|other: AccountId| #[trigger]
            next.users.contains_key(other) implies next.user_inv(other) by {
            assert(self.user_inv(other));
        }
        assert forall|project: ProjectId| #[trigger]
            next.projects.contains_key(project) implies next.project_inv(project) by {
            assert(self.project_inv(project));
        }
        assert forall|expenditure: ExpenditureId| #[trigger]
            next.expenditures.contains_key(expenditure) implies next.expenditure_inv(
            expenditure,
        ) by {
            assert(self.expenditure_inv(expenditure));
        }
    }

    /// Deleting a profile keeps the ledger in order.
    pub proof fn lemma_delete_user_inv(self, target: AccountId)
        requires
            self.inv(),
            self.delete_user(target) is Ok,
        ensures
            self.delete_user(target)->Ok_0.inv(),
    {
        let next = self.delete_user(target)->Ok_0;
        assert forall|other: AccountId| #[trigger]
            next.users.contains_key(other) implies next.user_inv(other) by {
            assert(self.user_inv(other));
        }
        assert forall|project: ProjectId| #[trigger]
            next.projects.contains_key(project) implies next.project_inv(project) by {
            assert(self.project_inv(project));
            let entry = self.projects[project];
            assert forall|i: int| 0 <= i < entry.users.len() implies next.users.contains_key(
                #[trigger] entry.users[i],
            ) by {
                if entry.users[i] == target {
                    lemma_contains_nonempty(self.users[target].projects, project);
                }
            }
        }
        assert forall|expenditure: ExpenditureId| #[trigger]
            next.expenditures.contains_key(expenditure) implies next.expenditure_inv(
            expenditure,
        ) by {
            assert(self.expenditure_inv(expenditure));
        }
    }

    /// A new project keeps the ledger in order.
    pub proof fn lemma_create_project_inv(self, project: ProjectId, data: ProjectData, now: u64)
        requires
            self.inv(),
            self.create_project(project, data, now) is Ok,
        ensures
            self.create_project(project, data, now)->Ok_0.inv(),
    {
        let next = self.create_project(project, data, now)->Ok_0;
        assert forall|other: AccountId| #[trigger]
            next.users.contains_key(other) implies next.user_inv(other) by {
            assert(self.user_inv(other));
        }
        assert forall|other: ProjectId| #[trigger]
            next.projects.contains_key(other) implies next.project_inv(other) by {
            if other != project {
                assert(self.project_inv(other));
            }
        }
        assert forall|expenditure: ExpenditureId| #[trigger]
            next.expenditures.contains_key(expenditure) implies next.expenditure_inv(
            expenditure,
        ) by {
            assert(self.expenditure_inv(expenditure));
        }
    }

    /// An edited project keeps the ledger in order.
    pub proof fn lemma_edit_project_inv(
        self,
        caller: AccountId,
        project: ProjectId,
        title: Option<Vec<u8>>,
        description: Option<Vec<u8>>,
        image: Option<Vec<u8>>,
        address: Option<Vec<u8>>,
        creation_date: Option<u64>,
        completion_date: Option<u64>,
        now: u64,
    )
        requires
            self.inv(),
            self.edit_project(
                caller,
                project,
                title,
                description,
                image,
                address,
                creation_date,
                completion_date,
                now,
            ) is Ok,
        ensures
            self.edit_project(
                caller,
                project,
                title,
                description,
                image,
                address,
                creation_date,
                completion_date,
                now,
            )->Ok_0.inv(),
    {
        let next = self.edit_project(
            caller,
            project,
            title,
            description,
            image,
            address,
            creation_date,
            completion_date,
            now,
        )->Ok_0;
        assert forall|other: AccountId| #[trigger]
            next.users.contains_key(other) implies next.user_inv(other) by {
            assert(self.user_inv(other));
        }
        assert forall|other: ProjectId| #[trigger]
            next.projects.contains_key(other) implies next.project_inv(other) by {
            assert(self.project_inv(other));
            if other == project {
                let before = self.projects[project];
                let after = next.projects[project];
                assert(after.roles_exclusive()) by {
                    assert(before.roles_exclusive());
                }
                assert(after.roles_cover()) by {
                    assert(before.roles_cover());
                    assert forall|account: AccountId| #[trigger]
                        after.users.contains(account) <==> after.has_role(account) by {
                        assert(before.users.contains(account) <==> before.has_role(account));
                    }
                }
            }
        }
        assert forall|expenditure: ExpenditureId| #[trigger]
            next.expenditures.contains_key(expenditure) implies next.expenditure_inv(
            expenditure,
        ) by {
            assert(self.expenditure_inv(expenditure));
        }
    }

    /// A new expenditure keeps the ledger in order.
    pub proof fn lemma_create_expenditure_inv(
        self,
        expenditure: ExpenditureId,
        data: ExpenditureData,
    )
        requires
            self.inv(),
            self.create_expenditure(expenditure, data) is Ok,
        ensures
            self.create_expenditure(expenditure, data)->Ok_0.inv(),
    {
        let next = self.create_expenditure(expenditure, data)->Ok_0;
        let project = data.project_id;
        let before = self.projects[project];
        let after = next.projects[project];
        assert(self.project_inv(project));
        if before.expenditures.contains(expenditure) {
            let i = before.expenditures.index_of(expenditure);
            assert(0 <= i < before.expenditures.len() && before.expenditures[i] == expenditure);
        }
        lemma_push(before.expenditures, expenditure);
        assert forall|other: AccountId| #[trigger]
            next.users.contains_key(other) implies next.user_inv(other) by {
            assert(self.user_inv(other));
            let user = self.users[other];
            assert forall|i: int| 0 <= i < user.projects.len() implies next.projects.contains_key(
                #[trigger] user.projects[i],
            ) && next.projects[user.projects[i]].users.contains(other) by {}
        }
        assert forall|other: ProjectId| #[trigger]
            next.projects.contains_key(other) implies next.project_inv(other) by {
            assert(self.project_inv(other));
            if other == project {
                assert(after.roles_exclusive()) by {
                    assert(before.roles_exclusive());
                }
                assert(after.roles_cover()) by {
                    assert forall|account: AccountId| #[trigger]
                        after.users.contains(account) <==> after.has_role(account) by {
                        assert(before.users.contains(account) <==> before.has_role(account));
                    }
                }
                assert forall|i: int|
                    0 <= i < after.expenditures.len() implies next.expenditures.contains_key(
                    #[trigger] after.expenditures[i],
                ) && next.expenditures[after.expenditures[i]].project_id == other by {
                    if i < before.expenditures.len() {
                        assert(after.expenditures[i] == before.expenditures[i]);
                    }
                }
            } else {
                let entry = self.projects[other];
                assert forall|i: int|
                    0 <= i < entry.expenditures.len() implies next.expenditures.contains_key(
                    #[trigger] entry.expenditures[i],
                ) && next.expenditures[entry.expenditures[i]].project_id == other by {}
            }
        }
        assert forall|other: ExpenditureId| #[trigger]
            next.expenditures.contains_key(other) implies next.expenditure_inv(other) by {
            if other != expenditure {
                assert(self.expenditure_inv(other));
            }
        }
    }

    /// An assignment keeps the ledger in order.
    pub proof fn lemma_assign_user_inv(self, user: AccountId, project: ProjectId, role: ProxyRole)
        requires
            self.inv(),
            self.assign_user(user, project, role) is Ok,
        ensures
            self.assign_user(user, project, role)->Ok_0.inv(),
    {
        let next = self.with_assignment(user, project, role);
        let account = self.users[user];
        let before = self.projects[project];
        let after = next.projects[project];
        assert(self.user_inv(user));
        assert(self.project_inv(project));
        assert(before.roles_cover());
        assert(before.roles_exclusive());
        assert(before.users.contains(user) <==> before.has_role(user));
        if account.projects.contains(project) {
            let i = account.projects.index_of(project);
            assert(0 <= i < account.projects.len() && account.projects[i] == project);
        }
        lemma_push(account.projects, project);
        lemma_push(before.users, user);
        lemma_push(before.role_set(role), user);
        assert forall|other: AccountId| #[trigger]
            next.users.contains_key(other) implies next.user_inv(other) by {
            assert(self.user_inv(other));
            let view = next.users[other];
            assert forall|i: int| 0 <= i < view.projects.len() implies next.projects.contains_key(
                #[trigger] view.projects[i],
            ) && next.projects[view.projects[i]].users.contains(other) by {
                if other == user && i == account.projects.len() {
                } else {
                    assert(view.projects[i] == self.users[other].projects[i]);
                }
            }
        }
        assert forall|other: ProjectId| #[trigger]
            next.projects.contains_key(other) implies next.project_inv(other) by {
            assert(self.project_inv(other));
            let entry = next.projects[other];
            if other == project {
                assert(after.roles_exclusive());
                assert forall|a: AccountId| #[trigger]
                    after.users.contains(a) <==> after.has_role(a) by {
                    assert(before.users.contains(a) <==> before.has_role(a));
                }
                assert(after.inv());
            }
            assert forall|i: int| 0 <= i < entry.users.len() implies next.users.contains_key(
                #[trigger] entry.users[i],
            ) && next.users[entry.users[i]].projects.contains(other) by {
                if other == project && i == before.users.len() {
                } else {
                    assert(entry.users[i] == self.projects[other].users[i]);
                }
            }
            assert forall|i: int|
                0 <= i < entry.expenditures.len() implies next.expenditures.contains_key(
                #[trigger] entry.expenditures[i],
            ) && next.expenditures[entry.expenditures[i]].project_id == other by {
                assert(entry.expenditures[i] == self.projects[other].expenditures[i]);
            }
        }
        assert forall|expenditure: ExpenditureId| #[trigger]
            next.expenditures.contains_key(expenditure) implies next.expenditure_inv(
            expenditure,
        ) by {
            assert(self.expenditure_inv(expenditure));
        }
    }

    /// Taking an assignment back keeps the ledger in order.
    pub proof fn lemma_unassign_user_inv(self, user: AccountId, project: ProjectId, role: ProxyRole)
        requires
            self.inv(),
            self.unassign_user(user, project, role) is Ok,
        ensures
            self.unassign_user(user, project, role)->Ok_0.inv(),
            self.users.contains_key(user),
            self.projects.contains_key(project),
            self.users[user].projects.contains(project),
            self.projects[project].users.contains(user),
    {
        let next = self.without_assignment(user, project, role);
        let before = self.projects[project];
        let after = next.projects[project];
        assert(self.projects.contains_key(project));
        assert(self.project_inv(project));
        assert(before.roles_cover());
        assert(before.roles_exclusive());
        assert(before.users.contains(user) <==> before.has_role(user));
        assert(before.users.contains(user));
        let k = before.users.index_of(user);
        assert(0 <= k < before.users.len() && before.users[k] == user);
        assert(self.users.contains_key(user));
        let account = self.users[user];
        assert(self.user_inv(user));
        lemma_remove_id(account.projects, project);
        lemma_remove_id(before.users, user);
        lemma_remove_id(before.role_set(role), user);
        assert forall|other: AccountId| #[trigger]
            next.users.contains_key(other) implies next.user_inv(other) by {
            assert(self.user_inv(other));
            let view = next.users[other];
            assert forall|i: int| 0 <= i < view.projects.len() implies next.projects.contains_key(
                #[trigger] view.projects[i],
            ) && next.projects[view.projects[i]].users.contains(other) by {
                let p = view.projects[i];
                assert(view.projects.contains(p));
                assert(self.users[other].projects.contains(p));
                let j = self.users[other].projects.index_of(p);
                assert(0 <= j < self.users[other].projects.len() && self.users[other].projects[j]
                    == p);
            }
        }
        assert forall|other: ProjectId| #[trigger]
            next.projects.contains_key(other) implies next.project_inv(other) by {
            assert(self.project_inv(other));
            let entry = next.projects[other];
            if other == project {
                assert(after.roles_exclusive());
                assert forall|a: AccountId| #[trigger]
                    after.users.contains(a) <==> after.has_role(a) by {
                    assert(before.users.contains(a) <==> before.has_role(a));
                }
                assert(after.inv());
            }
            assert forall|i: int| 0 <= i < entry.users.len() implies next.users.contains_key(
                #[trigger] entry.users[i],
            ) && next.users[entry.users[i]].projects.contains(other) by {
                let a = entry.users[i];
                assert(entry.users.contains(a));
                assert(self.projects[other].users.contains(a));
                let j = self.projects[other].users.index_of(a);
                assert(0 <= j < self.projects[other].users.len() && self.projects[other].users[j]
                    == a);
            }
            assert forall|i: int|
                0 <= i < entry.expenditures.len() implies next.expenditures.contains_key(
                #[trigger] entry.expenditures[i],
            ) && next.expenditures[entry.expenditures[i]].project_id == other by {
                assert(entry.expenditures[i] == self.projects[other].expenditures[i]);
            }
        }
        assert forall|expenditure: ExpenditureId| #[trigger]
            next.expenditures.contains_key(expenditure) implies next.expenditure_inv(
            expenditure,
        ) by {
            assert(self.expenditure_inv(expenditure));
        }
    }

    /// Deleting a project keeps the ledger in order.
    pub proof fn lemma_delete_project_inv(self, project: ProjectId, now: u64)
        requires
            self.inv(),
            self.delete_project(project, now) is Ok,
        ensures
            self.delete_project(project, now)->Ok_0.inv(),
    {
        let next = self.without_project(project);
        let gone = self.projects[project];
        assert(self.project_inv(project));
        assert forall|other: AccountId| #[trigger]
            next.users.contains_key(other) implies next.user_inv(other) by {
            assert(self.user_inv(other));
            let stored = self.users[other];
            let view = next.users[other];
            lemma_remove_id(stored.projects, project);
            assert forall|i: int| 0 <= i < view.projects.len() implies next.projects.contains_key(
                #[trigger] view.projects[i],
            ) && next.projects[view.projects[i]].users.contains(other) by {
                let p = view.projects[i];
                assert(view.projects.contains(p));
                assert(stored.projects.contains(p));
                let j = stored.projects.index_of(p);
                assert(0 <= j < stored.projects.len() && stored.projects[j] == p);
            }
        }
        assert forall|other: ProjectId| #[trigger]
            next.projects.contains_key(other) implies next.project_inv(other) by {
            assert(self.project_inv(other));
            let entry = self.projects[other];
            assert forall|i: int| 0 <= i < entry.users.len() implies next.users.contains_key(
                #[trigger] entry.users[i],
            ) && next.users[entry.users[i]].projects.contains(other) by {
                let a = entry.users[i];
                assert(self.user_inv(a));
                lemma_remove_id(self.users[a].projects, project);
            }
            assert forall|i: int|
                0 <= i < entry.expenditures.len() implies next.expenditures.contains_key(
                #[trigger] entry.expenditures[i],
            ) && next.expenditures[entry.expenditures[i]].project_id == other by {
                let e = entry.expenditures[i];
                if gone.expenditures.contains(e) {
                    let j = gone.expenditures.index_of(e);
                    assert(0 <= j < gone.expenditures.len() && gone.expenditures[j] == e);
                }
            }
        }
        assert forall|expenditure: ExpenditureId| #[trigger]
            next.expenditures.contains_key(expenditure) implies next.expenditure_inv(
            expenditure,
        ) by {
            assert(self.expenditure_inv(expenditure));
        }
    }

    /// The setup records no new role.
    pub proof fn lemma_initial_setup_roles(self, scope: Id)
        ensures
            self.initial_setup(scope).roles_within(self),
    {
    }

    /// A new profile records no new role.
    pub proof fn lemma_register_user_roles(self, target: AccountId, data: UserData)
        requires
            self.register_user(target, data) is Ok,
        ensures
            self.register_user(target, data)->Ok_0.roles_within(self),
    {
    }

    /// A changed profile records no new role.
    pub proof fn lemma_update_user_roles(
        self,
        caller: AccountId,
        target: AccountId,
        name: Option<Vec<u8>>,
        image: Option<Vec<u8>>,
        email: Option<Vec<u8>>,
        documents: Option<Vec<Document>>,
        now: u64,
    )
        requires
            self.update_user(caller, target, name, image, email, documents, now) is Ok,
        ensures
            self.update_user(caller, target, name, image, email, documents, now)->Ok_0.roles_within(
                self,
            ),
    {
    }

    /// Deleting a profile records no new role.
    pub proof fn lemma_delete_user_roles(self, target: AccountId)
        requires
            self.delete_user(target) is Ok,
        ensures
            self.delete_user(target)->Ok_0.roles_within(self),
    {
    }

    /// A new project records no new role.
    pub proof fn lemma_create_project_roles(self, project: ProjectId, data: ProjectData, now: u64)
        requires
            self.create_project(project, data, now) is Ok,
        ensures
            self.create_project(project, data, now)->Ok_0.roles_within(self),
    {
        let next = self.create_project(project, data, now)->Ok_0;
        assert forall|p: ProjectId, role: ProxyRole, account: AccountId| #[trigger]
            next.role_set(p, role).contains(account) implies self.role_set(p, role).contains(
            account,
        ) by {
            if p == project {
                assert(next.role_set(p, role) =~= Seq::empty());
            }
        }
    }

    /// An edited project records no new role.
    pub proof fn lemma_edit_project_roles(
        self,
        caller: AccountId,
        project: ProjectId,
        title: Option<Vec<u8>>,
        description: Option<Vec<u8>>,
        image: Option<Vec<u8>>,
        address: Option<Vec<u8>>,
        creation_date: Option<u64>,
        completion_date: Option<u64>,
        now: u64,
    )
        requires
            self.edit_project(
                caller,
                project,
                title,
                description,
                image,
                address,
                creation_date,
                completion_date,
                now,
            ) is Ok,
        ensures
            self.edit_project(
                caller,
                project,
                title,
                description,
                image,
                address,
                creation_date,
                completion_date,
                now,
            )->Ok_0.roles_within(self),
    {
    }

    /// A new expenditure records no new role.
    pub proof fn lemma_create_expenditure_roles(
        self,
        expenditure: ExpenditureId,
        data: ExpenditureData,
    )
        requires
            self.create_expenditure(expenditure, data) is Ok,
        ensures
            self.create_expenditure(expenditure, data)->Ok_0.roles_within(self),
    {
    }

    /// Deleting a project records no new role, and leaves none in the
    /// project.
    pub proof fn lemma_delete_project_roles(self, project: ProjectId, now: u64)
        requires
            self.delete_project(project, now) is Ok,
        ensures
            self.delete_project(project, now)->Ok_0.roles_within(self),
            forall|role: ProxyRole, account: AccountId|
                !(#[trigger] self.delete_project(project, now)->Ok_0.role_set(
                    project,
                    role,
                ).contains(account)),
    {
    }

    /// A new administrator is the one role that adding it records.
    pub proof fn lemma_add_administrator_roles(self, account: AccountId)
        requires
            self.inv(),
            self.add_administrator(account) is Ok,
        ensures
            ({
                let next = self.add_administrator(account)->Ok_0;
                &&& next.global_scope == self.global_scope
                &&& next.global_scope is Some
                &&& next.projects == self.projects
                &&& forall|other: AccountId| #[trigger]
                    next.administrators.contains(other) ==> self.administrators.contains(other)
                        || other == account
            }),
    {
        lemma_push(self.administrators, account);
    }

    /// Removing an administrator records no new role, and no longer that of
    /// this administrator.
    pub proof fn lemma_remove_administrator_roles(self, account: AccountId)
        requires
            self.inv(),
            self.remove_administrator(account) is Ok,
        ensures
            self.remove_administrator(account)->Ok_0.roles_within(self),
            self.global_scope is Some,
            !self.remove_administrator(account)->Ok_0.administrators.contains(account),
    {
        lemma_remove_id(self.administrators, account);
        lemma_contains_nonempty(self.administrators, account);
    }

    /// An assignment is the one role that making it records.
    pub proof fn lemma_assign_user_roles(self, user: AccountId, project: ProjectId, role: ProxyRole)
        requires
            self.inv(),
            self.assign_user(user, project, role) is Ok,
        ensures
            ({
                let next = self.assign_user(user, project, role)->Ok_0;
                &&& next.global_scope == self.global_scope
                &&& next.administrators == self.administrators
                &&& forall|p: ProjectId, r: ProxyRole, a: AccountId| #[trigger]
                    next.role_set(p, r).contains(a) ==> self.role_set(p, r).contains(a) || (p
                        == project && r == role && a == user)
            }),
    {
        let next = self.assign_user(user, project, role)->Ok_0;
        let entry = self.projects[project];
        assert(self.project_inv(project));
        assert(entry.users.contains(user) <==> entry.has_role(user));
        lemma_push(entry.role_set(role), user);
        assert forall|p: ProjectId, r: ProxyRole, a: AccountId| #[trigger]
            next.role_set(p, r).contains(a) implies self.role_set(p, r).contains(a) || (p == project
            && r == role && a == user) by {
            if p == project && r != role {
                assert(next.role_set(p, r) == entry.role_set(r));
            }
        }
    }

    /// Taking an assignment back records no new role, and no longer that
    /// assignment.
    pub proof fn lemma_unassign_user_roles(
        self,
        user: AccountId,
        project: ProjectId,
        role: ProxyRole,
    )
        requires
            self.inv(),
            self.unassign_user(user, project, role) is Ok,
        ensures
            self.unassign_user(user, project, role)->Ok_0.roles_within(self),
            self.unassign_user(user, project, role)->Ok_0.administrators == self.administrators,
            self.unassign_user(user, project, role)->Ok_0.global_scope == self.global_scope,
            role != ProxyRole::Administrator,
            !self.unassign_user(user, project, role)->Ok_0.role_set(project, role).contains(user),
    {
        let next = self.unassign_user(user, project, role)->Ok_0;
        let entry = self.projects[project];
        assert(self.project_inv(project));
        lemma_remove_id(entry.role_set(role), user);
        assert forall|p: ProjectId, r: ProxyRole, a: AccountId| #[trigger]
            next.role_set(p, r).contains(a) implies self.role_set(p, r).contains(a) by {
            if p == project && r != role {
                assert(next.role_set(p, r) == entry.role_set(r));
            }
        }
    }
}

} // verus!
