//! The project registry: the records of the projects, their dates, and the
//! deletion of a project with all that hangs on it.

use vstd::prelude::*;
use crate::bounded::{list_as_vec, list_items, list_new, list_remove, position};
use crate::ledger::{Ledger, ProjectEntry};
use crate::lemmas::lemma_index_of;
use crate::model::{edited_dates_error, new_project_data, remove_id};
use crate::types::{AccountId, AuditInfo, Error, Id, ProjectData, ProjectId};

verus! {

/// What is wrong with the dates that an edit would leave, if anything.
pub fn check_edited_dates(
    stored: &ProjectData,
    creation_date: Option<u64>,
    completion_date: Option<u64>,
    now: u64,
) -> (wrong: Option<Error>)
    ensures
        wrong == edited_dates_error(*stored, creation_date, completion_date, now),
{
    if creation_date.is_none() && completion_date.is_none() {
        return None;
    }
    let creation = match creation_date {
        Some(date) => date,
        None => stored.creation_date,
    };
    let completion = match completion_date {
        Some(date) => Some(date),
        None => stored.completion_date,
    };
    if let Some(date) = completion {
        if date <= creation {
            return Some(Error::CompletitionDateMustBeLater);
        }
    }
    if let Some(date) = creation_date {
        if date > now {
            return Some(Error::CreationDateMustBeInThePast);
        }
    }
    if let Some(date) = completion_date {
        if date < now {
            return Some(Error::DateCanNotBeInThePast);
        }
    }
    None
}

impl Ledger {
    /// Opens a project under an identifier that no project has.
    pub fn create_project(
        &mut self,
        creator: AccountId,
        project: ProjectId,
        title: Vec<u8>,
        description: Vec<u8>,
        image: Vec<u8>,
        address: Vec<u8>,
        creation_date: u64,
        completion_date: u64,
        now: u64,
    ) -> (created: Result<(), Error>)
        requires
            old(self).wf(),
        ensures
            final(self).wf(),
            match old(self)@.create_project(
                project,
                new_project_data(
                    creator,
                    title,
                    description,
                    image,
                    address,
                    creation_date,
                    completion_date,
                    now,
                ),
                now,
            ) {
                Ok(next) => created is Ok && final(self)@ == next,
                Err(error) => created matches Err(refusal) && refusal == error && final(self)@
                    == old(self)@,
            },
            completion_date <= creation_date ==> final(self)@ == old(self)@ && (
            created matches Err(refusal) && refusal == Error::CompletitionDateMustBeLater),
    {
        let ghost before = *self;
        if completion_date <= creation_date {
            return Err(Error::CompletitionDateMustBeLater);
        }
        if creation_date < now {
            return Err(Error::DateCanNotBeInThePast);
        }
        if creation_date > now {
            return Err(Error::CreationDateMustBeInThePast);
        }
        if self.projects.contains_key(&project) {
            return Err(Error::ProjectIdAlreadyInUse);
        }
        let data = ProjectData {
            title,
            description,
            image,
            address,
            creation_date,
            completion_date: Some(completion_date),
            creator,
            audit: AuditInfo {
                created_by: creator,
                created_at: now,
                modified_by: creator,
                modified_at: now,
            },
        };
        let entry = ProjectEntry {
            data,
            users: list_new(),
            developers: list_new(),
            investors: list_new(),
            issuers: list_new(),
            regional_centers: list_new(),
            expenditures: list_new(),
        };
        self.projects.insert_new(project, entry);
        proof {
            assert(self@.projects =~= before@.create_project(project, data, now)->Ok_0.projects);
            assert(self@ =~= before@.create_project(project, data, now)->Ok_0);
            before@.lemma_create_project_inv(project, data, now);
        }
        Ok(())
    }

    /// Changes the record of a project that is not completed: each field that
    /// is given replaces the stored one.
    pub fn edit_project(
        &mut self,
        caller: AccountId,
        project: ProjectId,
        title: Option<Vec<u8>>,
        description: Option<Vec<u8>>,
        image: Option<Vec<u8>>,
        address: Option<Vec<u8>>,
        creation_date: Option<u64>,
        completion_date: Option<u64>,
        now: u64,
    ) -> (edited: Result<(), Error>)
        requires
            old(self).wf(),
        ensures
            final(self).wf(),
            match old(self)@.edit_project(
                caller,
                project,
                title,
                description,
                image,
                address,
                creation_date,
                completion_date,
                now,
            ) {
                Ok(next) => edited is Ok && final(self)@ == next,
                Err(error) => edited matches Err(refusal) && refusal == error && final(self)@
                    == old(self)@,
            },
    {
        let ghost before = *self;
        let i = match self.projects.find(&project) {
            Some(i) => i,
            None => {
                return Err(Error::ProjectNotFound);
            },
        };
        if self.projects.values[i].data.is_completed(now) {
            return Err(Error::CannotEditCompletedProject);
        }
        if let Some(error) = check_edited_dates(
            &self.projects.values[i].data,
            creation_date,
            completion_date,
            now,
        ) {
            return Err(error);
        }
        if let Some(title) = title {
            self.projects.values[i].data.title = title;
        }
        if let Some(description) = description {
            self.projects.values[i].data.description = description;
        }
        if let Some(image) = image {
            self.projects.values[i].data.image = image;
        }
        if let Some(address) = address {
            self.projects.values[i].data.address = address;
        }
        if let Some(date) = creation_date {
            self.projects.values[i].data.creation_date = date;
        }
        if completion_date.is_some() {
            self.projects.values[i].data.completion_date = completion_date;
        }
        self.projects.values[i].data.audit.modified_by = caller;
        self.projects.values[i].data.audit.modified_at = now;
        proof {
            assert(self.projects.values@ =~= before.projects.values@.update(
                i as int,
                self.projects.values@[i as int],
            ));
            self.lemma_project_replaced(&before, i as int);
            assert(self@ =~= before@.edit_project(
                caller,
                project,
                title,
                description,
                image,
                address,
                creation_date,
                completion_date,
                now,
            )->Ok_0);
            before@.lemma_edit_project_inv(
                caller,
                project,
                title,
                description,
                image,
                address,
                creation_date,
                completion_date,
                now,
            );
        }
        Ok(())
    }

    /// Takes a project out of the projects of each of the given accounts.
    fn release_members(&mut self, members: &Vec<AccountId>, project: ProjectId)
        requires
            old(self).users.wf(),
            members@.no_duplicates(),
            forall|k: int|
                0 <= k < members@.len() ==> old(self).users@.contains_key(#[trigger] members@[k])
                    && list_items(old(self).users@[members@[k]].projects).contains(project),
            forall|account: AccountId| #[trigger]
                old(self).users@.contains_key(account) ==> list_items(
                    old(self).users@[account].projects,
                ).no_duplicates(),
            forall|account: AccountId|
                old(self).users@.contains_key(account) && !members@.contains(account)
                    ==> !list_items(#[trigger] old(self).users@[account].projects).contains(
                    project,
                ),
        ensures
            final(self).users.wf(),
            final(self).users.keys@ == old(self).users.keys@,
            final(self).global_scope == old(self).global_scope,
            final(self).administrators == old(self).administrators,
            final(self).projects == old(self).projects,
            final(self).expenditures == old(self).expenditures,
            forall|account: AccountId| #[trigger]
                final(self).users@.contains_key(account) <==> old(self).users@.contains_key(
                    account,
                ),
            forall|account: AccountId| #[trigger]
                final(self).users@.contains_key(account) ==> final(self).users@[account].data
                    == old(self).users@[account].data && list_items(
                    final(self).users@[account].projects,
                ) == remove_id(list_items(old(self).users@[account].projects), project),
    {
        let ghost before = *self;
        let mut k: usize = 0;
        while k < members.len()
            invariant
                k <= members.len(),
                before.users.wf(),
                self.users.wf(),
                self.users.keys@ == before.users.keys@,
                self.global_scope == before.global_scope,
                self.administrators == before.administrators,
                self.projects == before.projects,
                self.expenditures == before.expenditures,
                members@.no_duplicates(),
                forall|k: int|
                    0 <= k < members@.len() ==> before.users@.contains_key(#[trigger] members@[k])
                        && list_items(before.users@[members@[k]].projects).contains(project),
                forall|account: AccountId| #[trigger]
                    before.users@.contains_key(account) ==> list_items(
                        before.users@[account].projects,
                    ).no_duplicates(),
                forall|j: int|
                    0 <= j < self.users.keys@.len() ==> (#[trigger] self.users.values@[j]).data
                        == before.users.values@[j].data && list_items(
                        self.users.values@[j].projects,
                    ) == if members@.take(k as int).contains(self.users.keys@[j]) {
                        remove_id(list_items(before.users.values@[j].projects), project)
                    } else {
                        list_items(before.users.values@[j].projects)
                    },
            decreases members.len() - k,
        {
            let account = members[k];
            let ghost stage = *self;
            proof {
                assert(before.users@.contains_key(members@[k as int]));
                assert(before.users.keys@.contains(account));
            }
            let iu = self.users.find(&account).unwrap();
            proof {
                before.users.lemma_at(iu as int);
                if members@.take(k as int).contains(account) {
                    let j = members@.take(k as int).index_of(account);
                    assert(0 <= j < k && members@.take(k as int)[j] == account);
                    assert(members@[j] == members@[k as int]);
                }
                assert(list_items(self.users.values@[iu as int].projects) == list_items(
                    before.users.values@[iu as int].projects,
                ));
            }
            let listed = list_as_vec(&self.users.values[iu].projects);
            let ia = position(listed, &project).unwrap();
            proof {
                lemma_index_of(list_items(before.users.values@[iu as int].projects), ia as int);
            }
            list_remove(&mut self.users.values[iu].projects, ia);
            proof {
                assert(self.users.values@ =~= stage.users.values@.update(
                    iu as int,
                    self.users.values@[iu as int],
                ));
                assert forall|j: int| 0 <= j < self.users.keys@.len() implies (
                #[trigger] self.users.values@[j]).data == before.users.values@[j].data
                    && list_items(self.users.values@[j].projects) == if members@.take(
                    k + 1,
                ).contains(self.users.keys@[j]) {
                    remove_id(list_items(before.users.values@[j].projects), project)
                } else {
                    list_items(before.users.values@[j].projects)
                } by {
                    let key = self.users.keys@[j];
                    let so_far = members@.take(k as int);
                    let further = members@.take(k + 1);
                    assert(further =~= so_far.push(account));
                    assert(further[k as int] == account);
                    if so_far.contains(key) {
                        let m = so_far.index_of(key);
                        assert(0 <= m < k && so_far[m] == key);
                        assert(further[m] == key);
                    }
                    if further.contains(key) {
                        let m = further.index_of(key);
                        assert(0 <= m < k + 1 && further[m] == key);
                        if m < k {
                            assert(so_far[m] == key);
                        }
                    }
                    if j == iu {
                        assert(further.contains(key));
                    } else {
                        assert(key != account);
                        assert(stage.users.values@[j] == self.users.values@[j]);
                    }
                }
            }
            k += 1;
        }
        proof {
            assert(members@.take(members@.len() as int) =~= members@);
            assert forall|account: AccountId| #[trigger]
                self.users@.contains_key(account) <==> before.users@.contains_key(account) by {}
            assert forall|account: AccountId| #[trigger]
                self.users@.contains_key(account) implies self.users@[account].data
                == before.users@[account].data && list_items(self.users@[account].projects)
                == remove_id(list_items(before.users@[account].projects), project) by {
                let j = self.users.keys@.index_of(account);
                assert(0 <= j < self.users.keys@.len() && self.users.keys@[j] == account);
                self.users.lemma_at(j);
                before.users.lemma_at(j);
                assert(self.users.values@[j].data == before.users.values@[j].data);
                if !members@.contains(account) {
                    assert(!list_items(before.users@[account].projects).contains(project));
                }
            }
        }
    }

    /// Takes the given expenditures out of the ledger.
    fn drop_expenditures(&mut self, expenditures: &Vec<Id>)
        requires
            old(self).expenditures.wf(),
            expenditures@.no_duplicates(),
            forall|k: int|
                0 <= k < expenditures@.len() ==> old(self).expenditures@.contains_key(
                    #[trigger] expenditures@[k],
                ),
        ensures
            final(self).expenditures.wf(),
            final(self).expenditures@ == old(self).expenditures@.remove_keys(
                expenditures@.to_set(),
            ),
            final(self).global_scope == old(self).global_scope,
            final(self).administrators == old(self).administrators,
            final(self).projects == old(self).projects,
            final(self).users == old(self).users,
    {
        let ghost before = *self;
        let mut k: usize = 0;
        proof {
            assert(before.expenditures@.remove_keys(expenditures@.take(0).to_set())
                =~= before.expenditures@);
        }
        while k < expenditures.len()
            invariant
                k <= expenditures.len(),
                self.expenditures.wf(),
                expenditures@.no_duplicates(),
                forall|k: int|
                    0 <= k < expenditures@.len() ==> before.expenditures@.contains_key(
                        #[trigger] expenditures@[k],
                    ),
                self.expenditures@ == before.expenditures@.remove_keys(
                    expenditures@.take(k as int).to_set(),
                ),
                self.global_scope == before.global_scope,
                self.administrators == before.administrators,
                self.projects == before.projects,
                self.users == before.users,
            decreases expenditures.len() - k,
        {
            let expenditure = expenditures[k];
            let ghost so_far = expenditures@.take(k as int);
            let ghost further = expenditures@.take(k + 1);
            proof {
                assert(before.expenditures@.contains_key(expenditures@[k as int]));
                if so_far.contains(expenditure) {
                    let j = so_far.index_of(expenditure);
                    assert(0 <= j < k && so_far[j] == expenditure);
                    assert(expenditures@[j] == expenditures@[k as int]);
                }
            }
            let i = self.expenditures.find(&expenditure).unwrap();
            self.expenditures.remove_at(i);
            proof {
                assert(further =~= so_far.push(expenditure));
                assert forall|key: Id|
                    further.to_set().contains(key) <==> so_far.to_set().contains(key) || key
                        == expenditure by {
                    assert(further[k as int] == expenditure);
                    if so_far.contains(key) {
                        let m = so_far.index_of(key);
                        assert(0 <= m < k && so_far[m] == key);
                        assert(further[m] == key);
                    }
                    if further.contains(key) {
                        let m = further.index_of(key);
                        assert(0 <= m < k + 1 && further[m] == key);
                        if m < k {
                            assert(so_far[m] == key);
                        }
                    }
                }
                assert(self.expenditures@ =~= before.expenditures@.remove_keys(further.to_set()));
            }
            k += 1;
        }
        proof {
            assert(expenditures@.take(expenditures@.len() as int) =~= expenditures@);
        }
    }

    /// Deletes a project that is not completed, and with it its place in the
    /// projects of every account, its roles and its expenditures.
    pub fn delete_project(&mut self, project: ProjectId, now: u64) -> (deleted: Result<(), Error>)
        requires
            old(self).wf(),
        ensures
            final(self).wf(),
            match old(self)@.delete_project(project, now) {
                Ok(next) => deleted is Ok && final(self)@ == next,
                Err(error) => deleted matches Err(refusal) && refusal == error && final(self)@
                    == old(self)@,
            },
    {
        let ghost before = *self;
        let i = match self.projects.find(&project) {
            Some(i) => i,
            None => {
                return Err(Error::ProjectNotFound);
            },
        };
        if self.projects.values[i].data.is_completed(now) {
            return Err(Error::CannotDeleteCompletedProject);
        }
        let entry = self.projects.remove_at(i);
        let members = list_as_vec(&entry.users);
        let expenditures = list_as_vec(&entry.expenditures);
        proof {
            let gone = before@.projects[project];
            assert(gone == entry@);
            assert(before@.project_inv(project));
            assert forall|k: int| 0 <= k < members@.len() implies self.users@.contains_key(
                #[trigger] members@[k],
            ) && list_items(self.users@[members@[k]].projects).contains(project) by {
                assert(before@.users.contains_key(gone.users[k]));
            }
            assert forall|account: AccountId| #[trigger]
                self.users@.contains_key(account) implies list_items(
                self.users@[account].projects,
            ).no_duplicates() by {
                assert(before@.users.contains_key(account));
                assert(before@.user_inv(account));
            }
            assert forall|account: AccountId|
                self.users@.contains_key(account) && !members@.contains(
                    account,
                ) implies !list_items(#[trigger] self.users@[account].projects).contains(
                project,
            ) by {
                assert(before@.users.contains_key(account));
                assert(before@.user_inv(account));
                let listed = list_items(self.users@[account].projects);
                if listed.contains(project) {
                    let j = listed.index_of(project);
                    assert(0 <= j < listed.len() && listed[j] == project);
                    assert(before@.projects[listed[j]].users.contains(account));
                }
            }
            assert forall|k: int|
                0 <= k < expenditures@.len() implies self.expenditures@.contains_key(
                #[trigger] expenditures@[k],
            ) by {
                assert(before@.expenditures.contains_key(gone.expenditures[k]));
            }
        }
        self.release_members(members, project);
        self.drop_expenditures(expenditures);
        proof {
            let next = before@.without_project(project);
            assert(self@.projects =~= next.projects);
            assert(self@.users =~= next.users);
            assert(self@.expenditures =~= next.expenditures);
            assert(self@ =~= next);
            before@.lemma_delete_project_inv(project, now);
        }
        Ok(())
    }
}

} // verus!
