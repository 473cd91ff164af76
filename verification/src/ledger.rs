//! The ledger as it is held in memory, and what can be read from it.

use vstd::prelude::*;
use crate::bounded::{list_as_vec, list_items, position, IdList};
use crate::model::{LedgerView, ProjectView, UserView};
use crate::table::Table;
use crate::types::{
    AccountId, ExpenditureData, ExpenditureId, Id, ProjectData, ProjectId, ProxyRole, UserData,
};

verus! {

/// A registered account: its profile and the projects it belongs to.
pub struct UserEntry {
    pub(crate) data: UserData,
    pub(crate) projects: IdList,
}

/// A project: its record, all its accounts, the accounts of each role, and
/// its expenditures.
pub struct ProjectEntry {
    pub(crate) data: ProjectData,
    pub(crate) users: IdList,
    pub(crate) developers: IdList,
    pub(crate) investors: IdList,
    pub(crate) issuers: IdList,
    pub(crate) regional_centers: IdList,
    pub(crate) expenditures: IdList,
}

/// The ledger: the global scope, the administrators, and the accounts,
/// projects and expenditures by identifier.
pub struct Ledger {
    pub(crate) global_scope: Option<Id>,
    pub(crate) administrators: Vec<AccountId>,
    pub(crate) users: Table<UserEntry>,
    pub(crate) projects: Table<ProjectEntry>,
    pub(crate) expenditures: Table<ExpenditureData>,
}

impl UserEntry {
    pub open(crate) spec fn view(&self) -> UserView {
        UserView { data: self.data, projects: list_items(self.projects) }
    }
}

impl ProjectEntry {
    pub open(crate) spec fn view(&self) -> ProjectView {
        ProjectView {
            data: self.data,
            users: list_items(self.users),
            developers: list_items(self.developers),
            investors: list_items(self.investors),
            issuers: list_items(self.issuers),
            regional_centers: list_items(self.regional_centers),
            expenditures: list_items(self.expenditures),
        }
    }

    /// The accounts that hold a role in the project.
    pub(crate) fn role_members(&self, role: ProxyRole) -> (members: Option<&Vec<AccountId>>)
        ensures
            match members {
                Some(list) => role != ProxyRole::Administrator && list@ == self@.role_set(role),
                None => role == ProxyRole::Administrator,
            },
    {
        match role {
            ProxyRole::Administrator => None,
            ProxyRole::Developer => Some(list_as_vec(&self.developers)),
            ProxyRole::Investor => Some(list_as_vec(&self.investors)),
            ProxyRole::Issuer => Some(list_as_vec(&self.issuers)),
            ProxyRole::RegionalCenter => Some(list_as_vec(&self.regional_centers)),
        }
    }
}

/// A copy of a vector of identifiers.
pub fn copy_ids(items: &Vec<Id>) -> (copy: Vec<Id>)
    ensures
        copy@ == items@,
{
    let mut copy: Vec<Id> = Vec::new();
    let mut i: usize = 0;
    while i < items.len()
        invariant
            i <= items.len(),
            copy@ == items@.take(i as int),
        decreases items.len() - i,
    {
        copy.push(items[i]);
        assert(items@.take(i + 1) =~= items@.take(i as int).push(items@[i as int]));
        i += 1;
    }
    assert(items@.take(items.len() as int) =~= items@);
    copy
}

impl Ledger {
    /// All that the ledger holds.
    pub open(crate) spec fn view(&self) -> LedgerView {
        LedgerView {
            global_scope: self.global_scope,
            administrators: self.administrators@,
            users: self.users@.map_values(|entry: UserEntry| entry@),
            projects: self.projects@.map_values(|entry: ProjectEntry| entry@),
            expenditures: self.expenditures@,
        }
    }

    /// The ledger is well formed: no identifier has two records, and what
    /// always holds of a ledger holds of it.
    pub open(crate) spec fn wf(&self) -> bool {
        &&& self.users.wf()
        &&& self.projects.wf()
        &&& self.expenditures.wf()
        &&& self@.inv()
    }

    /// A well-formed ledger is in order. This is what those who cannot see
    /// inside a ledger learn from its being well formed.
    pub proof fn lemma_wf_inv(&self)
        requires
            self.wf(),
        ensures
            self@.inv(),
    {
    }

    /// Replacing the entry at place `i` of the accounts replaces the account
    /// of that key in the view.
    pub(crate) proof fn lemma_user_replaced(&self, before: &Ledger, i: int)
        requires
            before.users.wf(),
            0 <= i < before.users.keys@.len(),
            self.users.keys@ == before.users.keys@,
            self.users.values@ == before.users.values@.update(i, self.users.values@[i]),
        ensures
            self.users.wf(),
            self@.users == before@.users.insert(before.users.keys@[i], self.users.values@[i]@),
    {
        self.users.lemma_value_replaced(&before.users, i);
        assert(self@.users =~= before@.users.insert(
            before.users.keys@[i],
            self.users.values@[i]@,
        ));
    }

    /// Replacing the entry at place `i` of the projects replaces the project
    /// of that key in the view.
    pub(crate) proof fn lemma_project_replaced(&self, before: &Ledger, i: int)
        requires
            before.projects.wf(),
            0 <= i < before.projects.keys@.len(),
            self.projects.keys@ == before.projects.keys@,
            self.projects.values@ == before.projects.values@.update(i, self.projects.values@[i]),
        ensures
            self.projects.wf(),
            self@.projects == before@.projects.insert(
                before.projects.keys@[i],
                self.projects.values@[i]@,
            ),
    {
        self.projects.lemma_value_replaced(&before.projects, i);
        assert(self@.projects =~= before@.projects.insert(
            before.projects.keys@[i],
            self.projects.values@[i]@,
        ));
    }

    /// The ledger before anything happened.
    pub fn new() -> (ledger: Ledger)
        ensures
            ledger.wf(),
            ledger@ == LedgerView::empty(),
    {
        let ledger = Ledger {
            global_scope: None,
            administrators: Vec::new(),
            users: Table::new(),
            projects: Table::new(),
            expenditures: Table::new(),
        };
        proof {
            assert(ledger@.users =~= Map::empty());
            assert(ledger@.projects =~= Map::empty());
            assert(ledger@.administrators =~= Seq::empty());
            assert(ledger@ =~= LedgerView::empty());
            LedgerView::lemma_empty_inv();
        }
        ledger
    }

    /// The global scope, once the setup has named it.
    pub fn global_scope(&self) -> (scope: Option<Id>)
        ensures
            scope == self@.global_scope,
    {
        self.global_scope
    }

    /// Whether the account is an administrator.
    pub fn is_administrator(&self, account: &AccountId) -> (held: bool)
        ensures
            held == self@.administrators.contains(*account),
    {
        position(&self.administrators, account).is_some()
    }

    /// The administrators, first added first.
    pub fn administrators(&self) -> (accounts: Vec<AccountId>)
        ensures
            accounts@ == self@.administrators,
    {
        copy_ids(&self.administrators)
    }

    /// Whether the account has a profile.
    pub fn is_registered(&self, account: &AccountId) -> (registered: bool)
        requires
            self.wf(),
        ensures
            registered == self@.users.contains_key(*account),
    {
        self.users.contains_key(account)
    }

    /// The profile of an account.
    pub fn user(&self, account: &AccountId) -> (data: Option<&UserData>)
        requires
            self.wf(),
        ensures
            match data {
                Some(data) => self@.users.contains_key(*account) && *data
                    == self@.users[*account].data,
                None => !self@.users.contains_key(*account),
            },
    {
        match self.users.find(account) {
            Some(i) => Some(&self.users.values[i].data),
            None => None,
        }
    }

    /// The record of a project.
    pub fn project(&self, project: &ProjectId) -> (data: Option<&ProjectData>)
        requires
            self.wf(),
        ensures
            match data {
                Some(data) => self@.projects.contains_key(*project) && *data
                    == self@.projects[*project].data,
                None => !self@.projects.contains_key(*project),
            },
    {
        match self.projects.find(project) {
            Some(i) => Some(&self.projects.values[i].data),
            None => None,
        }
    }

    /// The record of an expenditure.
    pub fn expenditure(&self, expenditure: &ExpenditureId) -> (data: Option<&ExpenditureData>)
        requires
            self.wf(),
        ensures
            match data {
                Some(data) => self@.expenditures.contains_key(*expenditure) && *data
                    == self@.expenditures[*expenditure],
                None => !self@.expenditures.contains_key(*expenditure),
            },
    {
        match self.expenditures.find(expenditure) {
            Some(i) => Some(&self.expenditures.values[i]),
            None => None,
        }
    }

    /// The projects of an account, first assigned first.
    pub fn projects_by_user(&self, account: &AccountId) -> (projects: Vec<ProjectId>)
        requires
            self.wf(),
        ensures
            projects@ == self@.projects_by_user(*account),
    {
        match self.users.find(account) {
            Some(i) => copy_ids(list_as_vec(&self.users.values[i].projects)),
            None => Vec::new(),
        }
    }

    /// The accounts of a project, first assigned first.
    pub fn users_by_project(&self, project: &ProjectId) -> (accounts: Vec<AccountId>)
        requires
            self.wf(),
        ensures
            accounts@ == self@.users_by_project(*project),
    {
        match self.projects.find(project) {
            Some(i) => copy_ids(list_as_vec(&self.projects.values[i].users)),
            None => Vec::new(),
        }
    }

    /// The accounts that hold a role in a project, first assigned first.
    pub fn role_members(&self, project: &ProjectId, role: ProxyRole) -> (accounts: Vec<AccountId>)
        requires
            self.wf(),
        ensures
            accounts@ == self@.role_set(*project, role),
    {
        match self.projects.find(project) {
            Some(i) => match self.projects.values[i].role_members(role) {
                Some(members) => copy_ids(members),
                None => Vec::new(),
            },
            None => Vec::new(),
        }
    }

    /// The expenditures of a project, first created first.
    pub fn expenditures_by_project(&self, project: &ProjectId) -> (expenditures: Vec<
        ExpenditureId,
    >)
        requires
            self.wf(),
        ensures
            expenditures@ == self@.expenditures_by_project(*project),
    {
        match self.projects.find(project) {
            Some(i) => copy_ids(list_as_vec(&self.projects.values[i].expenditures)),
            None => Vec::new(),
        }
    }
}

} // verus!
