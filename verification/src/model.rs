//! The ledger as mathematics: what it holds, what must always be true of it,
//! and what each operation makes of it.

use vstd::prelude::*;
use crate::types::{
    AccountId, AuditInfo, Document, Error, ExpenditureData, ExpenditureId, ExpenditureSubType,
    ExpenditureType, Id, ProjectData, ProjectId, ProxyRole, UserData, MAX_EXPENDITURES_PER_PROJECT,
    MAX_PROJECTS_PER_USER, MAX_USERS_PER_PROJECT,
};

verus! {

/// A sequence without one identifier. Where the identifier is not in it, the
/// sequence itself.
pub open spec fn remove_id(items: Seq<Id>, id: Id) -> Seq<Id> {
    if items.contains(id) {
        items.remove(items.index_of(id))
    } else {
        items
    }
}

/// A registered account: its profile and the projects it belongs to.
pub struct UserView {
    pub data: UserData,
    pub projects: Seq<ProjectId>,
}

/// A project: its record, all its accounts, the accounts of each role, and
/// its expenditures.
pub struct ProjectView {
    pub data: ProjectData,
    pub users: Seq<AccountId>,
    pub developers: Seq<AccountId>,
    pub investors: Seq<AccountId>,
    pub issuers: Seq<AccountId>,
    pub regional_centers: Seq<AccountId>,
    pub expenditures: Seq<ExpenditureId>,
}

/// All that the ledger holds.
#[verifier::ext_equal]
pub struct LedgerView {
    pub global_scope: Option<Id>,
    pub administrators: Seq<AccountId>,
    pub users: Map<AccountId, UserView>,
    pub projects: Map<ProjectId, ProjectView>,
    pub expenditures: Map<ExpenditureId, ExpenditureData>,
}

impl ProjectView {
    /// The accounts that hold a role in the project. Nobody holds the
    /// administrator role in a project.
    pub open spec fn role_set(self, role: ProxyRole) -> Seq<AccountId> {
        match role {
            ProxyRole::Administrator => Seq::empty(),
            ProxyRole::Developer => self.developers,
            ProxyRole::Investor => self.investors,
            ProxyRole::Issuer => self.issuers,
            ProxyRole::RegionalCenter => self.regional_centers,
        }
    }

    /// The project with other accounts in one role.
    pub open spec fn with_role_set(self, role: ProxyRole, accounts: Seq<AccountId>) -> ProjectView {
        match role {
            ProxyRole::Administrator => self,
            ProxyRole::Developer => ProjectView { developers: accounts, ..self },
            ProxyRole::Investor => ProjectView { investors: accounts, ..self },
            ProxyRole::Issuer => ProjectView { issuers: accounts, ..self },
            ProxyRole::RegionalCenter => ProjectView { regional_centers: accounts, ..self },
        }
    }

    /// Whether the account holds some role in the project.
    pub open spec fn has_role(self, account: AccountId) -> bool {
        ||| self.developers.contains(account)
        ||| self.investors.contains(account)
        ||| self.issuers.contains(account)
        ||| self.regional_centers.contains(account)
    }

    /// No account holds two roles in the project.
    pub open spec fn roles_exclusive(self) -> bool {
        forall|account: AccountId|
            #![trigger self.developers.contains(account)]
            #![trigger self.investors.contains(account)]
            #![trigger self.issuers.contains(account)]
            #![trigger self.regional_centers.contains(account)]
            {
                &&& !(self.developers.contains(account) && self.investors.contains(account))
                &&& !(self.developers.contains(account) && self.issuers.contains(account))
                &&& !(self.developers.contains(account) && self.regional_centers.contains(account))
                &&& !(self.investors.contains(account) && self.issuers.contains(account))
                &&& !(self.investors.contains(account) && self.regional_centers.contains(account))
                &&& !(self.issuers.contains(account) && self.regional_centers.contains(account))
            }
    }

    /// The accounts of the project are those that hold a role in it.
    pub open spec fn roles_cover(self) -> bool {
        forall|account: AccountId| #[trigger]
            self.users.contains(account) <==> self.has_role(account)
    }

    /// What holds of a project by itself: no list holds an item twice, no
    /// list is longer than its capacity, every account holds exactly one
    /// role, and the completion date is later than the creation date.
    pub open spec fn inv(self) -> bool {
        &&& self.users.no_duplicates()
        &&& self.developers.no_duplicates()
        &&& self.investors.no_duplicates()
        &&& self.issuers.no_duplicates()
        &&& self.regional_centers.no_duplicates()
        &&& self.expenditures.no_duplicates()
        &&& self.users.len() <= MAX_USERS_PER_PROJECT
        &&& self.developers.len() <= ProxyRole::Developer.spec_capacity()
        &&& self.investors.len() <= ProxyRole::Investor.spec_capacity()
        &&& self.issuers.len() <= ProxyRole::Issuer.spec_capacity()
        &&& self.regional_centers.len() <= ProxyRole::RegionalCenter.spec_capacity()
        &&& self.expenditures.len() <= MAX_EXPENDITURES_PER_PROJECT
        &&& self.roles_exclusive()
        &&& self.roles_cover()
        &&& self.data.completion_date matches Some(date) ==> self.data.creation_date < date
    }
}

/// The profile that `register_user` stores.
pub open spec fn new_user_data(
    caller: AccountId,
    name: Vec<u8>,
    image: Vec<u8>,
    email: Vec<u8>,
    documents: Option<Vec<Document>>,
    now: u64,
) -> UserData {
    UserData {
        name,
        image,
        email,
        documents,
        audit: AuditInfo {
            created_by: caller,
            created_at: now,
            modified_by: caller,
            modified_at: now,
        },
    }
}

/// The profile that `update_user` stores: each field that is given replaces
/// the stored one.
pub open spec fn updated_user_data(
    stored: UserData,
    caller: AccountId,
    name: Option<Vec<u8>>,
    image: Option<Vec<u8>>,
    email: Option<Vec<u8>>,
    documents: Option<Vec<Document>>,
    now: u64,
) -> UserData {
    UserData {
        name: if let Some(name) = name { name } else { stored.name },
        image: if let Some(image) = image { image } else { stored.image },
        email: if let Some(email) = email { email } else { stored.email },
        documents: if documents is Some { documents } else { stored.documents },
        audit: AuditInfo { modified_by: caller, modified_at: now, ..stored.audit },
    }
}

/// The record that `create_project` stores.
pub open spec fn new_project_data(
    creator: AccountId,
    title: Vec<u8>,
    description: Vec<u8>,
    image: Vec<u8>,
    address: Vec<u8>,
    creation_date: u64,
    completion_date: u64,
    now: u64,
) -> ProjectData {
    ProjectData {
        title,
        description,
        image,
        address,
        creation_date,
        completion_date: Some(completion_date),
        creator,
        audit: AuditInfo {
            created_by: creator,
            created_at: now,
            modified_by: creator,
            modified_at: now,
        },
    }
}

/// The record that `edit_project` stores: each field that is given replaces
/// the stored one.
pub open spec fn edited_project_data(
    stored: ProjectData,
    caller: AccountId,
    title: Option<Vec<u8>>,
    description: Option<Vec<u8>>,
    image: Option<Vec<u8>>,
    address: Option<Vec<u8>>,
    creation_date: Option<u64>,
    completion_date: Option<u64>,
    now: u64,
) -> ProjectData {
    ProjectData {
        title: if let Some(title) = title { title } else { stored.title },
        description: if let Some(description) = description {
            description
        } else {
            stored.description
        },
        image: if let Some(image) = image { image } else { stored.image },
        address: if let Some(address) = address { address } else { stored.address },
        creation_date: if let Some(date) = creation_date { date } else { stored.creation_date },
        completion_date: if completion_date is Some {
            completion_date
        } else {
            stored.completion_date
        },
        creator: stored.creator,
        audit: AuditInfo { modified_by: caller, modified_at: now, ..stored.audit },
    }
}

/// What `edit_project` has against the dates it is given, if anything.
pub open spec fn edited_dates_error(
    stored: ProjectData,
    creation_date: Option<u64>,
    completion_date: Option<u64>,
    now: u64,
) -> Option<Error> {
    let creation = if let Some(date) = creation_date { date } else { stored.creation_date };
    let completion = if completion_date is Some { completion_date } else { stored.completion_date };
    if creation_date is None && completion_date is None {
        None
    } else if completion matches Some(date) && date <= creation {
        Some(Error::CompletitionDateMustBeLater)
    } else if creation_date matches Some(date) && date > now {
        Some(Error::CreationDateMustBeInThePast)
    } else if completion_date matches Some(date) && date < now {
        Some(Error::DateCanNotBeInThePast)
    } else {
        None
    }
}

/// The record that `create_expenditure` stores.
pub open spec fn new_expenditure_data(
    creator: AccountId,
    project: ProjectId,
    name: Vec<u8>,
    expenditure_type: ExpenditureType,
    expenditure_subtype: ExpenditureSubType,
    budget_amount: Option<u64>,
    naics_code: Option<u32>,
    jobs_multiplier: Option<u32>,
    now: u64,
) -> ExpenditureData {
    ExpenditureData {
        project_id: project,
        name,
        expenditure_type,
        expenditure_subtype,
        budget_amount,
        naics_code,
        jobs_multiplier,
        audit: AuditInfo {
            created_by: creator,
            created_at: now,
            modified_by: creator,
            modified_at: now,
        },
    }
}

/// A project without accounts and expenditures.
pub open spec fn empty_project(data: ProjectData) -> ProjectView {
    ProjectView {
        data,
        users: Seq::empty(),
        developers: Seq::empty(),
        investors: Seq::empty(),
        issuers: Seq::empty(),
        regional_centers: Seq::empty(),
        expenditures: Seq::empty(),
    }
}

impl LedgerView {
    /// The ledger before anything happened.
    pub open spec fn empty() -> LedgerView {
        LedgerView {
            global_scope: None,
            administrators: Seq::empty(),
            users: Map::empty(),
            projects: Map::empty(),
            expenditures: Map::empty(),
        }
    }

    /// The projects of an account; none for an account without a profile.
    pub open spec fn projects_by_user(self, account: AccountId) -> Seq<ProjectId> {
        if self.users.contains_key(account) {
            self.users[account].projects
        } else {
            Seq::empty()
        }
    }

    /// The accounts of a project; none for a project that does not exist.
    pub open spec fn users_by_project(self, project: ProjectId) -> Seq<AccountId> {
        if self.projects.contains_key(project) {
            self.projects[project].users
        } else {
            Seq::empty()
        }
    }

    /// The accounts that hold a role in a project; none for a project that
    /// does not exist.
    pub open spec fn role_set(self, project: ProjectId, role: ProxyRole) -> Seq<AccountId> {
        if self.projects.contains_key(project) {
            self.projects[project].role_set(role)
        } else {
            Seq::empty()
        }
    }

    /// The expenditures of a project; none for a project that does not exist.
    pub open spec fn expenditures_by_project(self, project: ProjectId) -> Seq<ExpenditureId> {
        if self.projects.contains_key(project) {
            self.projects[project].expenditures
        } else {
            Seq::empty()
        }
    }

    /// What holds of a registered account: its projects exist and list it,
    /// none stands twice, they are no more than the capacity, and an
    /// administrator has none.
    pub open spec fn user_inv(self, account: AccountId) -> bool {
        let user = self.users[account];
        &&& user.projects.no_duplicates()
        &&& user.projects.len() <= MAX_PROJECTS_PER_USER
        &&& forall|i: int|
            0 <= i < user.projects.len() ==> self.projects.contains_key(#[trigger] user.projects[i])
                && self.projects[user.projects[i]].users.contains(account)
        &&& self.administrators.contains(account) ==> user.projects.len() == 0
    }

    /// What holds of a project among the others: what holds of it by itself,
    /// its accounts are registered and list it, and its expenditures exist
    /// and name it.
    pub open spec fn project_inv(self, project: ProjectId) -> bool {
        let entry = self.projects[project];
        &&& entry.inv()
        &&& forall|i: int|
            0 <= i < entry.users.len() ==> self.users.contains_key(#[trigger] entry.users[i])
                && self.users[entry.users[i]].projects.contains(project)
        &&& forall|i: int|
            0 <= i < entry.expenditures.len() ==> self.expenditures.contains_key(
                #[trigger] entry.expenditures[i],
            ) && self.expenditures[entry.expenditures[i]].project_id == project
    }

    /// What holds of an expenditure: its project exists and lists it.
    pub open spec fn expenditure_inv(self, expenditure: ExpenditureId) -> bool {
        let project = self.expenditures[expenditure].project_id;
        &&& self.projects.contains_key(project)
        &&& self.projects[project].expenditures.contains(expenditure)
    }

    /// What always holds of the ledger.
    pub open spec fn inv(self) -> bool {
        &&& self.administrators.no_duplicates()
        &&& self.global_scope is None ==> self.administrators.len() == 0
        &&& forall|account: AccountId| #[trigger]
            self.users.contains_key(account) ==> self.user_inv(account)
        &&& forall|project: ProjectId| #[trigger]
            self.projects.contains_key(project) ==> self.project_inv(project)
        &&& forall|expenditure: ExpenditureId| #[trigger]
            self.expenditures.contains_key(expenditure) ==> self.expenditure_inv(expenditure)
    }

    /// The ledger records no role that the other ledger does not record, and
    /// the global scope of the other ledger, if it has one, is its own.
    pub open spec fn roles_within(self, other: LedgerView) -> bool {
        &&& other.global_scope is Some ==> self.global_scope == other.global_scope
        &&& forall|account: AccountId| #[trigger]
            self.administrators.contains(account) ==> other.administrators.contains(account)
        &&& forall|project: ProjectId, role: ProxyRole, account: AccountId| #[trigger]
            self.role_set(project, role).contains(account) ==> other.role_set(
                project,
                role,
            ).contains(account)
    }

    /// The first setup names the global scope; a later one changes nothing.
    pub open spec fn initial_setup(self, scope: Id) -> LedgerView {
        if self.global_scope is None {
            LedgerView { global_scope: Some(scope), ..self }
        } else {
            self
        }
    }

    /// Making an account an administrator: it joins the administrators.
    /// Refused where the global scope is not set, where the account is an
    /// administrator already, and where it belongs to a project.
    pub open spec fn add_administrator(self, account: AccountId) -> Result<LedgerView, Error> {
        if self.global_scope is None {
            Err(Error::GlobalScopeNotSet)
        } else if self.administrators.contains(account) {
            Err(Error::UserAlreadyHasRole)
        } else if self.projects_by_user(account).len() > 0 {
            Err(Error::CannotRegisterAdminRole)
        } else {
            Ok(LedgerView { administrators: self.administrators.push(account), ..self })
        }
    }

    /// Taking the administrator role from an account: it leaves the
    /// administrators. Refused where it is none of them.
    pub open spec fn remove_administrator(self, account: AccountId) -> Result<LedgerView, Error> {
        if !self.administrators.contains(account) {
            Err(Error::CannotRemoveAdminRole)
        } else {
            Ok(LedgerView { administrators: remove_id(self.administrators, account), ..self })
        }
    }

    /// Giving an account a profile: the profile is stored, and the account
    /// belongs to no project yet. Refused where the account has a profile.
    pub open spec fn register_user(self, target: AccountId, data: UserData) -> Result<
        LedgerView,
        Error,
    > {
        if self.users.contains_key(target) {
            Err(Error::UserAlreadyRegistered)
        } else {
            Ok(
                LedgerView {
                    users: self.users.insert(target, UserView { data, projects: Seq::empty() }),
                    ..self
                },
            )
        }
    }

    /// Changing the profile of an account: what is given replaces what was
    /// stored, the projects of the account stay. Refused where the account has
    /// no profile.
    pub open spec fn update_user(
        self,
        caller: AccountId,
        target: AccountId,
        name: Option<Vec<u8>>,
        image: Option<Vec<u8>>,
        email: Option<Vec<u8>>,
        documents: Option<Vec<Document>>,
        now: u64,
    ) -> Result<LedgerView, Error> {
        if !self.users.contains_key(target) {
            Err(Error::UserNotRegistered)
        } else {
            let stored = self.users[target];
            let data = updated_user_data(stored.data, caller, name, image, email, documents, now);
            Ok(LedgerView { users: self.users.insert(target, UserView { data, ..stored }), ..self })
        }
    }

    /// Taking the profile of an account away. Refused where the account has
    /// none, and where it still belongs to a project.
    pub open spec fn delete_user(self, target: AccountId) -> Result<LedgerView, Error> {
        if !self.users.contains_key(target) {
            Err(Error::UserNotRegistered)
        } else if self.users[target].projects.len() > 0 {
            Err(Error::CannotDeleteUserWithAssignedProjects)
        } else {
            Ok(LedgerView { users: self.users.remove(target), ..self })
        }
    }

    /// Opening a project: it is stored without accounts and expenditures.
    /// Refused, in this order, where the completion date is not later than
    /// the creation date, where the creation date lies in the past, where it
    /// lies in the future, and where the identifier is in use.
    pub open spec fn create_project(
        self,
        project: ProjectId,
        data: ProjectData,
        now: u64,
    ) -> Result<LedgerView, Error> {
        if data.completion_date matches Some(date) && date <= data.creation_date {
            Err(Error::CompletitionDateMustBeLater)
        } else if data.creation_date < now {
            Err(Error::DateCanNotBeInThePast)
        } else if data.creation_date > now {
            Err(Error::CreationDateMustBeInThePast)
        } else if self.projects.contains_key(project) {
            Err(Error::ProjectIdAlreadyInUse)
        } else {
            Ok(LedgerView { projects: self.projects.insert(project, empty_project(data)), ..self })
        }
    }

    /// Changing the record of a project: what is given replaces what was
    /// stored, the accounts and expenditures of the project stay. Refused, in
    /// this order, where the project does not exist, where it is completed,
    /// and where the dates that would be left are wrong.
    pub open spec fn edit_project(
        self,
        caller: AccountId,
        project: ProjectId,
        title: Option<Vec<u8>>,
        description: Option<Vec<u8>>,
        image: Option<Vec<u8>>,
        address: Option<Vec<u8>>,
        creation_date: Option<u64>,
        completion_date: Option<u64>,
        now: u64,
    ) -> Result<LedgerView, Error> {
        if !self.projects.contains_key(project) {
            Err(Error::ProjectNotFound)
        } else {
            let stored = self.projects[project];
            if stored.data.spec_is_completed(now) {
                Err(Error::CannotEditCompletedProject)
            } else if let Some(error) = edited_dates_error(
                stored.data,
                creation_date,
                completion_date,
                now,
            ) {
                Err(error)
            } else {
                let data = edited_project_data(
                    stored.data,
                    caller,
                    title,
                    description,
                    image,
                    address,
                    creation_date,
                    completion_date,
                    now,
                );
                Ok(
                    LedgerView {
                        projects: self.projects.insert(project, ProjectView { data, ..stored }),
                        ..self
                    },
                )
            }
        }
    }

    /// The ledger without a project: the project is gone from the projects of
    /// every account, and its expenditures are gone with it.
    pub open spec fn without_project(self, project: ProjectId) -> LedgerView {
        LedgerView {
            users: Map::new(
                |account: AccountId| self.users.contains_key(account),
                |account: AccountId|
                    UserView {
                        data: self.users[account].data,
                        projects: remove_id(self.users[account].projects, project),
                    },
            ),
            projects: self.projects.remove(project),
            expenditures: self.expenditures.remove_keys(
                self.projects[project].expenditures.to_set(),
            ),
            ..self
        }
    }

    /// Deleting a project. Refused where it does not exist, and where it is
    /// completed.
    pub open spec fn delete_project(self, project: ProjectId, now: u64) -> Result<
        LedgerView,
        Error,
    > {
        if !self.projects.contains_key(project) {
            Err(Error::ProjectNotFound)
        } else if self.projects[project].data.spec_is_completed(now) {
            Err(Error::CannotDeleteCompletedProject)
        } else {
            Ok(self.without_project(project))
        }
    }

    /// The ledger with one more account in a role of a project.
    pub open spec fn with_assignment(
        self,
        user: AccountId,
        project: ProjectId,
        role: ProxyRole,
    ) -> LedgerView {
        let account = self.users[user];
        let entry = self.projects[project];
        LedgerView {
            users: self.users.insert(
                user,
                UserView { projects: account.projects.push(project), ..account },
            ),
            projects: self.projects.insert(
                project,
                ProjectView { users: entry.users.push(user), ..entry }.with_role_set(
                    role,
                    entry.role_set(role).push(user),
                ),
            ),
            ..self
        }
    }

    /// Giving an account a role in a project. Refused, in this order, where
    /// the account has no profile, where the project does not exist, where
    /// the role is that of an administrator, where the account is an
    /// administrator, where it holds a role in the project already, where the
    /// role is full, where the project is full, and where the account belongs
    /// to as many projects as it may.
    pub open spec fn assign_user(
        self,
        user: AccountId,
        project: ProjectId,
        role: ProxyRole,
    ) -> Result<LedgerView, Error> {
        if !self.users.contains_key(user) {
            Err(Error::UserNotRegistered)
        } else if !self.projects.contains_key(project) {
            Err(Error::ProjectNotFound)
        } else if role == ProxyRole::Administrator {
            Err(Error::CannotAddAdminRole)
        } else if self.administrators.contains(user) {
            Err(Error::UserCannotHaveMoreThanOneRole)
        } else if self.projects[project].users.contains(user) {
            Err(Error::UserAlreadyAssignedToProject)
        } else if self.projects[project].role_set(role).len() >= role.spec_capacity() {
            Err(role.spec_capacity_error())
        } else if self.projects[project].users.len() >= MAX_USERS_PER_PROJECT {
            Err(Error::MaxUsersPerProjectReached)
        } else if self.users[user].projects.len() >= MAX_PROJECTS_PER_USER {
            Err(Error::MaxProjectsPerUserReached)
        } else {
            Ok(self.with_assignment(user, project, role))
        }
    }

    /// The ledger with one account less in a role of a project.
    pub open spec fn without_assignment(
        self,
        user: AccountId,
        project: ProjectId,
        role: ProxyRole,
    ) -> LedgerView {
        let account = self.users[user];
        let entry = self.projects[project];
        LedgerView {
            users: self.users.insert(
                user,
                UserView { projects: remove_id(account.projects, project), ..account },
            ),
            projects: self.projects.insert(
                project,
                ProjectView { users: remove_id(entry.users, user), ..entry }.with_role_set(
                    role,
                    remove_id(entry.role_set(role), user),
                ),
            ),
            ..self
        }
    }

    /// Taking from an account the role it holds in a project. Refused where
    /// the account does not hold that role in that project.
    pub open spec fn unassign_user(
        self,
        user: AccountId,
        project: ProjectId,
        role: ProxyRole,
    ) -> Result<LedgerView, Error> {
        if !self.role_set(project, role).contains(user) {
            Err(Error::UserNotAssignedToProject)
        } else {
            Ok(self.without_assignment(user, project, role))
        }
    }

    /// Adding an expenditure to the budget of its project. Refused, in this
    /// order, where the project does not exist, where the expenditure is a
    /// structural category, where the identifier is in use, and where the
    /// project owns as many expenditures as it may.
    pub open spec fn create_expenditure(
        self,
        expenditure: ExpenditureId,
        data: ExpenditureData,
    ) -> Result<LedgerView, Error> {
        let project = data.project_id;
        if !self.projects.contains_key(project) {
            Err(Error::ProjectNotFound)
        } else if data.expenditure_subtype is Parent {
            Err(Error::CannotCreateParentExpenditure)
        } else if self.expenditures.contains_key(expenditure) {
            Err(Error::ExpenditureIdAlreadyInUse)
        } else if self.projects[project].expenditures.len() >= MAX_EXPENDITURES_PER_PROJECT {
            Err(Error::MaxExpendituresPerProjectReached)
        } else {
            let entry = self.projects[project];
            Ok(
                LedgerView {
                    projects: self.projects.insert(
                        project,
                        ProjectView { expenditures: entry.expenditures.push(expenditure), ..entry },
                    ),
                    expenditures: self.expenditures.insert(expenditure, data),
                    ..self
                },
            )
        }
    }
}

} // verus!
