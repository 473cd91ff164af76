//! Identifiers, capacities, records, signals and errors of the ledger.

use vstd::prelude::*;

verus! {

/// A 32-byte identifier.
pub type Id = [u8; 32];

/// Handle of an account.
pub type AccountId = Id;

/// Identifier of a project.
pub type ProjectId = Id;

/// Identifier of an expenditure.
pub type ExpenditureId = Id;

/// How many items any list of the ledger can hold. Each kind of list has a
/// capacity of its own, which is not above this.
pub const MAX_LIST_LEN: u32 = 16;

/// How many projects one account may belong to.
pub const MAX_PROJECTS_PER_USER: u32 = 10;

/// How many accounts one project may hold, all roles together.
pub const MAX_USERS_PER_PROJECT: u32 = 8;

/// How many developers one project may hold.
pub const MAX_DEVELOPERS_PER_PROJECT: u32 = 4;

/// How many investors one project may hold.
pub const MAX_INVESTORS_PER_PROJECT: u32 = 4;

/// How many issuers one project may hold.
pub const MAX_ISSUERS_PER_PROJECT: u32 = 2;

/// How many regional centers one project may hold.
pub const MAX_REGIONAL_CENTER_PER_PROJECT: u32 = 2;

/// How many expenditures one project may own.
pub const MAX_EXPENDITURES_PER_PROJECT: u32 = 16;

/// The roles an account can hold.
#[derive(Clone, Copy, Debug, PartialEq, Eq, Structural)]
pub enum ProxyRole {
    Administrator,
    Developer,
    Investor,
    Issuer,
    RegionalCenter,
}

/// What went wrong inside the ledger.
#[derive(Clone, Copy, Debug, PartialEq, Eq)]
pub enum Error {
    /// Project ID is already in use
    ProjectIdAlreadyInUse,
    /// The ledger clock has not been set
    TimestampError,
    /// Completion date must be later than creation date
    CompletitionDateMustBeLater,
    /// User is already registered
    UserAlreadyRegistered,
    /// Project is not found
    ProjectNotFound,
    /// Date can not be in the past
    DateCanNotBeInThePast,
    /// Can not modify a completed project
    CannotEditCompletedProject,
    /// Creation date must be in the past
    CreationDateMustBeInThePast,
    /// Can not delete a completed project
    CannotDeleteCompletedProject,
    /// Global scope is not set
    GlobalScopeNotSet,
    /// User is not registered
    UserNotRegistered,
    /// User has been already added to the project
    UserAlreadyAssignedToProject,
    /// Max number of users per project reached
    MaxUsersPerProjectReached,
    /// Max number of projects per user reached
    MaxProjectsPerUserReached,
    /// User already has the role
    UserAlreadyHasRole,
    /// User is not assigned to the project
    UserNotAssignedToProject,
    /// Can not register administrator role
    CannotRegisterAdminRole,
    /// Max number of developers per project reached
    MaxDevelopersPerProjectReached,
    /// Max number of investors per project reached
    MaxInvestorsPerProjectReached,
    /// Max number of issuers per project reached
    MaxIssuersPerProjectReached,
    /// Max number of regional centers per project reached
    MaxRegionalCenterPerProjectReached,
    /// Can not remove administrator role
    CannotRemoveAdminRole,
    /// Can not delete an user with active projects
    CannotDeleteUserWithAssignedProjects,
    /// Can not add admin role at user project assignment
    CannotAddAdminRole,
    /// User can not have more than one role at the same time
    UserCannotHaveMoreThanOneRole,
    /// Cannot create parent expenditure
    CannotCreateParentExpenditure,
    /// Expenditure ID is already in use
    ExpenditureIdAlreadyInUse,
    /// Max number of expenditures per project reached
    MaxExpendituresPerProjectReached,
}

/// Why an operation was turned down.
#[derive(Clone, Copy, Debug, PartialEq, Eq)]
pub enum DispatchError {
    /// The origin is not of the kind the operation asks for.
    BadOrigin,
    /// The signer does not hold the administrative role.
    NotAuthorized,
    /// The ledger itself refused.
    Module(Error),
}

/// Where a call comes from.
#[derive(Clone, Copy, Debug, PartialEq, Eq)]
pub enum Origin {
    /// The privileged authority.
    Root,
    /// A transaction signed by the account.
    Signed(AccountId),
    /// Nobody.
    Unsigned,
}

/// The signal of a successful state transition.
#[derive(Clone, Copy, Debug, PartialEq, Eq)]
pub enum Event {
    /// Project was created
    ProjectCreated(AccountId, ProjectId),
    /// Proxy setup completed
    ProxySetupCompleted,
    /// User registered successfully
    UserAdded(AccountId),
    /// Project was edited
    ProjectEdited(ProjectId),
    /// Project was deleted
    ProjectDeleted(ProjectId),
    /// Administrator added
    AdministratorAssigned(AccountId),
    /// Administrator removed
    AdministratorRemoved(AccountId),
    /// User assigned to project
    UserAssignedToProject(AccountId, ProjectId),
    /// User removed from project
    UserUnassignedFromProject(AccountId, ProjectId),
    /// User info updated
    UserUpdated(AccountId),
    /// User removed
    UserDeleted(AccountId),
    /// Expenditure was created successfully
    ExpenditureCreated(ExpenditureId),
}

/// Who made a record and who changed it last, with the ledger time of each.
#[derive(Clone, Copy, Debug, PartialEq, Eq)]
pub struct AuditInfo {
    pub created_by: AccountId,
    pub created_at: u64,
    pub modified_by: AccountId,
    pub modified_at: u64,
}

/// A named document of a user, by content identifier.
#[derive(Clone, Debug, PartialEq, Eq)]
pub struct Document {
    pub name: Vec<u8>,
    pub cid: Vec<u8>,
}

/// Profile of a registered account.
#[derive(Clone, Debug, PartialEq, Eq)]
pub struct UserData {
    pub name: Vec<u8>,
    pub image: Vec<u8>,
    pub email: Vec<u8>,
    pub documents: Option<Vec<Document>>,
    pub audit: AuditInfo,
}

/// Record of a project.
#[derive(Clone, Debug, PartialEq, Eq)]
pub struct ProjectData {
    pub title: Vec<u8>,
    pub description: Vec<u8>,
    pub image: Vec<u8>,
    pub address: Vec<u8>,
    pub creation_date: u64,
    pub completion_date: Option<u64>,
    pub creator: AccountId,
    pub audit: AuditInfo,
}

/// Budget class of an expenditure.
#[derive(Clone, Copy, Debug, PartialEq, Eq)]
pub enum ExpenditureType {
    HardCost,
    SoftCost,
    Operational,
    Others,
}

/// Place of an expenditure in the budget structure.
#[derive(Clone, Copy, Debug, PartialEq, Eq)]
pub enum ExpenditureSubType {
    /// A structural category, which holds line items.
    Parent,
    /// A line item.
    Child,
}

/// Record of a budget line item.
#[derive(Clone, Debug, PartialEq, Eq)]
pub struct ExpenditureData {
    pub project_id: ProjectId,
    pub name: Vec<u8>,
    pub expenditure_type: ExpenditureType,
    pub expenditure_subtype: ExpenditureSubType,
    pub budget_amount: Option<u64>,
    pub naics_code: Option<u32>,
    pub jobs_multiplier: Option<u32>,
    pub audit: AuditInfo,
}

impl ProxyRole {
    /// How many accounts may hold the role in one project. The administrator
    /// role is not held per project.
    pub open spec fn spec_capacity(self) -> usize {
        match self {
            ProxyRole::Administrator => 0,
            ProxyRole::Developer => MAX_DEVELOPERS_PER_PROJECT as usize,
            ProxyRole::Investor => MAX_INVESTORS_PER_PROJECT as usize,
            ProxyRole::Issuer => MAX_ISSUERS_PER_PROJECT as usize,
            ProxyRole::RegionalCenter => MAX_REGIONAL_CENTER_PER_PROJECT as usize,
        }
    }

    /// The error that says the role is full.
    pub open spec fn spec_capacity_error(self) -> Error {
        match self {
            ProxyRole::Administrator => Error::CannotAddAdminRole,
            ProxyRole::Developer => Error::MaxDevelopersPerProjectReached,
            ProxyRole::Investor => Error::MaxInvestorsPerProjectReached,
            ProxyRole::Issuer => Error::MaxIssuersPerProjectReached,
            ProxyRole::RegionalCenter => Error::MaxRegionalCenterPerProjectReached,
        }
    }

    #[verifier::when_used_as_spec(spec_capacity)]
    pub fn capacity(self) -> (limit: usize)
        ensures
            limit == self.spec_capacity(),
    {
        match self {
            ProxyRole::Administrator => 0,
            ProxyRole::Developer => MAX_DEVELOPERS_PER_PROJECT as usize,
            ProxyRole::Investor => MAX_INVESTORS_PER_PROJECT as usize,
            ProxyRole::Issuer => MAX_ISSUERS_PER_PROJECT as usize,
            ProxyRole::RegionalCenter => MAX_REGIONAL_CENTER_PER_PROJECT as usize,
        }
    }

    #[verifier::when_used_as_spec(spec_capacity_error)]
    pub fn capacity_error(self) -> (error: Error)
        ensures
            error == self.spec_capacity_error(),
    {
        match self {
            ProxyRole::Administrator => Error::CannotAddAdminRole,
            ProxyRole::Developer => Error::MaxDevelopersPerProjectReached,
            ProxyRole::Investor => Error::MaxInvestorsPerProjectReached,
            ProxyRole::Issuer => Error::MaxIssuersPerProjectReached,
            ProxyRole::RegionalCenter => Error::MaxRegionalCenterPerProjectReached,
        }
    }
}

impl ProjectData {
    /// A project is completed once its completion date lies in the past.
    pub open spec fn spec_is_completed(&self, now: u64) -> bool {
        match self.completion_date {
            Some(date) => date < now,
            None => false,
        }
    }

    #[verifier::when_used_as_spec(spec_is_completed)]
    pub fn is_completed(&self, now: u64) -> (completed: bool)
        ensures
            completed == self.spec_is_completed(now),
    {
        match self.completion_date {
            Some(date) => date < now,
            None => false,
        }
    }
}

} // verus!
