use pallet_proxy::types::{
    AccountId, ProjectId, MAX_DEVELOPERS_PER_PROJECT, MAX_INVESTORS_PER_PROJECT,
    MAX_ISSUERS_PER_PROJECT, MAX_PROJECTS_PER_USER, MAX_REGIONAL_CENTER_PER_PROJECT,
    MAX_USERS_PER_PROJECT,
};
use pallet_proxy::{Error, Ledger, ProxyRole};

const NOW: u64 = 10;

fn account(n: u8) -> AccountId {
    [n; 32]
}

fn project(n: u8) -> ProjectId {
    [n; 32]
}

fn with_user(ledger: &mut Ledger, user: AccountId) {
    assert_eq!(
        ledger.register_user(account(250), user, Vec::new(), Vec::new(), Vec::new(), None, NOW),
        Ok(())
    );
}

fn with_project(ledger: &mut Ledger, id: ProjectId) {
    assert_eq!(
        ledger.create_project(
            account(250),
            id,
            Vec::new(),
            Vec::new(),
            Vec::new(),
            Vec::new(),
            NOW,
            NOW + 1,
            NOW,
        ),
        Ok(())
    );
}

fn role_capacity_is_enforced(role: ProxyRole, capacity: u32, error: Error) {
    assert_eq!(role.capacity(), capacity as usize);
    assert_eq!(role.capacity_error(), error);
    let mut ledger = Ledger::new();
    with_project(&mut ledger, project(1));
    let mut members = Vec::new();
    for n in 0..capacity as u8 {
        with_user(&mut ledger, account(n));
        assert_eq!(ledger.assign_user(account(n), project(1), role), Ok(()));
        members.push(account(n));
        assert_eq!(ledger.role_members(&project(1), role), members);
    }
    with_user(&mut ledger, account(99));
    assert_eq!(ledger.assign_user(account(99), project(1), role), Err(error));
    assert_eq!(ledger.role_members(&project(1), role), members);
    assert_eq!(ledger.users_by_project(&project(1)), members);
    assert!(ledger.projects_by_user(&account(99)).is_empty());
    assert_eq!(ledger.unassign_user(account(0), project(1), role), Ok(()));
    assert_eq!(ledger.assign_user(account(99), project(1), role), Ok(()));
    members.remove(0);
    members.push(account(99));
    assert_eq!(ledger.role_members(&project(1), role), members);
}

#[test]
fn developers_are_capped() {
    role_capacity_is_enforced(
        ProxyRole::Developer,
        MAX_DEVELOPERS_PER_PROJECT,
        Error::MaxDevelopersPerProjectReached,
    );
}

#[test]
fn investors_are_capped() {
    role_capacity_is_enforced(
        ProxyRole::Investor,
        MAX_INVESTORS_PER_PROJECT,
        Error::MaxInvestorsPerProjectReached,
    );
}

#[test]
fn issuers_are_capped() {
    role_capacity_is_enforced(
        ProxyRole::Issuer,
        MAX_ISSUERS_PER_PROJECT,
        Error::MaxIssuersPerProjectReached,
    );
}

#[test]
fn regional_centers_are_capped() {
    role_capacity_is_enforced(
        ProxyRole::RegionalCenter,
        MAX_REGIONAL_CENTER_PER_PROJECT,
        Error::MaxRegionalCenterPerProjectReached,
    );
}

#[test]
fn capacities_are_those_of_the_deployment() {
    assert_eq!(MAX_PROJECTS_PER_USER, 10);
    assert_eq!(MAX_USERS_PER_PROJECT, 8);
    assert_eq!(ProxyRole::Developer.capacity(), 4);
    assert_eq!(ProxyRole::Investor.capacity(), 4);
    assert_eq!(ProxyRole::Issuer.capacity(), 2);
    assert_eq!(ProxyRole::RegionalCenter.capacity(), 2);
    assert_eq!(ProxyRole::Administrator.capacity(), 0);
    assert_eq!(ProxyRole::Administrator.capacity_error(), Error::CannotAddAdminRole);
}

#[test]
fn assignment_checks_come_in_order() {
    let mut ledger = Ledger::new();
    ledger.initial_setup([5u8; 32]);
    assert_eq!(
        ledger.assign_user(account(1), project(1), ProxyRole::Administrator),
        Err(Error::UserNotRegistered)
    );
    with_user(&mut ledger, account(1));
    assert_eq!(
        ledger.assign_user(account(1), project(1), ProxyRole::Administrator),
        Err(Error::ProjectNotFound)
    );
    with_project(&mut ledger, project(1));
    assert_eq!(ledger.add_administrator(account(1)), Ok(()));
    assert_eq!(
        ledger.assign_user(account(1), project(1), ProxyRole::Administrator),
        Err(Error::CannotAddAdminRole)
    );
    assert_eq!(
        ledger.assign_user(account(1), project(1), ProxyRole::Developer),
        Err(Error::UserCannotHaveMoreThanOneRole)
    );
    assert_eq!(ledger.remove_administrator(account(1)), Ok(()));
    assert_eq!(ledger.assign_user(account(1), project(1), ProxyRole::Developer), Ok(()));
    assert_eq!(
        ledger.assign_user(account(1), project(1), ProxyRole::Administrator),
        Err(Error::CannotAddAdminRole)
    );
    assert_eq!(
        ledger.assign_user(account(1), project(1), ProxyRole::Developer),
        Err(Error::UserAlreadyAssignedToProject)
    );
    assert_eq!(
        ledger.assign_user(account(1), project(1), ProxyRole::RegionalCenter),
        Err(Error::UserAlreadyAssignedToProject)
    );
    assert_eq!(ledger.role_members(&project(1), ProxyRole::Developer), vec![account(1)]);
    assert!(ledger.role_members(&project(1), ProxyRole::RegionalCenter).is_empty());
    assert!(ledger.role_members(&project(1), ProxyRole::Administrator).is_empty());
}

#[test]
fn a_project_holds_no_more_users_than_its_capacity() {
    let mut ledger = Ledger::new();
    with_project(&mut ledger, project(1));
    let mut n = 0u8;
    for role in [ProxyRole::Developer, ProxyRole::Investor] {
        for _ in 0..role.capacity() {
            with_user(&mut ledger, account(n));
            assert_eq!(ledger.assign_user(account(n), project(1), role), Ok(()));
            n += 1;
        }
    }
    assert_eq!(n as u32, MAX_USERS_PER_PROJECT);
    with_user(&mut ledger, account(n));
    assert_eq!(
        ledger.assign_user(account(n), project(1), ProxyRole::Issuer),
        Err(Error::MaxUsersPerProjectReached)
    );
    assert_eq!(ledger.users_by_project(&project(1)).len(), MAX_USERS_PER_PROJECT as usize);
    assert!(ledger.role_members(&project(1), ProxyRole::Issuer).is_empty());
    assert!(ledger.projects_by_user(&account(n)).is_empty());
}

#[test]
fn a_user_belongs_to_no_more_projects_than_the_capacity() {
    let mut ledger = Ledger::new();
    with_user(&mut ledger, account(1));
    let mut projects = Vec::new();
    for n in 0..MAX_PROJECTS_PER_USER as u8 {
        with_project(&mut ledger, project(n));
        assert_eq!(ledger.assign_user(account(1), project(n), ProxyRole::Investor), Ok(()));
        projects.push(project(n));
    }
    assert_eq!(ledger.projects_by_user(&account(1)), projects);
    with_project(&mut ledger, project(100));
    assert_eq!(
        ledger.assign_user(account(1), project(100), ProxyRole::Investor),
        Err(Error::MaxProjectsPerUserReached)
    );
    assert_eq!(ledger.projects_by_user(&account(1)), projects);
    assert!(ledger.users_by_project(&project(100)).is_empty());
    assert!(ledger.role_members(&project(100), ProxyRole::Investor).is_empty());
}

#[test]
fn unassignment_needs_the_stated_role() {
    let mut ledger = Ledger::new();
    with_user(&mut ledger, account(1));
    with_user(&mut ledger, account(2));
    with_user(&mut ledger, account(3));
    with_project(&mut ledger, project(1));
    assert_eq!(
        ledger.unassign_user(account(1), project(9), ProxyRole::Developer),
        Err(Error::UserNotAssignedToProject)
    );
    assert_eq!(
        ledger.unassign_user(account(1), project(1), ProxyRole::Developer),
        Err(Error::UserNotAssignedToProject)
    );
    for n in 1..=3 {
        assert_eq!(ledger.assign_user(account(n), project(1), ProxyRole::Developer), Ok(()));
    }
    assert_eq!(
        ledger.unassign_user(account(2), project(1), ProxyRole::Investor),
        Err(Error::UserNotAssignedToProject)
    );
    assert_eq!(
        ledger.unassign_user(account(2), project(1), ProxyRole::Administrator),
        Err(Error::UserNotAssignedToProject)
    );
    assert_eq!(
        ledger.users_by_project(&project(1)),
        vec![account(1), account(2), account(3)]
    );
    assert_eq!(ledger.unassign_user(account(2), project(1), ProxyRole::Developer), Ok(()));
    assert_eq!(ledger.users_by_project(&project(1)), vec![account(1), account(3)]);
    assert_eq!(
        ledger.role_members(&project(1), ProxyRole::Developer),
        vec![account(1), account(3)]
    );
    assert!(ledger.projects_by_user(&account(2)).is_empty());
    assert_eq!(ledger.projects_by_user(&account(1)), vec![project(1)]);
    assert_eq!(
        ledger.unassign_user(account(2), project(1), ProxyRole::Developer),
        Err(Error::UserNotAssignedToProject)
    );
}

#[test]
fn unassigning_undoes_assigning() {
    let mut ledger = Ledger::new();
    with_user(&mut ledger, account(1));
    with_user(&mut ledger, account(2));
    with_project(&mut ledger, project(1));
    with_project(&mut ledger, project(2));
    assert_eq!(ledger.assign_user(account(1), project(1), ProxyRole::Issuer), Ok(()));
    assert_eq!(ledger.assign_user(account(2), project(2), ProxyRole::Issuer), Ok(()));
    assert_eq!(ledger.assign_user(account(2), project(1), ProxyRole::Issuer), Ok(()));
    assert_eq!(ledger.unassign_user(account(2), project(1), ProxyRole::Issuer), Ok(()));
    assert_eq!(ledger.users_by_project(&project(1)), vec![account(1)]);
    assert_eq!(ledger.role_members(&project(1), ProxyRole::Issuer), vec![account(1)]);
    assert_eq!(ledger.projects_by_user(&account(2)), vec![project(2)]);
    assert_eq!(ledger.role_members(&project(2), ProxyRole::Issuer), vec![account(2)]);
}

#[test]
fn administrators_hold_no_project_role() {
    let mut ledger = Ledger::new();
    assert_eq!(ledger.add_administrator(account(1)), Err(Error::GlobalScopeNotSet));
    assert_eq!(ledger.remove_administrator(account(1)), Err(Error::CannotRemoveAdminRole));
    ledger.initial_setup([5u8; 32]);
    assert_eq!(ledger.global_scope(), Some([5u8; 32]));
    ledger.initial_setup([6u8; 32]);
    assert_eq!(ledger.global_scope(), Some([5u8; 32]));
    with_user(&mut ledger, account(1));
    with_project(&mut ledger, project(1));
    assert_eq!(ledger.assign_user(account(1), project(1), ProxyRole::Developer), Ok(()));
    assert_eq!(ledger.add_administrator(account(1)), Err(Error::CannotRegisterAdminRole));
    assert!(!ledger.is_administrator(&account(1)));
    assert_eq!(ledger.unassign_user(account(1), project(1), ProxyRole::Developer), Ok(()));
    assert_eq!(ledger.add_administrator(account(1)), Ok(()));
    assert_eq!(ledger.add_administrator(account(1)), Err(Error::UserAlreadyHasRole));
    assert_eq!(ledger.add_administrator(account(7)), Ok(()));
    assert_eq!(ledger.administrators(), vec![account(1), account(7)]);
    assert_eq!(ledger.remove_administrator(account(8)), Err(Error::CannotRemoveAdminRole));
    assert_eq!(ledger.remove_administrator(account(1)), Ok(()));
    assert_eq!(ledger.administrators(), vec![account(7)]);
}
