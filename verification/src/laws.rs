//! What the operations of the ledger promise together.

use vstd::prelude::*;
use crate::authority::RoleAuthority;
use crate::lemmas::{lemma_index_of, lemma_push, lemma_remove_id};
use crate::model::{remove_id, LedgerView};
use crate::pallet::PalletView;
use crate::types::{
    AccountId, DispatchError, Error, ExpenditureId, Origin, ProjectData, ProjectId, ProxyRole,
    MAX_EXPENDITURES_PER_PROJECT, MAX_PROJECTS_PER_USER, MAX_USERS_PER_PROJECT,
};

verus! {

/// After an assignment went through, the project is among the projects of
/// the account, the account is among the accounts of the project and among
/// those of the role, and it is among those of no other role of the project.
pub proof fn law_assignment_is_recorded(
    before: LedgerView,
    user: AccountId,
    project: ProjectId,
    role: ProxyRole,
)
    requires
        before.inv(),
        before.assign_user(user, project, role) is Ok,
    ensures
        ({
            let after = before.assign_user(user, project, role)->Ok_0;
            &&& after.projects_by_user(user).contains(project)
            &&& after.users_by_project(project).contains(user)
            &&& after.role_set(project, role).contains(user)
            &&& forall|other: ProxyRole|
                other != role ==> !(#[trigger] after.role_set(project, other)).contains(user)
        }),
{
    let after = before.assign_user(user, project, role)->Ok_0;
    let entry = before.projects[project];
    assert(before.project_inv(project));
    assert(entry.users.contains(user) <==> entry.has_role(user));
    lemma_push(before.users[user].projects, project);
    lemma_push(entry.users, user);
    lemma_push(entry.role_set(role), user);
    assert forall|other: ProxyRole| other != role implies !(#[trigger] after.role_set(
        project,
        other,
    )).contains(user) by {
        assert(after.role_set(project, other) == entry.role_set(other));
        if entry.role_set(other).contains(user) {
            assert(entry.has_role(user));
        }
    }
}

/// Taking back an assignment that went through goes through as well, and
/// leaves the ledger as it was before the assignment: the project is not
/// among the projects of the account, and the account is neither among the
/// accounts of the project nor among those of any of its roles.
pub proof fn law_unassignment_undoes_assignment(
    before: LedgerView,
    user: AccountId,
    project: ProjectId,
    role: ProxyRole,
)
    requires
        before.inv(),
        before.assign_user(user, project, role) is Ok,
    ensures
        ({
            let assigned = before.assign_user(user, project, role)->Ok_0;
            &&& assigned.unassign_user(user, project, role) is Ok
            &&& assigned.unassign_user(user, project, role)->Ok_0 == before
            &&& !before.projects_by_user(user).contains(project)
            &&& !before.users_by_project(project).contains(user)
            &&& forall|any: ProxyRole| !(#[trigger] before.role_set(project, any)).contains(user)
        }),
{
    let assigned = before.assign_user(user, project, role)->Ok_0;
    let entry = before.projects[project];
    let account = before.users[user];
    assert(before.project_inv(project));
    assert(before.user_inv(user));
    assert(entry.users.contains(user) <==> entry.has_role(user));
    if account.projects.contains(project) {
        let i = account.projects.index_of(project);
        assert(0 <= i < account.projects.len() && account.projects[i] == project);
    }
    lemma_push(account.projects, project);
    lemma_push(entry.users, user);
    lemma_push(entry.role_set(role), user);
    lemma_index_of(account.projects.push(project), account.projects.len() as int);
    lemma_index_of(entry.users.push(user), entry.users.len() as int);
    lemma_index_of(entry.role_set(role).push(user), entry.role_set(role).len() as int);
    assert(remove_id(account.projects.push(project), project) =~= account.projects);
    assert(remove_id(entry.users.push(user), user) =~= entry.users);
    assert(remove_id(entry.role_set(role).push(user), user) =~= entry.role_set(role));
    let undone = assigned.unassign_user(user, project, role)->Ok_0;
    assert(undone.users =~= before.users);
    assert(undone.projects =~= before.projects);
    assert(undone =~= before);
    assert forall|any: ProxyRole| !(#[trigger] before.role_set(project, any)).contains(user) by {
        if entry.role_set(any).contains(user) {
            assert(entry.has_role(user));
        }
    }
}

/// After an assignment was taken back, the project is not among the projects
/// of the account, and the account is neither among the accounts of the
/// project nor among those of any of its roles.
pub proof fn law_unassignment_is_recorded(
    before: LedgerView,
    user: AccountId,
    project: ProjectId,
    role: ProxyRole,
)
    requires
        before.inv(),
        before.unassign_user(user, project, role) is Ok,
    ensures
        ({
            let after = before.unassign_user(user, project, role)->Ok_0;
            &&& !after.projects_by_user(user).contains(project)
            &&& !after.users_by_project(project).contains(user)
            &&& forall|any: ProxyRole| !(#[trigger] after.role_set(project, any)).contains(user)
        }),
{
    let after = before.unassign_user(user, project, role)->Ok_0;
    let entry = before.projects[project];
    before.lemma_unassign_user_inv(user, project, role);
    assert(before.project_inv(project));
    assert(before.user_inv(user));
    assert(entry.roles_exclusive());
    lemma_remove_id(before.users[user].projects, project);
    lemma_remove_id(entry.users, user);
    lemma_remove_id(entry.role_set(role), user);
    assert forall|any: ProxyRole| !(#[trigger] after.role_set(project, any)).contains(user) by {
        if any != role {
            assert(after.role_set(project, any) == entry.role_set(any));
        }
    }
}

/// In a ledger that is in order no list is over its capacity: no role of a
/// project holds more accounts than the role admits, no project more
/// accounts or expenditures than a project admits, and no account more
/// projects than an account admits.
pub proof fn law_capacities_hold(
    ledger: LedgerView,
    account: AccountId,
    project: ProjectId,
    role: ProxyRole,
)
    requires
        ledger.inv(),
    ensures
        ledger.role_set(project, role).len() <= role.spec_capacity(),
        ledger.users_by_project(project).len() <= MAX_USERS_PER_PROJECT,
        ledger.expenditures_by_project(project).len() <= MAX_EXPENDITURES_PER_PROJECT,
        ledger.projects_by_user(account).len() <= MAX_PROJECTS_PER_USER,
{
    if ledger.projects.contains_key(project) {
        assert(ledger.project_inv(project));
    }
    if ledger.users.contains_key(account) {
        assert(ledger.user_inv(account));
    }
}

/// Where a role of a project is full, the assignment of one more account to
/// it, which nothing else stands against, is refused with the error of that
/// role.
pub proof fn law_full_role_refuses(
    ledger: LedgerView,
    user: AccountId,
    project: ProjectId,
    role: ProxyRole,
)
    requires
        ledger.inv(),
        ledger.users.contains_key(user),
        ledger.projects.contains_key(project),
        role != ProxyRole::Administrator,
        !ledger.administrators.contains(user),
        !ledger.users_by_project(project).contains(user),
        ledger.role_set(project, role).len() == role.spec_capacity(),
    ensures
        ledger.assign_user(user, project, role) == Err::<LedgerView, Error>(
            role.spec_capacity_error(),
        ),
        role.spec_capacity_error() == match role {
            ProxyRole::Developer => Error::MaxDevelopersPerProjectReached,
            ProxyRole::Investor => Error::MaxInvestorsPerProjectReached,
            ProxyRole::Issuer => Error::MaxIssuersPerProjectReached,
            _ => Error::MaxRegionalCenterPerProjectReached,
        },
{
}

/// An assignment that went through cannot be made again: the second attempt,
/// in the same role or in another, is refused because the account is
/// already assigned to the project.
pub proof fn law_second_assignment_refused(
    before: LedgerView,
    user: AccountId,
    project: ProjectId,
    role: ProxyRole,
    again: ProxyRole,
)
    requires
        before.inv(),
        before.assign_user(user, project, role) is Ok,
        again != ProxyRole::Administrator,
    ensures
        before.assign_user(user, project, role)->Ok_0.assign_user(user, project, again) == Err::<
            LedgerView,
            Error,
        >(Error::UserAlreadyAssignedToProject),
{
    let entry = before.projects[project];
    assert(before.project_inv(project));
    assert(before.user_inv(user));
    lemma_push(entry.users, user);
}

/// After a project was deleted it does not exist, it is among the projects
/// of no account, it has no accounts in any role, and no expenditure names
/// it.
pub proof fn law_deletion_cascades(before: LedgerView, project: ProjectId, now: u64)
    requires
        before.inv(),
        before.delete_project(project, now) is Ok,
    ensures
        ({
            let after = before.delete_project(project, now)->Ok_0;
            &&& !after.projects.contains_key(project)
            &&& forall|account: AccountId|
                !(#[trigger] after.projects_by_user(account)).contains(project)
            &&& after.users_by_project(project).len() == 0
            &&& forall|role: ProxyRole| (#[trigger] after.role_set(project, role)).len() == 0
            &&& after.expenditures_by_project(project).len() == 0
            &&& forall|expenditure: ExpenditureId| #[trigger]
                after.expenditures.contains_key(expenditure)
                    ==> after.expenditures[expenditure].project_id != project
        }),
{
    let after = before.delete_project(project, now)->Ok_0;
    assert forall|account: AccountId| !(#[trigger] after.projects_by_user(account)).contains(
        project,
    ) by {
        if before.users.contains_key(account) {
            assert(before.user_inv(account));
            lemma_remove_id(before.users[account].projects, project);
        }
    }
    assert forall|expenditure: ExpenditureId| #[trigger]
        after.expenditures.contains_key(
            expenditure,
        ) implies after.expenditures[expenditure].project_id != project by {
        assert(before.expenditure_inv(expenditure));
    }
}

/// A project whose completion date is not later than its creation date is
/// never created, whatever the ledger holds.
pub proof fn law_completion_must_be_later(
    ledger: LedgerView,
    project: ProjectId,
    data: ProjectData,
    now: u64,
)
    requires
        data.completion_date matches Some(date) && date <= data.creation_date,
    ensures
        ledger.create_project(project, data, now) == Err::<LedgerView, Error>(
            Error::CompletitionDateMustBeLater,
        ),
{
}

/// Where the role authority knows every role that the ledger records, each
/// administrator of the ledger may make the privileged calls, and each
/// account with a role in a project holds that role with the authority.
pub proof fn law_recorded_roles_are_held<A: RoleAuthority>(
    pallet: PalletView<A>,
    administrator: AccountId,
    user: AccountId,
    project: ProjectId,
    role: ProxyRole,
)
    requires
        pallet.mirrored(),
    ensures
        pallet.ledger.administrators.contains(administrator) ==> pallet.authorize(
            Origin::Signed(administrator),
        ) == Ok::<AccountId, DispatchError>(administrator),
        pallet.ledger.role_set(project, role).contains(user) ==> pallet.authority.holds(
            user,
            project,
            role,
        ),
{
}

} // verus!
