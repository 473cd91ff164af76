use pallet_proxy::identifiers::global_scope_id;
use pallet_proxy::types::AccountId;
use pallet_proxy::{
    DispatchError, Error, Event, ExtBuilder, Origin, ProxyRole, RoleAuthority, RoleRegistry,
};

fn account(n: u8) -> AccountId {
    [n; 32]
}

#[test]
fn builder_starts_empty() {
    let pallet = ExtBuilder::default().build();
    assert_eq!(pallet.now(), None);
    assert_eq!(pallet.ledger().global_scope(), None);
    assert!(pallet.ledger().administrators().is_empty());
    let scope = global_scope_id();
    assert!(!pallet.authority().has_role(&account(1), &scope, ProxyRole::Administrator));
    let pallet = ExtBuilder::default().timestamp(7).build();
    assert_eq!(pallet.now(), Some(7));
}

#[test]
fn setup_needs_root_and_names_the_scope_once() {
    let mut pallet = ExtBuilder::default().build();
    assert_eq!(pallet.initial_setup(Origin::Signed(account(1))), Err(DispatchError::BadOrigin));
    assert_eq!(pallet.initial_setup(Origin::Unsigned), Err(DispatchError::BadOrigin));
    assert_eq!(pallet.ledger().global_scope(), None);
    assert_eq!(pallet.initial_setup(Origin::Root), Ok(Event::ProxySetupCompleted));
    assert_eq!(pallet.ledger().global_scope(), Some(global_scope_id()));
    assert_eq!(pallet.initial_setup(Origin::Root), Ok(Event::ProxySetupCompleted));
    assert_eq!(pallet.ledger().global_scope(), Some(global_scope_id()));
}

#[test]
fn sudo_calls_need_root() {
    let mut pallet = ExtBuilder::default().build();
    pallet.initial_setup(Origin::Root).unwrap();
    assert_eq!(
        pallet.sudo_add_administrator(Origin::Signed(account(1)), account(1)),
        Err(DispatchError::BadOrigin)
    );
    assert_eq!(
        pallet.sudo_remove_administrator(Origin::Unsigned, account(1)),
        Err(DispatchError::BadOrigin)
    );
    assert!(pallet.ledger().administrators().is_empty());
}

#[test]
fn administrators_are_added_and_removed() {
    let mut pallet = ExtBuilder::default().build();
    assert_eq!(
        pallet.sudo_add_administrator(Origin::Root, account(1)),
        Err(DispatchError::Module(Error::GlobalScopeNotSet))
    );
    assert_eq!(
        pallet.sudo_remove_administrator(Origin::Root, account(1)),
        Err(DispatchError::Module(Error::CannotRemoveAdminRole))
    );
    pallet.initial_setup(Origin::Root).unwrap();
    let scope = global_scope_id();
    assert_eq!(
        pallet.sudo_add_administrator(Origin::Root, account(1)),
        Ok(Event::AdministratorAssigned(account(1)))
    );
    assert_eq!(
        pallet.sudo_add_administrator(Origin::Root, account(2)),
        Ok(Event::AdministratorAssigned(account(2)))
    );
    assert_eq!(pallet.ledger().administrators(), vec![account(1), account(2)]);
    assert!(pallet.ledger().is_administrator(&account(1)));
    assert!(pallet.authority().has_role(&account(1), &scope, ProxyRole::Administrator));
    assert!(!pallet.authority().has_role(&account(1), &scope, ProxyRole::Developer));
    assert_eq!(
        pallet.sudo_add_administrator(Origin::Root, account(1)),
        Err(DispatchError::Module(Error::UserAlreadyHasRole))
    );
    assert_eq!(
        pallet.sudo_remove_administrator(Origin::Root, account(3)),
        Err(DispatchError::Module(Error::CannotRemoveAdminRole))
    );
    assert_eq!(
        pallet.sudo_remove_administrator(Origin::Root, account(1)),
        Ok(Event::AdministratorRemoved(account(1)))
    );
    assert_eq!(pallet.ledger().administrators(), vec![account(2)]);
    assert!(!pallet.authority().has_role(&account(1), &scope, ProxyRole::Administrator));
    assert!(pallet.authority().has_role(&account(2), &scope, ProxyRole::Administrator));
}

#[test]
fn privileged_calls_are_gated() {
    let mut pallet = ExtBuilder::default().build();
    let register = |pallet: &mut pallet_proxy::Pallet<RoleRegistry>, origin: Origin| {
        pallet.users_register_user(origin, account(9), Vec::new(), Vec::new(), Vec::new(), None)
    };
    assert_eq!(register(&mut pallet, Origin::Root), Err(DispatchError::BadOrigin));
    assert_eq!(register(&mut pallet, Origin::Unsigned), Err(DispatchError::BadOrigin));
    assert_eq!(
        register(&mut pallet, Origin::Signed(account(1))),
        Err(DispatchError::Module(Error::GlobalScopeNotSet))
    );
    pallet.initial_setup(Origin::Root).unwrap();
    assert_eq!(
        register(&mut pallet, Origin::Signed(account(1))),
        Err(DispatchError::NotAuthorized)
    );
    pallet.sudo_add_administrator(Origin::Root, account(1)).unwrap();
    assert_eq!(
        register(&mut pallet, Origin::Signed(account(2))),
        Err(DispatchError::NotAuthorized)
    );
    assert_eq!(
        register(&mut pallet, Origin::Signed(account(1))),
        Err(DispatchError::Module(Error::TimestampError))
    );
    assert!(!pallet.ledger().is_registered(&account(9)));
    pallet.set_timestamp(5);
    assert_eq!(
        register(&mut pallet, Origin::Signed(account(1))),
        Ok(Event::UserAdded(account(9)))
    );
    assert!(pallet.ledger().is_registered(&account(9)));
    pallet.sudo_remove_administrator(Origin::Root, account(1)).unwrap();
    assert_eq!(
        pallet.users_delete_user(Origin::Signed(account(1)), account(9)),
        Err(DispatchError::NotAuthorized)
    );
    assert!(pallet.ledger().is_registered(&account(9)));
}

#[test]
fn calls_without_clock_need_no_timestamp() {
    let mut pallet = ExtBuilder::default().build();
    pallet.initial_setup(Origin::Root).unwrap();
    pallet.sudo_add_administrator(Origin::Root, account(1)).unwrap();
    let signed = Origin::Signed(account(1));
    assert_eq!(
        pallet.users_delete_user(signed, account(9)),
        Err(DispatchError::Module(Error::UserNotRegistered))
    );
    assert_eq!(
        pallet.projects_assign_user(signed, account(9), account(8), ProxyRole::Developer),
        Err(DispatchError::Module(Error::UserNotRegistered))
    );
    assert_eq!(
        pallet.projects_unassign_user(signed, account(9), account(8), ProxyRole::Developer),
        Err(DispatchError::Module(Error::UserNotAssignedToProject))
    );
    assert_eq!(
        pallet.projects_delete_project(signed, account(8)),
        Err(DispatchError::Module(Error::TimestampError))
    );
    assert_eq!(
        pallet.projects_edit_project(signed, account(8), None, None, None, None, None, None),
        Err(DispatchError::Module(Error::TimestampError))
    );
    assert_eq!(
        pallet.users_update_user(signed, account(9), None, None, None, None),
        Err(DispatchError::Module(Error::TimestampError))
    );
}

#[test]
fn registry_grants_and_revokes() {
    let mut registry = RoleRegistry::new();
    let scope = account(50);
    assert!(!registry.has_role(&account(1), &scope, ProxyRole::Developer));
    registry.assign_role(account(1), scope, ProxyRole::Developer);
    registry.assign_role(account(1), scope, ProxyRole::Developer);
    registry.assign_role(account(2), scope, ProxyRole::Investor);
    assert!(registry.has_role(&account(1), &scope, ProxyRole::Developer));
    assert!(!registry.has_role(&account(1), &scope, ProxyRole::Investor));
    assert!(!registry.has_role(&account(1), &account(51), ProxyRole::Developer));
    assert!(!registry.has_role(&account(2), &scope, ProxyRole::Developer));
    assert!(registry.has_role(&account(2), &scope, ProxyRole::Investor));
    registry.remove_role(account(1), scope, ProxyRole::Developer);
    assert!(!registry.has_role(&account(1), &scope, ProxyRole::Developer));
    assert!(registry.has_role(&account(2), &scope, ProxyRole::Investor));
    registry.remove_role(account(3), scope, ProxyRole::Investor);
    assert!(registry.has_role(&account(2), &scope, ProxyRole::Investor));
}

#[test]
fn a_role_is_revoked_from_many_at_once() {
    let mut registry = RoleRegistry::new();
    let scope = account(50);
    for n in 1..=4 {
        registry.assign_role(account(n), scope, ProxyRole::Issuer);
    }
    registry.assign_role(account(1), scope, ProxyRole::Investor);
    registry.assign_role(account(1), account(51), ProxyRole::Issuer);
    pallet_proxy::authority::revoke_from(
        &mut registry,
        &vec![account(1), account(3), account(9)],
        scope,
        ProxyRole::Issuer,
    );
    assert!(!registry.has_role(&account(1), &scope, ProxyRole::Issuer));
    assert!(registry.has_role(&account(2), &scope, ProxyRole::Issuer));
    assert!(!registry.has_role(&account(3), &scope, ProxyRole::Issuer));
    assert!(registry.has_role(&account(4), &scope, ProxyRole::Issuer));
    assert!(registry.has_role(&account(1), &scope, ProxyRole::Investor));
    assert!(registry.has_role(&account(1), &account(51), ProxyRole::Issuer));
}
