use pallet_proxy::types::{
    AccountId, AuditInfo, Document, ExpenditureData, ExpenditureSubType, ExpenditureType,
    ProjectData, ProjectId, UserData, MAX_EXPENDITURES_PER_PROJECT,
};
use pallet_proxy::projects::check_edited_dates;
use pallet_proxy::{Error, Ledger, ProxyRole};

fn account(n: u8) -> AccountId {
    [n; 32]
}

fn project(n: u8) -> ProjectId {
    [n; 32]
}

fn with_project(ledger: &mut Ledger, id: ProjectId, now: u64, completion: u64) {
    assert_eq!(
        ledger.create_project(
            account(250),
            id,
            b"title".to_vec(),
            b"description".to_vec(),
            b"image".to_vec(),
            b"address".to_vec(),
            now,
            completion,
            now,
        ),
        Ok(())
    );
}

#[test]
fn a_user_is_registered_once() {
    let mut ledger = Ledger::new();
    assert!(ledger.user(&account(1)).is_none());
    let documents = vec![Document { name: b"deed".to_vec(), cid: b"Qm1".to_vec() }];
    assert_eq!(
        ledger.register_user(
            account(9),
            account(1),
            b"Ann".to_vec(),
            b"cid".to_vec(),
            b"ann@x".to_vec(),
            Some(documents.clone()),
            40,
        ),
        Ok(())
    );
    let expected = UserData {
        name: b"Ann".to_vec(),
        image: b"cid".to_vec(),
        email: b"ann@x".to_vec(),
        documents: Some(documents),
        audit: AuditInfo {
            created_by: account(9),
            created_at: 40,
            modified_by: account(9),
            modified_at: 40,
        },
    };
    assert_eq!(ledger.user(&account(1)), Some(&expected));
    assert!(ledger.is_registered(&account(1)));
    assert!(ledger.projects_by_user(&account(1)).is_empty());
    assert_eq!(
        ledger.register_user(account(9), account(1), Vec::new(), Vec::new(), Vec::new(), None, 41),
        Err(Error::UserAlreadyRegistered)
    );
    assert_eq!(ledger.user(&account(1)), Some(&expected));
}

#[test]
fn an_update_replaces_what_is_given() {
    let mut ledger = Ledger::new();
    assert_eq!(
        ledger.update_user(account(9), account(1), Some(b"Bea".to_vec()), None, None, None, 50),
        Err(Error::UserNotRegistered)
    );
    ledger
        .register_user(
            account(9),
            account(1),
            b"Ann".to_vec(),
            b"cid".to_vec(),
            b"ann@x".to_vec(),
            None,
            40,
        )
        .unwrap();
    assert_eq!(
        ledger.update_user(account(8), account(1), None, None, Some(b"a@y".to_vec()), None, 50),
        Ok(())
    );
    let stored = ledger.user(&account(1)).unwrap();
    assert_eq!(stored.name, b"Ann".to_vec());
    assert_eq!(stored.image, b"cid".to_vec());
    assert_eq!(stored.email, b"a@y".to_vec());
    assert_eq!(stored.documents, None);
    assert_eq!(
        stored.audit,
        AuditInfo {
            created_by: account(9),
            created_at: 40,
            modified_by: account(8),
            modified_at: 50
        }
    );
    let documents = vec![Document { name: b"deed".to_vec(), cid: b"Qm1".to_vec() }];
    assert_eq!(
        ledger.update_user(
            account(7),
            account(1),
            Some(b"Bea".to_vec()),
            Some(b"pic".to_vec()),
            None,
            Some(documents.clone()),
            60,
        ),
        Ok(())
    );
    assert_eq!(ledger.update_user(account(7), account(1), None, None, None, None, 60), Ok(()));
    let stored = ledger.user(&account(1)).unwrap();
    assert_eq!(stored.name, b"Bea".to_vec());
    assert_eq!(stored.image, b"pic".to_vec());
    assert_eq!(stored.email, b"a@y".to_vec());
    assert_eq!(stored.documents, Some(documents));
}

#[test]
fn a_user_with_projects_is_not_deleted() {
    let mut ledger = Ledger::new();
    assert_eq!(ledger.delete_user(account(1)), Err(Error::UserNotRegistered));
    ledger
        .register_user(account(9), account(1), Vec::new(), Vec::new(), Vec::new(), None, 40)
        .unwrap();
    with_project(&mut ledger, project(1), 40, 50);
    ledger.assign_user(account(1), project(1), ProxyRole::Investor).unwrap();
    assert_eq!(ledger.delete_user(account(1)), Err(Error::CannotDeleteUserWithAssignedProjects));
    assert!(ledger.is_registered(&account(1)));
    ledger.unassign_user(account(1), project(1), ProxyRole::Investor).unwrap();
    assert_eq!(ledger.delete_user(account(1)), Ok(()));
    assert!(!ledger.is_registered(&account(1)));
    assert_eq!(ledger.delete_user(account(1)), Err(Error::UserNotRegistered));
}

#[test]
fn a_project_is_created_with_consistent_dates() {
    let mut ledger = Ledger::new();
    let create = |ledger: &mut Ledger, creation: u64, completion: u64, now: u64| {
        ledger.create_project(
            account(9),
            project(1),
            b"Tower".to_vec(),
            b"tall".to_vec(),
            b"cid".to_vec(),
            b"1 Main St".to_vec(),
            creation,
            completion,
            now,
        )
    };
    assert_eq!(create(&mut ledger, 100, 100, 100), Err(Error::CompletitionDateMustBeLater));
    assert_eq!(create(&mut ledger, 100, 99, 100), Err(Error::CompletitionDateMustBeLater));
    assert_eq!(create(&mut ledger, 90, 80, 100), Err(Error::CompletitionDateMustBeLater));
    assert_eq!(create(&mut ledger, 99, 200, 100), Err(Error::DateCanNotBeInThePast));
    assert_eq!(create(&mut ledger, 101, 200, 100), Err(Error::CreationDateMustBeInThePast));
    assert!(ledger.project(&project(1)).is_none());
    assert_eq!(create(&mut ledger, 100, 101, 100), Ok(()));
    let expected = ProjectData {
        title: b"Tower".to_vec(),
        description: b"tall".to_vec(),
        image: b"cid".to_vec(),
        address: b"1 Main St".to_vec(),
        creation_date: 100,
        completion_date: Some(101),
        creator: account(9),
        audit: AuditInfo {
            created_by: account(9),
            created_at: 100,
            modified_by: account(9),
            modified_at: 100,
        },
    };
    assert_eq!(ledger.project(&project(1)), Some(&expected));
    assert!(!expected.is_completed(100));
    assert!(!expected.is_completed(101));
    assert!(expected.is_completed(102));
    assert_eq!(create(&mut ledger, 100, 101, 100), Err(Error::ProjectIdAlreadyInUse));
    assert_eq!(create(&mut ledger, 100, 100, 100), Err(Error::CompletitionDateMustBeLater));
    assert_eq!(ledger.project(&project(1)), Some(&expected));
}

#[test]
fn edited_dates_are_checked_against_each_other_and_the_clock() {
    let stored = ProjectData {
        title: Vec::new(),
        description: Vec::new(),
        image: Vec::new(),
        address: Vec::new(),
        creation_date: 100,
        completion_date: Some(200),
        creator: account(9),
        audit: AuditInfo {
            created_by: account(9),
            created_at: 100,
            modified_by: account(9),
            modified_at: 100,
        },
    };
    assert_eq!(check_edited_dates(&stored, None, None, 150), None);
    assert_eq!(check_edited_dates(&stored, None, None, 500), None);
    assert_eq!(check_edited_dates(&stored, Some(120), None, 150), None);
    assert_eq!(check_edited_dates(&stored, Some(150), Some(151), 150), None);
    assert_eq!(check_edited_dates(&stored, None, Some(150), 150), None);
    assert_eq!(
        check_edited_dates(&stored, Some(200), None, 250),
        Some(Error::CompletitionDateMustBeLater)
    );
    assert_eq!(
        check_edited_dates(&stored, None, Some(100), 150),
        Some(Error::CompletitionDateMustBeLater)
    );
    assert_eq!(
        check_edited_dates(&stored, Some(160), Some(150), 150),
        Some(Error::CompletitionDateMustBeLater)
    );
    assert_eq!(
        check_edited_dates(&stored, Some(151), None, 150),
        Some(Error::CreationDateMustBeInThePast)
    );
    assert_eq!(
        check_edited_dates(&stored, None, Some(149), 150),
        Some(Error::DateCanNotBeInThePast)
    );
    assert_eq!(
        check_edited_dates(&stored, Some(151), Some(152), 153),
        Some(Error::DateCanNotBeInThePast)
    );
    assert_eq!(
        check_edited_dates(&stored, Some(160), Some(170), 150),
        Some(Error::CreationDateMustBeInThePast)
    );
}

#[test]
fn a_project_is_edited_until_it_is_completed() {
    let mut ledger = Ledger::new();
    assert_eq!(
        ledger.edit_project(account(9), project(1), None, None, None, None, None, None, 100),
        Err(Error::ProjectNotFound)
    );
    with_project(&mut ledger, project(1), 100, 200);
    assert_eq!(
        ledger.edit_project(
            account(8),
            project(1),
            Some(b"Bridge".to_vec()),
            None,
            None,
            Some(b"2 Side St".to_vec()),
            None,
            Some(300),
            150,
        ),
        Ok(())
    );
    let stored = ledger.project(&project(1)).unwrap();
    assert_eq!(stored.title, b"Bridge".to_vec());
    assert_eq!(stored.description, b"description".to_vec());
    assert_eq!(stored.image, b"image".to_vec());
    assert_eq!(stored.address, b"2 Side St".to_vec());
    assert_eq!(stored.creation_date, 100);
    assert_eq!(stored.completion_date, Some(300));
    assert_eq!(stored.creator, account(250));
    assert_eq!(
        stored.audit,
        AuditInfo {
            created_by: account(250),
            created_at: 100,
            modified_by: account(8),
            modified_at: 150
        }
    );
    assert_eq!(
        ledger.edit_project(account(8), project(1), None, None, None, None, Some(151), None, 150),
        Err(Error::CreationDateMustBeInThePast)
    );
    assert_eq!(
        ledger.edit_project(account(8), project(1), None, None, None, None, None, Some(149), 150),
        Err(Error::DateCanNotBeInThePast)
    );
    assert_eq!(
        ledger.edit_project(account(8), project(1), None, None, None, None, None, Some(100), 150),
        Err(Error::CompletitionDateMustBeLater)
    );
    assert_eq!(ledger.project(&project(1)).unwrap().completion_date, Some(300));
    assert_eq!(
        ledger.edit_project(account(8), project(1), None, None, None, None, None, None, 300),
        Ok(())
    );
    assert_eq!(
        ledger.edit_project(
            account(8),
            project(1),
            Some(b"Late".to_vec()),
            None,
            None,
            None,
            None,
            None,
            301,
        ),
        Err(Error::CannotEditCompletedProject)
    );
    assert_eq!(ledger.project(&project(1)).unwrap().title, b"Bridge".to_vec());
}

#[test]
fn a_completed_project_is_not_deleted() {
    let mut ledger = Ledger::new();
    assert_eq!(ledger.delete_project(project(1), 100), Err(Error::ProjectNotFound));
    with_project(&mut ledger, project(1), 100, 200);
    assert_eq!(ledger.delete_project(project(1), 201), Err(Error::CannotDeleteCompletedProject));
    assert!(ledger.project(&project(1)).is_some());
    assert_eq!(ledger.delete_project(project(1), 200), Ok(()));
    assert!(ledger.project(&project(1)).is_none());
    assert_eq!(ledger.delete_project(project(1), 200), Err(Error::ProjectNotFound));
}

#[test]
fn an_expenditure_is_a_line_item_of_a_project() {
    let mut ledger = Ledger::new();
    let create = |ledger: &mut Ledger, id: u8, subtype: ExpenditureSubType| {
        ledger.create_expenditure(
            account(9),
            [id; 32],
            project(1),
            b"Concrete".to_vec(),
            ExpenditureType::HardCost,
            subtype,
            Some(1_000),
            Some(23),
            None,
            100,
        )
    };
    assert_eq!(create(&mut ledger, 1, ExpenditureSubType::Parent), Err(Error::ProjectNotFound));
    with_project(&mut ledger, project(1), 100, 200);
    assert_eq!(
        create(&mut ledger, 1, ExpenditureSubType::Parent),
        Err(Error::CannotCreateParentExpenditure)
    );
    assert!(ledger.expenditure(&[1; 32]).is_none());
    assert!(ledger.expenditures_by_project(&project(1)).is_empty());
    assert_eq!(create(&mut ledger, 1, ExpenditureSubType::Child), Ok(()));
    let expected = ExpenditureData {
        project_id: project(1),
        name: b"Concrete".to_vec(),
        expenditure_type: ExpenditureType::HardCost,
        expenditure_subtype: ExpenditureSubType::Child,
        budget_amount: Some(1_000),
        naics_code: Some(23),
        jobs_multiplier: None,
        audit: AuditInfo {
            created_by: account(9),
            created_at: 100,
            modified_by: account(9),
            modified_at: 100,
        },
    };
    assert_eq!(ledger.expenditure(&[1; 32]), Some(&expected));
    assert_eq!(ledger.expenditures_by_project(&project(1)), vec![[1u8; 32]]);
    assert_eq!(
        create(&mut ledger, 1, ExpenditureSubType::Child),
        Err(Error::ExpenditureIdAlreadyInUse)
    );
    let mut listed = vec![[1u8; 32]];
    for id in 2..=MAX_EXPENDITURES_PER_PROJECT as u8 {
        assert_eq!(create(&mut ledger, id, ExpenditureSubType::Child), Ok(()));
        listed.push([id; 32]);
    }
    assert_eq!(ledger.expenditures_by_project(&project(1)), listed);
    assert_eq!(
        create(&mut ledger, 99, ExpenditureSubType::Child),
        Err(Error::MaxExpendituresPerProjectReached)
    );
    assert!(ledger.expenditure(&[99; 32]).is_none());
    assert_eq!(ledger.expenditures_by_project(&project(1)), listed);
}
