use pallet_proxy::bounded::{position, same_id};
use pallet_proxy::identifiers::{expenditure_id, global_scope_id, project_id};

#[test]
fn global_scope_is_the_digest_of_the_pallet_name() {
    assert_eq!(
        global_scope_id(),
        [
            183, 66, 18, 226, 68, 83, 123, 48, 107, 190, 54, 3, 158, 97, 141, 111, 134, 182, 99,
            228, 196, 184, 101, 187, 185, 86, 41, 82, 7, 103, 90, 215
        ]
    );
}

#[test]
fn project_id_is_the_digest_of_title_and_time() {
    let id = project_id(&b"Tower".to_vec(), 1000);
    assert_eq!(
        id,
        [
            66, 224, 37, 212, 188, 85, 129, 205, 11, 84, 162, 163, 237, 26, 172, 211, 9, 4, 30,
            102, 135, 237, 146, 45, 81, 250, 167, 140, 161, 92, 147, 65
        ]
    );
    assert_ne!(id, project_id(&b"Tower".to_vec(), 1001));
    assert_ne!(id, project_id(&b"Towes".to_vec(), 1000));
}

#[test]
fn expenditure_id_is_the_digest_of_project_name_and_time() {
    let project = project_id(&b"Tower".to_vec(), 1000);
    assert_eq!(
        expenditure_id(&project, &b"Concrete".to_vec(), 1000),
        [
            129, 241, 180, 103, 115, 232, 223, 159, 3, 193, 192, 246, 179, 20, 227, 111, 231, 185,
            112, 33, 30, 160, 45, 122, 113, 58, 26, 11, 154, 116, 101, 99
        ]
    );
}

#[test]
fn identifiers_are_compared_byte_by_byte() {
    let a = [7u8; 32];
    let mut b = [7u8; 32];
    assert!(same_id(&a, &b));
    b[31] = 8;
    assert!(!same_id(&a, &b));
    b[31] = 7;
    b[0] = 6;
    assert!(!same_id(&a, &b));
}

#[test]
fn position_is_the_first_place() {
    let items = vec![[1u8; 32], [2u8; 32], [1u8; 32]];
    assert_eq!(position(&items, &[1u8; 32]), Some(0));
    assert_eq!(position(&items, &[2u8; 32]), Some(1));
    assert_eq!(position(&items, &[3u8; 32]), None);
    assert_eq!(position(&Vec::new(), &[3u8; 32]), None);
}

#[test]
fn a_table_maps_identifiers_to_records() {
    let mut table: pallet_proxy::table::Table<u32> = pallet_proxy::table::Table::new();
    assert_eq!(table.find(&[1u8; 32]), None);
    assert!(!table.contains_key(&[1u8; 32]));
    table.insert_new([1u8; 32], 10);
    table.insert_new([2u8; 32], 20);
    table.insert_new([3u8; 32], 30);
    assert_eq!(table.find(&[2u8; 32]), Some(1));
    assert!(table.contains_key(&[3u8; 32]));
    assert_eq!(table.remove_at(1), 20);
    assert_eq!(table.find(&[2u8; 32]), None);
    assert_eq!(table.find(&[1u8; 32]).map(|i| table.values[i]), Some(10));
    assert_eq!(table.find(&[3u8; 32]).map(|i| table.values[i]), Some(30));
    assert_eq!(table.keys.len(), 2);
}

#[test]
fn identifiers_are_copied_in_order() {
    let items = vec![[3u8; 32], [1u8; 32], [2u8; 32]];
    assert_eq!(pallet_proxy::ledger::copy_ids(&items), items);
    assert!(pallet_proxy::ledger::copy_ids(&Vec::new()).is_empty());
}
