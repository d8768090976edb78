use zoo_core::cares::CareTable;
use zoo_core::models::{Care, CreateCare, UpdateCrare};

fn payload(type_of_care: &str, frequency: &str) -> CreateCare {
    CreateCare {
        type_of_care: type_of_care.to_string(),
        frequency: frequency.to_string(),
        description: None,
    }
}

#[test]
fn care_create_allocates_one_on_an_empty_table() {
    let mut t = CareTable::new();
    let c = t.create(&payload("Feeding", "Daily")).unwrap();
    assert_eq!(c.cares_id, 1);
}

#[test]
fn care_create_then_get_returns_the_created_entity() {
    let mut t = CareTable::new();
    let mut p = payload("Grooming", "Weekly");
    p.description = Some("Brush the coat".to_string());
    let created = t.create(&p).unwrap();
    assert_eq!(t.get_by_id(created.cares_id).unwrap(), created);
}

#[test]
fn care_create_rejects_blank_type() {
    let mut t = CareTable::new();
    let e = t.create(&payload("  ", "Daily")).unwrap_err();
    assert_eq!(e.status(), 400);
    assert_eq!(e.message(), "Type of care is required and cannot be empty");
}

#[test]
fn care_create_rejects_blank_frequency() {
    let mut t = CareTable::new();
    let e = t.create(&payload("Feeding", "")).unwrap_err();
    assert_eq!(e.status(), 400);
    assert_eq!(e.message(), "Frequency is required and cannot be empty");
}

#[test]
fn care_list_is_ascending_by_id() {
    let mut t = CareTable::new();
    t.create(&payload("Feeding", "Daily")).unwrap();
    t.create(&payload("Grooming", "Weekly")).unwrap();
    t.create(&payload("Checkup", "Monthly")).unwrap();
    let ids: Vec<i32> = t.list().iter().map(|c| c.cares_id).collect();
    assert_eq!(ids, vec![1, 2, 3]);
}

#[test]
fn care_get_reports_a_missing_care() {
    let t = CareTable::new();
    let e = t.get_by_id(4).unwrap_err();
    assert_eq!(e.status(), 404);
    assert_eq!(e.message(), "Animal care with id 4 not found");
}

#[test]
fn care_update_with_absent_description_keeps_the_stored_one() {
    let mut t = CareTable::new();
    let mut p = payload("Feeding", "Daily");
    p.description = Some("Meat".to_string());
    let created = t.create(&p).unwrap();
    let u = UpdateCrare {
        type_of_care: "Feeding".to_string(),
        frequency: "Twice daily".to_string(),
        description: None,
    };
    let after = t.update(created.cares_id, &u).unwrap();
    assert_eq!(after.cares_id, created.cares_id);
    assert_eq!(after.frequency, "Twice daily");
    // Column-level merge: the absent description keeps its stored value.
    assert_eq!(after.description, Some("Meat".to_string()));
    assert_eq!(t.get_by_id(created.cares_id).unwrap(), after);
}

#[test]
fn care_update_with_supplied_description_overwrites_it() {
    let mut t = CareTable::new();
    let mut p = payload("Feeding", "Daily");
    p.description = Some("Meat".to_string());
    let created = t.create(&p).unwrap();
    let u = UpdateCrare {
        type_of_care: "Feeding".to_string(),
        frequency: "Daily".to_string(),
        description: Some("Fish".to_string()),
    };
    let after = t.update(created.cares_id, &u).unwrap();
    assert_eq!(after.description, Some("Fish".to_string()));
    assert_eq!(t.get_by_id(created.cares_id).unwrap(), after);
}

#[test]
fn care_update_rejects_blank_fields() {
    let mut t = CareTable::new();
    t.create(&payload("Feeding", "Daily")).unwrap();
    let u = UpdateCrare {
        type_of_care: " ".to_string(),
        frequency: "Daily".to_string(),
        description: None,
    };
    let e = t.update(1, &u).unwrap_err();
    assert_eq!(e.status(), 400);
    assert_eq!(e.message(), "Type of care cannot be empty");
    let u = UpdateCrare {
        type_of_care: "Feeding".to_string(),
        frequency: "".to_string(),
        description: None,
    };
    let e = t.update(1, &u).unwrap_err();
    assert_eq!(e.status(), 400);
    assert_eq!(e.message(), "Frequency cannot be empty");
}

#[test]
fn care_update_reports_a_missing_care() {
    let mut t = CareTable::new();
    let u = UpdateCrare {
        type_of_care: "Feeding".to_string(),
        frequency: "Daily".to_string(),
        description: None,
    };
    let e = t.update(3, &u).unwrap_err();
    assert_eq!(e.status(), 404);
    assert_eq!(e.message(), "Care with id 3 not found");
}

#[test]
fn care_delete_removes_and_then_reports_not_found() {
    let mut t = CareTable::new();
    t.create(&payload("Feeding", "Daily")).unwrap();
    assert!(t.delete(1).is_ok());
    assert_eq!(t.len(), 0);
    let e = t.delete(1).unwrap_err();
    assert_eq!(e.status(), 404);
    assert_eq!(e.message(), "Care with id 1 not found");
}

#[test]
fn care_racing_insert_of_a_taken_id_is_refused() {
    let mut t = CareTable::new();
    let row = |id: i32| Care {
        cares_id: id,
        type_of_care: "Feeding".to_string(),
        frequency: "Daily".to_string(),
        description: None,
    };
    assert!(t.insert(row(2)).is_ok());
    let e = t.insert(row(2)).unwrap_err();
    assert_eq!(e.status(), 500);
    assert_eq!(e.message(), "Insert error: duplicate key");
    assert_eq!(t.len(), 1);
}
