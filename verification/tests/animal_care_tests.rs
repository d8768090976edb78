use zoo_core::animal_cares::AnimalCareTable;
use zoo_core::date::Date;
use zoo_core::models::{AnimalCare, CreateAnimalCare};

fn relation(care: i32, animal: i32, date: Option<&str>) -> CreateAnimalCare {
    CreateAnimalCare {
        date_of_care: date.map(|d| d.to_string()),
        fk_cares_cares_id: care,
        fk_animal_animal_id: animal,
    }
}

#[test]
fn relation_create_then_get_returns_the_created_relation() {
    let mut t = AnimalCareTable::new();
    let created = t.create(&relation(4, 7, Some("15/03/2024"))).unwrap();
    assert_eq!(created.animal_care_id, 1);
    assert_eq!(created.date_of_care, Some(Date { year: 2024, month: 3, day: 15 }));
    assert_eq!(created.fk_cares_cares_id, 4);
    assert_eq!(created.fk_animal_animal_id, 7);
    assert_eq!(t.get_by_id(1).unwrap(), created);
}

#[test]
fn relation_create_accepts_any_foreign_keys() {
    // Referential integrity is not enforced here; only the store could.
    let mut t = AnimalCareTable::new();
    let created = t.create(&relation(999, -3, None)).unwrap();
    assert_eq!(created.fk_cares_cares_id, 999);
    assert_eq!(created.fk_animal_animal_id, -3);
}

#[test]
fn relation_list_is_ascending_by_id() {
    let mut t = AnimalCareTable::new();
    t.create(&relation(1, 1, None)).unwrap();
    t.create(&relation(2, 1, None)).unwrap();
    t.create(&relation(3, 2, None)).unwrap();
    let ids: Vec<i32> = t.list().iter().map(|r| r.animal_care_id).collect();
    assert_eq!(ids, vec![1, 2, 3]);
}

#[test]
fn relation_get_reports_a_missing_relation() {
    let t = AnimalCareTable::new();
    let e = t.get_by_id(6).unwrap_err();
    assert_eq!(e.status(), 404);
    assert_eq!(e.message(), "Animal care with id 6 not found");
}

#[test]
fn by_animal_returns_only_the_first_of_several_relations() {
    let mut t = AnimalCareTable::new();
    t.create(&relation(10, 7, Some("2024-01-01"))).unwrap();
    t.create(&relation(20, 7, Some("2024-02-02"))).unwrap();
    t.create(&relation(30, 8, None)).unwrap();
    let r = t.get_by_animal_id(7).unwrap();
    assert_eq!(r.animal_care_id, 1);
    assert_eq!(r.fk_cares_cares_id, 10);
}

#[test]
fn by_animal_reports_an_animal_without_relations() {
    let mut t = AnimalCareTable::new();
    t.create(&relation(10, 7, None)).unwrap();
    let e = t.get_by_animal_id(8).unwrap_err();
    assert_eq!(e.status(), 404);
    assert_eq!(e.message(), "Animal care with id 8 not found");
}

#[test]
fn relation_create_swallows_a_bad_date_silently() {
    let mut t = AnimalCareTable::new();
    let created = t.create(&relation(1, 1, Some("yesterday"))).unwrap();
    assert_eq!(created.date_of_care, None);
}

#[test]
fn relation_racing_insert_of_a_taken_id_is_refused() {
    let mut t = AnimalCareTable::new();
    let row = |id: i32| AnimalCare {
        animal_care_id: id,
        date_of_care: None,
        fk_cares_cares_id: 1,
        fk_animal_animal_id: 1,
    };
    assert!(t.insert(row(3)).is_ok());
    let e = t.insert(row(3)).unwrap_err();
    assert_eq!(e.status(), 500);
    assert_eq!(e.message(), "Insert error: duplicate key");
}
