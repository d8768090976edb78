use zoo_core::animals::{AnimalRow, AnimalTable};
use zoo_core::date::Date;
use zoo_core::models::{Animal, CreateAnimal, UpdateAnimal};

fn payload(name: &str, specie: &str) -> CreateAnimal {
    CreateAnimal {
        name: name.to_string(),
        specie: specie.to_string(),
        habitat: None,
        description: None,
        country_of_origin: None,
        date_of_birth: None,
    }
}

fn no_change() -> UpdateAnimal {
    UpdateAnimal {
        name: None,
        specie: None,
        habitat: None,
        description: None,
        country_of_origin: None,
        date_of_birth: None,
    }
}

#[test]
fn create_allocates_one_on_an_empty_table() {
    let mut t = AnimalTable::new();
    let a = t.create(&payload("Rex", "Dog")).unwrap();
    assert_eq!(a.animal_id, 1);
}

#[test]
fn create_then_get_returns_the_created_entity() {
    let mut t = AnimalTable::new();
    let mut p = payload("Luna", "Wolf");
    p.habitat = Some("Forest".to_string());
    p.date_of_birth = Some("05/06/2019".to_string());
    let created = t.create(&p).unwrap();
    let read = t.get_by_id(created.animal_id).unwrap();
    assert_eq!(read, created);
    assert_eq!(read.date_of_birth, Some(Date { year: 2019, month: 6, day: 5 }));
}

#[test]
fn create_rejects_blank_name() {
    let mut t = AnimalTable::new();
    let e = t.create(&payload("   ", "Lion")).unwrap_err();
    assert_eq!(e.status(), 400);
    assert_eq!(e.message(), "Name is required and cannot be empty");
    assert_eq!(t.len(), 0);
}

#[test]
fn create_rejects_blank_specie() {
    let mut t = AnimalTable::new();
    let e = t.create(&payload("Leo", "")).unwrap_err();
    assert_eq!(e.status(), 400);
    assert_eq!(e.message(), "Specie is required and cannot be empty");
}

#[test]
fn create_swallows_a_bad_date_silently() {
    let mut t = AnimalTable::new();
    let mut p = payload("Leo", "Lion");
    p.date_of_birth = Some("soon".to_string());
    let a = t.create(&p).unwrap();
    assert_eq!(a.date_of_birth, None);
}

#[test]
fn list_returns_active_animals_in_ascending_id_order() {
    let mut t = AnimalTable::new();
    t.create(&payload("A", "a")).unwrap();
    t.create(&payload("B", "b")).unwrap();
    t.create(&payload("C", "c")).unwrap();
    let l = t.list();
    let ids: Vec<i32> = l.iter().map(|a| a.animal_id).collect();
    assert_eq!(ids, vec![1, 2, 3]);
    t.deactivate(2).unwrap();
    let ids: Vec<i32> = t.list().iter().map(|a| a.animal_id).collect();
    assert_eq!(ids, vec![1, 3]);
}

#[test]
fn get_by_id_reports_a_missing_animal() {
    let t = AnimalTable::new();
    let e = t.get_by_id(9).unwrap_err();
    assert_eq!(e.status(), 404);
    assert_eq!(e.message(), "Animal with id 9 not found");
}

#[test]
fn update_with_one_field_set_keeps_the_others() {
    let mut t = AnimalTable::new();
    let mut p = payload("Leo", "Lion");
    p.habitat = Some("Savanna".to_string());
    p.country_of_origin = Some("Kenya".to_string());
    p.date_of_birth = Some("2020-01-02".to_string());
    let created = t.create(&p).unwrap();
    let mut u = no_change();
    u.description = Some("King".to_string());
    let after = t.update(created.animal_id, &u).unwrap();
    assert_eq!(after.name, "Leo");
    assert_eq!(after.specie, "Lion");
    assert_eq!(after.habitat, Some("Savanna".to_string()));
    assert_eq!(after.country_of_origin, Some("Kenya".to_string()));
    assert_eq!(after.date_of_birth, Some(Date { year: 2020, month: 1, day: 2 }));
    assert_eq!(after.description, Some("King".to_string()));
    assert_eq!(t.get_by_id(created.animal_id).unwrap(), after);
}

#[test]
fn update_with_unparseable_date_keeps_the_stored_date() {
    let mut t = AnimalTable::new();
    let mut p = payload("Leo", "Lion");
    p.date_of_birth = Some("2020-01-02".to_string());
    let created = t.create(&p).unwrap();
    let mut u = no_change();
    u.date_of_birth = Some("tomorrow".to_string());
    let after = t.update(created.animal_id, &u).unwrap();
    assert_eq!(after.date_of_birth, Some(Date { year: 2020, month: 1, day: 2 }));
}

#[test]
fn update_rejects_blank_supplied_name() {
    let mut t = AnimalTable::new();
    t.create(&payload("Leo", "Lion")).unwrap();
    let mut u = no_change();
    u.name = Some(" ".to_string());
    let e = t.update(1, &u).unwrap_err();
    assert_eq!(e.status(), 400);
    assert_eq!(e.message(), "Name cannot be empty");
}

#[test]
fn update_reports_a_missing_or_inactive_animal() {
    let mut t = AnimalTable::new();
    t.create(&payload("Leo", "Lion")).unwrap();
    t.deactivate(1).unwrap();
    let e = t.update(1, &no_change()).unwrap_err();
    assert_eq!(e.status(), 404);
    assert_eq!(e.message(), "Animal with id 1 not found or inactive");
}

#[test]
fn deactivate_twice_succeeds_then_reports_not_found() {
    let mut t = AnimalTable::new();
    t.create(&payload("Leo", "Lion")).unwrap();
    assert!(t.deactivate(1).is_ok());
    let e = t.deactivate(1).unwrap_err();
    assert_eq!(e.status(), 404);
    assert_eq!(e.message(), "Animal with id 1 not found or already inactive");
}

#[test]
fn a_deactivated_animal_is_hidden_from_reads() {
    let mut t = AnimalTable::new();
    t.create(&payload("Leo", "Lion")).unwrap();
    t.deactivate(1).unwrap();
    assert_eq!(t.get_by_id(1).unwrap_err().status(), 404);
    assert!(t.list().is_empty());
    assert_eq!(t.len(), 1);
}

#[test]
fn delete_removes_even_an_inactive_animal() {
    let mut t = AnimalTable::new();
    t.create(&payload("Leo", "Lion")).unwrap();
    t.deactivate(1).unwrap();
    assert!(t.delete(1).is_ok());
    assert_eq!(t.len(), 0);
    let e = t.delete(1).unwrap_err();
    assert_eq!(e.status(), 404);
    assert_eq!(e.message(), "Animal with id 1 not found");
}

#[test]
fn a_racing_insert_of_a_taken_id_is_refused() {
    let mut t = AnimalTable::new();
    let row = |id: i32| AnimalRow {
        animal: Animal {
            animal_id: id,
            name: "Leo".to_string(),
            specie: "Lion".to_string(),
            habitat: None,
            description: None,
            country_of_origin: None,
            date_of_birth: None,
        },
        is_active: true,
    };
    assert!(t.insert(row(1)).is_ok());
    let e = t.insert(row(1)).unwrap_err();
    assert_eq!(e.status(), 500);
    assert_eq!(e.message(), "Insert error: duplicate key");
    assert_eq!(t.len(), 1);
}

#[test]
fn insert_places_rows_in_id_order() {
    let mut t = AnimalTable::new();
    let row = |id: i32, name: &str| AnimalRow {
        animal: Animal {
            animal_id: id,
            name: name.to_string(),
            specie: "Lion".to_string(),
            habitat: None,
            description: None,
            country_of_origin: None,
            date_of_birth: None,
        },
        is_active: true,
    };
    t.insert(row(5, "E")).unwrap();
    t.insert(row(2, "B")).unwrap();
    t.insert(row(9, "I")).unwrap();
    let ids: Vec<i32> = t.list().iter().map(|a| a.animal_id).collect();
    assert_eq!(ids, vec![2, 5, 9]);
}

#[test]
fn adding_leo_to_a_populated_table_takes_the_next_id_and_lists_last() {
    let mut t = AnimalTable::new();
    t.create(&payload("Rex", "Dog")).unwrap();
    t.create(&payload("Milo", "Cat")).unwrap();
    let created = t.create(&payload("Leo", "Lion")).unwrap();
    assert_eq!(created.animal_id, 3);
    assert_eq!(created.habitat, None);
    assert_eq!(created.description, None);
    assert_eq!(created.country_of_origin, None);
    assert_eq!(created.date_of_birth, None);
    let l = t.list();
    assert_eq!(l.last().unwrap().animal_id, 3);
    assert_eq!(l.last().unwrap().name, "Leo");
}

#[test]
fn create_fails_when_the_id_range_is_exhausted() {
    let mut t = AnimalTable::new();
    let row = AnimalRow {
        animal: Animal {
            animal_id: i32::MAX,
            name: "Last".to_string(),
            specie: "Tortoise".to_string(),
            habitat: None,
            description: None,
            country_of_origin: None,
            date_of_birth: None,
        },
        is_active: true,
    };
    t.insert(row).unwrap();
    let e = t.create(&payload("One", "More")).unwrap_err();
    assert_eq!(e.status(), 500);
    assert_eq!(e.message(), "ID query error: next id out of range");
    assert_eq!(t.len(), 1);
}

#[test]
fn next_id_follows_the_stored_maximum_even_when_negative() {
    let mut t = AnimalTable::new();
    let row = AnimalRow {
        animal: Animal {
            animal_id: -5,
            name: "Old".to_string(),
            specie: "Owl".to_string(),
            habitat: None,
            description: None,
            country_of_origin: None,
            date_of_birth: None,
        },
        is_active: true,
    };
    t.insert(row).unwrap();
    let a = t.create(&payload("New", "Newt")).unwrap();
    assert_eq!(a.animal_id, -4);
}
