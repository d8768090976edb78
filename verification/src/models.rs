use vstd::prelude::*;
use crate::date::{Date, opt_str_view};

verus! {

/// An animal of the inventory, as stored.
#[derive(Debug, PartialEq)]
pub struct Animal {
    pub animal_id: i32,
    pub name: String,
    pub specie: String,
    pub habitat: Option<String>,
    pub description: Option<String>,
    pub country_of_origin: Option<String>,
    pub date_of_birth: Option<Date>,
}

/// The abstract value of an `Animal`.
pub struct AnimalV {
    pub animal_id: int,
    pub name: Seq<char>,
    pub specie: Seq<char>,
    pub habitat: Option<Seq<char>>,
    pub description: Option<Seq<char>>,
    pub country_of_origin: Option<Seq<char>>,
    pub date_of_birth: Option<Date>,
}

impl View for Animal {
    type V = AnimalV;

    open spec fn view(&self) -> AnimalV {
        AnimalV {
            animal_id: self.animal_id as int,
            name: self.name@,
            specie: self.specie@,
            habitat: opt_str_view(self.habitat),
            description: opt_str_view(self.description),
            country_of_origin: opt_str_view(self.country_of_origin),
            date_of_birth: self.date_of_birth,
        }
    }
}

impl DeepView for Animal {
    type V = AnimalV;

    open spec fn deep_view(&self) -> AnimalV {
        self.view()
    }
}

/// The payload of a request to create an animal; date fields are free-form
/// text.
#[derive(Debug)]
pub struct CreateAnimal {
    pub name: String,
    pub specie: String,
    pub habitat: Option<String>,
    pub description: Option<String>,
    pub country_of_origin: Option<String>,
    pub date_of_birth: Option<String>,
}

/// The abstract value of a `CreateAnimal`.
pub struct CreateAnimalV {
    pub name: Seq<char>,
    pub specie: Seq<char>,
    pub habitat: Option<Seq<char>>,
    pub description: Option<Seq<char>>,
    pub country_of_origin: Option<Seq<char>>,
    pub date_of_birth: Option<Seq<char>>,
}

impl View for CreateAnimal {
    type V = CreateAnimalV;

    open spec fn view(&self) -> CreateAnimalV {
        CreateAnimalV {
            name: self.name@,
            specie: self.specie@,
            habitat: opt_str_view(self.habitat),
            description: opt_str_view(self.description),
            country_of_origin: opt_str_view(self.country_of_origin),
            date_of_birth: opt_str_view(self.date_of_birth),
        }
    }
}

/// The payload of a partial animal update: absent fields keep their stored
/// value.
#[derive(Debug)]
pub struct UpdateAnimal {
    pub name: Option<String>,
    pub specie: Option<String>,
    pub habitat: Option<String>,
    pub description: Option<String>,
    pub country_of_origin: Option<String>,
    pub date_of_birth: Option<String>,
}

/// The abstract value of an `UpdateAnimal`.
pub struct UpdateAnimalV {
    pub name: Option<Seq<char>>,
    pub specie: Option<Seq<char>>,
    pub habitat: Option<Seq<char>>,
    pub description: Option<Seq<char>>,
    pub country_of_origin: Option<Seq<char>>,
    pub date_of_birth: Option<Seq<char>>,
}

impl View for UpdateAnimal {
    type V = UpdateAnimalV;

    open spec fn view(&self) -> UpdateAnimalV {
        UpdateAnimalV {
            name: opt_str_view(self.name),
            specie: opt_str_view(self.specie),
            habitat: opt_str_view(self.habitat),
            description: opt_str_view(self.description),
            country_of_origin: opt_str_view(self.country_of_origin),
            date_of_birth: opt_str_view(self.date_of_birth),
        }
    }
}

/// A kind of care that the zoo can schedule, as stored.
#[derive(Debug, PartialEq)]
pub struct Care {
    pub cares_id: i32,
    pub type_of_care: String,
    pub frequency: String,
    pub description: Option<String>,
}

/// The abstract value of a `Care`.
pub struct CareV {
    pub cares_id: int,
    pub type_of_care: Seq<char>,
    pub frequency: Seq<char>,
    pub description: Option<Seq<char>>,
}

impl View for Care {
    type V = CareV;

    open spec fn view(&self) -> CareV {
        CareV {
            cares_id: self.cares_id as int,
            type_of_care: self.type_of_care@,
            frequency: self.frequency@,
            description: opt_str_view(self.description),
        }
    }
}

impl DeepView for Care {
    type V = CareV;

    open spec fn deep_view(&self) -> CareV {
        self.view()
    }
}

/// The payload of a request to create a care.
#[derive(Debug)]
pub struct CreateCare {
    pub type_of_care: String,
    pub frequency: String,
    pub description: Option<String>,
}

/// The abstract value of a `CreateCare`.
pub struct CreateCareV {
    pub type_of_care: Seq<char>,
    pub frequency: Seq<char>,
    pub description: Option<Seq<char>>,
}

impl View for CreateCare {
    type V = CreateCareV;

    open spec fn view(&self) -> CreateCareV {
        CreateCareV {
            type_of_care: self.type_of_care@,
            frequency: self.frequency@,
            description: opt_str_view(self.description),
        }
    }
}

/// The payload of a care update: both required fields are always
/// supplied; the description is merged, kept when absent.
#[derive(Debug)]
pub struct UpdateCrare {
    pub type_of_care: String,
    pub frequency: String,
    pub description: Option<String>,
}

/// The abstract value of an `UpdateCrare`.
pub struct UpdateCrareV {
    pub type_of_care: Seq<char>,
    pub frequency: Seq<char>,
    pub description: Option<Seq<char>>,
}

impl View for UpdateCrare {
    type V = UpdateCrareV;

    open spec fn view(&self) -> UpdateCrareV {
        UpdateCrareV {
            type_of_care: self.type_of_care@,
            frequency: self.frequency@,
            description: opt_str_view(self.description),
        }
    }
}

/// One scheduled or performed care for one animal, as stored.
#[derive(Debug, PartialEq)]
pub struct AnimalCare {
    pub animal_care_id: i32,
    pub date_of_care: Option<Date>,
    pub fk_cares_cares_id: i32,
    pub fk_animal_animal_id: i32,
}

/// The abstract value of an `AnimalCare`.
pub struct AnimalCareV {
    pub animal_care_id: int,
    pub date_of_care: Option<Date>,
    pub fk_cares_cares_id: int,
    pub fk_animal_animal_id: int,
}

impl View for AnimalCare {
    type V = AnimalCareV;

    open spec fn view(&self) -> AnimalCareV {
        AnimalCareV {
            animal_care_id: self.animal_care_id as int,
            date_of_care: self.date_of_care,
            fk_cares_cares_id: self.fk_cares_cares_id as int,
            fk_animal_animal_id: self.fk_animal_animal_id as int,
        }
    }
}

impl DeepView for AnimalCare {
    type V = AnimalCareV;

    open spec fn deep_view(&self) -> AnimalCareV {
        self.view()
    }
}

/// The payload of a request to relate an animal and a care; the date is
/// free-form text.
#[derive(Debug)]
pub struct CreateAnimalCare {
    pub date_of_care: Option<String>,
    pub fk_cares_cares_id: i32,
    pub fk_animal_animal_id: i32,
}

/// The abstract value of a `CreateAnimalCare`.
pub struct CreateAnimalCareV {
    pub date_of_care: Option<Seq<char>>,
    pub fk_cares_cares_id: int,
    pub fk_animal_animal_id: int,
}

impl View for CreateAnimalCare {
    type V = CreateAnimalCareV;

    open spec fn view(&self) -> CreateAnimalCareV {
        CreateAnimalCareV {
            date_of_care: opt_str_view(self.date_of_care),
            fk_cares_cares_id: self.fk_cares_cares_id as int,
            fk_animal_animal_id: self.fk_animal_animal_id as int,
        }
    }
}

/// The payload of an animal-care update; the relation offers no update
/// operation today, but the shape is part of the public surface.
#[derive(Debug)]
pub struct UpdateAnimalCare {
    pub date_of_care: Option<String>,
    pub fk_cares_cares_id: i32,
    pub fk_animal_animal_id: i32,
}

/// Clones an optional string, keeping its abstract value.
pub fn clone_opt_string(s: &Option<String>) -> (r: Option<String>)
    ensures
        opt_str_view(r) == opt_str_view(*s),
{
    match s {
        None => None,
        Some(t) => Some(t.clone()),
    }
}

/// Clones an animal, keeping its abstract value.
pub fn clone_animal(a: &Animal) -> (r: Animal)
    ensures
        r@ == a@,
{
    Animal {
        animal_id: a.animal_id,
        name: a.name.clone(),
        specie: a.specie.clone(),
        habitat: clone_opt_string(&a.habitat),
        description: clone_opt_string(&a.description),
        country_of_origin: clone_opt_string(&a.country_of_origin),
        date_of_birth: a.date_of_birth,
    }
}

/// Clones a care, keeping its abstract value.
pub fn clone_care(c: &Care) -> (r: Care)
    ensures
        r@ == c@,
{
    Care {
        cares_id: c.cares_id,
        type_of_care: c.type_of_care.clone(),
        frequency: c.frequency.clone(),
        description: clone_opt_string(&c.description),
    }
}

/// Clones an animal-care relation, keeping its abstract value.
pub fn clone_animal_care(c: &AnimalCare) -> (r: AnimalCare)
    ensures
        r@ == c@,
{
    AnimalCare {
        animal_care_id: c.animal_care_id,
        date_of_care: c.date_of_care,
        fk_cares_cares_id: c.fk_cares_cares_id,
        fk_animal_animal_id: c.fk_animal_animal_id,
    }
}

} // verus!
