//! Verified core of a zoo-inventory service: entity models, date
//! normalization, id allocation, CRUD semantics over a table model, and
//! error classification. Network and database glue lives outside.

pub mod search;
pub mod text;
pub mod date;
pub mod error;
pub mod models;
pub mod animals;
pub mod cares;
pub mod animal_cares;
pub mod db;
