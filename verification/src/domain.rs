//! Value objects, entities, repository contracts and the two domain services.

pub mod entities;
pub mod repositories;
pub mod services;
pub mod sheet_schema;
pub mod value_objects;
