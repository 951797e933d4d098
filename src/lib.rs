//! Departments and their employees: field validation, the referential
//! integrity rules between the two, the orchestration of each write, and the
//! error taxonomy with its HTTP status mapping.

pub mod entities;
pub mod error;
pub mod guard;
pub mod laws;
pub mod samples;
pub mod store;
pub mod text;
pub mod validate;
