//! The two record types and the client-supplied forms they are made from.

pub mod dept;
pub mod emp;
