//! Laws of the library as a whole.
//!
//! Most speak of a transcript and of a history of databases that it is faithful
//! to (see [`crate::tables`]).

pub mod columns;
pub mod cycle;
pub mod failures;
pub mod models;
pub mod projects;
pub mod requests;
pub mod rows;
pub mod sync;
pub mod tasks;
