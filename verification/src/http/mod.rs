//! The HTTP layer: what each request is answered.

pub mod auth;
pub mod projects;
pub mod status;
pub mod tasks;
pub mod transaction;
