//! The logic of an HTTP server over the SQLite database of my-task.
//!
//! Every function here is verified. What a function asks of the database, and
//! what it makes of the replies, is stated over the transcript of a
//! [`session::Session`]. What that means for the contents of the tables is
//! stated by the laws in [`laws`].

pub mod api_client;
pub mod config;
pub mod date;
pub mod effects;
pub mod error;
pub mod http;
pub mod json;
pub mod laws;
pub mod model;
pub mod ngrok;
pub mod server;
pub mod session;
pub mod sql;
pub mod sqlite;
pub mod statement;
pub mod sync_engine;
pub mod sync_state;
pub mod tables;
pub mod text;
