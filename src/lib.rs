//! A personal inventory catalogue: containers (storage locations) and items
//! stored in them, and the resolution of a user-supplied name or identifier to
//! exactly one record.

pub mod ids;
pub mod time;
pub mod error;
pub mod locator;
pub mod useful;
pub mod models;
pub mod cli;
pub mod data;
pub mod db;
pub mod document;
