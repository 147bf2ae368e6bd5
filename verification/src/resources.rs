//! The resource database and its loader.

pub mod database;
pub mod laws;
pub mod loader;
