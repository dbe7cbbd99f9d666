//! What the routes decide, apart from the I/O around them.

pub mod auth;
pub mod user;
