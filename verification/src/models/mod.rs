//! The application's models.

pub mod user;
