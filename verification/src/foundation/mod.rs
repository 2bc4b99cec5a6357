//! The application: its base path and its service providers, and the order
//! in which their lifecycle hooks run.

pub mod application;
