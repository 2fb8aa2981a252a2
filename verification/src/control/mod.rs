//! The control plane: configuration, credentials, and what each request is
//! answered.
pub mod api;
pub mod auth;
pub mod config;
pub mod grants;
pub mod scheduler;
pub mod server;
