//! Bounded WebAssembly tools with attenuated grants, durable effect identity,
//! lease-fenced workers and explicit uncertainty.
pub mod bytes;
pub mod control;
pub mod domain;
pub mod encoding;
pub mod ids;
pub mod names;
pub mod runtime;
pub mod store;
pub mod text;
