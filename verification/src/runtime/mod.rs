//! The guest runtime: what a module may be, what it may ask of the host, and
//! how a worker supervises it.
pub mod abi;
pub mod engine;
pub mod ipc;
pub mod runner;
pub mod supervisor;
pub mod validate;
pub mod wasm;
