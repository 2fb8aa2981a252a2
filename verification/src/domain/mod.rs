//! Pure rules shared by the control plane, the store and the execution boundary.
pub mod grants;
pub mod hash;
pub mod limits;
pub mod state;
pub mod types;
