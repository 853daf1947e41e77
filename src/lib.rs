//! Guardian-based social recovery: an account registers a set of guardians
//! and a threshold once; later a quorum of those guardians can approve the
//! replacement of the account's key through a recovery session.

pub mod errors;
pub mod lemmas;
pub mod model;
pub mod registry;
pub mod seq_util;

pub use errors::GuardianError;
pub use model::Account;
pub use registry::GuardianRegistry;
