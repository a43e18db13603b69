//! A single shared, authority-gated game session.
//!
//! An authority starts and ends matches; participants submit scores while a
//! match is active. The store tracks per-match scores, picks a single winner
//! when the match ends (ties go to the earliest submitter), and keeps
//! cumulative win counts per account across matches.

pub mod laws;
pub mod model;
pub mod store;
pub mod types;

pub use model::StoreModel;
pub use store::Module;
pub use types::GameError;
pub use types::GameEvent;
pub use types::GameState;
pub use types::Origin;
