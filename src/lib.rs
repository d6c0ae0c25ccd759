//! Builds a single bodyweight workout session from a user profile and an
//! exercise catalogue, within a time budget and under safety exclusions.
pub mod exercise;
pub mod laws;
pub mod profile;
pub mod program;
pub mod session;

pub use exercise::Exercise;
pub use profile::Profile;
pub use program::ProgramBuilder;
pub use session::{CompletedSession, SessionPlan};
