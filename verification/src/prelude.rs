//! The capabilities of a quantum state and the error that their
//! operations report.
pub use crate::state::StateErr;
pub use crate::state::StateMut;
pub use crate::state::StateRef;
