//! The cell that makes a conflicting borrow wait, and its guards.

pub use crate::blocking_cell::GdCellBlocking as GdCell;
pub use crate::blocking_guards::{MutGuardBlocking as MutGuard, RefGuardBlocking as RefGuard};
pub use crate::guards::InaccessibleGuard;
