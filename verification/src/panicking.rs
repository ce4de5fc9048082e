//! The cell that answers a conflicting borrow with an error, and its guards.

pub use crate::cell::GdCell;
pub use crate::guards::{InaccessibleGuard, MutGuard, RefGuard};
