//! A cell that checks borrows at run time and lets an exclusive borrow be
//! taken again through the guard that holds it, together with a few small
//! parts of the object model around it.
//!
//! [`panicking`] names the cell that answers a conflicting borrow with an
//! error at once; [`blocking`] names the cell that makes it wait. Both rest
//! on the transition table of [`borrow_state`].
//!
//! [`derive_godot_class`] works out what the class derive generates for a
//! struct, from the declaration that [`declaration`] holds as plain values
//! and the keys and values that [`util`] reads from its attributes.

pub mod blocking;
pub mod blocking_cell;
pub mod blocking_guards;
pub mod borrow_state;
pub mod cell;
pub mod declaration;
pub mod derive_godot_class;
pub mod guards;
pub mod panicking;
pub mod util;
pub mod vector3_axis;
