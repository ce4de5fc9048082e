//! The guards that a cell hands out.
//!
//! A guard is a token: it names the cell that issued it and, for exclusive
//! access, the record of the cell's stack that stands for it. It does not own
//! the cell and holds no reference to the value; the value is reached by
//! showing the guard to the cell. Guards cannot be copied, and only a cell
//! makes them.

use vstd::prelude::*;

verus! {

/// The model of a [`RefGuard`].
pub struct RefGuardView {
    /// The cell that issued the guard.
    pub cell: u64,
    /// Whether the guard has not been released yet.
    pub live: bool,
}

/// The model of a [`MutGuard`].
pub struct MutGuardView {
    /// The cell that issued the guard.
    pub cell: u64,
    /// The place of the guard's record in the cell's stack.
    pub slot: usize,
    /// Whether the guard has not been released yet.
    pub live: bool,
}

/// The model of an [`InaccessibleGuard`].
pub struct InaccessibleGuardView {
    /// The cell that issued the guard.
    pub cell: u64,
    /// The place of the demoted record in the cell's stack.
    pub slot: usize,
}

/// A grant of shared access.
#[derive(Debug)]
pub struct RefGuard {
    cell: u64,
    live: bool,
}

/// A grant of exclusive access.
///
/// While a guard derived from it is outstanding it is demoted: it keeps its
/// record in the cell's stack and gives no access to the value.
#[derive(Debug)]
pub struct MutGuard {
    cell: u64,
    slot: usize,
    live: bool,
}

/// What stands for a [`MutGuard`] that a nested borrow has demoted. It never
/// gives access to the value.
#[derive(Debug)]
pub struct InaccessibleGuard {
    cell: u64,
    slot: usize,
}

impl View for RefGuard {
    type V = RefGuardView;

    closed spec fn view(&self) -> RefGuardView {
        RefGuardView { cell: self.cell, live: self.live }
    }
}

impl View for MutGuard {
    type V = MutGuardView;

    closed spec fn view(&self) -> MutGuardView {
        MutGuardView { cell: self.cell, slot: self.slot, live: self.live }
    }
}

impl View for InaccessibleGuard {
    type V = InaccessibleGuardView;

    closed spec fn view(&self) -> InaccessibleGuardView {
        InaccessibleGuardView { cell: self.cell, slot: self.slot }
    }
}

impl RefGuard {
    pub(crate) fn issue(cell: u64) -> (guard: Self)
        ensures
            guard@ == (RefGuardView { cell, live: true }),
    {
        RefGuard { cell, live: true }
    }

    pub(crate) fn retire(&mut self)
        ensures
            final(self)@ == (RefGuardView { live: false, ..old(self)@ }),
    {
        self.live = false;
    }

    /// The cell that issued the guard.
    pub fn cell(&self) -> (cell: u64)
        ensures
            cell == self@.cell,
    {
        self.cell
    }

    /// Whether the guard has not been released yet.
    pub fn is_live(&self) -> (live: bool)
        ensures
            live == self@.live,
    {
        self.live
    }
}

impl MutGuard {
    pub(crate) fn issue(cell: u64, slot: usize) -> (guard: Self)
        ensures
            guard@ == (MutGuardView { cell, slot, live: true }),
    {
        MutGuard { cell, slot, live: true }
    }

    pub(crate) fn retire(&mut self)
        ensures
            final(self)@ == (MutGuardView { live: false, ..old(self)@ }),
    {
        self.live = false;
    }

    /// The cell that issued the guard.
    pub fn cell(&self) -> (cell: u64)
        ensures
            cell == self@.cell,
    {
        self.cell
    }

    /// The place of the guard's record in the cell's stack.
    pub fn slot(&self) -> (slot: usize)
        ensures
            slot == self@.slot,
    {
        self.slot
    }

    /// Whether the guard has not been released yet.
    pub fn is_live(&self) -> (live: bool)
        ensures
            live == self@.live,
    {
        self.live
    }
}

impl InaccessibleGuard {
    pub(crate) fn issue(cell: u64, slot: usize) -> (guard: Self)
        ensures
            guard@ == (InaccessibleGuardView { cell, slot }),
    {
        InaccessibleGuard { cell, slot }
    }

    /// The cell that issued the guard.
    pub fn cell(&self) -> (cell: u64)
        ensures
            cell == self@.cell,
    {
        self.cell
    }

    /// The place of the demoted record in the cell's stack.
    pub fn slot(&self) -> (slot: usize)
        ensures
            slot == self@.slot,
    {
        self.slot
    }
}

} // verus!
