//! The guards that a blocking cell hands out.
//!
//! They are the guards of [`crate::guards`] together with the thread that
//! they were granted to, taken down when the guard is made.

use vstd::prelude::*;
use crate::guards::{MutGuard, MutGuardView, RefGuard, RefGuardView};

verus! {

/// The model of a [`RefGuardBlocking`].
pub struct RefGuardBlockingView {
    /// The guard of the cell underneath.
    pub guard: RefGuardView,
    /// The thread that the guard was granted to.
    pub thread: u64,
}

/// The model of a [`MutGuardBlocking`].
pub struct MutGuardBlockingView {
    /// The guard of the cell underneath.
    pub guard: MutGuardView,
    /// The thread that the guard was granted to.
    pub thread: u64,
}

/// A grant of shared access to the value of a blocking cell.
#[derive(Debug)]
pub struct RefGuardBlocking {
    guard: RefGuard,
    thread: u64,
}

/// A grant of exclusive access to the value of a blocking cell.
#[derive(Debug)]
pub struct MutGuardBlocking {
    guard: MutGuard,
    thread: u64,
}

impl View for RefGuardBlocking {
    type V = RefGuardBlockingView;

    closed spec fn view(&self) -> RefGuardBlockingView {
        RefGuardBlockingView { guard: self.guard@, thread: self.thread }
    }
}

impl View for MutGuardBlocking {
    type V = MutGuardBlockingView;

    closed spec fn view(&self) -> MutGuardBlockingView {
        MutGuardBlockingView { guard: self.guard@, thread: self.thread }
    }
}

impl RefGuardBlocking {
    pub(crate) fn issue(guard: RefGuard, thread: u64) -> (issued: Self)
        ensures
            issued@ == (RefGuardBlockingView { guard: guard@, thread }),
    {
        RefGuardBlocking { guard, thread }
    }

    pub(crate) fn inner(&self) -> (guard: &RefGuard)
        ensures
            guard@ == self@.guard,
    {
        &self.guard
    }

    pub(crate) fn inner_mut(&mut self) -> (guard: &mut RefGuard)
        ensures
            guard@ == old(self)@.guard,
            final(self)@ == (RefGuardBlockingView { guard: final(guard)@, ..old(self)@ }),
    {
        &mut self.guard
    }

    /// The thread that the guard was granted to.
    pub fn thread(&self) -> (thread: u64)
        ensures
            thread == self@.thread,
    {
        self.thread
    }

    /// Whether the guard has not been released yet.
    pub fn is_live(&self) -> (live: bool)
        ensures
            live == self@.guard.live,
    {
        self.guard.is_live()
    }
}

impl MutGuardBlocking {
    pub(crate) fn issue(guard: MutGuard, thread: u64) -> (issued: Self)
        ensures
            issued@ == (MutGuardBlockingView { guard: guard@, thread }),
    {
        MutGuardBlocking { guard, thread }
    }

    pub(crate) fn inner(&self) -> (guard: &MutGuard)
        ensures
            guard@ == self@.guard,
    {
        &self.guard
    }

    pub(crate) fn inner_mut(&mut self) -> (guard: &mut MutGuard)
        ensures
            guard@ == old(self)@.guard,
            final(self)@ == (MutGuardBlockingView { guard: final(guard)@, ..old(self)@ }),
    {
        &mut self.guard
    }

    /// The thread that the guard was granted to.
    pub fn thread(&self) -> (thread: u64)
        ensures
            thread == self@.thread,
    {
        self.thread
    }

    /// The place of the guard's record in the cell's stack.
    pub fn slot(&self) -> (slot: usize)
        ensures
            slot == self@.guard.slot,
    {
        self.guard.slot()
    }

    /// Whether the guard has not been released yet.
    pub fn is_live(&self) -> (live: bool)
        ensures
            live == self@.guard.live,
    {
        self.guard.is_live()
    }
}

} // verus!
