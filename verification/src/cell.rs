//! The cell that refuses a conflicting borrow at once.
//!
//! The cell owns a value and the bookkeeping of its borrows. It hands out
//! guards by the transition table of [`crate::borrow_state`], and the value
//! is reached by showing a guard to the cell. A request that conflicts with
//! the access that is outstanding is answered with an error, there and then.

use vstd::prelude::*;
use crate::borrow_state::{
    lemma_accessible_iff_top,
    lemma_release_restores,
    lemma_run_wf,
    lemma_step_wf,
    BorrowError,
    BorrowState,
    BorrowView,
    Request,
};
use crate::guards::{
    InaccessibleGuard,
    InaccessibleGuardView,
    MutGuard,
    MutGuardView,
    RefGuard,
    RefGuardView,
};

verus! {

/// The model of a [`GdCell`].
pub struct GdCellView<T> {
    /// The name by which the cell's guards are told from those of other cells.
    pub id: u64,
    /// The value that the cell owns.
    pub value: T,
    /// Which access to the value is outstanding.
    pub borrows: BorrowView,
}

impl<T> GdCellView<T> {
    /// Whether `guard` is an unreleased shared guard of this cell.
    pub open spec fn holds_shared(self, guard: RefGuardView) -> bool {
        guard.live && guard.cell == self.id && self.borrows is Shared
    }

    /// Whether `guard` is an unreleased exclusive guard of this cell, be it
    /// accessible or demoted.
    pub open spec fn holds_exclusive(self, guard: MutGuardView) -> bool {
        guard.live && guard.cell == self.id && guard.slot < self.borrows.depth()
    }

    /// Whether `guard` is the one guard through which the value can be
    /// changed: an unreleased guard of this cell whose record is on top of the
    /// stack.
    pub open spec fn accessible(self, guard: MutGuardView) -> bool {
        guard.live && guard.cell == self.id && self.borrows.is_top(guard.slot as int)
    }

    /// Whether `guard` is an unreleased guard of this cell that a nested
    /// borrow has demoted.
    pub open spec fn demoted(self, guard: MutGuardView) -> bool {
        self.holds_exclusive(guard) && !self.accessible(guard)
    }
}

/// In a cell at most one exclusive guard is accessible, and none is while a
/// shared guard is held.
pub proof fn lemma_one_accessible_guard<T>(
    cell: GdCellView<T>,
    first: MutGuardView,
    second: MutGuardView,
    shared: RefGuardView,
)
    ensures
        cell.accessible(first) && cell.accessible(second) ==> first == second,
        cell.accessible(first) ==> !cell.holds_shared(shared),
{
}

/// A nested borrow through the accessible guard demotes that guard and no
/// other and makes the new guard the accessible one. Releasing the new guard
/// gives the cell back as it was, with the demoted guard accessible again.
pub proof fn lemma_reentry_round_trip<T>(cell: GdCellView<T>, outer: MutGuardView)
    requires
        cell.borrows.wf(),
        cell.accessible(outer),
        outer.slot < usize::MAX,
    ensures
        ({
            let inner = MutGuardView {
                cell: cell.id,
                slot: (outer.slot + 1) as usize,
                live: true,
            };
            let nested = GdCellView {
                borrows: cell.borrows.after(Request::Reentrant { slot: outer.slot }),
                ..cell
            };
            let back = GdCellView {
                borrows: nested.borrows.after(Request::ReleaseExclusive { slot: inner.slot }),
                ..nested
            };
            &&& cell.borrows.grants(Request::Reentrant { slot: outer.slot })
            &&& nested.borrows.wf()
            &&& nested.accessible(inner)
            &&& nested.demoted(outer)
            &&& forall|other: MutGuardView|
                cell.demoted(other) ==> #[trigger] nested.demoted(other)
            &&& nested.borrows.grants(Request::ReleaseExclusive { slot: inner.slot })
            &&& back == cell
            &&& back.accessible(outer)
        }),
{
    lemma_release_restores(cell.borrows, outer.slot);
    lemma_step_wf(cell.borrows, Request::Reentrant { slot: outer.slot });
}

/// A guard whose record lies below the top of the stack gives no access,
/// whatever was requested of the cell in between, and its record is marked
/// inaccessible.
pub proof fn lemma_demoted_gives_no_access<T>(
    cell: GdCellView<T>,
    requests: Seq<Request>,
    guard: MutGuardView,
)
    requires
        cell.borrows.wf(),
        guard.slot + 1 < cell.borrows.run(requests).depth(),
    ensures
        !(GdCellView { borrows: cell.borrows.run(requests), ..cell }).accessible(guard),
        !cell.borrows.run(requests)->Exclusive_0[guard.slot as int].accessible,
{
    lemma_run_wf(cell.borrows, requests);
    lemma_accessible_iff_top(cell.borrows.run(requests), guard.slot as int);
}

/// A value together with the bookkeeping of its borrows.
pub struct GdCell<T> {
    id: u64,
    value: T,
    state: BorrowState,
}

impl<T> View for GdCell<T> {
    type V = GdCellView<T>;

    closed spec fn view(&self) -> GdCellView<T> {
        GdCellView { id: self.id, value: self.value, borrows: self.state@ }
    }
}

impl<T> GdCell<T> {
    /// A cell around `value` to which nothing has access yet. Its guards
    /// carry `id`, so give each cell a number of its own.
    pub fn new(id: u64, value: T) -> (cell: Self)
        ensures
            cell@ == (GdCellView { id, value, borrows: BorrowView::Unborrowed }),
    {
        GdCell { id, value, state: BorrowState::new() }
    }

    /// The name by which the cell's guards are told from those of other cells.
    pub fn id(&self) -> (id: u64)
        ensures
            id == self@.id,
    {
        self.id
    }

    /// The bookkeeping of the cell's borrows.
    pub fn state(&self) -> (state: &BorrowState)
        ensures
            state@ == self@.borrows,
            self@.borrows.wf(),
    {
        self.state.assert_well_formed();
        &self.state
    }

    /// Asks for shared access. It is granted where the cell is unborrowed or
    /// shared, and refused as a conflict where exclusive access is
    /// outstanding or the count of shared guards cannot grow.
    pub fn borrow(&mut self) -> (result: Result<RefGuard, BorrowError>)
        ensures
            final(self)@ == (GdCellView {
                borrows: old(self)@.borrows.step(Request::Shared).0,
                ..old(self)@
            }),
            final(self)@.borrows.wf(),
            match result {
                Ok(guard) => {
                    &&& old(self)@.borrows.grants(Request::Shared)
                    &&& guard@ == (RefGuardView { cell: old(self)@.id, live: true })
                },
                Err(error) => {
                    &&& !old(self)@.borrows.grants(Request::Shared)
                    &&& error == BorrowError::BorrowConflict
                },
            },
    {
        match self.state.apply(Request::Shared) {
            Ok(()) => Ok(RefGuard::issue(self.id)),
            Err(error) => Err(error),
        }
    }

    /// Asks for exclusive access that is derived from no guard. It is granted
    /// where the cell is unborrowed and refused as a conflict otherwise.
    pub fn borrow_mut(&mut self) -> (result: Result<MutGuard, BorrowError>)
        ensures
            final(self)@ == (GdCellView {
                borrows: old(self)@.borrows.step(Request::Exclusive).0,
                ..old(self)@
            }),
            final(self)@.borrows.wf(),
            match result {
                Ok(guard) => {
                    &&& old(self)@.borrows is Unborrowed
                    &&& guard@ == (MutGuardView { cell: old(self)@.id, slot: 0, live: true })
                    &&& final(self)@.accessible(guard@)
                },
                Err(error) => {
                    &&& !(old(self)@.borrows is Unborrowed)
                    &&& error == BorrowError::BorrowConflict
                },
            },
    {
        match self.state.apply(Request::Exclusive) {
            Ok(()) => Ok(MutGuard::issue(self.id, 0)),
            Err(error) => Err(error),
        }
    }

    /// Asks for exclusive access derived from `current`. Where `current` is
    /// the accessible guard of this cell, the request is granted: the record
    /// of `current` is demoted, a new record is put on top of it, and the
    /// answer holds the guard of the new record and what stands for the
    /// demoted one. Otherwise nothing changes and the answer is
    /// `StaleGuardReentry`.
    pub fn borrow_mut_reentrant(&mut self, current: &MutGuard) -> (result: Result<
        (MutGuard, InaccessibleGuard),
        BorrowError,
    >)
        ensures
            final(self)@.borrows.wf(),
            match result {
                Ok((guard, demoted)) => {
                    &&& old(self)@.accessible(current@)
                    &&& final(self)@ == (GdCellView {
                        borrows: old(self)@.borrows.after(
                            Request::Reentrant { slot: current@.slot },
                        ),
                        ..old(self)@
                    })
                    &&& guard@ == (MutGuardView {
                        cell: old(self)@.id,
                        slot: (current@.slot + 1) as usize,
                        live: true,
                    })
                    &&& demoted@ == (InaccessibleGuardView {
                        cell: old(self)@.id,
                        slot: current@.slot,
                    })
                    &&& final(self)@.accessible(guard@)
                    &&& final(self)@.demoted(current@)
                },
                Err(error) => {
                    &&& !old(self)@.accessible(current@)
                    &&& final(self)@ == old(self)@
                    &&& error == BorrowError::StaleGuardReentry
                },
            },
    {
        if !current.is_live() || current.cell() != self.id {
            self.state.assert_well_formed();
            return Err(BorrowError::StaleGuardReentry);
        }
        let slot: usize = current.slot();
        match self.state.apply(Request::Reentrant { slot }) {
            Ok(()) => {
                let top: usize = self.state.depth() - 1;
                Ok((MutGuard::issue(self.id, top), InaccessibleGuard::issue(self.id, slot)))
            },
            Err(error) => Err(error),
        }
    }

    /// Reads the value through a shared guard. It succeeds for every
    /// unreleased shared guard of this cell and for no other guard.
    pub fn get(&self, guard: &RefGuard) -> (result: Result<&T, BorrowError>)
        ensures
            result == if self@.holds_shared(guard@) {
                Ok::<&T, BorrowError>(&self@.value)
            } else {
                Err::<&T, BorrowError>(BorrowError::InaccessibleAccess)
            },
    {
        if guard.is_live() && guard.cell() == self.id && self.state.shared_count() > 0 {
            Ok(&self.value)
        } else {
            Err(BorrowError::InaccessibleAccess)
        }
    }

    /// Reads the value through an exclusive guard. It succeeds for the
    /// accessible guard of this cell and for no other: not for a demoted
    /// guard, a released one or one of another cell.
    pub fn get_exclusive(&self, guard: &MutGuard) -> (result: Result<&T, BorrowError>)
        ensures
            result == if self@.accessible(guard@) {
                Ok::<&T, BorrowError>(&self@.value)
            } else {
                Err::<&T, BorrowError>(BorrowError::InaccessibleAccess)
            },
    {
        if guard.is_live() && guard.cell() == self.id && self.state.grants(
            Request::ReleaseExclusive { slot: guard.slot() },
        ) {
            Ok(&self.value)
        } else {
            Err(BorrowError::InaccessibleAccess)
        }
    }

    /// Reaches for the value through what stands for a demoted guard, which
    /// always fails.
    pub fn get_inaccessible(&self, guard: &InaccessibleGuard) -> (result: Result<&T, BorrowError>)
        ensures
            result == Err::<&T, BorrowError>(BorrowError::InaccessibleAccess),
    {
        Err(BorrowError::InaccessibleAccess)
    }

    /// Reaches the value for writing through an exclusive guard. It succeeds
    /// for the accessible guard of this cell and for no other. The borrows
    /// stay as they are; the value becomes whatever is written through the
    /// reference.
    pub fn get_mut(&mut self, guard: &MutGuard) -> (result: Result<&mut T, BorrowError>)
        ensures
            match result {
                Ok(value) => {
                    &&& old(self)@.accessible(guard@)
                    &&& *value == old(self)@.value
                    &&& final(self)@ == (GdCellView { value: *final(value), ..old(self)@ })
                },
                Err(error) => {
                    &&& !old(self)@.accessible(guard@)
                    &&& error == BorrowError::InaccessibleAccess
                    &&& final(self)@ == old(self)@
                },
            },
    {
        if guard.is_live() && guard.cell() == self.id && self.state.grants(
            Request::ReleaseExclusive { slot: guard.slot() },
        ) {
            Ok(&mut self.value)
        } else {
            Err(BorrowError::InaccessibleAccess)
        }
    }

    /// Gives a shared guard back. For an unreleased shared guard of this cell
    /// the count of shared guards goes down by one, to unborrowed from one,
    /// and the guard becomes inert. A guard that was released before is left
    /// alone, and so is the cell. Any other guard is refused with
    /// `InaccessibleAccess`, and nothing changes.
    pub fn release(&mut self, guard: &mut RefGuard) -> (result: Result<(), BorrowError>)
        ensures
            final(self)@.borrows.wf(),
            !old(guard)@.live ==> {
                &&& result is Ok
                &&& final(self)@ == old(self)@
                &&& final(guard)@ == old(guard)@
            },
            old(self)@.holds_shared(old(guard)@) ==> {
                &&& result is Ok
                &&& final(self)@ == (GdCellView {
                    borrows: old(self)@.borrows.after(Request::ReleaseShared),
                    ..old(self)@
                })
                &&& final(guard)@ == (RefGuardView { live: false, ..old(guard)@ })
            },
            old(guard)@.live && !old(self)@.holds_shared(old(guard)@) ==> {
                &&& result == Err::<(), BorrowError>(BorrowError::InaccessibleAccess)
                &&& final(self)@ == old(self)@
                &&& final(guard)@ == old(guard)@
            },
    {
        if !guard.is_live() {
            self.state.assert_well_formed();
            return Ok(());
        }
        if guard.cell() != self.id {
            self.state.assert_well_formed();
            return Err(BorrowError::InaccessibleAccess);
        }
        match self.state.apply(Request::ReleaseShared) {
            Ok(()) => {
                guard.retire();
                Ok(())
            },
            Err(error) => Err(error),
        }
    }

    /// Gives an exclusive guard back. For the accessible guard of this cell
    /// its record leaves the stack, the record below it, if there is one,
    /// becomes accessible again, and the guard becomes inert. A guard that
    /// was released before is left alone, and so is the cell. Any other
    /// guard, a demoted one among them, is refused with `InaccessibleAccess`,
    /// and nothing changes.
    pub fn release_mut(&mut self, guard: &mut MutGuard) -> (result: Result<(), BorrowError>)
        ensures
            final(self)@.borrows.wf(),
            !old(guard)@.live ==> {
                &&& result is Ok
                &&& final(self)@ == old(self)@
                &&& final(guard)@ == old(guard)@
            },
            old(self)@.accessible(old(guard)@) ==> {
                &&& result is Ok
                &&& final(self)@ == (GdCellView {
                    borrows: old(self)@.borrows.after(
                        Request::ReleaseExclusive { slot: old(guard)@.slot },
                    ),
                    ..old(self)@
                })
                &&& final(guard)@ == (MutGuardView { live: false, ..old(guard)@ })
            },
            old(guard)@.live && !old(self)@.accessible(old(guard)@) ==> {
                &&& result == Err::<(), BorrowError>(BorrowError::InaccessibleAccess)
                &&& final(self)@ == old(self)@
                &&& final(guard)@ == old(guard)@
            },
    {
        if !guard.is_live() {
            self.state.assert_well_formed();
            return Ok(());
        }
        if guard.cell() != self.id {
            self.state.assert_well_formed();
            return Err(BorrowError::InaccessibleAccess);
        }
        match self.state.apply(Request::ReleaseExclusive { slot: guard.slot() }) {
            Ok(()) => {
                guard.retire();
                Ok(())
            },
            Err(error) => Err(error),
        }
    }
}

} // verus!
