//! The cell that makes a conflicting borrow wait.
//!
//! It is the cell of [`crate::cell`] with a queue of waiters in front of it.
//! A request that cannot be granted is not refused: the one who asked is put
//! at the back of the queue and told to suspend. Whenever something changes,
//! those who wait ask again, and the request at the head of the queue is
//! granted as soon as the transition table allows it. Nobody is granted
//! access past a waiter, so whoever waits is served in the order of arrival.
//!
//! The cell decides; it does not sleep or wake anybody. The caller holds the
//! lock around each call, suspends on `Suspended`, and wakes the waiters
//! whenever a call says so.

use vstd::prelude::*;
use crate::blocking_guards::{
    MutGuardBlocking,
    MutGuardBlockingView,
    RefGuardBlocking,
    RefGuardBlockingView,
};
use crate::borrow_state::{BorrowError, BorrowView, Request};
use crate::cell::{GdCell, GdCellView};
use crate::guards::{InaccessibleGuard, InaccessibleGuardView, MutGuardView, RefGuardView};

verus! {

/// The kind of access that a waiter asks for.
#[derive(Copy, Clone, Debug, PartialEq, Eq, Structural)]
pub enum Access {
    /// Shared access.
    Shared,
    /// Exclusive access that is derived from no guard.
    Exclusive,
}

/// A request that waits to be granted.
#[derive(Copy, Clone, Debug, PartialEq, Eq, Structural)]
pub struct Waiter {
    /// The thread that asked.
    pub thread: u64,
    /// What it asked for.
    pub access: Access,
}

/// The answer to a request that may have to wait.
#[derive(Debug)]
pub enum Acquired<G> {
    /// The request is granted, and this is its guard.
    Granted(G),
    /// The request waits in the queue: suspend, and ask again when woken.
    Suspended,
}

/// The request that the transition table knows for a kind of access.
pub open spec fn request_for(access: Access) -> Request {
    match access {
        Access::Shared => Request::Shared,
        Access::Exclusive => Request::Exclusive,
    }
}

/// The place of the first occurrence of `waiter` in `waiters`, and the length
/// of `waiters` where it does not occur.
pub open spec fn first_index(waiters: Seq<Waiter>, waiter: Waiter) -> int
    decreases waiters.len(),
{
    if waiters.len() == 0 || waiters[0] == waiter {
        0
    } else {
        1 + first_index(waiters.drop_first(), waiter)
    }
}

/// The model of a [`GdCellBlocking`].
pub struct GdCellBlockingView<T> {
    /// The cell underneath.
    pub cell: GdCellView<T>,
    /// Those who wait, in the order in which they arrived.
    pub waiters: Seq<Waiter>,
}

impl<T> GdCellBlockingView<T> {
    /// Whether it is the turn of `waiter`: nobody waits, or it waits at the
    /// head of the queue.
    pub open spec fn turn(self, waiter: Waiter) -> bool {
        self.waiters.len() == 0 || self.waiters[0] == waiter
    }

    /// Whether the request of `waiter` is granted now: it is its turn and the
    /// transition table grants what it asks for.
    pub open spec fn admits(self, waiter: Waiter) -> bool {
        self.turn(waiter) && self.cell.borrows.grants(request_for(waiter.access))
    }

    /// The cell after the request of `waiter` was granted: the access is
    /// outstanding, and the head of the queue, if there was one, has left it.
    pub open spec fn admitted(self, waiter: Waiter) -> Self {
        GdCellBlockingView {
            cell: GdCellView {
                borrows: self.cell.borrows.after(request_for(waiter.access)),
                ..self.cell
            },
            waiters: if self.waiters.len() == 0 {
                self.waiters
            } else {
                self.waiters.drop_first()
            },
        }
    }

    /// The cell after the request of `waiter` was told to wait: it stands in
    /// the queue, at the back if it is new and where it was if not.
    pub open spec fn suspended(self, waiter: Waiter) -> Self {
        GdCellBlockingView {
            waiters: if self.waiters.contains(waiter) {
                self.waiters
            } else {
                self.waiters.push(waiter)
            },
            ..self
        }
    }

    /// The cell after `waiter` has asked, or asked again.
    pub open spec fn acquire(self, waiter: Waiter) -> Self {
        if self.admits(waiter) {
            self.admitted(waiter)
        } else {
            self.suspended(waiter)
        }
    }

    /// The cell after `waiter` has given up waiting: its first entry has left
    /// the queue and nothing else has changed.
    pub open spec fn cancelled(self, waiter: Waiter) -> Self {
        GdCellBlockingView {
            waiters: if self.waiters.contains(waiter) {
                self.waiters.remove(first_index(self.waiters, waiter))
            } else {
                self.waiters
            },
            ..self
        }
    }
}

/// Where `waiter` stands at `index` and nowhere before it, `index` is its
/// first place in the queue.
pub proof fn lemma_first_index(waiters: Seq<Waiter>, waiter: Waiter, index: int)
    requires
        0 <= index < waiters.len(),
        waiters[index] == waiter,
        forall|j: int| 0 <= j < index ==> waiters[j] != waiter,
    ensures
        first_index(waiters, waiter) == index,
    decreases index,
{
    if index > 0 {
        assert(waiters[0] != waiter);
        let rest = waiters.drop_first();
        assert forall|j: int| 0 <= j < index - 1 implies rest[j] != waiter by {
            assert(rest[j] == waiters[j + 1]);
        }
        lemma_first_index(rest, waiter, index - 1);
    }
}

/// The release that gives back what a waiter was granted.
pub open spec fn release_for(access: Access) -> Request {
    match access {
        Access::Shared => Request::ReleaseShared,
        Access::Exclusive => Request::ReleaseExclusive { slot: 0 },
    }
}

impl<T> GdCellBlockingView<T> {
    /// The cell after the head of the queue has asked again and has given
    /// back what it was granted.
    pub open spec fn served(self) -> Self {
        let granted = self.acquire(self.waiters[0]);
        GdCellBlockingView {
            cell: GdCellView {
                borrows: granted.cell.borrows.step(release_for(self.waiters[0].access)).0,
                ..granted.cell
            },
            ..granted
        }
    }

    /// The cell after the first `n` waiters were served, one after another.
    pub open spec fn served_first(self, n: nat) -> Self
        decreases n,
    {
        if n == 0 {
            self
        } else {
            self.served_first((n - 1) as nat).served()
        }
    }
}

/// A request changes the queue in one of three ways and no other: not at
/// all, by taking its head out, which is the request itself, or by putting
/// the request at its back. So nobody who waits is overtaken.
pub proof fn lemma_fifo<T>(cell: GdCellBlockingView<T>, waiter: Waiter)
    ensures
        cell.admits(waiter) && cell.waiters.len() > 0 ==> cell.waiters[0] == waiter
            && cell.acquire(waiter).waiters == cell.waiters.drop_first(),
        cell.admits(waiter) && cell.waiters.len() == 0 ==> cell.acquire(waiter).waiters
            == cell.waiters,
        !cell.admits(waiter) && cell.waiters.contains(waiter) ==> cell.acquire(waiter)
            == cell,
        !cell.admits(waiter) && !cell.waiters.contains(waiter) ==> cell.acquire(waiter).waiters
            == cell.waiters.push(waiter),
        cell.waiters.len() > 0 && cell.waiters[0] != waiter ==> !cell.admits(waiter),
{
}

/// While the value is shared no request for exclusive access is granted,
/// whoever asks, and while it is held exclusively no request of either kind
/// is. Once the cell is unborrowed, the request whose turn it is is granted.
pub proof fn lemma_conflict_suspends<T>(cell: GdCellBlockingView<T>, waiter: Waiter)
    requires
        cell.cell.borrows.wf(),
    ensures
        cell.cell.borrows is Shared && waiter.access == Access::Exclusive ==> !cell.admits(
            waiter,
        ),
        cell.cell.borrows is Exclusive ==> !cell.admits(waiter),
        cell.cell.borrows is Unborrowed && cell.turn(waiter) ==> cell.admits(waiter),
{
}

/// Serving the head of the queue of an unborrowed cell grants its request,
/// takes it out of the queue and leaves the cell unborrowed.
pub proof fn lemma_head_served<T>(cell: GdCellBlockingView<T>)
    requires
        cell.cell.borrows is Unborrowed,
        cell.waiters.len() > 0,
    ensures
        cell.admits(cell.waiters[0]),
        cell.served().cell == cell.cell,
        cell.served().waiters == cell.waiters.drop_first(),
{
}

/// Nobody waits for ever: where every access is given back in the end, the
/// waiters of an unborrowed cell are granted their requests one after
/// another in the order in which they arrived, until the queue is empty.
pub proof fn lemma_queue_drains<T>(cell: GdCellBlockingView<T>, n: nat)
    requires
        cell.cell.borrows is Unborrowed,
        n <= cell.waiters.len(),
    ensures
        cell.served_first(n).cell == cell.cell,
        cell.served_first(n).waiters == cell.waiters.skip(n as int),
        n < cell.waiters.len() ==> cell.served_first(n).admits(cell.waiters[n as int]),
        n == cell.waiters.len() ==> cell.served_first(n).waiters.len() == 0,
    decreases n,
{
    if n == 0 {
        assert(cell.waiters.skip(0) =~= cell.waiters);
    } else {
        let m = (n - 1) as nat;
        lemma_queue_drains(cell, m);
        let before = cell.served_first(m);
        lemma_head_served(before);
        assert(before.waiters.drop_first() =~= cell.waiters.skip(n as int));
    }
}

/// A value, the bookkeeping of its borrows, and the queue of those who wait
/// for access.
pub struct GdCellBlocking<T> {
    cell: GdCell<T>,
    waiters: Vec<Waiter>,
}

impl<T> View for GdCellBlocking<T> {
    type V = GdCellBlockingView<T>;

    closed spec fn view(&self) -> GdCellBlockingView<T> {
        GdCellBlockingView { cell: self.cell@, waiters: self.waiters@ }
    }
}

impl<T> GdCellBlocking<T> {
    /// A cell around `value` to which nothing has access yet and for which
    /// nobody waits. Its guards carry `id`, so give each cell a number of its
    /// own.
    pub fn new(id: u64, value: T) -> (cell: Self)
        ensures
            cell@ == (GdCellBlockingView {
                cell: GdCellView { id, value, borrows: BorrowView::Unborrowed },
                waiters: Seq::<Waiter>::empty(),
            }),
    {
        GdCellBlocking { cell: GdCell::new(id, value), waiters: Vec::new() }
    }

    /// The cell underneath.
    pub fn cell(&self) -> (cell: &GdCell<T>)
        ensures
            cell@ == self@.cell,
            self@.cell.borrows.wf(),
    {
        self.cell.state().assert_well_formed();
        &self.cell
    }

    /// The number of requests that wait.
    pub fn waiting(&self) -> (n: usize)
        ensures
            n == self@.waiters.len(),
    {
        self.waiters.len()
    }

    /// The waiter at `index` of the queue, if there is one. The head of the
    /// queue is at index 0.
    pub fn waiter(&self, index: usize) -> (waiter: Option<Waiter>)
        ensures
            waiter == if index < self@.waiters.len() {
                Some(self@.waiters[index as int])
            } else {
                None
            },
    {
        if index < self.waiters.len() {
            Some(self.waiters[index])
        } else {
            None
        }
    }

    /// Whether a request of `thread` for `access` waits in the queue.
    pub fn is_waiting(&self, thread: u64, access: Access) -> (b: bool)
        ensures
            b == self@.waiters.contains(Waiter { thread, access }),
    {
        let waiter = Waiter { thread, access };
        let mut i: usize = 0;
        while i < self.waiters.len()
            invariant
                i <= self.waiters.len(),
                waiter == (Waiter { thread, access }),
                forall|j: int| 0 <= j < i ==> self.waiters@[j] != waiter,
            decreases self.waiters.len() - i,
        {
            if self.waiters[i] == waiter {
                assert(self.waiters@[i as int] == waiter);
                return true;
            }
            i = i + 1;
        }
        false
    }

    /// Whether the request of `waiter` would be granted now.
    fn admits(&self, waiter: Waiter) -> (b: bool)
        ensures
            b == self@.admits(waiter),
            self@.cell.borrows.wf(),
    {
        let request = match waiter.access {
            Access::Shared => Request::Shared,
            Access::Exclusive => Request::Exclusive,
        };
        let turn = self.waiters.len() == 0 || self.waiters[0] == waiter;
        let granted = self.cell.state().grants(request);
        turn && granted
    }

    /// Takes the head of the queue out, if there is one.
    fn leave_head(&mut self)
        ensures
            final(self)@ == (GdCellBlockingView {
                waiters: if old(self)@.waiters.len() == 0 {
                    old(self)@.waiters
                } else {
                    old(self)@.waiters.drop_first()
                },
                ..old(self)@
            }),
    {
        if self.waiters.len() > 0 {
            self.waiters.remove(0);
            assert(self.waiters@ =~= old(self).waiters@.drop_first());
        }
    }

    /// Puts `waiter` at the back of the queue unless it stands in it.
    fn wait(&mut self, waiter: Waiter)
        ensures
            final(self)@ == old(self)@.suspended(waiter),
    {
        if !self.is_waiting(waiter.thread, waiter.access) {
            self.waiters.push(waiter);
        }
    }

    /// Asks for shared access on behalf of `thread`, for the first time or
    /// again after a wake-up. The request is granted where it is its turn
    /// and the cell is unborrowed or shared; otherwise it waits in the queue.
    pub fn borrow(&mut self, thread: u64) -> (result: Acquired<RefGuardBlocking>)
        ensures
            final(self)@ == old(self)@.acquire(Waiter { thread, access: Access::Shared }),
            final(self)@.cell.borrows.wf(),
            match result {
                Acquired::Granted(guard) => {
                    &&& old(self)@.admits(Waiter { thread, access: Access::Shared })
                    &&& guard@ == (RefGuardBlockingView {
                        guard: RefGuardView { cell: old(self)@.cell.id, live: true },
                        thread,
                    })
                },
                Acquired::Suspended => !old(self)@.admits(
                    Waiter { thread, access: Access::Shared },
                ),
            },
    {
        let waiter = Waiter { thread, access: Access::Shared };
        if self.admits(waiter) {
            self.leave_head();
            match self.cell.borrow() {
                Ok(guard) => Acquired::Granted(RefGuardBlocking::issue(guard, thread)),
                Err(_) => Acquired::Suspended,
            }
        } else {
            self.wait(waiter);
            Acquired::Suspended
        }
    }

    /// Asks for exclusive access on behalf of `thread`, for the first time
    /// or again after a wake-up. The request is granted where it is its turn
    /// and the cell is unborrowed; otherwise it waits in the queue.
    pub fn borrow_mut(&mut self, thread: u64) -> (result: Acquired<MutGuardBlocking>)
        ensures
            final(self)@ == old(self)@.acquire(Waiter { thread, access: Access::Exclusive }),
            final(self)@.cell.borrows.wf(),
            match result {
                Acquired::Granted(guard) => {
                    &&& old(self)@.admits(Waiter { thread, access: Access::Exclusive })
                    &&& guard@ == (MutGuardBlockingView {
                        guard: MutGuardView { cell: old(self)@.cell.id, slot: 0, live: true },
                        thread,
                    })
                    &&& final(self)@.cell.accessible(guard@.guard)
                },
                Acquired::Suspended => !old(self)@.admits(
                    Waiter { thread, access: Access::Exclusive },
                ),
            },
    {
        let waiter = Waiter { thread, access: Access::Exclusive };
        if self.admits(waiter) {
            self.leave_head();
            match self.cell.borrow_mut() {
                Ok(guard) => Acquired::Granted(MutGuardBlocking::issue(guard, thread)),
                Err(_) => Acquired::Suspended,
            }
        } else {
            self.wait(waiter);
            Acquired::Suspended
        }
    }

    /// Asks for exclusive access derived from `current`, on behalf of
    /// `thread`.
    ///
    /// Where `thread` is the thread that `current` was granted to, the
    /// request never waits: if `current` is the accessible guard of this cell
    /// it is granted at once, whoever stands in the queue, and otherwise it
    /// is refused with `StaleGuardReentry`. On a grant the record of
    /// `current` is demoted and the answer holds the guard of the new record
    /// and what stands for the demoted one.
    ///
    /// A request of any other thread is an ordinary request for exclusive
    /// access, as [`GdCellBlocking::borrow_mut`] answers it; nothing is
    /// demoted by it.
    pub fn borrow_mut_reentrant(&mut self, thread: u64, current: &MutGuardBlocking) -> (result:
        Result<Acquired<(MutGuardBlocking, Option<InaccessibleGuard>)>, BorrowError>)
        ensures
            final(self)@.cell.borrows.wf(),
            current@.thread == thread && old(self)@.cell.accessible(current@.guard) ==> {
                &&& final(self)@ == (GdCellBlockingView {
                    cell: GdCellView {
                        borrows: old(self)@.cell.borrows.after(
                            Request::Reentrant { slot: current@.guard.slot },
                        ),
                        ..old(self)@.cell
                    },
                    ..old(self)@
                })
                &&& result matches Ok(Acquired::Granted((guard, Some(demoted))))
                &&& guard@ == (MutGuardBlockingView {
                    guard: MutGuardView {
                        cell: old(self)@.cell.id,
                        slot: (current@.guard.slot + 1) as usize,
                        live: true,
                    },
                    thread,
                })
                &&& demoted@ == (InaccessibleGuardView {
                    cell: old(self)@.cell.id,
                    slot: current@.guard.slot,
                })
                &&& final(self)@.cell.accessible(guard@.guard)
                &&& final(self)@.cell.demoted(current@.guard)
            },
            current@.thread == thread && !old(self)@.cell.accessible(current@.guard) ==> {
                &&& result matches Err(error)
                &&& error == BorrowError::StaleGuardReentry
                &&& final(self)@ == old(self)@
            },
            current@.thread != thread ==> {
                &&& final(self)@ == old(self)@.acquire(
                    Waiter { thread, access: Access::Exclusive },
                )
                &&& match result {
                    Ok(Acquired::Granted((guard, demoted))) => {
                        &&& old(self)@.admits(Waiter { thread, access: Access::Exclusive })
                        &&& guard@ == (MutGuardBlockingView {
                            guard: MutGuardView {
                                cell: old(self)@.cell.id,
                                slot: 0,
                                live: true,
                            },
                            thread,
                        })
                        &&& demoted is None
                        &&& final(self)@.cell.accessible(guard@.guard)
                    },
                    Ok(Acquired::Suspended) => !old(self)@.admits(
                        Waiter { thread, access: Access::Exclusive },
                    ),
                    Err(_) => false,
                }
            },
    {
        if current.thread() != thread {
            return match self.borrow_mut(thread) {
                Acquired::Granted(guard) => Ok(Acquired::Granted((guard, None))),
                Acquired::Suspended => Ok(Acquired::Suspended),
            };
        }
        match self.cell.borrow_mut_reentrant(current.inner()) {
            Ok((guard, demoted)) => Ok(
                Acquired::Granted((MutGuardBlocking::issue(guard, thread), Some(demoted))),
            ),
            Err(error) => Err(error),
        }
    }

    /// Asks for shared access on behalf of `thread` without ever waiting.
    /// The request is granted where nobody waits and the cell is unborrowed
    /// or shared. Otherwise it is refused as a conflict, and nothing changes.
    pub fn try_borrow(&mut self, thread: u64) -> (result: Result<RefGuardBlocking, BorrowError>)
        ensures
            final(self)@.cell.borrows.wf(),
            match result {
                Ok(guard) => {
                    &&& old(self)@.waiters.len() == 0
                    &&& old(self)@.cell.borrows.grants(Request::Shared)
                    &&& final(self)@ == old(self)@.admitted(
                        Waiter { thread, access: Access::Shared },
                    )
                    &&& guard@ == (RefGuardBlockingView {
                        guard: RefGuardView { cell: old(self)@.cell.id, live: true },
                        thread,
                    })
                },
                Err(error) => {
                    &&& !(old(self)@.waiters.len() == 0 && old(self)@.cell.borrows.grants(
                        Request::Shared,
                    ))
                    &&& error == BorrowError::BorrowConflict
                    &&& final(self)@ == old(self)@
                },
            },
    {
        if self.waiters.len() > 0 {
            self.cell.state().assert_well_formed();
            return Err(BorrowError::BorrowConflict);
        }
        match self.cell.borrow() {
            Ok(guard) => Ok(RefGuardBlocking::issue(guard, thread)),
            Err(error) => Err(error),
        }
    }

    /// Asks for exclusive access on behalf of `thread` without ever waiting.
    /// The request is granted where nobody waits and the cell is unborrowed.
    /// Otherwise it is refused as a conflict, and nothing changes.
    pub fn try_borrow_mut(&mut self, thread: u64) -> (result: Result<
        MutGuardBlocking,
        BorrowError,
    >)
        ensures
            final(self)@.cell.borrows.wf(),
            match result {
                Ok(guard) => {
                    &&& old(self)@.waiters.len() == 0
                    &&& old(self)@.cell.borrows is Unborrowed
                    &&& final(self)@ == old(self)@.admitted(
                        Waiter { thread, access: Access::Exclusive },
                    )
                    &&& guard@ == (MutGuardBlockingView {
                        guard: MutGuardView { cell: old(self)@.cell.id, slot: 0, live: true },
                        thread,
                    })
                    &&& final(self)@.cell.accessible(guard@.guard)
                },
                Err(error) => {
                    &&& !(old(self)@.waiters.len() == 0 && old(self)@.cell.borrows is Unborrowed)
                    &&& error == BorrowError::BorrowConflict
                    &&& final(self)@ == old(self)@
                },
            },
    {
        if self.waiters.len() > 0 {
            self.cell.state().assert_well_formed();
            return Err(BorrowError::BorrowConflict);
        }
        match self.cell.borrow_mut() {
            Ok(guard) => Ok(MutGuardBlocking::issue(guard, thread)),
            Err(error) => Err(error),
        }
    }

    /// Takes a request that waits out of the queue: the first entry of
    /// `thread` for `access` leaves it, the borrows stay as they are, and
    /// the answer says whether there was such an entry. Where there was one,
    /// wake those who wait: the head of the queue may have changed.
    pub fn cancel(&mut self, thread: u64, access: Access) -> (found: bool)
        ensures
            final(self)@ == old(self)@.cancelled(Waiter { thread, access }),
            found == old(self)@.waiters.contains(Waiter { thread, access }),
    {
        let waiter = Waiter { thread, access };
        let mut i: usize = 0;
        while i < self.waiters.len()
            invariant
                i <= self.waiters.len(),
                waiter == (Waiter { thread, access }),
                *self == *old(self),
                forall|j: int| 0 <= j < i ==> self.waiters@[j] != waiter,
            decreases self.waiters.len() - i,
        {
            if self.waiters[i] == waiter {
                proof {
                    assert(self.waiters@[i as int] == waiter);
                    lemma_first_index(self.waiters@, waiter, i as int);
                }
                self.waiters.remove(i);
                return true;
            }
            i = i + 1;
        }
        false
    }

    /// Gives a shared guard back. The borrows and the guard change as
    /// [`GdCell::release`] says, and the queue stays as it is. The answer is
    /// `Ok(true)` where an access ended, and then those who wait are to be
    /// woken; it is `Ok(false)` for a guard that was released before.
    pub fn release(&mut self, guard: &mut RefGuardBlocking) -> (result: Result<bool, BorrowError>)
        ensures
            final(self)@.cell.borrows.wf(),
            !old(guard)@.guard.live ==> {
                &&& result == Ok::<bool, BorrowError>(false)
                &&& final(self)@ == old(self)@
                &&& final(guard)@ == old(guard)@
            },
            old(self)@.cell.holds_shared(old(guard)@.guard) ==> {
                &&& result == Ok::<bool, BorrowError>(true)
                &&& final(self)@ == (GdCellBlockingView {
                    cell: GdCellView {
                        borrows: old(self)@.cell.borrows.after(Request::ReleaseShared),
                        ..old(self)@.cell
                    },
                    ..old(self)@
                })
                &&& final(guard)@ == (RefGuardBlockingView {
                    guard: RefGuardView { live: false, ..old(guard)@.guard },
                    ..old(guard)@
                })
            },
            old(guard)@.guard.live && !old(self)@.cell.holds_shared(old(guard)@.guard) ==> {
                &&& result == Err::<bool, BorrowError>(BorrowError::InaccessibleAccess)
                &&& final(self)@ == old(self)@
                &&& final(guard)@ == old(guard)@
            },
    {
        let was_live = guard.is_live();
        match self.cell.release(guard.inner_mut()) {
            Ok(()) => Ok(was_live),
            Err(error) => Err(error),
        }
    }

    /// Gives an exclusive guard back. The borrows and the guard change as
    /// [`GdCell::release_mut`] says, and the queue stays as it is. The answer
    /// is `Ok(true)` where an access ended, and then those who wait are to be
    /// woken; it is `Ok(false)` for a guard that was released before.
    pub fn release_mut(&mut self, guard: &mut MutGuardBlocking) -> (result: Result<
        bool,
        BorrowError,
    >)
        ensures
            final(self)@.cell.borrows.wf(),
            !old(guard)@.guard.live ==> {
                &&& result == Ok::<bool, BorrowError>(false)
                &&& final(self)@ == old(self)@
                &&& final(guard)@ == old(guard)@
            },
            old(self)@.cell.accessible(old(guard)@.guard) ==> {
                &&& result == Ok::<bool, BorrowError>(true)
                &&& final(self)@ == (GdCellBlockingView {
                    cell: GdCellView {
                        borrows: old(self)@.cell.borrows.after(
                            Request::ReleaseExclusive { slot: old(guard)@.guard.slot },
                        ),
                        ..old(self)@.cell
                    },
                    ..old(self)@
                })
                &&& final(guard)@ == (MutGuardBlockingView {
                    guard: MutGuardView { live: false, ..old(guard)@.guard },
                    ..old(guard)@
                })
            },
            old(guard)@.guard.live && !old(self)@.cell.accessible(old(guard)@.guard) ==> {
                &&& result == Err::<bool, BorrowError>(BorrowError::InaccessibleAccess)
                &&& final(self)@ == old(self)@
                &&& final(guard)@ == old(guard)@
            },
    {
        let was_live = guard.is_live();
        match self.cell.release_mut(guard.inner_mut()) {
            Ok(()) => Ok(was_live),
            Err(error) => Err(error),
        }
    }

    /// Reads the value through a shared guard, as [`GdCell::get`] does.
    pub fn get(&self, guard: &RefGuardBlocking) -> (result: Result<&T, BorrowError>)
        ensures
            result == if self@.cell.holds_shared(guard@.guard) {
                Ok::<&T, BorrowError>(&self@.cell.value)
            } else {
                Err::<&T, BorrowError>(BorrowError::InaccessibleAccess)
            },
    {
        self.cell.get(guard.inner())
    }

    /// Reads the value through an exclusive guard, as
    /// [`GdCell::get_exclusive`] does.
    pub fn get_exclusive(&self, guard: &MutGuardBlocking) -> (result: Result<&T, BorrowError>)
        ensures
            result == if self@.cell.accessible(guard@.guard) {
                Ok::<&T, BorrowError>(&self@.cell.value)
            } else {
                Err::<&T, BorrowError>(BorrowError::InaccessibleAccess)
            },
    {
        self.cell.get_exclusive(guard.inner())
    }

    /// Reaches for the value through what stands for a demoted guard, which
    /// always fails.
    pub fn get_inaccessible(&self, guard: &InaccessibleGuard) -> (result: Result<&T, BorrowError>)
        ensures
            result == Err::<&T, BorrowError>(BorrowError::InaccessibleAccess),
    {
        self.cell.get_inaccessible(guard)
    }

    /// Reaches the value for writing through an exclusive guard, as
    /// [`GdCell::get_mut`] does. The borrows and the queue stay as they are.
    pub fn get_mut(&mut self, guard: &MutGuardBlocking) -> (result: Result<&mut T, BorrowError>)
        ensures
            match result {
                Ok(value) => {
                    &&& old(self)@.cell.accessible(guard@.guard)
                    &&& *value == old(self)@.cell.value
                    &&& final(self)@ == (GdCellBlockingView {
                        cell: GdCellView { value: *final(value), ..old(self)@.cell },
                        ..old(self)@
                    })
                },
                Err(error) => {
                    &&& !old(self)@.cell.accessible(guard@.guard)
                    &&& error == BorrowError::InaccessibleAccess
                    &&& final(self)@ == old(self)@
                },
            },
    {
        self.cell.get_mut(guard.inner())
    }
}

} // verus!
