//! The bookkeeping of a cell: which access to the value is outstanding.
//!
//! A cell is unborrowed, shared by a number of readers, or held exclusively
//! by a stack of borrow records of which only the topmost is accessible. The
//! rules by which a request changes that are written once, as the function
//! [`BorrowView::step`] on the mathematical model, and carried out by
//! [`BorrowState::apply`].

use vstd::prelude::*;

verus! {

/// Why a request or the use of a guard was refused.
#[derive(Copy, Clone, Debug, PartialEq, Eq, Structural)]
pub enum BorrowError {
    /// The access that was asked for cannot be granted beside the access
    /// that is outstanding.
    BorrowConflict,
    /// The guard that was used gives no access to the value at this moment.
    InaccessibleAccess,
    /// The guard that was presented for a nested exclusive borrow is not the
    /// accessible guard on top of the cell's stack.
    StaleGuardReentry,
}

/// One outstanding grant of exclusive access.
#[derive(Copy, Clone, Debug, PartialEq, Eq, Structural)]
pub struct BorrowRecord {
    /// Whether the guard of this record may reach the value.
    pub accessible: bool,
}

/// What can be asked of the bookkeeping.
#[derive(Copy, Clone, Debug, PartialEq, Eq, Structural)]
pub enum Request {
    /// Shared access.
    Shared,
    /// Exclusive access that is not derived from any guard.
    Exclusive,
    /// Exclusive access derived from the guard of the record at `slot`.
    Reentrant { slot: usize },
    /// The end of one shared access.
    ReleaseShared,
    /// The end of the exclusive access of the record at `slot`.
    ReleaseExclusive { slot: usize },
}

/// The mathematical model of the bookkeeping.
pub enum BorrowView {
    /// No access is outstanding.
    Unborrowed,
    /// So many shared accesses are outstanding.
    Shared(nat),
    /// The records of the outstanding exclusive accesses, oldest first.
    Exclusive(Seq<BorrowRecord>),
}

/// The number of records in `stack` that are accessible.
pub open spec fn count_accessible(stack: Seq<BorrowRecord>) -> nat
    decreases stack.len(),
{
    if stack.len() == 0 {
        0
    } else {
        count_accessible(stack.drop_last()) + if stack.last().accessible {
            1nat
        } else {
            0nat
        }
    }
}

/// `stack` with its topmost record made inaccessible and a new accessible
/// record put on top of it.
pub open spec fn push_nested(stack: Seq<BorrowRecord>) -> Seq<BorrowRecord> {
    stack.update(stack.len() - 1, BorrowRecord { accessible: false }).push(
        BorrowRecord { accessible: true },
    )
}

/// `stack` without its topmost record, and with the record below that one
/// made accessible.
pub open spec fn pop_nested(stack: Seq<BorrowRecord>) -> Seq<BorrowRecord> {
    stack.drop_last().update(stack.len() - 2, BorrowRecord { accessible: true })
}

impl BorrowView {
    /// What always holds of the bookkeeping: a shared count is never zero, a
    /// stack is never empty, and of its records exactly the topmost is
    /// accessible.
    pub open spec fn wf(self) -> bool {
        match self {
            BorrowView::Unborrowed => true,
            BorrowView::Shared(n) => 1 <= n <= usize::MAX,
            BorrowView::Exclusive(stack) => {
                &&& stack.len() >= 1
                &&& forall|i: int|
                    0 <= i < stack.len() ==> (#[trigger] stack[i]).accessible == (i == stack.len()
                        - 1)
            },
        }
    }

    /// The number of shared accesses that are outstanding.
    pub open spec fn shared_count(self) -> nat {
        match self {
            BorrowView::Shared(n) => n,
            _ => 0,
        }
    }

    /// The number of exclusive accesses that are outstanding.
    pub open spec fn depth(self) -> nat {
        match self {
            BorrowView::Exclusive(stack) => stack.len(),
            _ => 0,
        }
    }

    /// The number of exclusive accesses that are outstanding and accessible.
    pub open spec fn accessible_count(self) -> nat {
        match self {
            BorrowView::Exclusive(stack) => count_accessible(stack),
            _ => 0,
        }
    }

    /// Whether the record at `slot` is the accessible one on top of the stack.
    pub open spec fn is_top(self, slot: int) -> bool {
        self is Exclusive && slot == self.depth() - 1
    }

    /// Whether `request` is granted in this state.
    pub open spec fn grants(self, request: Request) -> bool {
        match request {
            Request::Shared => self is Unborrowed || (self is Shared && self.shared_count()
                < usize::MAX),
            Request::Exclusive => self is Unborrowed,
            Request::Reentrant { slot } => self.is_top(slot as int),
            Request::ReleaseShared => self is Shared,
            Request::ReleaseExclusive { slot } => self.is_top(slot as int),
        }
    }

    /// What `request` is refused with where it is not granted.
    pub open spec fn refusal(request: Request) -> BorrowError {
        match request {
            Request::Shared => BorrowError::BorrowConflict,
            Request::Exclusive => BorrowError::BorrowConflict,
            Request::Reentrant { .. } => BorrowError::StaleGuardReentry,
            Request::ReleaseShared => BorrowError::InaccessibleAccess,
            Request::ReleaseExclusive { .. } => BorrowError::InaccessibleAccess,
        }
    }

    /// The state that follows when `request` is granted in this state.
    pub open spec fn after(self, request: Request) -> BorrowView {
        match request {
            Request::Shared => BorrowView::Shared(self.shared_count() + 1),
            Request::Exclusive => BorrowView::Exclusive(seq![BorrowRecord { accessible: true }]),
            Request::Reentrant { .. } => BorrowView::Exclusive(push_nested(self->Exclusive_0)),
            Request::ReleaseShared => if self.shared_count() == 1 {
                BorrowView::Unborrowed
            } else {
                BorrowView::Shared((self.shared_count() - 1) as nat)
            },
            Request::ReleaseExclusive { .. } => if self.depth() == 1 {
                BorrowView::Unborrowed
            } else {
                BorrowView::Exclusive(pop_nested(self->Exclusive_0))
            },
        }
    }

    /// The transition table: the state that follows `request` and how the
    /// request is answered. A request that is refused leaves the state as it
    /// was.
    pub open spec fn step(self, request: Request) -> (BorrowView, Result<(), BorrowError>) {
        if self.grants(request) {
            (self.after(request), Ok(()))
        } else {
            (self, Err(Self::refusal(request)))
        }
    }

    /// The state after the requests of `requests`, one after another.
    pub open spec fn run(self, requests: Seq<Request>) -> BorrowView
        decreases requests.len(),
    {
        if requests.len() == 0 {
            self
        } else {
            self.run(requests.drop_last()).step(requests.last()).0
        }
    }
}

/// So many requests for shared access.
pub open spec fn shared_requests(n: nat) -> Seq<Request> {
    Seq::new(n, |i: int| Request::Shared)
}

/// So many releases of shared access.
pub open spec fn shared_releases(n: nat) -> Seq<Request> {
    Seq::new(n, |i: int| Request::ReleaseShared)
}

/// A request for exclusive access and then requests for `n - 1` nested ones,
/// each derived from the guard that the request before it was granted.
pub open spec fn nested_requests(n: nat) -> Seq<Request> {
    Seq::new(
        n,
        |i: int|
            if i == 0 {
                Request::Exclusive
            } else {
                Request::Reentrant { slot: (i - 1) as usize }
            },
    )
}

/// The releases of `n` nested exclusive accesses, innermost first.
pub open spec fn nested_releases(n: nat) -> Seq<Request> {
    Seq::new(n, |i: int| Request::ReleaseExclusive { slot: (n - 1 - i) as usize })
}

/// The stack of `n` nested exclusive accesses.
pub open spec fn nested_stack(n: nat) -> Seq<BorrowRecord> {
    Seq::new(n, |i: int| BorrowRecord { accessible: i == n - 1 })
}

/// The state in which `n` shared accesses are outstanding.
pub open spec fn shared_state(n: nat) -> BorrowView {
    if n == 0 {
        BorrowView::Unborrowed
    } else {
        BorrowView::Shared(n)
    }
}

/// The state in which `n` nested exclusive accesses are outstanding.
pub open spec fn nested_state(n: nat) -> BorrowView {
    if n == 0 {
        BorrowView::Unborrowed
    } else {
        BorrowView::Exclusive(nested_stack(n))
    }
}

proof fn lemma_count_none(stack: Seq<BorrowRecord>)
    requires
        forall|i: int| 0 <= i < stack.len() ==> !(#[trigger] stack[i]).accessible,
    ensures
        count_accessible(stack) == 0,
    decreases stack.len(),
{
    if stack.len() > 0 {
        lemma_count_none(stack.drop_last());
    }
}

/// A request leaves a well-formed state well formed, be it granted or
/// refused.
pub proof fn lemma_step_wf(state: BorrowView, request: Request)
    requires
        state.wf(),
    ensures
        state.step(request).0.wf(),
{
}

/// Whatever is requested, in whatever order, a well-formed state stays well
/// formed.
pub proof fn lemma_run_wf(state: BorrowView, requests: Seq<Request>)
    requires
        state.wf(),
    ensures
        state.run(requests).wf(),
    decreases requests.len(),
{
    if requests.len() > 0 {
        lemma_run_wf(state, requests.drop_last());
        lemma_step_wf(state.run(requests.drop_last()), requests.last());
    }
}

/// In a well-formed state exactly one exclusive access is accessible where
/// any is outstanding, and none is where the value is shared or unborrowed.
pub proof fn lemma_exclusion(state: BorrowView)
    requires
        state.wf(),
    ensures
        state.accessible_count() == if state is Exclusive {
            1nat
        } else {
            0nat
        },
        state.shared_count() > 0 ==> state.accessible_count() == 0,
{
    if let BorrowView::Exclusive(stack) = state {
        lemma_count_none(stack.drop_last());
    }
}

/// On one cell, whatever is requested and released in whatever order, at
/// most one exclusive guard is accessible at any time, and never one while a
/// shared guard is outstanding.
pub proof fn lemma_one_accessible_guard(requests: Seq<Request>)
    ensures
        BorrowView::Unborrowed.run(requests).accessible_count() <= 1,
        !(BorrowView::Unborrowed.run(requests).accessible_count() >= 1
            && BorrowView::Unborrowed.run(requests).shared_count() >= 1),
{
    lemma_run_wf(BorrowView::Unborrowed, requests);
    lemma_exclusion(BorrowView::Unborrowed.run(requests));
}

/// A nested request that presents the record on top of the stack is always
/// granted. It demotes that record and no other, and puts one accessible
/// record on top.
pub proof fn lemma_reentrant_demotes_presented(state: BorrowView, slot: usize)
    requires
        state.wf(),
        state.is_top(slot as int),
    ensures
        state.step(Request::Reentrant { slot }).1 is Ok,
        state.step(Request::Reentrant { slot }).0 is Exclusive,
        ({
            let before = state->Exclusive_0;
            let after = state.step(Request::Reentrant { slot }).0->Exclusive_0;
            &&& after.len() == before.len() + 1
            &&& before[slot as int].accessible
            &&& !after[slot as int].accessible
            &&& after[slot + 1].accessible
            &&& forall|i: int| 0 <= i < before.len() && i != slot ==> after[i] == before[i]
        }),
{
}

/// Releasing a nested exclusive access restores the state in which it was
/// asked for: the record that was demoted is accessible again, and every
/// other record is as it was.
pub proof fn lemma_release_restores(state: BorrowView, slot: usize)
    requires
        state.wf(),
        state.is_top(slot as int),
        slot < usize::MAX,
    ensures
        state.step(Request::Reentrant { slot }).0.step(
            Request::ReleaseExclusive { slot: (slot + 1) as usize },
        ) == (state, Ok::<(), BorrowError>(())),
{
    let stack = state->Exclusive_0;
    assert(pop_nested(push_nested(stack)) =~= stack);
}

/// A record below the top of the stack is inaccessible, in every
/// well-formed state, and the record on top is accessible.
pub proof fn lemma_accessible_iff_top(state: BorrowView, slot: int)
    requires
        state.wf(),
        0 <= slot < state.depth(),
    ensures
        state->Exclusive_0[slot].accessible == state.is_top(slot),
{
}

/// Running two runs of requests one after the other is running them as one.
pub proof fn lemma_run_concat(state: BorrowView, first: Seq<Request>, second: Seq<Request>)
    ensures
        state.run(first + second) == state.run(first).run(second),
    decreases second.len(),
{
    if second.len() == 0 {
        assert(first + second =~= first);
    } else {
        assert((first + second).drop_last() =~= first + second.drop_last());
        assert((first + second).last() == second.last());
        lemma_run_concat(state, first, second.drop_last());
    }
}

/// From an unborrowed cell, `n` requests for shared access are all granted,
/// and `n` shared accesses are then outstanding.
pub proof fn lemma_shared_acquired(n: nat)
    requires
        n <= usize::MAX,
    ensures
        BorrowView::Unborrowed.run(shared_requests(n)) == shared_state(n),
        forall|i: int|
            0 <= i < n ==> (#[trigger] BorrowView::Unborrowed.run(
                shared_requests(n).take(i),
            )).grants(Request::Shared),
    decreases n,
{
    if n > 0 {
        let m = (n - 1) as nat;
        lemma_shared_acquired(m);
        assert(shared_requests(n).drop_last() =~= shared_requests(m));
        assert forall|i: int| 0 <= i < n implies (#[trigger] BorrowView::Unborrowed.run(
            shared_requests(n).take(i),
        )).grants(Request::Shared) by {
            if i < m {
                assert(shared_requests(n).take(i) =~= shared_requests(m).take(i));
            } else {
                assert(shared_requests(n).take(i) =~= shared_requests(m));
            }
        }
    }
}

/// Releasing `k` of `n` outstanding shared accesses leaves `n - k` of them.
pub proof fn lemma_shared_released(n: nat, k: nat)
    requires
        k <= n <= usize::MAX,
    ensures
        shared_state(n).run(shared_releases(k)) == shared_state((n - k) as nat),
    decreases k,
{
    if k > 0 {
        let j = (k - 1) as nat;
        lemma_shared_released(n, j);
        assert(shared_releases(k).drop_last() =~= shared_releases(j));
    }
}

/// For every `n`, taking `n` shared accesses from an unborrowed cell and
/// releasing all of them leaves the cell unborrowed.
pub proof fn lemma_shared_round_trip(n: nat)
    requires
        n <= usize::MAX,
    ensures
        BorrowView::Unborrowed.run(shared_requests(n) + shared_releases(n))
            == BorrowView::Unborrowed,
{
    lemma_run_concat(BorrowView::Unborrowed, shared_requests(n), shared_releases(n));
    lemma_shared_acquired(n);
    lemma_shared_released(n, n);
}

/// From an unborrowed cell, a request for exclusive access followed by
/// nested requests, `n` in all, are all granted, and `n` nested exclusive
/// accesses are then outstanding.
pub proof fn lemma_nested_acquired(n: nat)
    requires
        n <= usize::MAX,
    ensures
        BorrowView::Unborrowed.run(nested_requests(n)) == nested_state(n),
        forall|i: int|
            0 <= i < n ==> (#[trigger] BorrowView::Unborrowed.run(
                nested_requests(n).take(i),
            )).grants(nested_requests(n)[i]),
    decreases n,
{
    if n > 0 {
        let m = (n - 1) as nat;
        lemma_nested_acquired(m);
        assert(nested_requests(n).drop_last() =~= nested_requests(m));
        if m == 0 {
            assert(seq![BorrowRecord { accessible: true }] =~= nested_stack(1));
        } else {
            assert(push_nested(nested_stack(m)) =~= nested_stack(n));
        }
        assert forall|i: int| 0 <= i < n implies (#[trigger] BorrowView::Unborrowed.run(
            nested_requests(n).take(i),
        )).grants(nested_requests(n)[i]) by {
            if i < m {
                assert(nested_requests(n).take(i) =~= nested_requests(m).take(i));
            } else {
                assert(nested_requests(n).take(i) =~= nested_requests(m));
            }
        }
    }
}

/// Releasing the `k` innermost of `n` nested exclusive accesses, innermost
/// first, leaves the `n - k` outer ones.
pub proof fn lemma_nested_released(n: nat, k: nat)
    requires
        k <= n <= usize::MAX,
    ensures
        nested_state(n).run(nested_releases(n).take(k as int)) == nested_state((n - k) as nat),
    decreases k,
{
    if k > 0 {
        let j = (k - 1) as nat;
        lemma_nested_released(n, j);
        assert(nested_releases(n).take(k as int).drop_last() =~= nested_releases(n).take(
            j as int,
        ));
        let left = (n - j) as nat;
        if left > 1 {
            assert(pop_nested(nested_stack(left)) =~= nested_stack((left - 1) as nat));
        }
    }
}

/// For every `n`, taking `n` nested exclusive accesses from an unborrowed
/// cell and releasing all of them, innermost first, leaves the cell
/// unborrowed.
pub proof fn lemma_nested_round_trip(n: nat)
    requires
        n <= usize::MAX,
    ensures
        BorrowView::Unborrowed.run(nested_requests(n) + nested_releases(n))
            == BorrowView::Unborrowed,
{
    lemma_run_concat(BorrowView::Unborrowed, nested_requests(n), nested_releases(n));
    lemma_nested_acquired(n);
    lemma_nested_released(n, n);
    assert(nested_releases(n).take(n as int) =~= nested_releases(n));
}

/// While any shared access is outstanding every request for exclusive
/// access is refused and changes nothing, and it is granted once all shared
/// accesses have been released.
pub proof fn lemma_exclusive_waits_for_shared(n: nat, k: nat, slot: usize)
    requires
        k <= n <= usize::MAX,
    ensures
        k < n ==> {
            let state = shared_state(n).run(shared_releases(k));
            &&& state.step(Request::Exclusive) == (
                state,
                Err::<(), BorrowError>(BorrowError::BorrowConflict),
            )
            &&& state.step(Request::Reentrant { slot }) == (
                state,
                Err::<(), BorrowError>(BorrowError::StaleGuardReentry),
            )
        },
        shared_state(n).run(shared_releases(n)).step(Request::Exclusive).1 is Ok,
{
    lemma_shared_released(n, k);
    lemma_shared_released(n, n);
}

/// The bookkeeping of one cell.
///
/// Its model, the view, is a [`BorrowView`] that is always well formed.
pub struct BorrowState {
    shared: usize,
    stack: Vec<BorrowRecord>,
}

impl View for BorrowState {
    type V = BorrowView;

    closed spec fn view(&self) -> BorrowView {
        if self.stack@.len() > 0 {
            BorrowView::Exclusive(self.stack@)
        } else if self.shared > 0 {
            BorrowView::Shared(self.shared as nat)
        } else {
            BorrowView::Unborrowed
        }
    }
}

impl BorrowState {
    #[verifier::type_invariant]
    spec fn inv(self) -> bool {
        &&& self.shared == 0 || self.stack@.len() == 0
        &&& forall|i: int|
            0 <= i < self.stack@.len() ==> (#[trigger] self.stack@[i]).accessible == (i
                == self.stack@.len() - 1)
    }

    /// The bookkeeping of a cell to which nothing has access yet.
    pub fn new() -> (state: Self)
        ensures
            state@ == BorrowView::Unborrowed,
    {
        BorrowState { shared: 0, stack: Vec::new() }
    }

    /// Does nothing when it runs. A call of it tells the proof of the caller
    /// that the bookkeeping is well formed, which holds of every value of
    /// this type.
    pub fn assert_well_formed(&self)
        ensures
            self@.wf(),
    {
        proof {
            use_type_invariant(self);
        }
    }

    /// Whether no access is outstanding.
    pub fn is_unborrowed(&self) -> (b: bool)
        ensures
            b == (self@ is Unborrowed),
            self@.wf(),
    {
        proof {
            use_type_invariant(self);
        }
        self.shared == 0 && self.stack.len() == 0
    }

    /// The number of shared accesses that are outstanding.
    pub fn shared_count(&self) -> (n: usize)
        ensures
            n == self@.shared_count(),
            self@.wf(),
    {
        proof {
            use_type_invariant(self);
        }
        self.shared
    }

    /// The number of exclusive accesses that are outstanding.
    pub fn depth(&self) -> (n: usize)
        ensures
            n == self@.depth(),
            self@.wf(),
    {
        proof {
            use_type_invariant(self);
        }
        self.stack.len()
    }

    /// The record at `slot` of the stack, if there is one.
    pub fn record(&self, slot: usize) -> (record: Option<BorrowRecord>)
        ensures
            record == if slot < self@.depth() {
                Some(self@->Exclusive_0[slot as int])
            } else {
                None
            },
            self@.wf(),
    {
        proof {
            use_type_invariant(self);
        }
        if slot < self.stack.len() {
            Some(self.stack[slot])
        } else {
            None
        }
    }

    /// Whether `request` would be granted now.
    pub fn grants(&self, request: Request) -> (b: bool)
        ensures
            b == self@.grants(request),
            self@.wf(),
    {
        proof {
            use_type_invariant(self);
        }
        let depth: usize = self.stack.len();
        match request {
            Request::Shared => depth == 0 && self.shared < usize::MAX,
            Request::Exclusive => depth == 0 && self.shared == 0,
            Request::Reentrant { slot } => depth > 0 && slot == depth - 1,
            Request::ReleaseShared => self.shared > 0,
            Request::ReleaseExclusive { slot } => depth > 0 && slot == depth - 1,
        }
    }

    /// Carries out `request` by the transition table: where it is granted the
    /// state changes as the table says and the answer is `Ok`; where it is
    /// refused the state stays as it was and the answer is the error.
    pub fn apply(&mut self, request: Request) -> (outcome: Result<(), BorrowError>)
        ensures
            final(self)@ == old(self)@.step(request).0,
            outcome == old(self)@.step(request).1,
            old(self)@.wf(),
            final(self)@.wf(),
    {
        proof {
            use_type_invariant(&*self);
        }
        if !self.grants(request) {
            return Err(
                match request {
                    Request::Shared => BorrowError::BorrowConflict,
                    Request::Exclusive => BorrowError::BorrowConflict,
                    Request::Reentrant { .. } => BorrowError::StaleGuardReentry,
                    Request::ReleaseShared => BorrowError::InaccessibleAccess,
                    Request::ReleaseExclusive { .. } => BorrowError::InaccessibleAccess,
                },
            );
        }
        let mut stack: Vec<BorrowRecord> = Vec::new();
        std::mem::swap(&mut stack, &mut self.stack);
        let ghost before = stack@;
        match request {
            Request::Shared => {
                self.shared = self.shared + 1;
            },
            Request::Exclusive => {
                stack.push(BorrowRecord { accessible: true });
                assert(stack@ =~= seq![BorrowRecord { accessible: true }]);
            },
            Request::Reentrant { slot } => {
                stack.set(slot, BorrowRecord { accessible: false });
                stack.push(BorrowRecord { accessible: true });
                assert(stack@ =~= push_nested(before));
            },
            Request::ReleaseShared => {
                self.shared = self.shared - 1;
            },
            Request::ReleaseExclusive { slot } => {
                stack.pop();
                if slot > 0 {
                    stack.set(slot - 1, BorrowRecord { accessible: true });
                    assert(stack@ =~= pop_nested(before));
                }
            },
        }
        self.stack = stack;
        Ok(())
    }
}

} // verus!
