//! The reindex cycle: clear the staging slot, stream every document into it
//! in bounded batches, then exchange the roles.
//!
//! The cycle is a state machine. The caller owns the storage engine, the
//! content source and the timers; it hands each thing that happens to
//! [`Reindexer::step`] and performs the action that comes back, one at a
//! time. The machine never touches the active slot: the only action that
//! changes what queries see is the swap at the end of a cycle in which every
//! step succeeded.

use vstd::prelude::*;
use crate::page::{Page, PageView};

verus! {

/// Number of documents at which a batch is committed.
pub const BATCH_SIZE: usize = 100;

/// Number of documents that the relay between the content source and the
/// commit stage holds before production stalls.
pub const RELAY_CAPACITY: usize = 1000;

/// Milliseconds after the last flush at which a batch that is not full is
/// committed all the same.
pub const FLUSH_INTERVAL_MS: u64 = 1000;

/// Where a cycle stands.
#[derive(Clone, Copy, Debug, PartialEq, Eq, Structural)]
pub enum Phase {
    /// No cycle is running.
    Idle,
    /// The staging slot is being cleared.
    Clearing,
    /// Documents are being received and gathered into a batch.
    Batching,
    /// A batch is being committed; more documents may follow.
    Committing,
    /// The last batch is being committed.
    Finishing,
    /// The roles are being exchanged.
    Swapping,
}

/// The step of a cycle at which it failed.
#[derive(Clone, Copy, Debug, PartialEq, Eq, Structural)]
pub enum Stage {
    Clear,
    Commit,
    Swap,
}

/// How a cycle ended.
#[derive(Clone, Copy, Debug, PartialEq, Eq, Structural)]
pub enum CycleResult {
    /// Every step succeeded and the roles were exchanged.
    Completed,
    /// A step failed; the roles were not exchanged.
    Failed(Stage),
}

/// Something that happened and that the machine is told of.
#[derive(Clone, Debug, PartialEq, Eq)]
pub enum Event {
    /// A reindex was asked for, by a change of the content or by the clock.
    Trigger,
    /// Clearing the staging slot ended; `true` where it was committed.
    Cleared(bool),
    /// The content source produced a document.
    Page(Page),
    /// The flush timer fired.
    Tick,
    /// The content source produced its last document.
    EndOfStream,
    /// Committing the batch ended; `true` where it was committed.
    Committed(bool),
    /// The swap ended; `true` where the roles were exchanged.
    Swapped(bool),
}

/// What the caller is to do next.
#[derive(Clone, Debug, PartialEq, Eq)]
pub enum Action {
    /// Nothing: wait for the next event.
    Wait,
    /// Nothing: the event did not fit the phase and was dropped.
    Ignored,
    /// Remove every document from the staging slot, in one transaction.
    ClearStaging,
    /// Start the content source and receive its documents.
    StartStream,
    /// Write the batch to the staging slot, all of it or nothing, and
    /// restart the flush timer.
    Commit(Vec<Page>),
    /// Exchange the roles.
    Swap,
    /// The cycle is over.
    Finished(CycleResult),
}

/// What an `Event` holds.
pub enum EventView {
    Trigger,
    Cleared(bool),
    Page(PageView),
    Tick,
    EndOfStream,
    Committed(bool),
    Swapped(bool),
}

/// What an `Action` holds.
pub enum ActionView {
    Wait,
    Ignored,
    ClearStaging,
    StartStream,
    Commit(Seq<PageView>),
    Swap,
    Finished(CycleResult),
}

/// The views of a sequence of pages.
pub open spec fn pages_view(pages: Seq<Page>) -> Seq<PageView> {
    pages.map_values(|p: Page| p@)
}

impl View for Event {
    type V = EventView;

    open spec fn view(&self) -> EventView {
        match self {
            Event::Trigger => EventView::Trigger,
            Event::Cleared(ok) => EventView::Cleared(*ok),
            Event::Page(page) => EventView::Page(page@),
            Event::Tick => EventView::Tick,
            Event::EndOfStream => EventView::EndOfStream,
            Event::Committed(ok) => EventView::Committed(*ok),
            Event::Swapped(flipped) => EventView::Swapped(*flipped),
        }
    }
}

impl View for Action {
    type V = ActionView;

    open spec fn view(&self) -> ActionView {
        match self {
            Action::Wait => ActionView::Wait,
            Action::Ignored => ActionView::Ignored,
            Action::ClearStaging => ActionView::ClearStaging,
            Action::StartStream => ActionView::StartStream,
            Action::Commit(batch) => ActionView::Commit(pages_view(batch@)),
            Action::Swap => ActionView::Swap,
            Action::Finished(result) => ActionView::Finished(*result),
        }
    }
}

/// The state of a cycle as the rules see it.
///
/// `pending` is the batch being gathered, `in_flight` the batch whose commit
/// is under way, and `committed` the documents of this cycle that the staging
/// slot holds already, each in order of arrival. `last_flush` is the time,
/// in milliseconds, at which the stream began or a batch was last handed
/// out.
pub struct CycleState {
    pub phase: Phase,
    pub pending: Seq<PageView>,
    pub in_flight: Seq<PageView>,
    pub committed: Seq<PageView>,
    pub last_flush: u64,
}

/// Whether the flush timer is due: whether `FLUSH_INTERVAL_MS` or more have
/// passed since the last flush. A clock that went backwards counts as no
/// time passed.
pub open spec fn flush_is_due(last_flush: u64, now: u64) -> bool {
    now - last_flush >= FLUSH_INTERVAL_MS
}

impl CycleState {
    /// The state in which no cycle is running.
    pub open spec fn idle() -> CycleState {
        CycleState {
            phase: Phase::Idle,
            pending: Seq::empty(),
            in_flight: Seq::empty(),
            committed: Seq::empty(),
            last_flush: 0,
        }
    }

    /// The documents that this cycle has received so far, in order of
    /// arrival.
    pub open spec fn received(self) -> Seq<PageView> {
        self.committed + self.in_flight + self.pending
    }

    /// What every state that the machine reaches satisfies: the batch being
    /// gathered is never full, a batch is in flight exactly while a commit is
    /// under way, and nothing is held outside a cycle.
    pub open spec fn wf(self) -> bool {
        &&& self.pending.len() < BATCH_SIZE
        &&& self.in_flight.len() <= BATCH_SIZE
        &&& (self.phase is Committing || self.phase is Finishing) <==> self.in_flight.len() > 0
        &&& (self.phase is Idle || self.phase is Clearing) ==> self.pending.len() == 0
            && self.committed.len() == 0
        &&& (self.phase is Finishing || self.phase is Swapping) ==> self.pending.len() == 0
    }

    /// The state after an event that arrives at time `now`, and the action
    /// that it calls for.
    ///
    /// A batch is handed out for commit when it is full, when the timer
    /// fires a second or more after the last flush and finds documents
    /// waiting, or when the stream ends and documents are waiting, whichever
    /// comes first.
    pub open spec fn next(self, event: EventView, now: u64) -> (CycleState, ActionView) {
        match self.phase {
            Phase::Idle => match event {
                EventView::Trigger => (
                    CycleState { phase: Phase::Clearing, ..CycleState::idle() },
                    ActionView::ClearStaging,
                ),
                _ => (self, ActionView::Ignored),
            },
            Phase::Clearing => match event {
                EventView::Cleared(ok) => if ok {
                    (
                        CycleState { phase: Phase::Batching, last_flush: now, ..self },
                        ActionView::StartStream,
                    )
                } else {
                    (CycleState::idle(), ActionView::Finished(CycleResult::Failed(Stage::Clear)))
                },
                _ => (self, ActionView::Ignored),
            },
            Phase::Batching => match event {
                EventView::Page(page) => if self.pending.len() + 1 >= BATCH_SIZE {
                    (
                        CycleState {
                            phase: Phase::Committing,
                            pending: Seq::empty(),
                            in_flight: self.pending.push(page),
                            last_flush: now,
                            ..self
                        },
                        ActionView::Commit(self.pending.push(page)),
                    )
                } else {
                    (CycleState { pending: self.pending.push(page), ..self }, ActionView::Wait)
                },
                EventView::Tick => if self.pending.len() > 0 && flush_is_due(
                    self.last_flush,
                    now,
                ) {
                    (
                        CycleState {
                            phase: Phase::Committing,
                            pending: Seq::empty(),
                            in_flight: self.pending,
                            last_flush: now,
                            ..self
                        },
                        ActionView::Commit(self.pending),
                    )
                } else {
                    (self, ActionView::Wait)
                },
                EventView::EndOfStream => if self.pending.len() > 0 {
                    (
                        CycleState {
                            phase: Phase::Finishing,
                            pending: Seq::empty(),
                            in_flight: self.pending,
                            last_flush: now,
                            ..self
                        },
                        ActionView::Commit(self.pending),
                    )
                } else {
                    (CycleState { phase: Phase::Swapping, ..self }, ActionView::Swap)
                },
                _ => (self, ActionView::Ignored),
            },
            Phase::Committing => match event {
                EventView::Committed(ok) => if ok {
                    (
                        CycleState {
                            phase: Phase::Batching,
                            in_flight: Seq::empty(),
                            committed: self.committed + self.in_flight,
                            ..self
                        },
                        ActionView::Wait,
                    )
                } else {
                    (CycleState::idle(), ActionView::Finished(CycleResult::Failed(Stage::Commit)))
                },
                _ => (self, ActionView::Ignored),
            },
            Phase::Finishing => match event {
                EventView::Committed(ok) => if ok {
                    (
                        CycleState {
                            phase: Phase::Swapping,
                            in_flight: Seq::empty(),
                            committed: self.committed + self.in_flight,
                            ..self
                        },
                        ActionView::Swap,
                    )
                } else {
                    (CycleState::idle(), ActionView::Finished(CycleResult::Failed(Stage::Commit)))
                },
                _ => (self, ActionView::Ignored),
            },
            Phase::Swapping => match event {
                EventView::Swapped(flipped) => (
                    CycleState::idle(),
                    ActionView::Finished(
                        if flipped {
                            CycleResult::Completed
                        } else {
                            CycleResult::Failed(Stage::Swap)
                        },
                    ),
                ),
                _ => (self, ActionView::Ignored),
            },
        }
    }
}

/// The machine that drives reindex cycles.
pub struct Reindexer {
    phase: Phase,
    pending: Vec<Page>,
    in_flight: Ghost<Seq<PageView>>,
    committed: Ghost<Seq<PageView>>,
    last_flush_ms: u64,
}

impl View for Reindexer {
    type V = CycleState;

    closed spec fn view(&self) -> CycleState {
        CycleState {
            phase: self.phase,
            pending: pages_view(self.pending@),
            in_flight: self.in_flight@,
            committed: self.committed@,
            last_flush: self.last_flush_ms,
        }
    }
}

impl Reindexer {
    #[verifier::type_invariant]
    spec fn inv(self) -> bool {
        self@.wf()
    }

    /// A machine with no cycle running.
    pub fn new() -> (machine: Reindexer)
        ensures
            machine@ == CycleState::idle(),
    {
        let pending: Vec<Page> = Vec::new();
        assert(pages_view(pending@) =~= Seq::<PageView>::empty());
        Reindexer {
            phase: Phase::Idle,
            pending,
            in_flight: Ghost(Seq::empty()),
            committed: Ghost(Seq::empty()),
            last_flush_ms: 0,
        }
    }

    /// Where the cycle stands.
    pub fn phase(&self) -> (phase: Phase)
        ensures
            phase == self@.phase,
            self@.wf(),
    {
        proof {
            use_type_invariant(self);
        }
        self.phase
    }

    /// Whether no cycle is running, so that a trigger would start one.
    pub fn is_idle(&self) -> (idle: bool)
        ensures
            idle == (self@.phase is Idle),
    {
        match self.phase {
            Phase::Idle => true,
            _ => false,
        }
    }

    /// The time at which the flush timer is due next: `FLUSH_INTERVAL_MS`
    /// after the last flush, or the largest time where that is beyond it.
    pub fn flush_deadline(&self) -> (deadline_ms: u64)
        ensures
            deadline_ms == (if self@.last_flush + FLUSH_INTERVAL_MS > u64::MAX {
                u64::MAX
            } else {
                (self@.last_flush + FLUSH_INTERVAL_MS) as u64
            }),
    {
        self.last_flush_ms.saturating_add(FLUSH_INTERVAL_MS)
    }

    /// Number of documents in the batch being gathered.
    pub fn pending_len(&self) -> (n: usize)
        ensures
            n == self@.pending.len(),
            n < BATCH_SIZE,
    {
        proof {
            use_type_invariant(self);
        }
        self.pending.len()
    }

    fn set(
        &mut self,
        phase: Phase,
        pending: Vec<Page>,
        in_flight: Ghost<Seq<PageView>>,
        committed: Ghost<Seq<PageView>>,
        last_flush_ms: u64,
    )
        requires
            (CycleState {
                phase,
                pending: pages_view(pending@),
                in_flight: in_flight@,
                committed: committed@,
                last_flush: last_flush_ms,
            }).wf(),
        ensures
            final(self)@ == (CycleState {
                phase,
                pending: pages_view(pending@),
                in_flight: in_flight@,
                committed: committed@,
                last_flush: last_flush_ms,
            }),
    {
        *self = Reindexer { phase, pending, in_flight, committed, last_flush_ms };
    }

    fn reset(&mut self)
        ensures
            final(self)@ == CycleState::idle(),
    {
        let pending: Vec<Page> = Vec::new();
        assert(pages_view(pending@) =~= Seq::<PageView>::empty());
        self.set(Phase::Idle, pending, Ghost(Seq::empty()), Ghost(Seq::empty()), 0);
    }

    fn take_pending(&mut self) -> (pending: Vec<Page>)
        ensures
            pages_view(pending@) == old(self)@.pending,
            final(self)@ == (CycleState { pending: Seq::empty(), ..old(self)@ }),
    {
        let mut pending: Vec<Page> = Vec::new();
        assert(pages_view(pending@) =~= Seq::<PageView>::empty());
        proof {
            use_type_invariant(&*self);
        }
        std::mem::swap(&mut self.pending, &mut pending);
        pending
    }

    /// Takes an event that arrives at time `now_ms`, in milliseconds on any
    /// clock that does not go backwards, and says what to do next.
    ///
    /// An event that does not fit the phase changes nothing and is answered
    /// with `Ignored`; in particular a trigger that arrives while a cycle is
    /// running is dropped, not queued. A batch handed out for commit holds
    /// between 1 and `BATCH_SIZE` documents.
    pub fn step(&mut self, event: Event, now_ms: u64) -> (action: Action)
        ensures
            (final(self)@, action@) == old(self)@.next(event@, now_ms),
            old(self)@.wf(),
            final(self)@.wf(),
            action@ matches ActionView::Commit(batch) ==> 1 <= batch.len() <= BATCH_SIZE,
    {
        proof {
            use_type_invariant(&*self);
        }
        let ghost before = self@;
        let last_flush_ms = self.last_flush_ms;
        match self.phase {
            Phase::Idle => match event {
                Event::Trigger => {
                    let pending: Vec<Page> = Vec::new();
                    assert(pages_view(pending@) =~= Seq::<PageView>::empty());
                    self.set(Phase::Clearing, pending, Ghost(Seq::empty()), Ghost(Seq::empty()), 0);
                    Action::ClearStaging
                },
                _ => Action::Ignored,
            },
            Phase::Clearing => match event {
                Event::Cleared(ok) => {
                    if ok {
                        let pending = self.take_pending();
                        self.set(
                            Phase::Batching,
                            pending,
                            Ghost(before.in_flight),
                            Ghost(before.committed),
                            now_ms,
                        );
                        Action::StartStream
                    } else {
                        self.reset();
                        Action::Finished(CycleResult::Failed(Stage::Clear))
                    }
                },
                _ => Action::Ignored,
            },
            Phase::Batching => match event {
                Event::Page(page) => {
                    let mut batch = self.take_pending();
                    batch.push(page);
                    assert(pages_view(batch@) =~= before.pending.push(page@));
                    if batch.len() >= BATCH_SIZE {
                        let empty: Vec<Page> = Vec::new();
                        assert(pages_view(empty@) =~= Seq::<PageView>::empty());
                        self.set(
                            Phase::Committing,
                            empty,
                            Ghost(pages_view(batch@)),
                            Ghost(before.committed),
                            now_ms,
                        );
                        Action::Commit(batch)
                    } else {
                        self.set(
                            Phase::Batching,
                            batch,
                            Ghost(before.in_flight),
                            Ghost(before.committed),
                            last_flush_ms,
                        );
                        Action::Wait
                    }
                },
                Event::Tick => {
                    if self.pending.len() > 0 && flush_due(self.last_flush_ms, now_ms) {
                        let batch = self.take_pending();
                        let empty: Vec<Page> = Vec::new();
                        assert(pages_view(empty@) =~= Seq::<PageView>::empty());
                        self.set(
                            Phase::Committing,
                            empty,
                            Ghost(before.pending),
                            Ghost(before.committed),
                            now_ms,
                        );
                        Action::Commit(batch)
                    } else {
                        Action::Wait
                    }
                },
                Event::EndOfStream => {
                    if self.pending.len() > 0 {
                        let batch = self.take_pending();
                        let empty: Vec<Page> = Vec::new();
                        assert(pages_view(empty@) =~= Seq::<PageView>::empty());
                        self.set(
                            Phase::Finishing,
                            empty,
                            Ghost(before.pending),
                            Ghost(before.committed),
                            now_ms,
                        );
                        Action::Commit(batch)
                    } else {
                        self.phase = Phase::Swapping;
                        Action::Swap
                    }
                },
                _ => Action::Ignored,
            },
            Phase::Committing => match event {
                Event::Committed(ok) => {
                    if ok {
                        let pending = self.take_pending();
                        self.set(
                            Phase::Batching,
                            pending,
                            Ghost(Seq::empty()),
                            Ghost(before.committed + before.in_flight),
                            last_flush_ms,
                        );
                        Action::Wait
                    } else {
                        self.reset();
                        Action::Finished(CycleResult::Failed(Stage::Commit))
                    }
                },
                _ => Action::Ignored,
            },
            Phase::Finishing => match event {
                Event::Committed(ok) => {
                    if ok {
                        let pending = self.take_pending();
                        self.set(
                            Phase::Swapping,
                            pending,
                            Ghost(Seq::empty()),
                            Ghost(before.committed + before.in_flight),
                            last_flush_ms,
                        );
                        Action::Swap
                    } else {
                        self.reset();
                        Action::Finished(CycleResult::Failed(Stage::Commit))
                    }
                },
                _ => Action::Ignored,
            },
            Phase::Swapping => match event {
                Event::Swapped(flipped) => {
                    self.reset();
                    if flipped {
                        Action::Finished(CycleResult::Completed)
                    } else {
                        Action::Finished(CycleResult::Failed(Stage::Swap))
                    }
                },
                _ => Action::Ignored,
            },
        }
    }
}

/// Whether the flush timer is due.
pub fn flush_due(last_flush_ms: u64, now_ms: u64) -> (due: bool)
    ensures
        due == flush_is_due(last_flush_ms, now_ms),
{
    now_ms >= last_flush_ms && now_ms - last_flush_ms >= FLUSH_INTERVAL_MS
}

} // verus!
