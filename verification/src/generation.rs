//! What a reindex cycle does to the two generations.
//!
//! The storage engine is not part of this crate. Its contract is taken as
//! given: a slot holds documents keyed by identifier, writing a document
//! whose identifier is present replaces it, clearing removes every document,
//! and a commit applies a whole batch or nothing. Under that contract this
//! module states what the slots hold after each event of a cycle and proves
//! what the cycle promises: queries see a generation that no running cycle
//! touches, a failed cycle changes nothing they see, and a completed cycle
//! shows exactly the documents that were streamed.

use vstd::prelude::*;
use crate::page::PageView;
use crate::reindex::{ActionView, CycleResult, CycleState, EventView, Phase};
use crate::roles::{lemma_binding_is_bijection, Role, RoleBinding, Slot};

verus! {

/// The documents of one slot, by identifier.
pub type Store = Map<u128, PageView>;

/// The two slots and the roles they play.
pub struct World {
    pub alpha: Store,
    pub beta: Store,
    pub binding: RoleBinding,
}

impl World {
    /// The documents that a slot holds.
    pub open spec fn documents(self, slot: Slot) -> Store {
        match slot {
            Slot::Alpha => self.alpha,
            Slot::Beta => self.beta,
        }
    }

    /// The documents that a role shows: those of the one slot it resolves
    /// to.
    pub open spec fn visible(self, role: Role) -> Store {
        self.documents(self.binding.slot_of(role))
    }

    /// The world in which the slot that `role` resolves to holds `store`.
    pub open spec fn with_visible(self, role: Role, store: Store) -> World {
        match self.binding.slot_of(role) {
            Slot::Alpha => World { alpha: store, ..self },
            Slot::Beta => World { beta: store, ..self },
        }
    }

    /// The world with the two roles exchanged.
    pub open spec fn flipped(self) -> World {
        World { binding: self.binding.spec_flipped(), ..self }
    }
}

/// A store after the pages were written to it in order.
pub open spec fn upsert_all(store: Store, pages: Seq<PageView>) -> Store
    decreases pages.len(),
{
    if pages.len() == 0 {
        store
    } else {
        upsert_all(store, pages.drop_last()).insert(pages.last().id, pages.last())
    }
}

/// The store that holds exactly the given pages: one document for each
/// identifier, the last page of that identifier.
pub open spec fn index_of(pages: Seq<PageView>) -> Store {
    upsert_all(Map::empty(), pages)
}

/// The identifiers that occur among the pages.
pub open spec fn ids_of(pages: Seq<PageView>) -> Set<u128> {
    Set::new(|id: u128| exists|i: int| 0 <= i < pages.len() && #[trigger] pages[i].id == id)
}

/// The world after an event, given the state in which the event arrives.
///
/// Only three events change it. A clear that was committed empties the
/// staging slot; a commit that went through writes the batch in flight to
/// the staging slot; a swap that exchanged the roles flips the binding. A
/// step that failed leaves the slots as they were.
pub open spec fn effect(state: CycleState, world: World, event: EventView) -> World {
    if state.phase is Clearing && event == EventView::Cleared(true) {
        world.with_visible(Role::Staging, Map::empty())
    } else if (state.phase is Committing || state.phase is Finishing) && event
        == EventView::Committed(true) {
        world.with_visible(
            Role::Staging,
            upsert_all(world.visible(Role::Staging), state.in_flight),
        )
    } else if state.phase is Swapping && event == EventView::Swapped(true) {
        world.flipped()
    } else {
        world
    }
}

/// Whether the staging slot holds what the cycle has committed: from the
/// moment the clear went through, exactly the documents committed so far.
pub open spec fn staged(state: CycleState, world: World) -> bool {
    (state.phase is Batching || state.phase is Committing || state.phase is Finishing
        || state.phase is Swapping) ==> world.visible(Role::Staging) == index_of(state.committed)
}

/// The state and the world after a sequence of events, each with the time
/// at which it arrives.
pub open spec fn run(state: CycleState, world: World, events: Seq<(EventView, u64)>) -> (
    CycleState,
    World,
)
    decreases events.len(),
{
    if events.len() == 0 {
        (state, world)
    } else {
        run(
            state.next(events.first().0, events.first().1).0,
            effect(state, world, events.first().0),
            events.drop_first(),
        )
    }
}

/// Whether some step of the run completes a cycle.
pub open spec fn completes(state: CycleState, events: Seq<(EventView, u64)>) -> bool
    decreases events.len(),
{
    if events.len() == 0 {
        false
    } else {
        state.next(events.first().0, events.first().1).1 == ActionView::Finished(
            CycleResult::Completed,
        ) || completes(state.next(events.first().0, events.first().1).0, events.drop_first())
    }
}

/// The pages of a stream, without the times at which they arrive.
pub open spec fn pages_of(arrivals: Seq<(PageView, u64)>) -> Seq<PageView> {
    arrivals.map_values(|arrival: (PageView, u64)| arrival.0)
}

/// The state after the pages arrived one by one, each at its time, with no
/// timer firing and every commit going through at once, and the batches
/// that were committed on the way.
pub open spec fn streamed(state: CycleState, arrivals: Seq<(PageView, u64)>) -> (
    CycleState,
    Seq<Seq<PageView>>,
)
    decreases arrivals.len(),
{
    if arrivals.len() == 0 {
        (state, Seq::empty())
    } else {
        let at = arrivals.first().1;
        let arrived = state.next(EventView::Page(arrivals.first().0), at);
        match arrived.1 {
            ActionView::Commit(batch) => {
                let rest = streamed(
                    arrived.0.next(EventView::Committed(true), at).0,
                    arrivals.drop_first(),
                );
                (rest.0, seq![batch] + rest.1)
            },
            _ => streamed(arrived.0, arrivals.drop_first()),
        }
    }
}

/// The batches that a cycle commits for a stream of pages when no timer
/// fires and every commit goes through: those committed while the pages
/// arrive, and the one committed when the stream ends at time `end` if
/// pages are left.
pub open spec fn commits_of(arrivals: Seq<(PageView, u64)>, end: u64) -> Seq<Seq<PageView>> {
    let gathered = streamed(
        CycleState { phase: Phase::Batching, ..CycleState::idle() },
        arrivals,
    );
    match gathered.0.next(EventView::EndOfStream, end).1 {
        ActionView::Commit(batch) => gathered.1.push(batch),
        _ => gathered.1,
    }
}

/// The batches one after the other.
pub open spec fn concat(batches: Seq<Seq<PageView>>) -> Seq<PageView>
    decreases batches.len(),
{
    if batches.len() == 0 {
        Seq::empty()
    } else {
        batches.first() + concat(batches.drop_first())
    }
}

/// Writing two runs of pages one after the other is writing their
/// concatenation.
pub proof fn lemma_upsert_all_concat(store: Store, first: Seq<PageView>, second: Seq<PageView>)
    ensures
        upsert_all(upsert_all(store, first), second) == upsert_all(store, first + second),
    decreases second.len(),
{
    if second.len() == 0 {
        assert(first + second == first);
    } else {
        lemma_upsert_all_concat(store, first, second.drop_last());
        assert((first + second).drop_last() == first + second.drop_last());
        assert((first + second).last() == second.last());
    }
}

/// A store built from pages holds one document for each identifier that
/// occurs among them and no other, so their number is that of the distinct
/// identifiers; each document carries the identifier it is stored under.
pub proof fn lemma_index_ids(pages: Seq<PageView>)
    ensures
        index_of(pages).dom() == ids_of(pages),
        index_of(pages).dom().finite(),
        forall|id: u128| #[trigger] index_of(pages).contains_key(id) ==> index_of(pages)[id].id == id,
    decreases pages.len(),
{
    if pages.len() == 0 {
        assert(index_of(pages).dom() =~= ids_of(pages));
    } else {
        let head = pages.drop_last();
        lemma_index_ids(head);
        assert forall|id: u128| ids_of(pages).contains(id) == (ids_of(head).contains(id) || id
            == pages.last().id) by {
            if ids_of(pages).contains(id) {
                let i = choose|i: int| 0 <= i < pages.len() && #[trigger] pages[i].id == id;
                if i < head.len() {
                    assert(head[i].id == id);
                }
            }
            if ids_of(head).contains(id) {
                let i = choose|i: int| 0 <= i < head.len() && #[trigger] head[i].id == id;
                assert(pages[i].id == id);
            }
            if id == pages.last().id {
                assert(pages[pages.len() - 1].id == id);
            }
        }
        assert(index_of(pages).dom() =~= ids_of(pages));
    }
}

/// After the staging slot was cleared and before any batch is committed, it
/// holds no document, and nothing is counted as committed.
pub proof fn lemma_clear_empties_staging(state: CycleState, world: World, now: u64)
    requires
        state.wf(),
        state.phase is Clearing,
    ensures
        effect(state, world, EventView::Cleared(true)).visible(Role::Staging) == Map::<
            u128,
            PageView,
        >::empty(),
        effect(state, world, EventView::Cleared(true)).visible(Role::Staging).len() == 0,
        state.next(EventView::Cleared(true), now).0.phase is Batching,
        state.next(EventView::Cleared(true), now).0.committed.len() == 0,
        staged(state.next(EventView::Cleared(true), now).0, effect(state, world, EventView::Cleared(true))),
{
    let after = effect(state, world, EventView::Cleared(true));
    assert(after.visible(Role::Staging) =~= Map::<u128, PageView>::empty());
    assert(state.committed =~= Seq::<PageView>::empty());
}

/// No event but the exchange of the roles at the end of a cycle changes what
/// queries see: neither which slot is active nor what that slot holds.
pub proof fn lemma_only_the_swap_changes_active(state: CycleState, world: World, event: EventView)
    requires
        !(state.phase is Swapping && event == EventView::Swapped(true)),
    ensures
        effect(state, world, event).binding == world.binding,
        effect(state, world, event).visible(Role::Active) == world.visible(Role::Active),
{
    lemma_binding_is_bijection(world.binding);
}

/// A step that ends a cycle in failure leaves what queries see as it was.
pub proof fn lemma_failure_keeps_active(
    state: CycleState,
    world: World,
    event: EventView,
    now: u64,
)
    requires
        state.next(event, now).1 matches ActionView::Finished(CycleResult::Failed(_)),
    ensures
        effect(state, world, event).binding == world.binding,
        effect(state, world, event).visible(Role::Active) == world.visible(Role::Active),
{
    lemma_only_the_swap_changes_active(state, world, event);
}

/// The exchange of the roles shows the generation that was staged, whole,
/// and turns the one that was shown into the staging slot: queries see one
/// of the two generations before and the other after, never a part of
/// each.
pub proof fn lemma_swap_exchanges_generations(state: CycleState, world: World)
    requires
        state.phase is Swapping,
    ensures
        effect(state, world, EventView::Swapped(true)).visible(Role::Active) == world.visible(
            Role::Staging,
        ),
        effect(state, world, EventView::Swapped(true)).visible(Role::Staging) == world.visible(
            Role::Active,
        ),
        effect(state, world, EventView::Swapped(true)).alpha == world.alpha,
        effect(state, world, EventView::Swapped(true)).beta == world.beta,
{
}

/// Every step keeps the state well formed.
pub proof fn lemma_step_keeps_wf(state: CycleState, event: EventView, now: u64)
    requires
        state.wf(),
    ensures
        state.next(event, now).0.wf(),
        state.next(event, now).1 matches ActionView::Commit(batch) ==> 1 <= batch.len()
            <= crate::reindex::BATCH_SIZE,
{
}

/// A batch that is committed because a document arrived is full; a batch
/// that is not full is committed only when the stream ends or when the
/// timer fires a second or more after the last flush. Every flush restarts
/// the timer. So a stream that no timer interrupts is committed in full
/// batches, in order of arrival, and one last batch of what is left.
pub proof fn lemma_batches_fill_up_without_timer(state: CycleState, event: EventView, now: u64)
    requires
        state.wf(),
        state.next(event, now).1 is Commit,
    ensures
        state.phase is Batching,
        event is Page || event is Tick || event is EndOfStream,
        event is Tick ==> crate::reindex::flush_is_due(state.last_flush, now),
        state.next(event, now).0.last_flush == now,
        event is Page ==> state.next(event, now).1->Commit_0.len() == crate::reindex::BATCH_SIZE,
        event is Page ==> state.next(event, now).1->Commit_0 == state.pending.push(event->Page_0),
        !(event is Page) ==> state.next(event, now).1->Commit_0 == state.pending,
        state.next(event, now).0.received() == (if event is Page {
            state.received().push(event->Page_0)
        } else {
            state.received()
        }),
        state.next(event, now).0.in_flight == state.next(event, now).1->Commit_0,
        state.next(event, now).0.pending.len() == 0,
{
    lemma_received_grows_by_pages(state, event, now);
}

/// While the pages of a stream arrive with no timer firing, every batch
/// committed is full, the batches are the pages in order of arrival, and
/// what is left over waits in the batch being gathered.
pub proof fn lemma_streamed_batches_are_full(state: CycleState, arrivals: Seq<(PageView, u64)>)
    requires
        state.wf(),
        state.phase is Batching,
    ensures
        ({
            let after = streamed(state, arrivals);
            let total = (state.pending.len() + arrivals.len()) as int;
            let size = crate::reindex::BATCH_SIZE as int;
            &&& after.0.wf()
            &&& after.0.phase is Batching
            &&& after.1.len() == total / size
            &&& forall|i: int|
                0 <= i < after.1.len() ==> (#[trigger] after.1[i]).len()
                    == crate::reindex::BATCH_SIZE
            &&& concat(after.1) + after.0.pending == state.pending + pages_of(arrivals)
            &&& after.0.pending.len() == total % size
            &&& after.0.committed == state.committed + concat(after.1)
        }),
    decreases arrivals.len(),
{
    let after = streamed(state, arrivals);
    let pages = pages_of(arrivals);
    if arrivals.len() == 0 {
        assert(concat(after.1) + after.0.pending =~= state.pending + pages);
        assert(after.0.committed =~= state.committed + concat(after.1));
    } else {
        let at = arrivals.first().1;
        let page = arrivals.first().0;
        let arrived = state.next(EventView::Page(page), at);
        let rest_arrivals = arrivals.drop_first();
        let rest_pages = pages_of(rest_arrivals);
        assert(pages =~= seq![page] + rest_pages);
        if state.pending.len() + 1 >= crate::reindex::BATCH_SIZE {
            let batch = state.pending.push(page);
            let acked = arrived.0.next(EventView::Committed(true), at).0;
            lemma_streamed_batches_are_full(acked, rest_arrivals);
            let rest = streamed(acked, rest_arrivals);
            assert(after.1 == seq![batch] + rest.1);
            assert(after.1.drop_first() =~= rest.1);
            assert(concat(after.1) == batch + concat(rest.1));
            assert(concat(after.1) + after.0.pending =~= batch + (concat(rest.1)
                + rest.0.pending));
            assert(batch + (Seq::<PageView>::empty() + rest_pages) =~= state.pending + pages);
            assert(acked.pending =~= Seq::<PageView>::empty());
            assert(after.0.committed =~= state.committed + concat(after.1));
            assert forall|i: int| 0 <= i < after.1.len() implies (#[trigger] after.1[i]).len()
                == crate::reindex::BATCH_SIZE by {
                if i > 0 {
                    assert(after.1[i] == rest.1[i - 1]);
                }
            }
        } else {
            lemma_streamed_batches_are_full(arrived.0, rest_arrivals);
            assert(state.pending.push(page) + rest_pages =~= state.pending + pages);
        }
    }
}

/// A stream of pages that no timer interrupts is committed in full batches
/// and one last batch of what is left, whenever the pages arrive: the
/// batches are the pages in order of arrival, every batch but the last holds
/// `BATCH_SIZE` pages, the last one holds between one page and `BATCH_SIZE`,
/// and there are as many batches as it takes.
pub proof fn lemma_commits_without_timer(arrivals: Seq<(PageView, u64)>, end: u64)
    ensures
        ({
            let commits = commits_of(arrivals, end);
            let size = crate::reindex::BATCH_SIZE as int;
            let count = arrivals.len() as int;
            &&& concat(commits) == pages_of(arrivals)
            &&& commits.len() == (count + size - 1) / size
            &&& forall|i: int|
                0 <= i < commits.len() - 1 ==> (#[trigger] commits[i]).len() == size
            &&& commits.len() > 0 ==> commits.last().len() == (if count % size == 0 {
                size
            } else {
                count % size
            })
        }),
{
    let start = CycleState { phase: Phase::Batching, ..CycleState::idle() };
    lemma_streamed_batches_are_full(start, arrivals);
    let gathered = streamed(start, arrivals);
    assert(start.pending + pages_of(arrivals) =~= pages_of(arrivals));
    if gathered.0.pending.len() > 0 {
        lemma_concat_push(gathered.1, gathered.0.pending);
    } else {
        assert(concat(gathered.1) + gathered.0.pending =~= concat(gathered.1));
    }
}

/// The batches with one more at the end are the batches and then that one.
pub proof fn lemma_concat_push(batches: Seq<Seq<PageView>>, last: Seq<PageView>)
    ensures
        concat(batches.push(last)) == concat(batches) + last,
    decreases batches.len(),
{
    if batches.len() == 0 {
        let one = batches.push(last);
        assert(one.drop_first() =~= Seq::<Seq<PageView>>::empty());
        assert(one.first() == last);
        assert(concat(one.drop_first()) =~= Seq::<PageView>::empty());
        assert(concat(one) == one.first() + concat(one.drop_first()));
        assert(concat(one) =~= last);
        assert(concat(batches) + last =~= last);
    } else {
        lemma_concat_push(batches.drop_first(), last);
        assert(batches.push(last).drop_first() =~= batches.drop_first().push(last));
        assert(concat(batches.push(last)) =~= concat(batches) + last);
    }
}

/// The steps of a cycle come in one order: the clear starts a cycle and
/// nothing else does, batches are committed only while documents are
/// gathered, the swap is asked for only once everything received is
/// committed, and a cycle completes only from its swap. A trigger that
/// arrives while a cycle is running changes nothing.
pub proof fn lemma_steps_come_in_order(state: CycleState, event: EventView, now: u64)
    requires
        state.wf(),
    ensures
        state.next(event, now).1 is ClearStaging <==> state.phase is Idle && event is Trigger,
        state.next(event, now).1 is StartStream <==> state.phase is Clearing && event
            == EventView::Cleared(true),
        state.next(event, now).1 is Commit ==> state.phase is Batching,
        state.next(event, now).1 is Swap ==> (state.phase is Batching || state.phase is Finishing)
            && state.next(event, now).0.phase is Swapping && state.next(event, now).0.committed
            == state.received(),
        state.next(event, now).1 == ActionView::Finished(CycleResult::Completed) <==> state.phase
            is Swapping && event == EventView::Swapped(true),
        !(state.phase is Idle) && event is Trigger ==> state.next(event, now) == (
            state,
            ActionView::Ignored,
        ),
        state.next(event, now).1 is Ignored ==> state.next(event, now).0 == state,
{
    let after = state.next(event, now);
    if after.1 is Swap {
        assert(after.0.committed =~= state.received());
    }
}

/// The timer flushes what waits, and only then: a tick hands out a batch
/// exactly when documents are waiting and a second or more has passed since
/// the last flush, and the batch is all that waits.
pub proof fn lemma_timer_flushes_what_waits(state: CycleState, now: u64)
    requires
        state.wf(),
        state.phase is Batching,
    ensures
        state.next(EventView::Tick, now).1 is Commit <==> state.pending.len() > 0
            && crate::reindex::flush_is_due(state.last_flush, now),
        state.next(EventView::Tick, now).1 is Commit ==> state.next(EventView::Tick, now).1
            == ActionView::Commit(state.pending),
        !(state.next(EventView::Tick, now).1 is Commit) ==> state.next(EventView::Tick, now)
            == (state, ActionView::Wait),
{
}

/// A step adds a document to those received exactly when a page arrives
/// while the cycle is gathering; a trigger starts from none; a step that
/// ends the cycle forgets them; any other step leaves them as they are.
pub proof fn lemma_received_grows_by_pages(state: CycleState, event: EventView, now: u64)
    requires
        state.wf(),
    ensures
        ({
            let after = state.next(event, now).0;
            if state.phase is Batching && event is Page {
                after.received() == state.received().push(event->Page_0)
            } else if after.phase is Idle || after.phase is Clearing {
                after.received() == Seq::<PageView>::empty()
            } else {
                after.received() == state.received()
            }
        }),
{
    let after = state.next(event, now).0;
    if state.phase is Batching && event is Page {
        assert(after.received() =~= state.received().push(event->Page_0));
    } else if after.phase is Idle || after.phase is Clearing {
        assert(after.received() =~= Seq::<PageView>::empty());
    } else {
        assert(after.received() =~= state.received());
    }
}

/// Every step keeps the staging slot in line with what was committed.
pub proof fn lemma_step_keeps_staged(
    state: CycleState,
    world: World,
    event: EventView,
    now: u64,
)
    requires
        state.wf(),
        staged(state, world),
    ensures
        staged(state.next(event, now).0, effect(state, world, event)),
{
    let after = state.next(event, now).0;
    let then = effect(state, world, event);
    lemma_binding_is_bijection(world.binding);
    if state.phase is Clearing && event == EventView::Cleared(true) {
        lemma_clear_empties_staging(state, world, now);
    } else if (state.phase is Committing || state.phase is Finishing) && event
        == EventView::Committed(true) {
        lemma_upsert_all_concat(Map::empty(), state.committed, state.in_flight);
        assert(then.visible(Role::Staging) == upsert_all(
            world.visible(Role::Staging),
            state.in_flight,
        ));
    } else if state.phase is Swapping && event == EventView::Swapped(true) {
    } else {
        assert(then == world);
    }
}

/// When a cycle completes, queries see exactly the documents that the cycle
/// received: one for each identifier, the last one received.
pub proof fn lemma_completed_cycle_shows_stream(
    state: CycleState,
    world: World,
    event: EventView,
    now: u64,
)
    requires
        state.wf(),
        staged(state, world),
        state.next(event, now).1 == ActionView::Finished(CycleResult::Completed),
    ensures
        effect(state, world, event).visible(Role::Active) == index_of(state.received()),
        effect(state, world, event).visible(Role::Active).dom() == ids_of(state.received()),
{
    assert(state.phase is Swapping && event == EventView::Swapped(true));
    assert(state.received() =~= state.committed);
    lemma_swap_exchanges_generations(state, world);
    lemma_index_ids(state.received());
}

/// Two cycles that complete after receiving the same documents show the
/// same documents, whatever the slots held before; where they received the
/// same identifiers, they show the same identifiers and as many documents.
pub proof fn lemma_reindex_is_idempotent(
    first: CycleState,
    first_world: World,
    second: CycleState,
    second_world: World,
    event: EventView,
    now: u64,
)
    requires
        first.wf(),
        second.wf(),
        staged(first, first_world),
        staged(second, second_world),
        first.next(event, now).1 == ActionView::Finished(CycleResult::Completed),
        second.next(event, now).1 == ActionView::Finished(CycleResult::Completed),
    ensures
        first.received() == second.received() ==> effect(first, first_world, event).visible(
            Role::Active,
        ) == effect(second, second_world, event).visible(Role::Active),
        ids_of(first.received()) == ids_of(second.received()) ==> {
            &&& effect(first, first_world, event).visible(Role::Active).dom() == effect(
                second,
                second_world,
                event,
            ).visible(Role::Active).dom()
            &&& effect(first, first_world, event).visible(Role::Active).len() == effect(
                second,
                second_world,
                event,
            ).visible(Role::Active).len()
        },
{
    lemma_completed_cycle_shows_stream(first, first_world, event, now);
    lemma_completed_cycle_shows_stream(second, second_world, event, now);
}

/// Whatever happens, in whatever order, the machine stays well formed and
/// the staging slot stays in line with what was committed.
pub proof fn lemma_run_is_consistent(
    state: CycleState,
    world: World,
    events: Seq<(EventView, u64)>,
)
    requires
        state.wf(),
        staged(state, world),
    ensures
        run(state, world, events).0.wf(),
        staged(run(state, world, events).0, run(state, world, events).1),
    decreases events.len(),
{
    if events.len() > 0 {
        lemma_step_keeps_wf(state, events.first().0, events.first().1);
        lemma_step_keeps_staged(state, world, events.first().0, events.first().1);
        lemma_run_is_consistent(
            state.next(events.first().0, events.first().1).0,
            effect(state, world, events.first().0),
            events.drop_first(),
        );
    }
}

/// Over any sequence of events in which no cycle completes, whatever fails
/// and wherever, queries see at the end what they saw at the start.
pub proof fn lemma_active_unchanged_without_completion(
    state: CycleState,
    world: World,
    events: Seq<(EventView, u64)>,
)
    requires
        !completes(state, events),
    ensures
        run(state, world, events).1.binding == world.binding,
        run(state, world, events).1.visible(Role::Active) == world.visible(Role::Active),
    decreases events.len(),
{
    if events.len() > 0 {
        lemma_only_the_swap_changes_active(state, world, events.first().0);
        lemma_active_unchanged_without_completion(
            state.next(events.first().0, events.first().1).0,
            effect(state, world, events.first().0),
            events.drop_first(),
        );
    }
}

} // verus!
