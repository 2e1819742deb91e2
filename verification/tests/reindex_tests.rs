use std::collections::BTreeMap;

use website::index::SearchIndex;
use website::page::Page;
use website::reindex::{
    flush_due, Action, CycleResult, Event, Phase, Reindexer, Stage, BATCH_SIZE, FLUSH_INTERVAL_MS,
    RELAY_CAPACITY,
};
use website::roles::{Role, Slot};

fn page(id: u128) -> Page {
    Page {
        id,
        title: Some(format!("Page {id}")),
        modified: 0,
        url: format!("page-{id}"),
        tags: Vec::new(),
        markdown: format!("body of {id}"),
        html: String::new(),
    }
}

/// The two slots as a store that applies a batch whole or not at all.
struct Slots {
    alpha: BTreeMap<u128, Page>,
    beta: BTreeMap<u128, Page>,
}

impl Slots {
    fn new() -> Slots {
        Slots { alpha: BTreeMap::new(), beta: BTreeMap::new() }
    }

    fn of(&mut self, slot: Slot) -> &mut BTreeMap<u128, Page> {
        match slot {
            Slot::Alpha => &mut self.alpha,
            Slot::Beta => &mut self.beta,
        }
    }
}

/// Runs one cycle over `pages`; the commit numbered `fail_commit` (from 1)
/// fails. Returns the sizes of the batches handed out and the result.
fn run_cycle(
    index: &mut SearchIndex,
    slots: &mut Slots,
    pages: Vec<Page>,
    fail_commit: Option<usize>,
) -> (Vec<usize>, CycleResult) {
    let mut sizes = Vec::new();
    let mut stream = pages.into_iter();
    let mut action = index.step(Event::Trigger, 0);
    loop {
        action = match action {
            Action::ClearStaging => {
                slots.of(index.slot(Role::Staging)).clear();
                index.step(Event::Cleared(true), 0)
            }
            Action::StartStream | Action::Wait => match stream.next() {
                Some(page) => index.step(Event::Page(page), 0),
                None => index.step(Event::EndOfStream, 0),
            },
            Action::Commit(batch) => {
                sizes.push(batch.len());
                if fail_commit == Some(sizes.len()) {
                    index.step(Event::Committed(false), 0)
                } else {
                    let staging = slots.of(index.slot(Role::Staging));
                    for page in batch {
                        staging.insert(page.id, page);
                    }
                    index.step(Event::Committed(true), 0)
                }
            }
            Action::Swap => index.step(Event::Swapped(true), 0),
            Action::Finished(result) => return (sizes, result),
            Action::Ignored => panic!("the cycle dropped an event"),
        };
    }
}

#[test]
fn pipeline_constants() {
    assert_eq!(BATCH_SIZE, 100);
    assert_eq!(RELAY_CAPACITY, 1000);
    assert_eq!(FLUSH_INTERVAL_MS, 1000);
}

#[test]
fn two_hundred_fifty_documents_make_three_commits() {
    let mut index = SearchIndex::new(None);
    let mut slots = Slots::new();
    let pages: Vec<Page> = (0..250).map(page).collect();
    let (sizes, result) = run_cycle(&mut index, &mut slots, pages, None);
    assert_eq!(sizes, vec![100, 100, 50]);
    assert_eq!(result, CycleResult::Completed);
    assert_eq!(slots.of(index.slot(Role::Active)).len(), 250);
}

#[test]
fn a_multiple_of_the_batch_size_leaves_no_partial_batch() {
    let mut index = SearchIndex::new(None);
    let mut slots = Slots::new();
    let (sizes, result) = run_cycle(&mut index, &mut slots, (0..200).map(page).collect(), None);
    assert_eq!(sizes, vec![100, 100]);
    assert_eq!(result, CycleResult::Completed);
}

#[test]
fn an_empty_stream_commits_nothing_and_still_swaps() {
    let mut index = SearchIndex::new(None);
    let mut slots = Slots::new();
    slots.alpha.insert(7, page(7));
    let (sizes, result) = run_cycle(&mut index, &mut slots, Vec::new(), None);
    assert_eq!(sizes, Vec::<usize>::new());
    assert_eq!(result, CycleResult::Completed);
    assert_eq!(index.slot(Role::Active), Slot::Beta);
    assert_eq!(slots.of(index.slot(Role::Active)).len(), 0);
}

#[test]
fn batches_keep_the_order_of_arrival() {
    let mut machine = Reindexer::new();
    assert_eq!(machine.step(Event::Trigger, 0), Action::ClearStaging);
    assert_eq!(machine.step(Event::Cleared(true), 0), Action::StartStream);
    for id in 0..99 {
        assert_eq!(machine.step(Event::Page(page(id)), 0), Action::Wait);
        assert_eq!(machine.pending_len(), id as usize + 1);
    }
    match machine.step(Event::Page(page(99)), 0) {
        Action::Commit(batch) => {
            let ids: Vec<u128> = batch.iter().map(|p| p.id).collect();
            assert_eq!(ids, (0..100).collect::<Vec<u128>>());
        }
        other => panic!("expected a commit, got {other:?}"),
    }
    assert_eq!(machine.phase(), Phase::Committing);
    assert_eq!(machine.pending_len(), 0);
}

#[test]
fn the_timer_flushes_a_partial_batch() {
    let mut machine = Reindexer::new();
    machine.step(Event::Trigger, 10);
    assert_eq!(machine.step(Event::Cleared(true), 500), Action::StartStream);
    assert_eq!(machine.flush_deadline(), 1_500);
    assert_eq!(machine.step(Event::Tick, 1_500), Action::Wait);
    machine.step(Event::Page(page(1)), 1_600);
    machine.step(Event::Page(page(2)), 1_700);
    assert_eq!(machine.flush_deadline(), 1_500);
    assert_eq!(machine.step(Event::Tick, 1_800), Action::Commit(vec![page(1), page(2)]));
    assert_eq!(machine.phase(), Phase::Committing);
    assert_eq!(machine.flush_deadline(), 2_800);
    assert_eq!(machine.step(Event::Committed(true), 1_900), Action::Wait);
    assert_eq!(machine.phase(), Phase::Batching);
    assert_eq!(machine.step(Event::Tick, 2_800), Action::Wait);
    machine.step(Event::Page(page(3)), 2_900);
    assert_eq!(machine.step(Event::EndOfStream, 2_950), Action::Commit(vec![page(3)]));
    assert_eq!(machine.phase(), Phase::Finishing);
    assert_eq!(machine.step(Event::Committed(true), 3_000), Action::Swap);
    assert_eq!(machine.phase(), Phase::Swapping);
    assert_eq!(machine.step(Event::Swapped(true), 3_100), Action::Finished(CycleResult::Completed));
    assert!(machine.is_idle());
}

#[test]
fn the_timer_does_not_flush_before_a_second_has_passed() {
    let mut machine = Reindexer::new();
    machine.step(Event::Trigger, 0);
    machine.step(Event::Cleared(true), 1_000);
    machine.step(Event::Page(page(1)), 1_001);
    assert_eq!(machine.step(Event::Tick, 1_001), Action::Wait);
    assert_eq!(machine.step(Event::Tick, 1_999), Action::Wait);
    assert_eq!(machine.step(Event::Tick, 999), Action::Wait);
    assert_eq!(machine.pending_len(), 1);
    assert_eq!(machine.step(Event::Tick, 2_000), Action::Commit(vec![page(1)]));
    machine.step(Event::Committed(true), 2_100);
    machine.step(Event::Page(page(2)), 2_200);
    assert_eq!(machine.step(Event::Tick, 2_999), Action::Wait);
    assert_eq!(machine.step(Event::Tick, 3_000), Action::Commit(vec![page(2)]));
}

#[test]
fn a_full_batch_restarts_the_timer() {
    let mut machine = Reindexer::new();
    machine.step(Event::Trigger, 0);
    machine.step(Event::Cleared(true), 0);
    for id in 0..99 {
        machine.step(Event::Page(page(id)), 100);
    }
    assert_eq!(machine.flush_deadline(), 1_000);
    assert!(matches!(machine.step(Event::Page(page(99)), 900), Action::Commit(_)));
    assert_eq!(machine.flush_deadline(), 1_900);
    machine.step(Event::Committed(true), 950);
    machine.step(Event::Page(page(100)), 960);
    assert_eq!(machine.step(Event::Tick, 1_000), Action::Wait);
    assert_eq!(machine.step(Event::Tick, 1_900), Action::Commit(vec![page(100)]));
}

#[test]
fn flush_is_due_after_one_second() {
    assert!(!flush_due(5_000, 5_000));
    assert!(!flush_due(5_000, 5_999));
    assert!(flush_due(5_000, 6_000));
    assert!(flush_due(0, u64::MAX));
    assert!(!flush_due(6_000, 5_000));
    assert!(!flush_due(u64::MAX, 0));
}

#[test]
fn a_trigger_during_a_cycle_is_dropped() {
    let mut machine = Reindexer::new();
    assert!(machine.is_idle());
    assert_eq!(machine.step(Event::Trigger, 0), Action::ClearStaging);
    assert_eq!(machine.step(Event::Trigger, 0), Action::Ignored);
    assert_eq!(machine.phase(), Phase::Clearing);
    machine.step(Event::Cleared(true), 0);
    assert_eq!(machine.step(Event::Trigger, 0), Action::Ignored);
    assert_eq!(machine.phase(), Phase::Batching);
    machine.step(Event::EndOfStream, 0);
    assert_eq!(machine.step(Event::Trigger, 0), Action::Ignored);
    assert_eq!(machine.phase(), Phase::Swapping);
    machine.step(Event::Swapped(true), 0);
    assert_eq!(machine.step(Event::Trigger, 0), Action::ClearStaging);
}

#[test]
fn events_that_do_not_fit_the_phase_change_nothing() {
    let mut machine = Reindexer::new();
    for event in [
        Event::Cleared(true),
        Event::Page(page(1)),
        Event::Tick,
        Event::EndOfStream,
        Event::Committed(true),
        Event::Swapped(true),
    ] {
        assert_eq!(machine.step(event, 0), Action::Ignored);
        assert!(machine.is_idle());
        assert_eq!(machine.pending_len(), 0);
    }
    machine.step(Event::Trigger, 0);
    machine.step(Event::Cleared(true), 0);
    assert_eq!(machine.step(Event::Committed(true), 0), Action::Ignored);
    assert_eq!(machine.step(Event::Swapped(true), 0), Action::Ignored);
    assert_eq!(machine.step(Event::Cleared(true), 0), Action::Ignored);
    assert_eq!(machine.phase(), Phase::Batching);
}

#[test]
fn a_failed_clear_ends_the_cycle() {
    let mut machine = Reindexer::new();
    machine.step(Event::Trigger, 0);
    assert_eq!(
        machine.step(Event::Cleared(false), 0),
        Action::Finished(CycleResult::Failed(Stage::Clear))
    );
    assert!(machine.is_idle());
}

#[test]
fn a_failed_swap_ends_the_cycle() {
    let mut index = SearchIndex::new(None);
    index.step(Event::Trigger, 0);
    index.step(Event::Cleared(true), 0);
    assert_eq!(index.step(Event::EndOfStream, 0), Action::Swap);
    assert_eq!(
        index.step(Event::Swapped(false), 0),
        Action::Finished(CycleResult::Failed(Stage::Swap))
    );
    assert_eq!(index.slot(Role::Active), Slot::Alpha);
    assert_eq!(index.phase(), Phase::Idle);
}

#[test]
fn a_failed_second_commit_leaves_the_active_slot_as_it_was() {
    let mut index = SearchIndex::new(None);
    let mut slots = Slots::new();
    let (_, result) = run_cycle(&mut index, &mut slots, (0..40).map(page).collect(), None);
    assert_eq!(result, CycleResult::Completed);
    let active = index.slot(Role::Active);
    let before = slots.of(active).clone();
    assert_eq!(before.len(), 40);

    let pages: Vec<Page> = (1000..1250).map(page).collect();
    let (sizes, result) = run_cycle(&mut index, &mut slots, pages, Some(2));
    assert_eq!(sizes, vec![100, 100]);
    assert_eq!(result, CycleResult::Failed(Stage::Commit));
    assert_eq!(index.slot(Role::Active), active);
    assert_eq!(slots.of(active).len(), 40);
    assert_eq!(*slots.of(active), before);
    assert_eq!(index.phase(), Phase::Idle);
    assert_eq!(slots.of(index.slot(Role::Staging)).len(), 100);

    let (_, result) = run_cycle(&mut index, &mut slots, (0..40).map(page).collect(), None);
    assert_eq!(result, CycleResult::Completed);
    assert_eq!(*slots.of(index.slot(Role::Active)), before);
}

#[test]
fn two_cycles_over_the_same_content_show_the_same_documents() {
    let mut index = SearchIndex::new(None);
    let mut slots = Slots::new();
    slots.beta.insert(999, page(999));
    let content = || -> Vec<Page> { (0..130).map(page).collect() };
    let (_, first) = run_cycle(&mut index, &mut slots, content(), None);
    assert_eq!(first, CycleResult::Completed);
    let after_first = slots.of(index.slot(Role::Active)).clone();
    let (_, second) = run_cycle(&mut index, &mut slots, content(), None);
    assert_eq!(second, CycleResult::Completed);
    let after_second = slots.of(index.slot(Role::Active)).clone();
    assert_eq!(after_first.len(), 130);
    assert_eq!(after_second.len(), 130);
    assert_eq!(after_first, after_second);
    assert_eq!(
        after_first.keys().collect::<Vec<_>>(),
        after_second.keys().collect::<Vec<_>>()
    );
}

#[test]
fn a_repeated_identifier_is_stored_once_with_the_last_page() {
    let mut index = SearchIndex::new(None);
    let mut slots = Slots::new();
    let mut late = page(1);
    late.markdown = "rewritten".to_string();
    let (_, result) =
        run_cycle(&mut index, &mut slots, vec![page(1), page(2), late.clone()], None);
    assert_eq!(result, CycleResult::Completed);
    let active = slots.of(index.slot(Role::Active));
    assert_eq!(active.len(), 2);
    assert_eq!(active[&1], late);
}

#[test]
fn staging_is_empty_after_the_clear_and_before_the_first_commit() {
    let mut index = SearchIndex::new(None);
    let mut slots = Slots::new();
    slots.beta.insert(1, page(1));
    slots.beta.insert(2, page(2));
    slots.alpha.insert(3, page(3));
    assert_eq!(index.step(Event::Trigger, 0), Action::ClearStaging);
    slots.of(index.slot(Role::Staging)).clear();
    assert_eq!(index.step(Event::Cleared(true), 0), Action::StartStream);
    assert_eq!(slots.of(index.slot(Role::Staging)).len(), 0);
    assert_eq!(slots.of(index.slot(Role::Active)).len(), 1);
    assert_eq!(index.phase(), Phase::Batching);
}
