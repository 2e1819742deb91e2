use website::hits::{FoundDocument, StoredField, StoredValue};
use website::index::{
    after_open_attempt, primary_key, searchable_fields, OpenStep, SearchIndex, PLACEHOLDER_MAP_SIZE,
    SLOT_MAP_SIZE, SLOT_MAX_DBS, SLOT_MAX_READERS,
};
use website::page::Page;
use website::reindex::{Action, CycleResult, Event, Phase};
use website::roles::{Role, RoleBinding, Slot};
use website::swap::SwapAction;

#[test]
fn a_fresh_root_has_alpha_active() {
    let index = SearchIndex::new(None);
    assert_eq!(index.slot(Role::Active), Slot::Alpha);
    assert_eq!(index.slot(Role::Staging), Slot::Beta);
    assert_eq!(index.phase(), Phase::Idle);
}

#[test]
fn the_roles_are_resolved_again_after_a_restart() {
    let index = SearchIndex::new(Some(Slot::Beta));
    assert_eq!(index.slot(Role::Active), Slot::Beta);
    assert_eq!(index.slot(Role::Staging), Slot::Alpha);
    assert_eq!(index.binding(), RoleBinding { flipped: true });
    let index = SearchIndex::new(Some(Slot::Alpha));
    assert_eq!(index.binding(), RoleBinding::initial());
}

#[test]
fn a_query_reads_the_active_slot() {
    let index = SearchIndex::new(Some(Slot::Beta));
    let request = index.search("rust async");
    assert_eq!(request.slot, Slot::Beta);
    assert_eq!(request.query, "rust async");
    assert_eq!(request.offset, 0);
    assert_eq!(request.limit, 10);
    assert_eq!(request.crop_words, 20);
    assert_eq!(request.highlight_open, '⚇');
    assert_eq!(request.highlight_close, '⚉');
}

#[test]
fn results_are_capped_at_ten() {
    let index = SearchIndex::new(None);
    let mut found = Vec::new();
    for i in 0..12u128 {
        let mut document = FoundDocument::new();
        document.push(StoredField {
            name: "id".to_string(),
            value: StoredValue::Text(format!("{i:026}")),
        });
        found.push(document);
    }
    let hits = index.results(&found);
    assert_eq!(hits.len(), 10);
    assert_eq!(hits[0].id, 0);
    assert_eq!(hits[9].id, 9);
}

#[test]
fn a_single_page_is_committed_to_the_active_slot() {
    let index = SearchIndex::new(None);
    let page = Page {
        id: 5,
        title: None,
        modified: 12,
        url: "five".to_string(),
        tags: vec!["a".to_string()],
        markdown: "m".to_string(),
        html: "h".to_string(),
    };
    let request = index.index_page(page.clone());
    assert_eq!(request.slot, Slot::Alpha);
    assert_eq!(request.batch, vec![page]);
}

#[test]
fn the_binding_flips_when_a_swap_reports_success_and_only_then() {
    let mut index = SearchIndex::new(None);
    assert_eq!(index.step(Event::Swapped(true), 0), Action::Ignored);
    assert_eq!(index.slot(Role::Active), Slot::Alpha);
    index.step(Event::Trigger, 0);
    assert_eq!(index.step(Event::Swapped(true), 0), Action::Ignored);
    index.step(Event::Cleared(true), 0);
    assert_eq!(index.step(Event::Swapped(true), 0), Action::Ignored);
    assert_eq!(index.slot(Role::Active), Slot::Alpha);
    assert_eq!(index.step(Event::EndOfStream, 0), Action::Swap);
    let swap = index.begin_swap();
    assert_eq!(swap.awaiting(), SwapAction::Quiesce(Role::Active));
    assert_eq!(swap.binding(), index.binding());
    assert_eq!(index.step(Event::Swapped(true), 0), Action::Finished(CycleResult::Completed));
    assert_eq!(index.slot(Role::Active), Slot::Beta);
    assert_eq!(index.slot(Role::Staging), Slot::Alpha);
}

#[test]
fn a_damaged_store_is_made_anew_once() {
    assert_eq!(after_open_attempt(false, true), OpenStep::Configure);
    assert_eq!(after_open_attempt(false, false), OpenStep::Reinitialize);
    assert_eq!(after_open_attempt(true, true), OpenStep::Configure);
    assert_eq!(after_open_attempt(true, false), OpenStep::GiveUp);
}

#[test]
fn store_settings() {
    assert_eq!(primary_key(), "id");
    assert_eq!(searchable_fields(), vec!["title", "markdown", "tags"]);
    assert_eq!(SLOT_MAP_SIZE, 1_073_741_824);
    assert_eq!(PLACEHOLDER_MAP_SIZE, 1_048_576);
    assert_eq!(SLOT_MAX_DBS, 1);
    assert_eq!(SLOT_MAX_READERS, 512);
}

#[test]
fn the_index_tells_when_the_next_tick_is_due() {
    let mut index = SearchIndex::new(None);
    index.step(Event::Trigger, 5);
    index.step(Event::Cleared(true), 40);
    assert_eq!(index.pending_len(), 0);
    assert_eq!(index.flush_deadline(), 1_040);
    let page = Page {
        id: 1,
        title: None,
        modified: 0,
        url: String::new(),
        tags: Vec::new(),
        markdown: String::new(),
        html: String::new(),
    };
    assert_eq!(index.step(Event::Page(page.clone()), 60), Action::Wait);
    assert_eq!(index.pending_len(), 1);
    assert_eq!(index.step(Event::Tick, 1_039), Action::Wait);
    assert_eq!(index.step(Event::Tick, 1_040), Action::Commit(vec![page]));
    assert_eq!(index.pending_len(), 0);
    assert_eq!(index.flush_deadline(), 2_040);
}
