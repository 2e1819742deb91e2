//! The live index as a whole: the role binding, the cycle that rebuilds the
//! staging generation, and what is asked of the storage engine.

use vstd::prelude::*;
use crate::excerpt::{CROP_WORDS, HIGHLIGHT_CLOSE, HIGHLIGHT_OPEN};
use crate::generation::{effect, World};
use crate::hits::{
    capped, collect_hits, documents_view, hits_of, hits_view, FoundDocument, SearchHit,
    SEARCH_LIMIT,
};
use crate::page::{Page, PageView};
use crate::reindex::{
    pages_view, Action, ActionView, CycleState, Event, EventView, Phase, Reindexer,
};
use crate::roles::{Role, RoleBinding, Slot};
use crate::swap::SwapMachine;

verus! {

/// Bytes of address space that a slot's store may map.
pub const SLOT_MAP_SIZE: usize = 1024 * 1024 * 1024;

/// Bytes of address space that a placeholder's store may map.
pub const PLACEHOLDER_MAP_SIZE: usize = 1024 * 1024;

/// Number of named databases that a slot's store may hold.
pub const SLOT_MAX_DBS: u32 = 1;

/// Number of readers that a slot's store admits at a time.
pub const SLOT_MAX_READERS: u32 = 512;

/// What to do after an attempt to open a slot's store.
#[derive(Clone, Copy, Debug, PartialEq, Eq, Structural)]
pub enum OpenStep {
    /// The store is open: set the primary key and the searchable fields.
    Configure,
    /// The store is damaged: destroy the directory, create it anew and try
    /// once more.
    Reinitialize,
    /// The store cannot be opened even when new: report the error.
    GiveUp,
}

/// Decides what follows an attempt to open a slot's store. A store that
/// fails to open is destroyed and made anew once; only a second failure is
/// an error.
pub fn after_open_attempt(retried: bool, opened: bool) -> (step: OpenStep)
    ensures
        step == (if opened {
            OpenStep::Configure
        } else if retried {
            OpenStep::GiveUp
        } else {
            OpenStep::Reinitialize
        }),
{
    if opened {
        OpenStep::Configure
    } else if retried {
        OpenStep::GiveUp
    } else {
        OpenStep::Reinitialize
    }
}

/// Name of the field that is the primary key of a slot.
pub fn primary_key() -> (name: &'static str)
    ensures
        name@ == crate::hits::id_field(),
{
    "id"
}

/// Names of the fields that queries search, in order of weight.
pub fn searchable_fields() -> (names: Vec<&'static str>)
    ensures
        names@.len() == 3,
        names@[0]@ == crate::hits::title_field(),
        names@[1]@ == crate::hits::body_field(),
        names@[2]@ == crate::hits::tags_field(),
{
    let mut names: Vec<&'static str> = Vec::new();
    names.push("title");
    names.push("markdown");
    names.push("tags");
    names
}

/// What a query asks of the engine.
#[derive(Clone, Debug, PartialEq, Eq)]
pub struct SearchRequest {
    /// The slot to read, in one read transaction.
    pub slot: Slot,
    /// The text that was asked for.
    pub query: String,
    /// Number of hits to skip.
    pub offset: usize,
    /// Number of hits to return at most.
    pub limit: usize,
    /// Number of words to keep around the matches of the body.
    pub crop_words: usize,
    /// The character to put before each matched term.
    pub highlight_open: char,
    /// The character to put after each matched term.
    pub highlight_close: char,
}

/// A batch to commit to a slot, all of it or nothing.
#[derive(Clone, Debug, PartialEq, Eq)]
pub struct CommitRequest {
    pub slot: Slot,
    pub batch: Vec<Page>,
}

/// The state of the live index as the rules see it.
pub struct IndexState {
    pub binding: RoleBinding,
    pub cycle: CycleState,
}

impl IndexState {
    /// The state after an event that arrives at time `now`, and the action
    /// that it calls for. The
    /// binding is exchanged when a swap reports that the roles were
    /// exchanged, and at no other event.
    pub open spec fn next(self, event: EventView, now: u64) -> (IndexState, ActionView) {
        (
            IndexState {
                binding: if self.cycle.phase is Swapping && event == EventView::Swapped(true) {
                    self.binding.spec_flipped()
                } else {
                    self.binding
                },
                cycle: self.cycle.next(event, now).0,
            },
            self.cycle.next(event, now).1,
        )
    }
}

/// The live index.
pub struct SearchIndex {
    binding: RoleBinding,
    cycle: Reindexer,
}

impl View for SearchIndex {
    type V = IndexState;

    closed spec fn view(&self) -> IndexState {
        IndexState { binding: self.binding, cycle: self.cycle@ }
    }
}

impl SearchIndex {
    /// The index over a root directory. `recorded_active` is the slot that
    /// the root records as active; a fresh root records none, and alpha is
    /// active then.
    pub fn new(recorded_active: Option<Slot>) -> (index: SearchIndex)
        ensures
            index@.cycle == CycleState::idle(),
            index@.binding.slot_of(Role::Active) == (match recorded_active {
                Some(slot) => slot,
                None => Slot::Alpha,
            }),
    {
        let binding = match recorded_active {
            Some(slot) => RoleBinding::with_active(slot),
            None => RoleBinding::initial(),
        };
        SearchIndex { binding, cycle: Reindexer::new() }
    }

    /// The binding as it stands.
    pub fn binding(&self) -> (binding: RoleBinding)
        ensures
            binding == self@.binding,
    {
        self.binding
    }

    /// The slot that a role resolves to.
    pub fn slot(&self, role: Role) -> (slot: Slot)
        ensures
            slot == self@.binding.slot_of(role),
    {
        self.binding.resolve(role)
    }

    /// Where the reindex cycle stands.
    pub fn phase(&self) -> (phase: Phase)
        ensures
            phase == self@.cycle.phase,
    {
        self.cycle.phase()
    }

    /// What to ask of the engine for a query: the ten best hits from the
    /// active slot, the body cropped to twenty words around the matches and
    /// each matched term between the two markers.
    pub fn search(&self, query: &str) -> (request: SearchRequest)
        ensures
            request.slot == self@.binding.slot_of(Role::Active),
            request.query@ == query@,
            request.offset == 0,
            request.limit == SEARCH_LIMIT,
            request.crop_words == CROP_WORDS,
            request.highlight_open == HIGHLIGHT_OPEN,
            request.highlight_close == HIGHLIGHT_CLOSE,
    {
        SearchRequest {
            slot: self.binding.resolve(Role::Active),
            query: query.to_owned(),
            offset: 0,
            limit: SEARCH_LIMIT,
            crop_words: CROP_WORDS,
            highlight_open: HIGHLIGHT_OPEN,
            highlight_close: HIGHLIGHT_CLOSE,
        }
    }

    /// The result list for the documents that the engine found: the hits of
    /// the first ten, in the engine's order.
    pub fn results(&self, found: &Vec<FoundDocument>) -> (hits: Vec<SearchHit>)
        ensures
            hits_view(hits@) == hits_of(capped(documents_view(found@), SEARCH_LIMIT as nat)),
            hits@.len() <= SEARCH_LIMIT,
    {
        collect_hits(found, SEARCH_LIMIT)
    }

    /// What to ask of the engine to index one page at once, outside any
    /// cycle: a batch of that page alone, committed to the active slot.
    pub fn index_page(&self, page: Page) -> (request: CommitRequest)
        ensures
            request.slot == self@.binding.slot_of(Role::Active),
            pages_view(request.batch@) == seq![page@],
    {
        let mut batch: Vec<Page> = Vec::new();
        batch.push(page);
        assert(pages_view(batch@) =~= seq![page@]);
        CommitRequest { slot: self.binding.resolve(Role::Active), batch }
    }

    /// Number of documents that wait in the batch being gathered. While
    /// none waits, no `Tick` is needed.
    pub fn pending_len(&self) -> (n: usize)
        ensures
            n == self@.cycle.pending.len(),
            n < crate::reindex::BATCH_SIZE,
    {
        self.cycle.pending_len()
    }

    /// The time at which the caller is to deliver the next `Tick`.
    pub fn flush_deadline(&self) -> (deadline_ms: u64)
        ensures
            deadline_ms == (if self@.cycle.last_flush + crate::reindex::FLUSH_INTERVAL_MS
                > u64::MAX {
                u64::MAX
            } else {
                (self@.cycle.last_flush + crate::reindex::FLUSH_INTERVAL_MS) as u64
            }),
    {
        self.cycle.flush_deadline()
    }

    /// Starts the swap that the cycle asked for, under the binding as it
    /// stands.
    pub fn begin_swap(&self) -> (swap: SwapMachine)
        ensures
            swap@ == crate::swap::SwapState::begin(self@.binding),
    {
        SwapMachine::begin(self.binding)
    }

    /// Takes an event that arrives at time `now_ms`, in milliseconds on any
    /// clock that does not go backwards, and says what to do next. A batch
    /// handed out for commit goes to the staging slot.
    pub fn step(&mut self, event: Event, now_ms: u64) -> (action: Action)
        ensures
            (final(self)@, action@) == old(self)@.next(event@, now_ms),
            action@ matches ActionView::Commit(batch) ==> 1 <= batch.len()
                <= crate::reindex::BATCH_SIZE,
    {
        let flips = match (self.cycle.phase(), &event) {
            (Phase::Swapping, Event::Swapped(true)) => true,
            _ => false,
        };
        let action = self.cycle.step(event, now_ms);
        if flips {
            self.binding.flip();
        }
        action
    }
}

/// The binding that the index keeps is the binding of the world that the
/// cycle leaves: what `slot` answers for the active role is the slot whose
/// documents queries are to see.
pub proof fn lemma_index_follows_world(
    state: IndexState,
    alpha: Map<u128, PageView>,
    beta: Map<u128, PageView>,
    event: EventView,
    now: u64,
)
    ensures
        effect(state.cycle, World { alpha, beta, binding: state.binding }, event).binding
            == state.next(event, now).0.binding,
{
}

} // verus!
