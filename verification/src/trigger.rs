//! What asks for a reindex: changes of the content and the clock.
//!
//! Both sources deliver into one mailbox that holds at most one trigger. A
//! trigger that arrives while one is waiting is dropped: the one that waits
//! already makes sure that the next cycle sees the latest content.

use vstd::prelude::*;

verus! {

/// Milliseconds within which a burst of file system events is gathered into
/// one batch.
pub const DEBOUNCE_MS: u64 = 30;

/// The kind of a file system event.
#[derive(Clone, Copy, Debug, PartialEq, Eq, Structural)]
pub enum ChangeKind {
    /// A kind that the platform does not tell apart.
    Any,
    /// A file was opened, read, closed or executed; nothing was changed.
    Access,
    /// A file or directory was created.
    Create,
    /// Content, name or metadata was changed.
    Modify,
    /// A file or directory was removed.
    Remove,
    /// An event about the watch itself.
    Other,
}

impl ChangeKind {
    /// Whether an event of this kind may have changed the content: every
    /// kind but a pure access.
    pub open spec fn spec_is_mutation(self) -> bool {
        !(self is Access)
    }

    /// Whether an event of this kind may have changed the content.
    pub fn is_mutation(self) -> (mutation: bool)
        ensures
            mutation == self.spec_is_mutation(),
    {
        match self {
            ChangeKind::Access => false,
            _ => true,
        }
    }
}

/// Whether a batch of events holds one that may have changed the content.
pub open spec fn holds_mutation(kinds: Seq<ChangeKind>) -> bool {
    exists|i: int| 0 <= i < kinds.len() && (#[trigger] kinds[i]).spec_is_mutation()
}

/// Whether a debounced batch of events asks for a reindex. A batch asks for
/// one reindex at most, however many events it holds, and for none where
/// every event is a pure access.
pub fn batch_triggers(kinds: &Vec<ChangeKind>) -> (trigger: bool)
    ensures
        trigger == holds_mutation(kinds@),
{
    let mut i: usize = 0;
    while i < kinds.len()
        invariant
            i <= kinds.len(),
            forall|k: int| 0 <= k < i ==> !(#[trigger] kinds@[k]).spec_is_mutation(),
        decreases kinds.len() - i,
    {
        if kinds[i].is_mutation() {
            return true;
        }
        i += 1;
    }
    false
}

/// A mailbox for triggers that holds one at most.
#[derive(Clone, Copy, Debug, PartialEq, Eq, Structural)]
pub struct Mailbox {
    pub pending: bool,
}

impl Mailbox {
    /// Whether a trigger delivered now would be accepted.
    pub open spec fn accepts(self) -> bool {
        !self.pending
    }

    /// The mailbox after a delivery.
    pub open spec fn offered(self) -> Mailbox {
        Mailbox { pending: true }
    }

    /// The mailbox after the consumer looked.
    pub open spec fn taken(self) -> Mailbox {
        Mailbox { pending: false }
    }

    /// An empty mailbox.
    pub fn new() -> (mailbox: Mailbox)
        ensures
            !mailbox.pending,
    {
        Mailbox { pending: false }
    }

    /// Whether a trigger is waiting.
    pub fn is_pending(&self) -> (pending: bool)
        ensures
            pending == self.pending,
    {
        self.pending
    }

    /// Delivers a trigger. It is accepted where the mailbox was empty and
    /// dropped where one was waiting; either way exactly one is waiting
    /// afterwards.
    pub fn offer(&mut self) -> (accepted: bool)
        ensures
            accepted == old(self).accepts(),
            *final(self) == old(self).offered(),
    {
        let accepted = !self.pending;
        self.pending = true;
        accepted
    }

    /// Takes the waiting trigger out, if there is one.
    pub fn take(&mut self) -> (trigger: bool)
        ensures
            trigger == old(self).pending,
            *final(self) == old(self).taken(),
    {
        let trigger = self.pending;
        self.pending = false;
        trigger
    }
}

/// A burst of deliveries leaves what a single one leaves: one trigger
/// waiting. Only the first delivery into an empty mailbox is accepted.
pub proof fn lemma_offers_coalesce(mailbox: Mailbox)
    ensures
        mailbox.offered().offered() == mailbox.offered(),
        mailbox.offered().pending,
        !mailbox.offered().accepts(),
        !mailbox.offered().taken().pending,
{
}

/// The clock that asks for a reindex at a fixed interval.
///
/// Times are in milliseconds on any clock that does not go backwards. The
/// first tick is due one full interval after the start, each further one an
/// interval after the one before.
#[derive(Clone, Copy, Debug, PartialEq, Eq, Structural)]
pub struct Scheduler {
    pub interval_ms: u64,
    pub next_due_ms: u64,
}

/// A time plus an interval, held at the largest time where the sum would
/// pass it.
pub open spec fn later(time_ms: u64, interval_ms: u64) -> u64 {
    if time_ms + interval_ms > u64::MAX {
        u64::MAX
    } else {
        (time_ms + interval_ms) as u64
    }
}

impl Scheduler {
    /// A scheduler started at `start_ms`. An interval of zero is not one.
    pub fn new(start_ms: u64, interval_ms: u64) -> (scheduler: Scheduler)
        requires
            interval_ms > 0,
        ensures
            scheduler.interval_ms == interval_ms,
            scheduler.next_due_ms == later(start_ms, interval_ms),
    {
        Scheduler { interval_ms, next_due_ms: start_ms.saturating_add(interval_ms) }
    }

    /// The time at which the next tick is due.
    pub fn next_due(&self) -> (due_ms: u64)
        ensures
            due_ms == self.next_due_ms,
    {
        self.next_due_ms
    }

    /// Whether a tick is due at `now_ms`; where it is, the tick is taken and
    /// the next one is due an interval after it was due.
    pub fn poll(&mut self, now_ms: u64) -> (tick: bool)
        ensures
            tick == (now_ms >= old(self).next_due_ms),
            final(self).interval_ms == old(self).interval_ms,
            final(self).next_due_ms == (if tick {
                later(old(self).next_due_ms, old(self).interval_ms)
            } else {
                old(self).next_due_ms
            }),
    {
        if now_ms >= self.next_due_ms {
            self.next_due_ms = self.next_due_ms.saturating_add(self.interval_ms);
            true
        } else {
            false
        }
    }
}

/// No tick is due before one full interval has passed since the start, as
/// long as the end of that interval is a time that the clock can show.
pub proof fn lemma_no_tick_at_startup(start_ms: u64, interval_ms: u64, now_ms: u64)
    requires
        interval_ms > 0,
        start_ms + interval_ms <= u64::MAX,
        start_ms <= now_ms,
        now_ms - start_ms < interval_ms,
    ensures
        now_ms < later(start_ms, interval_ms),
{
}

} // verus!
