//! The swap: how the two roles change slots while queries go on.
//!
//! A handle on a slot holds mapped resources that cannot be pointed at other
//! storage; it has to be closed and a fresh one opened. The swap therefore
//! runs in three phases. Quiesce: each role's handle is replaced by a
//! throwaway placeholder and the real handle is closed, the caller waiting
//! until the close is complete. Flip: the binding is exchanged, in one step.
//! Reopen: a fresh handle is opened on the slot that each role now resolves
//! to and takes the placeholder's place.
//!
//! The caller performs one action at a time and reports whether it
//! succeeded. A failure before the flip aborts the swap with the binding as
//! it was, and the roles that were quiesced get their handles back on the
//! same slots. Once the flip went through the swap counts as done: a handle
//! that cannot be reopened stays a placeholder until the next access opens a
//! fresh one.

use vstd::prelude::*;
use crate::generation::World;
use crate::roles::{lemma_binding_is_bijection, lemma_flip_exchanges_roles, Role, RoleBinding, Slot};

verus! {

/// What stands in a role's place at a given moment.
#[derive(Clone, Copy, Debug, PartialEq, Eq, Structural)]
pub enum Handle {
    /// A real handle, open on the given slot.
    Open(Slot),
    /// A placeholder that holds no documents, while the real handle is
    /// closed.
    Placeholder,
}

/// One action of the swap.
#[derive(Clone, Copy, Debug, PartialEq, Eq, Structural)]
pub enum SwapAction {
    /// Put a placeholder in the role's place, close the real handle and wait
    /// until the close is complete.
    Quiesce(Role),
    /// Exchange which slot each role resolves to.
    Flip,
    /// Open a fresh handle on the slot, put it in the role's place and drop
    /// the placeholder.
    Reopen(Role, Slot),
    /// Nothing is left to do; `true` where the roles were exchanged.
    Finish(bool),
}

/// The state of a swap as the rules see it.
pub struct SwapState {
    /// The binding when the swap began.
    pub initial: RoleBinding,
    /// The binding now.
    pub binding: RoleBinding,
    /// Whether the flip went through.
    pub committed: bool,
    /// What stands in the active role's place.
    pub active: Handle,
    /// What stands in the staging role's place.
    pub staging: Handle,
    /// The action that the caller is to perform and report on.
    pub awaiting: SwapAction,
}

impl SwapState {
    /// What stands in a role's place.
    pub open spec fn handle(self, role: Role) -> Handle {
        match role {
            Role::Active => self.active,
            Role::Staging => self.staging,
        }
    }

    /// The state at the start of a swap under `binding`.
    pub open spec fn begin(binding: RoleBinding) -> SwapState {
        SwapState {
            initial: binding,
            binding,
            committed: false,
            active: Handle::Open(binding.slot_of(Role::Active)),
            staging: Handle::Open(binding.slot_of(Role::Staging)),
            awaiting: SwapAction::Quiesce(Role::Active),
        }
    }

    /// What every state of a swap satisfies.
    ///
    /// The binding is the initial one until the flip went through and the
    /// exchanged one from then on. A real handle is only ever open on the
    /// slot that its role resolves to. Both handles are placeholders while
    /// the flip is awaited, and the slot named by a reopen is the one that
    /// the role resolves to.
    pub open spec fn wf(self) -> bool {
        &&& self.binding == (if self.committed {
            self.initial.spec_flipped()
        } else {
            self.initial
        })
        &&& self.active matches Handle::Open(slot) ==> slot == self.binding.slot_of(Role::Active)
        &&& self.staging matches Handle::Open(slot) ==> slot == self.binding.slot_of(Role::Staging)
        &&& match self.awaiting {
            SwapAction::Quiesce(Role::Active) => !self.committed && self.active is Open
                && self.staging is Open,
            SwapAction::Quiesce(Role::Staging) => !self.committed && self.active is Placeholder
                && self.staging is Open,
            SwapAction::Flip => !self.committed && self.active is Placeholder
                && self.staging is Placeholder,
            SwapAction::Reopen(Role::Active, slot) => slot == self.binding.slot_of(Role::Active)
                && self.active is Placeholder,
            SwapAction::Reopen(Role::Staging, slot) => slot == self.binding.slot_of(Role::Staging)
                && self.staging is Placeholder,
            SwapAction::Finish(flipped) => flipped == self.committed,
        }
    }

    /// The action that follows once the active role has been dealt with on
    /// the way back: reopen the staging role where it was quiesced, else
    /// finish.
    pub open spec fn after_active(self) -> SwapAction {
        if self.staging is Placeholder {
            SwapAction::Reopen(Role::Staging, self.binding.slot_of(Role::Staging))
        } else {
            SwapAction::Finish(self.committed)
        }
    }

    /// The state after the awaited action ended, `ok` telling whether it
    /// succeeded.
    pub open spec fn after(self, ok: bool) -> SwapState {
        match self.awaiting {
            SwapAction::Quiesce(Role::Active) => if ok {
                SwapState {
                    active: Handle::Placeholder,
                    awaiting: SwapAction::Quiesce(Role::Staging),
                    ..self
                }
            } else {
                SwapState { awaiting: SwapAction::Finish(false), ..self }
            },
            SwapAction::Quiesce(Role::Staging) => if ok {
                SwapState { staging: Handle::Placeholder, awaiting: SwapAction::Flip, ..self }
            } else {
                SwapState {
                    awaiting: SwapAction::Reopen(Role::Active, self.binding.slot_of(Role::Active)),
                    ..self
                }
            },
            SwapAction::Flip => if ok {
                SwapState {
                    binding: self.binding.spec_flipped(),
                    committed: true,
                    awaiting: SwapAction::Reopen(
                        Role::Active,
                        self.binding.spec_flipped().slot_of(Role::Active),
                    ),
                    ..self
                }
            } else {
                SwapState {
                    awaiting: SwapAction::Reopen(Role::Active, self.binding.slot_of(Role::Active)),
                    ..self
                }
            },
            SwapAction::Reopen(Role::Active, slot) => SwapState {
                active: if ok {
                    Handle::Open(slot)
                } else {
                    self.active
                },
                awaiting: self.after_active(),
                ..self
            },
            SwapAction::Reopen(Role::Staging, slot) => SwapState {
                staging: if ok {
                    Handle::Open(slot)
                } else {
                    self.staging
                },
                awaiting: SwapAction::Finish(self.committed),
                ..self
            },
            SwapAction::Finish(_) => self,
        }
    }

    /// Number of actions that are still to come at most, the awaited one
    /// included.
    pub open spec fn remaining(self) -> nat {
        match self.awaiting {
            SwapAction::Quiesce(Role::Active) => 5,
            SwapAction::Quiesce(Role::Staging) => 4,
            SwapAction::Flip => 3,
            SwapAction::Reopen(Role::Active, _) => 2,
            SwapAction::Reopen(Role::Staging, _) => 1,
            SwapAction::Finish(_) => 0,
        }
    }

    /// The state after a sequence of outcomes.
    pub open spec fn after_all(self, outcomes: Seq<bool>) -> SwapState
        decreases outcomes.len(),
    {
        if outcomes.len() == 0 {
            self
        } else {
            self.after(outcomes.first()).after_all(outcomes.drop_first())
        }
    }
}

/// A swap in progress.
pub struct SwapMachine {
    initial: RoleBinding,
    binding: RoleBinding,
    committed: bool,
    active: Handle,
    staging: Handle,
    awaiting: SwapAction,
}

impl View for SwapMachine {
    type V = SwapState;

    closed spec fn view(&self) -> SwapState {
        SwapState {
            initial: self.initial,
            binding: self.binding,
            committed: self.committed,
            active: self.active,
            staging: self.staging,
            awaiting: self.awaiting,
        }
    }
}

impl SwapMachine {
    #[verifier::type_invariant]
    spec fn inv(self) -> bool {
        self@.wf()
    }

    /// Starts a swap under the given binding, with a real handle open on
    /// each role's slot. The first action is to quiesce the active role.
    pub fn begin(binding: RoleBinding) -> (machine: SwapMachine)
        ensures
            machine@ == SwapState::begin(binding),
            machine@.wf(),
    {
        SwapMachine {
            initial: binding,
            binding,
            committed: false,
            active: Handle::Open(binding.resolve(Role::Active)),
            staging: Handle::Open(binding.resolve(Role::Staging)),
            awaiting: SwapAction::Quiesce(Role::Active),
        }
    }

    /// The action that the caller is to perform and report on.
    pub fn awaiting(&self) -> (action: SwapAction)
        ensures
            action == self@.awaiting,
            self@.wf(),
    {
        proof {
            use_type_invariant(self);
        }
        self.awaiting
    }

    /// The binding as it stands: the initial one until the flip went
    /// through, the exchanged one from then on.
    pub fn binding(&self) -> (binding: RoleBinding)
        ensures
            binding == self@.binding,
            binding == (if self@.committed {
                self@.initial.spec_flipped()
            } else {
                self@.initial
            }),
    {
        proof {
            use_type_invariant(self);
        }
        self.binding
    }

    /// Whether the flip went through.
    pub fn committed(&self) -> (committed: bool)
        ensures
            committed == self@.committed,
    {
        self.committed
    }

    /// What stands in a role's place. Where it is a real handle, it is open
    /// on the slot that the role resolves to.
    pub fn handle(&self, role: Role) -> (handle: Handle)
        ensures
            handle == self@.handle(role),
            handle matches Handle::Open(slot) ==> slot == self@.binding.slot_of(role),
    {
        proof {
            use_type_invariant(self);
        }
        match role {
            Role::Active => self.active,
            Role::Staging => self.staging,
        }
    }

    /// Whether nothing is left to do.
    pub fn is_finished(&self) -> (finished: bool)
        ensures
            finished == (self@.awaiting is Finish),
    {
        match self.awaiting {
            SwapAction::Finish(_) => true,
            _ => false,
        }
    }

    /// Takes the outcome of the awaited action and says what to do next.
    pub fn advance(&mut self, ok: bool) -> (action: SwapAction)
        ensures
            final(self)@ == old(self)@.after(ok),
            action == final(self)@.awaiting,
            old(self)@.wf(),
            final(self)@.wf(),
    {
        proof {
            use_type_invariant(&*self);
            lemma_swap_step_keeps_wf(self@, ok);
        }
        let initial = self.initial;
        let binding = self.binding;
        let committed = self.committed;
        let active = self.active;
        let staging = self.staging;
        let awaiting = self.awaiting;
        let next = match awaiting {
            SwapAction::Quiesce(Role::Active) => if ok {
                SwapMachine {
                    initial,
                    binding,
                    committed,
                    active: Handle::Placeholder,
                    staging,
                    awaiting: SwapAction::Quiesce(Role::Staging),
                }
            } else {
                SwapMachine {
                    initial,
                    binding,
                    committed,
                    active,
                    staging,
                    awaiting: SwapAction::Finish(false),
                }
            },
            SwapAction::Quiesce(Role::Staging) => if ok {
                SwapMachine {
                    initial,
                    binding,
                    committed,
                    active,
                    staging: Handle::Placeholder,
                    awaiting: SwapAction::Flip,
                }
            } else {
                SwapMachine {
                    initial,
                    binding,
                    committed,
                    active,
                    staging,
                    awaiting: SwapAction::Reopen(Role::Active, binding.resolve(Role::Active)),
                }
            },
            SwapAction::Flip => if ok {
                let mut flipped = binding;
                flipped.flip();
                SwapMachine {
                    initial,
                    binding: flipped,
                    committed: true,
                    active,
                    staging,
                    awaiting: SwapAction::Reopen(Role::Active, flipped.resolve(Role::Active)),
                }
            } else {
                SwapMachine {
                    initial,
                    binding,
                    committed,
                    active,
                    staging,
                    awaiting: SwapAction::Reopen(Role::Active, binding.resolve(Role::Active)),
                }
            },
            SwapAction::Reopen(Role::Active, slot) => {
                let then = match staging {
                    Handle::Placeholder => SwapAction::Reopen(
                        Role::Staging,
                        binding.resolve(Role::Staging),
                    ),
                    Handle::Open(_) => SwapAction::Finish(committed),
                };
                SwapMachine {
                    initial,
                    binding,
                    committed,
                    active: if ok {
                        Handle::Open(slot)
                    } else {
                        active
                    },
                    staging,
                    awaiting: then,
                }
            },
            SwapAction::Reopen(Role::Staging, slot) => SwapMachine {
                initial,
                binding,
                committed,
                active,
                staging: if ok {
                    Handle::Open(slot)
                } else {
                    staging
                },
                awaiting: SwapAction::Finish(committed),
            },
            SwapAction::Finish(flipped) => SwapMachine {
                initial,
                binding,
                committed,
                active,
                staging,
                awaiting: SwapAction::Finish(flipped),
            },
        };
        *self = next;
        self.awaiting
    }
}

/// Every step of a swap keeps its state well formed, and brings the end
/// nearer until nothing is left to do.
pub proof fn lemma_swap_step_keeps_wf(state: SwapState, ok: bool)
    requires
        state.wf(),
    ensures
        state.after(ok).wf(),
        state.after(ok).initial == state.initial,
        !(state.awaiting is Finish) ==> state.after(ok).remaining() < state.remaining(),
        state.awaiting is Finish ==> state.after(ok) == state,
{
    lemma_binding_is_bijection(state.binding);
    lemma_flip_exchanges_roles(state.binding);
}

/// The binding changes at one step only, the flip that succeeds, and there
/// it is exchanged whole; a failure before it ends the swap with the binding
/// as it was.
pub proof fn lemma_binding_changes_only_at_flip(state: SwapState, ok: bool)
    requires
        state.wf(),
    ensures
        state.awaiting is Flip && ok ==> state.after(ok).binding == state.binding.spec_flipped()
            && state.after(ok).committed,
        !(state.awaiting is Flip && ok) ==> state.after(ok).binding == state.binding
            && state.after(ok).committed == state.committed,
        state.after(ok).awaiting matches SwapAction::Finish(flipped) ==> (flipped <==> state.after(
            ok,
        ).binding == state.initial.spec_flipped()),
{
    lemma_swap_step_keeps_wf(state, ok);
}

/// At every moment of a swap, whatever succeeded and whatever failed, the
/// active role resolves to exactly one slot, and queries see one whole
/// generation: the one that was active when the swap began until the flip
/// went through, the one that was staged from then on. A real handle is
/// never open on any other slot than the one its role resolves to, and no
/// role is ever without a handle.
pub proof fn lemma_swap_shows_one_generation(
    binding: RoleBinding,
    outcomes: Seq<bool>,
    alpha: Map<u128, crate::page::PageView>,
    beta: Map<u128, crate::page::PageView>,
)
    ensures
        ({
            let state = SwapState::begin(binding).after_all(outcomes);
            let before = World { alpha, beta, binding };
            let now = World { alpha, beta, binding: state.binding };
            &&& state.wf()
            &&& state.initial == binding
            &&& now.visible(Role::Active) == (if state.committed {
                before.visible(Role::Staging)
            } else {
                before.visible(Role::Active)
            })
            &&& now.visible(Role::Staging) == (if state.committed {
                before.visible(Role::Active)
            } else {
                before.visible(Role::Staging)
            })
            &&& forall|role: Role| #[trigger]
                state.handle(role) matches Handle::Open(slot) ==> slot == state.binding.slot_of(role)
        }),
{
    lemma_swap_run_keeps_wf(SwapState::begin(binding), outcomes);
    lemma_flip_exchanges_roles(binding);
    let state = SwapState::begin(binding).after_all(outcomes);
    assert(Role::Active.spec_other() == Role::Staging);
    assert(Role::Staging.spec_other() == Role::Active);
}

/// What a query finds in the active role's place: the documents of the slot
/// that a real handle is open on, or none while a placeholder stands there.
pub open spec fn served(state: SwapState, world: World) -> Map<u128, crate::page::PageView> {
    match state.active {
        Handle::Open(slot) => world.documents(slot),
        Handle::Placeholder => Map::empty(),
    }
}

/// A query that runs at any moment of a swap is answered from one
/// generation: from the one that was active when the swap began, from the
/// one that was staged, or, while a placeholder stands in for the handle
/// being exchanged, from none. It is never answered from a slot that the
/// active role does not resolve to, and never from parts of both.
pub proof fn lemma_query_is_served_from_one_generation(
    binding: RoleBinding,
    outcomes: Seq<bool>,
    world: World,
)
    requires
        world.binding == binding,
    ensures
        ({
            let state = SwapState::begin(binding).after_all(outcomes);
            let found = served(state, world);
            &&& state.active is Placeholder ==> found == Map::<u128, crate::page::PageView>::empty()
            &&& state.active is Open && !state.committed ==> found == world.visible(Role::Active)
            &&& state.active is Open && state.committed ==> found == world.visible(Role::Staging)
        }),
{
    lemma_swap_run_keeps_wf(SwapState::begin(binding), outcomes);
    lemma_flip_exchanges_roles(binding);
    assert(Role::Active.spec_other() == Role::Staging);
}

/// Every sequence of steps keeps the state of a swap well formed.
pub proof fn lemma_swap_run_keeps_wf(state: SwapState, outcomes: Seq<bool>)
    requires
        state.wf(),
    ensures
        state.after_all(outcomes).wf(),
        state.after_all(outcomes).initial == state.initial,
    decreases outcomes.len(),
{
    if outcomes.len() > 0 {
        lemma_swap_step_keeps_wf(state, outcomes.first());
        lemma_swap_run_keeps_wf(state.after(outcomes.first()), outcomes.drop_first());
    }
}

/// A swap is over after five steps at most.
pub proof fn lemma_swap_finishes(state: SwapState, outcomes: Seq<bool>)
    requires
        state.wf(),
        outcomes.len() >= state.remaining(),
    ensures
        state.after_all(outcomes).awaiting is Finish,
    decreases outcomes.len(),
{
    if outcomes.len() > 0 {
        lemma_swap_step_keeps_wf(state, outcomes.first());
        lemma_swap_finishes(state.after(outcomes.first()), outcomes.drop_first());
    }
}

} // verus!
