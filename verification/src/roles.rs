//! The role indirection: which physical slot each logical role resolves to.

use vstd::prelude::*;

verus! {

/// A logical role that a slot can play.
#[derive(Clone, Copy, Debug, PartialEq, Eq, Structural)]
pub enum Role {
    /// The generation that queries read.
    Active,
    /// The generation that a reindex cycle builds.
    Staging,
}

/// One of the two permanent physical slots.
#[derive(Clone, Copy, Debug, PartialEq, Eq, Structural)]
pub enum Slot {
    Alpha,
    Beta,
}

impl Role {
    /// The role that is not `self`.
    pub open spec fn spec_other(self) -> Role {
        match self {
            Role::Active => Role::Staging,
            Role::Staging => Role::Active,
        }
    }

    /// The role that is not `self`.
    pub fn other(self) -> (r: Role)
        ensures
            r == self.spec_other(),
    {
        match self {
            Role::Active => Role::Staging,
            Role::Staging => Role::Active,
        }
    }

    /// Name of the role's record below the index root.
    pub fn link_name(self) -> (name: &'static str)
        ensures
            name@ == (match self {
                Role::Active => "active"@,
                Role::Staging => "staging"@,
            }),
    {
        match self {
            Role::Active => "active",
            Role::Staging => "staging",
        }
    }

    /// Name of the directory below the index root that holds the role's
    /// placeholder while its real handle is closed.
    pub fn placeholder_name(self) -> (name: &'static str)
        ensures
            name@ == (match self {
                Role::Active => "active.dummy"@,
                Role::Staging => "staging.dummy"@,
            }),
    {
        match self {
            Role::Active => "active.dummy",
            Role::Staging => "staging.dummy",
        }
    }
}

impl Slot {
    /// The slot that is not `self`.
    pub open spec fn spec_other(self) -> Slot {
        match self {
            Slot::Alpha => Slot::Beta,
            Slot::Beta => Slot::Alpha,
        }
    }

    /// The slot that is not `self`.
    pub fn other(self) -> (s: Slot)
        ensures
            s == self.spec_other(),
    {
        match self {
            Slot::Alpha => Slot::Beta,
            Slot::Beta => Slot::Alpha,
        }
    }

    /// Name of the slot's directory below the index root.
    pub fn dir_name(self) -> (name: &'static str)
        ensures
            name@ == (match self {
                Slot::Alpha => "alpha"@,
                Slot::Beta => "beta"@,
            }),
    {
        match self {
            Slot::Alpha => "alpha",
            Slot::Beta => "beta",
        }
    }
}

/// The binding of the two roles onto the two slots.
///
/// The table of slots is fixed, alpha first and beta second; the binding is
/// one flag that says whether the roles read that table in order or crossed.
/// Every value of the type is therefore a bijection between roles and slots.
#[derive(Clone, Copy, Debug, PartialEq, Eq, Structural)]
pub struct RoleBinding {
    pub flipped: bool,
}

impl RoleBinding {
    /// The slot that `role` resolves to.
    pub open spec fn slot_of(self, role: Role) -> Slot {
        if (role == Role::Active) != self.flipped {
            Slot::Alpha
        } else {
            Slot::Beta
        }
    }

    /// The role that resolves to `slot`.
    pub open spec fn role_of(self, slot: Slot) -> Role {
        if (slot == Slot::Alpha) != self.flipped {
            Role::Active
        } else {
            Role::Staging
        }
    }

    /// The binding with the two roles exchanged.
    pub open spec fn spec_flipped(self) -> RoleBinding {
        RoleBinding { flipped: !self.flipped }
    }

    /// The binding of a fresh index root: alpha is active, beta is staging.
    pub fn initial() -> (b: RoleBinding)
        ensures
            b.slot_of(Role::Active) == Slot::Alpha,
            b.slot_of(Role::Staging) == Slot::Beta,
            !b.flipped,
    {
        RoleBinding { flipped: false }
    }

    /// The binding under which the active role resolves to `target`, as read
    /// back from the role records after a restart.
    pub fn with_active(target: Slot) -> (b: RoleBinding)
        ensures
            b.slot_of(Role::Active) == target,
            b.slot_of(Role::Staging) == target.spec_other(),
    {
        match target {
            Slot::Alpha => RoleBinding { flipped: false },
            Slot::Beta => RoleBinding { flipped: true },
        }
    }

    /// Resolves a role to its slot.
    pub fn resolve(&self, role: Role) -> (s: Slot)
        ensures
            s == self.slot_of(role),
    {
        match role {
            Role::Active => if self.flipped { Slot::Beta } else { Slot::Alpha },
            Role::Staging => if self.flipped { Slot::Alpha } else { Slot::Beta },
        }
    }

    /// Finds the role that a slot currently plays.
    pub fn role_for(&self, slot: Slot) -> (r: Role)
        ensures
            r == self.role_of(slot),
            self.slot_of(r) == slot,
    {
        match slot {
            Slot::Alpha => if self.flipped { Role::Staging } else { Role::Active },
            Slot::Beta => if self.flipped { Role::Active } else { Role::Staging },
        }
    }

    /// Whether alpha is the slot that queries read.
    pub fn alpha_is_active(&self) -> (b: bool)
        ensures
            b == (self.slot_of(Role::Active) == Slot::Alpha),
    {
        !self.flipped
    }

    /// Exchanges which slot each role resolves to. This is the one step at
    /// which the visible generation changes.
    pub fn flip(&mut self)
        ensures
            *final(self) == old(self).spec_flipped(),
            final(self).slot_of(Role::Active) == old(self).slot_of(Role::Staging),
            final(self).slot_of(Role::Staging) == old(self).slot_of(Role::Active),
    {
        self.flipped = !self.flipped;
    }
}

/// Every binding is a bijection: the two roles never resolve to the same
/// slot, each slot plays exactly one role, and `role_of` inverts `slot_of`.
pub proof fn lemma_binding_is_bijection(b: RoleBinding)
    ensures
        b.slot_of(Role::Active) != b.slot_of(Role::Staging),
        b.role_of(Slot::Alpha) != b.role_of(Slot::Beta),
        forall|r: Role| b.role_of(#[trigger] b.slot_of(r)) == r,
        forall|s: Slot| b.slot_of(#[trigger] b.role_of(s)) == s,
{
}

/// A flip exchanges the two roles, and a second flip restores the binding.
pub proof fn lemma_flip_exchanges_roles(b: RoleBinding)
    ensures
        forall|r: Role| b.spec_flipped().slot_of(r) == #[trigger] b.slot_of(r.spec_other()),
        forall|r: Role| b.spec_flipped().slot_of(r) == (#[trigger] b.slot_of(r)).spec_other(),
        b.spec_flipped().spec_flipped() == b,
{
}

} // verus!
