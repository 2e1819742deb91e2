use website::roles::{Role, RoleBinding, Slot};
use website::swap::{Handle, SwapAction, SwapMachine};

fn drive(binding: RoleBinding, outcomes: &[bool]) -> (SwapMachine, Vec<SwapAction>) {
    let mut machine = SwapMachine::begin(binding);
    let mut actions = vec![machine.awaiting()];
    for ok in outcomes {
        actions.push(machine.advance(*ok));
    }
    (machine, actions)
}

#[test]
fn a_swap_quiesces_flips_and_reopens() {
    let (machine, actions) = drive(RoleBinding::initial(), &[true, true, true, true, true]);
    assert_eq!(
        actions,
        vec![
            SwapAction::Quiesce(Role::Active),
            SwapAction::Quiesce(Role::Staging),
            SwapAction::Flip,
            SwapAction::Reopen(Role::Active, Slot::Beta),
            SwapAction::Reopen(Role::Staging, Slot::Alpha),
            SwapAction::Finish(true),
        ]
    );
    assert!(machine.is_finished());
    assert!(machine.committed());
    assert_eq!(machine.binding(), RoleBinding { flipped: true });
    assert_eq!(machine.handle(Role::Active), Handle::Open(Slot::Beta));
    assert_eq!(machine.handle(Role::Staging), Handle::Open(Slot::Alpha));
}

#[test]
fn a_swap_from_the_flipped_binding_goes_back() {
    let (machine, actions) = drive(RoleBinding { flipped: true }, &[true, true, true, true, true]);
    assert_eq!(actions[3], SwapAction::Reopen(Role::Active, Slot::Alpha));
    assert_eq!(actions[4], SwapAction::Reopen(Role::Staging, Slot::Beta));
    assert_eq!(machine.binding(), RoleBinding::initial());
}

#[test]
fn handles_are_placeholders_while_the_flip_is_awaited() {
    let mut machine = SwapMachine::begin(RoleBinding::initial());
    assert_eq!(machine.handle(Role::Active), Handle::Open(Slot::Alpha));
    assert_eq!(machine.handle(Role::Staging), Handle::Open(Slot::Beta));
    machine.advance(true);
    assert_eq!(machine.handle(Role::Active), Handle::Placeholder);
    assert_eq!(machine.handle(Role::Staging), Handle::Open(Slot::Beta));
    assert_eq!(machine.advance(true), SwapAction::Flip);
    assert_eq!(machine.handle(Role::Staging), Handle::Placeholder);
    assert_eq!(machine.binding(), RoleBinding::initial());
    assert!(!machine.committed());
    machine.advance(true);
    assert_eq!(machine.binding(), RoleBinding { flipped: true });
    assert_eq!(machine.handle(Role::Active), Handle::Placeholder);
}

#[test]
fn a_failure_to_quiesce_the_active_role_ends_the_swap_at_once() {
    let (machine, actions) = drive(RoleBinding::initial(), &[false]);
    assert_eq!(actions, vec![SwapAction::Quiesce(Role::Active), SwapAction::Finish(false)]);
    assert_eq!(machine.binding(), RoleBinding::initial());
    assert_eq!(machine.handle(Role::Active), Handle::Open(Slot::Alpha));
    assert_eq!(machine.handle(Role::Staging), Handle::Open(Slot::Beta));
}

#[test]
fn a_failure_to_quiesce_the_staging_role_reopens_the_active_one() {
    let (machine, actions) = drive(RoleBinding::initial(), &[true, false, true]);
    assert_eq!(
        actions,
        vec![
            SwapAction::Quiesce(Role::Active),
            SwapAction::Quiesce(Role::Staging),
            SwapAction::Reopen(Role::Active, Slot::Alpha),
            SwapAction::Finish(false),
        ]
    );
    assert_eq!(machine.binding(), RoleBinding::initial());
    assert_eq!(machine.handle(Role::Active), Handle::Open(Slot::Alpha));
    assert_eq!(machine.handle(Role::Staging), Handle::Open(Slot::Beta));
}

#[test]
fn a_failed_flip_leaves_the_binding_and_reopens_both() {
    let (machine, actions) = drive(RoleBinding::initial(), &[true, true, false, true, true]);
    assert_eq!(
        actions,
        vec![
            SwapAction::Quiesce(Role::Active),
            SwapAction::Quiesce(Role::Staging),
            SwapAction::Flip,
            SwapAction::Reopen(Role::Active, Slot::Alpha),
            SwapAction::Reopen(Role::Staging, Slot::Beta),
            SwapAction::Finish(false),
        ]
    );
    assert!(!machine.committed());
    assert_eq!(machine.binding(), RoleBinding::initial());
    assert_eq!(machine.handle(Role::Active), Handle::Open(Slot::Alpha));
}

#[test]
fn a_failed_reopen_after_the_flip_still_counts_as_swapped() {
    let (machine, actions) = drive(RoleBinding::initial(), &[true, true, true, false, false]);
    assert_eq!(actions[5], SwapAction::Finish(true));
    assert!(machine.committed());
    assert_eq!(machine.binding(), RoleBinding { flipped: true });
    assert_eq!(machine.handle(Role::Active), Handle::Placeholder);
    assert_eq!(machine.handle(Role::Staging), Handle::Placeholder);
}

#[test]
fn a_finished_swap_stays_finished() {
    let (mut machine, _) = drive(RoleBinding::initial(), &[true, true, true, true, true]);
    assert_eq!(machine.advance(true), SwapAction::Finish(true));
    assert_eq!(machine.advance(false), SwapAction::Finish(true));
    assert_eq!(machine.binding(), RoleBinding { flipped: true });
}

#[test]
fn every_run_of_a_swap_shows_one_binding_and_open_handles_on_their_slots() {
    for code in 0..32u32 {
        let original = RoleBinding { flipped: code % 2 == 1 };
        let mut machine = SwapMachine::begin(original);
        for step in 0..6 {
            let binding = machine.binding();
            let mut flipped = original;
            flipped.flip();
            assert_eq!(binding, if machine.committed() { flipped } else { original });
            for role in [Role::Active, Role::Staging] {
                if let Handle::Open(slot) = machine.handle(role) {
                    assert_eq!(slot, binding.resolve(role));
                }
            }
            machine.advance((code >> step) & 1 == 1);
        }
        assert!(machine.is_finished());
    }
}
