use website::roles::{Role, RoleBinding, Slot};

#[test]
fn fresh_binding_has_alpha_active() {
    let binding = RoleBinding::initial();
    assert_eq!(binding.resolve(Role::Active), Slot::Alpha);
    assert_eq!(binding.resolve(Role::Staging), Slot::Beta);
    assert!(binding.alpha_is_active());
}

#[test]
fn flip_exchanges_the_slots_and_twice_restores_them() {
    let mut binding = RoleBinding::initial();
    binding.flip();
    assert_eq!(binding.resolve(Role::Active), Slot::Beta);
    assert_eq!(binding.resolve(Role::Staging), Slot::Alpha);
    assert!(!binding.alpha_is_active());
    binding.flip();
    assert_eq!(binding, RoleBinding::initial());
}

#[test]
fn roles_never_share_a_slot() {
    for flipped in [false, true] {
        let binding = RoleBinding { flipped };
        assert_ne!(binding.resolve(Role::Active), binding.resolve(Role::Staging));
        for slot in [Slot::Alpha, Slot::Beta] {
            assert_eq!(binding.resolve(binding.role_for(slot)), slot);
        }
        for role in [Role::Active, Role::Staging] {
            assert_eq!(binding.role_for(binding.resolve(role)), role);
        }
    }
}

#[test]
fn binding_is_read_back_from_the_recorded_active_slot() {
    assert_eq!(RoleBinding::with_active(Slot::Alpha), RoleBinding { flipped: false });
    assert_eq!(RoleBinding::with_active(Slot::Beta), RoleBinding { flipped: true });
    assert_eq!(RoleBinding::with_active(Slot::Beta).resolve(Role::Staging), Slot::Alpha);
}

#[test]
fn names_on_disk() {
    assert_eq!(Slot::Alpha.dir_name(), "alpha");
    assert_eq!(Slot::Beta.dir_name(), "beta");
    assert_eq!(Role::Active.link_name(), "active");
    assert_eq!(Role::Staging.link_name(), "staging");
    assert_eq!(Role::Active.placeholder_name(), "active.dummy");
    assert_eq!(Role::Staging.placeholder_name(), "staging.dummy");
}

#[test]
fn the_other_role_and_slot() {
    assert_eq!(Role::Active.other(), Role::Staging);
    assert_eq!(Role::Staging.other(), Role::Active);
    assert_eq!(Slot::Alpha.other(), Slot::Beta);
    assert_eq!(Slot::Beta.other(), Slot::Alpha);
}
