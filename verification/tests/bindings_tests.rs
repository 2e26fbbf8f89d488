use marswm::bindings::BindingAction;
use marswm::bindings::ButtonBinding;
use marswm::bindings::ButtonTarget;
use marswm::bindings::CONTROL_MASK;
use marswm::bindings::KeyBinding;
use marswm::bindings::LOCK_MASK;
use marswm::bindings::MOD1_MASK;
use marswm::bindings::MOD2_MASK;
use marswm::bindings::Modifier;
use marswm::bindings::SHIFT_MASK;
use marswm::bindings::XK_D;
use marswm::bindings::XK_F1;
use marswm::bindings::XK_J;
use marswm::bindings::default_button_bindings;
use marswm::bindings::default_key_bindings;
use marswm::bindings::resolve_button_binding;
use marswm::bindings::resolve_key_binding;
use marswm::bindings::sanitize_modifiers;

#[test]
fn sanitize_masks_out_lock_bits() {
    // caps lock
    assert_eq!(sanitize_modifiers(MOD1_MASK | LOCK_MASK), MOD1_MASK);
    // num lock (the second mod group)
    assert_eq!(sanitize_modifiers(MOD1_MASK | MOD2_MASK), MOD1_MASK);
    assert_eq!(sanitize_modifiers(0xffff_ffff), 0xed);
    assert_eq!(sanitize_modifiers(SHIFT_MASK | CONTROL_MASK), SHIFT_MASK | CONTROL_MASK);
}

#[test]
fn modifier_masks() {
    assert_eq!(Modifier::Mod1.mask(), MOD1_MASK);
    assert_eq!(Modifier::Shift.mask(), SHIFT_MASK);
    assert_eq!(Modifier::Control.mask(), CONTROL_MASK);
    assert_eq!(Modifier::Mod4.mask(), 0x40);
}

#[test]
fn key_binding_matches_exactly() {
    let b = KeyBinding::new(vec![Modifier::Mod1, Modifier::Shift], XK_J, BindingAction::StackMove(1));
    assert_eq!(b.modifiers(), MOD1_MASK | SHIFT_MASK);
    assert!(b.matches(MOD1_MASK | SHIFT_MASK, XK_J));
    assert!(!b.matches(MOD1_MASK, XK_J));
    assert!(!b.matches(MOD1_MASK | SHIFT_MASK, XK_D));
    // an extra honored modifier bit must not match
    assert!(!b.matches(MOD1_MASK | SHIFT_MASK | CONTROL_MASK, XK_J));
}

#[test]
fn first_matching_key_binding_wins() {
    let bindings = vec![
        KeyBinding::new(vec![Modifier::Mod1], XK_D, BindingAction::CloseClient),
        KeyBinding::new(vec![Modifier::Mod1], XK_D, BindingAction::Exit),
    ];
    let r = resolve_key_binding(&bindings, MOD1_MASK, XK_D);
    assert_eq!(r, Some(0));
    assert_eq!(*bindings[0].action(), BindingAction::CloseClient);
}

#[test]
fn unmatched_key_event_produces_no_action() {
    let bindings = vec![KeyBinding::new(vec![Modifier::Mod1], XK_D, BindingAction::CloseClient)];
    assert_eq!(resolve_key_binding(&bindings, SHIFT_MASK, XK_D), None);
    assert_eq!(resolve_key_binding(&bindings, MOD1_MASK, XK_J), None);
}

#[test]
fn button_binding_matches_target_class() {
    let b = ButtonBinding::new(
        vec![Modifier::Mod1],
        1,
        vec![ButtonTarget::Window, ButtonTarget::Frame],
        BindingAction::MouseMove,
    );
    assert!(b.matches(MOD1_MASK, 1, ButtonTarget::Window));
    assert!(b.matches(MOD1_MASK, 1, ButtonTarget::Frame));
    assert!(!b.matches(MOD1_MASK, 1, ButtonTarget::Root));
    assert!(!b.matches(MOD1_MASK, 2, ButtonTarget::Window));
    assert_eq!(b.button(), 1);
    assert_eq!(b.targets().as_slice(), &[ButtonTarget::Window, ButtonTarget::Frame]);
}

#[test]
fn first_matching_button_binding_wins() {
    let bindings = default_button_bindings();
    // a plain left press on a frame resolves to the first frame binding
    let r = resolve_button_binding(&bindings, 0, 1, ButtonTarget::Frame);
    assert_eq!(r, Some(0));
    assert_eq!(*bindings[0].action(), BindingAction::MousePlace);
    // an unbound button produces no action
    assert_eq!(resolve_button_binding(&bindings, 0, 9, ButtonTarget::Frame), None);
}

#[test]
fn default_key_binding_table_shape() {
    let b = default_key_bindings(9);
    assert_eq!(b.len(), 34 + 18);
    assert_eq!(b[0].key(), XK_D);
    assert_eq!(*b[0].action(), BindingAction::Execute(String::from("dmenu_run")));
    assert_eq!(*b[3].action(), BindingAction::CycleClient(1));
    assert_eq!(*b[13].action(), BindingAction::CloseClient);
    // the workspace block: switch and move for each of nine workspaces
    assert_eq!(b[34].key(), XK_F1);
    assert_eq!(*b[34].action(), BindingAction::SwitchWorkspace(0));
    assert_eq!(*b[35].action(), BindingAction::MoveWorkspace(0));
    assert_eq!(b[50].key(), XK_F1 + 8);
    assert_eq!(*b[50].action(), BindingAction::SwitchWorkspace(8));
}

#[test]
fn default_key_binding_table_caps_workspaces_at_nine() {
    assert_eq!(default_key_bindings(30).len(), 34 + 18);
    assert_eq!(default_key_bindings(2).len(), 34 + 4);
}

#[test]
fn default_button_binding_table_shape() {
    let b = default_button_bindings();
    assert_eq!(b.len(), 13);
    assert_eq!(b[5].button(), 3);
    assert_eq!(*b[5].action(), BindingAction::MouseResize);
}
