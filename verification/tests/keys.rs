use motoboard::engine::Engine;
use motoboard::keys::{key_to_string, Key, KeyToken};
use motoboard::registry::{Action, KeybindRegistry, RegistryError};
use motoboard::tracker::PressedKeys;

fn play(id: &str) -> Action {
    Action::PlaySound(id.to_string())
}

#[test]
fn key_names() {
    assert_eq!(key_to_string(Key::KeyA), Some("A".to_string()));
    assert_eq!(key_to_string(Key::KeyZ), Some("Z".to_string()));
    assert_eq!(key_to_string(Key::Num0), Some("0".to_string()));
    assert_eq!(key_to_string(Key::F12), Some("F12".to_string()));
    assert_eq!(key_to_string(Key::Kp7), Some("NUMPAD7".to_string()));
    assert_eq!(key_to_string(Key::KpPlus), Some("NUMPAD+".to_string()));
    assert_eq!(key_to_string(Key::KpDivide), Some("NUMPAD/".to_string()));
    assert_eq!(key_to_string(Key::Return), Some("ENTER".to_string()));
    assert_eq!(key_to_string(Key::UpArrow), Some("ARROWUP".to_string()));
    assert_eq!(key_to_string(Key::BackSlash), Some("\\".to_string()));
    assert_eq!(key_to_string(Key::BackQuote), Some("`".to_string()));
    assert_eq!(key_to_string(Key::Quote), Some("'".to_string()));
}

#[test]
fn modifier_keys_share_a_name() {
    assert_eq!(key_to_string(Key::ControlLeft), Some("CTRL".to_string()));
    assert_eq!(key_to_string(Key::ControlRight), Some("CTRL".to_string()));
    assert_eq!(key_to_string(Key::ShiftLeft), Some("SHIFT".to_string()));
    assert_eq!(key_to_string(Key::ShiftRight), Some("SHIFT".to_string()));
    assert_eq!(key_to_string(Key::Alt), Some("ALT".to_string()));
    assert_eq!(key_to_string(Key::AltGr), Some("ALT".to_string()));
    assert_eq!(key_to_string(Key::MetaLeft), Some("META".to_string()));
    assert_eq!(key_to_string(Key::MetaRight), Some("META".to_string()));
}

#[test]
fn unmapped_keys_have_no_name() {
    for key in [
        Key::CapsLock,
        Key::PrintScreen,
        Key::ScrollLock,
        Key::Pause,
        Key::NumLock,
        Key::IntlBackslash,
        Key::KpReturn,
        Key::KpDelete,
        Key::Function,
        Key::Unknown(0),
        Key::Unknown(65),
    ] {
        assert_eq!(key_to_string(key), None);
        assert_eq!(key.token(), None);
    }
}

#[test]
fn tokens_and_labels() {
    assert_eq!(Key::ControlLeft.token(), Some(KeyToken::Ctrl));
    assert!(KeyToken::Ctrl.is_modifier());
    assert!(KeyToken::Meta.is_modifier());
    assert!(!KeyToken::A.is_modifier());
    assert_eq!(KeyToken::Meta.name(), "META");
    assert_eq!(KeyToken::Meta.label(), "Meta");
    assert_eq!(KeyToken::Ctrl.label(), "Ctrl");
    assert_eq!(KeyToken::Shift.label(), "Shift");
    assert_eq!(KeyToken::Alt.label(), "Alt");
    assert_eq!(KeyToken::Space.label(), "SPACE");
}

#[test]
fn registering_again_releases_the_prior_chord() {
    let mut registry = KeybindRegistry::new();
    assert_eq!(registry.register("Ctrl+A", play("S")), Ok(()));
    assert_eq!(registry.register("Ctrl+B", play("S")), Ok(()));
    assert_eq!(registry.action_for("Ctrl+A"), None);
    assert_eq!(registry.action_for("Ctrl+B"), Some(play("S")));
    assert_eq!(registry.list(), vec!["Ctrl+B".to_string()]);
    assert_eq!(registry.len(), 1);
}

#[test]
fn a_taken_chord_is_refused() {
    let mut registry = KeybindRegistry::new();
    assert_eq!(registry.register("Ctrl+Shift+A", play("one")), Ok(()));
    assert_eq!(
        registry.register("Shift+Ctrl+A", play("two")),
        Err(RegistryError::DuplicateBinding)
    );
    assert_eq!(registry.register("Ctrl+Shift+A", Action::StopAll), Err(RegistryError::DuplicateBinding));
    assert_eq!(registry.action_for("Ctrl+Shift+A"), Some(play("one")));
    assert_eq!(registry.list(), vec!["Ctrl+Shift+A".to_string()]);
}

#[test]
fn a_refused_registration_keeps_the_old_chord() {
    let mut registry = KeybindRegistry::new();
    assert_eq!(registry.register("F1", play("one")), Ok(()));
    assert_eq!(registry.register("F2", play("two")), Ok(()));
    assert_eq!(registry.register("F1", play("two")), Err(RegistryError::DuplicateBinding));
    assert_eq!(registry.action_for("F1"), Some(play("one")));
    assert_eq!(registry.action_for("F2"), Some(play("two")));
}

#[test]
fn registering_the_same_binding_twice_is_fine() {
    let mut registry = KeybindRegistry::new();
    assert_eq!(registry.register("Shift+Ctrl+A", play("S")), Ok(()));
    assert_eq!(registry.register("Ctrl+Shift+A", play("S")), Ok(()));
    assert_eq!(registry.list(), vec!["Ctrl+Shift+A".to_string()]);
}

#[test]
fn chords_are_stored_in_canonical_form() {
    let mut registry = KeybindRegistry::new();
    assert_eq!(registry.register("Shift+Ctrl+A", play("S")), Ok(()));
    assert_eq!(registry.register("Meta+Alt+F1", Action::StopAll), Ok(()));
    assert_eq!(
        registry.list(),
        vec!["Ctrl+Shift+A".to_string(), "Alt+Meta+F1".to_string()]
    );
    assert_eq!(registry.action_for("Shift+Ctrl+A"), None);
    assert_eq!(registry.action_for("Alt+Meta+F1"), Some(Action::StopAll));
    assert_eq!(registry.lookup("Shift+Ctrl+A"), Some(play("S")));
    assert_eq!(registry.lookup("Meta+Alt+F1"), Some(Action::StopAll));
    assert_eq!(registry.lookup("Alt+F1"), None);
}

#[test]
fn unregistering_removes_one_chord() {
    let mut registry = KeybindRegistry::new();
    assert_eq!(registry.register("Ctrl+A", play("one")), Ok(()));
    assert_eq!(registry.register("Ctrl+Shift+B", play("two")), Ok(()));
    registry.unregister("Shift+Ctrl+B");
    assert_eq!(registry.list(), vec!["Ctrl+A".to_string()]);
    registry.unregister("Ctrl+Z");
    assert_eq!(registry.list(), vec!["Ctrl+A".to_string()]);
    registry.unregister("Ctrl+A");
    assert!(registry.list().is_empty());
    assert_eq!(registry.len(), 0);
}

#[test]
fn actions_compare_and_copy() {
    assert!(play("a").same_as(&play("a")));
    assert!(!play("a").same_as(&play("b")));
    assert!(!play("a").same_as(&Action::StopAll));
    assert!(Action::StopAll.same_as(&Action::StopAll));
    assert_eq!(play("a").clone(), play("a"));
}

#[test]
fn pressed_keys_keep_the_order_of_pressing() {
    let mut keys = PressedKeys::new();
    assert_eq!(keys.candidate(), None);
    keys.press(KeyToken::Shift);
    keys.press(KeyToken::Ctrl);
    assert_eq!(keys.candidate(), None);
    assert_eq!(keys.main_key(), None);
    keys.press(KeyToken::A);
    assert_eq!(keys.candidate(), Some("Ctrl+Shift+A".to_string()));
    keys.press(KeyToken::B);
    assert_eq!(keys.main_key(), Some(KeyToken::B));
    assert_eq!(keys.candidate(), Some("Ctrl+Shift+B".to_string()));
    keys.press(KeyToken::A);
    assert_eq!(keys.candidate(), Some("Ctrl+Shift+A".to_string()));
    assert_eq!(keys.len(), 4);
    keys.release(KeyToken::A);
    assert_eq!(keys.candidate(), Some("Ctrl+Shift+B".to_string()));
    keys.release(KeyToken::Shift);
    assert_eq!(keys.candidate(), Some("Ctrl+B".to_string()));
    assert!(keys.contains(KeyToken::Ctrl));
    assert!(!keys.contains(KeyToken::Shift));
}

#[test]
fn all_modifiers_are_written_in_alphabetical_order() {
    let mut keys = PressedKeys::new();
    keys.press(KeyToken::Meta);
    keys.press(KeyToken::Shift);
    keys.press(KeyToken::Ctrl);
    keys.press(KeyToken::Alt);
    keys.press(KeyToken::F5);
    assert_eq!(keys.candidate(), Some("Alt+Ctrl+Meta+Shift+F5".to_string()));
}

#[test]
fn end_to_end_chord_dispatch() {
    let mut engine = Engine::new();
    assert_eq!(engine.register_binding("Ctrl+A", play("S1")), Ok(()));
    assert_eq!(engine.register_binding("Ctrl+Shift+X", Action::StopAll), Ok(()));
    assert_eq!(engine.on_key_down(Key::ControlLeft), None);
    assert_eq!(engine.on_key_down(Key::KeyA), Some(play("S1")));
    engine.on_key_up(Key::KeyA);
    engine.on_key_up(Key::ControlLeft);
    assert_eq!(engine.on_key_down(Key::ShiftRight), None);
    assert_eq!(engine.on_key_down(Key::ControlRight), None);
    assert_eq!(engine.on_key_down(Key::KeyX), Some(Action::StopAll));
}

#[test]
fn releasing_a_key_triggers_nothing_and_frees_the_chord() {
    let mut engine = Engine::new();
    assert_eq!(engine.register_binding("A", play("S1")), Ok(()));
    assert_eq!(engine.on_key_down(Key::ShiftLeft), None);
    assert_eq!(engine.on_key_down(Key::KeyA), None);
    engine.on_key_up(Key::ShiftLeft);
    assert_eq!(engine.on_key_down(Key::KeyA), Some(play("S1")));
}

#[test]
fn unmapped_keys_are_ignored() {
    let mut engine = Engine::new();
    assert_eq!(engine.register_binding("Ctrl+A", play("S1")), Ok(()));
    assert_eq!(engine.on_key_down(Key::ControlLeft), None);
    assert_eq!(engine.on_key_down(Key::KeyA), Some(play("S1")));
    assert_eq!(engine.on_key_down(Key::CapsLock), None);
    assert_eq!(engine.on_key_down(Key::Unknown(255)), None);
    assert_eq!(engine.last_key_press(), Some("A".to_string()));
    engine.on_key_up(Key::CapsLock);
    assert_eq!(engine.on_key_down(Key::KeyA), Some(play("S1")));
}

#[test]
fn either_key_of_a_modifier_releases_it() {
    let mut engine = Engine::new();
    assert_eq!(engine.register_binding("A", play("S1")), Ok(()));
    assert_eq!(engine.on_key_down(Key::ControlLeft), None);
    assert_eq!(engine.on_key_down(Key::ControlRight), None);
    engine.on_key_up(Key::ControlRight);
    assert_eq!(engine.on_key_down(Key::KeyA), Some(play("S1")));
}

#[test]
fn engine_lists_and_unregisters() {
    let mut engine = Engine::new();
    assert_eq!(engine.last_key_press(), None);
    assert_eq!(engine.register_binding("Shift+Ctrl+A", play("S1")), Ok(()));
    assert_eq!(
        engine.register_binding("Ctrl+Shift+A", play("S2")),
        Err(RegistryError::DuplicateBinding)
    );
    assert_eq!(engine.list_bindings(), vec!["Ctrl+Shift+A".to_string()]);
    engine.unregister_binding("Shift+Ctrl+A");
    assert!(engine.list_bindings().is_empty());
    assert_eq!(engine.on_key_down(Key::KeyA), None);
    assert_eq!(engine.last_key_press(), Some("A".to_string()));
}

#[test]
fn a_chord_with_meta_fires() {
    let mut engine = Engine::new();
    assert_eq!(engine.register_binding("Meta+A", play("S1")), Ok(()));
    assert_eq!(engine.on_key_down(Key::MetaLeft), None);
    assert_eq!(engine.on_key_down(Key::KeyA), Some(play("S1")));
    engine.on_key_up(Key::KeyA);
    engine.on_key_up(Key::MetaLeft);
    assert_eq!(engine.on_key_down(Key::MetaRight), None);
    assert_eq!(engine.on_key_down(Key::KeyA), Some(play("S1")));
}

#[test]
fn a_chord_fires_in_whatever_order_it_was_written() {
    let mut engine = Engine::new();
    assert_eq!(engine.register_binding("Shift+Meta+Ctrl+Alt+F5", play("S1")), Ok(()));
    assert_eq!(engine.list_bindings(), vec!["Alt+Ctrl+Meta+Shift+F5".to_string()]);
    assert_eq!(engine.on_key_down(Key::ShiftLeft), None);
    assert_eq!(engine.on_key_down(Key::AltGr), None);
    assert_eq!(engine.on_key_down(Key::MetaRight), None);
    assert_eq!(engine.on_key_down(Key::ControlLeft), None);
    assert_eq!(engine.on_key_down(Key::F5), Some(play("S1")));
}

#[test]
fn the_plus_key_of_the_number_pad_fires_with_modifiers() {
    let mut engine = Engine::new();
    assert_eq!(engine.register_binding("Shift+NUMPAD+", play("S1")), Ok(()));
    assert_eq!(engine.register_binding("Ctrl+Shift+NUMPAD+", play("S2")), Ok(()));
    assert_eq!(engine.register_binding("NUMPAD+", play("S3")), Ok(()));
    assert_eq!(engine.on_key_down(Key::KpPlus), Some(play("S3")));
    engine.on_key_up(Key::KpPlus);
    assert_eq!(engine.on_key_down(Key::ShiftLeft), None);
    assert_eq!(engine.on_key_down(Key::KpPlus), Some(play("S1")));
    engine.on_key_up(Key::KpPlus);
    assert_eq!(engine.on_key_down(Key::ControlLeft), None);
    assert_eq!(engine.on_key_down(Key::KpPlus), Some(play("S2")));
    engine.on_key_up(Key::ShiftLeft);
    assert_eq!(engine.on_key_down(Key::KpPlus), None);
}

#[test]
fn a_modifier_going_down_fires_the_chord_of_a_held_main_key() {
    let mut engine = Engine::new();
    assert_eq!(engine.register_binding("Shift+A", play("S1")), Ok(()));
    assert_eq!(engine.on_key_down(Key::KeyA), None);
    assert_eq!(engine.on_key_down(Key::ShiftLeft), Some(play("S1")));
}
