use motoboard::dispatch::{Dispatch, PlaybackRequest};
use motoboard::engine::Engine;
use motoboard::keys::Key;
use motoboard::registry::{Action, Binding};
use motoboard::settings::{default_theme, should_persist, Settings, DEFAULT_MASTER_VOLUME};
use motoboard::sound::{clone_text, place, same_text, sound_name, Sound};
use motoboard::state::{AudioState, BoardError};
use motoboard::updates::{update_info, UpdateInfo};

fn sound(id: &str, order: i32) -> Sound {
    Sound {
        id: id.to_string(),
        name: format!("sound {}", id),
        keybind: None,
        volume: 500_000,
        file_path: format!("/sounds/{}.wav", id),
        start_ms: None,
        end_ms: None,
        order,
    }
}

fn ids(sounds: &[Sound]) -> Vec<String> {
    sounds.iter().map(|s| s.id.clone()).collect()
}

#[test]
fn persistence_follows_the_build() {
    assert!(should_persist(false));
    assert!(!should_persist(true));
}

#[test]
fn the_default_theme_is_green() {
    assert_eq!(default_theme(), "green");
}

#[test]
fn a_new_board_has_the_default_settings() {
    let state = AudioState::new();
    assert_eq!(state.sound_count(), 0);
    assert_eq!(
        state.get_settings(),
        Settings {
            primary_device: None,
            monitor_device: None,
            master_volume: 800_000,
            stop_all_keybind: None,
            compact_mode: false,
            theme: "green".to_string(),
            minimize_to_tray: false,
        }
    );
    assert_eq!(DEFAULT_MASTER_VOLUME, 800_000);
    assert_eq!(Settings::default(), state.get_settings());
    assert_eq!(AudioState::default().get_settings(), state.get_settings());
    assert_eq!(AudioState::default().sound_count(), 0);
}

#[test]
fn settings_are_set_one_by_one() {
    let mut settings = Settings::default();
    settings.set_primary_device("Speakers".to_string());
    settings.set_monitor_device("Headphones".to_string());
    settings.set_master_volume(2_000_000);
    settings.set_stop_all_keybind(Some("Ctrl+Shift+X".to_string()));
    settings.set_compact_mode(true);
    settings.set_theme("blue".to_string());
    settings.set_minimize_to_tray(true);
    assert_eq!(
        settings,
        Settings {
            primary_device: Some("Speakers".to_string()),
            monitor_device: Some("Headphones".to_string()),
            master_volume: 1_000_000,
            stop_all_keybind: Some("Ctrl+Shift+X".to_string()),
            compact_mode: true,
            theme: "blue".to_string(),
            minimize_to_tray: true,
        }
    );
    settings.set_monitor_device(String::new());
    assert_eq!(settings.monitor_device, None);
    settings.set_master_volume(250_000);
    assert_eq!(settings.master_volume, 250_000);
    settings.set_stop_all_keybind(None);
    assert_eq!(settings.stop_all_keybind, None);
    assert_eq!(settings.clone(), settings);
}

#[test]
fn optional_texts() {
    assert!(same_text(&None, &None));
    assert!(same_text(&Some("a".to_string()), &Some("a".to_string())));
    assert!(!same_text(&Some("a".to_string()), &Some("b".to_string())));
    assert!(!same_text(&Some("a".to_string()), &None));
    assert_eq!(clone_text(&Some("a".to_string())), Some("a".to_string()));
    assert_eq!(clone_text(&None), None);
}

#[test]
fn sound_names_and_places() {
    assert_eq!(sound_name(Some("kick".to_string())), "kick");
    assert_eq!(sound_name(None), "Untitled");
    assert_eq!(place(0), 0);
    assert_eq!(place(41), 41);
    assert_eq!(place(2_147_483_647), i32::MAX);
    assert_eq!(place(2_147_483_648), i32::MAX);
}

#[test]
fn adding_a_sound_with_a_given_identifier() {
    let mut state = AudioState::new();
    let first = state.add_sound("id-1".to_string(), Some("kick".to_string()), "/s/kick.wav".to_string());
    assert_eq!(
        first,
        Sound {
            id: "id-1".to_string(),
            name: "kick".to_string(),
            keybind: None,
            volume: 1_000_000,
            file_path: "/s/kick.wav".to_string(),
            start_ms: None,
            end_ms: None,
            order: 0,
        }
    );
    let second = state.add_sound("id-2".to_string(), None, "/s/.wav".to_string());
    assert_eq!(second.name, "Untitled");
    assert_eq!(second.order, 1);
    assert_eq!(state.sound_count(), 2);
    assert_eq!(state.sound("id-1"), Some(first));
    assert_eq!(state.sound("id-3"), None);
}

#[test]
fn adding_a_sound_from_a_path() {
    let mut state = AudioState::new();
    let first = state.add_sound_from_path("/sounds/air horn.mp3".to_string(), true).unwrap();
    let second = state.add_sound_from_path("/sounds/drum.roll.wav".to_string(), true).unwrap();
    assert_eq!(first.name, "air horn");
    assert_eq!(second.name, "drum.roll");
    assert_eq!(first.id.chars().count(), 36);
    assert_eq!(second.id.chars().count(), 36);
    assert_ne!(first.id, second.id);
    assert_eq!(first.order, 0);
    assert_eq!(second.order, 1);
    assert_eq!(first.volume, 1_000_000);
    assert_eq!(first.file_path, "/sounds/air horn.mp3");
    assert_eq!(state.sound_count(), 2);
    assert_eq!(state.sound(&second.id), Some(second));
}

#[test]
fn a_missing_file_is_not_added() {
    let mut state = AudioState::new();
    assert_eq!(
        state.add_sound_from_path("/sounds/gone.mp3".to_string(), false),
        Err(BoardError::FileNotFound)
    );
    assert_eq!(state.sound_count(), 0);
}

#[test]
fn a_path_without_a_file_name_gives_an_untitled_sound() {
    let mut state = AudioState::new();
    let added = state.add_sound_from_path("/".to_string(), true).unwrap();
    assert_eq!(added.name, "Untitled");
}

#[test]
fn inserting_replaces_the_sound_with_the_same_identifier() {
    let mut state = AudioState::new();
    state.insert_sound(sound("a", 0));
    state.insert_sound(sound("b", 1));
    let mut changed = sound("a", 7);
    changed.name = "changed".to_string();
    state.insert_sound(changed.clone());
    assert_eq!(state.sound_count(), 2);
    assert_eq!(state.sound("a"), Some(changed));
    assert_eq!(ids(&state.get_all()), vec!["a".to_string(), "b".to_string()]);
}

#[test]
fn removing_a_sound() {
    let mut state = AudioState::new();
    state.insert_sound(sound("a", 0));
    state.insert_sound(sound("b", 1));
    state.insert_sound(sound("c", 2));
    state.remove_sound("b");
    assert_eq!(ids(&state.get_all()), vec!["a".to_string(), "c".to_string()]);
    state.remove_sound("zzz");
    assert_eq!(state.sound_count(), 2);
}

#[test]
fn updating_a_sound() {
    let mut state = AudioState::new();
    state.insert_sound(sound("a", 0));
    state.update_sound_keybind("a", Some("Ctrl+A".to_string()));
    state.update_sound_trim("a", Some(1000), Some(3000));
    let stored = state.sound("a").unwrap();
    assert_eq!(stored.keybind, Some("Ctrl+A".to_string()));
    assert_eq!(stored.start_ms, Some(1000));
    assert_eq!(stored.end_ms, Some(3000));
    assert_eq!(stored.name, "sound a");
    state.update_sound_keybind("a", None);
    state.update_sound_trim("a", None, None);
    assert_eq!(state.sound("a"), Some(sound("a", 0)));
    state.update_sound_keybind("missing", Some("Ctrl+B".to_string()));
    state.update_sound_trim("missing", Some(1), Some(2));
    assert_eq!(state.get_all(), vec![sound("a", 0)]);
}

#[test]
fn reordering_the_sounds() {
    let mut state = AudioState::new();
    state.insert_sound(sound("a", 0));
    state.insert_sound(sound("b", 1));
    state.insert_sound(sound("c", 2));
    state.update_sound_order(&vec!["c".to_string(), "missing".to_string(), "a".to_string()]);
    assert_eq!(state.sound("c").unwrap().order, 0);
    assert_eq!(state.sound("a").unwrap().order, 2);
    assert_eq!(state.sound("b").unwrap().order, 1);
    state.update_sound_order(&vec!["b".to_string(), "a".to_string(), "b".to_string()]);
    assert_eq!(state.sound("b").unwrap().order, 2);
    assert_eq!(state.sound("a").unwrap().order, 1);
}

#[test]
fn sounds_come_by_their_place() {
    let mut state = AudioState::new();
    state.insert_sound(sound("a", 5));
    state.insert_sound(sound("b", -1));
    state.insert_sound(sound("c", 3));
    state.insert_sound(sound("d", 4));
    assert_eq!(
        ids(&state.get_sounds()),
        vec!["b".to_string(), "c".to_string(), "d".to_string(), "a".to_string()]
    );
    assert_eq!(
        ids(&state.get_all()),
        vec!["a".to_string(), "b".to_string(), "c".to_string(), "d".to_string()]
    );
    assert!(AudioState::new().get_sounds().is_empty());
}

#[test]
fn loading_keeps_the_later_of_two_sounds_with_one_identifier() {
    let mut state = AudioState::new();
    let mut later = sound("a", 9);
    later.name = "later".to_string();
    state.load_sounds(vec![sound("a", 0), sound("b", 1), later.clone()]);
    assert_eq!(state.get_all(), vec![later, sound("b", 1)]);
}

#[test]
fn applying_settings_leaves_the_sounds() {
    let mut state = AudioState::new();
    state.insert_sound(sound("a", 0));
    let mut settings = Settings::default();
    settings.set_theme("red".to_string());
    state.apply_settings(settings.clone());
    assert_eq!(state.get_settings(), settings);
    assert_eq!(state.sound_count(), 1);
}

fn board(primary: Option<&str>, monitor: Option<&str>) -> AudioState {
    let mut state = AudioState::new();
    let mut s = sound("horn", 0);
    s.start_ms = Some(1000);
    s.end_ms = Some(3000);
    state.insert_sound(s);
    let mut settings = Settings::default();
    settings.primary_device = primary.map(|d| d.to_string());
    settings.monitor_device = monitor.map(|d| d.to_string());
    state.apply_settings(settings);
    state
}

fn horn_on(device: Option<&str>) -> PlaybackRequest {
    PlaybackRequest {
        path: "/sounds/horn.wav".to_string(),
        device: device.map(|d| d.to_string()),
        volume: 400_000,
        trim_start: Some(1000),
        trim_end: Some(3000),
    }
}

#[test]
fn two_tasks_where_the_monitor_is_another_device() {
    let dispatch = board(Some("Speakers"), Some("Headphones")).plan_dispatch("horn", true).unwrap();
    assert_eq!(dispatch.task_count(), 2);
    assert_eq!(
        dispatch,
        Dispatch { primary: horn_on(Some("Speakers")), monitor: Some(horn_on(Some("Headphones"))) }
    );
}

#[test]
fn one_task_where_the_monitor_is_the_primary_device() {
    let dispatch = board(Some("Speakers"), Some("Speakers")).plan_dispatch("horn", true).unwrap();
    assert_eq!(dispatch.task_count(), 1);
    assert_eq!(dispatch, Dispatch { primary: horn_on(Some("Speakers")), monitor: None });
}

#[test]
fn one_task_without_a_monitor() {
    let dispatch = board(Some("Speakers"), None).plan_dispatch("horn", true).unwrap();
    assert_eq!(dispatch.task_count(), 1);
    assert_eq!(dispatch, Dispatch { primary: horn_on(Some("Speakers")), monitor: None });
    let dispatch = board(None, None).plan_dispatch("horn", true).unwrap();
    assert_eq!(dispatch, Dispatch { primary: horn_on(None), monitor: None });
}

#[test]
fn two_tasks_where_only_the_monitor_is_set() {
    let dispatch = board(None, Some("Headphones")).plan_dispatch("horn", true).unwrap();
    assert_eq!(dispatch.task_count(), 2);
    assert_eq!(
        dispatch,
        Dispatch { primary: horn_on(None), monitor: Some(horn_on(Some("Headphones"))) }
    );
}

#[test]
fn a_dispatch_needs_the_sound_and_its_file() {
    let state = board(Some("Speakers"), Some("Headphones"));
    assert_eq!(state.plan_dispatch("nope", true), Err(BoardError::SoundNotFound));
    assert_eq!(state.plan_dispatch("nope", false), Err(BoardError::SoundNotFound));
    assert_eq!(state.plan_dispatch("horn", false), Err(BoardError::FileNotFound));
}

#[test]
fn a_dispatch_reads_the_settings_as_they_are() {
    let mut state = board(Some("Speakers"), None);
    let before = state.plan_dispatch("horn", true).unwrap();
    let mut settings = state.get_settings();
    settings.set_master_volume(1_000_000);
    state.apply_settings(settings);
    let after = state.plan_dispatch("horn", true).unwrap();
    assert_eq!(before.primary.volume, 400_000);
    assert_eq!(after.primary.volume, 500_000);
}

#[test]
fn the_saved_bindings_are_those_of_the_sounds_and_the_stop_chord() {
    let mut state = AudioState::new();
    state.insert_sound(sound("a", 0));
    state.insert_sound(sound("b", 1));
    state.insert_sound(sound("c", 2));
    state.update_sound_keybind("a", Some("Shift+Ctrl+A".to_string()));
    state.update_sound_keybind("c", Some("F3".to_string()));
    assert_eq!(
        state.wanted_bindings(),
        vec![
            Binding { chord: "Shift+Ctrl+A".to_string(), action: Action::PlaySound("a".to_string()) },
            Binding { chord: "F3".to_string(), action: Action::PlaySound("c".to_string()) },
        ]
    );
    let mut settings = state.get_settings();
    settings.set_stop_all_keybind(Some("Ctrl+Shift+X".to_string()));
    state.apply_settings(settings);
    let wanted = state.wanted_bindings();
    assert_eq!(wanted.len(), 3);
    assert_eq!(wanted[2], Binding { chord: "Ctrl+Shift+X".to_string(), action: Action::StopAll });

    let mut engine = Engine::new();
    assert_eq!(engine.load_bindings(&wanted), 0);
    assert_eq!(
        engine.list_bindings(),
        vec!["Ctrl+Shift+A".to_string(), "F3".to_string(), "Ctrl+Shift+X".to_string()]
    );
    assert_eq!(engine.on_key_down(Key::F3), Some(Action::PlaySound("c".to_string())));
}

#[test]
fn loading_bindings_counts_the_refused_ones() {
    let wanted = vec![
        Binding { chord: "Ctrl+A".to_string(), action: Action::PlaySound("a".to_string()) },
        Binding { chord: "Ctrl+A".to_string(), action: Action::PlaySound("b".to_string()) },
        Binding { chord: "Ctrl+B".to_string(), action: Action::PlaySound("a".to_string()) },
        Binding { chord: "Ctrl+A".to_string(), action: Action::StopAll },
        Binding { chord: "Ctrl+B".to_string(), action: Action::StopAll },
    ];
    let mut engine = Engine::new();
    assert_eq!(engine.load_bindings(&wanted), 2);
    assert_eq!(engine.list_bindings(), vec!["Ctrl+B".to_string(), "Ctrl+A".to_string()]);
    assert_eq!(engine.load_bindings(&Vec::new()), 0);
}

#[test]
fn update_answers() {
    assert_eq!(
        update_info(true, "1.2.3".to_string(), Some("fixes".to_string())),
        UpdateInfo {
            available: true,
            version: Some("1.2.3".to_string()),
            notes: Some("fixes".to_string()),
        }
    );
    assert_eq!(
        update_info(true, "1.2.3".to_string(), None),
        UpdateInfo { available: true, version: Some("1.2.3".to_string()), notes: None }
    );
    assert_eq!(
        update_info(false, "1.2.3".to_string(), Some("fixes".to_string())),
        UpdateInfo { available: false, version: None, notes: None }
    );
}

#[test]
fn a_dispatch_never_goes_out_above_full_volume() {
    let mut state = AudioState::new();
    let mut loud = sound("loud", 0);
    loud.volume = 3_000_000;
    state.insert_sound(loud);
    let mut settings = Settings::default();
    settings.master_volume = 2_500_000;
    settings.monitor_device = Some("Headphones".to_string());
    state.apply_settings(settings);
    let dispatch = state.plan_dispatch("loud", true).unwrap();
    assert_eq!(dispatch.primary.volume, 1_000_000);
    assert_eq!(dispatch.monitor.unwrap().volume, 1_000_000);

    let mut settings = state.get_settings();
    settings.master_volume = 500_000;
    state.apply_settings(settings);
    assert_eq!(state.plan_dispatch("loud", true).unwrap().primary.volume, 500_000);
}
