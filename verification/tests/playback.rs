use motoboard::device::{
    find_device_by_name, first_containing, get_audio_devices, resolve_device, text_contains,
    AudioDevice, DeviceChoice,
};
use motoboard::dispatch::PlaybackRequest;
use motoboard::playback::{
    clamp_volume, dispatch_volume, effective_volume, plan_trim, poll, reset_delay, PlaybackError,
    PollDecision, TrimPlan, FULL_VOLUME, POLL_INTERVAL_MS, STOP_RESET_DELAY_MS,
};
use motoboard::task::{Event, PlaybackTask, Stage, Step};

fn named(names: &[&str]) -> Vec<Option<String>> {
    names.iter().map(|n| Some(n.to_string())).collect()
}

fn request(device: Option<&str>, start: Option<u64>, end: Option<u64>) -> PlaybackRequest {
    PlaybackRequest {
        path: "/sounds/horn.mp3".to_string(),
        device: device.map(|d| d.to_string()),
        volume: 400_000,
        trim_start: start,
        trim_end: end,
    }
}

#[test]
fn trim_that_ends_before_it_starts_is_invalid() {
    assert_eq!(plan_trim(Some(2000), Some(1000)), Err(PlaybackError::InvalidTrim));
}

#[test]
fn trim_that_ends_where_it_starts_is_invalid() {
    assert_eq!(plan_trim(Some(1500), Some(1500)), Err(PlaybackError::InvalidTrim));
    assert_eq!(plan_trim(Some(0), Some(0)), Err(PlaybackError::InvalidTrim));
}

#[test]
fn trim_window_between_both_bounds() {
    assert_eq!(
        plan_trim(Some(1000), Some(3000)),
        Ok(TrimPlan { skip_ms: 1000, take_ms: Some(2000) })
    );
}

#[test]
fn trim_with_one_bound_or_none() {
    assert_eq!(plan_trim(None, Some(3000)), Ok(TrimPlan { skip_ms: 0, take_ms: Some(3000) }));
    assert_eq!(plan_trim(None, Some(0)), Ok(TrimPlan { skip_ms: 0, take_ms: Some(0) }));
    assert_eq!(plan_trim(Some(1000), None), Ok(TrimPlan { skip_ms: 1000, take_ms: None }));
    assert_eq!(plan_trim(None, None), Ok(TrimPlan { skip_ms: 0, take_ms: None }));
    assert_eq!(
        plan_trim(Some(0), Some(u64::MAX)),
        Ok(TrimPlan { skip_ms: 0, take_ms: Some(u64::MAX) })
    );
}

#[test]
fn volumes_are_held_to_the_range() {
    assert_eq!(clamp_volume(0), 0);
    assert_eq!(clamp_volume(250_000), 250_000);
    assert_eq!(clamp_volume(FULL_VOLUME), FULL_VOLUME);
    assert_eq!(clamp_volume(FULL_VOLUME + 1), FULL_VOLUME);
    assert_eq!(clamp_volume(u32::MAX), FULL_VOLUME);
}

#[test]
fn master_volume_scales_the_sound() {
    assert_eq!(effective_volume(800_000, 500_000), 400_000);
    assert_eq!(effective_volume(FULL_VOLUME, 123_456), 123_456);
    assert_eq!(effective_volume(0, 900_000), 0);
    assert_eq!(effective_volume(333_333, 333_333), 111_110);
    assert_eq!(effective_volume(u32::MAX, u32::MAX), 18_446_744_065_119);
}

#[test]
fn poll_decisions() {
    assert_eq!(poll(true, false), PollDecision::Finish);
    assert_eq!(poll(true, true), PollDecision::Finish);
    assert_eq!(poll(false, true), PollDecision::Halt);
    assert_eq!(poll(false, false), PollDecision::Wait(50));
    assert!(POLL_INTERVAL_MS <= 100);
}

#[test]
fn a_stale_stop_flag_is_waited_out() {
    assert_eq!(reset_delay(true), Some(100));
    assert_eq!(reset_delay(false), None);
    assert_eq!(STOP_RESET_DELAY_MS, 100);
}

#[test]
fn text_search() {
    assert!(text_contains("speakers (realtek)", "realtek"));
    assert!(text_contains("abc", ""));
    assert!(text_contains("", ""));
    assert!(text_contains("abc", "abc"));
    assert!(text_contains("aab", "ab"));
    assert!(!text_contains("abc", "abcd"));
    assert!(!text_contains("abc", "ac"));
    assert!(!text_contains("", "a"));
}

#[test]
fn devices_are_found_by_part_of_their_name_whatever_the_case() {
    let devices = named(&["Speakers (Realtek Audio)", "CABLE Input (VB-Audio)", "Headphones"]);
    assert_eq!(find_device_by_name(&devices, "cable input"), Some(1));
    assert_eq!(find_device_by_name(&devices, "HEADPHONES"), Some(2));
    assert_eq!(find_device_by_name(&devices, "audio"), Some(0));
    assert_eq!(find_device_by_name(&devices, "bluetooth"), None);
    assert_eq!(find_device_by_name(&devices, ""), Some(0));
    assert_eq!(find_device_by_name(&Vec::new(), "audio"), None);
}

#[test]
fn devices_without_a_name_are_passed_over() {
    let devices = vec![None, Some("Line Out".to_string())];
    assert_eq!(find_device_by_name(&devices, ""), Some(1));
    assert_eq!(find_device_by_name(&devices, "LINE"), Some(1));
    assert_eq!(find_device_by_name(&vec![None, None], ""), None);
}

#[test]
fn first_containing_compares_as_given() {
    let lowered = named(&["speakers", "Speakers"]);
    assert_eq!(first_containing(&lowered, "Speak"), Some(1));
    assert_eq!(first_containing(&lowered, "speak"), Some(0));
    assert_eq!(first_containing(&lowered, "SPEAK"), None);
}

#[test]
fn device_falls_back_to_the_default() {
    let devices = named(&["Speakers", "Headphones"]);
    assert_eq!(resolve_device(&devices, &Some("phones".to_string())), DeviceChoice::Listed(1));
    assert_eq!(resolve_device(&devices, &Some("hdmi".to_string())), DeviceChoice::SystemDefault);
    assert_eq!(resolve_device(&devices, &None), DeviceChoice::SystemDefault);
}

#[test]
fn devices_for_the_front_end() {
    let listed = get_audio_devices(vec![Some("Speakers".to_string()), None, Some("HDMI".to_string())]);
    assert_eq!(
        listed,
        vec![
            AudioDevice { id: 0, name: "Speakers".to_string() },
            AudioDevice { id: 2, name: "HDMI".to_string() },
        ]
    );
    assert!(get_audio_devices(Vec::new()).is_empty());
}

#[test]
fn a_task_plays_to_the_end() {
    let mut task = PlaybackTask::new(request(Some("phones"), Some(1000), Some(3000)));
    assert_eq!(task.path(), "/sounds/horn.mp3");
    assert_eq!(task.pending_step(), Step::OpenFile);
    assert_eq!(task.result(), None);
    assert_eq!(task.advance(Event::FileOpened), Step::Decode);
    assert_eq!(task.advance(Event::Decoded), Step::ListDevices);
    assert_eq!(
        task.advance(Event::Devices(named(&["Speakers", "Headphones"]))),
        Step::OpenDevice(DeviceChoice::Listed(1))
    );
    assert_eq!(
        task.advance(Event::DeviceOpened),
        Step::Start { skip_ms: 1000, take_ms: Some(2000), volume: 400_000 }
    );
    assert_eq!(task.current_stage(), Stage::Playing);
    assert_eq!(task.advance(Event::Polled { drained: false, stop_requested: false }), Step::Wait(50));
    assert_eq!(task.advance(Event::Polled { drained: false, stop_requested: false }), Step::Wait(50));
    assert_eq!(task.advance(Event::Polled { drained: true, stop_requested: false }), Step::Succeed);
    assert_eq!(task.current_stage(), Stage::Completed);
    assert_eq!(task.result(), Some(Ok(())));
}

#[test]
fn a_task_without_a_device_name_goes_to_the_default() {
    let mut task = PlaybackTask::new(request(None, None, None));
    assert_eq!(task.advance(Event::FileOpened), Step::Decode);
    assert_eq!(task.advance(Event::Decoded), Step::OpenDevice(DeviceChoice::SystemDefault));
    assert_eq!(
        task.advance(Event::DeviceOpened),
        Step::Start { skip_ms: 0, take_ms: None, volume: 400_000 }
    );
}

#[test]
fn a_task_with_an_unknown_device_goes_to_the_default() {
    let mut task = PlaybackTask::new(request(Some("hdmi"), None, None));
    assert_eq!(task.advance(Event::FileOpened), Step::Decode);
    assert_eq!(task.advance(Event::Decoded), Step::ListDevices);
    assert_eq!(
        task.advance(Event::Devices(named(&["Speakers"]))),
        Step::OpenDevice(DeviceChoice::SystemDefault)
    );
}

#[test]
fn the_stop_flag_halts_a_playing_task() {
    let mut task = PlaybackTask::new(request(None, None, None));
    task.advance(Event::FileOpened);
    task.advance(Event::Decoded);
    task.advance(Event::DeviceOpened);
    assert_eq!(task.advance(Event::Polled { drained: false, stop_requested: false }), Step::Wait(50));
    assert_eq!(task.advance(Event::Polled { drained: false, stop_requested: true }), Step::Halt);
    assert_eq!(task.current_stage(), Stage::Halted);
    assert_eq!(task.result(), Some(Ok(())));
    assert_eq!(task.advance(Event::Polled { drained: false, stop_requested: false }), Step::Halt);
    assert_eq!(task.current_stage(), Stage::Halted);
}

#[test]
fn a_missing_file_fails_the_task() {
    let mut task = PlaybackTask::new(request(None, None, None));
    assert_eq!(task.advance(Event::FileUnavailable), Step::Fail(PlaybackError::FileNotFound));
    assert_eq!(task.result(), Some(Err(PlaybackError::FileNotFound)));
    assert_eq!(task.advance(Event::FileOpened), Step::Fail(PlaybackError::FileNotFound));
}

#[test]
fn undecodable_data_fails_the_task() {
    let mut task = PlaybackTask::new(request(None, None, None));
    task.advance(Event::FileOpened);
    assert_eq!(task.advance(Event::Undecodable), Step::Fail(PlaybackError::DecodeError));
    assert_eq!(task.current_stage(), Stage::Failed(PlaybackError::DecodeError));
}

#[test]
fn a_device_that_does_not_open_fails_the_task() {
    let mut task = PlaybackTask::new(request(None, None, None));
    task.advance(Event::FileOpened);
    task.advance(Event::Decoded);
    assert_eq!(task.advance(Event::DeviceUnavailable), Step::Fail(PlaybackError::DeviceError));
    assert_eq!(task.result(), Some(Err(PlaybackError::DeviceError)));
}

#[test]
fn an_invalid_trim_fails_the_task_once_the_device_is_open() {
    let mut task = PlaybackTask::new(request(None, Some(2000), Some(1000)));
    assert_eq!(task.advance(Event::FileOpened), Step::Decode);
    assert_eq!(task.advance(Event::Decoded), Step::OpenDevice(DeviceChoice::SystemDefault));
    assert_eq!(task.advance(Event::DeviceOpened), Step::Fail(PlaybackError::InvalidTrim));
    assert_eq!(task.result(), Some(Err(PlaybackError::InvalidTrim)));
}

#[test]
fn an_event_out_of_turn_changes_nothing() {
    let mut task = PlaybackTask::new(request(Some("x"), None, None));
    assert_eq!(task.advance(Event::Decoded), Step::OpenFile);
    assert_eq!(task.advance(Event::Polled { drained: true, stop_requested: true }), Step::OpenFile);
    assert_eq!(task.current_stage(), Stage::Opening);
    task.advance(Event::FileOpened);
    assert_eq!(task.advance(Event::DeviceOpened), Step::Decode);
    task.advance(Event::Decoded);
    assert_eq!(task.advance(Event::FileOpened), Step::ListDevices);
    task.advance(Event::Devices(Vec::new()));
    assert_eq!(task.advance(Event::Decoded), Step::OpenDevice(DeviceChoice::SystemDefault));
    task.advance(Event::DeviceOpened);
    assert_eq!(task.advance(Event::DeviceOpened), Step::Wait(50));
}

#[test]
fn the_volume_of_a_dispatch_stays_within_the_range() {
    assert_eq!(dispatch_volume(800_000, 500_000), 400_000);
    assert_eq!(dispatch_volume(FULL_VOLUME, FULL_VOLUME), FULL_VOLUME);
    assert_eq!(dispatch_volume(u32::MAX, u32::MAX), FULL_VOLUME);
    assert_eq!(dispatch_volume(2_000_000, 250_000), 250_000);
    assert_eq!(dispatch_volume(250_000, 2_000_000), 250_000);
    assert_eq!(dispatch_volume(0, 2_000_000), 0);
}

#[test]
fn a_task_starts_no_louder_than_full_volume() {
    let mut loud = request(None, None, None);
    loud.volume = 4_000_000;
    let mut task = PlaybackTask::new(loud);
    task.advance(Event::FileOpened);
    task.advance(Event::Decoded);
    assert_eq!(
        task.advance(Event::DeviceOpened),
        Step::Start { skip_ms: 0, take_ms: None, volume: 1_000_000 }
    );
}
