use multi_audio_sink::app::{after_create, after_set_default, App, CombineStepState, Notification, NotificationLevel, Screen};
use multi_audio_sink::backend::AudioBackend;
use multi_audio_sink::models::{AudioState, CombinedGroup, Device, DeviceStatus, DeviceType, Stream};

fn device(index: u32, name: &str, description: &str, device_type: DeviceType) -> Device {
    Device {
        index,
        name: name.to_string(),
        description: description.to_string(),
        device_type,
        status: DeviceStatus::Idle,
        is_default: false,
        combined_group_id: None,
        sample_rate: None,
        sample_format: None,
        channels: None,
        volume: None,
        muted: false,
        module_index: None,
    }
}

fn stream(index: u32, app: &str, sink_index: u32) -> Stream {
    Stream {
        index,
        application_name: app.to_string(),
        media_name: None,
        sink_index,
        sink_name: String::new(),
        volume: None,
        muted: false,
    }
}

fn group(module_index: u32, sink_name: &str, label: &str) -> CombinedGroup {
    CombinedGroup {
        module_index,
        sink_name: sink_name.to_string(),
        label: label.to_string(),
        members: vec!["spk".to_string()],
        is_default: false,
        is_active: true,
    }
}

fn app_with_devices() -> App {
    let mut a = App::new(AudioBackend::new());
    a.audio_state.devices = vec![
        device(1, "alsa_output.spk", "Speakers", DeviceType::Physical),
        device(2, "bluez_output.buds", "Buds", DeviceType::Bluetooth),
        device(3, "combined_main", "Main", DeviceType::Combined),
        device(4, "null", "", DeviceType::Virtual),
    ];
    a
}

#[test]
fn new_app_starts_home_and_empty() {
    let a = App::new(AudioBackend::new());
    assert_eq!(a.screen, Screen::Home);
    assert!(a.audio_state.devices.is_empty());
    assert!(!a.loading);
    assert!(a.notification.is_none());
    assert_eq!(a.combine_wizard.step, CombineStepState::SelectDevices);
    assert!(a.combine_wizard.selected_device_indices.is_empty());
    assert!(!a.should_quit);
}

#[test]
fn navigation_resets_screen_state() {
    let mut a = app_with_devices();
    a.filter_text = "sp".to_string();
    a.filter_active = true;
    a.device_scroll_offset = 3;
    a.navigate_to(Screen::Devices);
    assert_eq!(a.screen, Screen::Devices);
    assert_eq!(a.filter_text, "");
    assert!(!a.filter_active);
    assert_eq!(a.device_scroll_offset, 0);
    a.combine_toggle_device(0);
    a.combine_wizard.group_name = "x".to_string();
    a.navigate_to(Screen::Combine);
    assert!(a.combine_wizard.selected_device_indices.is_empty());
    assert_eq!(a.combine_wizard.group_name, "");
    a.stream_scroll_offset = 4;
    a.navigate_to(Screen::Streams);
    assert_eq!(a.stream_scroll_offset, 0);
    a.filter_text = "q".to_string();
    a.go_home();
    assert_eq!(a.screen, Screen::Home);
    assert_eq!(a.filter_text, "");
}

#[test]
fn notifications_expire_after_four_seconds() {
    let mut a = App::new(AudioBackend::new());
    a.notify(Notification::info("hello"));
    assert_eq!(a.notification.as_ref().map(|n| n.message.clone()), Some("hello".to_string()));
    assert_eq!(a.notification.as_ref().map(|n| n.level), Some(NotificationLevel::Info));
    a.expire_notification(4_000_000_000);
    assert!(a.notification.is_some());
    a.expire_notification(4_500_000_000);
    assert!(a.notification.is_none());
    a.notify(Notification::warning(String::from("w")));
    a.tick_notifications();
    assert!(a.notification.is_some());
    assert_eq!(Notification::success("s").level, NotificationLevel::Success);
    assert_eq!(Notification::error("e").level, NotificationLevel::Error);
}

#[test]
fn filter_matches_name_description_and_type() {
    let mut a = app_with_devices();
    assert_eq!(a.filtered_devices().len(), 4);
    a.filter_text = "SPEAK".to_string();
    let f = a.filtered_devices();
    assert_eq!(f.len(), 1);
    assert_eq!(f[0].0, 0);
    a.filter_text = "bluetooth".to_string();
    let f = a.filtered_devices();
    assert_eq!(f.len(), 1);
    assert_eq!(f[0].0, 1);
    a.filter_text = "bluez".to_string();
    assert_eq!(a.filtered_devices()[0].1.name, "bluez_output.buds");
    a.filter_text = "zzz".to_string();
    assert!(a.filtered_devices().is_empty());
}

#[test]
fn cursors_are_clamped() {
    let mut a = app_with_devices();
    a.device_cursor = 10;
    a.clamp_device_cursor();
    assert_eq!(a.device_cursor, 3);
    a.filter_text = "zzz".to_string();
    a.clamp_device_cursor();
    assert_eq!(a.device_cursor, 0);
    a.stream_cursor = 2;
    a.clamp_stream_cursor();
    assert_eq!(a.stream_cursor, 0);
    a.audio_state.combined_groups = vec![group(1, "c1", ""), group(2, "c2", "")];
    a.combined_cursor = 9;
    a.clamp_combined_cursor();
    assert_eq!(a.combined_cursor, 1);
}

#[test]
fn selections_follow_cursors() {
    let mut a = app_with_devices();
    a.device_cursor = 1;
    assert_eq!(a.selected_device().map(|d| d.index), Some(2));
    a.filter_text = "main".to_string();
    a.device_cursor = 0;
    assert_eq!(a.selected_device().map(|d| d.index), Some(3));
    assert!(a.selected_stream().is_none());
    a.audio_state.streams = vec![stream(7, "mpv", 1)];
    assert_eq!(a.selected_stream().map(|s| s.index), Some(7));
    a.audio_state.combined_groups = vec![group(1, "c1", "One")];
    assert_eq!(a.selected_combined_group().map(|g| g.display_name().to_string()), Some("One".to_string()));
}

#[test]
fn wizard_selection_and_names() {
    let mut a = app_with_devices();
    a.combine_toggle_device(1);
    assert!(!a.combine_can_proceed());
    a.combine_toggle_device(0);
    assert!(a.combine_can_proceed());
    a.combine_toggle_device(0);
    assert!(!a.combine_can_proceed());
    a.combine_toggle_device(0);
    a.combine_toggle_device(7);
    let mut names: Vec<String> = a.combine_selected_devices().iter().map(|d| d.name.clone()).collect();
    names.sort();
    assert_eq!(names, vec!["alsa_output.spk".to_string(), "bluez_output.buds".to_string()]);
    a.combine_wizard.group_name = "  Living-Room_2 ".to_string();
    assert!(a.combine_name_is_valid());
    assert_eq!(a.combine_sink_name(), "combined_living_room_2");
    a.combine_wizard.group_name = "bad name".to_string();
    assert!(!a.combine_name_is_valid());
    assert_eq!(a.combine_sink_name(), "combined_bad_name");
    a.combine_wizard.group_name = "   ".to_string();
    assert!(!a.combine_name_is_valid());
}

#[test]
fn refresh_outcomes() {
    let mut a = app_with_devices();
    a.loading = true;
    a.device_cursor = 3;
    let mut st = AudioState::default();
    st.devices = vec![device(1, "spk", "Speakers", DeviceType::Physical)];
    a.apply_refresh(Ok(st));
    assert!(!a.loading);
    assert_eq!(a.device_cursor, 0);
    assert_eq!(a.audio_state.devices.len(), 1);
    a.start_loading();
    a.apply_refresh(Err("pactl failed".to_string()));
    assert!(!a.loading);
    assert_eq!(a.refresh_error, Some("pactl failed".to_string()));
    assert_eq!(a.audio_state.last_error, Some("pactl failed".to_string()));
    let n = a.notification.as_ref().unwrap();
    assert_eq!(n.level, NotificationLevel::Error);
    assert_eq!(n.message, "Refresh failed: pactl failed");
}

#[test]
fn action_messages() {
    let mut a = app_with_devices();
    a.finish_set_default("spk", false, Ok(()), 0);
    assert_eq!(a.notification.as_ref().unwrap().message, "'spk' is now the default output.");
    a.finish_set_default("spk", true, Ok(()), 0);
    assert_eq!(a.notification.as_ref().unwrap().message, "'spk' is now your default output and all streams moved.");
    a.finish_set_default("spk", true, Ok(()), 2);
    assert_eq!(a.notification.as_ref().unwrap().message, "Default set, but 2 stream(s) could not be moved.");
    assert_eq!(a.notification.as_ref().unwrap().level, NotificationLevel::Warning);
    a.finish_set_default("spk", true, Err("boom".to_string()), 0);
    assert_eq!(a.notification.as_ref().unwrap().message, "Could not set default: boom");
    a.finish_move_stream("spk", Ok(()));
    assert_eq!(a.notification.as_ref().unwrap().message, "Stream moved to 'spk'.");
    a.finish_move_stream("spk", Err("x".to_string()));
    assert_eq!(a.notification.as_ref().unwrap().message, "Could not move stream: x");
    a.finish_move_all_streams("spk", &vec![]);
    assert_eq!(a.notification.as_ref().unwrap().message, "All streams moved to 'spk'.");
    a.finish_move_all_streams("spk", &vec!["Stream 1 (mpv): e".to_string(), "y".to_string()]);
    assert_eq!(a.notification.as_ref().unwrap().message, "Moved streams, but 2 failed: Stream 1 (mpv): e");
    let g = group(9, "combined_x", "");
    a.finish_remove_combined(&g, Ok(()));
    assert_eq!(a.notification.as_ref().unwrap().message, "Combined output 'combined_x' removed.");
    a.finish_remove_combined(&g, Err("no".to_string()));
    assert_eq!(a.notification.as_ref().unwrap().message, "Could not remove: no");
    let d = device(1, "spk", "Speakers", DeviceType::Physical);
    a.finish_resume_device(&d, Ok(()));
    assert_eq!(a.notification.as_ref().unwrap().message, "'Speakers' resumed.");
    a.finish_resume_device(&d, Err("z".to_string()));
    assert_eq!(a.notification.as_ref().unwrap().message, "Could not resume device: z");
}

#[test]
fn create_plan_and_outcome() {
    let mut a = app_with_devices();
    a.combine_toggle_device(0);
    a.combine_toggle_device(1);
    a.combine_wizard.group_name = " Main ".to_string();
    let refused = a.prepare_create_combined();
    assert!(refused.is_none());
    assert_eq!(
        a.notification.as_ref().unwrap().message,
        "A combined output with that name already exists. Please choose a different name."
    );
    assert!(!a.loading);
    a.combine_wizard.group_name = " Duo ".to_string();
    a.combine_wizard.set_as_default = true;
    let plan = a.prepare_create_combined().unwrap();
    assert!(a.loading);
    assert_eq!(plan.sink_name, "combined_duo");
    let mut members = plan.members.clone();
    members.sort();
    assert_eq!(members, vec!["alsa_output.spk".to_string(), "bluez_output.buds".to_string()]);
    assert!(plan.set_default);
    assert!(!plan.move_streams);
    a.finish_create_combined(&plan, Ok(()));
    assert_eq!(a.screen, Screen::Devices);
    assert!(!a.loading);
    assert_eq!(a.notification.as_ref().unwrap().message, "Combined output 'Duo' created with 2 devices.");
    a.finish_create_combined(&plan, Err("bad".to_string()));
    assert_eq!(a.notification.as_ref().unwrap().message, "Failed to create combined output: bad");
}

#[test]
fn prepare_remove_and_resume() {
    let mut a = app_with_devices();
    assert!(a.prepare_remove_combined(0).is_none());
    assert!(!a.loading);
    a.audio_state.combined_groups = vec![group(3, "combined_main", "Main")];
    let g = a.prepare_remove_combined(0).unwrap();
    assert_eq!(g.module_index, 3);
    assert!(a.loading);
    a.loading = false;
    assert!(a.prepare_resume_device(9).is_none());
    let d = a.prepare_resume_device(1).unwrap();
    assert_eq!(d.name, "bluez_output.buds");
    assert!(a.loading);
}

#[test]
fn model_lookups() {
    let mut a = app_with_devices();
    assert!(a.audio_state.default_device().is_none());
    a.audio_state.devices[1].is_default = true;
    assert_eq!(a.audio_state.default_device().map(|d| d.index), Some(2));
    let combined: Vec<u32> = a.audio_state.combined_devices().iter().map(|d| d.index).collect();
    assert_eq!(combined, vec![3]);
    let real: Vec<u32> = a.audio_state.real_devices().iter().map(|d| d.index).collect();
    assert_eq!(real, vec![1, 2]);
    assert!(a.audio_state.devices[0].is_available());
    a.audio_state.devices[0].status = DeviceStatus::Suspended;
    assert!(!a.audio_state.devices[0].is_available());
    a.audio_state.devices[0].status = DeviceStatus::Error("x".to_string());
    assert!(!a.audio_state.devices[0].is_available());
    assert_eq!(a.audio_state.device_by_name("null").map(|d| d.index), Some(4));
    assert_eq!(a.audio_state.device_by_index(3).map(|d| d.name.clone()), Some("combined_main".to_string()));
    a.audio_state.streams = vec![stream(1, "a", 2), stream(2, "b", 1), stream(3, "c", 2)];
    let on2: Vec<u32> = a.audio_state.streams_on_sink(2).iter().map(|s| s.index).collect();
    assert_eq!(on2, vec![1, 3]);
    assert_eq!(a.audio_state.devices[3].display_name(), "null");
    assert_eq!(a.audio_state.devices[1].type_badge(), "BT");
    assert!(a.audio_state.devices[2].is_combined());
    assert_eq!(DeviceType::Virtual.display_label(), "💻 Virtual");
    assert_eq!(DeviceStatus::Error("gone".to_string()).display_label(), "⚠ Error: gone");
    assert_eq!(DeviceStatus::from_str("SUSPENDED"), DeviceStatus::Suspended);
}

#[test]
fn what_follows_set_default_and_create() {
    assert_eq!(after_set_default("spk", true, &Ok(())), Some("spk".to_string()));
    assert_eq!(after_set_default("spk", false, &Ok(())), None);
    assert_eq!(after_set_default("spk", true, &Err("x".to_string())), None);
    let mut a = app_with_devices();
    a.combine_toggle_device(0);
    a.combine_toggle_device(1);
    a.combine_wizard.group_name = "duo".to_string();
    a.combine_wizard.set_as_default = true;
    a.combine_wizard.move_streams = true;
    let plan = a.prepare_create_combined().unwrap();
    assert_eq!(after_create(&plan, true), (true, true));
    assert_eq!(after_create(&plan, false), (false, false));
    a.combine_wizard.set_as_default = false;
    let plan = a.prepare_create_combined().unwrap();
    assert_eq!(after_create(&plan, true), (false, false));
}
