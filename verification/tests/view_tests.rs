use multi_audio_sink::app::{App, CombineStepState, ConfirmAction, NotificationLevel};
use multi_audio_sink::backend::AudioBackend;
use multi_audio_sink::logging::{entry_line, section_message, truncate};
use multi_audio_sink::models::{CombinedGroup, Device, DeviceStatus, DeviceType, Stream};
use multi_audio_sink::view::{
    button_row, centered_rect, channel_label, confirm_members, confirm_subject, confirm_title,
    confirm_lines, device_actions, device_hints, name_with_cursor, default_header, device_list_title,
    device_type_tone, group_name, header_status, loading_indicator, members_preview,
    more_streams_text, notification_area, notification_look, picker_area, status_icon,
    status_tone, step_mark, stream_output, volume_bar, volume_suffix, Palette, Rect, Rgb,
    StepMark, Tone,
};

fn device(index: u32, name: &str, description: &str) -> Device {
    Device {
        index,
        name: name.to_string(),
        description: description.to_string(),
        device_type: DeviceType::Physical,
        status: DeviceStatus::Idle,
        is_default: false,
        combined_group_id: None,
        sample_rate: None,
        sample_format: None,
        channels: None,
        volume: None,
        muted: false,
        module_index: None,
    }
}

#[test]
fn spinner_cycles_through_eight_frames() {
    assert_eq!(loading_indicator(0), "⣾");
    assert_eq!(loading_indicator(3), "⢿");
    assert_eq!(loading_indicator(7), "⣷");
    assert_eq!(loading_indicator(8), "⣾");
    assert_eq!(loading_indicator(u64::MAX), "⣷");
}

#[test]
fn palette_and_tones() {
    assert_eq!(Palette::color(Tone::Bg), Rgb { r: 15, g: 17, b: 26 });
    assert_eq!(Palette::color(Tone::BorderActive), Rgb { r: 90, g: 120, b: 200 });
    assert_eq!(device_type_tone(DeviceType::Bluetooth), Tone::Purple);
    assert_eq!(device_type_tone(DeviceType::Unknown), Tone::Dim);
    assert_eq!(status_tone(&DeviceStatus::Running), Tone::Green);
    assert_eq!(status_tone(&DeviceStatus::Error("x".to_string())), Tone::Red);
    assert_eq!(status_icon(&DeviceStatus::Suspended), "💤 ");
    assert_eq!(notification_look(NotificationLevel::Error), ("✗ ", Tone::Red, Rgb { r: 50, g: 15, b: 15 }));
    assert_eq!(notification_look(NotificationLevel::Info).0, "ℹ ");
}

#[test]
fn overlay_geometry() {
    let screen = Rect { x: 0, y: 0, width: 120, height: 40 };
    assert_eq!(notification_area(screen), Rect { x: 38, y: 36, width: 80, height: 3 });
    let small = Rect { x: 0, y: 0, width: 3, height: 2 };
    assert_eq!(notification_area(small), Rect { x: 1, y: 0, width: 0, height: 3 });
    assert_eq!(centered_rect(60, 14, screen), Rect { x: 24, y: 13, width: 72, height: 14 });
    let dialog = Rect { x: 24, y: 13, width: 72, height: 14 };
    assert_eq!(button_row(dialog), Rect { x: 26, y: 23, width: 68, height: 3 });
    assert_eq!(picker_area(screen), Rect { x: 30, y: 11, width: 60, height: 18 });
    assert_eq!(picker_area(small), Rect { x: 0, y: 0, width: 3, height: 2 });
}

#[test]
fn wizard_step_marks() {
    assert_eq!(step_mark(CombineStepState::NameGroup, CombineStepState::SelectDevices), StepMark::Done);
    assert_eq!(step_mark(CombineStepState::NameGroup, CombineStepState::NameGroup), StepMark::Current);
    assert_eq!(step_mark(CombineStepState::NameGroup, CombineStepState::Confirm), StepMark::Pending);
    assert_eq!(step_mark(CombineStepState::SelectDevices, CombineStepState::NameGroup), StepMark::Pending);
}

#[test]
fn value_texts() {
    assert_eq!(volume_bar(65), "[█████████████░░░░░░░] 65%");
    assert_eq!(volume_bar(0), "[░░░░░░░░░░░░░░░░░░░░] 0%");
    assert_eq!(volume_bar(104), "[████████████████████] 104%");
    assert_eq!(volume_suffix(Some(7)), " 7%");
    assert_eq!(volume_suffix(None), "");
    assert_eq!(channel_label(1), "Mono");
    assert_eq!(channel_label(2), "Stereo");
    assert_eq!(channel_label(6), "6 channels");
    assert_eq!(more_streams_text(8), "  … and 3 more");
}

#[test]
fn header_and_titles() {
    let mut a = App::new(AudioBackend::new());
    assert_eq!(default_header(&a.audio_state), "No default output set");
    a.audio_state.default_sink_name = "spk".to_string();
    assert_eq!(default_header(&a.audio_state), "★  Default: spk");
    a.audio_state.devices = vec![device(1, "spk", "Speakers")];
    assert_eq!(default_header(&a.audio_state), "★  Default: Speakers");
    assert_eq!(header_status(&a, 0), "1 sinks  0 streams");
    a.loading = true;
    assert_eq!(header_status(&a, 9), "⣽ Updating…");
    assert_eq!(device_list_title(&a), "📡 Output Devices");
    a.filter_text = "sp".to_string();
    assert_eq!(device_list_title(&a), "📡 Devices [filter: sp]");
    a.filter_active = true;
    assert_eq!(device_list_title(&a), "🔍 Filter: sp█");
}

#[test]
fn names_for_streams_and_groups() {
    let mut a = App::new(AudioBackend::new());
    a.audio_state.devices = vec![device(4, "spk", "Speakers")];
    let s = Stream {
        index: 1,
        application_name: "mpv".to_string(),
        media_name: None,
        sink_index: 4,
        sink_name: "spk".to_string(),
        volume: None,
        muted: false,
    };
    assert_eq!(stream_output(&a.audio_state, &s), "Speakers");
    let lost = Stream { sink_index: 9, sink_name: "gone".to_string(), ..s };
    assert_eq!(stream_output(&a.audio_state, &lost), "gone");
    let g = CombinedGroup {
        module_index: 12,
        sink_name: "combined_x".to_string(),
        label: "Party".to_string(),
        members: vec!["alsa_output.pci-0000_00_1f.3".to_string(), "bluez_output.AA".to_string()],
        is_default: false,
        is_active: true,
    };
    a.audio_state.combined_groups = vec![g.clone()];
    assert_eq!(group_name(&a.audio_state, 12), "Party");
    assert_eq!(group_name(&a.audio_state, 13), "Group #13");
    assert_eq!(members_preview(&g), " [alsa_output.pci-0000_00_1]");
    let short = CombinedGroup { members: vec!["a".to_string(), "b".to_string()], ..g };
    assert_eq!(members_preview(&short), " [a, b]");
}

#[test]
fn log_text() {
    assert_eq!(entry_line(42, "PARSE", "hello"), "[      42ms] [         PARSE] hello\n");
    assert_eq!(entry_line(123456789, "A-VERY-LONG-CATEGORY", "m"), "[123456789ms] [A-VERY-LONG-CATEGORY] m\n");
    assert_eq!(section_message("fetch_state"), "──── fetch_state ────");
    assert_eq!(truncate("a\nb", 10), "a↵b");
    assert_eq!(truncate("abcdef", 3), "abc…[+3]");
    assert_eq!(truncate("ééé", 2), "éé…[+4]");
}

#[test]
fn device_pane_actions_and_hints() {
    let mut d = device(1, "spk", "Speakers");
    assert_eq!(
        device_actions(&d),
        vec![
            "  [d] Use as main output (default only)",
            "  [D] Use as main + move all streams",
            "  [m] Move all streams here"
        ]
    );
    d.status = DeviceStatus::Suspended;
    d.is_default = true;
    assert_eq!(device_actions(&d), vec!["  [r] Resume (wake up) this device", "  [m] Move all streams here"]);
    d.device_type = DeviceType::Combined;
    assert_eq!(device_actions(&d)[0], "  [R] Remove this combined output");
    let hints = device_hints(Some(&d));
    assert_eq!(hints.len(), 9);
    assert_eq!(hints[6], ("R", "remove combined"));
    assert_eq!(hints[7], ("r", "resume device"));
    assert_eq!(hints[8], ("Esc", "back"));
    assert_eq!(device_hints(None).len(), 7);
}

#[test]
fn confirmation_texts() {
    let mut a = App::new(AudioBackend::new());
    a.audio_state.devices = vec![device(1, "spk", "Speakers")];
    a.audio_state.combined_groups = vec![CombinedGroup {
        module_index: 3,
        sink_name: "combined_duo".to_string(),
        label: String::new(),
        members: vec!["spk".to_string(), "hdmi".to_string()],
        is_default: false,
        is_active: true,
    }];
    let st = &a.audio_state;
    let remove = ConfirmAction::RemoveCombined { group_index: 0 };
    assert_eq!(confirm_title(&remove), "⚠ Confirm Removal");
    assert_eq!(confirm_subject(st, &remove), "combined_duo");
    assert_eq!(confirm_members(st, &remove), "spk, hdmi");
    let gone = ConfirmAction::RemoveCombined { group_index: 4 };
    assert_eq!(confirm_subject(st, &gone), "");
    assert_eq!(confirm_members(st, &gone), "");
    let set = ConfirmAction::SetDefault { sink_name: "spk".to_string(), move_streams: false };
    assert_eq!(confirm_title(&set), "Set Default Output");
    assert_eq!(confirm_subject(st, &set), "Speakers");
    let mv = ConfirmAction::MoveAllStreams { sink_name: "other".to_string() };
    assert_eq!(confirm_subject(st, &mv), "other");
    assert_eq!(confirm_members(st, &mv), "");
    let resume = ConfirmAction::ResumeDevice { device_index: 0 };
    assert_eq!(confirm_title(&resume), "Resume Device");
    assert_eq!(confirm_subject(st, &resume), "Speakers");
}

#[test]
fn name_field_shows_cursor() {
    assert_eq!(name_with_cursor(&"abc".to_string(), 1), "a│bc");
    assert_eq!(name_with_cursor(&"abc".to_string(), 3), "abc│");
    assert_eq!(name_with_cursor(&"abc".to_string(), 9), "abc");
    assert_eq!(name_with_cursor(&"é".to_string(), 2), "é│");
}

#[test]
fn confirmation_lines() {
    let mut a = App::new(AudioBackend::new());
    a.audio_state.devices = vec![device(1, "spk", "Speakers")];
    let set = ConfirmAction::SetDefault { sink_name: "spk".to_string(), move_streams: true };
    let lines = confirm_lines(&a.audio_state, &set);
    assert_eq!(lines.len(), 5);
    assert_eq!(lines[2], ("  ★  \"Speakers\"".to_string(), Tone::AccentBright, true));
    assert_eq!(lines[4], ("  All current streams will also be moved.".to_string(), Tone::Green, false));
    let mv = ConfirmAction::MoveAllStreams { sink_name: "spk".to_string() };
    assert_eq!(confirm_lines(&a.audio_state, &mv)[0].0, "  Move all 0 stream(s) to:");
    let rm = ConfirmAction::RemoveCombined { group_index: 3 };
    let lines = confirm_lines(&a.audio_state, &rm);
    assert_eq!(lines[2].0, "  \"\"");
    assert_eq!(lines[3].0, "  Members: ");
}
