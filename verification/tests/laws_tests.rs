use multi_audio_sink::app::{App, Screen};
use multi_audio_sink::events::{handle_key, Effect, KeyCode, KeyEvent, KeyModifiers};
use multi_audio_sink::backend::AudioBackend;
use multi_audio_sink::models::{AudioState, CombinedGroup, Device, DeviceStatus, DeviceType};
use multi_audio_sink::parser::{parse_combined_groups, RawModule};
use multi_audio_sink::text::decimal_string;

fn device(index: u32, name: &str) -> Device {
    Device {
        index,
        name: name.to_string(),
        description: String::new(),
        device_type: DeviceType::Physical,
        status: DeviceStatus::Idle,
        is_default: false,
        combined_group_id: None,
        sample_rate: None,
        sample_format: None,
        channels: None,
        volume: None,
        muted: false,
        module_index: None,
    }
}

#[test]
fn created_group_reads_back() {
    let b = AudioBackend::new();
    let members = vec!["alsa_output.pci".to_string(), "bluez_output.AA".to_string()];
    let args = b.create_combined_sink_command("combined_duo", &members).unwrap();
    let groups = parse_combined_groups(&vec![RawModule {
        index: Some(536870914),
        name: args[1].clone(),
        argument: Some(args[2].clone()),
        object_id: None,
    }]);
    assert_eq!(groups.len(), 1);
    assert_eq!(groups[0].sink_name, "combined_duo");
    assert_eq!(groups[0].members, members);
}

#[test]
fn module_index_round_trip() {
    let b = AudioBackend::new();
    for n in [0u32, 7, 536870913, u32::MAX] {
        let printed = decimal_string(n as u64);
        assert_eq!(b.parse_module_index(&printed), Ok(n));
        let groups = parse_combined_groups(&vec![RawModule {
            index: Some(n),
            name: "module-combine-sink".to_string(),
            argument: None,
            object_id: None,
        }]);
        assert_eq!(b.remove_combined_sink_command(&groups[0])[1], printed);
    }
}

#[test]
fn toggling_twice_restores_selection() {
    let mut a = App::new(AudioBackend::new());
    a.combine_toggle_device(3);
    let before: Vec<usize> = a.combine_wizard.selected_device_indices.iter().copied().collect();
    a.combine_toggle_device(5);
    a.combine_toggle_device(5);
    let after: Vec<usize> = a.combine_wizard.selected_device_indices.iter().copied().collect();
    assert_eq!(before, after);
}

#[test]
fn empty_filter_and_refresh_cursors() {
    let mut a = App::new(AudioBackend::new());
    a.audio_state.devices = vec![device(1, "a"), device(2, "b"), device(3, "c")];
    let all: Vec<usize> = a.filtered_devices().iter().map(|p| p.0).collect();
    assert_eq!(all, vec![0, 1, 2]);
    a.device_cursor = 2;
    a.stream_cursor = 4;
    a.combined_cursor = 1;
    let mut st = AudioState::default();
    st.devices = vec![device(9, "z")];
    a.apply_refresh(Ok(st));
    assert_eq!((a.device_cursor, a.stream_cursor, a.combined_cursor), (0, 0, 0));
}

fn press(a: &mut App, code: KeyCode) -> Option<Effect> {
    let modifiers = KeyModifiers { shift: false, control: false, alt: false, super_key: false, hyper: false, meta: false };
    handle_key(a, KeyEvent { code, modifiers }).effect
}

#[test]
fn move_streams_then_confirm() {
    let mut a = App::new(AudioBackend::new());
    a.audio_state.devices = vec![device(1, "spk"), device(2, "hdmi")];
    a.screen = Screen::Devices;
    a.device_cursor = 1;
    assert_eq!(press(&mut a, KeyCode::Char('M')), None);
    assert_eq!(press(&mut a, KeyCode::Enter), Some(Effect::MoveAllStreams("hdmi".to_string())));
    assert_eq!(a.screen, Screen::Streams);
}

#[test]
fn remove_then_confirm() {
    let mut a = App::new(AudioBackend::new());
    let mut c = device(5, "combined_duo");
    c.device_type = DeviceType::Combined;
    a.audio_state.devices = vec![device(1, "spk"), c];
    let g = |m: u32, n: &str| CombinedGroup {
        module_index: m,
        sink_name: n.to_string(),
        label: String::new(),
        members: vec![],
        is_default: false,
        is_active: true,
    };
    a.audio_state.combined_groups = vec![g(1, "other"), g(2, "combined_duo"), g(3, "combined_duo")];
    a.screen = Screen::Devices;
    a.device_cursor = 1;
    assert_eq!(press(&mut a, KeyCode::Char('R')), None);
    assert_eq!(press(&mut a, KeyCode::Enter), Some(Effect::RemoveCombined(1)));
    assert_eq!(a.screen, Screen::Devices);
}

#[test]
fn created_group_with_inner_quotes_reads_back() {
    let b = AudioBackend::new();
    let members = vec!["a\"1".to_string(), "b".to_string()];
    let args = b.create_combined_sink_command("my\"sink", &members).unwrap();
    let groups = parse_combined_groups(&vec![RawModule {
        index: Some(4),
        name: args[1].clone(),
        argument: Some(args[2].clone()),
        object_id: None,
    }]);
    assert_eq!(groups[0].sink_name, "my\"sink");
    assert_eq!(groups[0].members, members);
}
