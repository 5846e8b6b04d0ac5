use multi_audio_sink::app::{App, CombineStepState, ConfirmAction, NotificationLevel, Screen};
use multi_audio_sink::backend::AudioBackend;
use multi_audio_sink::events::{
    handle_confirm, handle_key, handle_streams, Effect, KeyCode, KeyEvent, KeyModifiers, KeyOutcome,
};
use multi_audio_sink::models::{Device, DeviceStatus, DeviceType, Stream};

fn mods() -> KeyModifiers {
    KeyModifiers { shift: false, control: false, alt: false, super_key: false, hyper: false, meta: false }
}

fn key(code: KeyCode) -> KeyEvent {
    KeyEvent { code, modifiers: mods() }
}

fn ch(c: char) -> KeyEvent {
    key(KeyCode::Char(c))
}

fn device(index: u32, name: &str, device_type: DeviceType, status: DeviceStatus) -> Device {
    Device {
        index,
        name: name.to_string(),
        description: String::new(),
        device_type,
        status,
        is_default: false,
        combined_group_id: None,
        sample_rate: None,
        sample_format: None,
        channels: None,
        volume: None,
        muted: false,
        module_index: None,
    }
}

fn app() -> App {
    let mut a = App::new(AudioBackend::new());
    a.audio_state.devices = vec![
        device(1, "spk", DeviceType::Physical, DeviceStatus::Idle),
        device(2, "buds", DeviceType::Bluetooth, DeviceStatus::Suspended),
        device(3, "hdmi", DeviceType::Physical, DeviceStatus::Running),
    ];
    a
}

fn idle() -> KeyOutcome {
    KeyOutcome { effect: None, needs_refresh: false }
}

#[test]
fn quit_keys() {
    let mut a = app();
    assert_eq!(handle_key(&mut a, ch('q')), idle());
    assert!(a.should_quit);
    let mut a = app();
    let mut m = mods();
    m.control = true;
    handle_key(&mut a, KeyEvent { code: KeyCode::Char('c'), modifiers: m });
    assert!(a.should_quit);
    let mut a = app();
    a.screen = Screen::Devices;
    a.filter_active = true;
    handle_key(&mut a, ch('q'));
    assert!(!a.should_quit);
    assert_eq!(a.filter_text, "q");
}

#[test]
fn home_keys() {
    let mut a = app();
    assert_eq!(handle_key(&mut a, ch('r')), KeyOutcome { effect: Some(Effect::Refresh), needs_refresh: true });
    handle_key(&mut a, ch('s'));
    assert_eq!(a.screen, Screen::Streams);
    handle_key(&mut a, key(KeyCode::Esc));
    assert_eq!(a.screen, Screen::Home);
    handle_key(&mut a, key(KeyCode::F(1)));
    assert_eq!(a.screen, Screen::Help);
    handle_key(&mut a, ch('?'));
    assert_eq!(a.screen, Screen::Home);
    handle_key(&mut a, ch('C'));
    assert_eq!(a.screen, Screen::Combine);
}

#[test]
fn set_default_then_confirm() {
    let mut a = app();
    handle_key(&mut a, ch('d'));
    assert_eq!(a.screen, Screen::Devices);
    handle_key(&mut a, key(KeyCode::Down));
    handle_key(&mut a, key(KeyCode::Down));
    handle_key(&mut a, ch('D'));
    assert_eq!(
        a.screen,
        Screen::Confirm(ConfirmAction::SetDefault { sink_name: "hdmi".to_string(), move_streams: true })
    );
    let o = handle_key(&mut a, key(KeyCode::Enter));
    assert_eq!(o.effect, Some(Effect::SetDefault("hdmi".to_string(), true)));
    assert!(o.needs_refresh);
    assert_eq!(a.screen, Screen::Devices);
}

#[test]
fn cancel_confirmation() {
    let mut a = app();
    a.screen = Screen::Devices;
    handle_key(&mut a, ch('m'));
    assert_eq!(a.screen, Screen::Confirm(ConfirmAction::MoveAllStreams { sink_name: "spk".to_string() }));
    assert_eq!(handle_key(&mut a, ch('n')), idle());
    assert_eq!(a.screen, Screen::Devices);
}

#[test]
fn resume_only_suspended() {
    let mut a = app();
    a.screen = Screen::Devices;
    assert_eq!(handle_key(&mut a, ch('r')), idle());
    handle_key(&mut a, ch('j'));
    let o = handle_key(&mut a, ch('r'));
    assert_eq!(o.effect, Some(Effect::ResumeDevice(1)));
}

#[test]
fn filter_typing() {
    let mut a = app();
    a.screen = Screen::Devices;
    a.device_cursor = 2;
    handle_key(&mut a, ch('/'));
    assert!(a.filter_active);
    handle_key(&mut a, ch('b'));
    handle_key(&mut a, ch('u'));
    assert_eq!(a.filter_text, "bu");
    assert_eq!(a.device_cursor, 0);
    handle_key(&mut a, key(KeyCode::Backspace));
    assert_eq!(a.filter_text, "b");
    handle_key(&mut a, key(KeyCode::Enter));
    assert!(!a.filter_active);
    assert_eq!(a.selected_device().map(|d| d.index), Some(2));
}

#[test]
fn wizard_flow() {
    let mut a = app();
    handle_key(&mut a, ch('c'));
    handle_key(&mut a, key(KeyCode::Enter));
    assert_eq!(a.combine_wizard.step, CombineStepState::SelectDevices);
    assert_eq!(a.notification.as_ref().map(|n| n.level), Some(NotificationLevel::Warning));
    handle_key(&mut a, ch(' '));
    handle_key(&mut a, ch('j'));
    handle_key(&mut a, ch(' '));
    handle_key(&mut a, key(KeyCode::Enter));
    assert_eq!(a.combine_wizard.step, CombineStepState::NameGroup);
    assert_eq!(a.combine_wizard.group_name, "my_combined");
    assert_eq!(a.combine_wizard.name_cursor, 11);
    handle_key(&mut a, ch('q'));
    assert!(!a.should_quit);
    assert_eq!(a.combine_wizard.group_name, "my_combinedq");
    handle_key(&mut a, key(KeyCode::Backspace));
    handle_key(&mut a, key(KeyCode::Left));
    handle_key(&mut a, ch('X'));
    assert_eq!(a.combine_wizard.group_name, "my_combineXd");
    handle_key(&mut a, ch(' '));
    assert_eq!(a.combine_wizard.group_name, "my_combineXd");
    handle_key(&mut a, key(KeyCode::Tab));
    assert!(a.combine_wizard.set_as_default);
    handle_key(&mut a, key(KeyCode::Enter));
    assert_eq!(a.combine_wizard.step, CombineStepState::Confirm);
    handle_key(&mut a, key(KeyCode::Tab));
    assert!(a.combine_wizard.move_streams);
    let o = handle_key(&mut a, ch('y'));
    assert_eq!(o.effect, Some(Effect::CreateCombined));
    assert_eq!(a.combine_wizard.step, CombineStepState::Confirm);
}

#[test]
fn wizard_rejects_invalid_name() {
    let mut a = app();
    a.screen = Screen::Combine;
    a.combine_wizard.step = CombineStepState::NameGroup;
    a.combine_wizard.group_name = String::new();
    a.combine_wizard.name_cursor = 0;
    handle_key(&mut a, key(KeyCode::Enter));
    assert_eq!(a.combine_wizard.step, CombineStepState::NameGroup);
    assert_eq!(
        a.notification.as_ref().map(|n| n.message.clone()),
        Some("Name can only contain letters, numbers, hyphens, and underscores.".to_string())
    );
}

#[test]
fn streams_enter_and_cancel() {
    let mut a = app();
    a.audio_state.streams = vec![Stream {
        index: 30,
        application_name: "mpv".to_string(),
        media_name: None,
        sink_index: 3,
        sink_name: "hdmi".to_string(),
        volume: None,
        muted: false,
    }];
    a.screen = Screen::Streams;
    assert_eq!(handle_key(&mut a, key(KeyCode::Enter)), idle());
    assert_eq!(
        a.notification.as_ref().map(|n| n.message.clone()),
        Some("No default sink set. Go to Devices to set one.".to_string())
    );
    handle_key(&mut a, ch('M'));
    assert_eq!(a.screen, Screen::Streams);
    a.audio_state.default_sink_name = "spk".to_string();
    let o = handle_key(&mut a, key(KeyCode::Enter));
    assert_eq!(o, KeyOutcome { effect: Some(Effect::MoveStream(30, "spk".to_string())), needs_refresh: true });
    assert_eq!(a.screen, Screen::Streams);
    handle_key(&mut a, ch('m'));
    assert_eq!(a.screen, Screen::Confirm(ConfirmAction::MoveAllStreams { sink_name: "spk".to_string() }));
    assert_eq!(handle_key(&mut a, key(KeyCode::Esc)), idle());
    assert_eq!(a.screen, Screen::Streams);
    handle_key(&mut a, ch('m'));
    let o = handle_key(&mut a, ch('Y'));
    assert_eq!(o.effect, Some(Effect::MoveAllStreams("spk".to_string())));
    assert_eq!(a.screen, Screen::Streams);
}

#[test]
fn output_picker() {
    let mut a = app();
    a.screen = Screen::SelectDevice { stream_index: 30, cursor: 2 };
    handle_key(&mut a, key(KeyCode::Up));
    assert_eq!(a.screen, Screen::SelectDevice { stream_index: 30, cursor: 1 });
    let o = handle_key(&mut a, key(KeyCode::Enter));
    assert_eq!(o.effect, Some(Effect::MoveStream(30, "buds".to_string())));
    assert_eq!(a.screen, Screen::Streams);
}

#[test]
fn name_cursor_moves_by_characters() {
    let mut a = app();
    a.screen = Screen::Combine;
    a.combine_wizard.step = CombineStepState::NameGroup;
    a.combine_wizard.group_name = String::new();
    a.combine_wizard.name_cursor = 0;
    handle_key(&mut a, ch('é'));
    assert_eq!(a.combine_wizard.name_cursor, 2);
    handle_key(&mut a, ch('b'));
    assert_eq!(a.combine_wizard.group_name, "éb");
    assert_eq!(a.combine_wizard.name_cursor, 3);
    handle_key(&mut a, key(KeyCode::Left));
    assert_eq!(a.combine_wizard.name_cursor, 2);
    handle_key(&mut a, key(KeyCode::Left));
    assert_eq!(a.combine_wizard.name_cursor, 0);
    handle_key(&mut a, key(KeyCode::Left));
    assert_eq!(a.combine_wizard.name_cursor, 0);
    handle_key(&mut a, key(KeyCode::Right));
    assert_eq!(a.combine_wizard.name_cursor, 2);
    handle_key(&mut a, ch('中'));
    assert_eq!(a.combine_wizard.group_name, "é中b");
    assert_eq!(a.combine_wizard.name_cursor, 5);
    handle_key(&mut a, key(KeyCode::Backspace));
    assert_eq!(a.combine_wizard.group_name, "éb");
    assert_eq!(a.combine_wizard.name_cursor, 2);
    handle_key(&mut a, key(KeyCode::Backspace));
    assert_eq!(a.combine_wizard.group_name, "b");
    assert_eq!(a.combine_wizard.name_cursor, 0);
    handle_key(&mut a, key(KeyCode::Right));
    handle_key(&mut a, key(KeyCode::Right));
    assert_eq!(a.combine_wizard.name_cursor, 1);
}

#[test]
fn stream_confirmation_cancelled_through_the_screen_handlers() {
    let mut a = app();
    a.screen = Screen::Streams;
    a.audio_state.default_sink_name = "hdmi".to_string();
    assert_eq!(handle_streams(&mut a, KeyCode::Char('M')), idle());
    let action = ConfirmAction::MoveAllStreams { sink_name: "hdmi".to_string() };
    assert_eq!(a.screen, Screen::Confirm(action.clone()));
    assert_eq!(handle_confirm(&mut a, KeyCode::Char('N'), &action), idle());
    assert_eq!(a.screen, Screen::Streams);
}
