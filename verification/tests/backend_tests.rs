use multi_audio_sink::backend::{
    build_state, collect_move_errors, error_message, pactl_failure, stream_move_error, AudioBackend,
    BackendError,
};
use multi_audio_sink::models::{AudioState, DeviceStatus, DeviceType, Stream};
use multi_audio_sink::parser::{parse_sinks, JsonScalar, RawModule, RawSink, RawSinkInput};

fn sink(index: u32, name: &str, description: &str) -> RawSink {
    RawSink {
        index,
        name: name.to_string(),
        description: description.to_string(),
        driver: None,
        state: "idle".to_string(),
        sample_spec: None,
        volume: None,
        mute: None,
        properties: None,
        owner_module: None,
    }
}

fn strings(v: &[&str]) -> Vec<String> {
    v.iter().map(|s| s.to_string()).collect()
}

#[test]
fn command_argument_lists() {
    let b = AudioBackend::new();
    assert_eq!(b.set_default_sink_command("spk"), strings(&["set-default-sink", "spk"]));
    assert_eq!(b.move_stream_command(42, "spk"), strings(&["move-sink-input", "42", "spk"]));
    assert_eq!(b.toggle_mute_command("spk"), strings(&["set-sink-mute", "spk", "toggle"]));
    assert_eq!(b.set_volume_command("spk", 55), strings(&["set-sink-volume", "spk", "55%"]));
    assert_eq!(b.set_volume_command("spk", 180), strings(&["set-sink-volume", "spk", "100%"]));
}

#[test]
fn create_combined_command() {
    let b = AudioBackend::new();
    let members = strings(&["a", "b"]);
    assert_eq!(
        b.create_combined_sink_command("combined_x", &members),
        Ok(strings(&[
            "load-module",
            "module-combine-sink",
            "sink_name=combined_x slaves=a,b sink_properties=device.description=\"combined_x\"",
        ]))
    );
    assert_eq!(b.create_combined_sink_command("combined_x", &[]), Err(BackendError::NoMembers));
}

#[test]
fn module_index_from_load_output() {
    let b = AudioBackend::new();
    assert_eq!(b.parse_module_index("536870913\n"), Ok(536870913));
    assert_eq!(b.parse_module_index("  7 "), Ok(7));
    assert_eq!(b.parse_module_index("Failure"), Err(BackendError::UnexpectedModuleOutput));
    assert_eq!(b.parse_module_index("4294967296"), Err(BackendError::UnexpectedModuleOutput));
}

#[test]
fn error_messages() {
    assert_eq!(
        error_message(BackendError::NoMembers, ""),
        "Cannot create combined sink with no members"
    );
    assert_eq!(
        error_message(BackendError::UnexpectedModuleOutput, " oops\n"),
        "Unexpected output from load-module: 'oops'"
    );
    let s = Stream {
        index: 12,
        application_name: "mpv".to_string(),
        media_name: None,
        sink_index: 1,
        sink_name: "spk".to_string(),
        volume: None,
        muted: false,
    };
    assert_eq!(stream_move_error(&s, "no such sink"), "Stream 12 (mpv): no such sink");
}

#[test]
fn remove_and_resume_commands() {
    let b = AudioBackend::new();
    let groups = multi_audio_sink::parser::parse_combined_groups(&vec![RawModule {
        index: Some(31),
        name: "module-combine-sink".to_string(),
        argument: Some("sink_name=c slaves=a,b".to_string()),
        object_id: None,
    }]);
    assert_eq!(b.remove_combined_sink_command(&groups[0]), strings(&["unload-module", "31"]));
    let devices = parse_sinks(&vec![sink(1, "bluez_x", "Buds")], "");
    assert_eq!(b.resume_device_command(&devices[0]), strings(&["suspend-sink", "bluez_x", "0"]));
}

#[test]
fn server_name_and_sink_lookup() {
    let b = AudioBackend::new();
    assert_eq!(
        b.parse_server_name("Server String: x\nServer Name: PulseAudio (on PipeWire 1.2.0)\n"),
        "PulseAudio (on PipeWire 1.2.0)"
    );
    assert_eq!(b.parse_server_name("  Server Name: PipeWire  \n"), "PipeWire");
    assert_eq!(b.parse_server_name("nothing"), "PipeWire/PulseAudio (details unavailable)");
    let mut st = AudioState::default();
    st.devices = parse_sinks(&vec![sink(1, "spk", "Speakers")], "");
    assert!(b.sink_name_exists("spk", &st));
    assert!(!b.sink_name_exists("hdmi", &st));
}

#[test]
fn snapshot_marks_groups_and_stale_sinks() {
    let mut combined = sink(10, "combined_main", "Main");
    combined.owner_module = Some(JsonScalar::Unsigned(44));
    let sinks = vec![
        sink(1, "spk", "Speakers"),
        sink(2, "hdmi", "HDMI"),
        combined,
        sink(11, "combined_old", "Old"),
        sink(12, "living", "Living room"),
    ];
    let modules = vec![
        RawModule {
            index: None,
            name: "module-combine-sink".to_string(),
            argument: Some("sink_name=combined_main slaves=spk,hdmi".to_string()),
            object_id: None,
        },
        RawModule {
            index: Some(50),
            name: "module-combine-sink".to_string(),
            argument: Some("sink_name=living slaves=spk".to_string()),
            object_id: None,
        },
    ];
    let inputs = vec![RawSinkInput { index: 5, sink_index: 10, properties: None, volume: None, mute: None }];
    let st = build_state(&sinks, &inputs, &modules, "Default Sink: combined_main\n");
    assert_eq!(st.default_sink_name, "combined_main");
    assert_eq!(st.devices.len(), 5);
    assert_eq!(st.devices[0].combined_group_id, Some(50));
    assert_eq!(st.devices[1].combined_group_id, Some(44));
    assert_eq!(st.devices[2].device_type, DeviceType::Combined);
    assert_eq!(st.devices[2].status, DeviceStatus::Idle);
    assert!(st.devices[2].is_default);
    assert_eq!(st.devices[3].device_type, DeviceType::Combined);
    assert_eq!(
        st.devices[3].status,
        DeviceStatus::Error("Stale combined output (module unloaded)".to_string())
    );
    assert_eq!(st.devices[4].device_type, DeviceType::Combined);
    assert_eq!(st.devices[4].status, DeviceStatus::Idle);
    assert_eq!(st.combined_groups.len(), 2);
    assert_eq!(st.combined_groups[0].module_index, 44);
    assert!(st.combined_groups[0].is_default);
    assert_eq!(st.combined_groups[1].module_index, 50);
    assert!(!st.combined_groups[1].is_default);
    assert_eq!(st.streams.len(), 1);
    assert_eq!(st.streams[0].sink_name, "combined_main");
    assert!(st.last_refresh.is_some());
    assert!(st.last_error.is_none());
}

#[test]
fn move_errors_in_stream_order() {
    let st = |i: u32, app: &str| Stream {
        index: i,
        application_name: app.to_string(),
        media_name: None,
        sink_index: 1,
        sink_name: "spk".to_string(),
        volume: None,
        muted: false,
    };
    let streams = vec![st(1, "a"), st(2, "b"), st(3, "c")];
    let outcomes: Vec<Result<(), String>> = vec![Err("x".to_string()), Ok(()), Err("y".to_string())];
    assert_eq!(
        collect_move_errors(&streams, &outcomes),
        vec!["Stream 1 (a): x".to_string(), "Stream 3 (c): y".to_string()]
    );
    assert!(collect_move_errors(&streams, &[Ok(()), Ok(()), Ok(())]).is_empty());
}

#[test]
fn pactl_failure_messages() {
    assert_eq!(
        pactl_failure(&strings(&["set-default-sink", "x"]), 1, " No such entity\n"),
        "pactl set-default-sink x failed (exit 1): No such entity"
    );
    assert_eq!(pactl_failure(&strings(&["info"]), -1, ""), "pactl info failed (exit -1): ");
    assert_eq!(pactl_failure(&vec![], i32::MIN, "e"), "pactl  failed (exit -2147483648): e");
}
