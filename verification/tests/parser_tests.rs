use multi_audio_sink::models::{DeviceStatus, DeviceType};
use multi_audio_sink::text::trim;
use multi_audio_sink::parser::{
    detect_device_type, extract_arg, parse_combined_groups, parse_default_sink, parse_sample_spec,
    keep_in_range, parse_sink_inputs, parse_sinks, scalar_to_u32, volume_number_text, whole_volume, JsonScalar,
    RawModule, RawSink, RawSinkInput, RawSinkInputProps, RawSinkProps,
};

fn sink(index: u32, name: &str, description: &str, state: &str) -> RawSink {
    RawSink {
        index,
        name: name.to_string(),
        description: description.to_string(),
        driver: None,
        state: state.to_string(),
        sample_spec: None,
        volume: None,
        mute: None,
        properties: None,
        owner_module: None,
    }
}

fn props() -> RawSinkProps {
    RawSinkProps {
        bluetooth_connected: None,
        device_class: None,
        combine_sink: None,
        combine_sink_names: None,
        node_nick: None,
    }
}

fn module(index: Option<u32>, name: &str, argument: Option<&str>) -> RawModule {
    RawModule {
        index,
        name: name.to_string(),
        argument: argument.map(|a| a.to_string()),
        object_id: None,
    }
}

#[test]
fn test_parse_default_sink() {
    let info = "Server Name: PulseAudio (on PipeWire 1.0.7)\nDefault Sink: alsa_output.pci-0000_00_1f.3.analog-stereo\nDefault Source: alsa_input.foo\n";
    assert_eq!(
        parse_default_sink(info),
        "alsa_output.pci-0000_00_1f.3.analog-stereo"
    );
}

#[test]
fn test_extract_arg() {
    let args = r#"sink_name=combined_output slaves=sink1,sink2 rate=48000"#;
    assert_eq!(extract_arg(args, "sink_name"), Some("combined_output".to_string()));
    assert_eq!(extract_arg(args, "slaves"), Some("sink1,sink2".to_string()));
    assert_eq!(extract_arg(args, "rate"), Some("48000".to_string()));
    assert_eq!(extract_arg(args, "missing"), None);
}

#[test]
fn test_parse_volume_percent() {
    assert_eq!(whole_volume("65%"), Some(65));
}

#[test]
fn default_sink_missing_gives_empty() {
    assert_eq!(parse_default_sink("Server Name: x\nDefault Source: y\n"), "");
}

#[test]
fn default_sink_read_from_indented_line() {
    assert_eq!(parse_default_sink("  Default Sink:   spk  \r\n"), "spk");
}

#[test]
fn extract_arg_strips_quotes_and_takes_first() {
    let args = "sink_properties=device.description=\"Living\" a=1 a=2";
    assert_eq!(
        extract_arg(args, "sink_properties"),
        Some("device.description=\"Living".to_string())
    );
    assert_eq!(extract_arg(args, "a"), Some("1".to_string()));
    assert_eq!(extract_arg("k=\"v\"", "k"), Some("v".to_string()));
    assert_eq!(extract_arg("", "k"), None);
}

#[test]
fn volume_text_and_whole_volume() {
    assert_eq!(volume_number_text(" 42 %%"), "42");
    assert_eq!(whole_volume("100%"), Some(100));
    assert_eq!(whole_volume("300%"), Some(100));
    assert_eq!(whole_volume("150%"), Some(100));
    assert_eq!(keep_in_range(Some(150)), Some(100));
    assert_eq!(keep_in_range(Some(99)), Some(99));
    assert_eq!(keep_in_range(None), None);
    assert_eq!(whole_volume("65.5%"), None);
    assert_eq!(whole_volume("+65%"), None);
    assert_eq!(whole_volume("%"), None);
    assert_eq!(whole_volume(" 007%"), Some(7));
    assert_eq!(whole_volume(" 7% "), None);
}

#[test]
fn scalars_read_as_u32() {
    assert_eq!(scalar_to_u32(&JsonScalar::Unsigned(17)), Some(17));
    assert_eq!(scalar_to_u32(&JsonScalar::Unsigned(4294967296 + 5)), Some(5));
    assert_eq!(scalar_to_u32(&JsonScalar::Text("42".to_string())), Some(42));
    assert_eq!(scalar_to_u32(&JsonScalar::Text("x".to_string())), None);
    assert_eq!(scalar_to_u32(&JsonScalar::Other), None);
}

#[test]
fn device_types_detected() {
    assert_eq!(detect_device_type(&sink(1, "combined_main", "", "idle")), DeviceType::Combined);
    assert_eq!(detect_device_type(&sink(1, "combine-x", "", "idle")), DeviceType::Combined);
    let mut s = sink(1, "alsa_output", "Speakers", "idle");
    s.driver = Some("module-combine-sink.c".to_string());
    assert_eq!(detect_device_type(&s), DeviceType::Combined);
    let mut s = sink(1, "alsa_output", "Speakers", "idle");
    let mut p = props();
    p.device_class = Some("virtual".to_string());
    s.properties = Some(p);
    assert_eq!(detect_device_type(&s), DeviceType::Virtual);
    let mut s = sink(1, "alsa_output", "Speakers", "idle");
    let mut p = props();
    p.bluetooth_connected = Some("true".to_string());
    s.properties = Some(p);
    assert_eq!(detect_device_type(&s), DeviceType::Bluetooth);
    assert_eq!(detect_device_type(&sink(1, "bluez_output.AA", "x", "idle")), DeviceType::Bluetooth);
    assert_eq!(detect_device_type(&sink(1, "out", "My BlueTooth box", "idle")), DeviceType::Bluetooth);
    assert_eq!(detect_device_type(&sink(1, "auto_null", "Dummy", "idle")), DeviceType::Virtual);
    assert_eq!(detect_device_type(&sink(1, "alsa_output.pci", "Speakers", "idle")), DeviceType::Physical);
}

#[test]
fn sample_spec_fields() {
    assert_eq!(
        parse_sample_spec("s16le 2ch 48000Hz"),
        (Some("s16le".to_string()), Some(2), Some("48000 Hz".to_string()))
    );
    assert_eq!(parse_sample_spec("float32le"), (Some("float32le".to_string()), None, None));
    assert_eq!(parse_sample_spec(""), (None, None, None));
    assert_eq!(
        parse_sample_spec("s24le 300ch 44100Hz"),
        (Some("s24le".to_string()), None, Some("44100 Hz".to_string()))
    );
}

#[test]
fn sinks_become_devices() {
    let mut a = sink(3, "alsa_output.pci", "Speakers", "RUNNING");
    a.sample_spec = Some("s16le 2ch 48000Hz".to_string());
    a.volume = Some(165);
    a.mute = Some(true);
    a.owner_module = Some(JsonScalar::Text("12".to_string()));
    let b = sink(4, "bluez_output.AA", "", "SUSPENDED");
    let devices = parse_sinks(&vec![a, b], "alsa_output.pci");
    assert_eq!(devices.len(), 2);
    let d = &devices[0];
    assert_eq!(d.index, 3);
    assert_eq!(d.name, "alsa_output.pci");
    assert_eq!(d.device_type, DeviceType::Physical);
    assert_eq!(d.status, DeviceStatus::Running);
    assert!(d.is_default);
    assert_eq!(d.combined_group_id, None);
    assert_eq!(d.sample_format, Some("s16le".to_string()));
    assert_eq!(d.channels, Some(2));
    assert_eq!(d.sample_rate, Some("48000 Hz".to_string()));
    assert_eq!(d.volume, Some(100));
    assert!(d.muted);
    assert_eq!(d.module_index, Some(12));
    let e = &devices[1];
    assert_eq!(e.device_type, DeviceType::Bluetooth);
    assert_eq!(e.status, DeviceStatus::Suspended);
    assert!(!e.is_default);
    assert!(!e.muted);
    assert_eq!(e.display_name(), "bluez_output.AA");
}

#[test]
fn unknown_state_reads_as_idle() {
    let devices = parse_sinks(&vec![sink(1, "x", "X", "weird")], "");
    assert_eq!(devices[0].status, DeviceStatus::Idle);
}

#[test]
fn sink_inputs_become_streams() {
    let devices = parse_sinks(&vec![sink(7, "spk", "Speakers", "running")], "spk");
    let inputs = vec![
        RawSinkInput {
            index: 40,
            sink_index: 7,
            properties: Some(RawSinkInputProps {
                application_name: Some("Firefox".to_string()),
                media_name: Some("YouTube".to_string()),
            }),
            volume: Some(80),
            mute: Some(false),
        },
        RawSinkInput { index: 41, sink_index: 9, properties: None, volume: None, mute: None },
    ];
    let streams = parse_sink_inputs(&inputs, &devices);
    assert_eq!(streams.len(), 2);
    assert_eq!(streams[0].application_name, "Firefox");
    assert_eq!(streams[0].sink_name, "spk");
    assert_eq!(streams[0].volume, Some(80));
    assert_eq!(streams[0].display_name(), "Firefox — YouTube");
    assert_eq!(streams[1].application_name, "Unknown App");
    assert_eq!(streams[1].sink_name, "");
    assert_eq!(streams[1].media_name, None);
    assert!(!streams[1].muted);
}

#[test]
fn combine_modules_become_groups() {
    let mut pw = module(None, "module-combine-sink", Some("sink_name=living slaves=a, b"));
    pw.object_id = Some(JsonScalar::Text("77".to_string()));
    let mods = vec![
        module(Some(5), "module-null-sink", Some("sink_name=n")),
        module(Some(9), "module-combine-sink", Some("sink_name=combined_out slaves=s1,s2 sink_properties=device.description=\"Out\"")),
        pw,
        module(None, "module-combine-sink", None),
    ];
    let groups = parse_combined_groups(&mods);
    assert_eq!(groups.len(), 3);
    assert_eq!(groups[0].module_index, 9);
    assert_eq!(groups[0].sink_name, "combined_out");
    assert_eq!(groups[0].members, vec!["s1".to_string(), "s2".to_string()]);
    assert_eq!(groups[0].label, "device.description=\"Out");
    assert!(!groups[0].is_default);
    assert!(groups[0].is_active);
    assert_eq!(groups[1].module_index, 77);
    assert_eq!(groups[1].members, vec!["a".to_string(), "".to_string()]);
    assert_eq!(groups[1].label, "living");
    assert_eq!(groups[2].module_index, 0);
    assert_eq!(groups[2].sink_name, "combined_0");
    assert!(groups[2].members.is_empty());
}

#[test]
fn trimming_agrees_with_char_is_whitespace() {
    for u in 0u32..0x3100 {
        if let Some(c) = char::from_u32(u) {
            assert_eq!(trim(&[c]).is_empty(), c.is_whitespace(), "U+{:04X}", u);
        }
    }
}
