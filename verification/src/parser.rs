//! Reading what `pactl` reports.
//!
//! `pactl --format=json` output is decoded into the plain records below
//! (`RawSink`, `RawSinkInput`, `RawModule`); the functions here turn them into
//! the audio model. `pactl info` is plain text and is read here directly.

use vstd::prelude::*;
use crate::text::{
    append_chars, chars_of, contains, contains_chars, has_prefix, lines, lines_of,
    lowercase, parse_bounded, parse_unsigned, replace, replace_all, seqs_of, split_whitespace,
    split_ws, starts_with, string_from_chars, strip_prefix, to_lowercase, trim, trim_char,
    trim_end_matches, trim_end_matching, trim_matches_char, trim_start_matches,
    trim_start_matching, trim_ws, decimal, push_decimal, split_char, split_on, all_digits,
    digits_value, is_digit,
};
use crate::models::{
    copy_opt_string, copy_string, first_where, position_by_index,
    opt_view, status_from_text, str_eq, Device, DeviceStatus, DeviceType, Stream, CombinedGroup,
    filter_seq,
};

verus! {

/// A JSON scalar as the parsers read it: a non-negative integer that fits in
/// `u64`, a string, or anything else.
#[derive(Debug, Clone)]
pub enum JsonScalar {
    Unsigned(u64),
    Text(String),
    Other,
}

/// Properties of a sink that the type detection reads.
#[derive(Debug, Clone)]
pub struct RawSinkProps {
    /// `bluetooth.connected`
    pub bluetooth_connected: Option<String>,
    /// `device.class`
    pub device_class: Option<String>,
    /// `combine.sink`
    pub combine_sink: Option<String>,
    /// `module-combine-sink.sink_names`
    pub combine_sink_names: Option<String>,
    /// `node.nick`
    pub node_nick: Option<String>,
}

/// One entry of `pactl --format=json list sinks`.
#[derive(Debug, Clone)]
pub struct RawSink {
    pub index: u32,
    pub name: String,
    pub description: String,
    pub driver: Option<String>,
    pub state: String,
    /// `sample_specification`, e.g. `s16le 2ch 48000Hz`
    pub sample_spec: Option<String>,
    /// Front-left volume in percent, rounded
    pub volume: Option<u8>,
    pub mute: Option<bool>,
    pub properties: Option<RawSinkProps>,
    /// `owner_module`
    pub owner_module: Option<JsonScalar>,
}

/// Properties of a sink input.
#[derive(Debug, Clone)]
pub struct RawSinkInputProps {
    /// `application.name`
    pub application_name: Option<String>,
    /// `media.name`
    pub media_name: Option<String>,
}

/// One entry of `pactl --format=json list sink-inputs`.
#[derive(Debug, Clone)]
pub struct RawSinkInput {
    pub index: u32,
    /// `sink`
    pub sink_index: u32,
    pub properties: Option<RawSinkInputProps>,
    /// Front-left volume in percent, rounded
    pub volume: Option<u8>,
    pub mute: Option<bool>,
}

/// One entry of `pactl --format=json list modules`.
#[derive(Debug, Clone)]
pub struct RawModule {
    pub index: Option<u32>,
    pub name: String,
    pub argument: Option<String>,
    /// The `object.id` property, where the module has properties
    pub object_id: Option<JsonScalar>,
}

// ─── Numbers in JSON ─────────────────────────────────────────────────────────

/// The `u32` a scalar names: an integer cut to its low 32 bits, or a string
/// that `u32::from_str` accepts.
pub open spec fn scalar_u32(v: JsonScalar) -> Option<u32> {
    match v {
        JsonScalar::Unsigned(n) => Some(n as u32),
        JsonScalar::Text(s) => match parse_unsigned(s@, u32::MAX as nat) {
            Some(x) => Some(x as u32),
            None => None,
        },
        JsonScalar::Other => None,
    }
}

/// `u32::from_str` on a string.
pub fn parse_u32(s: &str) -> (r: Option<u32>)
    ensures
        r == (match parse_unsigned(s@, u32::MAX as nat) {
            Some(x) => Some(x as u32),
            None => None,
        }),
{
    let c = chars_of(s);
    match parse_bounded(c.as_slice(), 0xffff_ffff) {
        Some(v) => Some(v as u32),
        None => None,
    }
}

/// Reads a module reference from JSON.
pub fn scalar_to_u32(v: &JsonScalar) -> (r: Option<u32>)
    ensures
        r == scalar_u32(*v),
{
    match v {
        JsonScalar::Unsigned(n) => Some(*n as u32),
        JsonScalar::Text(s) => parse_u32(s.as_str()),
        JsonScalar::Other => None,
    }
}

// ─── Key/value text ──────────────────────────────────────────────────────────

/// The value of the first white-space separated part that begins with `pat`,
/// with surrounding double quotes removed.
pub open spec fn arg_in(parts: Seq<Seq<char>>, pat: Seq<char>) -> Option<Seq<char>>
    decreases parts.len(),
{
    if parts.len() == 0 {
        None
    } else if starts_with(parts[0], pat) {
        Some(trim_char(parts[0].skip(pat.len() as int), '"'))
    } else {
        arg_in(parts.drop_first(), pat)
    }
}

/// The value given to `key` in a module argument string such as
/// `sink_name=combined_output slaves=sink1,sink2`.
pub open spec fn arg_value(args: Seq<char>, key: Seq<char>) -> Option<Seq<char>> {
    arg_in(split_ws(args), key + "="@)
}

/// Finds `key=value` in a module argument string and returns the value.
pub fn extract_arg(args: &str, key: &str) -> (r: Option<String>)
    ensures
        opt_view(r) == arg_value(args@, key@),
{
    proof { reveal_strlit("="); }
    let argv = chars_of(args);
    let parts = split_whitespace(argv.as_slice());
    let mut pat = chars_of(key);
    let eq = chars_of("=");
    append_chars(&mut pat, eq.as_slice());
    let ghost all = seqs_of(parts@);
    assert(all.skip(0) =~= all);
    let mut i: usize = 0;
    while i < parts.len()
        invariant
            i <= parts@.len(),
            all == seqs_of(parts@),
            all == split_ws(args@),
            pat@ == key@ + "="@,
            arg_in(all.skip(i as int), pat@) == arg_in(all, pat@),
        decreases parts.len() - i,
    {
        assert(all.skip(i as int)[0] == parts@[i as int]@);
        assert(all.skip(i as int).drop_first() =~= all.skip(i + 1));
        match strip_prefix(parts[i].as_slice(), pat.as_slice()) {
            Some(rest) => {
                let v = trim_matches_char(rest.as_slice(), '"');
                return Some(string_from_chars(v.as_slice()));
            },
            None => {},
        }
        i = i + 1;
    }
    assert(all.skip(i as int).len() == 0);
    None
}

/// The text after `key` on the first line that, trimmed, begins with `key`,
/// cut from the trimmed line and trimmed itself.
pub open spec fn field_in(ls: Seq<Seq<char>>, key: Seq<char>) -> Option<Seq<char>>
    decreases ls.len(),
{
    if ls.len() == 0 {
        None
    } else {
        let t = trim_ws(ls[0]);
        if starts_with(t, key) {
            Some(trim_ws(trim_start_matching(t, key)))
        } else {
            field_in(ls.drop_first(), key)
        }
    }
}

/// Reads a `Key: value` field of `pactl info` output.
pub fn find_field(text: &str, key: &str) -> (r: Option<Vec<char>>)
    ensures
        match r {
            Some(v) => field_in(lines_of(text@), key@) == Some(v@),
            None => field_in(lines_of(text@), key@) is None,
        },
{
    let tv = chars_of(text);
    let ls = lines(tv.as_slice());
    let kv = chars_of(key);
    let ghost all = seqs_of(ls@);
    assert(all.skip(0) =~= all);
    let mut i: usize = 0;
    while i < ls.len()
        invariant
            i <= ls@.len(),
            all == seqs_of(ls@),
            all == lines_of(text@),
            kv@ == key@,
            field_in(all.skip(i as int), key@) == field_in(all, key@),
        decreases ls.len() - i,
    {
        assert(all.skip(i as int)[0] == ls@[i as int]@);
        assert(all.skip(i as int).drop_first() =~= all.skip(i + 1));
        let t = trim(ls[i].as_slice());
        if has_prefix(t.as_slice(), kv.as_slice()) {
            let rest = trim_start_matches(t.as_slice(), kv.as_slice());
            return Some(trim(rest.as_slice()));
        }
        i = i + 1;
    }
    assert(all.skip(i as int).len() == 0);
    None
}

/// The default sink that `pactl info` names, or the empty string.
pub open spec fn default_sink_in(info: Seq<char>) -> Seq<char> {
    match field_in(lines_of(info), "Default Sink:"@) {
        Some(v) => v,
        None => Seq::empty(),
    }
}

/// Parse the default sink name from `pactl info` output
pub fn parse_default_sink(info_output: &str) -> (r: String)
    ensures
        r@ == default_sink_in(info_output@),
{
    match find_field(info_output, "Default Sink:") {
        Some(v) => string_from_chars(v.as_slice()),
        None => String::new(),
    }
}

/// The number text of a `value_percent` entry such as `65%`: trailing percent
/// signs and surrounding white space removed.
pub open spec fn volume_text_of(value_percent: Seq<char>) -> Seq<char> {
    trim_ws(trim_end_matching(value_percent, "%"@))
}

/// Strips the percent sign and white space from a `value_percent` entry.
pub fn volume_number_text(value_percent: &str) -> (r: String)
    ensures
        r@ == volume_text_of(value_percent@),
{
    let v = chars_of(value_percent);
    let pct = chars_of("%");
    let a = trim_end_matches(v.as_slice(), pct.as_slice());
    let b = trim(a.as_slice());
    string_from_chars(b.as_slice())
}

/// The volume of a `value_percent` entry whose number is whole: its value,
/// kept to the range 0–100. Other entries give nothing here.
pub open spec fn whole_volume_of(value_percent: Seq<char>) -> Option<u8> {
    let t = volume_text_of(value_percent);
    if t.len() > 0 && all_digits(t) {
        Some(if digits_value(t) < 100 { digits_value(t) as u8 } else { 100u8 })
    } else {
        None
    }
}

/// Reads a whole-number volume such as `65%`; entries with a sign, a
/// fraction or anything else are left to the caller.
pub fn whole_volume(value_percent: &str) -> (r: Option<u8>)
    ensures
        r == whole_volume_of(value_percent@),
{
    let text = volume_number_text(value_percent);
    let t = chars_of(text.as_str());
    if t.len() == 0 {
        return None;
    }
    let mut acc: u32 = 0;
    let mut i: usize = 0;
    while i < t.len()
        invariant
            i <= t@.len(),
            t@ == volume_text_of(value_percent@),
            all_digits(t@.take(i as int)),
            acc == if digits_value(t@.take(i as int)) < 256 { digits_value(t@.take(i as int)) } else { 256 },
        decreases t.len() - i,
    {
        let cu: u32 = t[i] as u32;
        if !(48 <= cu && cu <= 57) {
            assert(!all_digits(t@)) by {
                assert(!is_digit(t@[i as int]));
            }
            return None;
        }
        let d: u32 = cu - 48;
        assert(t@.take(i + 1).drop_last() =~= t@.take(i as int));
        assert(digits_value(t@.take(i + 1)) == digits_value(t@.take(i as int)) * 10 + d);
        let next: u32 = acc * 10 + d;
        acc = if next < 256 { next } else { 256 };
        i = i + 1;
    }
    assert(t@.take(t@.len() as int) =~= t@);
    Some(if acc < 100 { acc as u8 } else { 100 })
}

/// A volume as the model holds it: at most 100 percent.
pub open spec fn volume_in_range(v: Option<u8>) -> Option<u8> {
    match v {
        Some(x) => Some(if x < 100 { x } else { 100u8 }),
        None => None,
    }
}

/// Keeps a reported volume to the range 0–100 that devices and streams hold.
pub fn keep_in_range(v: Option<u8>) -> (r: Option<u8>)
    ensures
        r == volume_in_range(v),
{
    match v {
        Some(x) => Some(if x < 100 { x } else { 100 }),
        None => None,
    }
}

// ─── Sinks ───────────────────────────────────────────────────────────────────

pub open spec fn opt_is(s: Option<String>, t: Seq<char>) -> bool {
    s matches Some(v) && v@ == t
}

/// The device type of a sink, from its name, driver and properties.
pub open spec fn sink_type(s: RawSink) -> DeviceType {
    if contains(s.name@, "combined"@) || starts_with(s.name@, "combine"@) {
        DeviceType::Combined
    } else if s.driver matches Some(d) && (contains(d@, "combine"@) || contains(d@, "module-combine"@)) {
        DeviceType::Combined
    } else if s.properties matches Some(p) && (p.combine_sink is Some || p.combine_sink_names is Some) {
        DeviceType::Combined
    } else if s.properties matches Some(p) && (opt_is(p.device_class, "abstract"@) || opt_is(p.device_class, "virtual"@)) {
        DeviceType::Virtual
    } else if s.properties matches Some(p) && (opt_is(p.bluetooth_connected, "1"@) || opt_is(p.bluetooth_connected, "true"@)) {
        DeviceType::Bluetooth
    } else if contains(s.name@, "bluez"@) || contains(lowercase(s.description@), "bluetooth"@) {
        DeviceType::Bluetooth
    } else if contains(s.name@, "null"@) || contains(s.name@, "virtual"@) {
        DeviceType::Virtual
    } else {
        DeviceType::Physical
    }
}

fn str_contains(s: &str, p: &str) -> (r: bool)
    ensures
        r == contains(s@, p@),
{
    let a = chars_of(s);
    let b = chars_of(p);
    contains_chars(a.as_slice(), b.as_slice())
}

fn opt_str_is(s: &Option<String>, t: &str) -> (r: bool)
    ensures
        r == opt_is(*s, t@),
{
    match s {
        Some(v) => str_eq(v.as_str(), t),
        None => false,
    }
}

/// Derives the device type of a sink.
pub fn detect_device_type(s: &RawSink) -> (r: DeviceType)
    ensures
        r == sink_type(*s),
{
    let name = s.name.as_str();
    let name_chars = chars_of(name);
    let combine_chars = chars_of("combine");
    if str_contains(name, "combined") || has_prefix(name_chars.as_slice(), combine_chars.as_slice()) {
        return DeviceType::Combined;
    }
    if let Some(driver) = &s.driver {
        if str_contains(driver.as_str(), "combine") || str_contains(driver.as_str(), "module-combine") {
            return DeviceType::Combined;
        }
    }
    if let Some(props) = &s.properties {
        if props.combine_sink.is_some() || props.combine_sink_names.is_some() {
            return DeviceType::Combined;
        }
        if opt_str_is(&props.device_class, "abstract") || opt_str_is(&props.device_class, "virtual") {
            return DeviceType::Virtual;
        }
        if opt_str_is(&props.bluetooth_connected, "1") || opt_str_is(&props.bluetooth_connected, "true") {
            return DeviceType::Bluetooth;
        }
    }
    let lower_desc = to_lowercase(s.description.as_str());
    if str_contains(name, "bluez") || str_contains(lower_desc.as_str(), "bluetooth") {
        return DeviceType::Bluetooth;
    }
    if str_contains(name, "null") || str_contains(name, "virtual") {
        return DeviceType::Virtual;
    }
    DeviceType::Physical
}

/// The sample format, channel count and rate that a sample specification
/// such as `s16le 2ch 48000Hz` gives: its first three words, the second read
/// as a `u8` after `ch` suffixes are cut, the third with `Hz` written ` Hz`.
pub open spec fn sample_fields(spec: Seq<char>) -> (Option<Seq<char>>, Option<u8>, Option<Seq<char>>) {
    let p = split_ws(spec);
    (
        if p.len() > 0 { Some(p[0]) } else { None },
        if p.len() > 1 {
            match parse_unsigned(trim_end_matching(p[1], "ch"@), 255) {
                Some(n) => Some(n as u8),
                None => None,
            }
        } else {
            None
        },
        if p.len() > 2 { Some(replace_all(p[2], "Hz"@, " Hz"@)) } else { None },
    )
}

/// Reads a sample specification.
pub fn parse_sample_spec(spec: &str) -> (r: (Option<String>, Option<u8>, Option<String>))
    ensures
        opt_view(r.0) == sample_fields(spec@).0,
        r.1 == sample_fields(spec@).1,
        opt_view(r.2) == sample_fields(spec@).2,
{
    let sv = chars_of(spec);
    let parts = split_whitespace(sv.as_slice());
    let ghost p = split_ws(spec@);
    assert(seqs_of(parts@) == p);
    let format = if parts.len() > 0 {
        assert(parts@[0]@ == p[0]);
        Some(string_from_chars(parts[0].as_slice()))
    } else {
        None
    };
    let channels = if parts.len() > 1 {
        assert(parts@[1]@ == p[1]);
        let ch = chars_of("ch");
        let t = trim_end_matches(parts[1].as_slice(), ch.as_slice());
        match parse_bounded(t.as_slice(), 255) {
            Some(n) => Some(n as u8),
            None => None,
        }
    } else {
        None
    };
    let rate = if parts.len() > 2 {
        assert(parts@[2]@ == p[2]);
        let hz = chars_of("Hz");
        let spaced = chars_of(" Hz");
        proof { reveal_strlit("Hz"); }
        let t = replace(parts[2].as_slice(), hz.as_slice(), spaced.as_slice());
        Some(string_from_chars(t.as_slice()))
    } else {
        None
    };
    (format, channels, rate)
}

/// What a sink entry becomes: `d` is the device read from `s` when the
/// system default sink is named `default`.
pub open spec fn device_from_sink(d: Device, s: RawSink, default: Seq<char>) -> bool {
    let sample = match s.sample_spec {
        Some(t) => sample_fields(t@),
        None => (None, None, None),
    };
    &&& d.index == s.index
    &&& d.name@ == s.name@
    &&& d.description@ == s.description@
    &&& d.device_type == sink_type(s)
    &&& d.status == status_from_text(lowercase(s.state@))
    &&& d.is_default == (s.name@ == default)
    &&& d.combined_group_id is None
    &&& opt_view(d.sample_format) == sample.0
    &&& d.channels == sample.1
    &&& opt_view(d.sample_rate) == sample.2
    &&& d.volume == volume_in_range(s.volume)
    &&& d.muted == (s.mute == Some(true))
    &&& d.module_index == (match s.owner_module {
        Some(v) => scalar_u32(v),
        None => None,
    })
}

/// Builds one device from one sink entry.
pub fn sink_to_device(s: &RawSink, default_sink_name: &str) -> (d: Device)
    ensures
        device_from_sink(d, *s, default_sink_name@),
        d.muted <==> s.mute == Some(true),
        d.index == s.index,
        d.name@ == s.name@,
{
    let device_type = detect_device_type(s);
    let status = DeviceStatus::from_str(s.state.as_str());
    let is_default = str_eq(s.name.as_str(), default_sink_name);
    let (sample_format, channels, sample_rate) = match &s.sample_spec {
        Some(t) => parse_sample_spec(t.as_str()),
        None => (None, None, None),
    };
    let muted = match s.mute {
        Some(b) => b,
        None => false,
    };
    let module_index = match &s.owner_module {
        Some(v) => scalar_to_u32(v),
        None => None,
    };
    Device {
        index: s.index,
        name: copy_string(&s.name),
        description: copy_string(&s.description),
        device_type,
        status,
        is_default,
        combined_group_id: None,
        sample_rate,
        sample_format,
        channels,
        volume: keep_in_range(s.volume),
        muted,
        module_index,
    }
}

/// Parse the entries of `pactl --format=json list sinks` into devices.
pub fn parse_sinks(raw: &Vec<RawSink>, default_sink_name: &str) -> (r: Vec<Device>)
    ensures
        r@.len() == raw@.len(),
        forall|i: int| 0 <= i < raw@.len() ==> device_from_sink(#[trigger] r@[i], raw@[i], default_sink_name@),
        forall|i: int| 0 <= i < raw@.len() ==> ((#[trigger] r@[i]).muted <==> raw@[i].mute == Some(true)),
{
    let mut r: Vec<Device> = Vec::new();
    let mut i: usize = 0;
    while i < raw.len()
        invariant
            i <= raw@.len(),
            r@.len() == i,
            forall|k: int| 0 <= k < i ==> device_from_sink(#[trigger] r@[k], raw@[k], default_sink_name@),
        decreases raw.len() - i,
    {
        let d = sink_to_device(&raw[i], default_sink_name);
        r.push(d);
        i = i + 1;
    }
    r
}

// ─── Sink inputs ─────────────────────────────────────────────────────────────

/// What a sink-input entry becomes, given the devices it may be routed to.
pub open spec fn stream_from_input(st: Stream, si: RawSinkInput, devices: Seq<Device>) -> bool {
    let app = match si.properties {
        Some(p) => opt_view(p.application_name),
        None => None,
    };
    let media = match si.properties {
        Some(p) => opt_view(p.media_name),
        None => None,
    };
    &&& st.index == si.index
    &&& st.application_name@ == (match app {
        Some(a) => a,
        None => "Unknown App"@,
    })
    &&& opt_view(st.media_name) == media
    &&& st.sink_index == si.sink_index
    &&& st.sink_name@ == (match first_where(devices, |d: Device| d.index == si.sink_index) {
        Some(k) => devices[k].name@,
        None => Seq::empty(),
    })
    &&& st.volume == volume_in_range(si.volume)
    &&& st.muted == (si.mute == Some(true))
}

/// Builds one stream from one sink-input entry.
pub fn input_to_stream(si: &RawSinkInput, devices: &[Device]) -> (st: Stream)
    ensures
        stream_from_input(st, *si, devices@),
        st.muted <==> si.mute == Some(true),
        st.index == si.index,
        st.sink_index == si.sink_index,
{
    let application_name = match &si.properties {
        Some(p) => match &p.application_name {
            Some(a) => copy_string(a),
            None => "Unknown App".to_owned(),
        },
        None => "Unknown App".to_owned(),
    };
    let media_name = match &si.properties {
        Some(p) => copy_opt_string(&p.media_name),
        None => None,
    };
    let sink_name = match position_by_index(devices, si.sink_index) {
        Some(k) => copy_string(&devices[k].name),
        None => String::new(),
    };
    let muted = match si.mute {
        Some(b) => b,
        None => false,
    };
    Stream {
        index: si.index,
        application_name,
        media_name,
        sink_index: si.sink_index,
        sink_name,
        volume: keep_in_range(si.volume),
        muted,
    }
}

/// Parse the entries of `pactl --format=json list sink-inputs` into streams.
pub fn parse_sink_inputs(raw: &Vec<RawSinkInput>, devices: &[Device]) -> (r: Vec<Stream>)
    ensures
        r@.len() == raw@.len(),
        forall|i: int| 0 <= i < raw@.len() ==> stream_from_input(#[trigger] r@[i], raw@[i], devices@),
        forall|i: int| 0 <= i < raw@.len() ==> ((#[trigger] r@[i]).muted <==> raw@[i].mute == Some(true)),
{
    let mut r: Vec<Stream> = Vec::new();
    let mut i: usize = 0;
    while i < raw.len()
        invariant
            i <= raw@.len(),
            r@.len() == i,
            forall|k: int| 0 <= k < i ==> stream_from_input(#[trigger] r@[k], raw@[k], devices@),
        decreases raw.len() - i,
    {
        let st = input_to_stream(&raw[i], devices);
        r.push(st);
        i = i + 1;
    }
    r
}


// ─── Modules ─────────────────────────────────────────────────────────────────

/// The characters of each string.
pub open spec fn strings_of(v: Seq<String>) -> Seq<Seq<char>> {
    v.map_values(|s: String| s@)
}

/// A module entry that loads a combined sink.
pub open spec fn is_combine_module(m: RawModule) -> bool {
    m.name@ == "module-combine-sink"@
}

pub open spec fn module_args(m: RawModule) -> Seq<char> {
    match m.argument {
        Some(a) => a@,
        None => Seq::empty(),
    }
}

/// The module index: the `index` field, else the `object.id` property, else 0.
pub open spec fn module_index_of(m: RawModule) -> u32 {
    match m.index {
        Some(i) => i,
        None => match m.object_id {
            Some(v) => match scalar_u32(v) {
                Some(x) => x,
                None => 0,
            },
            None => 0,
        },
    }
}

/// The combined sink's name: its `sink_name` argument, else `combined_<index>`.
pub open spec fn group_sink_name(m: RawModule) -> Seq<char> {
    match arg_value(module_args(m), "sink_name"@) {
        Some(v) => v,
        None => "combined_"@ + decimal(module_index_of(m) as nat),
    }
}

/// The member sinks: the `slaves` argument (else `sink_properties`) split at
/// commas, each piece trimmed.
pub open spec fn group_members(m: RawModule) -> Seq<Seq<char>> {
    let list = match arg_value(module_args(m), "slaves"@) {
        Some(v) => Some(v),
        None => arg_value(module_args(m), "sink_properties"@),
    };
    match list {
        Some(l) => split_on(l, ',').map_values(|p: Seq<char>| trim_ws(p)),
        None => Seq::empty(),
    }
}

/// The group's label: its `sink_properties` argument, else its sink name.
pub open spec fn group_label(m: RawModule) -> Seq<char> {
    match arg_value(module_args(m), "sink_properties"@) {
        Some(v) => v,
        None => group_sink_name(m),
    }
}

/// What a `module-combine-sink` entry becomes.
pub open spec fn group_from_module(g: CombinedGroup, m: RawModule) -> bool {
    &&& g.module_index == module_index_of(m)
    &&& g.sink_name@ == group_sink_name(m)
    &&& g.label@ == group_label(m)
    &&& strings_of(g.members@) == group_members(m)
    &&& !g.is_default
    &&& g.is_active
}

/// Splits a member list at commas and trims each piece.
fn member_list(list: &str) -> (r: Vec<String>)
    ensures
        strings_of(r@) == split_on(list@, ',').map_values(|p: Seq<char>| trim_ws(p)),
{
    let lv = chars_of(list);
    let pieces = split_char(lv.as_slice(), ',');
    let ghost all = seqs_of(pieces@);
    let mut r: Vec<String> = Vec::new();
    let mut i: usize = 0;
    while i < pieces.len()
        invariant
            i <= pieces@.len(),
            all == seqs_of(pieces@),
            all == split_on(list@, ','),
            strings_of(r@) == all.take(i as int).map_values(|p: Seq<char>| trim_ws(p)),
        decreases pieces.len() - i,
    {
        assert(all[i as int] == pieces@[i as int]@);
        let t = trim(pieces[i].as_slice());
        let st = string_from_chars(t.as_slice());
        let ghost old_r = strings_of(r@);
        r.push(st);
        assert(strings_of(r@) =~= old_r.push(trim_ws(all[i as int])));
        assert(all.take(i + 1).map_values(|p: Seq<char>| trim_ws(p)) =~= all.take(i as int).map_values(|p: Seq<char>| trim_ws(p)).push(trim_ws(all[i as int])));
        i = i + 1;
    }
    assert(all.take(all.len() as int) =~= all);
    r
}

/// Builds one combined group from one `module-combine-sink` entry.
pub fn module_to_group(m: &RawModule) -> (g: CombinedGroup)
    ensures
        group_from_module(g, *m),
{
    let args = match &m.argument {
        Some(a) => copy_string(a),
        None => String::new(),
    };
    let module_index: u32 = match m.index {
        Some(i) => i,
        None => match &m.object_id {
            Some(v) => match scalar_to_u32(v) {
                Some(x) => x,
                None => 0,
            },
            None => 0,
        },
    };
    let sink_name = match extract_arg(args.as_str(), "sink_name") {
        Some(v) => v,
        None => {
            let mut v = chars_of("combined_");
            push_decimal(&mut v, module_index as u64);
            string_from_chars(v.as_slice())
        },
    };
    let slaves = match extract_arg(args.as_str(), "slaves") {
        Some(v) => Some(v),
        None => extract_arg(args.as_str(), "sink_properties"),
    };
    let members = match &slaves {
        Some(l) => member_list(l.as_str()),
        None => Vec::new(),
    };
    assert(members@.len() == 0 ==> strings_of(members@) =~= Seq::<Seq<char>>::empty());
    let label = match extract_arg(args.as_str(), "sink_properties") {
        Some(v) => v,
        None => copy_string(&sink_name),
    };
    CombinedGroup {
        module_index,
        sink_name,
        label,
        members,
        is_default: false,
        is_active: true,
    }
}

/// Parse the entries of `pactl --format=json list modules` into the combined
/// groups that they load, in order.
pub fn parse_combined_groups(raw: &Vec<RawModule>) -> (r: Vec<CombinedGroup>)
    ensures
        r@.len() == filter_seq(raw@, |m: RawModule| is_combine_module(m)).len(),
        forall|i: int| 0 <= i < r@.len() ==> group_from_module(#[trigger] r@[i], filter_seq(raw@, |m: RawModule| is_combine_module(m))[i]),
{
    let ghost f = |m: RawModule| is_combine_module(m);
    let mut r: Vec<CombinedGroup> = Vec::new();
    let mut i: usize = 0;
    while i < raw.len()
        invariant
            i <= raw@.len(),
            f == (|m: RawModule| is_combine_module(m)),
            r@.len() == filter_seq(raw@.take(i as int), f).len(),
            forall|k: int| 0 <= k < r@.len() ==> group_from_module(#[trigger] r@[k], filter_seq(raw@.take(i as int), f)[k]),
        decreases raw.len() - i,
    {
        assert(raw@.take(i + 1).drop_last() =~= raw@.take(i as int));
        assert(raw@.take(i + 1).last() == raw@[i as int]);
        if str_eq(raw[i].name.as_str(), "module-combine-sink") {
            let g = module_to_group(&raw[i]);
            r.push(g);
        }
        i = i + 1;
    }
    assert(raw@.take(raw@.len() as int) =~= raw@);
    r
}

} // verus!
