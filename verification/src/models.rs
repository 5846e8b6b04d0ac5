//! The audio model: devices (sinks), streams (sink inputs), combined groups
//! and the snapshot that holds them.

use vstd::prelude::*;
use crate::text::{
    chars_eq, chars_of, lowercase, string_from_chars, to_lowercase, append_chars,
};

verus! {

/// `std::time::Instant`, carried through as an opaque value.
#[verifier::external_type_specification]
#[verifier::external_body]
pub struct ExInstant(std::time::Instant);

/// `Instant::now`; nothing is known of the instant it returns.
#[verifier::external_body]
pub(crate) fn now() -> (t: std::time::Instant) {
    std::time::Instant::now()
}

/// `Instant::elapsed` in nanoseconds (`Duration::as_nanos`); it depends on the
/// clock, so nothing is stated of it.
#[verifier::external_body]
pub(crate) fn nanos_since(t: &std::time::Instant) -> (nanos: u128) {
    t.elapsed().as_nanos()
}

/// Equality of two string slices, by their characters.
pub fn str_eq(a: &str, b: &str) -> (r: bool)
    ensures
        r == (a@ == b@),
{
    let x = chars_of(a);
    let y = chars_of(b);
    chars_eq(x.as_slice(), y.as_slice())
}

/// A copy of a string.
pub fn copy_string(s: &String) -> (r: String)
    ensures
        r@ == s@,
{
    let v = chars_of(s.as_str());
    string_from_chars(v.as_slice())
}

/// A copy of an optional string.
pub fn copy_opt_string(s: &Option<String>) -> (r: Option<String>)
    ensures
        opt_view(*s) == opt_view(r),
{
    match s {
        Some(v) => Some(copy_string(v)),
        None => None,
    }
}

/// The characters of an optional string.
pub open spec fn opt_view(s: Option<String>) -> Option<Seq<char>> {
    match s {
        Some(v) => Some(v@),
        None => None,
    }
}

/// The type/category of an audio device (sink).
#[derive(Debug, Clone, Copy, PartialEq, Eq, Structural)]
pub enum DeviceType {
    Physical,
    Bluetooth,
    Combined,
    Virtual,
    Unknown,
}

pub open spec fn device_type_label(t: DeviceType) -> Seq<char> {
    match t {
        DeviceType::Physical => "🔊 Physical"@,
        DeviceType::Bluetooth => "🎧 Bluetooth"@,
        DeviceType::Combined => "🔀 Combined"@,
        DeviceType::Virtual => "💻 Virtual"@,
        DeviceType::Unknown => "❓ Unknown"@,
    }
}

impl DeviceType {
    /// Human-friendly label with an icon.
    pub fn display_label(&self) -> (r: &str)
        ensures
            r@ == device_type_label(*self),
    {
        match self {
            DeviceType::Physical => "🔊 Physical",
            DeviceType::Bluetooth => "🎧 Bluetooth",
            DeviceType::Combined => "🔀 Combined",
            DeviceType::Virtual => "💻 Virtual",
            DeviceType::Unknown => "❓ Unknown",
        }
    }
}

/// Status of a device.
#[derive(Debug, Clone, PartialEq, Eq)]
pub enum DeviceStatus {
    Running,
    Idle,
    Suspended,
    Error(String),
}

pub open spec fn device_status_label(s: DeviceStatus) -> Seq<char> {
    match s {
        DeviceStatus::Running => "▶ Running"@,
        DeviceStatus::Idle => "⏸ Idle"@,
        DeviceStatus::Suspended => "💤 Suspended"@,
        DeviceStatus::Error(e) => "⚠ Error: "@ + e@,
    }
}

/// The status that a lower-cased `pactl` state names: `running`, `idle` and
/// `suspended` name themselves, anything else reads as idle.
pub open spec fn status_from_text(t: Seq<char>) -> DeviceStatus {
    if t == "running"@ {
        DeviceStatus::Running
    } else if t == "idle"@ {
        DeviceStatus::Idle
    } else if t == "suspended"@ {
        DeviceStatus::Suspended
    } else {
        DeviceStatus::Idle
    }
}

/// A copy of a status.
pub fn copy_status(s: &DeviceStatus) -> (r: DeviceStatus)
    ensures
        status_view(r) == status_view(*s),
{
    match s {
        DeviceStatus::Running => DeviceStatus::Running,
        DeviceStatus::Idle => DeviceStatus::Idle,
        DeviceStatus::Suspended => DeviceStatus::Suspended,
        DeviceStatus::Error(e) => DeviceStatus::Error(copy_string(e)),
    }
}

/// A status with its message taken by its characters.
pub enum StatusView {
    Running,
    Idle,
    Suspended,
    Error(Seq<char>),
}

pub open spec fn status_view(s: DeviceStatus) -> StatusView {
    match s {
        DeviceStatus::Running => StatusView::Running,
        DeviceStatus::Idle => StatusView::Idle,
        DeviceStatus::Suspended => StatusView::Suspended,
        DeviceStatus::Error(e) => StatusView::Error(e@),
    }
}

impl DeviceStatus {
    /// Human-friendly label with an icon.
    pub fn display_label(&self) -> (r: String)
        ensures
            r@ == device_status_label(*self),
    {
        match self {
            DeviceStatus::Running => "▶ Running".to_owned(),
            DeviceStatus::Idle => "⏸ Idle".to_owned(),
            DeviceStatus::Suspended => "💤 Suspended".to_owned(),
            DeviceStatus::Error(e) => {
                let mut v = chars_of("⚠ Error: ");
                let ev = chars_of(e.as_str());
                append_chars(&mut v, ev.as_slice());
                string_from_chars(v.as_slice())
            },
        }
    }

    /// Reads a `pactl` sink state, ignoring case.
    pub fn from_str(s: &str) -> (r: DeviceStatus)
        ensures
            r == status_from_text(lowercase(s@)),
    {
        let lower = to_lowercase(s);
        DeviceStatus::from_lowercase(lower.as_str())
    }

    /// Reads a sink state that is already lower case.
    pub fn from_lowercase(t: &str) -> (r: DeviceStatus)
        ensures
            r == status_from_text(t@),
    {
        proof {
            reveal_strlit("running");
            reveal_strlit("idle");
            reveal_strlit("suspended");
        }
        if str_eq(t, "running") {
            DeviceStatus::Running
        } else if str_eq(t, "idle") {
            DeviceStatus::Idle
        } else if str_eq(t, "suspended") {
            DeviceStatus::Suspended
        } else {
            DeviceStatus::Idle
        }
    }
}

/// An audio sink (output device).
#[derive(Debug, Clone)]
pub struct Device {
    /// Numeric sink index from pactl
    pub index: u32,
    /// Internal sink name (e.g. "alsa_output.pci-0000_00_1f.3.analog-stereo")
    pub name: String,
    /// Human-friendly description
    pub description: String,
    /// Derived device type
    pub device_type: DeviceType,
    /// Current operational status
    pub status: DeviceStatus,
    /// Is this the system default sink?
    pub is_default: bool,
    /// If part of a combined group, which group?
    pub combined_group_id: Option<u32>,
    /// Sample rate (e.g. "48000 Hz")
    pub sample_rate: Option<String>,
    /// Sample format (e.g. "s16le")
    pub sample_format: Option<String>,
    /// Number of channels
    pub channels: Option<u8>,
    /// Volume 0–100
    pub volume: Option<u8>,
    /// Whether muted
    pub muted: bool,
    /// PulseAudio/PipeWire module index (for combined sinks, used to unload)
    pub module_index: Option<u32>,
}

pub open spec fn device_display_name(d: Device) -> Seq<char> {
    if d.description@.len() == 0 {
        d.name@
    } else {
        d.description@
    }
}

pub open spec fn type_badge_of(t: DeviceType) -> Seq<char> {
    match t {
        DeviceType::Physical => "PHY"@,
        DeviceType::Bluetooth => "BT"@,
        DeviceType::Combined => "CMB"@,
        DeviceType::Virtual => "VRT"@,
        DeviceType::Unknown => "UNK"@,
    }
}

/// A device can carry audio: it is neither suspended nor in error.
pub open spec fn status_available(s: DeviceStatus) -> bool {
    match s {
        DeviceStatus::Suspended => false,
        DeviceStatus::Error(_) => false,
        _ => true,
    }
}

impl Device {
    /// Returns a friendly display name, preferring description over raw name
    pub fn display_name(&self) -> (r: &str)
        ensures
            r@ == device_display_name(*self),
    {
        if self.description.as_str().is_empty() {
            self.name.as_str()
        } else {
            self.description.as_str()
        }
    }

    /// Returns a short type badge string
    pub fn type_badge(&self) -> (r: &str)
        ensures
            r@ == type_badge_of(self.device_type),
    {
        match self.device_type {
            DeviceType::Physical => "PHY",
            DeviceType::Bluetooth => "BT",
            DeviceType::Combined => "CMB",
            DeviceType::Virtual => "VRT",
            DeviceType::Unknown => "UNK",
        }
    }

    /// Whether device appears to be a combined sink
    pub fn is_combined(&self) -> (r: bool)
        ensures
            r == (self.device_type == DeviceType::Combined),
    {
        self.device_type == DeviceType::Combined
    }

    /// Whether device is available for audio (not suspended)
    pub fn is_available(&self) -> (r: bool)
        ensures
            r == status_available(self.status),
    {
        match self.status {
            DeviceStatus::Suspended => false,
            DeviceStatus::Error(_) => false,
            _ => true,
        }
    }
}

/// An active audio playback stream (sink input).
#[derive(Debug, Clone)]
pub struct Stream {
    /// Sink input index
    pub index: u32,
    /// Application name
    pub application_name: String,
    /// Media name/title if available
    pub media_name: Option<String>,
    /// Current sink index this stream is routed to
    pub sink_index: u32,
    /// Current sink name
    pub sink_name: String,
    /// Volume 0–100
    pub volume: Option<u8>,
    /// Whether muted
    pub muted: bool,
}

/// The application name, followed by ` — ` and the media title when there is
/// one that is neither empty nor the generic `audio stream`.
pub open spec fn stream_display_name(s: Stream) -> Seq<char> {
    match s.media_name {
        Some(m) => if m@.len() > 0 && m@ != "audio stream"@ {
            s.application_name@ + " — "@ + m@
        } else {
            s.application_name@
        },
        None => s.application_name@,
    }
}

impl Stream {
    pub fn display_name(&self) -> (r: String)
        ensures
            r@ == stream_display_name(*self),
    {
        if let Some(m) = &self.media_name {
            if !m.as_str().is_empty() && !str_eq(m.as_str(), "audio stream") {
                let mut v = chars_of(self.application_name.as_str());
                let sep = chars_of(" — ");
                let mv = chars_of(m.as_str());
                append_chars(&mut v, sep.as_slice());
                append_chars(&mut v, mv.as_slice());
                return string_from_chars(v.as_slice());
            }
        }
        copy_string(&self.application_name)
    }
}

/// A combined output group (module-combine-sink).
#[derive(Debug, Clone)]
pub struct CombinedGroup {
    /// Module index used to unload
    pub module_index: u32,
    /// The combined sink name
    pub sink_name: String,
    /// Human-friendly group name/label
    pub label: String,
    /// Member sink names
    pub members: Vec<String>,
    /// Is this the current default?
    pub is_default: bool,
    /// Is the combined sink currently active/visible?
    pub is_active: bool,
}

pub open spec fn group_display_name(g: CombinedGroup) -> Seq<char> {
    if g.label@.len() == 0 {
        g.sink_name@
    } else {
        g.label@
    }
}

impl CombinedGroup {
    pub fn display_name(&self) -> (r: &str)
        ensures
            r@ == group_display_name(*self),
    {
        if self.label.as_str().is_empty() {
            self.sink_name.as_str()
        } else {
            self.label.as_str()
        }
    }
}

/// Full snapshot of audio state.
#[derive(Debug, Clone)]
pub struct AudioState {
    pub devices: Vec<Device>,
    pub streams: Vec<Stream>,
    pub combined_groups: Vec<CombinedGroup>,
    pub default_sink_name: String,
    /// Time of last successful refresh
    pub last_refresh: Option<std::time::Instant>,
    /// Last error message (if any)
    pub last_error: Option<String>,
}

impl Default for AudioState {
    fn default() -> (r: AudioState)
        ensures
            r.devices@.len() == 0,
            r.streams@.len() == 0,
            r.combined_groups@.len() == 0,
            r.default_sink_name@.len() == 0,
            r.last_refresh is None,
            r.last_error is None,
    {
        AudioState {
            devices: Vec::new(),
            streams: Vec::new(),
            combined_groups: Vec::new(),
            default_sink_name: String::new(),
            last_refresh: None,
            last_error: None,
        }
    }
}

/// The elements of `s` that satisfy `f`, in order.
pub open spec fn filter_seq<T>(s: Seq<T>, f: spec_fn(T) -> bool) -> Seq<T>
    decreases s.len(),
{
    if s.len() == 0 {
        Seq::empty()
    } else {
        let p = filter_seq(s.drop_last(), f);
        if f(s.last()) {
            p.push(s.last())
        } else {
            p
        }
    }
}

/// The values behind a sequence of references.
pub open spec fn derefs<T>(s: Seq<&T>) -> Seq<T> {
    s.map_values(|r: &T| *r)
}

/// Index of the first element satisfying `f`, if any.
pub open spec fn first_where<T>(s: Seq<T>, f: spec_fn(T) -> bool) -> Option<int>
    decreases s.len(),
{
    if s.len() == 0 {
        None
    } else if f(s[0]) {
        Some(0)
    } else {
        match first_where(s.drop_first(), f) {
            Some(i) => Some(i + 1),
            None => None,
        }
    }
}

/// `first_where` read from a position: the answer for `s` when the first `k`
/// elements do not satisfy `f`.
pub proof fn lemma_first_where_skip<T>(s: Seq<T>, f: spec_fn(T) -> bool, k: int)
    requires
        0 <= k <= s.len(),
        forall|j: int| 0 <= j < k ==> !f(#[trigger] s[j]),
    ensures
        first_where(s, f) == (match first_where(s.skip(k), f) {
            Some(i) => Some(i + k),
            None => None,
        }),
    decreases k,
{
    if k == 0 {
        assert(s.skip(0) =~= s);
        match first_where(s, f) {
            Some(i) => {},
            None => {},
        }
    } else {
        let t = s.drop_first();
        assert forall|j: int| 0 <= j < k - 1 implies !f(#[trigger] t[j]) by {
            assert(t[j] == s[j + 1]);
        }
        lemma_first_where_skip(t, f, k - 1);
        assert(t.skip(k - 1) =~= s.skip(k));
    }
}

pub proof fn lemma_first_where_found<T>(s: Seq<T>, f: spec_fn(T) -> bool, k: int)
    requires
        0 <= k < s.len(),
        forall|j: int| 0 <= j < k ==> !f(#[trigger] s[j]),
        f(s[k]),
    ensures
        first_where(s, f) == Some(k),
{
    lemma_first_where_skip(s, f, k);
    assert(s.skip(k)[0] == s[k]);
}

pub proof fn lemma_first_where_none<T>(s: Seq<T>, f: spec_fn(T) -> bool)
    requires
        forall|j: int| 0 <= j < s.len() ==> !f(#[trigger] s[j]),
    ensures
        first_where(s, f) is None,
{
    lemma_first_where_skip(s, f, s.len() as int);
    assert(s.skip(s.len() as int).len() == 0);
}

/// The result of a search by `first_where`, as a reference into the sequence.
pub open spec fn found_ref<T>(s: Seq<T>, f: spec_fn(T) -> bool, r: Option<&T>) -> bool {
    match first_where(s, f) {
        Some(i) => r matches Some(x) && *x == s[i],
        None => r is None,
    }
}

/// Position of the first device with the given sink index.
pub fn position_by_index(devices: &[Device], index: u32) -> (r: Option<usize>)
    ensures
        match r {
            Some(k) => first_where(devices@, |d: Device| d.index == index) == Some(k as int),
            None => first_where(devices@, |d: Device| d.index == index) is None,
        },
        r matches Some(k) ==> k < devices@.len() && devices@[k as int].index == index,
{
    let mut k: usize = 0;
    while k < devices.len()
        invariant
            k <= devices@.len(),
            forall|j: int| 0 <= j < k ==> (#[trigger] devices@[j]).index != index,
        decreases devices.len() - k,
    {
        if devices[k].index == index {
            proof { lemma_first_where_found(devices@, |d: Device| d.index == index, k as int); }
            return Some(k);
        }
        k = k + 1;
    }
    proof { lemma_first_where_none(devices@, |d: Device| d.index == index); }
    None
}

/// Position of the first device with the given sink name.
pub fn position_by_name(devices: &[Device], name: &str) -> (r: Option<usize>)
    ensures
        match r {
            Some(k) => first_where(devices@, |d: Device| d.name@ == name@) == Some(k as int),
            None => first_where(devices@, |d: Device| d.name@ == name@) is None,
        },
        r matches Some(k) ==> k < devices@.len() && devices@[k as int].name@ == name@,
        r matches Some(k) ==> forall|j: int| 0 <= j < k ==> (#[trigger] devices@[j]).name@ != name@,
        r is None ==> forall|j: int| 0 <= j < devices@.len() ==> (#[trigger] devices@[j]).name@ != name@,
{
    let mut k: usize = 0;
    while k < devices.len()
        invariant
            k <= devices@.len(),
            forall|j: int| 0 <= j < k ==> (#[trigger] devices@[j]).name@ != name@,
        decreases devices.len() - k,
    {
        if str_eq(devices[k].name.as_str(), name) {
            proof { lemma_first_where_found(devices@, |d: Device| d.name@ == name@, k as int); }
            return Some(k);
        }
        k = k + 1;
    }
    proof { lemma_first_where_none(devices@, |d: Device| d.name@ == name@); }
    None
}

pub open spec fn is_real_type(t: DeviceType) -> bool {
    t == DeviceType::Physical || t == DeviceType::Bluetooth
}

impl AudioState {
    /// The first device marked as the system default.
    pub fn default_device(&self) -> (r: Option<&Device>)
        ensures
            found_ref(self.devices@, |d: Device| d.is_default, r),
    {
        let mut i: usize = 0;
        while i < self.devices.len()
            invariant
                i <= self.devices@.len(),
                forall|j: int| 0 <= j < i ==> !(#[trigger] self.devices@[j]).is_default,
            decreases self.devices.len() - i,
        {
            if self.devices[i].is_default {
                proof { lemma_first_where_found(self.devices@, |d: Device| d.is_default, i as int); }
                return Some(&self.devices[i]);
            }
            i = i + 1;
        }
        proof { lemma_first_where_none(self.devices@, |d: Device| d.is_default); }
        None
    }

    /// The first device with the given sink name.
    pub fn device_by_name(&self, name: &str) -> (r: Option<&Device>)
        ensures
            found_ref(self.devices@, |d: Device| d.name@ == name@, r),
    {
        let mut i: usize = 0;
        while i < self.devices.len()
            invariant
                i <= self.devices@.len(),
                forall|j: int| 0 <= j < i ==> (#[trigger] self.devices@[j]).name@ != name@,
            decreases self.devices.len() - i,
        {
            if str_eq(self.devices[i].name.as_str(), name) {
                proof { lemma_first_where_found(self.devices@, |d: Device| d.name@ == name@, i as int); }
                return Some(&self.devices[i]);
            }
            i = i + 1;
        }
        proof { lemma_first_where_none(self.devices@, |d: Device| d.name@ == name@); }
        None
    }

    /// The first device with the given sink index.
    pub fn device_by_index(&self, index: u32) -> (r: Option<&Device>)
        ensures
            found_ref(self.devices@, |d: Device| d.index == index, r),
    {
        let mut i: usize = 0;
        while i < self.devices.len()
            invariant
                i <= self.devices@.len(),
                forall|j: int| 0 <= j < i ==> (#[trigger] self.devices@[j]).index != index,
            decreases self.devices.len() - i,
        {
            if self.devices[i].index == index {
                proof { lemma_first_where_found(self.devices@, |d: Device| d.index == index, i as int); }
                return Some(&self.devices[i]);
            }
            i = i + 1;
        }
        proof { lemma_first_where_none(self.devices@, |d: Device| d.index == index); }
        None
    }

    /// The streams routed to the given sink, in order.
    pub fn streams_on_sink(&self, sink_index: u32) -> (r: Vec<&Stream>)
        ensures
            derefs(r@) == filter_seq(self.streams@, |s: Stream| s.sink_index == sink_index),
    {
        let ghost f = |s: Stream| s.sink_index == sink_index;
        let mut r: Vec<&Stream> = Vec::new();
        let mut i: usize = 0;
        while i < self.streams.len()
            invariant
                i <= self.streams@.len(),
                f == (|s: Stream| s.sink_index == sink_index),
                derefs(r@) == filter_seq(self.streams@.take(i as int), f),
            decreases self.streams.len() - i,
        {
            assert(self.streams@.take(i + 1).drop_last() =~= self.streams@.take(i as int));
            let s = &self.streams[i];
            if s.sink_index == sink_index {
                r.push(s);
            }
            assert(derefs(r@) =~= filter_seq(self.streams@.take(i + 1), f));
            i = i + 1;
        }
        assert(self.streams@.take(self.streams@.len() as int) =~= self.streams@);
        r
    }

    /// Physical + bluetooth devices only (not combined/virtual)
    pub fn real_devices(&self) -> (r: Vec<&Device>)
        ensures
            derefs(r@) == filter_seq(self.devices@, |d: Device| is_real_type(d.device_type)),
    {
        let ghost f = |d: Device| is_real_type(d.device_type);
        let mut r: Vec<&Device> = Vec::new();
        let mut i: usize = 0;
        while i < self.devices.len()
            invariant
                i <= self.devices@.len(),
                f == (|d: Device| is_real_type(d.device_type)),
                derefs(r@) == filter_seq(self.devices@.take(i as int), f),
            decreases self.devices.len() - i,
        {
            assert(self.devices@.take(i + 1).drop_last() =~= self.devices@.take(i as int));
            let d = &self.devices[i];
            if d.device_type == DeviceType::Physical || d.device_type == DeviceType::Bluetooth {
                r.push(d);
            }
            assert(derefs(r@) =~= filter_seq(self.devices@.take(i + 1), f));
            i = i + 1;
        }
        assert(self.devices@.take(self.devices@.len() as int) =~= self.devices@);
        r
    }

    /// Combined-type devices
    pub fn combined_devices(&self) -> (r: Vec<&Device>)
        ensures
            derefs(r@) == filter_seq(self.devices@, |d: Device| d.device_type == DeviceType::Combined),
    {
        let ghost f = |d: Device| d.device_type == DeviceType::Combined;
        let mut r: Vec<&Device> = Vec::new();
        let mut i: usize = 0;
        while i < self.devices.len()
            invariant
                i <= self.devices@.len(),
                f == (|d: Device| d.device_type == DeviceType::Combined),
                derefs(r@) == filter_seq(self.devices@.take(i as int), f),
            decreases self.devices.len() - i,
        {
            assert(self.devices@.take(i + 1).drop_last() =~= self.devices@.take(i as int));
            let d = &self.devices[i];
            if d.device_type == DeviceType::Combined {
                r.push(d);
            }
            assert(derefs(r@) =~= filter_seq(self.devices@.take(i + 1), f));
            i = i + 1;
        }
        assert(self.devices@.take(self.devices@.len() as int) =~= self.devices@);
        r
    }
}

} // verus!
