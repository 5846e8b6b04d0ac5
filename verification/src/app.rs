//! Application state: screens, the combine wizard, notifications, cursors and
//! selections, and what each finished backend action makes of its outcome.

use std::collections::HashSet;
use vstd::prelude::*;
use crate::backend::AudioBackend;
use crate::models::{
    copy_opt_string, copy_status, copy_string, derefs, device_display_name, device_type_label,
    filter_seq, group_display_name, is_real_type, now, opt_view, position_by_name, nanos_since,
    status_view, AudioState, CombinedGroup, Device, Stream,
};
use crate::text::{
    cat, cat3, char_is_alphanumeric, chars_of, contains, contains_chars, decimal,
    decimal_string, is_alphanumeric, lowercase, string_from_chars, to_lowercase, trim, trim_ws,
};

verus! {

broadcast use vstd::std_specs::hash::group_hash_axioms;

// ─── Screen enum ──────────────────────────────────────────────────────────────

#[derive(Debug, Clone, PartialEq, Eq)]
pub enum Screen {
    Home,
    Devices,
    Streams,
    Combine,
    Help,
    Confirm(ConfirmAction),
    SelectDevice { stream_index: u32, cursor: usize },
}

/// Actions that require confirmation before executing
#[derive(Debug, Clone, PartialEq, Eq)]
pub enum ConfirmAction {
    RemoveCombined { group_index: usize },
    MoveAllStreams { sink_name: String },
    SetDefault { sink_name: String, move_streams: bool },
    ResumeDevice { device_index: usize },
}

// ─── Wizard state for combine flow ───────────────────────────────────────────

#[derive(Debug, Clone, Copy, PartialEq, Eq, Structural)]
pub enum CombineStep {
    SelectDevices,
    NameGroup,
    Confirm,
}

#[derive(Debug)]
pub struct CombineWizard {
    pub step: CombineStepState,
    pub selected_device_indices: HashSet<usize>,
    pub group_name: String,
    pub name_cursor: usize,
    pub set_as_default: bool,
    pub move_streams: bool,
}

#[derive(Debug, Clone, Copy, PartialEq, Eq, Structural)]
pub enum CombineStepState {
    SelectDevices,
    NameGroup,
    Confirm,
}

impl Default for CombineStepState {
    fn default() -> (r: Self)
        ensures
            r == CombineStepState::SelectDevices,
    {
        CombineStepState::SelectDevices
    }
}

/// A wizard at its start: first step, nothing selected, no name, no options.
pub open spec fn fresh_wizard(w: CombineWizard) -> bool {
    &&& w.step == CombineStepState::SelectDevices
    &&& w.selected_device_indices@ == Set::<usize>::empty()
    &&& w.group_name@.len() == 0
    &&& w.name_cursor == 0
    &&& !w.set_as_default
    &&& !w.move_streams
}

impl Default for CombineWizard {
    fn default() -> (r: Self)
        ensures
            fresh_wizard(r),
    {
        CombineWizard {
            step: CombineStepState::SelectDevices,
            selected_device_indices: HashSet::new(),
            group_name: String::new(),
            name_cursor: 0,
            set_as_default: false,
            move_streams: false,
        }
    }
}

// ─── Notification ─────────────────────────────────────────────────────────────

#[derive(Debug, Clone, Copy, PartialEq, Eq, Structural)]
pub enum NotificationLevel {
    Info,
    Success,
    Warning,
    Error,
}

#[derive(Debug)]
pub struct Notification {
    pub message: String,
    pub level: NotificationLevel,
    pub created_at: std::time::Instant,
}

impl Notification {
    /// A notification of the given level, created now.
    pub fn with_level(message: String, level: NotificationLevel) -> (n: Self)
        ensures
            n.message == message,
            n.level == level,
    {
        Notification { message, level, created_at: now() }
    }

    pub fn info<M: Into<String>>(msg: M) -> (n: Self)
        ensures
            n.level == NotificationLevel::Info,
            <M as vstd::std_specs::convert::IntoSpec<String>>::obeys_into_spec()
                ==> n.message == <M as vstd::std_specs::convert::IntoSpec<String>>::into_spec(msg),
    {
        Notification::with_level(msg.into(), NotificationLevel::Info)
    }

    pub fn success<M: Into<String>>(msg: M) -> (n: Self)
        ensures
            n.level == NotificationLevel::Success,
            <M as vstd::std_specs::convert::IntoSpec<String>>::obeys_into_spec()
                ==> n.message == <M as vstd::std_specs::convert::IntoSpec<String>>::into_spec(msg),
    {
        Notification::with_level(msg.into(), NotificationLevel::Success)
    }

    pub fn warning<M: Into<String>>(msg: M) -> (n: Self)
        ensures
            n.level == NotificationLevel::Warning,
            <M as vstd::std_specs::convert::IntoSpec<String>>::obeys_into_spec()
                ==> n.message == <M as vstd::std_specs::convert::IntoSpec<String>>::into_spec(msg),
    {
        Notification::with_level(msg.into(), NotificationLevel::Warning)
    }

    pub fn error<M: Into<String>>(msg: M) -> (n: Self)
        ensures
            n.level == NotificationLevel::Error,
            <M as vstd::std_specs::convert::IntoSpec<String>>::obeys_into_spec()
                ==> n.message == <M as vstd::std_specs::convert::IntoSpec<String>>::into_spec(msg),
    {
        Notification::with_level(msg.into(), NotificationLevel::Error)
    }
}


// ─── App ──────────────────────────────────────────────────────────────────────

pub struct App {
    /// Current screen
    pub screen: Screen,
    /// Audio state snapshot
    pub audio_state: AudioState,
    /// Backend for commands
    pub backend: AudioBackend,
    /// Loading flag (during async operations)
    pub loading: bool,
    /// Current notification to show
    pub notification: Option<Notification>,
    /// Cursor position for device list
    pub device_cursor: usize,
    /// Cursor position for stream list
    pub stream_cursor: usize,
    /// Cursor position for combined groups list
    pub combined_cursor: usize,
    /// Current search/filter string
    pub filter_text: String,
    /// Whether filter input is active
    pub filter_active: bool,
    /// Combine wizard state
    pub combine_wizard: CombineWizard,
    /// Whether app should quit
    pub should_quit: bool,
    /// Backend server name (e.g. "PulseAudio (on PipeWire 1.2.0)")
    pub server_name: String,
    /// Error from last state refresh
    pub refresh_error: Option<String>,
    /// Whether to scroll device list
    pub device_scroll_offset: usize,
    /// Whether to scroll stream list
    pub stream_scroll_offset: usize,
    /// The screen that opened the confirmation dialog, shown again on cancel
    pub previous_screen: Screen,
}

/// The state a screen change leaves: entering the wizard starts it afresh,
/// entering the device list clears the filter and its scroll, entering the
/// stream list resets its scroll; nothing else changes.
pub open spec fn navigated(old: App, new: App, screen: Screen) -> bool {
    match screen {
        Screen::Combine => {
            &&& fresh_wizard(new.combine_wizard)
            &&& new == (App { screen: screen, combine_wizard: new.combine_wizard, ..old })
        },
        Screen::Devices => {
            &&& new.filter_text@.len() == 0
            &&& new == (App {
                screen: screen,
                filter_text: new.filter_text,
                filter_active: false,
                device_scroll_offset: 0,
                ..old
            })
        },
        Screen::Streams => new == (App { screen: screen, stream_scroll_offset: 0, ..old }),
        _ => new == (App { screen: screen, ..old }),
    }
}

/// The state `go_home` leaves: the home screen, with the filter cleared.
pub open spec fn went_home(old: App, new: App) -> bool {
    &&& new.filter_text@.len() == 0
    &&& new == (App { screen: Screen::Home, filter_text: new.filter_text, filter_active: false, ..old })
}

/// A device matches a (lower-cased) filter query when the query is empty or
/// occurs in its lower-cased display name, sink name or type label.
pub open spec fn device_matches(d: Device, q: Seq<char>) -> bool {
    ||| q.len() == 0
    ||| contains(lowercase(device_display_name(d)), q)
    ||| contains(lowercase(d.name@), q)
    ||| contains(lowercase(device_type_label(d.device_type)), q)
}

/// The matching devices among the first `n`, with their positions, in order.
pub open spec fn matching_devices(devs: Seq<Device>, q: Seq<char>, n: int) -> Seq<(int, Device)>
    decreases n,
{
    if n <= 0 {
        Seq::empty()
    } else {
        let p = matching_devices(devs, q, n - 1);
        if device_matches(devs[n - 1], q) {
            p.push((n - 1, devs[n - 1]))
        } else {
            p
        }
    }
}

/// Each entry of the matching list is a position below `n` together with the
/// device at that position.
pub proof fn lemma_matching_entries(devs: Seq<Device>, q: Seq<char>, n: int)
    requires
        0 <= n <= devs.len(),
    ensures
        matching_devices(devs, q, n).len() <= n,
        forall|j: int| 0 <= j < matching_devices(devs, q, n).len() ==> {
            let p = #[trigger] matching_devices(devs, q, n)[j];
            0 <= p.0 < n && p.1 == devs[p.0]
        },
    decreases n,
{
    if n > 0 {
        lemma_matching_entries(devs, q, n - 1);
        let prev = matching_devices(devs, q, n - 1);
        let cur = matching_devices(devs, q, n);
        assert forall|j: int| 0 <= j < cur.len() implies {
            let p = #[trigger] cur[j];
            0 <= p.0 < n && p.1 == devs[p.0]
        } by {
            if j < prev.len() {
                assert(cur[j] == prev[j]);
            }
        }
    }
}

/// The device list as the filter shows it.
pub open spec fn filtered_view(a: App) -> Seq<(int, Device)> {
    matching_devices(a.audio_state.devices@, lowercase(a.filter_text@), a.audio_state.devices@.len() as int)
}

/// A cursor brought into a list of `len` entries.
pub open spec fn clamp(c: usize, len: nat) -> usize {
    if len == 0 {
        0
    } else if c >= len {
        (len - 1) as usize
    } else {
        c
    }
}

pub open spec fn name_char_ok(c: char) -> bool {
    is_alphanumeric(c) || c == '_' || c == '-'
}

/// A group name is valid when, trimmed, it is not empty and holds only
/// letters, digits, `_` and `-`.
pub open spec fn group_name_valid(name: Seq<char>) -> bool {
    let t = trim_ws(name);
    t.len() > 0 && forall|i: int| 0 <= i < t.len() ==> name_char_ok(#[trigger] t[i])
}

pub open spec fn sink_char(c: char) -> char {
    if is_alphanumeric(c) || c == '_' { c } else { '_' }
}

/// The sink name for a group name: `combined_` and the trimmed, lower-cased
/// name with every character other than a letter, a digit or `_` made `_`.
pub open spec fn sink_name_for(group_name: Seq<char>) -> Seq<char> {
    "combined_"@ + lowercase(trim_ws(group_name)).map_values(|c: char| sink_char(c))
}

/// `set` with `i` taken out if it holds it, put in otherwise.
pub open spec fn toggled(set: Set<usize>, i: usize) -> Set<usize> {
    if set.contains(i) {
        set.remove(i)
    } else {
        set.insert(i)
    }
}

/// `keys` lists each element of `set` once.
pub open spec fn enumerates(keys: Seq<usize>, set: Set<usize>) -> bool {
    keys.no_duplicates() && keys.to_set() == set
}

/// The devices at the listed positions that exist, in the order listed.
pub open spec fn picked(keys: Seq<usize>, devs: Seq<Device>) -> Seq<Device>
    decreases keys.len(),
{
    if keys.len() == 0 {
        Seq::empty()
    } else {
        let p = picked(keys.drop_last(), devs);
        if keys.last() < devs.len() {
            p.push(devs[keys.last() as int])
        } else {
            p
        }
    }
}

impl App {
    pub fn new(backend: AudioBackend) -> (r: Self)
        ensures
            r.screen == Screen::Home,
            r.audio_state.devices@.len() == 0,
            r.audio_state.streams@.len() == 0,
            r.audio_state.combined_groups@.len() == 0,
            r.audio_state.default_sink_name@.len() == 0,
            r.audio_state.last_refresh is None,
            r.audio_state.last_error is None,
            !r.loading,
            r.notification is None,
            r.device_cursor == 0,
            r.stream_cursor == 0,
            r.combined_cursor == 0,
            r.filter_text@.len() == 0,
            !r.filter_active,
            fresh_wizard(r.combine_wizard),
            !r.should_quit,
            r.server_name@.len() == 0,
            r.refresh_error is None,
            r.device_scroll_offset == 0,
            r.stream_scroll_offset == 0,
            r.previous_screen == Screen::Home,
    {
        App {
            screen: Screen::Home,
            audio_state: AudioState::default(),
            backend,
            loading: false,
            notification: None,
            device_cursor: 0,
            stream_cursor: 0,
            combined_cursor: 0,
            filter_text: String::new(),
            filter_active: false,
            combine_wizard: CombineWizard::default(),
            should_quit: false,
            server_name: String::new(),
            refresh_error: None,
            device_scroll_offset: 0,
            stream_scroll_offset: 0,
            previous_screen: Screen::Home,
        }
    }

    /// Navigate to a screen, resetting relevant state
    pub fn navigate_to(&mut self, screen: Screen)
        ensures
            navigated(*old(self), *final(self), screen),
    {
        match &screen {
            Screen::Combine => {
                self.combine_wizard = CombineWizard::default();
            },
            Screen::Devices => {
                self.filter_text = String::new();
                self.filter_active = false;
                self.device_scroll_offset = 0;
            },
            Screen::Streams => {
                self.stream_scroll_offset = 0;
            },
            _ => {},
        }
        self.screen = screen;
    }

    /// Go back to the home screen
    pub fn go_home(&mut self)
        ensures
            went_home(*old(self), *final(self)),
    {
        self.screen = Screen::Home;
        self.filter_text = String::new();
        self.filter_active = false;
    }

    /// Show a notification (it expires on a later tick)
    pub fn notify(&mut self, n: Notification)
        ensures
            *final(self) == (App { notification: Some(n), ..*old(self) }),
    {
        self.notification = Some(n);
    }

    /// Clears the notification if it is older than 4 seconds; the age is read
    /// from the clock.
    pub fn tick_notifications(&mut self)
        ensures
            *final(self) == *old(self) || (old(self).notification is Some && *final(self) == (App {
                notification: None,
                ..*old(self)
            })),
    {
        let elapsed = match &self.notification {
            Some(n) => nanos_since(&n.created_at),
            None => 0,
        };
        self.expire_notification(elapsed);
    }

    /// Clears the notification when `elapsed_nanos`, its age in nanoseconds,
    /// is more than 4 seconds.
    pub fn expire_notification(&mut self, elapsed_nanos: u128)
        ensures
            *final(self) == if old(self).notification is Some && elapsed_nanos > 4_000_000_000 {
                App { notification: None, ..*old(self) }
            } else {
                *old(self)
            },
    {
        if self.notification.is_some() && elapsed_nanos > 4_000_000_000 {
            self.notification = None;
        }
    }

    /// Get filtered device list
    pub fn filtered_devices(&self) -> (r: Vec<(usize, &Device)>)
        ensures
            r@.map_values(|p: (usize, &Device)| (p.0 as int, *p.1)) == filtered_view(*self),
    {
        let query = to_lowercase(self.filter_text.as_str());
        let qv = chars_of(query.as_str());
        let ghost q = lowercase(self.filter_text@);
        let ghost devs = self.audio_state.devices@;
        let mut r: Vec<(usize, &Device)> = Vec::new();
        let mut i: usize = 0;
        while i < self.audio_state.devices.len()
            invariant
                i <= devs.len(),
                devs == self.audio_state.devices@,
                qv@ == q,
                q == lowercase(self.filter_text@),
                r@.map_values(|p: (usize, &Device)| (p.0 as int, *p.1)) == matching_devices(devs, q, i as int),
            decreases devs.len() - i,
        {
            let d = &self.audio_state.devices[i];
            let keep = if qv.len() == 0 {
                true
            } else {
                let dn = to_lowercase(d.display_name());
                let nn = to_lowercase(d.name.as_str());
                let tn = to_lowercase(d.device_type.display_label());
                let dv = chars_of(dn.as_str());
                let nv = chars_of(nn.as_str());
                let tv = chars_of(tn.as_str());
                contains_chars(dv.as_slice(), qv.as_slice())
                    || contains_chars(nv.as_slice(), qv.as_slice())
                    || contains_chars(tv.as_slice(), qv.as_slice())
            };
            let ghost before = r@.map_values(|p: (usize, &Device)| (p.0 as int, *p.1));
            if keep {
                r.push((i, d));
                assert(r@.map_values(|p: (usize, &Device)| (p.0 as int, *p.1)) =~= before.push((i as int, devs[i as int])));
            }
            i = i + 1;
        }
        r
    }

    /// Clamp device cursor to valid range
    pub fn clamp_device_cursor(&mut self)
        ensures
            *final(self) == (App {
                device_cursor: clamp(old(self).device_cursor, filtered_view(*old(self)).len()),
                ..*old(self)
            }),
    {
        let len = self.filtered_devices().len();
        if len == 0 {
            self.device_cursor = 0;
        } else if self.device_cursor >= len {
            self.device_cursor = len - 1;
        }
    }

    /// Clamp stream cursor
    pub fn clamp_stream_cursor(&mut self)
        ensures
            *final(self) == (App {
                stream_cursor: clamp(old(self).stream_cursor, old(self).audio_state.streams@.len()),
                ..*old(self)
            }),
    {
        let len = self.audio_state.streams.len();
        if len == 0 {
            self.stream_cursor = 0;
        } else if self.stream_cursor >= len {
            self.stream_cursor = len - 1;
        }
    }

    /// Clamp combined cursor
    pub fn clamp_combined_cursor(&mut self)
        ensures
            *final(self) == (App {
                combined_cursor: clamp(old(self).combined_cursor, old(self).audio_state.combined_groups@.len()),
                ..*old(self)
            }),
    {
        let len = self.audio_state.combined_groups.len();
        if len == 0 {
            self.combined_cursor = 0;
        } else if self.combined_cursor >= len {
            self.combined_cursor = len - 1;
        }
    }

    /// Get the currently selected device (from filtered list)
    pub fn selected_device(&self) -> (r: Option<&Device>)
        ensures
            match r {
                Some(d) => self.device_cursor < filtered_view(*self).len() && *d == filtered_view(*self)[self.device_cursor as int].1,
                None => self.device_cursor >= filtered_view(*self).len(),
            },
    {
        let f = self.filtered_devices();
        if self.device_cursor < f.len() {
            let (_, d) = f[self.device_cursor];
            proof {
                let m = f@.map_values(|p: (usize, &Device)| (p.0 as int, *p.1));
                assert(m[self.device_cursor as int] == (f@[self.device_cursor as int].0 as int, *f@[self.device_cursor as int].1));
            }
            Some(d)
        } else {
            None
        }
    }

    /// Get the currently selected stream
    pub fn selected_stream(&self) -> (r: Option<&Stream>)
        ensures
            match r {
                Some(s) => self.stream_cursor < self.audio_state.streams@.len() && *s == self.audio_state.streams@[self.stream_cursor as int],
                None => self.stream_cursor >= self.audio_state.streams@.len(),
            },
    {
        if self.stream_cursor < self.audio_state.streams.len() {
            Some(&self.audio_state.streams[self.stream_cursor])
        } else {
            None
        }
    }

    /// Get the currently selected combined group
    pub fn selected_combined_group(&self) -> (r: Option<&CombinedGroup>)
        ensures
            match r {
                Some(g) => self.combined_cursor < self.audio_state.combined_groups@.len() && *g == self.audio_state.combined_groups@[self.combined_cursor as int],
                None => self.combined_cursor >= self.audio_state.combined_groups@.len(),
            },
    {
        if self.combined_cursor < self.audio_state.combined_groups.len() {
            Some(&self.audio_state.combined_groups[self.combined_cursor])
        } else {
            None
        }
    }

    // ── Combine wizard helpers ────────────────────────────────────────────

    /// Selects the device at `idx` if it is not selected, deselects it otherwise.
    pub fn combine_toggle_device(&mut self, idx: usize)
        ensures
            final(self).combine_wizard.selected_device_indices@ == toggled(old(self).combine_wizard.selected_device_indices@, idx),
            *final(self) == (App {
                combine_wizard: CombineWizard {
                    selected_device_indices: final(self).combine_wizard.selected_device_indices,
                    ..old(self).combine_wizard
                },
                ..*old(self)
            }),
    {
        if self.combine_wizard.selected_device_indices.contains(&idx) {
            self.combine_wizard.selected_device_indices.remove(&idx);
        } else {
            self.combine_wizard.selected_device_indices.insert(idx);
        }
    }

    /// The real devices whose positions are selected, in the order in which
    /// the selection set lists them.
    pub fn combine_selected_devices(&self) -> (r: Vec<&Device>)
        ensures
            exists|keys: Seq<usize>| enumerates(keys, self.combine_wizard.selected_device_indices@)
                && derefs(r@) == picked(keys, filter_seq(self.audio_state.devices@, |d: Device| is_real_type(d.device_type))),
    {
        let real_devices = self.audio_state.real_devices();
        let ghost reals = derefs(real_devices@);
        let ghost set = self.combine_wizard.selected_device_indices@;
        let ghost mut ks: Seq<usize> = Seq::empty();
        let mut r: Vec<&Device> = Vec::new();
        for i in it: self.combine_wizard.selected_device_indices.iter()
            invariant
                reals == derefs(real_devices@),
                reals == filter_seq(self.audio_state.devices@, |d: Device| is_real_type(d.device_type)),
                set == self.combine_wizard.selected_device_indices@,
                enumerates(it.seq().unref(), set),
                ks == it.seq().unref().take(it.index()),
                it.index() == it.seq().len() ==> ks == it.seq().unref(),
                derefs(r@) == picked(ks, reals),
        {
            let ghost before = ks;
            if *i < real_devices.len() {
                r.push(real_devices[*i]);
            }
            proof {
                ks = ks.push(*i);
            }
            assert(ks.drop_last() =~= before);
            assert(ks =~= it.seq().unref().take(it.index() + 1));
            assert(it.index() + 1 == it.seq().len() ==> ks =~= it.seq().unref());
        }
        r
    }

    /// At least two devices are selected.
    pub fn combine_can_proceed(&self) -> (r: bool)
        ensures
            r == (self.combine_wizard.selected_device_indices@.len() >= 2),
    {
        self.combine_wizard.selected_device_indices.len() >= 2
    }

    /// The group name, trimmed, is not empty and holds only letters, digits,
    /// `_` and `-`.
    pub fn combine_name_is_valid(&self) -> (r: bool)
        ensures
            r == group_name_valid(self.combine_wizard.group_name@),
    {
        let v = chars_of(self.combine_wizard.group_name.as_str());
        let t = trim(v.as_slice());
        if t.len() == 0 {
            return false;
        }
        let mut i: usize = 0;
        while i < t.len()
            invariant
                i <= t@.len(),
                t@ == trim_ws(self.combine_wizard.group_name@),
                forall|k: int| 0 <= k < i ==> name_char_ok(#[trigger] t@[k]),
            decreases t.len() - i,
        {
            let c = t[i];
            if !(char_is_alphanumeric(c) || c == '_' || c == '-') {
                assert(!name_char_ok(t@[i as int]));
                return false;
            }
            i = i + 1;
        }
        true
    }

    /// Derive a safe sink name from the wizard's group name
    pub fn combine_sink_name(&self) -> (r: String)
        ensures
            r@ == sink_name_for(self.combine_wizard.group_name@),
    {
        let v = chars_of(self.combine_wizard.group_name.as_str());
        let t = trim(v.as_slice());
        let ts = string_from_chars(t.as_slice());
        let lower = to_lowercase(ts.as_str());
        let lv = chars_of(lower.as_str());
        let mut out = chars_of("combined_");
        let ghost prefix = out@;
        let mut i: usize = 0;
        while i < lv.len()
            invariant
                i <= lv@.len(),
                out@ == prefix + lv@.take(i as int).map_values(|c: char| sink_char(c)),
            decreases lv.len() - i,
        {
            let c = lv[i];
            let m = if char_is_alphanumeric(c) || c == '_' { c } else { '_' };
            out.push(m);
            assert(lv@.take(i + 1).map_values(|c: char| sink_char(c)) =~= lv@.take(i as int).map_values(|c: char| sink_char(c)).push(sink_char(c)));
            i = i + 1;
        }
        assert(lv@.take(lv@.len() as int) =~= lv@);
        string_from_chars(out.as_slice())
    }
}


// ─── Finishing backend actions ───────────────────────────────────────────────

/// What creating a combined output hands to the backend.
pub struct CombinePlan {
    /// Name of the combined sink to load
    pub sink_name: String,
    /// Sink names of the member devices
    pub members: Vec<String>,
    /// Make the new sink the default afterwards
    pub set_default: bool,
    /// Move all streams to it as well
    pub move_streams: bool,
}

/// After `set-default-sink`: the sink to move every stream to, which there is
/// when the default was set and the streams are to follow it.
pub fn after_set_default(sink_name: &str, move_streams: bool, set_outcome: &Result<(), String>) -> (next: Option<String>)
    ensures
        next.is_some() == (set_outcome is Ok && move_streams),
        next matches Some(s) ==> s@ == sink_name@,
{
    if move_streams && set_outcome.is_ok() {
        Some(sink_name.to_owned())
    } else {
        None
    }
}

/// After loading a combined sink: whether to make it the default, and whether
/// then to move every stream to it.
pub fn after_create(plan: &CombinePlan, created: bool) -> (r: (bool, bool))
    ensures
        r.0 == (created && plan.set_default),
        r.1 == (created && plan.set_default && plan.move_streams),
{
    let set_default = created && plan.set_default;
    (set_default, set_default && plan.move_streams)
}

/// `new` is `old` with the snapshot `state`, no refresh error, every cursor
/// brought into its list, and loading finished.
pub open spec fn refreshed(old: App, new: App, state: AudioState) -> bool {
    new == (App {
        audio_state: state,
        refresh_error: None,
        device_cursor: clamp(old.device_cursor, filtered_view(App { audio_state: state, ..old }).len()),
        stream_cursor: clamp(old.stream_cursor, state.streams@.len()),
        combined_cursor: clamp(old.combined_cursor, state.combined_groups@.len()),
        loading: false,
        ..old
    })
}

/// `new` is `old` with a notification of `level` saying `message`, and loading
/// finished.
pub open spec fn notified(old: App, new: App, level: NotificationLevel, message: Seq<char>) -> bool {
    &&& new.notification matches Some(n) && n.level == level && n.message@ == message
    &&& new == (App { notification: new.notification, loading: false, ..old })
}

/// The names of a sequence of devices.
pub open spec fn names_of(devs: Seq<Device>) -> Seq<Seq<char>> {
    devs.map_values(|d: Device| d.name@)
}

/// `b` is a copy of the group `a`.
pub open spec fn same_group(a: CombinedGroup, b: CombinedGroup) -> bool {
    &&& a.module_index == b.module_index
    &&& a.sink_name@ == b.sink_name@
    &&& a.label@ == b.label@
    &&& a.members@.map_values(|m: String| m@) == b.members@.map_values(|m: String| m@)
    &&& a.is_default == b.is_default
    &&& a.is_active == b.is_active
}

fn copy_group(g: &CombinedGroup) -> (r: CombinedGroup)
    ensures
        same_group(r, *g),
{
    let mut members: Vec<String> = Vec::new();
    let mut i: usize = 0;
    while i < g.members.len()
        invariant
            i <= g.members@.len(),
            members@.map_values(|m: String| m@) == g.members@.take(i as int).map_values(|m: String| m@),
        decreases g.members.len() - i,
    {
        let ghost before = members@.map_values(|m: String| m@);
        members.push(copy_string(&g.members[i]));
        assert(members@.map_values(|m: String| m@) =~= before.push(g.members@[i as int]@));
        assert(g.members@.take(i + 1).map_values(|m: String| m@) =~= g.members@.take(i as int).map_values(|m: String| m@).push(g.members@[i as int]@));
        i = i + 1;
    }
    assert(g.members@.take(g.members@.len() as int) =~= g.members@);
    CombinedGroup {
        module_index: g.module_index,
        sink_name: copy_string(&g.sink_name),
        label: copy_string(&g.label),
        members,
        is_default: g.is_default,
        is_active: g.is_active,
    }
}

/// `b` is a copy of the device `a`.
pub open spec fn same_device(a: Device, b: Device) -> bool {
    &&& a.index == b.index
    &&& a.name@ == b.name@
    &&& a.description@ == b.description@
    &&& a.device_type == b.device_type
    &&& status_view(a.status) == status_view(b.status)
    &&& a.is_default == b.is_default
    &&& a.combined_group_id == b.combined_group_id
    &&& opt_view(a.sample_rate) == opt_view(b.sample_rate)
    &&& opt_view(a.sample_format) == opt_view(b.sample_format)
    &&& a.channels == b.channels
    &&& a.volume == b.volume
    &&& a.muted == b.muted
    &&& a.module_index == b.module_index
}

fn copy_device(d: &Device) -> (r: Device)
    ensures
        same_device(r, *d),
{
    Device {
        index: d.index,
        name: copy_string(&d.name),
        description: copy_string(&d.description),
        device_type: d.device_type,
        status: copy_status(&d.status),
        is_default: d.is_default,
        combined_group_id: d.combined_group_id,
        sample_rate: copy_opt_string(&d.sample_rate),
        sample_format: copy_opt_string(&d.sample_format),
        channels: d.channels,
        volume: d.volume,
        muted: d.muted,
        module_index: d.module_index,
    }
}

impl App {
    fn say(&mut self, message: String, level: NotificationLevel)
        ensures
            notified(*old(self), *final(self), level, message@),
    {
        self.notify(Notification::with_level(message, level));
        self.loading = false;
    }

    /// Marks a backend action as running.
    pub fn start_loading(&mut self)
        ensures
            *final(self) == (App { loading: true, ..*old(self) }),
    {
        self.loading = true;
    }

    /// Takes in the outcome of a refresh: a new snapshot, with every cursor
    /// brought into its list, or the error, recorded and shown.
    pub fn apply_refresh(&mut self, result: Result<AudioState, String>)
        ensures
            match result {
                Ok(state) => refreshed(*old(self), *final(self), state),
                Err(e) => {
                    &&& opt_view(final(self).refresh_error) == Some(e@)
                    &&& opt_view(final(self).audio_state.last_error) == Some(e@)
                    &&& final(self).notification matches Some(n) && n.level == NotificationLevel::Error
                        && n.message@ == "Refresh failed: "@ + e@
                    &&& *final(self) == (App {
                        refresh_error: final(self).refresh_error,
                        audio_state: AudioState { last_error: final(self).audio_state.last_error, ..old(self).audio_state },
                        notification: final(self).notification,
                        loading: false,
                        ..*old(self)
                    })
                },
            },
    {
        match result {
            Ok(state) => {
                self.audio_state = state;
                self.refresh_error = None;
                self.clamp_device_cursor();
                self.clamp_stream_cursor();
                self.clamp_combined_cursor();
                self.loading = false;
            },
            Err(e) => {
                let msg = cat("Refresh failed: ", e.as_str());
                self.refresh_error = Some(copy_string(&e));
                self.audio_state.last_error = Some(e);
                self.say(msg, NotificationLevel::Error);
            },
        }
    }

    /// Reports the outcome of setting the default sink: `set_outcome` is what
    /// `set-default-sink` gave, `failed_moves` the number of streams that then
    /// could not be moved (0 when none were to be moved).
    pub fn finish_set_default(&mut self, sink_name: &str, move_streams: bool, set_outcome: Result<(), String>, failed_moves: usize)
        ensures
            match set_outcome {
                Ok(_) => if !move_streams {
                    notified(*old(self), *final(self), NotificationLevel::Success, "'"@ + sink_name@ + "' is now the default output."@)
                } else if failed_moves == 0 {
                    notified(*old(self), *final(self), NotificationLevel::Success, "'"@ + sink_name@ + "' is now your default output and all streams moved."@)
                } else {
                    notified(*old(self), *final(self), NotificationLevel::Warning, "Default set, but "@ + decimal(failed_moves as nat) + " stream(s) could not be moved."@)
                },
                Err(e) => notified(*old(self), *final(self), NotificationLevel::Error, "Could not set default: "@ + e@),
            },
    {
        match set_outcome {
            Ok(_) => {
                if !move_streams {
                    let m = cat3("'", sink_name, "' is now the default output.");
                    self.say(m, NotificationLevel::Success);
                } else if failed_moves == 0 {
                    let m = cat3("'", sink_name, "' is now your default output and all streams moved.");
                    self.say(m, NotificationLevel::Success);
                } else {
                    let n = decimal_string(failed_moves as u64);
                    let m = cat3("Default set, but ", n.as_str(), " stream(s) could not be moved.");
                    self.say(m, NotificationLevel::Warning);
                }
            },
            Err(e) => {
                let m = cat("Could not set default: ", e.as_str());
                self.say(m, NotificationLevel::Error);
            },
        }
    }

    /// Prepares the creation of a combined output from the wizard. Refuses,
    /// with a warning, a sink name that a device already has; otherwise starts
    /// loading and returns what to create.
    pub fn prepare_create_combined(&mut self) -> (r: Option<CombinePlan>)
        ensures
            ({
                let name = sink_name_for(old(self).combine_wizard.group_name@);
                let taken = exists|i: int| 0 <= i < old(self).audio_state.devices@.len()
                    && (#[trigger] old(self).audio_state.devices@[i]).name@ == name;
                match r {
                    None => taken && {
                        &&& final(self).notification matches Some(n) && n.level == NotificationLevel::Warning
                            && n.message@ == "A combined output with that name already exists. Please choose a different name."@
                        &&& *final(self) == (App { notification: final(self).notification, ..*old(self) })
                    },
                    Some(p) => {
                        &&& !taken
                        &&& p.sink_name@ == name
                        &&& exists|keys: Seq<usize>| enumerates(keys, old(self).combine_wizard.selected_device_indices@)
                            && p.members@.map_values(|m: String| m@) == names_of(picked(keys, filter_seq(old(self).audio_state.devices@, |d: Device| is_real_type(d.device_type))))
                        &&& p.set_default == old(self).combine_wizard.set_as_default
                        &&& p.move_streams == old(self).combine_wizard.move_streams
                        &&& *final(self) == (App { loading: true, ..*old(self) })
                    },
                }
            }),
    {
        let sink_name = self.combine_sink_name();
        let chosen = self.combine_selected_devices();
        let mut members: Vec<String> = Vec::new();
        let mut i: usize = 0;
        while i < chosen.len()
            invariant
                i <= chosen@.len(),
                members@.map_values(|m: String| m@) == names_of(derefs(chosen@).take(i as int)),
            decreases chosen.len() - i,
        {
            let ghost before = members@.map_values(|m: String| m@);
            members.push(copy_string(&chosen[i].name));
            assert(members@.map_values(|m: String| m@) =~= before.push(chosen@[i as int].name@));
            assert(names_of(derefs(chosen@).take(i + 1)) =~= names_of(derefs(chosen@).take(i as int)).push(chosen@[i as int].name@));
            i = i + 1;
        }
        assert(derefs(chosen@).take(chosen@.len() as int) =~= derefs(chosen@));
        let set_default = self.combine_wizard.set_as_default;
        let move_streams = self.combine_wizard.move_streams;
        match position_by_name(self.audio_state.devices.as_slice(), sink_name.as_str()) {
            Some(k) => {
                self.notify(Notification::with_level(
                    "A combined output with that name already exists. Please choose a different name.".to_owned(),
                    NotificationLevel::Warning,
                ));
                None
            },
            None => {
                self.loading = true;
                Some(CombinePlan { sink_name, members, set_default, move_streams })
            },
        }
    }

    /// Reports the outcome of creating a combined output; on success shows the
    /// device list.
    pub fn finish_create_combined(&mut self, plan: &CombinePlan, outcome: Result<(), String>)
        ensures
            match outcome {
                Ok(_) => {
                    &&& final(self).notification matches Some(n) && n.level == NotificationLevel::Success
                        && n.message@ == "Combined output '"@ + trim_ws(old(self).combine_wizard.group_name@) + "' created with "@
                            + decimal(plan.members@.len()) + " devices."@
                    &&& *final(self) == (App { notification: final(self).notification, loading: false, screen: Screen::Devices, ..*old(self) })
                },
                Err(e) => notified(*old(self), *final(self), NotificationLevel::Error, "Failed to create combined output: "@ + e@),
            },
    {
        match outcome {
            Ok(_) => {
                let v = chars_of(self.combine_wizard.group_name.as_str());
                let t = trim(v.as_slice());
                let ts = string_from_chars(t.as_slice());
                let n = decimal_string(plan.members.len() as u64);
                let a = cat3("Combined output '", ts.as_str(), "' created with ");
                let m = cat3(a.as_str(), n.as_str(), " devices.");
                self.say(m, NotificationLevel::Success);
                self.screen = Screen::Devices;
            },
            Err(e) => {
                let m = cat("Failed to create combined output: ", e.as_str());
                self.say(m, NotificationLevel::Error);
            },
        }
    }

    /// Prepares removing the group at `group_idx`: a copy of it, with loading
    /// started, or nothing at all when there is no such group.
    pub fn prepare_remove_combined(&mut self, group_idx: usize) -> (r: Option<CombinedGroup>)
        ensures
            match r {
                Some(g) => group_idx < old(self).audio_state.combined_groups@.len()
                    && same_group(g, old(self).audio_state.combined_groups@[group_idx as int])
                    && *final(self) == (App { loading: true, ..*old(self) }),
                None => group_idx >= old(self).audio_state.combined_groups@.len() && *final(self) == *old(self),
            },
    {
        if group_idx < self.audio_state.combined_groups.len() {
            let g = copy_group(&self.audio_state.combined_groups[group_idx]);
            self.loading = true;
            Some(g)
        } else {
            None
        }
    }

    /// Reports the outcome of removing a combined output.
    pub fn finish_remove_combined(&mut self, group: &CombinedGroup, outcome: Result<(), String>)
        ensures
            match outcome {
                Ok(_) => notified(*old(self), *final(self), NotificationLevel::Success, "Combined output '"@ + group_display_name(*group) + "' removed."@),
                Err(e) => notified(*old(self), *final(self), NotificationLevel::Error, "Could not remove: "@ + e@),
            },
    {
        match outcome {
            Ok(_) => {
                let m = cat3("Combined output '", group.display_name(), "' removed.");
                self.say(m, NotificationLevel::Success);
            },
            Err(e) => {
                let m = cat("Could not remove: ", e.as_str());
                self.say(m, NotificationLevel::Error);
            },
        }
    }

    /// Reports the outcome of moving one stream.
    pub fn finish_move_stream(&mut self, sink_name: &str, outcome: Result<(), String>)
        ensures
            match outcome {
                Ok(_) => notified(*old(self), *final(self), NotificationLevel::Success, "Stream moved to '"@ + sink_name@ + "'."@),
                Err(e) => notified(*old(self), *final(self), NotificationLevel::Error, "Could not move stream: "@ + e@),
            },
    {
        match outcome {
            Ok(_) => {
                let m = cat3("Stream moved to '", sink_name, "'.");
                self.say(m, NotificationLevel::Success);
            },
            Err(e) => {
                let m = cat("Could not move stream: ", e.as_str());
                self.say(m, NotificationLevel::Error);
            },
        }
    }

    /// Reports the outcome of moving every stream: `errors` holds one message
    /// per stream that could not be moved.
    pub fn finish_move_all_streams(&mut self, sink_name: &str, errors: &Vec<String>)
        ensures
            if errors@.len() == 0 {
                notified(*old(self), *final(self), NotificationLevel::Success, "All streams moved to '"@ + sink_name@ + "'."@)
            } else {
                notified(*old(self), *final(self), NotificationLevel::Warning,
                    "Moved streams, but "@ + decimal(errors@.len()) + " failed: "@ + errors@[0]@)
            },
    {
        if errors.len() == 0 {
            let m = cat3("All streams moved to '", sink_name, "'.");
            self.say(m, NotificationLevel::Success);
        } else {
            let n = decimal_string(errors.len() as u64);
            let a = cat3("Moved streams, but ", n.as_str(), " failed: ");
            let m = cat(a.as_str(), errors[0].as_str());
            self.say(m, NotificationLevel::Warning);
        }
    }

    /// Prepares resuming the device at `device_idx`: a copy of it, with loading
    /// started, or nothing at all when there is no such device.
    pub fn prepare_resume_device(&mut self, device_idx: usize) -> (r: Option<Device>)
        ensures
            match r {
                Some(d) => device_idx < old(self).audio_state.devices@.len()
                    && same_device(d, old(self).audio_state.devices@[device_idx as int])
                    && *final(self) == (App { loading: true, ..*old(self) }),
                None => device_idx >= old(self).audio_state.devices@.len() && *final(self) == *old(self),
            },
    {
        if device_idx < self.audio_state.devices.len() {
            let d = copy_device(&self.audio_state.devices[device_idx]);
            self.loading = true;
            Some(d)
        } else {
            None
        }
    }

    /// Reports the outcome of resuming a device.
    pub fn finish_resume_device(&mut self, device: &Device, outcome: Result<(), String>)
        ensures
            match outcome {
                Ok(_) => notified(*old(self), *final(self), NotificationLevel::Success, "'"@ + device_display_name(*device) + "' resumed."@),
                Err(e) => notified(*old(self), *final(self), NotificationLevel::Error, "Could not resume device: "@ + e@),
            },
    {
        match outcome {
            Ok(_) => {
                let m = cat3("'", device.display_name(), "' resumed.");
                self.say(m, NotificationLevel::Success);
            },
            Err(e) => {
                let m = cat("Could not resume device: ", e.as_str());
                self.say(m, NotificationLevel::Error);
            },
        }
    }
}

} // verus!
