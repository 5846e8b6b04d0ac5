//! Keyboard handling: the decisions that each key press makes on each screen.
//!
//! `handle_key` changes the application state and names the backend action,
//! if any, that the press asks for; running that action is left to the
//! caller, which then reports its outcome through the `App::finish_*` methods.

use vstd::prelude::*;
use vstd::utf8::encode_utf8;
use crate::app::{
    filtered_view, group_name_valid, lemma_matching_entries, navigated, toggled, went_home, App, CombineStepState,
    CombineWizard, ConfirmAction, Notification, NotificationLevel, Screen,
};
use crate::models::{
    copy_string, filter_seq, first_where, is_real_type, CombinedGroup, Device,
    DeviceStatus, DeviceType,
};
use crate::text::{chars_of, string_from_chars, char_is_alphanumeric, is_alphanumeric, lowercase};

verus! {

/// A key, as the handlers tell keys apart.
#[derive(Debug, Clone, Copy, PartialEq, Eq, Structural)]
pub enum KeyCode {
    Char(char),
    Enter,
    Esc,
    Backspace,
    Tab,
    Up,
    Down,
    Left,
    Right,
    F(u8),
    Other,
}

/// The modifier keys held during a key press.
#[derive(Debug, Clone, Copy, PartialEq, Eq, Structural)]
pub struct KeyModifiers {
    pub shift: bool,
    pub control: bool,
    pub alt: bool,
    pub super_key: bool,
    pub hyper: bool,
    pub meta: bool,
}

/// A key press.
#[derive(Debug, Clone, Copy, PartialEq, Eq, Structural)]
pub struct KeyEvent {
    pub code: KeyCode,
    pub modifiers: KeyModifiers,
}

/// No modifier is held.
pub open spec fn no_modifiers(m: KeyModifiers) -> bool {
    !m.shift && !m.control && !m.alt && !m.super_key && !m.hyper && !m.meta
}

/// Only Control is held.
pub open spec fn control_only(m: KeyModifiers) -> bool {
    !m.shift && m.control && !m.alt && !m.super_key && !m.hyper && !m.meta
}

/// The backend action that a key press asks for.
#[derive(Debug, Clone, PartialEq, Eq)]
pub enum Effect {
    Refresh,
    ResumeDevice(usize),
    RemoveCombined(usize),
    MoveAllStreams(String),
    SetDefault(String, bool),
    CreateCombined,
    MoveStream(u32, String),
}

/// What handling a key press leaves to do.
#[derive(Debug, Clone, PartialEq, Eq)]
pub struct KeyOutcome {
    /// The backend action to run, if any
    pub effect: Option<Effect>,
    /// Whether the press asks for a refresh and a redraw
    pub needs_refresh: bool,
}

/// Nothing to do.
pub open spec fn idle(o: KeyOutcome) -> bool {
    o.effect is None && !o.needs_refresh
}

/// Refresh the audio state.
pub open spec fn refreshes(o: KeyOutcome) -> bool {
    o.effect matches Some(Effect::Refresh) && o.needs_refresh
}

/// Run `effect` and refresh.
pub open spec fn acts(o: KeyOutcome) -> bool {
    o.needs_refresh
}

pub open spec fn is_char(code: KeyCode, a: char, b: char) -> bool {
    code == KeyCode::Char(a) || code == KeyCode::Char(b)
}

/// One step up, stopping at 0.
pub open spec fn step_up(c: usize) -> usize {
    if c > 0 { (c - 1) as usize } else { c }
}

/// One step down, stopping at the last of `len` entries.
pub open spec fn step_down(c: usize, len: nat) -> usize {
    let max = if len > 0 { len - 1 } else { 0 };
    if c < max { (c + 1) as usize } else { c }
}

/// The byte offset at which the first `k` characters of `s` end.
pub open spec fn byte_offset(s: Seq<char>, k: int) -> int {
    encode_utf8(s.take(k)).len() as int
}

/// `idx` is where a character position of `s` lies in its UTF-8 bytes.
pub open spec fn at_char_boundary(s: Seq<char>, idx: int) -> bool {
    exists|k: int| 0 <= k <= s.len() && #[trigger] byte_offset(s, k) == idx
}

/// `idx` is where a character of `s` begins in its UTF-8 bytes.
pub open spec fn at_char_start(s: Seq<char>, idx: int) -> bool {
    exists|k: int| 0 <= k < s.len() && #[trigger] byte_offset(s, k) == idx
}

/// The number of bytes of `c` in UTF-8.
pub open spec fn char_width(c: char) -> nat {
    encode_utf8(seq![c]).len()
}

pub proof fn lemma_encode_concat(a: Seq<char>, b: Seq<char>)
    ensures
        encode_utf8(a + b) == encode_utf8(a) + encode_utf8(b),
    decreases a.len(),
{
    if a.len() == 0 {
        assert(a + b =~= b);
        assert(encode_utf8(a) =~= Seq::<u8>::empty());
        assert(encode_utf8(a) + encode_utf8(b) =~= encode_utf8(b));
    } else {
        lemma_encode_concat(a.drop_first(), b);
        assert((a + b)[0] == a[0]);
        assert((a + b).drop_first() =~= a.drop_first() + b);
        assert(encode_utf8(a + b) =~= encode_utf8(a) + encode_utf8(b));
    }
}

/// Bytes per character by code point: 1 up to U+007F, 2 up to U+07FF, 3 up
/// to U+FFFF, 4 beyond.
pub proof fn lemma_char_width(c: char)
    ensures
        char_width(c) == (if (c as u32) <= 0x7f { 1nat } else if (c as u32) <= 0x7ff { 2nat }
            else if (c as u32) <= 0xffff { 3nat } else { 4nat }),
{
    vstd::utf8::char_is_scalar(c);
    let s = seq![c];
    assert(s.drop_first() =~= Seq::<char>::empty());
    assert(encode_utf8(s) == vstd::utf8::encode_scalar(c as u32) + encode_utf8(s.drop_first()));
    assert(encode_utf8(s.drop_first()) =~= Seq::<u8>::empty());
    assert(encode_utf8(s) =~= vstd::utf8::encode_scalar(c as u32));
}

/// The byte offset of the next character is that of this one plus its width.
pub proof fn lemma_offset_step(s: Seq<char>, k: int)
    requires
        0 <= k < s.len(),
    ensures
        byte_offset(s, k + 1) == byte_offset(s, k) + char_width(s[k]),
{
    assert(s.take(k + 1) =~= s.take(k) + seq![s[k]]);
    lemma_encode_concat(s.take(k), seq![s[k]]);
}

/// Byte offsets grow by at least one byte per character.
pub proof fn lemma_offset_mono(s: Seq<char>, j: int, k: int)
    requires
        0 <= j <= k <= s.len(),
    ensures
        byte_offset(s, j) + (k - j) <= byte_offset(s, k),
    decreases k - j,
{
    if j < k {
        lemma_offset_mono(s, j, k - 1);
        lemma_offset_step(s, k - 1);
        lemma_char_width(s[k - 1]);
    }
}

/// Two character positions with the same byte offset are the same position.
pub proof fn lemma_offset_unique(s: Seq<char>, j: int, k: int)
    requires
        0 <= j <= s.len(),
        0 <= k <= s.len(),
        byte_offset(s, j) == byte_offset(s, k),
    ensures
        j == k,
{
    if j < k {
        lemma_offset_mono(s, j, k);
    } else if k < j {
        lemma_offset_mono(s, k, j);
    }
}

pub proof fn lemma_offset_ends(s: Seq<char>)
    ensures
        byte_offset(s, 0) == 0,
        byte_offset(s, s.len() as int) == encode_utf8(s).len(),
{
    assert(s.take(0) =~= Seq::<char>::empty());
    assert(s.take(s.len() as int) =~= s);
}

/// The UTF-8 width of a character.
pub fn char_width_of(c: char) -> (w: usize)
    ensures
        w == char_width(c),
        1 <= w <= 4,
{
    proof { lemma_char_width(c); }
    let u = c as u32;
    if u <= 0x7f {
        1
    } else if u <= 0x7ff {
        2
    } else if u <= 0xffff {
        3
    } else {
        4
    }
}

/// The character position whose byte offset in `chars` is `cur`, if `cur`
/// lies at a character boundary.
fn char_position(chars: &[char], cur: usize) -> (r: Option<usize>)
    ensures
        match r {
            Some(k) => k <= chars@.len() && byte_offset(chars@, k as int) == cur,
            None => !at_char_boundary(chars@, cur as int),
        },
{
    let mut k: usize = 0;
    let mut offset: usize = 0;
    proof { lemma_offset_ends(chars@); }
    while k < chars.len() && offset < cur
        invariant
            k <= chars@.len(),
            offset <= cur,
            offset == byte_offset(chars@, k as int),
        decreases chars.len() - k,
    {
        let w = char_width_of(chars[k]);
        proof { lemma_offset_step(chars@, k as int); }
        if w > cur - offset {
            proof {
                assert forall|j: int| 0 <= j <= chars@.len() implies #[trigger] byte_offset(chars@, j) != cur by {
                    if j <= k {
                        lemma_offset_mono(chars@, j, k as int);
                    } else {
                        lemma_offset_mono(chars@, k + 1, j);
                    }
                }
            }
            return None;
        }
        offset = offset + w;
        k = k + 1;
    }
    if offset == cur {
        Some(k)
    } else {
        proof {
            assert forall|j: int| 0 <= j <= chars@.len() implies #[trigger] byte_offset(chars@, j) != cur by {
                if j <= k {
                    lemma_offset_mono(chars@, j, k as int);
                } else {
                    lemma_offset_mono(chars@, k as int, j);
                }
            }
        }
        None
    }
}

/// `String::insert`: puts `c` at byte offset `idx`, which must lie at a
/// character boundary.
#[verifier::external_body]
pub(crate) fn string_insert(s: &mut String, idx: usize, c: char)
    requires
        at_char_boundary(old(s)@, idx as int),
    ensures
        forall|k: int| 0 <= k <= old(s)@.len() && #[trigger] byte_offset(old(s)@, k) == idx
            ==> final(s)@ == old(s)@.insert(k, c),
{
    s.insert(idx, c)
}

/// `String::remove`: takes out the character that begins at byte offset `idx`.
#[verifier::external_body]
fn string_remove(s: &mut String, idx: usize) -> (c: char)
    requires
        at_char_start(old(s)@, idx as int),
    ensures
        forall|k: int| 0 <= k < old(s)@.len() && #[trigger] byte_offset(old(s)@, k) == idx
            ==> final(s)@ == old(s)@.remove(k) && c == old(s)@[k],
{
    s.remove(idx)
}

// ─── Per-screen steps ────────────────────────────────────────────────────────

/// Home: `d`, `s`, `c` and `?`/F1 open a screen, `r`/F5 refresh.
pub open spec fn home_step(old: App, new: App, code: KeyCode, o: KeyOutcome) -> bool {
    if is_char(code, 'd', 'D') {
        navigated(old, new, Screen::Devices) && idle(o)
    } else if is_char(code, 's', 'S') {
        navigated(old, new, Screen::Streams) && idle(o)
    } else if is_char(code, 'c', 'C') {
        navigated(old, new, Screen::Combine) && idle(o)
    } else if code == KeyCode::Char('?') || code == KeyCode::F(1) {
        navigated(old, new, Screen::Help) && idle(o)
    } else if code == KeyCode::Char('r') || code == KeyCode::F(5) {
        new == old && refreshes(o)
    } else {
        new == old && idle(o)
    }
}

fn nothing() -> (o: KeyOutcome)
    ensures
        idle(o),
{
    KeyOutcome { effect: None, needs_refresh: false }
}

fn act(effect: Effect) -> (o: KeyOutcome)
    ensures
        o.effect == Some(effect),
        acts(o),
{
    KeyOutcome { effect: Some(effect), needs_refresh: true }
}

fn handle_home(app: &mut App, code: KeyCode) -> (o: KeyOutcome)
    ensures
        home_step(*old(app), *final(app), code, o),
{
    if code == KeyCode::Char('d') || code == KeyCode::Char('D') {
        app.navigate_to(Screen::Devices);
        nothing()
    } else if code == KeyCode::Char('s') || code == KeyCode::Char('S') {
        app.navigate_to(Screen::Streams);
        nothing()
    } else if code == KeyCode::Char('c') || code == KeyCode::Char('C') {
        app.navigate_to(Screen::Combine);
        nothing()
    } else if code == KeyCode::Char('?') || code == KeyCode::F(1) {
        app.navigate_to(Screen::Help);
        nothing()
    } else if code == KeyCode::Char('r') || code == KeyCode::F(5) {
        act(Effect::Refresh)
    } else {
        nothing()
    }
}

/// The device list while the filter is being typed: Esc or Enter leave the
/// filter input, Backspace and characters edit the filter and put the cursor
/// and the scroll back at the top.
pub open spec fn filter_step(old: App, new: App, code: KeyCode, o: KeyOutcome) -> bool {
    &&& idle(o)
    &&& match code {
        KeyCode::Esc | KeyCode::Enter => new == (App { filter_active: false, ..old }),
        KeyCode::Backspace => {
            &&& new.filter_text@ == (if old.filter_text@.len() > 0 { old.filter_text@.drop_last() } else { old.filter_text@ })
            &&& new == (App { filter_text: new.filter_text, device_cursor: 0, device_scroll_offset: 0, ..old })
        },
        KeyCode::Char(c) => {
            &&& new.filter_text@ == old.filter_text@.push(c)
            &&& new == (App { filter_text: new.filter_text, device_cursor: 0, device_scroll_offset: 0, ..old })
        },
        _ => new == old,
    }
}

/// The device that the cursor of the filtered list is on.
pub open spec fn selected_in(a: App) -> Option<(int, Device)> {
    if a.device_cursor < filtered_view(a).len() {
        Some(filtered_view(a)[a.device_cursor as int])
    } else {
        None
    }
}

/// `new` shows a confirmation of an action that satisfies `pred`, opened from
/// the screen `from`, and is otherwise `old`.
pub open spec fn confirming(old: App, new: App, pred: spec_fn(ConfirmAction) -> bool, from: Screen) -> bool {
    &&& new.screen matches Screen::Confirm(a) && pred(a)
    &&& new == (App { screen: new.screen, previous_screen: from, ..old })
}

/// The device list: navigation, filter, and the confirmations and actions on
/// the selected device.
pub open spec fn devices_step(old: App, new: App, code: KeyCode, o: KeyOutcome) -> bool {
    let sel = selected_in(old);
    if old.filter_active {
        filter_step(old, new, code, o)
    } else if code == KeyCode::Esc {
        went_home(old, new) && idle(o)
    } else if code == KeyCode::Up || code == KeyCode::Char('k') {
        new == (App { device_cursor: step_up(old.device_cursor), ..old }) && idle(o)
    } else if code == KeyCode::Down || code == KeyCode::Char('j') {
        new == (App { device_cursor: step_down(old.device_cursor, filtered_view(old).len()), ..old }) && idle(o)
    } else if code == KeyCode::Char('f') || code == KeyCode::Char('/') {
        new == (App { filter_active: true, ..old }) && idle(o)
    } else if code == KeyCode::Char('d') || code == KeyCode::Char('D') {
        idle(o) && match sel {
            Some(p) => confirming(old, new, |a: ConfirmAction| a matches ConfirmAction::SetDefault { sink_name, move_streams }
                && sink_name@ == p.1.name@ && move_streams == (code == KeyCode::Char('D')), Screen::Devices),
            None => new == old,
        }
    } else if code == KeyCode::Char('r') {
        new == old && match sel {
            Some(p) => if p.1.status is Suspended {
                o.effect == Some(Effect::ResumeDevice(p.0 as usize)) && acts(o)
            } else {
                idle(o)
            },
            None => idle(o),
        }
    } else if code == KeyCode::Char('R') {
        idle(o) && match sel {
            Some(p) => if p.1.device_type == DeviceType::Combined {
                match first_where(old.audio_state.combined_groups@, |g: CombinedGroup| g.sink_name@ == p.1.name@) {
                    Some(gi) => confirming(old, new, |a: ConfirmAction| a == ConfirmAction::RemoveCombined { group_index: gi as usize }, Screen::Devices),
                    None => new == old,
                }
            } else {
                new == old
            },
            None => new == old,
        }
    } else if is_char(code, 'm', 'M') {
        idle(o) && match sel {
            Some(p) => confirming(old, new, |a: ConfirmAction| a matches ConfirmAction::MoveAllStreams { sink_name }
                && sink_name@ == p.1.name@, Screen::Devices),
            None => new == old,
        }
    } else if code == KeyCode::Char('c') {
        navigated(old, new, Screen::Combine) && idle(o)
    } else if code == KeyCode::Char('s') {
        navigated(old, new, Screen::Streams) && idle(o)
    } else if code == KeyCode::F(5) {
        new == old && refreshes(o)
    } else if code == KeyCode::Char('?') {
        navigated(old, new, Screen::Help) && idle(o)
    } else {
        new == old && idle(o)
    }
}

fn pop_char(s: &String) -> (r: String)
    ensures
        r@ == (if s@.len() > 0 { s@.drop_last() } else { s@ }),
{
    let mut v = chars_of(s.as_str());
    if v.len() > 0 {
        v.pop();
    }
    string_from_chars(v.as_slice())
}

fn push_char(s: &String, c: char) -> (r: String)
    ensures
        r@ == s@.push(c),
{
    let mut v = chars_of(s.as_str());
    v.push(c);
    string_from_chars(v.as_slice())
}

fn handle_filter(app: &mut App, code: KeyCode) -> (o: KeyOutcome)
    ensures
        filter_step(*old(app), *final(app), code, o),
{
    match code {
        KeyCode::Esc | KeyCode::Enter => {
            app.filter_active = false;
        },
        KeyCode::Backspace => {
            app.filter_text = pop_char(&app.filter_text);
            app.device_cursor = 0;
            app.device_scroll_offset = 0;
        },
        KeyCode::Char(c) => {
            app.filter_text = push_char(&app.filter_text, c);
            app.device_cursor = 0;
            app.device_scroll_offset = 0;
        },
        _ => {},
    }
    nothing()
}

/// Position of the first group whose combined sink has this name.
fn group_position(groups: &Vec<CombinedGroup>, name: &String) -> (r: Option<usize>)
    ensures
        match r {
            Some(k) => first_where(groups@, |g: CombinedGroup| g.sink_name@ == name@) == Some(k as int),
            None => first_where(groups@, |g: CombinedGroup| g.sink_name@ == name@) is None,
        },
{
    let mut k: usize = 0;
    while k < groups.len()
        invariant
            k <= groups@.len(),
            forall|j: int| 0 <= j < k ==> (#[trigger] groups@[j]).sink_name@ != name@,
        decreases groups.len() - k,
    {
        if crate::models::str_eq(groups[k].sink_name.as_str(), name.as_str()) {
            proof { crate::models::lemma_first_where_found(groups@, |g: CombinedGroup| g.sink_name@ == name@, k as int); }
            return Some(k);
        }
        k = k + 1;
    }
    proof { crate::models::lemma_first_where_none(groups@, |g: CombinedGroup| g.sink_name@ == name@); }
    None
}

/// The selected device's position and a copy of its name, status and type.
fn selection(app: &App) -> (r: Option<(usize, String, bool, bool)>)
    ensures
        match selected_in(*app) {
            Some(p) => r matches Some(t) && t.0 as int == p.0 && t.1@ == p.1.name@
                && t.2 == (p.1.status is Suspended) && t.3 == (p.1.device_type == DeviceType::Combined),
            None => r is None,
        },
{
    let f = app.filtered_devices();
    if app.device_cursor < f.len() {
        let (i, d) = f[app.device_cursor];
        proof {
            let m = f@.map_values(|p: (usize, &Device)| (p.0 as int, *p.1));
            assert(m[app.device_cursor as int] == (f@[app.device_cursor as int].0 as int, *f@[app.device_cursor as int].1));
        }
        let suspended = match d.status {
            DeviceStatus::Suspended => true,
            _ => false,
        };
        Some((i, copy_string(&d.name), suspended, d.device_type == DeviceType::Combined))
    } else {
        None
    }
}

fn handle_devices(app: &mut App, code: KeyCode) -> (o: KeyOutcome)
    ensures
        devices_step(*old(app), *final(app), code, o),
        !old(app).filter_active && code == KeyCode::Char('r') ==> {
            let sel = filtered_view(*old(app))[old(app).device_cursor as int];
            let devs = old(app).audio_state.devices@;
            &&& (o.effect matches Some(Effect::ResumeDevice(k)) ==> old(app).device_cursor < filtered_view(*old(app)).len()
                && k < devs.len() && devs[k as int] == sel.1 && devs[k as int].status is Suspended)
            &&& (old(app).device_cursor < filtered_view(*old(app)).len() && sel.1.status is Suspended)
                ==> (o.effect matches Some(Effect::ResumeDevice(k)) && k == sel.0)
        },
{
    if app.filter_active {
        return handle_filter(app, code);
    }
    if code == KeyCode::Esc {
        app.go_home();
        nothing()
    } else if code == KeyCode::Up || code == KeyCode::Char('k') {
        if app.device_cursor > 0 {
            app.device_cursor = app.device_cursor - 1;
        }
        nothing()
    } else if code == KeyCode::Down || code == KeyCode::Char('j') {
        let n = app.filtered_devices().len();
        let max = if n > 0 { n - 1 } else { 0 };
        if app.device_cursor < max {
            app.device_cursor = app.device_cursor + 1;
        }
        nothing()
    } else if code == KeyCode::Char('f') || code == KeyCode::Char('/') {
        app.filter_active = true;
        nothing()
    } else if code == KeyCode::Char('d') || code == KeyCode::Char('D') {
        let move_streams = code == KeyCode::Char('D');
        match selection(app) {
            Some((_, sink_name, _, _)) => {
                app.screen = Screen::Confirm(ConfirmAction::SetDefault { sink_name, move_streams });
                app.previous_screen = Screen::Devices;
            },
            None => {},
        }
        nothing()
    } else if code == KeyCode::Char('r') {
        proof {
            let devs = app.audio_state.devices@;
            lemma_matching_entries(devs, lowercase(app.filter_text@), devs.len() as int);
        }
        match selection(app) {
            Some((i, _, suspended, _)) => if suspended {
                act(Effect::ResumeDevice(i))
            } else {
                nothing()
            },
            None => nothing(),
        }
    } else if code == KeyCode::Char('R') {
        match selection(app) {
            Some((_, name, _, combined)) => {
                if combined {
                    match group_position(&app.audio_state.combined_groups, &name) {
                        Some(gi) => {
                            app.screen = Screen::Confirm(ConfirmAction::RemoveCombined { group_index: gi });
                            app.previous_screen = Screen::Devices;
                        },
                        None => {},
                    }
                }
            },
            None => {},
        }
        nothing()
    } else if code == KeyCode::Char('m') || code == KeyCode::Char('M') {
        match selection(app) {
            Some((_, sink_name, _, _)) => {
                app.screen = Screen::Confirm(ConfirmAction::MoveAllStreams { sink_name });
                app.previous_screen = Screen::Devices;
            },
            None => {},
        }
        nothing()
    } else if code == KeyCode::Char('c') {
        app.navigate_to(Screen::Combine);
        nothing()
    } else if code == KeyCode::Char('s') {
        app.navigate_to(Screen::Streams);
        nothing()
    } else if code == KeyCode::F(5) {
        act(Effect::Refresh)
    } else if code == KeyCode::Char('?') {
        app.navigate_to(Screen::Help);
        nothing()
    } else {
        nothing()
    }
}


/// The stream list: navigation, moving the selected stream or every stream to
/// the default output.
pub open spec fn streams_step(old: App, new: App, code: KeyCode, o: KeyOutcome) -> bool {
    let streams = old.audio_state.streams@;
    if code == KeyCode::Esc {
        went_home(old, new) && idle(o)
    } else if code == KeyCode::Up || code == KeyCode::Char('k') {
        new == (App { stream_cursor: step_up(old.stream_cursor), ..old }) && idle(o)
    } else if code == KeyCode::Down || code == KeyCode::Char('j') {
        new == (App { stream_cursor: step_down(old.stream_cursor, streams.len()), ..old }) && idle(o)
    } else if code == KeyCode::Enter {
        if old.stream_cursor < streams.len() {
            if old.audio_state.default_sink_name@.len() > 0 {
                &&& new == old
                &&& o.effect matches Some(Effect::MoveStream(i, s))
                    && i == streams[old.stream_cursor as int].index && s@ == old.audio_state.default_sink_name@
                &&& acts(o)
            } else {
                &&& idle(o)
                &&& new.notification matches Some(n) && n.level == NotificationLevel::Warning
                    && n.message@ == "No default sink set. Go to Devices to set one."@
                &&& new == (App { notification: new.notification, ..old })
            }
        } else {
            new == old && idle(o)
        }
    } else if is_char(code, 'm', 'M') {
        idle(o) && if old.audio_state.default_sink_name@.len() > 0 {
            confirming(old, new, |a: ConfirmAction| a matches ConfirmAction::MoveAllStreams { sink_name }
                && sink_name@ == old.audio_state.default_sink_name@, Screen::Streams)
        } else {
            &&& new.notification matches Some(n) && n.level == NotificationLevel::Warning
                && n.message@ == "No default sink set. Go to Devices to set one."@
            &&& new == (App { notification: new.notification, ..old })
        }
    } else if code == KeyCode::Char('d') {
        navigated(old, new, Screen::Devices) && idle(o)
    } else if code == KeyCode::F(5) {
        new == old && refreshes(o)
    } else if code == KeyCode::Char('?') {
        navigated(old, new, Screen::Help) && idle(o)
    } else {
        new == old && idle(o)
    }
}

/// Handles a key on the stream list.
pub fn handle_streams(app: &mut App, code: KeyCode) -> (o: KeyOutcome)
    ensures
        streams_step(*old(app), *final(app), code, o),
        (code == KeyCode::Up || code == KeyCode::Char('k')) && old(app).stream_cursor > 0
            ==> final(app).stream_cursor + 1 == old(app).stream_cursor,
        (code == KeyCode::Down || code == KeyCode::Char('j'))
            && old(app).stream_cursor + 1 < old(app).audio_state.streams@.len()
            ==> final(app).stream_cursor == old(app).stream_cursor + 1,
{
    if code == KeyCode::Esc {
        app.go_home();
        nothing()
    } else if code == KeyCode::Up || code == KeyCode::Char('k') {
        if app.stream_cursor > 0 {
            app.stream_cursor = app.stream_cursor - 1;
        }
        nothing()
    } else if code == KeyCode::Down || code == KeyCode::Char('j') {
        let n = app.audio_state.streams.len();
        let max = if n > 0 { n - 1 } else { 0 };
        if app.stream_cursor < max {
            app.stream_cursor = app.stream_cursor + 1;
        }
        nothing()
    } else if code == KeyCode::Enter {
        if app.stream_cursor < app.audio_state.streams.len() {
            let stream_index = app.audio_state.streams[app.stream_cursor].index;
            if !app.audio_state.default_sink_name.as_str().is_empty() {
                act(Effect::MoveStream(stream_index, copy_string(&app.audio_state.default_sink_name)))
            } else {
                app.notify(Notification::with_level(
                    "No default sink set. Go to Devices to set one.".to_owned(),
                    NotificationLevel::Warning,
                ));
                nothing()
            }
        } else {
            nothing()
        }
    } else if code == KeyCode::Char('m') || code == KeyCode::Char('M') {
        if !app.audio_state.default_sink_name.as_str().is_empty() {
            let sink_name = copy_string(&app.audio_state.default_sink_name);
            app.screen = Screen::Confirm(ConfirmAction::MoveAllStreams { sink_name });
            app.previous_screen = Screen::Streams;
        } else {
            app.notify(Notification::with_level(
                "No default sink set. Go to Devices to set one.".to_owned(),
                NotificationLevel::Warning,
            ));
        }
        nothing()
    } else if code == KeyCode::Char('d') {
        app.navigate_to(Screen::Devices);
        nothing()
    } else if code == KeyCode::F(5) {
        act(Effect::Refresh)
    } else if code == KeyCode::Char('?') {
        app.navigate_to(Screen::Help);
        nothing()
    } else {
        nothing()
    }
}

/// `new` is `old` with the wizard changed to `w`.
pub open spec fn wizard_now(old: App, new: App, w: CombineWizard) -> bool {
    new == (App { combine_wizard: w, ..old })
}

/// `new` is `old` with a warning saying `message`.
pub open spec fn warned(old: App, new: App, message: Seq<char>) -> bool {
    &&& new.notification matches Some(n) && n.level == NotificationLevel::Warning && n.message@ == message
    &&& new == (App { notification: new.notification, ..old })
}

/// First wizard step: choose the real devices to combine.
pub open spec fn combine_select_step(old: App, new: App, code: KeyCode, o: KeyOutcome) -> bool {
    let w = old.combine_wizard;
    let reals = filter_seq(old.audio_state.devices@, |d: Device| is_real_type(d.device_type));
    &&& idle(o)
    &&& if code == KeyCode::Esc {
        went_home(old, new)
    } else if code == KeyCode::Up || code == KeyCode::Char('k') {
        new == (App { device_cursor: step_up(old.device_cursor), ..old })
    } else if code == KeyCode::Down || code == KeyCode::Char('j') {
        new == (App { device_cursor: step_down(old.device_cursor, reals.len()), ..old })
    } else if code == KeyCode::Char(' ') {
        &&& new.combine_wizard.selected_device_indices@ == toggled(w.selected_device_indices@, old.device_cursor)
        &&& wizard_now(old, new, CombineWizard { selected_device_indices: new.combine_wizard.selected_device_indices, ..w })
    } else if code == KeyCode::Enter {
        if w.selected_device_indices@.len() >= 2 {
            if w.group_name@.len() == 0 {
                &&& new.combine_wizard.group_name@ == "my_combined"@
                &&& wizard_now(old, new, CombineWizard {
                    step: CombineStepState::NameGroup,
                    group_name: new.combine_wizard.group_name,
                    name_cursor: encode_utf8("my_combined"@).len() as usize,
                    ..w
                })
            } else {
                wizard_now(old, new, CombineWizard { step: CombineStepState::NameGroup, ..w })
            }
        } else {
            warned(old, new, "Select at least 2 devices with Space, then press Enter."@)
        }
    } else if code == KeyCode::Char('?') {
        navigated(old, new, Screen::Help)
    } else {
        new == old
    }
}

fn handle_combine_select(app: &mut App, code: KeyCode) -> (o: KeyOutcome)
    ensures
        combine_select_step(*old(app), *final(app), code, o),
{
    if code == KeyCode::Esc {
        app.go_home();
    } else if code == KeyCode::Up || code == KeyCode::Char('k') {
        if app.device_cursor > 0 {
            app.device_cursor = app.device_cursor - 1;
        }
    } else if code == KeyCode::Down || code == KeyCode::Char('j') {
        let n = app.audio_state.real_devices().len();
        let max = if n > 0 { n - 1 } else { 0 };
        if app.device_cursor < max {
            app.device_cursor = app.device_cursor + 1;
        }
    } else if code == KeyCode::Char(' ') {
        let idx = app.device_cursor;
        app.combine_toggle_device(idx);
    } else if code == KeyCode::Enter {
        if app.combine_can_proceed() {
            app.combine_wizard.step = CombineStepState::NameGroup;
            if app.combine_wizard.group_name.as_str().is_empty() {
                app.combine_wizard.group_name = "my_combined".to_owned();
                app.combine_wizard.name_cursor = app.combine_wizard.group_name.as_str().len();
            }
        } else {
            app.notify(Notification::with_level(
                "Select at least 2 devices with Space, then press Enter.".to_owned(),
                NotificationLevel::Warning,
            ));
        }
    } else if code == KeyCode::Char('?') {
        app.navigate_to(Screen::Help);
    }
    nothing()
}

/// Second wizard step: edit the group name (the cursor is a byte offset into
/// it), toggle the default option, go back or on.
pub open spec fn combine_name_step(old: App, new: App, code: KeyCode, o: KeyOutcome) -> bool {
    let w = old.combine_wizard;
    let name = w.group_name@;
    let cur = w.name_cursor;
    &&& idle(o)
    &&& match code {
        KeyCode::Esc => wizard_now(old, new, CombineWizard { step: CombineStepState::SelectDevices, ..w }),
        KeyCode::Enter => if group_name_valid(name) {
            wizard_now(old, new, CombineWizard { step: CombineStepState::Confirm, ..w })
        } else {
            warned(old, new, "Name can only contain letters, numbers, hyphens, and underscores."@)
        },
        KeyCode::Backspace => if cur > 0 {
            &&& forall|k: int| 0 < k <= name.len() && #[trigger] byte_offset(name, k) == cur
                ==> new.combine_wizard.group_name@ == name.remove(k - 1)
                    && new.combine_wizard.name_cursor == byte_offset(name, k - 1)
            &&& wizard_now(old, new, CombineWizard {
                group_name: new.combine_wizard.group_name,
                name_cursor: new.combine_wizard.name_cursor,
                ..w
            })
        } else {
            new == old
        },
        KeyCode::Left => {
            &&& (cur > 0 && at_char_boundary(name, cur as int)) ==> forall|k: int|
                0 <= k <= name.len() && #[trigger] byte_offset(name, k) == cur
                ==> new.combine_wizard.name_cursor == byte_offset(name, k - 1)
            &&& !(cur > 0 && at_char_boundary(name, cur as int)) ==> new.combine_wizard.name_cursor == step_up(cur)
            &&& wizard_now(old, new, CombineWizard { name_cursor: new.combine_wizard.name_cursor, ..w })
        },
        KeyCode::Right => {
            let len = encode_utf8(name).len();
            &&& at_char_boundary(name, cur as int) ==> forall|k: int|
                0 <= k <= name.len() && #[trigger] byte_offset(name, k) == cur
                ==> new.combine_wizard.name_cursor == (if k < name.len() { byte_offset(name, k + 1) } else { cur as int })
            &&& !at_char_boundary(name, cur as int)
                ==> new.combine_wizard.name_cursor == (if cur < len { cur + 1 } else { cur as int })
            &&& wizard_now(old, new, CombineWizard { name_cursor: new.combine_wizard.name_cursor, ..w })
        },
        KeyCode::Tab => wizard_now(old, new, CombineWizard { set_as_default: !w.set_as_default, ..w }),
        KeyCode::Char(c) => if is_alphanumeric(c) || c == '_' || c == '-' {
            &&& forall|k: int| 0 <= k <= name.len() && #[trigger] byte_offset(name, k) == cur
                ==> new.combine_wizard.group_name@ == name.insert(k, c)
            &&& new.combine_wizard.name_cursor == cur + char_width(c)
            &&& wizard_now(old, new, CombineWizard {
                group_name: new.combine_wizard.group_name,
                name_cursor: new.combine_wizard.name_cursor,
                ..w
            })
        } else {
            new == old
        },
        _ => new == old,
    }
}

/// Typing into the name cannot fail: an accepted character goes in at a
/// character boundary, and Backspace removes a character that begins at the
/// byte before the cursor.
pub open spec fn name_edit_ok(a: App, code: KeyCode) -> bool {
    let name = a.combine_wizard.group_name@;
    let cur = a.combine_wizard.name_cursor as int;
    match code {
        KeyCode::Char(c) => (is_alphanumeric(c) || c == '_' || c == '-')
            ==> (at_char_boundary(name, cur) && cur + char_width(c) <= usize::MAX),
        KeyCode::Backspace => cur > 0 ==> at_char_boundary(name, cur),
        KeyCode::Right => encode_utf8(name).len() <= usize::MAX,
        _ => true,
    }
}

fn handle_combine_name(app: &mut App, code: KeyCode) -> (o: KeyOutcome)
    requires
        name_edit_ok(*old(app), code),
    ensures
        combine_name_step(*old(app), *final(app), code, o),
{
    match code {
        KeyCode::Esc => {
            app.combine_wizard.step = CombineStepState::SelectDevices;
        },
        KeyCode::Enter => {
            if app.combine_name_is_valid() {
                app.combine_wizard.step = CombineStepState::Confirm;
            } else {
                app.notify(Notification::with_level(
                    "Name can only contain letters, numbers, hyphens, and underscores.".to_owned(),
                    NotificationLevel::Warning,
                ));
            }
        },
        KeyCode::Backspace => {
            let cursor = app.combine_wizard.name_cursor;
            if cursor > 0 {
                let chars = chars_of(app.combine_wizard.group_name.as_str());
                let ghost name = app.combine_wizard.group_name@;
                match char_position(chars.as_slice(), cursor) {
                    Some(k) => {
                        proof { lemma_offset_ends(name); }
                        let w = char_width_of(chars[k - 1]);
                        proof { lemma_offset_step(name, k - 1); }
                        let start = cursor - w;
                        proof {
                            assert forall|j: int| 0 < j <= name.len() && #[trigger] byte_offset(name, j) == cursor
                                implies j == k by {
                                lemma_offset_unique(name, j, k as int);
                            }
                        }
                        string_remove(&mut app.combine_wizard.group_name, start);
                        app.combine_wizard.name_cursor = start;
                    },
                    None => {},
                }
            }
        },
        KeyCode::Left => {
            let cursor = app.combine_wizard.name_cursor;
            let chars = chars_of(app.combine_wizard.group_name.as_str());
            let ghost name = app.combine_wizard.group_name@;
            match char_position(chars.as_slice(), cursor) {
                Some(k) => {
                    if k > 0 {
                        let w = char_width_of(chars[k - 1]);
                        proof {
                            lemma_offset_step(name, k - 1);
                            assert forall|j: int| 0 <= j <= name.len() && #[trigger] byte_offset(name, j) == cursor
                                implies j == k by {
                                lemma_offset_unique(name, j, k as int);
                            }
                        }
                        app.combine_wizard.name_cursor = cursor - w;
                    } else {
                        proof { lemma_offset_ends(name); }
                    }
                },
                None => {
                    if cursor > 0 {
                        app.combine_wizard.name_cursor = cursor - 1;
                    }
                },
            }
        },
        KeyCode::Right => {
            let cursor = app.combine_wizard.name_cursor;
            let chars = chars_of(app.combine_wizard.group_name.as_str());
            let ghost name = app.combine_wizard.group_name@;
            proof { lemma_offset_ends(name); }
            match char_position(chars.as_slice(), cursor) {
                Some(k) => {
                    proof {
                        assert forall|j: int| 0 <= j <= name.len() && #[trigger] byte_offset(name, j) == cursor
                            implies j == k by {
                            lemma_offset_unique(name, j, k as int);
                        }
                    }
                    if k < chars.len() {
                        let w = char_width_of(chars[k]);
                        proof {
                            lemma_offset_step(name, k as int);
                            lemma_offset_mono(name, k + 1, name.len() as int);
                        }
                        app.combine_wizard.name_cursor = cursor + w;
                    }
                },
                None => {
                    let max = app.combine_wizard.group_name.as_str().len();
                    if cursor < max {
                        app.combine_wizard.name_cursor = cursor + 1;
                    }
                },
            }
        },
        KeyCode::Tab => {
            app.combine_wizard.set_as_default = !app.combine_wizard.set_as_default;
        },
        KeyCode::Char(c) => {
            if char_is_alphanumeric(c) || c == '_' || c == '-' {
                let cursor = app.combine_wizard.name_cursor;
                let w = char_width_of(c);
                string_insert(&mut app.combine_wizard.group_name, cursor, c);
                app.combine_wizard.name_cursor = cursor + w;
            }
        },
        _ => {},
    }
    nothing()
}

/// Third wizard step: toggle the options, create, or cancel.
pub open spec fn combine_confirm_step(old: App, new: App, code: KeyCode, o: KeyOutcome) -> bool {
    let w = old.combine_wizard;
    if code == KeyCode::Esc {
        wizard_now(old, new, CombineWizard { step: CombineStepState::NameGroup, ..w }) && idle(o)
    } else if code == KeyCode::Tab {
        wizard_now(old, new, CombineWizard { move_streams: !w.move_streams, ..w }) && idle(o)
    } else if is_char(code, 'd', 'D') {
        wizard_now(old, new, CombineWizard { set_as_default: !w.set_as_default, ..w }) && idle(o)
    } else if code == KeyCode::Enter || is_char(code, 'y', 'Y') {
        new == old && (o.effect matches Some(Effect::CreateCombined)) && acts(o)
    } else if is_char(code, 'n', 'N') {
        went_home(old, new) && idle(o)
    } else {
        new == old && idle(o)
    }
}

fn handle_combine_confirm(app: &mut App, code: KeyCode) -> (o: KeyOutcome)
    ensures
        combine_confirm_step(*old(app), *final(app), code, o),
        (code == KeyCode::Char('d') || code == KeyCode::Char('D'))
            ==> final(app).combine_wizard.set_as_default == !old(app).combine_wizard.set_as_default,
        code == KeyCode::Tab
            ==> final(app).combine_wizard.move_streams == !old(app).combine_wizard.move_streams,
{
    if code == KeyCode::Esc {
        app.combine_wizard.step = CombineStepState::NameGroup;
        nothing()
    } else if code == KeyCode::Tab {
        app.combine_wizard.move_streams = !app.combine_wizard.move_streams;
        nothing()
    } else if code == KeyCode::Char('d') || code == KeyCode::Char('D') {
        app.combine_wizard.set_as_default = !app.combine_wizard.set_as_default;
        nothing()
    } else if code == KeyCode::Enter || code == KeyCode::Char('y') || code == KeyCode::Char('Y') {
        act(Effect::CreateCombined)
    } else if code == KeyCode::Char('n') || code == KeyCode::Char('N') {
        app.go_home();
        nothing()
    } else {
        nothing()
    }
}


/// The confirmation dialog: cancel back to the screen that opened it, or
/// confirm and run the action from the screen it belongs to.
pub open spec fn confirm_step(old: App, new: App, code: KeyCode, action: ConfirmAction, o: KeyOutcome) -> bool {
    if code == KeyCode::Esc || is_char(code, 'n', 'N') {
        new == (App { screen: return_screen(old.previous_screen), ..old }) && idle(o)
    } else if code == KeyCode::Enter || is_char(code, 'y', 'Y') {
        acts(o) && match action {
            ConfirmAction::RemoveCombined { group_index } => new == (App { screen: Screen::Devices, ..old })
                && o.effect == Some(Effect::RemoveCombined(group_index)),
            ConfirmAction::MoveAllStreams { sink_name } => new == (App { screen: Screen::Streams, ..old })
                && (o.effect matches Some(Effect::MoveAllStreams(s)) && s@ == sink_name@),
            ConfirmAction::SetDefault { sink_name, move_streams } => new == (App { screen: Screen::Devices, ..old })
                && (o.effect matches Some(Effect::SetDefault(s, m)) && s@ == sink_name@ && m == move_streams),
            ConfirmAction::ResumeDevice { device_index } => new == (App { screen: Screen::Devices, ..old })
                && o.effect == Some(Effect::ResumeDevice(device_index)),
        }
    } else {
        new == old && idle(o)
    }
}

/// The screen a cancelled confirmation goes back to: the screen that opened
/// it, or the device list where that was itself a dialog or a picker.
pub open spec fn return_screen(s: Screen) -> Screen {
    match s {
        Screen::Home => Screen::Home,
        Screen::Devices => Screen::Devices,
        Screen::Streams => Screen::Streams,
        Screen::Combine => Screen::Combine,
        Screen::Help => Screen::Help,
        _ => Screen::Devices,
    }
}

fn screen_to_return(s: &Screen) -> (r: Screen)
    ensures
        r == return_screen(*s),
{
    match s {
        Screen::Home => Screen::Home,
        Screen::Devices => Screen::Devices,
        Screen::Streams => Screen::Streams,
        Screen::Combine => Screen::Combine,
        Screen::Help => Screen::Help,
        _ => Screen::Devices,
    }
}

/// Two confirmation requests that ask for the same thing.
pub open spec fn same_action(a: ConfirmAction, b: ConfirmAction) -> bool {
    match (a, b) {
        (ConfirmAction::RemoveCombined { group_index: x }, ConfirmAction::RemoveCombined { group_index: y }) => x == y,
        (ConfirmAction::MoveAllStreams { sink_name: x }, ConfirmAction::MoveAllStreams { sink_name: y }) => x@ == y@,
        (ConfirmAction::SetDefault { sink_name: x, move_streams: m }, ConfirmAction::SetDefault { sink_name: y, move_streams: n }) => x@ == y@ && m == n,
        (ConfirmAction::ResumeDevice { device_index: x }, ConfirmAction::ResumeDevice { device_index: y }) => x == y,
        _ => false,
    }
}

fn copy_action(a: &ConfirmAction) -> (r: ConfirmAction)
    ensures
        same_action(r, *a),
{
    match a {
        ConfirmAction::RemoveCombined { group_index } => ConfirmAction::RemoveCombined { group_index: *group_index },
        ConfirmAction::MoveAllStreams { sink_name } => ConfirmAction::MoveAllStreams { sink_name: copy_string(sink_name) },
        ConfirmAction::SetDefault { sink_name, move_streams } => ConfirmAction::SetDefault {
            sink_name: copy_string(sink_name),
            move_streams: *move_streams,
        },
        ConfirmAction::ResumeDevice { device_index } => ConfirmAction::ResumeDevice { device_index: *device_index },
    }
}

proof fn lemma_confirm_step_views(old: App, new: App, code: KeyCode, a: ConfirmAction, b: ConfirmAction, o: KeyOutcome)
    requires
        same_action(a, b),
        confirm_step(old, new, code, a, o),
    ensures
        confirm_step(old, new, code, b, o),
{
}

/// Handles a key in the confirmation dialog for `action`.
pub fn handle_confirm(app: &mut App, code: KeyCode, action: &ConfirmAction) -> (o: KeyOutcome)
    ensures
        confirm_step(*old(app), *final(app), code, *action, o),
{
    if code == KeyCode::Esc || code == KeyCode::Char('n') || code == KeyCode::Char('N') {
        app.screen = screen_to_return(&app.previous_screen);
        nothing()
    } else if code == KeyCode::Enter || code == KeyCode::Char('y') || code == KeyCode::Char('Y') {
        match action {
            ConfirmAction::RemoveCombined { group_index } => {
                app.screen = Screen::Devices;
                act(Effect::RemoveCombined(*group_index))
            },
            ConfirmAction::MoveAllStreams { sink_name } => {
                app.screen = Screen::Streams;
                act(Effect::MoveAllStreams(copy_string(sink_name)))
            },
            ConfirmAction::SetDefault { sink_name, move_streams } => {
                app.screen = Screen::Devices;
                act(Effect::SetDefault(copy_string(sink_name), *move_streams))
            },
            ConfirmAction::ResumeDevice { device_index } => {
                app.screen = Screen::Devices;
                act(Effect::ResumeDevice(*device_index))
            },
        }
    } else {
        nothing()
    }
}

/// The help screen: Esc, `q` or `?` go home.
pub open spec fn help_step(old: App, new: App, code: KeyCode, o: KeyOutcome) -> bool {
    &&& idle(o)
    &&& if code == KeyCode::Esc || code == KeyCode::Char('q') || code == KeyCode::Char('?') {
        went_home(old, new)
    } else {
        new == old
    }
}

fn handle_help(app: &mut App, code: KeyCode) -> (o: KeyOutcome)
    ensures
        help_step(*old(app), *final(app), code, o),
{
    if code == KeyCode::Esc || code == KeyCode::Char('q') || code == KeyCode::Char('?') {
        app.go_home();
    }
    nothing()
}

/// The output picker for one stream: move through the devices, pick one to
/// move the stream to, or leave; without devices any key leaves.
pub open spec fn select_device_step(old: App, new: App, code: KeyCode, stream_index: u32, cursor: usize, o: KeyOutcome) -> bool {
    let devs = old.audio_state.devices@;
    let back = App { screen: Screen::Streams, ..old };
    if devs.len() == 0 {
        new == back && idle(o)
    } else if code == KeyCode::Esc || code == KeyCode::Char('q') || code == KeyCode::Char('c') {
        new == back && idle(o)
    } else if code == KeyCode::Up || code == KeyCode::Char('k') {
        new == (App { screen: Screen::SelectDevice { stream_index: stream_index, cursor: step_up(cursor) }, ..old }) && idle(o)
    } else if code == KeyCode::Down || code == KeyCode::Char('j') {
        new == (App { screen: Screen::SelectDevice { stream_index: stream_index, cursor: step_down(cursor, devs.len()) }, ..old }) && idle(o)
    } else if code == KeyCode::Enter {
        &&& new == back
        &&& o.needs_refresh
        &&& if cursor < devs.len() {
            o.effect matches Some(Effect::MoveStream(i, s)) && i == stream_index && s@ == devs[cursor as int].name@
        } else {
            o.effect is None
        }
    } else {
        new == old && idle(o)
    }
}

fn handle_select_device(app: &mut App, code: KeyCode, stream_index: u32, cursor: usize) -> (o: KeyOutcome)
    ensures
        select_device_step(*old(app), *final(app), code, stream_index, cursor, o),
{
    let n = app.audio_state.devices.len();
    if n == 0 {
        app.screen = Screen::Streams;
        return nothing();
    }
    let max = n - 1;
    if code == KeyCode::Esc || code == KeyCode::Char('q') || code == KeyCode::Char('c') {
        app.screen = Screen::Streams;
        nothing()
    } else if code == KeyCode::Up || code == KeyCode::Char('k') {
        let new_cursor = if cursor > 0 { cursor - 1 } else { 0 };
        app.screen = Screen::SelectDevice { stream_index, cursor: new_cursor };
        nothing()
    } else if code == KeyCode::Down || code == KeyCode::Char('j') {
        let new_cursor = if cursor < max { cursor + 1 } else { cursor };
        app.screen = Screen::SelectDevice { stream_index, cursor: new_cursor };
        nothing()
    } else if code == KeyCode::Enter {
        let effect = if cursor < n {
            Some(Effect::MoveStream(stream_index, copy_string(&app.audio_state.devices[cursor].name)))
        } else {
            None
        };
        app.screen = Screen::Streams;
        KeyOutcome { effect, needs_refresh: true }
    } else {
        nothing()
    }
}

// ─── Dispatch ────────────────────────────────────────────────────────────────

/// `q` without modifiers or Control-C, while neither the filter nor the
/// wizard's name is being typed.
pub open spec fn is_quit(a: App, key: KeyEvent) -> bool {
    &&& (key.code == KeyCode::Char('q') && no_modifiers(key.modifiers))
        || (key.code == KeyCode::Char('c') && control_only(key.modifiers))
    &&& !a.filter_active
    &&& a.combine_wizard.step != CombineStepState::NameGroup
}

/// The key can be handled without a panic: on the wizard's name step,
/// editing keeps to character boundaries.
pub open spec fn key_ok(a: App, key: KeyEvent) -> bool {
    (a.screen is Combine && a.combine_wizard.step == CombineStepState::NameGroup && !is_quit(a, key))
        ==> name_edit_ok(a, key.code)
}

/// What a key press does on each screen.
pub open spec fn key_step(old: App, new: App, key: KeyEvent, o: KeyOutcome) -> bool {
    if is_quit(old, key) {
        new == (App { should_quit: true, ..old }) && idle(o)
    } else {
        match old.screen {
            Screen::Home => home_step(old, new, key.code, o),
            Screen::Devices => devices_step(old, new, key.code, o),
            Screen::Streams => streams_step(old, new, key.code, o),
            Screen::Combine => match old.combine_wizard.step {
                CombineStepState::SelectDevices => combine_select_step(old, new, key.code, o),
                CombineStepState::NameGroup => combine_name_step(old, new, key.code, o),
                CombineStepState::Confirm => combine_confirm_step(old, new, key.code, o),
            },
            Screen::Help => help_step(old, new, key.code, o),
            Screen::Confirm(action) => confirm_step(old, new, key.code, action, o),
            Screen::SelectDevice { stream_index, cursor } => select_device_step(old, new, key.code, stream_index, cursor, o),
        }
    }
}

/// Handles a key press: changes the state and returns the backend action to
/// run, if any, and whether a refresh is due.
pub fn handle_key(app: &mut App, key: KeyEvent) -> (o: KeyOutcome)
    requires
        key_ok(*old(app), key),
    ensures
        key_step(*old(app), *final(app), key, o),
{
    let m = key.modifiers;
    let plain = !m.shift && !m.control && !m.alt && !m.super_key && !m.hyper && !m.meta;
    let ctrl = !m.shift && m.control && !m.alt && !m.super_key && !m.hyper && !m.meta;
    if (key.code == KeyCode::Char('q') && plain) || (key.code == KeyCode::Char('c') && ctrl) {
        if !app.filter_active && app.combine_wizard.step != CombineStepState::NameGroup {
            app.should_quit = true;
            return nothing();
        }
    }
    match &app.screen {
        Screen::Home => handle_home(app, key.code),
        Screen::Devices => handle_devices(app, key.code),
        Screen::Streams => handle_streams(app, key.code),
        Screen::Combine => match app.combine_wizard.step {
            CombineStepState::SelectDevices => handle_combine_select(app, key.code),
            CombineStepState::NameGroup => handle_combine_name(app, key.code),
            CombineStepState::Confirm => handle_combine_confirm(app, key.code),
        },
        Screen::Help => handle_help(app, key.code),
        Screen::Confirm(action) => {
            let a = copy_action(action);
            let ghost old_app = *app;
            let o = handle_confirm(app, key.code, &a);
            proof { lemma_confirm_step_views(old_app, *app, key.code, a, *action, o); }
            o
        },
        Screen::SelectDevice { stream_index, cursor } => {
            let (si, c) = (*stream_index, *cursor);
            handle_select_device(app, key.code, si, c)
        },
    }
}

} // verus!
