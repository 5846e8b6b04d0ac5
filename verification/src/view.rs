//! What the screens show, decided apart from drawing them: the colour scheme,
//! the tone of each device type, status and notification, the spinner, the
//! geometry of overlays and the text of headers, titles and value bars.

use vstd::prelude::*;
use vstd::utf8::encode_utf8;
use crate::app::{App, CombineStepState, ConfirmAction, NotificationLevel};
use crate::events::{at_char_boundary, byte_offset, string_insert};
use crate::models::{
    device_display_name, first_where, group_display_name, AudioState, CombinedGroup, Device,
    DeviceStatus, DeviceType, Stream,
};
use crate::text::{
    cat, cat3, chars_of, decimal, decimal_string, join, join_with, push_decimal, seqs_of,
    string_from_chars,
};

verus! {

// ─── Colour scheme ────────────────────────────────────────────────────────────

/// A colour given by its red, green and blue components.
#[derive(Debug, Clone, Copy, PartialEq, Eq, Structural)]
pub struct Rgb {
    pub r: u8,
    pub g: u8,
    pub b: u8,
}

/// The named colours of the scheme.
#[derive(Debug, Clone, Copy, PartialEq, Eq, Structural)]
pub enum Tone {
    Bg,
    BgPanel,
    BgSelected,
    BgHighlight,
    Accent,
    AccentBright,
    Green,
    Yellow,
    Red,
    Orange,
    Cyan,
    Purple,
    Muted,
    Text,
    Dim,
    Border,
    BorderActive,
}

pub open spec fn rgb(r: u8, g: u8, b: u8) -> Rgb {
    Rgb { r, g, b }
}

/// The colour of each tone.
pub open spec fn tone_rgb(t: Tone) -> Rgb {
    match t {
        Tone::Bg => rgb(15, 17, 26),
        Tone::BgPanel => rgb(22, 25, 37),
        Tone::BgSelected => rgb(35, 40, 60),
        Tone::BgHighlight => rgb(50, 60, 90),
        Tone::Accent => rgb(120, 160, 255),
        Tone::AccentBright => rgb(160, 200, 255),
        Tone::Green => rgb(100, 220, 130),
        Tone::Yellow => rgb(255, 210, 100),
        Tone::Red => rgb(255, 100, 100),
        Tone::Orange => rgb(255, 160, 80),
        Tone::Cyan => rgb(100, 220, 220),
        Tone::Purple => rgb(180, 130, 255),
        Tone::Muted => rgb(100, 110, 140),
        Tone::Text => rgb(210, 215, 230),
        Tone::Dim => rgb(130, 140, 165),
        Tone::Border => rgb(55, 65, 95),
        Tone::BorderActive => rgb(90, 120, 200),
    }
}

/// The colour palette of the interface.
pub struct Palette;

impl Palette {
    /// The colour of a tone.
    pub fn color(tone: Tone) -> (c: Rgb)
        ensures
            c == tone_rgb(tone),
    {
        match tone {
            Tone::Bg => Rgb { r: 15, g: 17, b: 26 },
            Tone::BgPanel => Rgb { r: 22, g: 25, b: 37 },
            Tone::BgSelected => Rgb { r: 35, g: 40, b: 60 },
            Tone::BgHighlight => Rgb { r: 50, g: 60, b: 90 },
            Tone::Accent => Rgb { r: 120, g: 160, b: 255 },
            Tone::AccentBright => Rgb { r: 160, g: 200, b: 255 },
            Tone::Green => Rgb { r: 100, g: 220, b: 130 },
            Tone::Yellow => Rgb { r: 255, g: 210, b: 100 },
            Tone::Red => Rgb { r: 255, g: 100, b: 100 },
            Tone::Orange => Rgb { r: 255, g: 160, b: 80 },
            Tone::Cyan => Rgb { r: 100, g: 220, b: 220 },
            Tone::Purple => Rgb { r: 180, g: 130, b: 255 },
            Tone::Muted => Rgb { r: 100, g: 110, b: 140 },
            Tone::Text => Rgb { r: 210, g: 215, b: 230 },
            Tone::Dim => Rgb { r: 130, g: 140, b: 165 },
            Tone::Border => Rgb { r: 55, g: 65, b: 95 },
            Tone::BorderActive => Rgb { r: 90, g: 120, b: 200 },
        }
    }
}

pub open spec fn device_type_tone_of(t: DeviceType) -> Tone {
    match t {
        DeviceType::Physical => Tone::Accent,
        DeviceType::Bluetooth => Tone::Purple,
        DeviceType::Combined => Tone::Yellow,
        DeviceType::Virtual => Tone::Muted,
        DeviceType::Unknown => Tone::Dim,
    }
}

/// The tone in which a device type is shown.
pub fn device_type_tone(t: DeviceType) -> (r: Tone)
    ensures
        r == device_type_tone_of(t),
{
    match t {
        DeviceType::Physical => Tone::Accent,
        DeviceType::Bluetooth => Tone::Purple,
        DeviceType::Combined => Tone::Yellow,
        DeviceType::Virtual => Tone::Muted,
        DeviceType::Unknown => Tone::Dim,
    }
}

pub open spec fn status_tone_of(s: DeviceStatus) -> Tone {
    match s {
        DeviceStatus::Running => Tone::Green,
        DeviceStatus::Idle => Tone::Cyan,
        DeviceStatus::Suspended => Tone::Muted,
        DeviceStatus::Error(_) => Tone::Red,
    }
}

/// The tone in which a device status is shown.
pub fn status_tone(s: &DeviceStatus) -> (r: Tone)
    ensures
        r == status_tone_of(*s),
{
    match s {
        DeviceStatus::Running => Tone::Green,
        DeviceStatus::Idle => Tone::Cyan,
        DeviceStatus::Suspended => Tone::Muted,
        DeviceStatus::Error(_) => Tone::Red,
    }
}

pub open spec fn status_icon_of(s: DeviceStatus) -> Seq<char> {
    match s {
        DeviceStatus::Running => "▶ "@,
        DeviceStatus::Idle => "⏸ "@,
        DeviceStatus::Suspended => "💤 "@,
        DeviceStatus::Error(_) => "⚠ "@,
    }
}

/// The icon that leads a device in a list, shown in the status tone.
pub fn status_icon(s: &DeviceStatus) -> (r: &'static str)
    ensures
        r@ == status_icon_of(*s),
{
    match s {
        DeviceStatus::Running => "▶ ",
        DeviceStatus::Idle => "⏸ ",
        DeviceStatus::Suspended => "💤 ",
        DeviceStatus::Error(_) => "⚠ ",
    }
}

pub open spec fn notification_look_of(level: NotificationLevel) -> (Seq<char>, Tone, Rgb) {
    match level {
        NotificationLevel::Info => ("ℹ "@, Tone::Text, rgb(30, 40, 70)),
        NotificationLevel::Success => ("✓ "@, Tone::Green, rgb(20, 50, 30)),
        NotificationLevel::Warning => ("⚠ "@, Tone::Yellow, rgb(50, 40, 10)),
        NotificationLevel::Error => ("✗ "@, Tone::Red, rgb(50, 15, 15)),
    }
}

/// The icon, text tone and background of a notification banner.
pub fn notification_look(level: NotificationLevel) -> (r: (&'static str, Tone, Rgb))
    ensures
        (r.0@, r.1, r.2) == notification_look_of(level),
{
    match level {
        NotificationLevel::Info => ("ℹ ", Tone::Text, Rgb { r: 30, g: 40, b: 70 }),
        NotificationLevel::Success => ("✓ ", Tone::Green, Rgb { r: 20, g: 50, b: 30 }),
        NotificationLevel::Warning => ("⚠ ", Tone::Yellow, Rgb { r: 50, g: 40, b: 10 }),
        NotificationLevel::Error => ("✗ ", Tone::Red, Rgb { r: 50, g: 15, b: 15 }),
    }
}

// ─── Loading spinner ─────────────────────────────────────────────────────────

/// The frames of the spinner, in order.
pub open spec fn spinner_frame(k: int) -> Seq<char> {
    if k == 0 {
        "⣾"@
    } else if k == 1 {
        "⣽"@
    } else if k == 2 {
        "⣻"@
    } else if k == 3 {
        "⢿"@
    } else if k == 4 {
        "⡿"@
    } else if k == 5 {
        "⣟"@
    } else if k == 6 {
        "⣯"@
    } else {
        "⣷"@
    }
}

/// The spinner frame for a tick: the eight frames in turn.
pub fn loading_indicator(tick: u64) -> (r: &'static str)
    ensures
        r@ == spinner_frame((tick % 8) as int),
{
    let k = tick % 8;
    if k == 0 {
        "⣾"
    } else if k == 1 {
        "⣽"
    } else if k == 2 {
        "⣻"
    } else if k == 3 {
        "⢿"
    } else if k == 4 {
        "⡿"
    } else if k == 5 {
        "⣟"
    } else if k == 6 {
        "⣯"
    } else {
        "⣷"
    }
}


// ─── Geometry of overlays ─────────────────────────────────────────────────────

/// A rectangle of terminal cells.
#[derive(Debug, Clone, Copy, PartialEq, Eq, Structural)]
pub struct Rect {
    pub x: u16,
    pub y: u16,
    pub width: u16,
    pub height: u16,
}

/// `a - b`, or 0 where `b` is larger.
pub open spec fn sat_sub(a: int, b: int) -> int {
    if a >= b {
        a - b
    } else {
        0
    }
}

pub open spec fn min_of(a: int, b: int) -> int {
    if a <= b {
        a
    } else {
        b
    }
}

/// The banner at the bottom right of the screen: at most 80 cells wide and
/// 4 narrower than the screen, 3 high, one cell above the bottom edge.
pub open spec fn notification_area_of(screen: Rect) -> (int, int, int, int) {
    let width = min_of(sat_sub(screen.width as int, 4), 80);
    (sat_sub(screen.width as int, width + 2), sat_sub(screen.height as int, 4), width, 3)
}

/// Where the notification banner is drawn on a screen of the given size.
pub fn notification_area(screen: Rect) -> (r: Rect)
    ensures
        (r.x as int, r.y as int, r.width as int, r.height as int) == notification_area_of(screen),
{
    let w: u16 = screen.width.saturating_sub(4);
    let width: u16 = if w < 80 { w } else { 80 };
    Rect {
        x: screen.width.saturating_sub(width + 2),
        y: screen.height.saturating_sub(3 + 1),
        width,
        height: 3,
    }
}

/// A box `percent_x` percent as wide as `area` (never wider) and `height`
/// high, centred in `area`.
pub open spec fn centered_rect_of(percent_x: u16, height: u16, area: Rect) -> (int, int, int, int) {
    let width = min_of(area.width * percent_x / 100, area.width as int);
    (
        area.x + sat_sub(area.width as int, width) / 2,
        area.y + sat_sub(area.height as int, height as int) / 2,
        width,
        height as int,
    )
}

/// A centred box of the given width in percent and height in cells.
pub fn centered_rect(percent_x: u16, height: u16, area: Rect) -> (r: Rect)
    requires
        area.width * percent_x <= u16::MAX,
        centered_rect_of(percent_x, height, area).0 <= u16::MAX,
        centered_rect_of(percent_x, height, area).1 <= u16::MAX,
    ensures
        (r.x as int, r.y as int, r.width as int, r.height as int) == centered_rect_of(percent_x, height, area),
{
    let p: u16 = area.width * percent_x / 100;
    let width: u16 = if p < area.width { p } else { area.width };
    let x: u16 = area.width.saturating_sub(width) / 2;
    let y: u16 = area.height.saturating_sub(height) / 2;
    Rect { x: area.x + x, y: area.y + y, width, height }
}

/// The row of buttons at the bottom of a dialog box: 2 cells in from the
/// sides, 4 up from the bottom, 3 high.
pub open spec fn button_row_of(dialog: Rect) -> (int, int, int, int) {
    (dialog.x + 2, dialog.y + sat_sub(dialog.height as int, 4), sat_sub(dialog.width as int, 4), 3)
}

/// Where the buttons of a dialog box are drawn.
pub fn button_row(dialog: Rect) -> (r: Rect)
    requires
        button_row_of(dialog).0 <= u16::MAX,
        button_row_of(dialog).1 <= u16::MAX,
    ensures
        (r.x as int, r.y as int, r.width as int, r.height as int) == button_row_of(dialog),
{
    Rect {
        x: dialog.x + 2,
        y: dialog.y + dialog.height.saturating_sub(4),
        width: dialog.width.saturating_sub(4),
        height: 3,
    }
}

/// The output picker: 60 by 18 cells, centred, cut down to the screen.
pub open spec fn picker_area_of(screen: Rect) -> (int, int, int, int) {
    (
        sat_sub(screen.width as int, 60) / 2,
        sat_sub(screen.height as int, 18) / 2,
        min_of(60, screen.width as int),
        min_of(18, screen.height as int),
    )
}

/// Where the output picker is drawn on a screen of the given size.
pub fn picker_area(screen: Rect) -> (r: Rect)
    ensures
        (r.x as int, r.y as int, r.width as int, r.height as int) == picker_area_of(screen),
{
    let w: u16 = 60;
    let h: u16 = 18;
    Rect {
        x: screen.width.saturating_sub(w) / 2,
        y: screen.height.saturating_sub(h) / 2,
        width: if w < screen.width { w } else { screen.width },
        height: if h < screen.height { h } else { screen.height },
    }
}

// ─── Wizard progress ──────────────────────────────────────────────────────────

/// How a step of the wizard is marked in its header.
#[derive(Debug, Clone, Copy, PartialEq, Eq, Structural)]
pub enum StepMark {
    Current,
    Done,
    Pending,
}

pub open spec fn step_number(s: CombineStepState) -> int {
    match s {
        CombineStepState::SelectDevices => 0,
        CombineStepState::NameGroup => 1,
        CombineStepState::Confirm => 2,
    }
}

/// The step being taken is current; those before it are done.
pub open spec fn step_mark_of(current: CombineStepState, step: CombineStepState) -> StepMark {
    if current == step {
        StepMark::Current
    } else if step_number(step) < step_number(current) {
        StepMark::Done
    } else {
        StepMark::Pending
    }
}

/// The mark of `step` while the wizard is at `current`.
pub fn step_mark(current: CombineStepState, step: CombineStepState) -> (r: StepMark)
    ensures
        r == step_mark_of(current, step),
{
    match (current, step) {
        (CombineStepState::SelectDevices, CombineStepState::SelectDevices) => StepMark::Current,
        (CombineStepState::NameGroup, CombineStepState::NameGroup) => StepMark::Current,
        (CombineStepState::Confirm, CombineStepState::Confirm) => StepMark::Current,
        (CombineStepState::NameGroup, CombineStepState::SelectDevices) => StepMark::Done,
        (CombineStepState::Confirm, CombineStepState::SelectDevices) => StepMark::Done,
        (CombineStepState::Confirm, CombineStepState::NameGroup) => StepMark::Done,
        _ => StepMark::Pending,
    }
}


// ─── Text ─────────────────────────────────────────────────────────────────────

/// `n` copies of `c`.
pub open spec fn repeat_char(c: char, n: nat) -> Seq<char> {
    Seq::new(n, |i: int| c)
}

fn push_repeat(v: &mut Vec<char>, c: char, n: usize)
    ensures
        final(v)@ == old(v)@ + repeat_char(c, n as nat),
{
    let mut i: usize = 0;
    while i < n
        invariant
            i <= n,
            v@ == old(v)@ + repeat_char(c, i as nat),
        decreases n - i,
    {
        v.push(c);
        i = i + 1;
        assert(v@ =~= old(v)@ + repeat_char(c, i as nat));
    }
}

/// A twenty-cell bar filled in proportion to the volume, then the volume.
pub open spec fn volume_bar_of(volume: u8) -> Seq<char> {
    let filled = (volume * 20 / 100) as nat;
    "["@ + repeat_char('█', filled) + repeat_char('░', (20 - filled) as nat) + "] "@
        + decimal(volume as nat) + "%"@
}

/// The volume bar of the detail panes, for a volume that fills at most the
/// whole bar.
pub fn volume_bar(volume: u8) -> (r: String)
    requires
        volume * 20 / 100 <= 20,
    ensures
        r@ == volume_bar_of(volume),
{
    let filled: usize = (volume as usize) * 20 / 100;
    let mut v: Vec<char> = Vec::new();
    v.push('[');
    push_repeat(&mut v, '█', filled);
    push_repeat(&mut v, '░', 20 - filled);
    v.push(']');
    v.push(' ');
    push_decimal(&mut v, volume as u64);
    v.push('%');
    proof {
        reveal_strlit("[");
        reveal_strlit("] ");
        reveal_strlit("%");
    }
    assert(v@ =~= volume_bar_of(volume));
    string_from_chars(v.as_slice())
}

/// ` N%` for a known volume, nothing otherwise.
pub open spec fn volume_suffix_of(volume: Option<u8>) -> Seq<char> {
    match volume {
        Some(v) => " "@ + decimal(v as nat) + "%"@,
        None => Seq::empty(),
    }
}

/// The volume shown after a stream's name.
pub fn volume_suffix(volume: Option<u8>) -> (r: String)
    ensures
        r@ == volume_suffix_of(volume),
{
    match volume {
        Some(v) => {
            let n = decimal_string(v as u64);
            cat3(" ", n.as_str(), "%")
        },
        None => String::new(),
    }
}

pub open spec fn channel_label_of(channels: u8) -> Seq<char> {
    if channels == 1 {
        "Mono"@
    } else if channels == 2 {
        "Stereo"@
    } else {
        decimal(channels as nat) + " channels"@
    }
}

/// How a channel count is described.
pub fn channel_label(channels: u8) -> (r: String)
    ensures
        r@ == channel_label_of(channels),
{
    if channels == 1 {
        "Mono".to_owned()
    } else if channels == 2 {
        "Stereo".to_owned()
    } else {
        let n = decimal_string(channels as u64);
        cat(n.as_str(), " channels")
    }
}

/// The default output named in the header: its device's display name, or the
/// sink name where no device has it.
pub open spec fn default_header_of(st: AudioState) -> Seq<char> {
    if st.default_sink_name@.len() == 0 {
        "No default output set"@
    } else {
        "★  Default: "@ + match first_where(st.devices@, |d: Device| d.name@ == st.default_sink_name@) {
            Some(k) => device_display_name(st.devices@[k]),
            None => st.default_sink_name@,
        }
    }
}

/// The header line about the default output.
pub fn default_header(st: &AudioState) -> (r: String)
    ensures
        r@ == default_header_of(*st),
{
    if st.default_sink_name.as_str().is_empty() {
        "No default output set".to_owned()
    } else {
        match st.device_by_name(st.default_sink_name.as_str()) {
            Some(d) => cat("★  Default: ", d.display_name()),
            None => cat("★  Default: ", st.default_sink_name.as_str()),
        }
    }
}

/// The spinner while loading; the numbers of sinks and streams otherwise.
pub open spec fn header_status_of(a: App, tick: u64) -> Seq<char> {
    if a.loading {
        spinner_frame((tick % 8) as int) + " Updating…"@
    } else {
        decimal(a.audio_state.devices@.len()) + " sinks  "@ + decimal(a.audio_state.streams@.len())
            + " streams"@
    }
}

/// The status corner of the header.
pub fn header_status(a: &App, tick: u64) -> (r: String)
    ensures
        r@ == header_status_of(*a, tick),
{
    if a.loading {
        cat(loading_indicator(tick), " Updating…")
    } else {
        let d = decimal_string(a.audio_state.devices.len() as u64);
        let st = decimal_string(a.audio_state.streams.len() as u64);
        let x = cat3(d.as_str(), " sinks  ", st.as_str());
        cat(x.as_str(), " streams")
    }
}

/// The title of the device list, showing the filter being typed or applied.
pub open spec fn device_list_title_of(a: App) -> Seq<char> {
    if a.filter_active {
        "🔍 Filter: "@ + a.filter_text@ + "█"@
    } else if a.filter_text@.len() != 0 {
        "📡 Devices [filter: "@ + a.filter_text@ + "]"@
    } else {
        "📡 Output Devices"@
    }
}

/// The title of the device list.
pub fn device_list_title(a: &App) -> (r: String)
    ensures
        r@ == device_list_title_of(*a),
{
    if a.filter_active {
        cat3("🔍 Filter: ", a.filter_text.as_str(), "█")
    } else if !a.filter_text.as_str().is_empty() {
        cat3("📡 Devices [filter: ", a.filter_text.as_str(), "]")
    } else {
        "📡 Output Devices".to_owned()
    }
}

/// The output a stream plays on: its device's display name, or the sink name
/// that the stream reports where no device has its index.
pub open spec fn stream_output_of(st: AudioState, s: Stream) -> Seq<char> {
    match first_where(st.devices@, |d: Device| d.index == s.sink_index) {
        Some(k) => device_display_name(st.devices@[k]),
        None => s.sink_name@,
    }
}

/// The name of the output a stream plays on.
pub fn stream_output(st: &AudioState, s: &Stream) -> (r: String)
    ensures
        r@ == stream_output_of(*st, *s),
{
    match st.device_by_index(s.sink_index) {
        Some(d) => d.display_name().to_owned(),
        None => s.sink_name.clone(),
    }
}

/// The group a device belongs to, by display name, or `Group #N`.
pub open spec fn group_name_of(st: AudioState, group_id: u32) -> Seq<char> {
    match first_where(st.combined_groups@, |g: CombinedGroup| g.module_index == group_id) {
        Some(k) => group_display_name(st.combined_groups@[k]),
        None => "Group #"@ + decimal(group_id as nat),
    }
}

/// The name of the group with the given module index.
pub fn group_name(st: &AudioState, group_id: u32) -> (r: String)
    ensures
        r@ == group_name_of(*st, group_id),
{
    let mut i: usize = 0;
    while i < st.combined_groups.len()
        invariant
            i <= st.combined_groups@.len(),
            forall|j: int| 0 <= j < i ==> (#[trigger] st.combined_groups@[j]).module_index != group_id,
        decreases st.combined_groups.len() - i,
    {
        if st.combined_groups[i].module_index == group_id {
            proof {
                crate::models::lemma_first_where_found(
                    st.combined_groups@, |g: CombinedGroup| g.module_index == group_id, i as int);
            }
            return st.combined_groups[i].display_name().to_owned();
        }
        i = i + 1;
    }
    proof {
        crate::models::lemma_first_where_none(st.combined_groups@, |g: CombinedGroup| g.module_index == group_id);
    }
    let n = decimal_string(group_id as u64);
    cat("Group #", n.as_str())
}

/// At most the first `n` characters of `s`.
pub open spec fn first_chars(s: Seq<char>, n: int) -> Seq<char> {
    if s.len() <= n {
        s
    } else {
        s.take(n)
    }
}

/// The members of a group joined by `, `, cut to 25 characters, in brackets.
pub open spec fn members_preview_of(g: CombinedGroup) -> Seq<char> {
    " ["@ + first_chars(join_with(g.members@.map_values(|m: String| m@), ", "@), 25) + "]"@
}

/// The member list shown beside a group on the home screen.
pub fn members_preview(g: &CombinedGroup) -> (r: String)
    ensures
        r@ == members_preview_of(*g),
{
    let all = joined_members(g);
    let mut out: Vec<char> = Vec::new();
    out.push(' ');
    out.push('[');
    let mut k: usize = 0;
    while k < all.len() && k < 25
        invariant
            k <= all@.len(),
            k <= 25,
            out@ == seq![' ', '['] + all@.take(k as int),
        decreases all.len() - k,
    {
        out.push(all[k]);
        k = k + 1;
        assert(out@ =~= seq![' ', '['] + all@.take(k as int));
    }
    out.push(']');
    proof {
        reveal_strlit(" [");
        reveal_strlit("]");
    }
    assert(first_chars(all@, 25) =~= all@.take(k as int));
    assert(out@ =~= members_preview_of(*g));
    string_from_chars(out.as_slice())
}

/// The line under the first five streams of a device when it has more.
pub fn more_streams_text(count: usize) -> (r: String)
    requires
        count > 5,
    ensures
        r@ == "  … and "@ + decimal((count - 5) as nat) + " more"@,
{
    let n = decimal_string((count - 5) as u64);
    cat3("  … and ", n.as_str(), " more")
}


// ─── Device pane and confirmation dialog ─────────────────────────────────────

/// The actions offered for a device in its detail pane: removal for a
/// combined output, else waking for a suspended one; making it the default
/// (with or without the streams) unless it is; moving the streams to it.
pub open spec fn device_actions_of(d: Device) -> Seq<Seq<char>> {
    let first: Seq<Seq<char>> = if d.device_type == DeviceType::Combined {
        seq!["  [R] Remove this combined output"@]
    } else if d.status is Suspended {
        seq!["  [r] Resume (wake up) this device"@]
    } else {
        Seq::empty()
    };
    let second: Seq<Seq<char>> = if !d.is_default {
        seq!["  [d] Use as main output (default only)"@, "  [D] Use as main + move all streams"@]
    } else {
        Seq::empty()
    };
    (first + second).push("  [m] Move all streams here"@)
}

pub open spec fn strs_view(v: Seq<&str>) -> Seq<Seq<char>> {
    v.map_values(|s: &str| s@)
}

/// The action lines of a device's detail pane.
pub fn device_actions(d: &Device) -> (r: Vec<&'static str>)
    ensures
        strs_view(r@) == device_actions_of(*d),
{
    let mut r: Vec<&'static str> = Vec::new();
    if d.device_type == DeviceType::Combined {
        r.push("  [R] Remove this combined output");
    } else if matches!(d.status, DeviceStatus::Suspended) {
        r.push("  [r] Resume (wake up) this device");
    }
    if !d.is_default {
        r.push("  [d] Use as main output (default only)");
        r.push("  [D] Use as main + move all streams");
    }
    r.push("  [m] Move all streams here");
    assert(strs_view(r@) =~= device_actions_of(*d));
    r
}

pub open spec fn pairs_view(v: Seq<(&str, &str)>) -> Seq<(Seq<char>, Seq<char>)> {
    v.map_values(|p: (&str, &str)| (p.0@, p.1@))
}

/// The key hints of the device list outside the filter: the fixed ones, then
/// removal for a combined device and waking for a suspended one, then Esc.
pub open spec fn device_hints_of(selected: Option<Device>) -> Seq<(Seq<char>, Seq<char>)> {
    let base: Seq<(Seq<char>, Seq<char>)> = seq![
        ("↑↓/jk"@, "navigate"@),
        ("/"@, "filter"@),
        ("d"@, "set default"@),
        ("D"@, "default+streams"@),
        ("m"@, "move all streams"@),
        ("C"@, "combine"@),
    ];
    let combined = selected matches Some(d) && d.device_type == DeviceType::Combined;
    let suspended = selected matches Some(d) && d.status is Suspended;
    let a = if combined { base.push(("R"@, "remove combined"@)) } else { base };
    let b = if suspended { a.push(("r"@, "resume device"@)) } else { a };
    b.push(("Esc"@, "back"@))
}

/// The key hints under the device list for the selected device.
pub fn device_hints(selected: Option<&Device>) -> (r: Vec<(&'static str, &'static str)>)
    ensures
        pairs_view(r@) == device_hints_of(match selected { Some(d) => Some(*d), None => None }),
{
    let mut r: Vec<(&'static str, &'static str)> = Vec::new();
    r.push(("↑↓/jk", "navigate"));
    r.push(("/", "filter"));
    r.push(("d", "set default"));
    r.push(("D", "default+streams"));
    r.push(("m", "move all streams"));
    r.push(("C", "combine"));
    let (combined, suspended) = match selected {
        Some(d) => (d.is_combined(), matches!(d.status, DeviceStatus::Suspended)),
        None => (false, false),
    };
    if combined {
        r.push(("R", "remove combined"));
    }
    if suspended {
        r.push(("r", "resume device"));
    }
    r.push(("Esc", "back"));
    assert(pairs_view(r@) =~= device_hints_of(match selected { Some(d) => Some(*d), None => None }));
    r
}

pub open spec fn confirm_title_of(a: ConfirmAction) -> Seq<char> {
    match a {
        ConfirmAction::RemoveCombined { .. } => "⚠ Confirm Removal"@,
        ConfirmAction::MoveAllStreams { .. } => "Move Streams"@,
        ConfirmAction::SetDefault { .. } => "Set Default Output"@,
        ConfirmAction::ResumeDevice { .. } => "Resume Device"@,
    }
}

/// The title of the confirmation dialog.
pub fn confirm_title(a: &ConfirmAction) -> (r: &'static str)
    ensures
        r@ == confirm_title_of(*a),
{
    match a {
        ConfirmAction::RemoveCombined { .. } => "⚠ Confirm Removal",
        ConfirmAction::MoveAllStreams { .. } => "Move Streams",
        ConfirmAction::SetDefault { .. } => "Set Default Output",
        ConfirmAction::ResumeDevice { .. } => "Resume Device",
    }
}

/// An output by its device's display name, or by the sink name where no
/// device has it.
pub open spec fn output_name_of(st: AudioState, sink_name: Seq<char>) -> Seq<char> {
    match first_where(st.devices@, |d: Device| d.name@ == sink_name) {
        Some(k) => device_display_name(st.devices@[k]),
        None => sink_name,
    }
}

/// What the confirmation dialog is about: the group, output or device named
/// by the action; nothing where the group or device is gone.
pub open spec fn confirm_subject_of(st: AudioState, a: ConfirmAction) -> Seq<char> {
    match a {
        ConfirmAction::RemoveCombined { group_index } => if group_index < st.combined_groups@.len() {
            group_display_name(st.combined_groups@[group_index as int])
        } else {
            Seq::empty()
        },
        ConfirmAction::MoveAllStreams { sink_name } => output_name_of(st, sink_name@),
        ConfirmAction::SetDefault { sink_name, .. } => output_name_of(st, sink_name@),
        ConfirmAction::ResumeDevice { device_index } => if device_index < st.devices@.len() {
            device_display_name(st.devices@[device_index as int])
        } else {
            Seq::empty()
        },
    }
}

/// The name shown in the confirmation dialog.
pub fn confirm_subject(st: &AudioState, a: &ConfirmAction) -> (r: String)
    ensures
        r@ == confirm_subject_of(*st, *a),
{
    match a {
        ConfirmAction::RemoveCombined { group_index } => {
            if *group_index < st.combined_groups.len() {
                st.combined_groups[*group_index].display_name().to_owned()
            } else {
                String::new()
            }
        },
        ConfirmAction::MoveAllStreams { sink_name } => match st.device_by_name(sink_name.as_str()) {
            Some(d) => d.display_name().to_owned(),
            None => sink_name.clone(),
        },
        ConfirmAction::SetDefault { sink_name, .. } => match st.device_by_name(sink_name.as_str()) {
            Some(d) => d.display_name().to_owned(),
            None => sink_name.clone(),
        },
        ConfirmAction::ResumeDevice { device_index } => {
            if *device_index < st.devices.len() {
                st.devices[*device_index].display_name().to_owned()
            } else {
                String::new()
            }
        },
    }
}

/// The members of the group to remove, joined by `, `; nothing otherwise.
pub open spec fn confirm_members_of(st: AudioState, a: ConfirmAction) -> Seq<char> {
    match a {
        ConfirmAction::RemoveCombined { group_index } => if group_index < st.combined_groups@.len() {
            join_with(st.combined_groups@[group_index as int].members@.map_values(|m: String| m@), ", "@)
        } else {
            Seq::empty()
        },
        _ => Seq::empty(),
    }
}

fn joined_members(g: &CombinedGroup) -> (r: Vec<char>)
    ensures
        r@ == join_with(g.members@.map_values(|m: String| m@), ", "@),
{
    let mut pieces: Vec<Vec<char>> = Vec::new();
    let mut i: usize = 0;
    while i < g.members.len()
        invariant
            i <= g.members@.len(),
            seqs_of(pieces@) == g.members@.map_values(|m: String| m@).take(i as int),
        decreases g.members.len() - i,
    {
        let ghost before = seqs_of(pieces@);
        pieces.push(chars_of(g.members[i].as_str()));
        assert(seqs_of(pieces@) =~= before.push(g.members@[i as int]@));
        assert(g.members@.map_values(|m: String| m@).take(i + 1)
            =~= g.members@.map_values(|m: String| m@).take(i as int).push(g.members@[i as int]@));
        i = i + 1;
    }
    assert(g.members@.map_values(|m: String| m@).take(g.members@.len() as int)
        =~= g.members@.map_values(|m: String| m@));
    let sep = chars_of(", ");
    join(&pieces, sep.as_slice())
}

/// The member list shown when removing a group.
pub fn confirm_members(st: &AudioState, a: &ConfirmAction) -> (r: String)
    ensures
        r@ == confirm_members_of(*st, *a),
{
    match a {
        ConfirmAction::RemoveCombined { group_index } => {
            if *group_index < st.combined_groups.len() {
                let v = joined_members(&st.combined_groups[*group_index]);
                string_from_chars(v.as_slice())
            } else {
                String::new()
            }
        },
        _ => String::new(),
    }
}


/// The group name as typed, with the cursor mark `│` at the cursor's byte
/// offset when that lies within the name.
pub open spec fn name_with_cursor_of(name: Seq<char>, cursor: usize, shown: Seq<char>) -> bool {
    if cursor <= encode_utf8(name).len() as usize {
        forall|k: int| 0 <= k <= name.len() && #[trigger] byte_offset(name, k) == cursor
            ==> shown == name.insert(k, '│')
    } else {
        shown == name
    }
}

/// The name field of the wizard; a cursor inside a character is refused, as
/// `String::insert` refuses it.
pub fn name_with_cursor(name: &String, cursor: usize) -> (r: String)
    requires
        cursor <= encode_utf8(name@).len() as usize ==> at_char_boundary(name@, cursor as int),
    ensures
        name_with_cursor_of(name@, cursor, r@),
{
    let mut shown = name.clone();
    let n = name.as_str().len();
    if cursor <= n {
        string_insert(&mut shown, cursor, '│');
    }
    shown
}


/// `  "name"`, as the confirmation dialog shows a name.
pub open spec fn quoted(s: Seq<char>) -> Seq<char> {
    "  \""@ + s + "\""@
}

pub open spec fn blank_line() -> (Seq<char>, Tone, bool) {
    (Seq::empty(), Tone::Text, false)
}

/// The lines of the confirmation dialog, each with its tone and whether it is
/// bold.
pub open spec fn confirm_lines_of(st: AudioState, a: ConfirmAction) -> Seq<(Seq<char>, Tone, bool)> {
    let subject = confirm_subject_of(st, a);
    match a {
        ConfirmAction::RemoveCombined { .. } => seq![
            ("  ⚠  Remove combined output?"@, Tone::Yellow, true),
            blank_line(),
            (quoted(subject), Tone::Text, true),
            ("  Members: "@ + confirm_members_of(st, a), Tone::Muted, false),
            blank_line(),
            ("  Any streams playing through it will\n  need to be moved to another output."@, Tone::Dim, false),
        ],
        ConfirmAction::MoveAllStreams { .. } => seq![
            ("  Move all "@ + decimal(st.streams@.len()) + " stream(s) to:"@, Tone::Text, false),
            blank_line(),
            (quoted(subject), Tone::AccentBright, true),
            blank_line(),
            ("  All currently playing audio will be\n  sent to this output."@, Tone::Dim, false),
        ],
        ConfirmAction::SetDefault { move_streams, .. } => seq![
            ("  Set as the default output:"@, Tone::Text, false),
            blank_line(),
            ("  ★  \""@ + subject + "\""@, Tone::AccentBright, true),
            blank_line(),
            if move_streams {
                ("  All current streams will also be moved."@, Tone::Green, false)
            } else {
                ("  Current streams will stay where they are."@, Tone::Dim, false)
            },
        ],
        ConfirmAction::ResumeDevice { .. } => seq![
            ("  Resume suspended device?"@, Tone::Text, false),
            blank_line(),
            (quoted(subject), Tone::Cyan, true),
            blank_line(),
            ("  This will try to wake up the device.\n  If it's Bluetooth, ensure it is on."@, Tone::Dim, false),
        ],
    }
}

pub open spec fn lines_view(v: Seq<(String, Tone, bool)>) -> Seq<(Seq<char>, Tone, bool)> {
    v.map_values(|t: (String, Tone, bool)| (t.0@, t.1, t.2))
}

/// The lines of the confirmation dialog for `a`.
pub fn confirm_lines(st: &AudioState, a: &ConfirmAction) -> (r: Vec<(String, Tone, bool)>)
    ensures
        lines_view(r@) == confirm_lines_of(*st, *a),
{
    let subject = confirm_subject(st, a);
    let mut r: Vec<(String, Tone, bool)> = Vec::new();
    match a {
        ConfirmAction::RemoveCombined { .. } => {
            let members = confirm_members(st, a);
            r.push(("  ⚠  Remove combined output?".to_owned(), Tone::Yellow, true));
            r.push((String::new(), Tone::Text, false));
            r.push((cat3("  \"", subject.as_str(), "\""), Tone::Text, true));
            r.push((cat("  Members: ", members.as_str()), Tone::Muted, false));
            r.push((String::new(), Tone::Text, false));
            r.push(("  Any streams playing through it will\n  need to be moved to another output.".to_owned(), Tone::Dim, false));
        },
        ConfirmAction::MoveAllStreams { .. } => {
            let n = decimal_string(st.streams.len() as u64);
            r.push((cat3("  Move all ", n.as_str(), " stream(s) to:"), Tone::Text, false));
            r.push((String::new(), Tone::Text, false));
            r.push((cat3("  \"", subject.as_str(), "\""), Tone::AccentBright, true));
            r.push((String::new(), Tone::Text, false));
            r.push(("  All currently playing audio will be\n  sent to this output.".to_owned(), Tone::Dim, false));
        },
        ConfirmAction::SetDefault { move_streams, .. } => {
            r.push(("  Set as the default output:".to_owned(), Tone::Text, false));
            r.push((String::new(), Tone::Text, false));
            r.push((cat3("  ★  \"", subject.as_str(), "\""), Tone::AccentBright, true));
            r.push((String::new(), Tone::Text, false));
            if *move_streams {
                r.push(("  All current streams will also be moved.".to_owned(), Tone::Green, false));
            } else {
                r.push(("  Current streams will stay where they are.".to_owned(), Tone::Dim, false));
            }
        },
        ConfirmAction::ResumeDevice { .. } => {
            r.push(("  Resume suspended device?".to_owned(), Tone::Text, false));
            r.push((String::new(), Tone::Text, false));
            r.push((cat3("  \"", subject.as_str(), "\""), Tone::Cyan, true));
            r.push((String::new(), Tone::Text, false));
            r.push(("  This will try to wake up the device.\n  If it's Bluetooth, ensure it is on.".to_owned(), Tone::Dim, false));
        },
    }
    assert(lines_view(r@) =~= confirm_lines_of(*st, *a));
    r
}

} // verus!
