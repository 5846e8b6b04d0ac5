//! Properties of the library as a whole, proved from the contracts of its
//! functions.

use vstd::prelude::*;
use crate::app::{
    device_matches, filtered_view, fresh_wizard, group_name_valid, lemma_matching_entries, matching_devices, refreshed, sink_char,
    sink_name_for, toggled, App, CombineStepState, ConfirmAction, NotificationLevel, Screen,
};
use crate::backend::{
    assembled, first_named, lists_member, member_group, sinks_parsed, lemma_first_where_props, lemma_first_where_some_exists, names_sink,
    same_identity, stale_message,
};
use crate::events::{
    confirm_step, streams_step,
    at_char_boundary, byte_offset, char_width, is_quit, key_ok, key_step, lemma_offset_ends, selected_in,
    Effect, KeyCode, KeyEvent, KeyOutcome,
};
use vstd::utf8::encode_utf8;
use crate::models::{
    device_display_name, device_type_label, filter_seq, first_where, status_view, AudioState, CombinedGroup, Device,
    DeviceType, StatusView, Stream,
};
use crate::parser::{device_from_sink, stream_from_input, RawSink, RawSinkInput};
use crate::text::{
    all_digits, decimal, digit_char, is_alphanumeric, digit_value, digits_value, ends_with, is_digit,
    is_white_space, join_with, lowercase, parse_unsigned, split_on, split_state, split_ws,
    contains, starts_with, trim_char, trim_end_ws, trim_start_ws, trim_ws, unsigned_digits, ws_split_state,
};
use crate::backend::{args_view, combine_args_text};
use crate::parser::{
    arg_in, group_from_module, group_members, group_sink_name, is_combine_module, strings_of, RawModule,
};

verus! {

/// A cursor lies in a list of `len` entries, or at 0 when the list is empty.
pub open spec fn in_range(c: usize, len: nat) -> bool {
    c < len || (len == 0 && c == 0)
}

/// Selecting a device twice in the combine wizard leaves the selection as it was.
pub proof fn law_toggle_twice_restores(set: Set<usize>, i: usize)
    ensures
        toggled(toggled(set, i), i) == set,
{
    if set.contains(i) {
        assert(toggled(toggled(set, i), i) =~= set);
    } else {
        assert(toggled(toggled(set, i), i) =~= set);
    }
}

proof fn lemma_digit_char(d: nat)
    requires
        d < 10,
    ensures
        is_digit(digit_char(d)),
        digit_value(digit_char(d)) == d,
        digit_char(d) != '+',
        !is_white_space(digit_char(d)),
{
}

proof fn lemma_decimal(n: nat)
    ensures
        decimal(n).len() > 0,
        all_digits(decimal(n)),
        digits_value(decimal(n)) == n,
        decimal(n)[0] != '+',
        !is_white_space(decimal(n)[0]),
        !is_white_space(decimal(n).last()),
    decreases n,
{
    if n < 10 {
        lemma_digit_char(n);
        let t = decimal(n);
        assert(t.drop_last() =~= Seq::<char>::empty());
        assert(digits_value(t.drop_last()) == 0);
        assert(t.last() == digit_char(n));
        assert(digits_value(t) == digits_value(t.drop_last()) * 10 + digit_value(t.last()));
    } else {
        lemma_decimal(n / 10);
        lemma_digit_char(n % 10);
        let s = decimal(n / 10);
        let t = decimal(n);
        assert(t == s.push(digit_char(n % 10)));
        assert(t.drop_last() =~= s);
        assert forall|i: int| 0 <= i < t.len() implies is_digit(#[trigger] t[i]) by {
            if i < s.len() {
                assert(t[i] == s[i]);
            }
        }
        assert(t[0] == s[0]);
        assert(digits_value(t) == digits_value(s) * 10 + digit_value(digit_char(n % 10)));
        assert(n == (n / 10) * 10 + n % 10);
    }
}

/// A decimal number, trimmed and read back, is the number itself: the module
/// index that `unload-module` is given is what `load-module` printed.
pub proof fn law_module_index_round_trip(n: u32)
    ensures
        parse_unsigned(trim_ws(decimal(n as nat)), u32::MAX as nat) == Some(n as nat),
{
    let d = decimal(n as nat);
    lemma_decimal(n as nat);
    assert(trim_start_ws(d) == d);
    assert(trim_end_ws(d) == d);
    assert(unsigned_digits(d) == d);
}

proof fn lemma_all_match(devs: Seq<Device>, q: Seq<char>, n: int)
    requires
        q.len() == 0,
        0 <= n <= devs.len(),
    ensures
        matching_devices(devs, q, n) == Seq::new(n as nat, |i: int| (i, devs[i])),
    decreases n,
{
    if n > 0 {
        lemma_all_match(devs, q, n - 1);
        assert(matching_devices(devs, q, n) =~= Seq::new(n as nat, |i: int| (i, devs[i])));
    } else {
        assert(matching_devices(devs, q, n) =~= Seq::new(n as nat, |i: int| (i, devs[i])));
    }
}

/// With an empty filter query the device list shows every device, each at its
/// own position.
pub proof fn law_empty_filter_shows_every_device(a: App)
    requires
        lowercase(a.filter_text@).len() == 0,
    ensures
        filtered_view(a) == Seq::new(a.audio_state.devices@.len(), |i: int| (i, a.audio_state.devices@[i])),
{
    lemma_all_match(a.audio_state.devices@, lowercase(a.filter_text@), a.audio_state.devices@.len() as int);
}

proof fn lemma_matching_exact(devs: Seq<Device>, q: Seq<char>, n: int)
    requires
        0 <= n <= devs.len(),
    ensures
        forall|k: int| 0 <= k < n ==> (device_matches(#[trigger] devs[k], q)
            <==> exists|j: int| 0 <= j < matching_devices(devs, q, n).len()
                && (#[trigger] matching_devices(devs, q, n)[j]).0 == k),
        forall|j1: int, j2: int| 0 <= j1 < j2 < matching_devices(devs, q, n).len()
            ==> (#[trigger] matching_devices(devs, q, n)[j1]).0 < (#[trigger] matching_devices(devs, q, n)[j2]).0,
    decreases n,
{
    if n > 0 {
        lemma_matching_exact(devs, q, n - 1);
        lemma_matching_entries(devs, q, n - 1);
        let prev = matching_devices(devs, q, n - 1);
        let cur = matching_devices(devs, q, n);
        assert forall|k: int| 0 <= k < n implies (device_matches(#[trigger] devs[k], q)
            <==> exists|j: int| 0 <= j < cur.len() && (#[trigger] cur[j]).0 == k) by {
            if k < n - 1 {
                if device_matches(devs[k], q) {
                    let j = choose|j: int| 0 <= j < prev.len() && (#[trigger] prev[j]).0 == k;
                    assert(cur[j] == prev[j]);
                }
                if exists|j: int| 0 <= j < cur.len() && (#[trigger] cur[j]).0 == k {
                    let j = choose|j: int| 0 <= j < cur.len() && (#[trigger] cur[j]).0 == k;
                    if j < prev.len() {
                        assert(cur[j] == prev[j]);
                    }
                }
            } else {
                if device_matches(devs[k], q) {
                    assert(cur[prev.len() as int].0 == k);
                }
                if exists|j: int| 0 <= j < cur.len() && (#[trigger] cur[j]).0 == k {
                    let j = choose|j: int| 0 <= j < cur.len() && (#[trigger] cur[j]).0 == k;
                    if j < prev.len() {
                        assert(cur[j] == prev[j]);
                        assert(prev[j].0 < n - 1);
                    }
                }
            }
        }
        assert forall|j1: int, j2: int| 0 <= j1 < j2 < cur.len()
            implies (#[trigger] cur[j1]).0 < (#[trigger] cur[j2]).0 by {
            assert(cur[j1] == prev[j1]);
            if j2 < prev.len() {
                assert(cur[j2] == prev[j2]);
            } else {
                assert(prev[j1].0 < n - 1);
            }
        }
    }
}

/// The device list under a filter shows exactly the devices whose display
/// name, sink name or type label, lower-cased, contains the lower-cased
/// query (every device when the query is empty), in the order of the full
/// list, each with its own position.
pub proof fn law_filter_shows_exactly_matches(a: App)
    ensures
        ({
            let devs = a.audio_state.devices@;
            let q = lowercase(a.filter_text@);
            let f = filtered_view(a);
            &&& forall|k: int| 0 <= k < devs.len() ==> ((q.len() == 0
                || contains(lowercase(device_display_name(#[trigger] devs[k])), q)
                || contains(lowercase(devs[k].name@), q)
                || contains(lowercase(device_type_label(devs[k].device_type)), q))
                <==> exists|j: int| 0 <= j < f.len() && (#[trigger] f[j]).0 == k)
            &&& forall|j: int| 0 <= j < f.len() ==> 0 <= (#[trigger] f[j]).0 < devs.len() && f[j].1 == devs[f[j].0]
            &&& forall|j1: int, j2: int| 0 <= j1 < j2 < f.len() ==> (#[trigger] f[j1]).0 < (#[trigger] f[j2]).0
        }),
{
    let devs = a.audio_state.devices@;
    let q = lowercase(a.filter_text@);
    lemma_matching_entries(devs, q, devs.len() as int);
    lemma_matching_exact(devs, q, devs.len() as int);
    let f = filtered_view(a);
    assert forall|k: int| 0 <= k < devs.len() implies ((q.len() == 0
        || contains(lowercase(device_display_name(#[trigger] devs[k])), q)
        || contains(lowercase(devs[k].name@), q)
        || contains(lowercase(device_type_label(devs[k].device_type)), q))
        <==> exists|j: int| 0 <= j < f.len() && (#[trigger] f[j]).0 == k) by {
        assert(device_matches(devs[k], q) <==> exists|j: int| 0 <= j < f.len() && (#[trigger] f[j]).0 == k);
    }
}

/// After a successful refresh every cursor lies in its list.
pub proof fn law_refresh_puts_cursors_in_range(old: App, new: App, state: AudioState)
    requires
        refreshed(old, new, state),
    ensures
        in_range(new.device_cursor, filtered_view(new).len()),
        in_range(new.stream_cursor, new.audio_state.streams@.len()),
        in_range(new.combined_cursor, new.audio_state.combined_groups@.len()),
{
    assert(filtered_view(new) == filtered_view(App { audio_state: state, ..old }));
}

/// Key presses never move the stream cursor out of the stream list.
pub proof fn law_keys_keep_stream_cursor_in_range(old: App, new: App, key: KeyEvent, o: KeyOutcome)
    requires
        key_step(old, new, key, o),
        in_range(old.stream_cursor, old.audio_state.streams@.len()),
    ensures
        in_range(new.stream_cursor, new.audio_state.streams@.len()),
        new.audio_state == old.audio_state,
{
}

/// Pressing `d` on the selected device and then confirming asks the backend
/// to make that device the default and leave the streams; `D` asks it to move
/// the streams as well.
pub proof fn law_set_default_then_confirm(
    a0: App,
    a1: App,
    a2: App,
    k1: KeyEvent,
    k2: KeyEvent,
    o1: KeyOutcome,
    o2: KeyOutcome,
)
    requires
        a0.screen is Devices,
        !a0.filter_active,
        selected_in(a0) is Some,
        k1.code == KeyCode::Char('d') || k1.code == KeyCode::Char('D'),
        key_step(a0, a1, k1, o1),
        k2.code == KeyCode::Enter,
        key_step(a1, a2, k2, o2),
    ensures
        o2.effect matches Some(Effect::SetDefault(s, m)) && s@ == (selected_in(a0)->0).1.name@
            && m == (k1.code == KeyCode::Char('D')),
        a2.screen is Devices,
{
    assert(!is_quit(a0, k1));
    assert(!is_quit(a1, k2));
}

/// Pressing `m` on the selected device and then confirming asks the backend
/// to move every stream to that device.
pub proof fn law_move_streams_then_confirm(
    a0: App,
    a1: App,
    a2: App,
    k1: KeyEvent,
    k2: KeyEvent,
    o1: KeyOutcome,
    o2: KeyOutcome,
)
    requires
        a0.screen is Devices,
        !a0.filter_active,
        selected_in(a0) is Some,
        k1.code == KeyCode::Char('m') || k1.code == KeyCode::Char('M'),
        key_step(a0, a1, k1, o1),
        k2.code == KeyCode::Enter,
        key_step(a1, a2, k2, o2),
    ensures
        o2.effect matches Some(Effect::MoveAllStreams(s)) && s@ == (selected_in(a0)->0).1.name@,
        a2.screen is Streams,
{
    assert(!is_quit(a0, k1));
    assert(!is_quit(a1, k2));
}

/// Pressing `R` on a selected combined device that a loaded group names and
/// then confirming asks the backend to remove the first such group.
pub proof fn law_remove_then_confirm(
    a0: App,
    a1: App,
    a2: App,
    k1: KeyEvent,
    k2: KeyEvent,
    o1: KeyOutcome,
    o2: KeyOutcome,
)
    requires
        a0.screen is Devices,
        !a0.filter_active,
        selected_in(a0) matches Some(p) && p.1.device_type == DeviceType::Combined,
        names_sink(a0.audio_state.combined_groups@, (selected_in(a0)->0).1.name@),
        k1.code == KeyCode::Char('R'),
        key_step(a0, a1, k1, o1),
        k2.code == KeyCode::Enter,
        key_step(a1, a2, k2, o2),
    ensures
        o2.effect matches Some(Effect::RemoveCombined(gi)) && gi < a0.audio_state.combined_groups@.len()
            && a0.audio_state.combined_groups@[gi as int].sink_name@ == (selected_in(a0)->0).1.name@,
        a2.screen is Devices,
{
    let p = selected_in(a0)->0;
    let groups = a0.audio_state.combined_groups@;
    let j = choose|j: int| 0 <= j < groups.len() && (#[trigger] groups[j]).sink_name@ == p.1.name@;
    lemma_first_where_some_exists(groups, |g: CombinedGroup| g.sink_name@ == p.1.name@, j);
    lemma_first_where_props(groups, |g: CombinedGroup| g.sink_name@ == p.1.name@);
    let gi = first_where(groups, |g: CombinedGroup| g.sink_name@ == p.1.name@)->0;
    assert(a0.audio_state.combined_groups.len() == groups.len());
    assert(!is_quit(a0, k1));
    assert(a1.screen == Screen::Confirm(ConfirmAction::RemoveCombined { group_index: gi as usize }));
    assert(!is_quit(a1, k2));
}

/// A confirmation opened from the device list or the stream list and then
/// cancelled leaves the app on the screen that opened it, with no action.
pub proof fn law_cancel_returns_to_opening_screen(
    a0: App,
    a1: App,
    a2: App,
    k1: KeyEvent,
    k2: KeyEvent,
    o1: KeyOutcome,
    o2: KeyOutcome,
)
    requires
        a0.screen is Devices || a0.screen is Streams,
        key_step(a0, a1, k1, o1),
        a1.screen is Confirm,
        k2.code == KeyCode::Esc || k2.code == KeyCode::Char('n') || k2.code == KeyCode::Char('N'),
        key_step(a1, a2, k2, o2),
    ensures
        a2.screen == a0.screen,
        o2.effect is None,
        a2.audio_state == a0.audio_state,
{
    if is_quit(a1, k2) {
        assert(k2.code == KeyCode::Char('n') || k2.code == KeyCode::Char('N') || k2.code == KeyCode::Esc);
    }
}

/// Enter on a stream, with a default output set, asks the backend to move
/// that stream to the default output.
pub proof fn law_enter_moves_stream_to_default(a0: App, a1: App, k: KeyEvent, o: KeyOutcome)
    requires
        a0.screen is Streams,
        a0.stream_cursor < a0.audio_state.streams@.len(),
        a0.audio_state.default_sink_name@.len() > 0,
        k.code == KeyCode::Enter,
        key_step(a0, a1, k, o),
    ensures
        o.effect matches Some(Effect::MoveStream(i, s))
            && i == a0.audio_state.streams@[a0.stream_cursor as int].index
            && s@ == a0.audio_state.default_sink_name@,
        o.needs_refresh,
        a1 == a0,
{
    assert(!is_quit(a0, k));
}

/// The sink that a combined group loads is shown as combined and never as stale.
pub proof fn law_group_sink_is_combined_and_live(
    r: AudioState,
    devs: Seq<Device>,
    groups: Seq<CombinedGroup>,
    inputs: Seq<RawSinkInput>,
    default: Seq<char>,
    k: int,
)
    requires
        assembled(r, devs, groups, inputs, default),
        0 <= k < devs.len(),
        first_named(devs, k),
        names_sink(groups, devs[k].name@),
    ensures
        r.devices@[k].device_type == DeviceType::Combined,
        status_view(r.devices@[k].status) == status_view(devs[k].status),
{
}


// ─── Creating and reading back a combined output ─────────────────────────────

/// A sink name that reads back from the module arguments: free of white
/// space, and neither starting nor ending with a double quote.
pub open spec fn plain_name(s: Seq<char>) -> bool {
    &&& forall|i: int| 0 <= i < s.len() ==> !is_white_space(#[trigger] s[i])
    &&& s.len() > 0 ==> s[0] != '"' && s.last() != '"'
}

/// A member that reads back from the `slaves=` argument: not empty, free of
/// white space and commas, and neither starting nor ending with a double quote.
pub open spec fn plain_member(s: Seq<char>) -> bool {
    &&& s.len() > 0
    &&& forall|i: int| 0 <= i < s.len() ==> !is_white_space(#[trigger] s[i]) && s[i] != ','
    &&& s[0] != '"'
    &&& s.last() != '"'
}

proof fn lemma_ws_split_extend(s: Seq<char>, t: Seq<char>)
    requires
        forall|i: int| 0 <= i < t.len() ==> !is_white_space(#[trigger] t[i]),
    ensures
        ws_split_state(s + t) == (ws_split_state(s).0, ws_split_state(s).1 + t),
    decreases t.len(),
{
    if t.len() == 0 {
        assert(s + t =~= s);
        assert(ws_split_state(s).1 + t =~= ws_split_state(s).1);
    } else {
        let u = t.drop_last();
        lemma_ws_split_extend(s, u);
        assert((s + t).drop_last() =~= s + u);
        assert((s + t).last() == t.last());
        assert(ws_split_state(s).1 + u + seq![t.last()] =~= ws_split_state(s).1 + t);
        assert((ws_split_state(s).1 + u).push(t.last()) =~= ws_split_state(s).1 + t);
    }
}

proof fn lemma_split_extend(s: Seq<char>, t: Seq<char>, sep: char)
    requires
        forall|i: int| 0 <= i < t.len() ==> #[trigger] t[i] != sep,
    ensures
        split_state(s + t, sep) == (split_state(s, sep).0, split_state(s, sep).1 + t),
    decreases t.len(),
{
    if t.len() == 0 {
        assert(s + t =~= s);
        assert(split_state(s, sep).1 + t =~= split_state(s, sep).1);
    } else {
        let u = t.drop_last();
        lemma_split_extend(s, u, sep);
        assert((s + t).drop_last() =~= s + u);
        assert((s + t).last() == t.last());
        assert((split_state(s, sep).1 + u).push(t.last()) =~= split_state(s, sep).1 + t);
    }
}

proof fn lemma_join_chars(ms: Seq<Seq<char>>)
    requires
        ms.len() > 0,
        forall|j: int| 0 <= j < ms.len() ==> plain_member(#[trigger] ms[j]),
    ensures
        join_with(ms, ","@).len() > 0,
        join_with(ms, ","@)[0] == ms[0][0],
        join_with(ms, ","@).last() == ms.last().last(),
        forall|i: int| 0 <= i < join_with(ms, ","@).len() ==> !is_white_space(#[trigger] join_with(ms, ","@)[i]),
    decreases ms.len(),
{
    reveal_strlit(",");
    if ms.len() > 1 {
        let d = ms.drop_last();
        assert forall|j: int| 0 <= j < d.len() implies plain_member(#[trigger] d[j]) by {
            assert(d[j] == ms[j]);
        }
        lemma_join_chars(d);
        let a = join_with(d, ","@);
        let j = join_with(ms, ","@);
        assert(j == a + ","@ + ms.last());
        assert(plain_member(ms.last()));
        assert(d[0] == ms[0]);
        assert(j[0] == a[0]);
        assert(j.last() == ms.last().last());
        assert forall|i: int| 0 <= i < j.len() implies !is_white_space(#[trigger] j[i]) by {
            if i < a.len() {
                assert(j[i] == a[i]);
            } else if i == a.len() {
                assert(j[i] == ',');
            } else {
                assert(j[i] == ms.last()[i - a.len() - 1]);
            }
        }
    } else {
        assert(plain_member(ms[0]));
    }
}

proof fn lemma_split_join(ms: Seq<Seq<char>>)
    requires
        ms.len() > 0,
        forall|j: int| 0 <= j < ms.len() ==> plain_member(#[trigger] ms[j]),
    ensures
        split_state(join_with(ms, ","@), ',').0.push(split_state(join_with(ms, ","@), ',').1) == ms,
    decreases ms.len(),
{
    reveal_strlit(",");
    if ms.len() == 1 {
        assert(plain_member(ms[0]));
        lemma_split_extend(Seq::empty(), ms[0], ',');
        assert(Seq::<char>::empty() + ms[0] =~= ms[0]);
        assert(Seq::<char>::empty() + ms[0] =~= ms[0]);
        assert(split_state(ms[0], ',').0 =~= Seq::<Seq<char>>::empty());
        assert(split_state(ms[0], ',').1 =~= ms[0]);
        assert(Seq::<Seq<char>>::empty().push(ms[0]) =~= ms);
    } else {
        let dl = ms.drop_last();
        assert forall|j: int| 0 <= j < dl.len() implies plain_member(#[trigger] dl[j]) by {
            assert(dl[j] == ms[j]);
        }
        lemma_split_join(dl);
        let a = join_with(dl, ","@);
        let st = split_state(a, ',');
        let b = a.push(',');
        assert(a + ","@ =~= b);
        assert(b.drop_last() =~= a);
        assert(split_state(b, ',') == (st.0.push(st.1), Seq::<char>::empty()));
        assert(plain_member(ms.last()));
        lemma_split_extend(b, ms.last(), ',');
        assert(join_with(ms, ","@) == b + ms.last());
        assert(Seq::<char>::empty() + ms.last() =~= ms.last());
        assert(dl.push(ms.last()) =~= ms);
    }
}

proof fn lemma_trim_char_plain(s: Seq<char>)
    requires
        s.len() > 0 ==> s[0] != '"' && s.last() != '"',
    ensures
        trim_char(s, '"') == s,
{
    if s.len() > 0 {
        assert(s.take(1)[0] == s[0]);
        assert(!starts_with(s, seq!['"']));
        assert(s.skip(s.len() - 1)[0] == s.last());
        assert(!ends_with(s, seq!['"']));
    } else {
        assert(!starts_with(s, seq!['"']));
        assert(!ends_with(s, seq!['"']));
    }
}

proof fn lemma_trim_ws_plain(s: Seq<char>)
    requires
        forall|i: int| 0 <= i < s.len() ==> !is_white_space(#[trigger] s[i]),
    ensures
        trim_ws(s) == s,
{
    if s.len() > 0 {
        assert(!is_white_space(s[0]));
        assert(!is_white_space(s.last()));
    }
}

/// A combined output that this tool creates is read back from the module list
/// under its sink name and with its members, for a sink name free of white
/// space and members free of white space and commas, none of them starting or
/// ending with a double quote and no member empty.
pub proof fn law_created_group_reads_back(name: Seq<char>, members: Seq<Seq<char>>, m: RawModule)
    requires
        plain_name(name),
        members.len() > 0,
        forall|j: int| 0 <= j < members.len() ==> plain_member(#[trigger] members[j]),
        m.name@ == "module-combine-sink"@,
        m.argument matches Some(a) && a@ == combine_args_text(name, members),
    ensures
        is_combine_module(m),
        group_sink_name(m) == name,
        group_members(m) == members,
{
    reveal_strlit("sink_name=");
    reveal_strlit(" slaves=");
    reveal_strlit("slaves=");
    reveal_strlit(" sink_properties=device.description=\"");
    reveal_strlit("sink_properties=device.description=\"");
    reveal_strlit("\"");
    reveal_strlit("=");
    reveal_strlit("sink_name");
    reveal_strlit("slaves");
    let j = join_with(members, ","@);
    lemma_join_chars(members);
    let p1 = "sink_name="@ + name;
    let p2 = "slaves="@ + j;
    let p3 = "sink_properties=device.description=\""@ + name + "\""@;
    let text = combine_args_text(name, members);
    assert(text =~= p1 + seq![' '] + p2 + seq![' '] + p3);
    assert forall|i: int| 0 <= i < p1.len() implies !is_white_space(#[trigger] p1[i]) by {
        if i >= 10 { assert(p1[i] == name[i - 10]); }
    }
    assert forall|i: int| 0 <= i < p2.len() implies !is_white_space(#[trigger] p2[i]) by {
        if i >= 7 { assert(p2[i] == j[i - 7]); }
    }
    assert forall|i: int| 0 <= i < p3.len() implies !is_white_space(#[trigger] p3[i]) by {
        if 36 <= i < 36 + name.len() { assert(p3[i] == name[i - 36]); }
    }
    let e = Seq::<char>::empty();
    lemma_ws_split_extend(e, p1);
    assert(e + p1 =~= p1);
    let s1 = p1.push(' ');
    assert(s1.drop_last() =~= p1);
    lemma_ws_split_extend(s1, p2);
    let s2 = (s1 + p2).push(' ');
    assert(s2.drop_last() =~= s1 + p2);
    assert(e + p2 =~= p2);
    lemma_ws_split_extend(s2, p3);
    assert(e + p3 =~= p3);
    assert(s2 + p3 =~= text);
    let parts = split_ws(text);
    assert(parts =~= seq![p1, p2, p3]);
    let ka = "sink_name"@ + "="@;
    assert(ka =~= "sink_name="@);
    assert(starts_with(p1, ka)) by {
        assert(p1.take(ka.len() as int) =~= ka);
    }
    assert(p1.skip(ka.len() as int) =~= name);
    lemma_trim_char_plain(name);
    assert(arg_in(parts, ka) == Some(name));
    let kb = "slaves"@ + "="@;
    assert(kb =~= "slaves="@);
    assert(!starts_with(p1, kb)) by {
        assert(p1.take(kb.len() as int)[1] == 'i');
        assert(kb[1] == 'l');
    }
    assert(starts_with(p2, kb)) by {
        assert(p2.take(kb.len() as int) =~= kb);
    }
    assert(p2.skip(kb.len() as int) =~= j);
    lemma_trim_char_plain(j);
    let rest = parts.drop_first();
    assert(rest =~= seq![p2, p3]);
    assert(parts[0] == p1);
    assert(rest[0] == p2);
    assert(arg_in(rest, kb) == Some(trim_char(p2.skip(kb.len() as int), '"')));
    assert(arg_in(parts, kb) == arg_in(rest, kb));
    assert(arg_in(parts, kb) == Some(j));
    lemma_split_join(members);
    assert forall|i: int| 0 <= i < members.len() implies trim_ws(#[trigger] members[i]) == members[i] by {
        assert(plain_member(members[i]));
        lemma_trim_ws_plain(members[i]);
    }
    assert(split_on(j, ',').map_values(|p: Seq<char>| trim_ws(p)) =~= members);
}


// ─── The combine wizard ──────────────────────────────────────────────────────

/// The wizard is past its first step only with two or more devices chosen,
/// and at its last step only with a valid group name as well.
pub open spec fn wizard_ok(a: App) -> bool {
    let w = a.combine_wizard;
    &&& w.step == CombineStepState::NameGroup ==> w.selected_device_indices@.len() >= 2
    &&& w.step == CombineStepState::Confirm ==> w.selected_device_indices@.len() >= 2
        && group_name_valid(w.group_name@)
    &&& at_char_boundary(w.group_name@, w.name_cursor as int)
}

proof fn lemma_insert_offset(s: Seq<char>, k: int, c: char)
    requires
        0 <= k <= s.len(),
    ensures
        byte_offset(s.insert(k, c), k + 1) == byte_offset(s, k) + char_width(c),
{
    assert(s.insert(k, c).take(k + 1) =~= s.take(k) + seq![c]);
    crate::events::lemma_encode_concat(s.take(k), seq![c]);
}

proof fn lemma_remove_offset(s: Seq<char>, k: int)
    requires
        0 <= k < s.len(),
    ensures
        byte_offset(s.remove(k), k) == byte_offset(s, k),
{
    assert(s.remove(k).take(k) =~= s.take(k));
}

/// Every key press keeps the wizard's state consistent.
pub proof fn law_keys_keep_wizard_ok(old: App, new: App, key: KeyEvent, o: KeyOutcome)
    requires
        key_step(old, new, key, o),
        wizard_ok(old),
    ensures
        wizard_ok(new),
{
    let w = old.combine_wizard;
    let name = w.group_name@;
    let cur = w.name_cursor as int;
    let nn = new.combine_wizard.group_name@;
    lemma_offset_ends(nn);
    assert(byte_offset(nn, 0) == 0);
    lemma_offset_ends(name);
    if !is_quit(old, key) && old.screen is Combine {
        if w.step == CombineStepState::SelectDevices && key.code == KeyCode::Enter
            && w.selected_device_indices@.len() >= 2 && name.len() == 0 {
            reveal_strlit("my_combined");
            let m = "my_combined"@;
            assert(vstd::utf8::is_ascii_chars(m));
            vstd::utf8::is_ascii_chars_encode_utf8(m);
            assert(byte_offset(nn, nn.len() as int) == encode_utf8(nn).len());
        } else if w.step == CombineStepState::NameGroup {
            let k = choose|k: int| 0 <= k <= name.len() && #[trigger] byte_offset(name, k) == cur;
            match key.code {
                KeyCode::Char(c) => {
                    if is_alphanumeric(c) || c == '_' || c == '-' {
                        lemma_insert_offset(name, k, c);
                        assert(byte_offset(nn, k + 1) == new.combine_wizard.name_cursor);
                    }
                },
                KeyCode::Backspace => {
                    if cur > 0 {
                        lemma_remove_offset(name, k - 1);
                        assert(byte_offset(nn, k - 1) == new.combine_wizard.name_cursor);
                    }
                },
                KeyCode::Left => {
                    if cur > 0 {
                        assert(byte_offset(name, k - 1) == new.combine_wizard.name_cursor);
                    }
                },
                KeyCode::Right => {
                    if k < name.len() {
                        assert(byte_offset(name, k + 1) == new.combine_wizard.name_cursor);
                    }
                },
                _ => {},
            }
        }
    }
}

/// A wizard at its start is consistent, and a refresh leaves the wizard as it
/// was.
pub proof fn law_wizard_ok_at_start_and_after_refresh(a: App, old: App, new: App, state: AudioState)
    requires
        fresh_wizard(a.combine_wizard),
        refreshed(old, new, state),
    ensures
        wizard_ok(a),
        new.combine_wizard == old.combine_wizard,
        wizard_ok(new) == wizard_ok(old),
{
    lemma_offset_ends(a.combine_wizard.group_name@);
    assert(byte_offset(a.combine_wizard.group_name@, 0) == 0);
}

/// While the wizard is consistent, editing its name never fails: every key
/// meets what `handle_key` asks (for a name whose bytes leave room for one
/// more character in `usize`).
pub proof fn law_wizard_keys_always_accepted(a: App, key: KeyEvent)
    requires
        wizard_ok(a),
        encode_utf8(a.combine_wizard.group_name@).len() + 4 <= usize::MAX,
    ensures
        key_ok(a, key),
{
    let name = a.combine_wizard.group_name@;
    let cur = a.combine_wizard.name_cursor as int;
    let k = choose|k: int| 0 <= k <= name.len() && #[trigger] byte_offset(name, k) == cur;
    crate::events::lemma_offset_mono(name, k, name.len() as int);
    lemma_offset_ends(name);
    if let KeyCode::Char(c) = key.code {
        crate::events::lemma_char_width(c);
    }
}

/// A combined output is only ever requested from the wizard's last step, with
/// at least two devices chosen and a valid group name.
pub proof fn law_create_needs_two_devices_and_valid_name(old: App, new: App, key: KeyEvent, o: KeyOutcome)
    requires
        key_step(old, new, key, o),
        wizard_ok(old),
        o.effect == Some(Effect::CreateCombined),
    ensures
        old.screen is Combine,
        old.combine_wizard.step == CombineStepState::Confirm,
        old.combine_wizard.selected_device_indices@.len() >= 2,
        group_name_valid(old.combine_wizard.group_name@),
{
}

/// The sink name made for a group starts with `combined_` and holds nothing
/// but letters, digits and `_` after it.
pub proof fn law_sink_name_is_safe(group_name: Seq<char>)
    ensures
        starts_with(sink_name_for(group_name), "combined_"@),
        forall|i: int| 9 <= i < sink_name_for(group_name).len() ==> {
            let c = #[trigger] sink_name_for(group_name)[i];
            is_alphanumeric(c) || c == '_'
        },
{
    reveal_strlit("combined_");
    let s = sink_name_for(group_name);
    let p = "combined_"@;
    let tail = lowercase(trim_ws(group_name)).map_values(|c: char| sink_char(c));
    assert(s == p + tail);
    assert(s.take(p.len() as int) =~= p);
    assert forall|i: int| 9 <= i < s.len() implies {
        let c = #[trigger] s[i];
        is_alphanumeric(c) || c == '_'
    } by {
        assert(s[i] == tail[i - 9]);
    }
}

/// A combined device that no loaded group names is shown as stale.
pub proof fn law_stale_combined_is_marked(
    r: AudioState,
    devs: Seq<Device>,
    groups: Seq<CombinedGroup>,
    inputs: Seq<RawSinkInput>,
    default: Seq<char>,
    k: int,
)
    requires
        assembled(r, devs, groups, inputs, default),
        0 <= k < r.devices@.len(),
        r.devices@[k].device_type == DeviceType::Combined,
        !names_sink(groups, r.devices@[k].name@),
    ensures
        status_view(r.devices@[k].status) == StatusView::Error(stale_message()),
{
    assert(same_identity(r.devices@[k], devs[k]));
}


/// Every volume in a snapshot lies in 0–100, whatever `pactl` reported.
pub proof fn law_snapshot_volumes_in_range(
    r: AudioState,
    d: Seq<Device>,
    g: Seq<CombinedGroup>,
    sinks: Seq<RawSink>,
    inputs: Seq<RawSinkInput>,
    default: Seq<char>,
)
    requires
        sinks_parsed(d, sinks, default),
        assembled(r, d, g, inputs, default),
    ensures
        forall|k: int| 0 <= k < r.devices@.len() ==> (#[trigger] r.devices@[k]).volume.unwrap_or(0) <= 100,
        forall|k: int| 0 <= k < r.streams@.len() ==> (#[trigger] r.streams@[k]).volume.unwrap_or(0) <= 100,
{
    assert forall|k: int| 0 <= k < r.devices@.len() implies (#[trigger] r.devices@[k]).volume.unwrap_or(0) <= 100 by {
        assert(same_identity(r.devices@[k], d[k]));
        assert(device_from_sink(d[k], sinks[k], default));
    }
    assert forall|k: int| 0 <= k < r.streams@.len() implies (#[trigger] r.streams@[k]).volume.unwrap_or(0) <= 100 by {
        assert(stream_from_input(r.streams@[k], inputs[k], r.devices@));
    }
}


proof fn lemma_member_group(gs: Seq<CombinedGroup>, name: Seq<char>)
    ensures
        member_group(gs, name) matches Some(id) ==> exists|i: int| 0 <= i < gs.len()
            && (#[trigger] gs[i]).module_index == id && lists_member(gs[i], name),
        (exists|i: int| 0 <= i < gs.len() && lists_member(#[trigger] gs[i], name)) ==> member_group(gs, name) is Some,
    decreases gs.len(),
{
    if gs.len() > 0 {
        let d = gs.drop_last();
        lemma_member_group(d, name);
        assert forall|i: int| 0 <= i < d.len() implies #[trigger] d[i] == gs[i] by {}
        if !lists_member(gs.last(), name) {
            if exists|i: int| 0 <= i < gs.len() && lists_member(#[trigger] gs[i], name) {
                let i = choose|i: int| 0 <= i < gs.len() && lists_member(#[trigger] gs[i], name);
                assert(i < d.len());
                assert(lists_member(d[i], name));
            }
            if member_group(gs, name) is Some {
                let i = choose|i: int| 0 <= i < d.len()
                    && (#[trigger] d[i]).module_index == member_group(d, name)->0 && lists_member(d[i], name);
                assert(gs[i] == d[i]);
            }
        } else {
            assert(gs[gs.len() - 1] == gs.last());
        }
    }
}

/// The group mark of a device names a loaded group that lists the device, and
/// the first device of a name that some loaded group lists carries a mark.
pub proof fn law_member_marks_name_their_group(
    r: AudioState,
    devs: Seq<Device>,
    groups: Seq<CombinedGroup>,
    inputs: Seq<RawSinkInput>,
    default: Seq<char>,
    k: int,
)
    requires
        assembled(r, devs, groups, inputs, default),
        0 <= k < devs.len(),
        devs[k].combined_group_id is None,
    ensures
        r.devices@[k].combined_group_id matches Some(id) ==> exists|i: int| 0 <= i < r.combined_groups@.len()
            && (#[trigger] r.combined_groups@[i]).module_index == id
            && lists_member(r.combined_groups@[i], r.devices@[k].name@),
        first_named(devs, k) && (exists|i: int| 0 <= i < r.combined_groups@.len()
            && lists_member(#[trigger] r.combined_groups@[i], r.devices@[k].name@))
            ==> r.devices@[k].combined_group_id is Some,
{
    assert(same_identity(r.devices@[k], devs[k]));
    lemma_member_group(r.combined_groups@, devs[k].name@);
}


/// The argument list that `create_combined_sink_command` builds, once
/// `pactl` lists the module it loads, reads back through
/// `parse_combined_groups` as one group with that sink name and those
/// members, neither default nor inactive (for names and members as in
/// `law_created_group_reads_back`).
pub proof fn law_create_command_parses_back(
    name: Seq<char>,
    members: Seq<String>,
    args: Seq<String>,
    m: RawModule,
    gs: Seq<CombinedGroup>,
)
    requires
        plain_name(name),
        members.len() > 0,
        forall|j: int| 0 <= j < members.len() ==> plain_member(#[trigger] members[j]@),
        args_view(args) == seq![
            "load-module"@,
            "module-combine-sink"@,
            combine_args_text(name, strings_of(members)),
        ],
        args.len() == 3,
        m.name@ == args[1]@,
        m.argument matches Some(a) && a@ == args[2]@,
        gs.len() == filter_seq(seq![m], |x: RawModule| is_combine_module(x)).len(),
        forall|i: int| 0 <= i < gs.len()
            ==> group_from_module(#[trigger] gs[i], filter_seq(seq![m], |x: RawModule| is_combine_module(x))[i]),
    ensures
        gs.len() == 1,
        gs[0].sink_name@ == name,
        strings_of(gs[0].members@) == strings_of(members),
        !gs[0].is_default,
        gs[0].is_active,
{
    let ms = strings_of(members);
    assert(args_view(args).len() == 3);
    assert(args.len() == 3);
    assert(args_view(args)[1] == args[1]@);
    assert(args_view(args)[2] == args[2]@);
    assert forall|j: int| 0 <= j < ms.len() implies plain_member(#[trigger] ms[j]) by {
        assert(ms[j] == members[j]@);
    }
    law_created_group_reads_back(name, ms, m);
    let one = seq![m];
    let f = |x: RawModule| is_combine_module(x);
    assert(one.drop_last() =~= Seq::<RawModule>::empty());
    assert(filter_seq(one.drop_last(), f) =~= Seq::<RawModule>::empty());
    assert(filter_seq(one, f) =~= seq![m]);
    assert(group_from_module(gs[0], m));
}


/// On the stream list, `M` opens the move-all confirmation, and cancelling it
/// goes back to the stream list with nothing run and nothing else changed.
pub proof fn law_stream_move_all_cancelled(
    a0: App,
    a1: App,
    a2: App,
    k1: KeyCode,
    k2: KeyCode,
    action: ConfirmAction,
    o1: KeyOutcome,
    o2: KeyOutcome,
)
    requires
        a0.screen is Streams,
        k1 == KeyCode::Char('M') || k1 == KeyCode::Char('m'),
        streams_step(a0, a1, k1, o1),
        a1.screen == Screen::Confirm(action),
        k2 == KeyCode::Esc || k2 == KeyCode::Char('n') || k2 == KeyCode::Char('N'),
        confirm_step(a1, a2, k2, action, o2),
    ensures
        a2.screen is Streams,
        o1.effect is None,
        o2.effect is None,
        a2 == (App { screen: Screen::Streams, previous_screen: Screen::Streams, ..a0 }),
{
}


// ─── What single operations do ───────────────────────────────────────────────

/// `r` on the device list, with a suspended device selected, asks to resume
/// exactly that device: the effect names the device's own position in the
/// full device list, whatever filter is applied.
pub proof fn law_resume_names_the_selected_device(old: App, new: App, key: KeyEvent, o: KeyOutcome)
    requires
        key_step(old, new, key, o),
        old.screen is Devices,
        !old.filter_active,
        key.code == KeyCode::Char('r'),
        old.device_cursor < filtered_view(old).len(),
        filtered_view(old)[old.device_cursor as int].1.status is Suspended,
    ensures
        o.effect matches Some(Effect::ResumeDevice(k)) && k < old.audio_state.devices@.len()
            && old.audio_state.devices@[k as int] == filtered_view(old)[old.device_cursor as int].1
            && old.audio_state.devices@[k as int].status is Suspended,
        o.needs_refresh,
        new == old,
{
    let devs = old.audio_state.devices@;
    lemma_matching_entries(devs, lowercase(old.filter_text@), devs.len() as int);
    assert(filtered_view(old)[old.device_cursor as int] == matching_devices(devs, lowercase(old.filter_text@), devs.len() as int)[old.device_cursor as int]);
    assert(!is_quit(old, key));
    assert(old.audio_state.devices.len() == devs.len());
}

/// `r` on the device list never asks to resume a device that is not
/// suspended, nor anything when nothing is selected.
pub proof fn law_resume_only_suspended(old: App, new: App, key: KeyEvent, o: KeyOutcome)
    requires
        key_step(old, new, key, o),
        old.screen is Devices,
        !old.filter_active,
        key.code == KeyCode::Char('r'),
        !(old.device_cursor < filtered_view(old).len()
            && filtered_view(old)[old.device_cursor as int].1.status is Suspended),
    ensures
        o.effect is None,
        new == old,
{
    assert(!is_quit(old, key));
}

/// On the wizard's last step, `d` or `D` flips whether the new output will be
/// made the default, and changes nothing else; pressing it twice restores the
/// option.
pub proof fn law_confirm_step_d_flips_default(a0: App, a1: App, a2: App, k1: KeyEvent, k2: KeyEvent, o1: KeyOutcome, o2: KeyOutcome)
    requires
        a0.screen is Combine,
        a0.combine_wizard.step == CombineStepState::Confirm,
        k1.code == KeyCode::Char('d') || k1.code == KeyCode::Char('D'),
        k2.code == KeyCode::Char('d') || k2.code == KeyCode::Char('D'),
        key_step(a0, a1, k1, o1),
        key_step(a1, a2, k2, o2),
    ensures
        a1.combine_wizard.set_as_default != a0.combine_wizard.set_as_default,
        a1.combine_wizard.step == a0.combine_wizard.step,
        a1.combine_wizard.move_streams == a0.combine_wizard.move_streams,
        a1.combine_wizard.group_name == a0.combine_wizard.group_name,
        a1.combine_wizard.selected_device_indices == a0.combine_wizard.selected_device_indices,
        a1.screen == a0.screen,
        a1.audio_state == a0.audio_state,
        o1.effect is None,
        a2.combine_wizard.set_as_default == a0.combine_wizard.set_as_default,
{
    assert(!is_quit(a0, k1));
    assert(!is_quit(a1, k2));
}

/// On the wizard's last step, Tab flips whether the streams will be moved to
/// the new output, and changes nothing else.
pub proof fn law_confirm_step_tab_flips_move(a0: App, a1: App, k: KeyEvent, o: KeyOutcome)
    requires
        a0.screen is Combine,
        a0.combine_wizard.step == CombineStepState::Confirm,
        k.code == KeyCode::Tab,
        key_step(a0, a1, k, o),
    ensures
        a1.combine_wizard.move_streams != a0.combine_wizard.move_streams,
        a1.combine_wizard.set_as_default == a0.combine_wizard.set_as_default,
        a1.combine_wizard.step == a0.combine_wizard.step,
        a1.screen == a0.screen,
        o.effect is None,
{
    assert(!is_quit(a0, k));
}

/// Up and Down move the selection on the stream list by one entry, stopping
/// at the first and the last stream.
pub proof fn law_stream_cursor_moves_by_one(old: App, new: App, key: KeyEvent, o: KeyOutcome)
    requires
        key_step(old, new, key, o),
        old.screen is Streams,
        key.code == KeyCode::Up || key.code == KeyCode::Char('k')
            || key.code == KeyCode::Down || key.code == KeyCode::Char('j'),
    ensures
        (key.code == KeyCode::Up || key.code == KeyCode::Char('k')) ==>
            new.stream_cursor == (if old.stream_cursor > 0 { old.stream_cursor - 1 } else { 0 }),
        (key.code == KeyCode::Down || key.code == KeyCode::Char('j')) ==>
            new.stream_cursor == (if old.stream_cursor + 1 < old.audio_state.streams@.len() {
                old.stream_cursor + 1
            } else {
                old.stream_cursor as int
            }),
        new == (App { stream_cursor: new.stream_cursor, ..old }),
        o.effect is None,
{
    assert(!is_quit(old, key));
    assert(old.audio_state.streams.len() == old.audio_state.streams@.len());
}

/// Up and Down move the selection on the (filtered) device list by one entry,
/// stopping at the first and the last entry shown.
pub proof fn law_device_cursor_moves_by_one(old: App, new: App, key: KeyEvent, o: KeyOutcome)
    requires
        key_step(old, new, key, o),
        old.screen is Devices,
        !old.filter_active,
        key.code == KeyCode::Up || key.code == KeyCode::Char('k')
            || key.code == KeyCode::Down || key.code == KeyCode::Char('j'),
    ensures
        (key.code == KeyCode::Up || key.code == KeyCode::Char('k')) ==>
            new.device_cursor == (if old.device_cursor > 0 { old.device_cursor - 1 } else { 0 }),
        (key.code == KeyCode::Down || key.code == KeyCode::Char('j')) ==>
            new.device_cursor == (if old.device_cursor + 1 < filtered_view(old).len() {
                old.device_cursor + 1
            } else {
                old.device_cursor as int
            }),
        new == (App { device_cursor: new.device_cursor, ..old }),
        o.effect is None,
{
    assert(!is_quit(old, key));
    lemma_matching_entries(old.audio_state.devices@, lowercase(old.filter_text@), old.audio_state.devices@.len() as int);
    assert(old.audio_state.devices.len() == old.audio_state.devices@.len());
}

/// A device read from a sink entry keeps the entry's index, name and
/// description, is the default exactly when its name is the default sink's,
/// is muted exactly when the entry says `mute: true`, belongs to no group yet,
/// and has the entry's volume, at most 100.
pub proof fn law_sinks_read_as_reported(r: Seq<Device>, raw: Seq<RawSink>, default: Seq<char>)
    requires
        r.len() == raw.len(),
        forall|i: int| 0 <= i < raw.len() ==> device_from_sink(#[trigger] r[i], raw[i], default),
    ensures
        forall|i: int| 0 <= i < raw.len() ==> {
            &&& (#[trigger] r[i]).index == raw[i].index
            &&& r[i].name@ == raw[i].name@
            &&& r[i].description@ == raw[i].description@
            &&& r[i].is_default == (raw[i].name@ == default)
            &&& (r[i].muted <==> raw[i].mute == Some(true))
            &&& (raw[i].mute == Some(false) || raw[i].mute is None) ==> !r[i].muted
            &&& r[i].combined_group_id is None
            &&& (raw[i].volume is None <==> r[i].volume is None)
            &&& raw[i].volume matches Some(v) ==> r[i].volume == Some(if v <= 100 { v } else { 100u8 })
        },
{
    assert forall|i: int| 0 <= i < raw.len() implies {
        &&& (#[trigger] r[i]).index == raw[i].index
        &&& r[i].name@ == raw[i].name@
        &&& r[i].description@ == raw[i].description@
        &&& r[i].is_default == (raw[i].name@ == default)
        &&& (r[i].muted <==> raw[i].mute == Some(true))
        &&& (raw[i].mute == Some(false) || raw[i].mute is None) ==> !r[i].muted
        &&& r[i].combined_group_id is None
        &&& (raw[i].volume is None <==> r[i].volume is None)
        &&& raw[i].volume matches Some(v) ==> r[i].volume == Some(if v <= 100 { v } else { 100u8 })
    } by {
        assert(device_from_sink(r[i], raw[i], default));
    }
}

/// A device read from a sink entry is running, idle or suspended as its state
/// says, in any letter case, and idle for any other state. It is a combined
/// output whenever its name contains `combined` or starts with `combine`, or
/// its driver mentions `combine`, and only when some such hint (or a
/// combine-sink property) is present; an entry with no driver, no properties
/// and no telling name or description is a physical device.
pub proof fn law_sink_status_and_kind(r: Seq<Device>, raw: Seq<RawSink>, default: Seq<char>)
    requires
        r.len() == raw.len(),
        forall|i: int| 0 <= i < raw.len() ==> device_from_sink(#[trigger] r[i], raw[i], default),
    ensures
        forall|i: int| 0 <= i < raw.len() ==> {
            let st = lowercase(raw[i].state@);
            let name = raw[i].name@;
            &&& st == "running"@ ==> (#[trigger] r[i]).status is Running
            &&& st == "idle"@ ==> r[i].status is Idle
            &&& st == "suspended"@ ==> r[i].status is Suspended
            &&& (st != "running"@ && st != "suspended"@) ==> r[i].status is Idle
            &&& (contains(name, "combined"@) || starts_with(name, "combine"@)) ==> r[i].device_type == DeviceType::Combined
            &&& (raw[i].driver matches Some(d) && contains(d@, "combine"@)) ==> r[i].device_type == DeviceType::Combined
            &&& r[i].device_type == DeviceType::Combined ==> (contains(name, "combined"@) || starts_with(name, "combine"@)
                || (raw[i].driver matches Some(d) && (contains(d@, "combine"@) || contains(d@, "module-combine"@)))
                || (raw[i].properties matches Some(p) && (p.combine_sink is Some || p.combine_sink_names is Some)))
            &&& (raw[i].driver is None && raw[i].properties is None && !contains(name, "combined"@)
                && !starts_with(name, "combine"@) && !contains(name, "bluez"@) && !contains(name, "null"@)
                && !contains(name, "virtual"@) && !contains(lowercase(raw[i].description@), "bluetooth"@))
                ==> r[i].device_type == DeviceType::Physical
        },
{
    assert forall|i: int| 0 <= i < raw.len() implies {
        let st = lowercase(raw[i].state@);
        let name = raw[i].name@;
        &&& st == "running"@ ==> (#[trigger] r[i]).status is Running
        &&& st == "idle"@ ==> r[i].status is Idle
        &&& st == "suspended"@ ==> r[i].status is Suspended
        &&& (st != "running"@ && st != "suspended"@) ==> r[i].status is Idle
        &&& (contains(name, "combined"@) || starts_with(name, "combine"@)) ==> r[i].device_type == DeviceType::Combined
        &&& (raw[i].driver matches Some(d) && contains(d@, "combine"@)) ==> r[i].device_type == DeviceType::Combined
        &&& r[i].device_type == DeviceType::Combined ==> (contains(name, "combined"@) || starts_with(name, "combine"@)
            || (raw[i].driver matches Some(d) && (contains(d@, "combine"@) || contains(d@, "module-combine"@)))
            || (raw[i].properties matches Some(p) && (p.combine_sink is Some || p.combine_sink_names is Some)))
        &&& (raw[i].driver is None && raw[i].properties is None && !contains(name, "combined"@)
            && !starts_with(name, "combine"@) && !contains(name, "bluez"@) && !contains(name, "null"@)
            && !contains(name, "virtual"@) && !contains(lowercase(raw[i].description@), "bluetooth"@))
            ==> r[i].device_type == DeviceType::Physical
    } by {
        reveal_strlit("running");
        reveal_strlit("idle");
        reveal_strlit("suspended");
        assert("suspended"@.len() == 9 && "running"@.len() == 7 && "idle"@.len() == 4);
        assert(device_from_sink(r[i], raw[i], default));
    }
}

/// A stream read from a sink-input entry keeps the entry's index and sink
/// index, is muted exactly when the entry says `mute: true`, is named after
/// the application (`Unknown App` when none is given), is routed to the name
/// of the first device with its sink index (empty when there is none), and
/// has the entry's volume, at most 100.
pub proof fn law_sink_inputs_read_as_reported(r: Seq<Stream>, raw: Seq<RawSinkInput>, devices: Seq<Device>)
    requires
        r.len() == raw.len(),
        forall|i: int| 0 <= i < raw.len() ==> stream_from_input(#[trigger] r[i], raw[i], devices),
    ensures
        forall|i: int| 0 <= i < raw.len() ==> {
            &&& (#[trigger] r[i]).index == raw[i].index
            &&& r[i].sink_index == raw[i].sink_index
            &&& (r[i].muted <==> raw[i].mute == Some(true))
            &&& (raw[i].mute == Some(false) || raw[i].mute is None) ==> !r[i].muted
            &&& (raw[i].properties is Some && raw[i].properties.unwrap().application_name is Some)
                ==> r[i].application_name@ == raw[i].properties.unwrap().application_name.unwrap()@
            &&& !(raw[i].properties is Some && raw[i].properties.unwrap().application_name is Some)
                ==> r[i].application_name@ == "Unknown App"@
            &&& (forall|j: int| 0 <= j < devices.len() ==> (#[trigger] devices[j]).index != raw[i].sink_index)
                ==> r[i].sink_name@.len() == 0
            &&& (raw[i].volume is None <==> r[i].volume is None)
            &&& raw[i].volume matches Some(v) ==> r[i].volume == Some(if v <= 100 { v } else { 100u8 })
        },
{
    assert forall|i: int| 0 <= i < raw.len() implies {
        &&& (#[trigger] r[i]).index == raw[i].index
        &&& r[i].sink_index == raw[i].sink_index
        &&& (r[i].muted <==> raw[i].mute == Some(true))
        &&& (raw[i].mute == Some(false) || raw[i].mute is None) ==> !r[i].muted
        &&& (raw[i].properties is Some && raw[i].properties.unwrap().application_name is Some)
            ==> r[i].application_name@ == raw[i].properties.unwrap().application_name.unwrap()@
        &&& !(raw[i].properties is Some && raw[i].properties.unwrap().application_name is Some)
            ==> r[i].application_name@ == "Unknown App"@
        &&& (forall|j: int| 0 <= j < devices.len() ==> (#[trigger] devices[j]).index != raw[i].sink_index)
            ==> r[i].sink_name@.len() == 0
        &&& (raw[i].volume is None <==> r[i].volume is None)
        &&& raw[i].volume matches Some(v) ==> r[i].volume == Some(if v <= 100 { v } else { 100u8 })
    } by {
        assert(stream_from_input(r[i], raw[i], devices));
        if forall|j: int| 0 <= j < devices.len() ==> (#[trigger] devices[j]).index != raw[i].sink_index {
            crate::models::lemma_first_where_none(devices, |d: Device| d.index == raw[i].sink_index);
        }
    }
}


/// On the home screen `d`, `s`, `c` and `?`/F1 open the device list, the
/// stream list, a fresh combine wizard and the help screen, and `r`/F5 asks
/// for a refresh; none of them changes the snapshot.
pub proof fn law_home_keys(old: App, new: App, key: KeyEvent, o: KeyOutcome)
    requires
        key_step(old, new, key, o),
        old.screen is Home,
        !(key.code == KeyCode::Char('q') || key.code == KeyCode::Char('c')) || key.modifiers.shift
            || key.modifiers.alt || key.modifiers.super_key || key.modifiers.hyper || key.modifiers.meta
            || (key.code == KeyCode::Char('q') && key.modifiers.control)
            || (key.code == KeyCode::Char('c') && !key.modifiers.control),
    ensures
        (key.code == KeyCode::Char('d') || key.code == KeyCode::Char('D')) ==> new.screen is Devices && o.effect is None,
        (key.code == KeyCode::Char('s') || key.code == KeyCode::Char('S')) ==> new.screen is Streams && o.effect is None,
        (key.code == KeyCode::Char('c') || key.code == KeyCode::Char('C')) ==> {
            &&& new.screen is Combine
            &&& new.combine_wizard.step == CombineStepState::SelectDevices
            &&& new.combine_wizard.selected_device_indices@.len() == 0
            &&& new.combine_wizard.group_name@.len() == 0
            &&& o.effect is None
        },
        (key.code == KeyCode::Char('?') || key.code == KeyCode::F(1)) ==> new.screen is Help && o.effect is None,
        (key.code == KeyCode::Char('r') || key.code == KeyCode::F(5)) ==> new == old && o.effect == Some(Effect::Refresh),
        new.audio_state == old.audio_state,
{
}

/// `q` alone, or Control-C, quits from every screen but while the filter or
/// the group name is being typed, and changes nothing else.
pub proof fn law_quit_keys(old: App, new: App, key: KeyEvent, o: KeyOutcome)
    requires
        key_step(old, new, key, o),
        !old.filter_active,
        old.combine_wizard.step != CombineStepState::NameGroup,
        (key.code == KeyCode::Char('q') && !key.modifiers.shift && !key.modifiers.control && !key.modifiers.alt
            && !key.modifiers.super_key && !key.modifiers.hyper && !key.modifiers.meta)
        || (key.code == KeyCode::Char('c') && !key.modifiers.shift && key.modifiers.control && !key.modifiers.alt
            && !key.modifiers.super_key && !key.modifiers.hyper && !key.modifiers.meta),
    ensures
        new.should_quit,
        new == (App { should_quit: true, ..old }),
        o.effect is None,
{
}

/// While the filter is typed, a character is added to its end and Backspace
/// takes its last character off, both putting the cursor at the top; Esc and
/// Enter close the filter and keep its text.
pub proof fn law_filter_typing(old: App, new: App, key: KeyEvent, o: KeyOutcome)
    requires
        key_step(old, new, key, o),
        old.screen is Devices,
        old.filter_active,
    ensures
        key.code matches KeyCode::Char(c) ==> (new.filter_text@ == old.filter_text@ + seq![c]
            && new.device_cursor == 0 && new.filter_active),
        key.code == KeyCode::Backspace ==> new.filter_text@ == old.filter_text@.take(
            if old.filter_text@.len() > 0 { old.filter_text@.len() - 1 } else { 0 }) && new.device_cursor == 0,
        (key.code == KeyCode::Esc || key.code == KeyCode::Enter) ==> !new.filter_active
            && new.filter_text == old.filter_text && new.screen is Devices,
        new.audio_state == old.audio_state,
        o.effect is None,
{
    if key.code == KeyCode::Backspace && old.filter_text@.len() > 0 {
        assert(old.filter_text@.drop_last() =~= old.filter_text@.take(old.filter_text@.len() - 1));
    }
    if key.code == KeyCode::Backspace && old.filter_text@.len() == 0 {
        assert(old.filter_text@ =~= old.filter_text@.take(0));
    }
}

/// On the wizard's first step Space adds the device under the cursor to the
/// selection or takes it out; Enter goes on to naming only with two or more
/// devices chosen, and otherwise stays and warns; Esc goes home.
pub proof fn law_select_step_keys(old: App, new: App, key: KeyEvent, o: KeyOutcome)
    requires
        key_step(old, new, key, o),
        old.screen is Combine,
        old.combine_wizard.step == CombineStepState::SelectDevices,
        !(key.code == KeyCode::Char('q') || key.code == KeyCode::Char('c')),
    ensures
        key.code == KeyCode::Char(' ') ==> {
            &&& new.combine_wizard.selected_device_indices@.contains(old.device_cursor)
                != old.combine_wizard.selected_device_indices@.contains(old.device_cursor)
            &&& forall|i: usize| i != old.device_cursor ==>
                (new.combine_wizard.selected_device_indices@.contains(i)
                    == old.combine_wizard.selected_device_indices@.contains(i))
            &&& new.screen is Combine
        },
        key.code == KeyCode::Enter ==> (new.combine_wizard.step == CombineStepState::NameGroup
            <==> old.combine_wizard.selected_device_indices@.len() >= 2),
        (key.code == KeyCode::Enter && old.combine_wizard.selected_device_indices@.len() < 2)
            ==> (new.notification matches Some(n) && n.level == NotificationLevel::Warning),
        key.code == KeyCode::Esc ==> new.screen is Home,
        o.effect is None,
        new.audio_state == old.audio_state,
{
    assert(!is_quit(old, key));
}

/// On the naming step Esc goes back to choosing devices, Enter goes on only
/// with a valid name, and Tab flips the default option.
pub proof fn law_name_step_keys(old: App, new: App, key: KeyEvent, o: KeyOutcome)
    requires
        key_step(old, new, key, o),
        old.screen is Combine,
        old.combine_wizard.step == CombineStepState::NameGroup,
    ensures
        key.code == KeyCode::Esc ==> new.combine_wizard.step == CombineStepState::SelectDevices
            && new.combine_wizard.group_name == old.combine_wizard.group_name,
        key.code == KeyCode::Enter ==> (new.combine_wizard.step == CombineStepState::Confirm
            <==> group_name_valid(old.combine_wizard.group_name@)),
        key.code == KeyCode::Tab ==> new.combine_wizard.set_as_default != old.combine_wizard.set_as_default
            && new.combine_wizard.group_name == old.combine_wizard.group_name,
        !new.should_quit || old.should_quit,
        o.effect is None,
        new.audio_state == old.audio_state,
{
}

/// On the wizard's last step Esc goes back to naming, Enter or `y` asks for
/// the combined output to be created, and `n` goes home without it.
pub proof fn law_confirm_step_keys(old: App, new: App, key: KeyEvent, o: KeyOutcome)
    requires
        key_step(old, new, key, o),
        old.screen is Combine,
        old.combine_wizard.step == CombineStepState::Confirm,
        key.code != KeyCode::Char('q') && key.code != KeyCode::Char('c'),
    ensures
        key.code == KeyCode::Esc ==> new.combine_wizard.step == CombineStepState::NameGroup && o.effect is None,
        (key.code == KeyCode::Enter || key.code == KeyCode::Char('y') || key.code == KeyCode::Char('Y'))
            ==> o.effect == Some(Effect::CreateCombined) && new == old,
        (key.code == KeyCode::Char('n') || key.code == KeyCode::Char('N')) ==> new.screen is Home && o.effect is None,
        o.effect is Some ==> o.effect == Some(Effect::CreateCombined),
{
    assert(!is_quit(old, key));
}

/// On the help screen Esc and `?` go home, and so does `q` where it does not
/// quit; nothing there asks for an action.
pub proof fn law_help_keys(old: App, new: App, key: KeyEvent, o: KeyOutcome)
    requires
        key_step(old, new, key, o),
        old.screen is Help,
    ensures
        (key.code == KeyCode::Esc || key.code == KeyCode::Char('?')) ==> new.screen is Home,
        key.code == KeyCode::Char('q') ==> new.screen is Home || new.should_quit,
        o.effect is None,
        new.audio_state == old.audio_state,
{
}

/// In the output picker Enter asks to move the picked stream to the device
/// under the picker's cursor, and goes back to the stream list.
pub proof fn law_picker_moves_stream(old: App, new: App, key: KeyEvent, o: KeyOutcome, si: u32, c: usize)
    requires
        key_step(old, new, key, o),
        old.screen == (Screen::SelectDevice { stream_index: si, cursor: c }),
        key.code == KeyCode::Enter,
        c < old.audio_state.devices@.len(),
    ensures
        (o.effect matches Some(Effect::MoveStream(i, s)) && i == si && s@ == old.audio_state.devices@[c as int].name@),
        new.screen is Streams,
{
    assert(!is_quit(old, key));
}

} // verus!
