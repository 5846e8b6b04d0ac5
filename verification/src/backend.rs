//! What the backend asks of `pactl` and what it makes of the answers.
//!
//! Running `pactl` is I/O and happens outside this library; here are the
//! argument lists of each command, the reading of command output, and the
//! assembly of a full audio snapshot from what the queries returned.

use vstd::prelude::*;
use crate::text::{
    append_chars, chars_of, decimal, join, join_with, push_decimal, seqs_of, string_from_chars,
    trim, trim_ws, lines_of, decimal_string, cat, cat3,
};
use crate::models::{
    copy_string, first_where, now, position_by_name, status_view, str_eq, AudioState,
    CombinedGroup, Device, DeviceStatus, DeviceType, StatusView, Stream, filter_seq,
};
use crate::parser::{
    field_in, find_field, parse_combined_groups, parse_default_sink, parse_sink_inputs,
    parse_sinks, parse_u32, strings_of, RawModule, RawSink, RawSinkInput, default_sink_in,
    stream_from_input, device_from_sink, group_from_module, is_combine_module,
};
use crate::text::parse_unsigned;

verus! {

/// The audio backend; every operation is one `pactl` invocation.
pub struct AudioBackend;

/// Errors that the backend detects before or after running `pactl`.
#[derive(Debug, Clone, Copy, PartialEq, Eq, Structural)]
pub enum BackendError {
    /// A combined sink needs at least one member.
    NoMembers,
    /// `load-module` printed something other than a module index.
    UnexpectedModuleOutput,
}

/// The characters of each string of an argument list.
pub open spec fn args_view(v: Seq<String>) -> Seq<Seq<char>> {
    v.map_values(|s: String| s@)
}

fn lit(s: &str) -> (r: String)
    ensures
        r@ == s@,
{
    s.to_owned()
}


/// The argument string of `load-module module-combine-sink`.
pub open spec fn combine_args_text(sink_name: Seq<char>, members: Seq<Seq<char>>) -> Seq<char> {
    "sink_name="@ + sink_name + " slaves="@ + join_with(members, ","@)
        + " sink_properties=device.description=\""@ + sink_name + "\""@
}

/// The server name that `pactl info` reports, or a generic name.
pub open spec fn server_name_in(info: Seq<char>) -> Seq<char> {
    match field_in(lines_of(info), "Server Name:"@) {
        Some(v) => v,
        None => "PipeWire/PulseAudio (details unavailable)"@,
    }
}

/// The volume argument for a percentage, capped at 100.
pub open spec fn volume_arg(percent: u8) -> Seq<char> {
    decimal((if percent < 100 { percent } else { 100u8 }) as nat) + "%"@
}

impl AudioBackend {
    pub fn new() -> (r: Self) {
        AudioBackend
    }

    /// `pactl set-default-sink <sink>`
    pub fn set_default_sink_command(&self, sink_name: &str) -> (r: Vec<String>)
        ensures
            args_view(r@) == seq!["set-default-sink"@, sink_name@],
    {
        let mut r: Vec<String> = Vec::new();
        r.push(lit("set-default-sink"));
        r.push(lit(sink_name));
        assert(args_view(r@) =~= seq!["set-default-sink"@, sink_name@]);
        r
    }

    /// `pactl move-sink-input <stream> <sink>`
    pub fn move_stream_command(&self, stream_index: u32, sink_name: &str) -> (r: Vec<String>)
        ensures
            args_view(r@) == seq!["move-sink-input"@, decimal(stream_index as nat), sink_name@],
    {
        let mut r: Vec<String> = Vec::new();
        r.push(lit("move-sink-input"));
        r.push(decimal_string(stream_index as u64));
        r.push(lit(sink_name));
        assert(args_view(r@) =~= seq!["move-sink-input"@, decimal(stream_index as nat), sink_name@]);
        r
    }

    /// `pactl load-module module-combine-sink sink_name=<name> slaves=<a,b,..>
    /// sink_properties=device.description="<name>"`; refused without members.
    pub fn create_combined_sink_command(&self, sink_name: &str, member_names: &[String]) -> (r: Result<Vec<String>, BackendError>)
        ensures
            member_names@.len() == 0 <==> r is Err,
            r matches Err(e) ==> e == BackendError::NoMembers,
            r matches Ok(v) ==> args_view(v@) == seq![
                "load-module"@,
                "module-combine-sink"@,
                combine_args_text(sink_name@, strings_of(member_names@)),
            ],
    {
        if member_names.len() == 0 {
            return Err(BackendError::NoMembers);
        }
        let mut pieces: Vec<Vec<char>> = Vec::new();
        let mut i: usize = 0;
        while i < member_names.len()
            invariant
                i <= member_names@.len(),
                seqs_of(pieces@) == strings_of(member_names@).take(i as int),
            decreases member_names.len() - i,
        {
            let ghost before = seqs_of(pieces@);
            pieces.push(chars_of(member_names[i].as_str()));
            assert(seqs_of(pieces@) =~= before.push(member_names@[i as int]@));
            assert(strings_of(member_names@).take(i + 1) =~= strings_of(member_names@).take(i as int).push(member_names@[i as int]@));
            i = i + 1;
        }
        assert(strings_of(member_names@).take(member_names@.len() as int) =~= strings_of(member_names@));
        let comma = chars_of(",");
        let slaves = join(&pieces, comma.as_slice());
        let name = chars_of(sink_name);
        let mut a = chars_of("sink_name=");
        append_chars(&mut a, name.as_slice());
        let t1 = chars_of(" slaves=");
        append_chars(&mut a, t1.as_slice());
        append_chars(&mut a, slaves.as_slice());
        let t2 = chars_of(" sink_properties=device.description=\"");
        append_chars(&mut a, t2.as_slice());
        append_chars(&mut a, name.as_slice());
        let t3 = chars_of("\"");
        append_chars(&mut a, t3.as_slice());
        let mut r: Vec<String> = Vec::new();
        r.push(lit("load-module"));
        r.push(lit("module-combine-sink"));
        r.push(string_from_chars(a.as_slice()));
        assert(args_view(r@) =~= seq![
            "load-module"@,
            "module-combine-sink"@,
            combine_args_text(sink_name@, strings_of(member_names@)),
        ]);
        Ok(r)
    }

    /// Reads the module index that `load-module` prints.
    pub fn parse_module_index(&self, output: &str) -> (r: Result<u32, BackendError>)
        ensures
            match parse_unsigned(trim_ws(output@), u32::MAX as nat) {
                Some(x) => r == Ok::<u32, BackendError>(x as u32),
                None => r == Err::<u32, BackendError>(BackendError::UnexpectedModuleOutput),
            },
    {
        let v = chars_of(output);
        let t = trim(v.as_slice());
        let ts = string_from_chars(t.as_slice());
        match parse_u32(ts.as_str()) {
            Some(x) => Ok(x),
            None => Err(BackendError::UnexpectedModuleOutput),
        }
    }

    /// `pactl unload-module <index>`
    pub fn remove_combined_sink_command(&self, group: &CombinedGroup) -> (r: Vec<String>)
        ensures
            args_view(r@) == seq!["unload-module"@, decimal(group.module_index as nat)],
    {
        let mut r: Vec<String> = Vec::new();
        r.push(lit("unload-module"));
        r.push(decimal_string(group.module_index as u64));
        assert(args_view(r@) =~= seq!["unload-module"@, decimal(group.module_index as nat)]);
        r
    }

    /// Whether a device with this sink name exists.
    pub fn sink_name_exists(&self, name: &str, state: &AudioState) -> (r: bool)
        ensures
            r == exists|i: int| 0 <= i < state.devices@.len() && (#[trigger] state.devices@[i]).name@ == name@,
    {
        match position_by_name(state.devices.as_slice(), name) {
            Some(k) => true,
            None => {
                proof {
                    assert forall|i: int| 0 <= i < state.devices@.len() implies (#[trigger] state.devices@[i]).name@ != name@ by {
                        if state.devices@[i].name@ == name@ {
                            crate::models::lemma_first_where_skip(state.devices@, |d: Device| d.name@ == name@, 0);
                            lemma_first_where_some_exists(state.devices@, |d: Device| d.name@ == name@, i);
                        }
                    }
                }
                false
            },
        }
    }

    /// `pactl suspend-sink <name> 0`
    pub fn resume_device_command(&self, device: &Device) -> (r: Vec<String>)
        ensures
            args_view(r@) == seq!["suspend-sink"@, device.name@, "0"@],
    {
        let mut r: Vec<String> = Vec::new();
        r.push(lit("suspend-sink"));
        r.push(copy_string(&device.name));
        r.push(lit("0"));
        assert(args_view(r@) =~= seq!["suspend-sink"@, device.name@, "0"@]);
        r
    }

    /// `pactl set-sink-volume <sink> <percent>%`, the percentage capped at 100.
    pub fn set_volume_command(&self, sink_name: &str, percent: u8) -> (r: Vec<String>)
        ensures
            args_view(r@) == seq!["set-sink-volume"@, sink_name@, volume_arg(percent)],
    {
        let p: u8 = if percent < 100 { percent } else { 100 };
        let mut v: Vec<char> = Vec::new();
        push_decimal(&mut v, p as u64);
        let pct = chars_of("%");
        append_chars(&mut v, pct.as_slice());
        let mut r: Vec<String> = Vec::new();
        r.push(lit("set-sink-volume"));
        r.push(lit(sink_name));
        r.push(string_from_chars(v.as_slice()));
        assert(args_view(r@) =~= seq!["set-sink-volume"@, sink_name@, volume_arg(percent)]);
        r
    }

    /// `pactl set-sink-mute <sink> toggle`
    pub fn toggle_mute_command(&self, sink_name: &str) -> (r: Vec<String>)
        ensures
            args_view(r@) == seq!["set-sink-mute"@, sink_name@, "toggle"@],
    {
        let mut r: Vec<String> = Vec::new();
        r.push(lit("set-sink-mute"));
        r.push(lit(sink_name));
        r.push(lit("toggle"));
        assert(args_view(r@) =~= seq!["set-sink-mute"@, sink_name@, "toggle"@]);
        r
    }

    /// Reads the server name from `pactl info` output.
    pub fn parse_server_name(&self, info: &str) -> (r: String)
        ensures
            r@ == server_name_in(info@),
    {
        match find_field(info, "Server Name:") {
            Some(v) => string_from_chars(v.as_slice()),
            None => lit("PipeWire/PulseAudio (details unavailable)"),
        }
    }
}

/// The message that goes with a backend error; `load_output` is what
/// `load-module` printed, shown trimmed.
pub fn error_message(e: BackendError, load_output: &str) -> (r: String)
    ensures
        match e {
            BackendError::NoMembers => r@ == "Cannot create combined sink with no members"@,
            BackendError::UnexpectedModuleOutput => r@ == "Unexpected output from load-module: '"@
                + trim_ws(load_output@) + "'"@,
        },
{
    match e {
        BackendError::NoMembers => lit("Cannot create combined sink with no members"),
        BackendError::UnexpectedModuleOutput => {
            let v = chars_of(load_output);
            let t = trim(v.as_slice());
            let ts = string_from_chars(t.as_slice());
            cat3("Unexpected output from load-module: '", ts.as_str(), "'")
        },
    }
}

/// A signed number in decimal, with a leading `-` when negative.
pub open spec fn signed_decimal(n: int) -> Seq<char> {
    if n < 0 {
        "-"@ + decimal((-n) as nat)
    } else {
        decimal(n as nat)
    }
}

/// The error of a `pactl` run that failed: the command, its exit code and its
/// trimmed error output.
pub open spec fn pactl_failure_of(args: Seq<Seq<char>>, exit_code: i32, stderr: Seq<char>) -> Seq<char> {
    "pactl "@ + join_with(args, " "@) + " failed (exit "@ + signed_decimal(exit_code as int) + "): "@
        + trim_ws(stderr)
}

/// The message for a `pactl` run that exited with an error.
pub fn pactl_failure(args: &Vec<String>, exit_code: i32, stderr: &str) -> (r: String)
    ensures
        r@ == pactl_failure_of(args_view(args@), exit_code, stderr@),
{
    let mut pieces: Vec<Vec<char>> = Vec::new();
    let mut i: usize = 0;
    while i < args.len()
        invariant
            i <= args@.len(),
            seqs_of(pieces@) == args_view(args@).take(i as int),
        decreases args.len() - i,
    {
        let ghost before = seqs_of(pieces@);
        pieces.push(chars_of(args[i].as_str()));
        assert(seqs_of(pieces@) =~= before.push(args@[i as int]@));
        assert(args_view(args@).take(i + 1) =~= args_view(args@).take(i as int).push(args@[i as int]@));
        i = i + 1;
    }
    assert(args_view(args@).take(args@.len() as int) =~= args_view(args@));
    let space = chars_of(" ");
    let cmd = join(&pieces, space.as_slice());
    let mut v = chars_of("pactl ");
    append_chars(&mut v, cmd.as_slice());
    let mid = chars_of(" failed (exit ");
    append_chars(&mut v, mid.as_slice());
    let wide: i64 = exit_code as i64;
    if wide < 0 {
        v.push('-');
        push_decimal(&mut v, (-wide) as u64);
    } else {
        push_decimal(&mut v, wide as u64);
    }
    let sep = chars_of("): ");
    append_chars(&mut v, sep.as_slice());
    let e = chars_of(stderr);
    let t = trim(e.as_slice());
    append_chars(&mut v, t.as_slice());
    proof { reveal_strlit("-"); }
    assert(v@ =~= pactl_failure_of(args_view(args@), exit_code, stderr@));
    string_from_chars(v.as_slice())
}

/// The message recorded for a stream that could not be moved.
pub open spec fn move_error_text(stream: Stream, error: Seq<char>) -> Seq<char> {
    "Stream "@ + decimal(stream.index as nat) + " ("@ + stream.application_name@ + "): "@ + error
}

/// The message recorded for a stream that could not be moved.
pub fn stream_move_error(stream: &Stream, error: &str) -> (r: String)
    ensures
        r@ == move_error_text(*stream, error@),
{
    let n = decimal_string(stream.index as u64);
    let a = cat3("Stream ", n.as_str(), " (");
    let b = cat3(a.as_str(), stream.application_name.as_str(), "): ");
    cat(b.as_str(), error)
}

/// The messages for the streams whose move failed, in the order of the
/// streams; `outcomes[i]` is what moving `streams[i]` gave.
pub open spec fn move_errors_of(streams: Seq<Stream>, outcomes: Seq<Result<(), String>>) -> Seq<Seq<char>>
    decreases streams.len(),
{
    if streams.len() == 0 || outcomes.len() == 0 {
        Seq::empty()
    } else {
        let prev = move_errors_of(streams.drop_last(), outcomes.drop_last());
        match outcomes.last() {
            Err(e) => prev.push(move_error_text(streams.last(), e@)),
            Ok(_) => prev,
        }
    }
}

/// Collects the messages of the streams that could not be moved, one per
/// failed move, in the order the streams were moved.
pub fn collect_move_errors(streams: &[Stream], outcomes: &[Result<(), String>]) -> (r: Vec<String>)
    requires
        streams@.len() == outcomes@.len(),
    ensures
        r@.map_values(|m: String| m@) == move_errors_of(streams@, outcomes@),
{
    let mut r: Vec<String> = Vec::new();
    let mut i: usize = 0;
    while i < streams.len()
        invariant
            i <= streams@.len(),
            streams@.len() == outcomes@.len(),
            r@.map_values(|m: String| m@) == move_errors_of(streams@.take(i as int), outcomes@.take(i as int)),
        decreases streams.len() - i,
    {
        assert(streams@.take(i + 1).drop_last() =~= streams@.take(i as int));
        assert(outcomes@.take(i + 1).drop_last() =~= outcomes@.take(i as int));
        match &outcomes[i] {
            Err(e) => {
                let ghost before = r@.map_values(|m: String| m@);
                r.push(stream_move_error(&streams[i], e.as_str()));
                assert(r@.map_values(|m: String| m@) =~= before.push(move_error_text(streams@[i as int], e@)));
            },
            Ok(_) => {},
        }
        i = i + 1;
    }
    assert(streams@.take(streams@.len() as int) =~= streams@);
    assert(outcomes@.take(outcomes@.len() as int) =~= outcomes@);
    r
}

pub proof fn lemma_first_where_some_exists<T>(s: Seq<T>, f: spec_fn(T) -> bool, i: int)
    requires
        0 <= i < s.len(),
        f(s[i]),
    ensures
        first_where(s, f) is Some,
    decreases s.len(),
{
    if i > 0 && !f(s[0]) {
        assert(s.drop_first()[i - 1] == s[i]);
        lemma_first_where_some_exists(s.drop_first(), f, i - 1);
    }
}


// ─── Snapshot assembly ───────────────────────────────────────────────────────

pub proof fn lemma_first_where_props<T>(s: Seq<T>, f: spec_fn(T) -> bool)
    ensures
        first_where(s, f) matches Some(p) ==> 0 <= p < s.len() && f(s[p]) && forall|j: int| 0 <= j < p ==> !f(#[trigger] s[j]),
        first_where(s, f) is None ==> forall|j: int| 0 <= j < s.len() ==> !f(#[trigger] s[j]),
    decreases s.len(),
{
    if s.len() > 0 && !f(s[0]) {
        let t = s.drop_first();
        lemma_first_where_props(t, f);
        assert forall|j: int| 0 < j < s.len() implies s[j] == #[trigger] t[j - 1] by {}
        if first_where(t, f) is None {
            assert forall|j: int| 0 <= j < s.len() implies !f(#[trigger] s[j]) by {
                if j > 0 { assert(s[j] == t[j - 1]); }
            }
        } else {
            let p = first_where(t, f)->0;
            assert forall|j: int| 0 <= j < p + 1 implies !f(#[trigger] s[j]) by {
                if j > 0 { assert(s[j] == t[j - 1]); }
            }
        }
    }
}

/// Some member of `g` is named `name`.
pub open spec fn lists_member(g: CombinedGroup, name: Seq<char>) -> bool {
    exists|j: int| 0 <= j < g.members@.len() && (#[trigger] g.members@[j])@ == name
}

/// The module index of the last group that lists `name` as a member.
pub open spec fn member_group(groups: Seq<CombinedGroup>, name: Seq<char>) -> Option<u32>
    decreases groups.len(),
{
    if groups.len() == 0 {
        None
    } else if lists_member(groups.last(), name) {
        Some(groups.last().module_index)
    } else {
        member_group(groups.drop_last(), name)
    }
}

/// Some group's combined sink is named `name`.
pub open spec fn names_sink(groups: Seq<CombinedGroup>, name: Seq<char>) -> bool {
    exists|j: int| 0 <= j < groups.len() && (#[trigger] groups[j]).sink_name@ == name
}

/// No device before position `k` has the name of device `k`.
pub open spec fn first_named(devs: Seq<Device>, k: int) -> bool {
    forall|j: int| 0 <= j < k ==> (#[trigger] devs[j]).name@ != devs[k].name@
}

/// Two devices agree on all fields but the group mark, the type and the status.
pub open spec fn same_identity(a: Device, b: Device) -> bool {
    &&& a.index == b.index
    &&& a.name == b.name
    &&& a.description == b.description
    &&& a.is_default == b.is_default
    &&& a.sample_rate == b.sample_rate
    &&& a.sample_format == b.sample_format
    &&& a.channels == b.channels
    &&& a.volume == b.volume
    &&& a.muted == b.muted
    &&& a.module_index == b.module_index
}

/// The group mark of device `k` once every group has marked its members: the
/// first device of a member's name gets the module index of the last group
/// that lists it.
pub open spec fn marked_group_id(devs: Seq<Device>, groups: Seq<CombinedGroup>, k: int) -> Option<u32> {
    if first_named(devs, k) && member_group(groups, devs[k].name@) is Some {
        member_group(groups, devs[k].name@)
    } else {
        devs[k].combined_group_id
    }
}

/// The type of device `k` once every group has marked its own sink: the first
/// device that a group names as its combined sink is combined.
pub open spec fn marked_type(devs: Seq<Device>, groups: Seq<CombinedGroup>, k: int) -> DeviceType {
    if first_named(devs, k) && names_sink(groups, devs[k].name@) {
        DeviceType::Combined
    } else {
        devs[k].device_type
    }
}

/// The message of a combined sink whose module is gone.
pub open spec fn stale_message() -> Seq<char> {
    "Stale combined output (module unloaded)"@
}

/// Marks the members and the sink of one group.
fn mark_group(devices: &mut Vec<Device>, g: &CombinedGroup)
    ensures
        final(devices)@.len() == old(devices)@.len(),
        forall|k: int| 0 <= k < old(devices)@.len() ==> {
            &&& same_identity(#[trigger] final(devices)@[k], old(devices)@[k])
            &&& final(devices)@[k].status == old(devices)@[k].status
            &&& final(devices)@[k].combined_group_id == if first_named(old(devices)@, k) && lists_member(*g, old(devices)@[k].name@) {
                Some(g.module_index)
            } else {
                old(devices)@[k].combined_group_id
            }
            &&& final(devices)@[k].device_type == if first_named(old(devices)@, k) && g.sink_name@ == old(devices)@[k].name@ {
                DeviceType::Combined
            } else {
                old(devices)@[k].device_type
            }
        },
{
    let ghost od = devices@;
    let mut j: usize = 0;
    while j < g.members.len()
        invariant
            j <= g.members@.len(),
            devices@.len() == od.len(),
            forall|k: int| 0 <= k < od.len() ==> {
                &&& same_identity(#[trigger] devices@[k], od[k])
                &&& devices@[k].status == od[k].status
                &&& devices@[k].device_type == od[k].device_type
                &&& devices@[k].combined_group_id == if first_named(od, k) && exists|jj: int| 0 <= jj < j && (#[trigger] g.members@[jj])@ == od[k].name@ {
                    Some(g.module_index)
                } else {
                    od[k].combined_group_id
                }
            },
        decreases g.members.len() - j,
    {
        let ghost m = g.members@[j as int]@;
        let ghost before = devices@;
        match position_by_name(devices.as_slice(), g.members[j].as_str()) {
            Some(p) => {
                devices[p].combined_group_id = Some(g.module_index);
                proof {
                    assert forall|k: int| 0 <= k < od.len() implies first_named(od, k) == first_named(before, k) by {
                        assert forall|jj: int| 0 <= jj < k implies (#[trigger] od[jj]).name@ == before[jj].name@ by {}
                    }
                    assert forall|k: int| 0 <= k < od.len() && k != p && first_named(od, k) implies od[k].name@ != m by {
                        if od[k].name@ == m {
                            if k > p {
                                assert(od[p as int].name@ == before[p as int].name@);
                                assert(od[p as int].name@ != od[k].name@);
                            } else {
                                assert(before[k].name@ != m);
                            }
                        }
                    }
                }
            },
            None => {
                proof {
                    assert forall|k: int| 0 <= k < od.len() implies od[k].name@ != m by {
                        assert(before[k].name@ != m);
                    }
                }
            },
        }
        proof {
            assert forall|k: int| 0 <= k < od.len() implies ((exists|jj: int| 0 <= jj < j + 1 && (#[trigger] g.members@[jj])@ == od[k].name@)
                == ((exists|jj: int| 0 <= jj < j && (#[trigger] g.members@[jj])@ == od[k].name@) || m == od[k].name@)) by {
                if m == od[k].name@ {
                    assert(g.members@[j as int]@ == od[k].name@);
                }
            }
        }
        j = j + 1;
    }
    let ghost mid = devices@;
    let ghost sn = g.sink_name@;
    match position_by_name(devices.as_slice(), g.sink_name.as_str()) {
        Some(p) => {
            devices[p].device_type = DeviceType::Combined;
            proof {
                assert forall|k: int| 0 <= k < od.len() && k != p && first_named(od, k) implies od[k].name@ != sn by {
                    if od[k].name@ == sn {
                        if k > p {
                            assert(od[p as int].name@ == mid[p as int].name@);
                            assert(od[p as int].name@ != od[k].name@);
                        } else {
                            assert(mid[k].name@ != sn);
                        }
                    }
                }
                assert(first_named(od, p as int)) by {
                    assert forall|jj: int| 0 <= jj < p implies (#[trigger] od[jj]).name@ != od[p as int].name@ by {
                        assert(mid[jj].name@ != sn);
                    }
                }
            }
        },
        None => {
            proof {
                assert forall|k: int| 0 <= k < od.len() implies od[k].name@ != sn by {
                    assert(mid[k].name@ != sn);
                }
            }
        },
    }
    proof {
        assert forall|k: int| 0 <= k < od.len() implies lists_member(*g, od[k].name@) == (exists|jj: int| 0 <= jj < g.members@.len() && (#[trigger] g.members@[jj])@ == od[k].name@) by {}
    }
}

/// Marks the members and the sink of every group, in order.
pub fn mark_groups(devices: &mut Vec<Device>, groups: &[CombinedGroup])
    ensures
        final(devices)@.len() == old(devices)@.len(),
        forall|k: int| 0 <= k < old(devices)@.len() ==> {
            &&& same_identity(#[trigger] final(devices)@[k], old(devices)@[k])
            &&& final(devices)@[k].status == old(devices)@[k].status
            &&& final(devices)@[k].combined_group_id == marked_group_id(old(devices)@, groups@, k)
            &&& final(devices)@[k].device_type == marked_type(old(devices)@, groups@, k)
        },
{
    let ghost od = devices@;
    let mut gi: usize = 0;
    while gi < groups.len()
        invariant
            gi <= groups@.len(),
            devices@.len() == od.len(),
            forall|k: int| 0 <= k < od.len() ==> {
                &&& same_identity(#[trigger] devices@[k], od[k])
                &&& devices@[k].status == od[k].status
                &&& devices@[k].combined_group_id == marked_group_id(od, groups@.take(gi as int), k)
                &&& devices@[k].device_type == marked_type(od, groups@.take(gi as int), k)
            },
        decreases groups.len() - gi,
    {
        let ghost before = devices@;
        mark_group(devices, &groups[gi]);
        proof {
            let t0 = groups@.take(gi as int);
            let t1 = groups@.take(gi + 1);
            assert(t1.drop_last() =~= t0);
            assert(t1.last() == groups@[gi as int]);
            assert forall|k: int| 0 <= k < od.len() implies first_named(od, k) == first_named(before, k) by {
                assert forall|jj: int| 0 <= jj < k implies (#[trigger] od[jj]).name@ == before[jj].name@ by {}
            }
            assert forall|k: int| 0 <= k < od.len() implies names_sink(t1, od[k].name@) == (names_sink(t0, od[k].name@) || groups@[gi as int].sink_name@ == od[k].name@) by {
                if names_sink(t0, od[k].name@) {
                    let w = choose|j: int| 0 <= j < t0.len() && (#[trigger] t0[j]).sink_name@ == od[k].name@;
                    assert(t1[w] == t0[w]);
                }
                if names_sink(t1, od[k].name@) {
                    let w = choose|j: int| 0 <= j < t1.len() && (#[trigger] t1[j]).sink_name@ == od[k].name@;
                    if w < gi {
                        assert(t1[w] == t0[w]);
                    }
                }
                if groups@[gi as int].sink_name@ == od[k].name@ {
                    assert(t1[gi as int] == groups@[gi as int]);
                }
            }
        }
        gi = gi + 1;
    }
    assert(groups@.take(groups@.len() as int) =~= groups@);
}

/// Marks every combined device that no group names as stale.
pub fn mark_stale(devices: &mut Vec<Device>, groups: &[CombinedGroup])
    ensures
        final(devices)@.len() == old(devices)@.len(),
        forall|k: int| 0 <= k < old(devices)@.len() ==> {
            &&& same_identity(#[trigger] final(devices)@[k], old(devices)@[k])
            &&& final(devices)@[k].combined_group_id == old(devices)@[k].combined_group_id
            &&& final(devices)@[k].device_type == old(devices)@[k].device_type
            &&& status_view(final(devices)@[k].status) == if old(devices)@[k].device_type == DeviceType::Combined && !names_sink(groups@, old(devices)@[k].name@) {
                StatusView::Error(stale_message())
            } else {
                status_view(old(devices)@[k].status)
            }
        },
{
    let ghost od = devices@;
    let mut k: usize = 0;
    while k < devices.len()
        invariant
            k <= devices@.len(),
            devices@.len() == od.len(),
            forall|i: int| 0 <= i < od.len() ==> {
                &&& same_identity(#[trigger] devices@[i], od[i])
                &&& devices@[i].combined_group_id == od[i].combined_group_id
                &&& devices@[i].device_type == od[i].device_type
                &&& status_view(devices@[i].status) == if i < k && od[i].device_type == DeviceType::Combined && !names_sink(groups@, od[i].name@) {
                    StatusView::Error(stale_message())
                } else {
                    status_view(od[i].status)
                }
            },
        decreases devices.len() - k,
    {
        if devices[k].device_type == DeviceType::Combined && !group_named(groups, devices[k].name.as_str()) {
            devices[k].status = DeviceStatus::Error(lit("Stale combined output (module unloaded)"));
        }
        k = k + 1;
    }
}

/// Whether some group's combined sink has this name.
fn group_named(groups: &[CombinedGroup], name: &str) -> (r: bool)
    ensures
        r == names_sink(groups@, name@),
{
    let mut i: usize = 0;
    while i < groups.len()
        invariant
            i <= groups@.len(),
            forall|j: int| 0 <= j < i ==> (#[trigger] groups@[j]).sink_name@ != name@,
        decreases groups.len() - i,
    {
        if str_eq(groups[i].sink_name.as_str(), name) {
            return true;
        }
        i = i + 1;
    }
    false
}

/// The module index of a group once recovered: where `pactl` gave none (0),
/// the owner module of the first device with the group's sink name.
pub open spec fn recovered_index(g: CombinedGroup, devs: Seq<Device>) -> u32 {
    if g.module_index == 0 {
        match first_where(devs, |d: Device| d.name@ == g.sink_name@) {
            Some(p) => match devs[p].module_index {
                Some(mi) => mi,
                None => 0,
            },
            None => 0,
        }
    } else {
        g.module_index
    }
}

/// Marks the default group and recovers missing module indices.
pub fn finish_groups(groups: &mut Vec<CombinedGroup>, devices: &[Device], default_sink: &str)
    ensures
        final(groups)@.len() == old(groups)@.len(),
        forall|i: int| 0 <= i < old(groups)@.len() ==> {
            &&& (#[trigger] final(groups)@[i]).sink_name == old(groups)@[i].sink_name
            &&& final(groups)@[i].label == old(groups)@[i].label
            &&& final(groups)@[i].members == old(groups)@[i].members
            &&& final(groups)@[i].is_active == old(groups)@[i].is_active
            &&& final(groups)@[i].is_default == (old(groups)@[i].sink_name@ == default_sink@)
            &&& final(groups)@[i].module_index == recovered_index(old(groups)@[i], devices@)
        },
{
    let ghost og = groups@;
    let mut i: usize = 0;
    while i < groups.len()
        invariant
            i <= groups@.len(),
            groups@.len() == og.len(),
            forall|j: int| 0 <= j < og.len() ==> {
                &&& (#[trigger] groups@[j]).sink_name == og[j].sink_name
                &&& groups@[j].label == og[j].label
                &&& groups@[j].members == og[j].members
                &&& groups@[j].is_active == og[j].is_active
                &&& j < i ==> groups@[j].is_default == (og[j].sink_name@ == default_sink@)
                &&& j < i ==> groups@[j].module_index == recovered_index(og[j], devices@)
                &&& j >= i ==> groups@[j] == og[j]
            },
        decreases groups.len() - i,
    {
        let is_default = str_eq(groups[i].sink_name.as_str(), default_sink);
        groups[i].is_default = is_default;
        if groups[i].module_index == 0 {
            let found = position_by_name(devices, groups[i].sink_name.as_str());
            match found {
                Some(p) => {
                    match devices[p].module_index {
                        Some(mi) => {
                            groups[i].module_index = mi;
                        },
                        None => {},
                    }
                },
                None => {},
            }
        }
        i = i + 1;
    }
}


/// `r` is the snapshot made of devices `devs`, groups `groups`, sink inputs
/// `inputs` and the default sink `default`: devices carry their group marks,
/// the combined type of each group's sink, and a stale status where a combined
/// device has no group; groups know whether they are the default and have their
/// module index recovered; streams are read against the marked devices.
pub open spec fn assembled(
    r: AudioState,
    devs: Seq<Device>,
    groups: Seq<CombinedGroup>,
    inputs: Seq<RawSinkInput>,
    default: Seq<char>,
) -> bool {
    &&& r.devices@.len() == devs.len()
    &&& forall|k: int| 0 <= k < devs.len() ==> {
        &&& same_identity(#[trigger] r.devices@[k], devs[k])
        &&& r.devices@[k].combined_group_id == marked_group_id(devs, r.combined_groups@, k)
        &&& r.devices@[k].device_type == marked_type(devs, groups, k)
        &&& status_view(r.devices@[k].status) == if marked_type(devs, groups, k) == DeviceType::Combined && !names_sink(groups, devs[k].name@) {
            StatusView::Error(stale_message())
        } else {
            status_view(devs[k].status)
        }
    }
    &&& r.combined_groups@.len() == groups.len()
    &&& forall|i: int| 0 <= i < groups.len() ==> {
        &&& (#[trigger] r.combined_groups@[i]).sink_name == groups[i].sink_name
        &&& r.combined_groups@[i].label == groups[i].label
        &&& r.combined_groups@[i].members == groups[i].members
        &&& r.combined_groups@[i].is_active == groups[i].is_active
        &&& r.combined_groups@[i].is_default == (groups[i].sink_name@ == default)
        &&& r.combined_groups@[i].module_index == recovered_index(groups[i], devs)
    }
    &&& r.streams@.len() == inputs.len()
    &&& forall|i: int| 0 <= i < inputs.len() ==> stream_from_input(#[trigger] r.streams@[i], inputs[i], r.devices@)
    &&& r.default_sink_name@ == default
    &&& r.last_refresh is Some
    &&& r.last_error is None
}

/// Assembles a snapshot from parsed devices, groups and sink inputs.
pub fn assemble_state(
    devices: Vec<Device>,
    groups: Vec<CombinedGroup>,
    inputs: &Vec<RawSinkInput>,
    default_sink: String,
) -> (r: AudioState)
    ensures
        assembled(r, devices@, groups@, inputs@, default_sink@),
{
    let ghost d0 = devices@;
    let ghost g0 = groups@;
    let mut devices = devices;
    let mut groups = groups;
    finish_groups(&mut groups, devices.as_slice(), default_sink.as_str());
    let ghost g1 = groups@;
    proof {
        assert forall|n: Seq<char>| names_sink(g1, n) == names_sink(g0, n) by {
            if names_sink(g0, n) {
                let j = choose|j: int| 0 <= j < g0.len() && (#[trigger] g0[j]).sink_name@ == n;
                assert(g1[j].sink_name@ == n);
            }
            if names_sink(g1, n) {
                let j = choose|j: int| 0 <= j < g1.len() && (#[trigger] g1[j]).sink_name@ == n;
                assert(g0[j].sink_name@ == n);
            }
        }
        assert forall|k: int| 0 <= k < d0.len() implies marked_type(d0, g1, k) == marked_type(d0, g0, k) by {
            assert(names_sink(g1, d0[k].name@) == names_sink(g0, d0[k].name@));
        }
    }
    mark_groups(&mut devices, groups.as_slice());
    let ghost d1 = devices@;
    mark_stale(&mut devices, groups.as_slice());
    proof {
        assert forall|k: int| 0 <= k < d0.len() implies d1[k].name@ == d0[k].name@ by {
            assert(same_identity(d1[k], d0[k]));
        }
        assert forall|k: int| 0 <= k < d0.len() implies names_sink(g1, d1[k].name@) == names_sink(g0, d0[k].name@) by {
            assert(d1[k].name@ == d0[k].name@);
        }
    }
    let streams = parse_sink_inputs(inputs, devices.as_slice());
    let t = now();
    AudioState {
        devices,
        streams,
        combined_groups: groups,
        default_sink_name: default_sink,
        last_refresh: Some(t),
        last_error: None,
    }
}

/// `d` are the devices that the sink entries `raw` describe.
pub open spec fn sinks_parsed(d: Seq<Device>, raw: Seq<RawSink>, default: Seq<char>) -> bool {
    &&& d.len() == raw.len()
    &&& forall|i: int| 0 <= i < raw.len() ==> device_from_sink(#[trigger] d[i], raw[i], default)
}

/// `g` are the combined groups that the module entries `raw` load.
pub open spec fn groups_parsed(g: Seq<CombinedGroup>, raw: Seq<RawModule>) -> bool {
    let f = filter_seq(raw, |m: RawModule| is_combine_module(m));
    &&& g.len() == f.len()
    &&& forall|i: int| 0 <= i < f.len() ==> group_from_module(#[trigger] g[i], f[i])
}

/// The full audio snapshot from the answers of the four `pactl` queries
/// (`list sinks`, `list sink-inputs`, `list modules`, decoded; `info`, as text).
pub fn build_state(
    sinks: &Vec<RawSink>,
    inputs: &Vec<RawSinkInput>,
    modules: &Vec<RawModule>,
    info_output: &str,
) -> (r: AudioState)
    ensures
        exists|d: Seq<Device>, g: Seq<CombinedGroup>| {
            &&& sinks_parsed(d, sinks@, default_sink_in(info_output@))
            &&& groups_parsed(g, modules@)
            &&& assembled(r, d, g, inputs@, default_sink_in(info_output@))
        },
{
    let default_sink = parse_default_sink(info_output);
    let devices = parse_sinks(sinks, default_sink.as_str());
    let groups = parse_combined_groups(modules);
    let ghost d = devices@;
    let ghost g = groups@;
    let r = assemble_state(devices, groups, inputs, default_sink);
    assert(sinks_parsed(d, sinks@, default_sink_in(info_output@)));
    assert(groups_parsed(g, modules@));
    r
}

} // verus!
