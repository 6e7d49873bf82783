//! Decoders from parsed MI results to the debugger's entities. Each takes
//! the named values of a record; unknown fields are ignored and a missing
//! optional field leaves its attribute empty.
use vstd::prelude::*;
use crate::parser::{MiParser, find_entry, find_text, lookup, lookup_str, opt_text};
use crate::text::{parse_u64, text_eq, u64_of};
use crate::types::{
    Breakpoint, Frame, MemoryContent, MiResult, MiValue, Register, Thread, ThreadState, VBreakpoint,
    VFrame, VMemory, VRegister, VThread, VValue, VVariable, VWatchpoint, Variable, Watchpoint,
    WatchpointType, opt_view, results_view, texts_view,
};

verus! {

broadcast use vstd::std_specs::vec::axiom_vec_index_decreases;

pub type Entries = Seq<(Seq<char>, VValue)>;

pub open spec fn text_or_empty(o: Option<Seq<char>>) -> Seq<char> {
    match o {
        Some(t) => t,
        None => seq![],
    }
}

/// An `enabled` field: `y` is enabled, any other text is not, and a missing
/// field counts as enabled.
pub open spec fn enabled_flag(o: Option<Seq<char>>) -> bool {
    match o {
        Some(t) => t == "y"@,
        None => true,
    }
}

pub open spec fn num_of(o: Option<Seq<char>>) -> Option<u64> {
    match o {
        Some(t) => u64_of(t),
        None => None,
    }
}

pub open spec fn num_or_zero(o: Option<Seq<char>>) -> u64 {
    match num_of(o) {
        Some(n) => n,
        None => 0,
    }
}

/// The breakpoint that a `bkpt` tuple describes; it needs a `number`.
pub open spec fn breakpoint_of(t: Entries) -> Option<VBreakpoint> {
    match lookup_str(t, "number"@) {
        Some(n) => Some(
            VBreakpoint {
                number: n,
                breakpoint_type: text_or_empty(lookup_str(t, "type"@)),
                disposition: text_or_empty(lookup_str(t, "disp"@)),
                enabled: enabled_flag(lookup_str(t, "enabled"@)),
                addr: lookup_str(t, "addr"@),
                func: lookup_str(t, "func"@),
                file: lookup_str(t, "file"@),
                fullname: lookup_str(t, "fullname"@),
                line: num_of(lookup_str(t, "line"@)),
                thread_groups: None,
                times: num_or_zero(lookup_str(t, "times"@)),
                original_location: lookup_str(t, "original-location"@),
                condition: lookup_str(t, "cond"@),
                ignore_count: num_of(lookup_str(t, "ignore"@)),
            },
        ),
        None => None,
    }
}

/// The tuple of the first entry named `key` whose value is a tuple.
pub open spec fn tuple_named(rs: Entries, key: Seq<char>) -> Option<Entries>
    decreases rs.len(),
{
    if rs.len() == 0 {
        None
    } else if rs[0].0 == key && rs[0].1 is Tuple {
        Some(rs[0].1->Tuple_0)
    } else {
        tuple_named(rs.drop_first(), key)
    }
}

pub open spec fn opt_bp_view(o: Option<Breakpoint>) -> Option<VBreakpoint> {
    match o {
        Some(b) => Some(b@),
        None => None,
    }
}

/// The value of the first entry named `key` whose value is a tuple.
fn find_tuple<'a>(results: &'a [MiResult], key: &str) -> (r: Option<&'a Vec<MiResult>>)
    ensures
        match r {
            Some(t) => tuple_named(results_view(results@), key@) == Some(results_view(t@)),
            None => tuple_named(results_view(results@), key@) is None,
        },
{
    let ghost rv = results_view(results@);
    assert(rv.subrange(0, rv.len() as int) =~= rv);
    let mut i: usize = 0;
    while i < results.len()
        invariant
            i <= results@.len(),
            rv == results_view(results@),
            tuple_named(rv, key@) == tuple_named(rv.subrange(i as int, rv.len() as int), key@),
        decreases results@.len() - i,
    {
        let ghost rest = rv.subrange(i as int, rv.len() as int);
        assert(rest[0] == results@[i as int]@);
        if text_eq(&results[i].variable, key) {
            match &results[i].value {
                MiValue::Tuple(t) => {
                    assert(results@[i as int].value@->Tuple_0 =~= results_view(t@));
                    return Some(t);
                },
                _ => {},
            }
        }
        assert(rest.drop_first() =~= rv.subrange(i + 1, rv.len() as int));
        i = i + 1;
    }
    None
}

fn text_or_empty_exec(o: Option<String>) -> (r: String)
    ensures
        r@ == text_or_empty(opt_text(o)),
{
    match o {
        Some(s) => s,
        None => String::new(),
    }
}

fn enabled_field(t: &Vec<MiResult>) -> (r: bool)
    ensures
        r == enabled_flag(lookup_str(results_view(t@), "enabled"@)),
{
    match MiParser::get_tuple_string(t, "enabled") {
        Some(s) => text_eq(&s, "y"),
        None => true,
    }
}

fn num_field(t: &Vec<MiResult>, key: &str) -> (r: Option<u64>)
    ensures
        r == num_of(lookup_str(results_view(t@), key@)),
{
    match MiParser::get_tuple_string(t, key) {
        Some(s) => parse_u64(&s),
        None => None,
    }
}

/// Decodes the breakpoint that a `bkpt` tuple describes.
pub fn parse_breakpoint_from_tuple(tuple: &Vec<MiResult>) -> (r: Option<Breakpoint>)
    ensures
        opt_bp_view(r) == breakpoint_of(results_view(tuple@)),
{
    let number = match MiParser::get_tuple_string(tuple, "number") {
        Some(n) => n,
        None => {
            return None;
        },
    };
    let times = match num_field(tuple, "times") {
        Some(n) => n,
        None => 0,
    };
    let bp = Breakpoint {
        number,
        breakpoint_type: text_or_empty_exec(MiParser::get_tuple_string(tuple, "type")),
        disposition: text_or_empty_exec(MiParser::get_tuple_string(tuple, "disp")),
        enabled: enabled_field(tuple),
        addr: MiParser::get_tuple_string(tuple, "addr"),
        func: MiParser::get_tuple_string(tuple, "func"),
        file: MiParser::get_tuple_string(tuple, "file"),
        fullname: MiParser::get_tuple_string(tuple, "fullname"),
        line: num_field(tuple, "line"),
        thread_groups: None,
        times,
        original_location: MiParser::get_tuple_string(tuple, "original-location"),
        condition: MiParser::get_tuple_string(tuple, "cond"),
        ignore_count: num_field(tuple, "ignore"),
    };
    Some(bp)
}

/// Decodes the breakpoint of a `bkpt=` result (the reply to an insert, or a
/// breakpoint notification).
pub fn parse_breakpoint(results: &[MiResult]) -> (r: Option<Breakpoint>)
    ensures
        opt_bp_view(r) == match tuple_named(results_view(results@), "bkpt"@) {
            Some(t) => breakpoint_of(t),
            None => None,
        },
{
    match find_tuple(results, "bkpt") {
        Some(t) => parse_breakpoint_from_tuple(t),
        None => None,
    }
}

/// Whether a result name introduces a watchpoint.
pub open spec fn is_watch_name(k: Seq<char>) -> bool {
    k == "wpt"@ || k == "hw-awpt"@ || k == "hw-rwpt"@
}

/// The tuple of the first watchpoint entry whose value is a tuple.
pub open spec fn watch_tuple(rs: Entries) -> Option<Entries>
    decreases rs.len(),
{
    if rs.len() == 0 {
        None
    } else if is_watch_name(rs[0].0) && rs[0].1 is Tuple {
        Some(rs[0].1->Tuple_0)
    } else {
        watch_tuple(rs.drop_first())
    }
}

/// The watchpoint that a watchpoint tuple describes; it needs a `number`.
pub open spec fn watchpoint_of(t: Entries, ty: WatchpointType) -> Option<VWatchpoint> {
    match lookup_str(t, "number"@) {
        Some(n) => Some(
            VWatchpoint {
                number: n,
                watchpoint_type: ty,
                enabled: enabled_flag(lookup_str(t, "enabled"@)),
                addr: text_or_empty(lookup_str(t, "addr"@)),
                exp: lookup_str(t, "exp"@),
                size: num_of(lookup_str(t, "size"@)),
                value: None,
                old_value: None,
                times: 0,
                condition: None,
            },
        ),
        None => None,
    }
}

/// Decodes the watchpoint of a `wpt=`, `hw-rwpt=` or `hw-awpt=` result.
pub fn parse_watchpoint(results: &[MiResult], wp_type: WatchpointType) -> (r: Option<Watchpoint>)
    ensures
        match r {
            Some(w) => Some(w@),
            None => None,
        } == match watch_tuple(results_view(results@)) {
            Some(t) => watchpoint_of(t, wp_type),
            None => None,
        },
{
    let ghost rv = results_view(results@);
    assert(rv.subrange(0, rv.len() as int) =~= rv);
    let mut i: usize = 0;
    while i < results.len()
        invariant
            i <= results@.len(),
            rv == results_view(results@),
            watch_tuple(rv) == watch_tuple(rv.subrange(i as int, rv.len() as int)),
        decreases results@.len() - i,
    {
        let ghost rest = rv.subrange(i as int, rv.len() as int);
        assert(rest[0] == results@[i as int]@);
        let name = &results[i].variable;
        if text_eq(name, "wpt") || text_eq(name, "hw-awpt") || text_eq(name, "hw-rwpt") {
            match &results[i].value {
                MiValue::Tuple(t) => {
                    assert(results@[i as int].value@->Tuple_0 =~= results_view(t@));
                    let number = match MiParser::get_tuple_string(t, "number") {
                        Some(n) => n,
                        None => {
                            return None;
                        },
                    };
                    return Some(
                        Watchpoint {
                            number,
                            watchpoint_type: wp_type,
                            enabled: enabled_field(t),
                            addr: text_or_empty_exec(MiParser::get_tuple_string(t, "addr")),
                            exp: MiParser::get_tuple_string(t, "exp"),
                            size: num_field(t, "size"),
                            value: None,
                            old_value: None,
                            times: 0,
                            condition: None,
                        },
                    );
                },
                _ => {},
            }
        }
        assert(rest.drop_first() =~= rv.subrange(i + 1, rv.len() as int));
        i = i + 1;
    }
    None
}

/// The frame that a frame tuple describes; it needs a numeric `level`.
pub open spec fn frame_of(t: Entries) -> Option<VFrame> {
    match num_of(lookup_str(t, "level"@)) {
        Some(level) => Some(
            VFrame {
                level,
                addr: text_or_empty(lookup_str(t, "addr"@)),
                func: lookup_str(t, "func"@),
                file: lookup_str(t, "file"@),
                fullname: lookup_str(t, "fullname"@),
                line: num_of(lookup_str(t, "line"@)),
                arch: lookup_str(t, "arch"@),
            },
        ),
        None => None,
    }
}

pub open spec fn opt_frame(o: Option<Frame>) -> Option<VFrame> {
    match o {
        Some(f) => Some(f@),
        None => None,
    }
}

/// Decodes the frame that a frame tuple describes.
pub fn parse_frame_from_tuple(tuple: &Vec<MiResult>) -> (r: Option<Frame>)
    ensures
        opt_frame(r) == frame_of(results_view(tuple@)),
{
    let level = match num_field(tuple, "level") {
        Some(l) => l,
        None => {
            return None;
        },
    };
    Some(
        Frame {
            level,
            addr: text_or_empty_exec(MiParser::get_tuple_string(tuple, "addr")),
            func: MiParser::get_tuple_string(tuple, "func"),
            file: MiParser::get_tuple_string(tuple, "file"),
            fullname: MiParser::get_tuple_string(tuple, "fullname"),
            line: num_field(tuple, "line"),
            arch: MiParser::get_tuple_string(tuple, "arch"),
        },
    )
}

/// Decodes the frame of a `frame=` result.
pub fn parse_frame(results: &[MiResult]) -> (r: Option<Frame>)
    ensures
        opt_frame(r) == match tuple_named(results_view(results@), "frame"@) {
            Some(t) => frame_of(t),
            None => None,
        },
{
    match find_tuple(results, "frame") {
        Some(t) => parse_frame_from_tuple(t),
        None => None,
    }
}

/// Whether a result name introduces a thread.
pub open spec fn is_thread_name(k: Seq<char>) -> bool {
    k == "new-thread-id"@ || k == "id"@
}

/// The value of the first thread entry that is a tuple or a constant.
pub open spec fn thread_entry(rs: Entries) -> Option<VValue>
    decreases rs.len(),
{
    if rs.len() == 0 {
        None
    } else if is_thread_name(rs[0].0) && (rs[0].1 is Tuple || rs[0].1 is Str) {
        Some(rs[0].1)
    } else {
        thread_entry(rs.drop_first())
    }
}

/// The thread that a thread entry describes: a tuple with an `id`, or a
/// bare id.
pub open spec fn thread_of(v: VValue) -> Option<VThread> {
    match v {
        VValue::Tuple(t) => match lookup_str(t, "id"@) {
            Some(id) => Some(
                VThread {
                    id,
                    target_id: text_or_empty(lookup_str(t, "target-id"@)),
                    name: lookup_str(t, "name"@),
                    frame: None,
                    state: ThreadState::Stopped,
                    core: num_of(lookup_str(t, "core"@)),
                },
            ),
            None => None,
        },
        VValue::Str(s) => Some(
            VThread {
                id: s,
                target_id: s,
                name: None,
                frame: None,
                state: ThreadState::Stopped,
                core: None,
            },
        ),
        _ => None,
    }
}

/// Decodes the thread of a `new-thread-id=` or `id=` result.
pub fn parse_thread(results: &[MiResult]) -> (r: Option<Thread>)
    ensures
        match r {
            Some(t) => Some(t@),
            None => None,
        } == match thread_entry(results_view(results@)) {
            Some(v) => thread_of(v),
            None => None,
        },
{
    let ghost rv = results_view(results@);
    assert(rv.subrange(0, rv.len() as int) =~= rv);
    let mut i: usize = 0;
    while i < results.len()
        invariant
            i <= results@.len(),
            rv == results_view(results@),
            thread_entry(rv) == thread_entry(rv.subrange(i as int, rv.len() as int)),
        decreases results@.len() - i,
    {
        let ghost rest = rv.subrange(i as int, rv.len() as int);
        assert(rest[0] == results@[i as int]@);
        let name = &results[i].variable;
        if text_eq(name, "new-thread-id") || text_eq(name, "id") {
            match &results[i].value {
                MiValue::Tuple(t) => {
                    assert(results@[i as int].value@->Tuple_0 =~= results_view(t@));
                    let id = match MiParser::get_tuple_string(t, "id") {
                        Some(id) => id,
                        None => {
                            return None;
                        },
                    };
                    return Some(
                        Thread {
                            id,
                            target_id: text_or_empty_exec(MiParser::get_tuple_string(t, "target-id")),
                            name: MiParser::get_tuple_string(t, "name"),
                            frame: None,
                            state: ThreadState::Stopped,
                            core: num_field(t, "core"),
                        },
                    );
                },
                MiValue::String(s) => {
                    return Some(
                        Thread {
                            id: s.clone(),
                            target_id: s.clone(),
                            name: None,
                            frame: None,
                            state: ThreadState::Stopped,
                            core: None,
                        },
                    );
                },
                _ => {},
            }
        }
        assert(rest.drop_first() =~= rv.subrange(i + 1, rv.len() as int));
        i = i + 1;
    }
    None
}

/// The constants among the first `n` values, in order.
pub open spec fn strings_upto(vs: Seq<VValue>, n: int) -> Seq<Seq<char>>
    decreases n,
{
    if n <= 0 {
        seq![]
    } else {
        let rest = strings_upto(vs, n - 1);
        match vs[n - 1] {
            VValue::Str(t) => rest.push(t),
            _ => rest,
        }
    }
}

/// The constants among `vs`, in order.
pub open spec fn strings_of(vs: Seq<VValue>) -> Seq<Seq<char>> {
    strings_upto(vs, vs.len() as int)
}

pub open spec fn values_of(vs: Seq<MiValue>) -> Seq<VValue> {
    Seq::new(vs.len(), |i: int| vs[i]@)
}

/// The texts of the constants in a list of values.
fn collect_strings(vs: &Vec<MiValue>) -> (r: Vec<String>)
    ensures
        texts_view(r@) == strings_of(values_of(vs@)),
{
    let ghost sv = values_of(vs@);
    let mut out: Vec<String> = Vec::new();
    let mut i: usize = 0;
    while i < vs.len()
        invariant
            i <= vs@.len(),
            sv == values_of(vs@),
            texts_view(out@) == strings_upto(sv, i as int),
        decreases vs@.len() - i,
    {
        assert(sv[i as int] == vs@[i as int]@);
        match &vs[i] {
            MiValue::String(s) => {
                let ghost before = out@;
                out.push(s.clone());
                assert(texts_view(out@) =~= texts_view(before).push(s@));
            },
            _ => {},
        }
        i = i + 1;
    }
    out
}

/// A breakpoint with no attributes yet; it is dropped unless a `number`
/// field follows.
pub open spec fn blank_breakpoint() -> VBreakpoint {
    VBreakpoint {
        number: seq![],
        breakpoint_type: seq![],
        disposition: seq![],
        enabled: false,
        addr: None,
        func: None,
        file: None,
        fullname: None,
        line: None,
        thread_groups: None,
        times: 0,
        original_location: None,
        condition: None,
        ignore_count: None,
    }
}

/// A breakpoint after a `key=value` item of a breakpoint table's body that
/// follows it.
pub open spec fn with_field(b: VBreakpoint, key: Seq<char>, v: VValue) -> VBreakpoint {
    match v {
        VValue::Str(s) => if key == "number"@ {
            VBreakpoint { number: s, ..b }
        } else if key == "type"@ {
            VBreakpoint { breakpoint_type: s, ..b }
        } else if key == "disp"@ {
            VBreakpoint { disposition: s, ..b }
        } else if key == "enabled"@ {
            VBreakpoint { enabled: s == "y"@, ..b }
        } else if key == "addr"@ {
            VBreakpoint { addr: Some(s), ..b }
        } else if key == "func"@ {
            VBreakpoint { func: Some(s), ..b }
        } else if key == "file"@ {
            VBreakpoint { file: Some(s), ..b }
        } else if key == "fullname"@ {
            VBreakpoint { fullname: Some(s), ..b }
        } else if key == "line"@ {
            VBreakpoint { line: u64_of(s), ..b }
        } else if key == "times"@ {
            VBreakpoint { times: num_or_zero(Some(s)), ..b }
        } else if key == "original-location"@ {
            VBreakpoint { original_location: Some(s), ..b }
        } else if key == "cond"@ {
            VBreakpoint { condition: Some(s), ..b }
        } else if key == "ignore"@ {
            VBreakpoint { ignore_count: u64_of(s), ..b }
        } else {
            b
        },
        VValue::List(l) => if key == "thread-groups"@ {
            VBreakpoint { thread_groups: Some(strings_of(l)), ..b }
        } else {
            b
        },
        _ => b,
    }
}

/// `done` with the breakpoint `cur` added, if it has a number.
pub open spec fn close_breakpoint(done: Seq<VBreakpoint>, cur: Option<VBreakpoint>) -> Seq<
    VBreakpoint,
> {
    match cur {
        Some(b) => if b.number.len() > 0 {
            done.push(b)
        } else {
            done
        },
        None => done,
    }
}

/// The state after the first `n` items of a breakpoint table's body: the
/// finished breakpoints and the one being read. Each `bkpt=` item starts a
/// breakpoint; the items after it refine that one.
pub open spec fn body_scan(items: Entries, n: int) -> (Seq<VBreakpoint>, Option<VBreakpoint>)
    decreases n,
{
    if n <= 0 {
        (seq![], None)
    } else {
        let (done, cur) = body_scan(items, n - 1);
        let (k, v) = items[n - 1];
        if k == "bkpt"@ {
            (
                close_breakpoint(done, cur),
                match v {
                    VValue::Tuple(t) => breakpoint_of(t),
                    _ => Some(blank_breakpoint()),
                },
            )
        } else {
            match cur {
                Some(b) => (done, Some(with_field(b, k, v))),
                None => (done, None),
            }
        }
    }
}

/// The breakpoints of a breakpoint table's body.
pub open spec fn body_breakpoints(items: Entries) -> Seq<VBreakpoint> {
    let (done, cur) = body_scan(items, items.len() as int);
    close_breakpoint(done, cur)
}

/// The breakpoints of the `BreakpointTable` entries among the first `n`.
pub open spec fn table_breakpoints(rs: Entries, n: int) -> Seq<VBreakpoint>
    decreases n,
{
    if n <= 0 {
        seq![]
    } else {
        let more = if rs[n - 1].0 == "BreakpointTable"@ {
            match rs[n - 1].1 {
                VValue::Tuple(t) => match lookup(t, "body"@) {
                    Some(VValue::ResultList(items)) => body_breakpoints(items),
                    _ => seq![],
                },
                _ => seq![],
            }
        } else {
            seq![]
        };
        table_breakpoints(rs, n - 1) + more
    }
}

pub open spec fn bps_view(v: Seq<Breakpoint>) -> Seq<VBreakpoint> {
    Seq::new(v.len(), |i: int| v[i]@)
}

fn blank_breakpoint_exec() -> (r: Breakpoint)
    ensures
        r@ == blank_breakpoint(),
{
    Breakpoint {
        number: String::new(),
        breakpoint_type: String::new(),
        disposition: String::new(),
        enabled: false,
        addr: None,
        func: None,
        file: None,
        fullname: None,
        line: None,
        thread_groups: None,
        times: 0,
        original_location: None,
        condition: None,
        ignore_count: None,
    }
}

/// Applies one `key=value` item of a breakpoint table's body.
fn apply_field(b: &mut Breakpoint, key: &String, v: &MiValue)
    ensures
        final(b)@ == with_field(old(b)@, key@, v@),
{
    match v {
        MiValue::String(s) => {
            if text_eq(key, "number") {
                b.number = s.clone();
            } else if text_eq(key, "type") {
                b.breakpoint_type = s.clone();
            } else if text_eq(key, "disp") {
                b.disposition = s.clone();
            } else if text_eq(key, "enabled") {
                b.enabled = text_eq(s, "y");
            } else if text_eq(key, "addr") {
                b.addr = Some(s.clone());
            } else if text_eq(key, "func") {
                b.func = Some(s.clone());
            } else if text_eq(key, "file") {
                b.file = Some(s.clone());
            } else if text_eq(key, "fullname") {
                b.fullname = Some(s.clone());
            } else if text_eq(key, "line") {
                b.line = parse_u64(s);
            } else if text_eq(key, "times") {
                b.times = match parse_u64(s) {
                    Some(n) => n,
                    None => 0,
                };
            } else if text_eq(key, "original-location") {
                b.original_location = Some(s.clone());
            } else if text_eq(key, "cond") {
                b.condition = Some(s.clone());
            } else if text_eq(key, "ignore") {
                b.ignore_count = parse_u64(s);
            }
        },
        MiValue::List(l) => {
            assert(v@->List_0 =~= values_of(l@));
            if text_eq(key, "thread-groups") {
                b.thread_groups = Some(collect_strings(l));
            }
        },
        _ => {},
    }
}

fn close_breakpoint_exec(done: &mut Vec<Breakpoint>, cur: Option<Breakpoint>)
    ensures
        bps_view(final(done)@) == close_breakpoint(bps_view(old(done)@), opt_bp_view(cur)),
{
    match cur {
        Some(b) => {
            if b.number.as_str().unicode_len() > 0 {
                let ghost before = done@;
                done.push(b);
                assert(bps_view(done@) =~= bps_view(before).push(b@));
            }
        },
        None => {},
    }
}

/// Decodes the items of a breakpoint table's body.
fn scan_body(items: &Vec<MiResult>, out: &mut Vec<Breakpoint>)
    ensures
        bps_view(final(out)@) == bps_view(old(out)@) + body_breakpoints(results_view(items@)),
{
    let ghost iv = results_view(items@);
    let ghost start = bps_view(out@);
    let mut done: Vec<Breakpoint> = Vec::new();
    let mut cur: Option<Breakpoint> = None;
    let mut i: usize = 0;
    assert(bps_view(done@) =~= seq![]);
    while i < items.len()
        invariant
            i <= items@.len(),
            iv == results_view(items@),
            (bps_view(done@), opt_bp_view(cur)) == body_scan(iv, i as int),
        decreases items@.len() - i,
    {
        assert(iv[i as int] == items@[i as int]@);
        let item = &items[i];
        if text_eq(&item.variable, "bkpt") {
            let next = match &item.value {
                MiValue::Tuple(t) => {
                    assert(item.value@->Tuple_0 =~= results_view(t@));
                    parse_breakpoint_from_tuple(t)
                },
                _ => Some(blank_breakpoint_exec()),
            };
            close_breakpoint_exec(&mut done, cur);
            cur = next;
        } else {
            match cur {
                Some(mut b) => {
                    apply_field(&mut b, &item.variable, &item.value);
                    cur = Some(b);
                },
                None => {},
            }
        }
        i = i + 1;
    }
    close_breakpoint_exec(&mut done, cur);
    let ghost found = bps_view(done@);
    let ghost before = bps_view(out@);
    out.append(&mut done);
    assert(bps_view(out@) =~= before + found);
}

/// Decodes the breakpoints of a `-break-list` reply: the `body` of each
/// `BreakpointTable`, a list of `bkpt=` items.
pub fn parse_breakpoint_list(results: &[MiResult]) -> (r: Vec<Breakpoint>)
    ensures
        bps_view(r@) == table_breakpoints(results_view(results@), results@.len() as int),
{
    let ghost rv = results_view(results@);
    let mut out: Vec<Breakpoint> = Vec::new();
    assert(bps_view(out@) =~= seq![]);
    let mut i: usize = 0;
    while i < results.len()
        invariant
            i <= results@.len(),
            rv == results_view(results@),
            bps_view(out@) == table_breakpoints(rv, i as int),
        decreases results@.len() - i,
    {
        assert(rv[i as int] == results@[i as int]@);
        let ghost before = bps_view(out@);
        if text_eq(&results[i].variable, "BreakpointTable") {
            match &results[i].value {
                MiValue::Tuple(table) => {
                    assert(results@[i as int].value@->Tuple_0 =~= results_view(table@));
                    match MiParser::get_tuple_value(table, "body") {
                        Some(MiValue::ResultList(items)) => {
                            assert(MiValue::ResultList(*items)@->ResultList_0 =~= results_view(
                                items@,
                            ));
                            scan_body(items, &mut out);
                        },
                        _ => {},
                    }
                },
                _ => {},
            }
        }
        assert(bps_view(out@) =~= table_breakpoints(rv, i + 1));
        i = i + 1;
    }
    out
}

/// How many items a list holds (values, or named values).
pub open spec fn item_count(v: VValue) -> int {
    match v {
        VValue::List(vs) => vs.len() as int,
        VValue::ResultList(rs) => rs.len() as int,
        _ => 0,
    }
}

/// The `i`-th item of a list, if it is a tuple. In a list of named values
/// (`[frame={...},frame={...}]`) the item is the value of the `i`-th entry.
pub open spec fn item_tuple(v: VValue, i: int) -> Option<Entries> {
    match v {
        VValue::List(vs) => match vs[i] {
            VValue::Tuple(t) => Some(t),
            _ => None,
        },
        VValue::ResultList(rs) => match rs[i].1 {
            VValue::Tuple(t) => Some(t),
            _ => None,
        },
        _ => None,
    }
}

fn item_count_exec(v: &MiValue) -> (n: usize)
    ensures
        n as int == item_count(v@),
{
    match v {
        MiValue::List(vs) => vs.len(),
        MiValue::ResultList(rs) => rs.len(),
        _ => 0,
    }
}

fn item_tuple_exec(v: &MiValue, i: usize) -> (r: Option<&Vec<MiResult>>)
    requires
        i < item_count(v@),
    ensures
        match r {
            Some(t) => item_tuple(v@, i as int) == Some(results_view(t@)),
            None => item_tuple(v@, i as int) is None,
        },
{
    match v {
        MiValue::List(vs) => match &vs[i] {
            MiValue::Tuple(t) => {
                assert(vs@[i as int]@->Tuple_0 =~= results_view(t@));
                Some(t)
            },
            _ => None,
        },
        MiValue::ResultList(rs) => match &rs[i].value {
            MiValue::Tuple(t) => {
                assert(rs@[i as int].value@->Tuple_0 =~= results_view(t@));
                Some(t)
            },
            _ => None,
        },
        _ => None,
    }
}

/// The frames among the first `n` items of a list.
pub open spec fn frames_upto(v: VValue, n: int) -> Seq<VFrame>
    decreases n,
{
    if n <= 0 {
        seq![]
    } else {
        let more = match item_tuple(v, n - 1) {
            Some(t) => match frame_of(t) {
                Some(f) => seq![f],
                None => seq![],
            },
            None => seq![],
        };
        frames_upto(v, n - 1) + more
    }
}

/// The frames of the `stack` entries among the first `n`.
pub open spec fn stack_frames(rs: Entries, n: int) -> Seq<VFrame>
    decreases n,
{
    if n <= 0 {
        seq![]
    } else {
        let more = if rs[n - 1].0 == "stack"@ {
            frames_upto(rs[n - 1].1, item_count(rs[n - 1].1))
        } else {
            seq![]
        };
        stack_frames(rs, n - 1) + more
    }
}

pub open spec fn frames_view(v: Seq<Frame>) -> Seq<VFrame> {
    Seq::new(v.len(), |i: int| v[i]@)
}

fn push_frames(v: &MiValue, out: &mut Vec<Frame>)
    ensures
        frames_view(final(out)@) == frames_view(old(out)@) + frames_upto(v@, item_count(v@)),
{
    let ghost start = frames_view(out@);
    let n = item_count_exec(v);
    let mut i: usize = 0;
    assert(start + frames_upto(v@, 0) =~= start);
    while i < n
        invariant
            i <= n,
            n as int == item_count(v@),
            frames_view(out@) == start + frames_upto(v@, i as int),
        decreases n - i,
    {
        let ghost before = frames_view(out@);
        match item_tuple_exec(v, i) {
            Some(t) => match parse_frame_from_tuple(t) {
                Some(f) => {
                    out.push(f);
                    assert(frames_view(out@) =~= before + seq![f@]);
                },
                None => {},
            },
            None => {},
        }
        assert(frames_view(out@) =~= start + frames_upto(v@, i + 1));
        i = i + 1;
    }
}

/// Decodes the frames of a `-stack-list-frames` reply.
pub fn parse_stack_frames(results: &[MiResult]) -> (r: Vec<Frame>)
    ensures
        frames_view(r@) == stack_frames(results_view(results@), results@.len() as int),
{
    let ghost rv = results_view(results@);
    let mut out: Vec<Frame> = Vec::new();
    assert(frames_view(out@) =~= seq![]);
    let mut i: usize = 0;
    while i < results.len()
        invariant
            i <= results@.len(),
            rv == results_view(results@),
            frames_view(out@) == stack_frames(rv, i as int),
        decreases results@.len() - i,
    {
        assert(rv[i as int] == results@[i as int]@);
        if text_eq(&results[i].variable, "stack") {
            push_frames(&results[i].value, &mut out);
        }
        assert(frames_view(out@) =~= stack_frames(rv, i + 1));
        i = i + 1;
    }
    out
}

/// The ids that one entry of a `thread-ids` tuple gives: a constant, or the
/// constants of a list.
pub open spec fn entry_ids(v: VValue) -> Seq<Seq<char>> {
    match v {
        VValue::Str(s) => seq![s],
        VValue::List(l) => strings_of(l),
        _ => seq![],
    }
}

/// The ids of the first `n` entries of a `thread-ids` tuple.
pub open spec fn tuple_ids(es: Entries, n: int) -> Seq<Seq<char>>
    decreases n,
{
    if n <= 0 {
        seq![]
    } else {
        tuple_ids(es, n - 1) + entry_ids(es[n - 1].1)
    }
}

/// The thread ids of the `thread-ids` entries among the first `n`.
pub open spec fn thread_ids(rs: Entries, n: int) -> Seq<Seq<char>>
    decreases n,
{
    if n <= 0 {
        seq![]
    } else {
        let more = if rs[n - 1].0 == "thread-ids"@ {
            match rs[n - 1].1 {
                VValue::Tuple(es) => tuple_ids(es, es.len() as int),
                VValue::List(l) => strings_of(l),
                _ => seq![],
            }
        } else {
            seq![]
        };
        thread_ids(rs, n - 1) + more
    }
}

fn push_strings(vs: &Vec<MiValue>, out: &mut Vec<String>)
    ensures
        texts_view(final(out)@) == texts_view(old(out)@) + strings_of(values_of(vs@)),
{
    let ghost before = texts_view(out@);
    let mut found = collect_strings(vs);
    out.append(&mut found);
    assert(texts_view(out@) =~= before + strings_of(values_of(vs@)));
}

/// Decodes the ids of a `-thread-list-ids` reply.
pub fn parse_thread_ids(results: &[MiResult]) -> (r: Vec<String>)
    ensures
        texts_view(r@) == thread_ids(results_view(results@), results@.len() as int),
{
    let ghost rv = results_view(results@);
    let mut out: Vec<String> = Vec::new();
    assert(texts_view(out@) =~= seq![]);
    let mut i: usize = 0;
    while i < results.len()
        invariant
            i <= results@.len(),
            rv == results_view(results@),
            texts_view(out@) == thread_ids(rv, i as int),
        decreases results@.len() - i,
    {
        assert(rv[i as int] == results@[i as int]@);
        let ghost before = texts_view(out@);
        if text_eq(&results[i].variable, "thread-ids") {
            match &results[i].value {
                MiValue::Tuple(es) => {
                    let ghost ev = results_view(es@);
                    assert(results@[i as int].value@->Tuple_0 =~= ev);
                    let mut j: usize = 0;
                    assert(before + tuple_ids(ev, 0) =~= before);
                    while j < es.len()
                        invariant
                            j <= es@.len(),
                            ev == results_view(es@),
                            texts_view(out@) == before + tuple_ids(ev, j as int),
                        decreases es@.len() - j,
                    {
                        let ghost mid = texts_view(out@);
                        assert(ev[j as int] == es@[j as int]@);
                        match &es[j].value {
                            MiValue::String(s) => {
                                out.push(s.clone());
                                assert(texts_view(out@) =~= mid + seq![s@]);
                            },
                            MiValue::List(l) => {
                                assert(es@[j as int].value@->List_0 =~= values_of(l@));
                                push_strings(l, &mut out);
                            },
                            _ => {
                                assert(texts_view(out@) =~= mid + seq![]);
                            },
                        }
                        assert(texts_view(out@) =~= before + tuple_ids(ev, j + 1));
                        j = j + 1;
                    }
                },
                MiValue::List(l) => {
                    assert(results@[i as int].value@->List_0 =~= values_of(l@));
                    push_strings(l, &mut out);
                },
                _ => {},
            }
        }
        assert(texts_view(out@) =~= thread_ids(rv, i + 1));
        i = i + 1;
    }
    out
}

/// The tuple that begins the list of the first `memory` entry whose value
/// is a list that begins with a tuple.
pub open spec fn memory_tuple(rs: Entries) -> Option<Entries>
    decreases rs.len(),
{
    if rs.len() == 0 {
        None
    } else if rs[0].0 == "memory"@ && rs[0].1 is List && rs[0].1->List_0.len() > 0
        && rs[0].1->List_0[0] is Tuple {
        Some(rs[0].1->List_0[0]->Tuple_0)
    } else {
        memory_tuple(rs.drop_first())
    }
}

/// The start address of a memory tuple: `begin`, else `addr`, else `offset`.
pub open spec fn memory_addr(t: Entries) -> Option<Seq<char>> {
    if lookup_str(t, "begin"@) is Some {
        lookup_str(t, "begin"@)
    } else if lookup_str(t, "addr"@) is Some {
        lookup_str(t, "addr"@)
    } else {
        lookup_str(t, "offset"@)
    }
}

/// The memory block that a memory tuple describes: its start address and its
/// contents, kept whole as one hex text.
pub open spec fn memory_of(t: Entries) -> Option<VMemory> {
    match (memory_addr(t), lookup_str(t, "contents"@)) {
        (Some(a), Some(c)) => Some(VMemory { addr: a, data: seq![c] }),
        _ => None,
    }
}

/// Decodes the first block of a `-data-read-memory-bytes` reply.
pub fn parse_memory_content(results: &[MiResult]) -> (r: Option<MemoryContent>)
    ensures
        match r {
            Some(m) => Some(m@),
            None => None,
        } == match memory_tuple(results_view(results@)) {
            Some(t) => memory_of(t),
            None => None,
        },
{
    let ghost rv = results_view(results@);
    assert(rv.subrange(0, rv.len() as int) =~= rv);
    let mut i: usize = 0;
    while i < results.len()
        invariant
            i <= results@.len(),
            rv == results_view(results@),
            memory_tuple(rv) == memory_tuple(rv.subrange(i as int, rv.len() as int)),
        decreases results@.len() - i,
    {
        let ghost rest = rv.subrange(i as int, rv.len() as int);
        assert(rest[0] == results@[i as int]@);
        if text_eq(&results[i].variable, "memory") {
            match &results[i].value {
                MiValue::List(l) => {
                    if l.len() > 0 {
                        match &l[0] {
                            MiValue::Tuple(t) => {
                                assert(results@[i as int].value@->List_0[0] == l@[0]@);
                                assert(l@[0]@->Tuple_0 =~= results_view(t@));
                                let addr = match MiParser::get_tuple_string(t, "begin") {
                                    Some(a) => a,
                                    None => match MiParser::get_tuple_string(t, "addr") {
                                        Some(a) => a,
                                        None => match MiParser::get_tuple_string(t, "offset") {
                                            Some(a) => a,
                                            None => {
                                                return None;
                                            },
                                        },
                                    },
                                };
                                let contents = match MiParser::get_tuple_string(t, "contents") {
                                    Some(c) => c,
                                    None => {
                                        return None;
                                    },
                                };
                                let mut data: Vec<String> = Vec::new();
                                data.push(contents);
                                let m = MemoryContent { addr, data };
                                assert(m@.data =~= seq![contents@]);
                                return Some(m);
                            },
                            _ => {},
                        }
                    }
                },
                _ => {},
            }
        }
        assert(rest.drop_first() =~= rv.subrange(i + 1, rv.len() as int));
        i = i + 1;
    }
    None
}

/// The list of the first `register-names` entry whose value is a list.
pub open spec fn names_list(rs: Entries) -> Option<Seq<VValue>>
    decreases rs.len(),
{
    if rs.len() == 0 {
        None
    } else if rs[0].0 == "register-names"@ && rs[0].1 is List {
        Some(rs[0].1->List_0)
    } else {
        names_list(rs.drop_first())
    }
}

/// Decodes the names of a `-data-list-register-names` reply; a register
/// number is its position in the list.
pub fn parse_register_names(results: &[MiResult]) -> (r: Vec<String>)
    ensures
        texts_view(r@) == match names_list(results_view(results@)) {
            Some(l) => strings_of(l),
            None => seq![],
        },
{
    let ghost rv = results_view(results@);
    assert(rv.subrange(0, rv.len() as int) =~= rv);
    let mut i: usize = 0;
    while i < results.len()
        invariant
            i <= results@.len(),
            rv == results_view(results@),
            names_list(rv) == names_list(rv.subrange(i as int, rv.len() as int)),
        decreases results@.len() - i,
    {
        let ghost rest = rv.subrange(i as int, rv.len() as int);
        assert(rest[0] == results@[i as int]@);
        if text_eq(&results[i].variable, "register-names") {
            match &results[i].value {
                MiValue::List(l) => {
                    assert(results@[i as int].value@->List_0 =~= values_of(l@));
                    return collect_strings(l);
                },
                _ => {},
            }
        }
        assert(rest.drop_first() =~= rv.subrange(i + 1, rv.len() as int));
        i = i + 1;
    }
    let r: Vec<String> = Vec::new();
    assert(texts_view(r@) =~= seq![]);
    r
}

/// The register that a register-value tuple describes; it needs a numeric
/// `number` and a `value`. Its name is left empty.
pub open spec fn register_of(t: Entries) -> Option<VRegister> {
    match (num_of(lookup_str(t, "number"@)), lookup_str(t, "value"@)) {
        (Some(n), Some(v)) => Some(VRegister { number: n, name: seq![], value: v }),
        _ => None,
    }
}

/// The registers among the first `n` items of a list.
pub open spec fn registers_upto(v: VValue, n: int) -> Seq<VRegister>
    decreases n,
{
    if n <= 0 {
        seq![]
    } else {
        let more = match item_tuple(v, n - 1) {
            Some(t) => match register_of(t) {
                Some(g) => seq![g],
                None => seq![],
            },
            None => seq![],
        };
        registers_upto(v, n - 1) + more
    }
}

/// The registers of the `register-values` entries among the first `n`
/// whose value is a list of tuples.
pub open spec fn register_values(rs: Entries, n: int) -> Seq<VRegister>
    decreases n,
{
    if n <= 0 {
        seq![]
    } else {
        let more = if rs[n - 1].0 == "register-values"@ && rs[n - 1].1 is List {
            registers_upto(rs[n - 1].1, item_count(rs[n - 1].1))
        } else {
            seq![]
        };
        register_values(rs, n - 1) + more
    }
}

pub open spec fn registers_view(v: Seq<Register>) -> Seq<VRegister> {
    Seq::new(v.len(), |i: int| v[i]@)
}

/// Decodes the registers of a `-data-list-register-values` reply.
pub fn parse_register_values(results: &[MiResult]) -> (r: Vec<Register>)
    ensures
        registers_view(r@) == register_values(results_view(results@), results@.len() as int),
{
    let ghost rv = results_view(results@);
    let mut out: Vec<Register> = Vec::new();
    assert(registers_view(out@) =~= seq![]);
    let mut i: usize = 0;
    while i < results.len()
        invariant
            i <= results@.len(),
            rv == results_view(results@),
            registers_view(out@) == register_values(rv, i as int),
        decreases results@.len() - i,
    {
        assert(rv[i as int] == results@[i as int]@);
        let ghost before = registers_view(out@);
        let value = &results[i].value;
        if text_eq(&results[i].variable, "register-values") && matches!(value, MiValue::List(_)) {
            let n = item_count_exec(value);
            let mut j: usize = 0;
            assert(before + registers_upto(value@, 0) =~= before);
            while j < n
                invariant
                    j <= n,
                    n as int == item_count(value@),
                    registers_view(out@) == before + registers_upto(value@, j as int),
                decreases n - j,
            {
                let ghost mid = registers_view(out@);
                match item_tuple_exec(value, j) {
                    Some(t) => {
                        match (num_field(t, "number"), MiParser::get_tuple_string(t, "value")) {
                            (Some(number), Some(v)) => {
                                out.push(Register { number, name: String::new(), value: v });
                                assert(registers_view(out@) =~= mid + seq![
                                    VRegister { number, name: seq![], value: v@ },
                                ]);
                            },
                            _ => {},
                        }
                    },
                    None => {},
                }
                assert(registers_view(out@) =~= before + registers_upto(value@, j + 1));
                j = j + 1;
            }
        }
        assert(registers_view(out@) =~= register_values(rv, i + 1));
        i = i + 1;
    }
    out
}

/// The variable object of a `-var-create` reply; `var_name` stands in for a
/// missing `name`.
pub open spec fn variable_of(rs: Entries, var_name: Seq<char>) -> VVariable {
    VVariable {
        name: match lookup_str(rs, "name"@) {
            Some(n) => n,
            None => var_name,
        },
        value: lookup_str(rs, "value"@),
        var_type: lookup_str(rs, "type"@),
        attributes: match lookup(rs, "attributes"@) {
            Some(VValue::List(l)) => Some(strings_of(l)),
            _ => None,
        },
        has_children: false,
    }
}

/// Decodes the reply to `-var-create`. It always gives a variable.
pub fn parse_variable(results: &[MiResult], var_name: &str) -> (r: Option<Variable>)
    ensures
        r matches Some(v) && v@ == variable_of(results_view(results@), var_name@),
{
    let name = match find_text(results, "name") {
        Some(n) => n,
        None => String::from_str(var_name),
    };
    let attributes = match find_entry(results, "attributes") {
        Some(MiValue::List(l)) => {
            assert(MiValue::List(*l)@->List_0 =~= values_of(l@));
            Some(collect_strings(l))
        },
        _ => None,
    };
    Some(
        Variable {
            name,
            value: find_text(results, "value"),
            var_type: find_text(results, "type"),
            attributes,
            children: None,
        },
    )
}

/// The child that a child tuple describes; it needs a `name`.
pub open spec fn child_of(t: Entries) -> Option<VVariable> {
    match lookup_str(t, "name"@) {
        Some(n) => Some(
            VVariable {
                name: n,
                value: lookup_str(t, "value"@),
                var_type: lookup_str(t, "type"@),
                attributes: None,
                has_children: false,
            },
        ),
        None => None,
    }
}

/// Decodes one child tuple of a `-var-list-children` reply.
pub fn parse_child_variable(tuple: &Vec<MiResult>) -> (r: Option<Variable>)
    ensures
        match r {
            Some(v) => Some(v@),
            None => None,
        } == child_of(results_view(tuple@)),
{
    let name = match MiParser::get_tuple_string(tuple, "name") {
        Some(n) => n,
        None => {
            return None;
        },
    };
    Some(
        Variable {
            name,
            value: MiParser::get_tuple_string(tuple, "value"),
            var_type: MiParser::get_tuple_string(tuple, "type"),
            attributes: None,
            children: None,
        },
    )
}

/// The children among the first `n` items of a list.
pub open spec fn children_upto(v: VValue, n: int) -> Seq<VVariable>
    decreases n,
{
    if n <= 0 {
        seq![]
    } else {
        let more = match item_tuple(v, n - 1) {
            Some(t) => match child_of(t) {
                Some(c) => seq![c],
                None => seq![],
            },
            None => seq![],
        };
        children_upto(v, n - 1) + more
    }
}

/// The children of the `children` entries among the first `n`.
pub open spec fn variable_children(rs: Entries, n: int) -> Seq<VVariable>
    decreases n,
{
    if n <= 0 {
        seq![]
    } else {
        let more = if rs[n - 1].0 == "children"@ {
            children_upto(rs[n - 1].1, item_count(rs[n - 1].1))
        } else {
            seq![]
        };
        variable_children(rs, n - 1) + more
    }
}

pub open spec fn variables_view(v: Seq<Variable>) -> Seq<VVariable> {
    Seq::new(v.len(), |i: int| v[i]@)
}

/// Decodes the children of a `-var-list-children` reply.
pub fn parse_variable_children(results: &[MiResult]) -> (r: Vec<Variable>)
    ensures
        variables_view(r@) == variable_children(results_view(results@), results@.len() as int),
{
    let ghost rv = results_view(results@);
    let mut out: Vec<Variable> = Vec::new();
    assert(variables_view(out@) =~= seq![]);
    let mut i: usize = 0;
    while i < results.len()
        invariant
            i <= results@.len(),
            rv == results_view(results@),
            variables_view(out@) == variable_children(rv, i as int),
        decreases results@.len() - i,
    {
        assert(rv[i as int] == results@[i as int]@);
        let ghost before = variables_view(out@);
        if text_eq(&results[i].variable, "children") {
            let value = &results[i].value;
            let n = item_count_exec(value);
            let mut j: usize = 0;
            assert(before + children_upto(value@, 0) =~= before);
            while j < n
                invariant
                    j <= n,
                    n as int == item_count(value@),
                    variables_view(out@) == before + children_upto(value@, j as int),
                decreases n - j,
            {
                let ghost mid = variables_view(out@);
                match item_tuple_exec(value, j) {
                    Some(t) => match parse_child_variable(t) {
                        Some(c) => {
                            out.push(c);
                            assert(variables_view(out@) =~= mid + seq![c@]);
                        },
                        None => {},
                    },
                    None => {},
                }
                assert(variables_view(out@) =~= before + children_upto(value@, j + 1));
                j = j + 1;
            }
        }
        assert(variables_view(out@) =~= variable_children(rv, i + 1));
        i = i + 1;
    }
    out
}

} // verus!
