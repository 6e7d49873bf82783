//! The command surface: the text of each MI command, and what a session does
//! with its reply. A reply is accepted when its class is one the command
//! expects; `^error` fails with the debugger's message, `^exit` marks the
//! session disconnected, and anything else is a protocol error.
use vstd::prelude::*;
use crate::decode::{
    bps_view, frames_view, memory_of, memory_tuple, names_list, opt_frame, parse_breakpoint,
    parse_breakpoint_list, parse_frame, parse_memory_content, parse_register_names,
    parse_register_values, parse_stack_frames, parse_thread_ids, parse_variable,
    parse_variable_children, parse_watchpoint, register_values, registers_view, stack_frames,
    strings_of, table_breakpoints, thread_ids, variable_children, variable_of, variables_view,
    watch_tuple, watchpoint_of,
};
use crate::parser::{entry_text, find_text};
use crate::session::{breakpoint_in, frame_in};
use crate::text::{decimal_string, decimal_text};
use crate::types::{
    Breakpoint, Frame, GdbError, GdbErrorKind, GdbSessionState, MemoryContent, MiOutputRecord,
    MiResult, Register, ResultClass, Variable, Watchpoint, WatchpointType, results_view, texts_view,
};

verus! {

/// Which reply classes a command accepts.
#[derive(Debug, Clone, Copy, PartialEq, Eq, Structural)]
pub enum Expect {
    /// `^done`.
    Done,
    /// `^done` or `^connected` (attaching to a target).
    Attach,
    /// `^running`.
    Running,
    /// `^running`, or `^done` when the target did not need to move.
    Step,
}

pub open spec fn accepts(e: Expect, c: ResultClass) -> bool {
    match e {
        Expect::Done => c == ResultClass::Done,
        Expect::Attach => c == ResultClass::Done || c == ResultClass::Connected,
        Expect::Running => c == ResultClass::Running,
        Expect::Step => c == ResultClass::Running || c == ResultClass::Done,
    }
}

/// The class and results of a reply that the command accepts.
pub open spec fn accepted(rec: MiOutputRecord, e: Expect) -> Option<(ResultClass, Vec<MiResult>)> {
    match rec {
        MiOutputRecord::Result { class, results, .. } => if accepts(e, class) {
            Some((class, results))
        } else {
            None
        },
        _ => None,
    }
}

/// How a command fails on a reply it does not accept: `^error` gives a
/// `CommandError` with the debugger's `msg` verbatim (or "unknown error"),
/// `^exit` marks the session disconnected and not running, anything else is
/// a `ProtocolError`.
pub open spec fn refused(rec: MiOutputRecord, s0: GdbSessionState, s1: GdbSessionState, err: GdbError) -> bool {
    match rec {
        MiOutputRecord::Result { class: ResultClass::Error, results, .. } => {
            &&& err.kind == GdbErrorKind::CommandError
            &&& s1 == s0
            &&& match entry_text(results@, "msg"@) {
                Some(m) => err.message == m,
                None => err.message@ == "unknown error"@,
            }
        },
        MiOutputRecord::Result { class: ResultClass::Exit, .. } => {
            &&& err.kind == GdbErrorKind::NotStarted
            &&& s1 == GdbSessionState { connected: false, running: false, ..s0 }
        },
        _ => err.kind == GdbErrorKind::ProtocolError && s1 == s0,
    }
}

/// Checks the class of a reply; an accepted reply gives its class and results.
pub fn check_reply(state: &mut GdbSessionState, record: MiOutputRecord, expect: Expect) -> (r: Result<
    (ResultClass, Vec<MiResult>),
    GdbError,
>)
    ensures
        match accepted(record, expect) {
            Some(a) => r == Ok::<(ResultClass, Vec<MiResult>), GdbError>(a) && *final(state)
                == *old(state),
            None => r matches Err(e) && refused(record, *old(state), *final(state), e),
        },
{
    match record {
        MiOutputRecord::Result { class, results, .. } => {
            let ok = match expect {
                Expect::Done => class == ResultClass::Done,
                Expect::Attach => class == ResultClass::Done || class == ResultClass::Connected,
                Expect::Running => class == ResultClass::Running,
                Expect::Step => class == ResultClass::Running || class == ResultClass::Done,
            };
            if ok {
                Ok((class, results))
            } else if class == ResultClass::Error {
                let message = match find_text(results.as_slice(), "msg") {
                    Some(m) => m,
                    None => String::from_str("unknown error"),
                };
                Err(GdbError { kind: GdbErrorKind::CommandError, message })
            } else if class == ResultClass::Exit {
                state.connected = false;
                state.running = false;
                Err(GdbError::new(GdbErrorKind::NotStarted, "the debugger exited"))
            } else {
                Err(GdbError::new(GdbErrorKind::ProtocolError, "unexpected reply class"))
            }
        },
        _ => Err(GdbError::new(GdbErrorKind::ProtocolError, "reply is not a result record")),
    }
}

/// The results of a reply the command accepts.
pub open spec fn accepted_results(rec: MiOutputRecord, e: Expect) -> Option<Seq<MiResult>> {
    match accepted(rec, e) {
        Some((_, rs)) => Some(rs@),
        None => None,
    }
}

fn done_results(state: &mut GdbSessionState, record: MiOutputRecord) -> (r: Result<Vec<MiResult>, GdbError>)
    ensures
        match accepted_results(record, Expect::Done) {
            Some(rs) => (r matches Ok(v) && v@ == rs) && *final(state) == *old(state),
            None => r matches Err(e) && refused(record, *old(state), *final(state), e),
        },
{
    match check_reply(state, record, Expect::Done) {
        Ok((_, results)) => Ok(results),
        Err(e) => Err(e),
    }
}

fn missing_field() -> (e: GdbError)
    ensures
        e.kind == GdbErrorKind::ParseError,
{
    GdbError::new(GdbErrorKind::ParseError, "the reply lacks an expected field")
}

/// The reply to a command that returns nothing (`-break-delete`,
/// `-break-enable`, `-break-disable`, `-var-delete`, ...).
pub fn done_reply(state: &mut GdbSessionState, record: MiOutputRecord) -> (r: Result<(), GdbError>)
    ensures
        match accepted_results(record, Expect::Done) {
            Some(_) => r is Ok && *final(state) == *old(state),
            None => r matches Err(e) && refused(record, *old(state), *final(state), e),
        },
{
    match done_results(state, record) {
        Ok(_) => Ok(()),
        Err(e) => Err(e),
    }
}

/// The reply to `-file-exec-and-symbols`: the session records the executable.
pub fn file_exec_and_symbols_reply(state: &mut GdbSessionState, record: MiOutputRecord, file: &str) -> (r:
    Result<(), GdbError>)
    ensures
        match accepted_results(record, Expect::Done) {
            Some(_) => r is Ok && (final(state).executable matches Some(x) && x@ == file@)
                && *final(state) == GdbSessionState {
                executable: final(state).executable,
                ..*old(state)
            },
            None => r matches Err(e) && refused(record, *old(state), *final(state), e),
        },
{
    match done_results(state, record) {
        Ok(_) => {
            state.executable = Some(String::from_str(file));
            Ok(())
        },
        Err(e) => Err(e),
    }
}

/// The reply to `-target-select`: `^done` or `^connected` marks the target
/// remote.
pub fn target_connect_reply(state: &mut GdbSessionState, record: MiOutputRecord) -> (r: Result<
    (),
    GdbError,
>)
    ensures
        match accepted(record, Expect::Attach) {
            Some(_) => r is Ok && *final(state) == GdbSessionState {
                target_remote: true,
                ..*old(state)
            },
            None => r matches Err(e) && refused(record, *old(state), *final(state), e),
        },
{
    match check_reply(state, record, Expect::Attach) {
        Ok(_) => {
            state.target_remote = true;
            Ok(())
        },
        Err(e) => Err(e),
    }
}

/// The reply to `-target-disconnect`: the target is no longer remote.
pub fn target_disconnect_reply(state: &mut GdbSessionState, record: MiOutputRecord) -> (r: Result<
    (),
    GdbError,
>)
    ensures
        match accepted_results(record, Expect::Done) {
            Some(_) => r is Ok && *final(state) == GdbSessionState {
                target_remote: false,
                ..*old(state)
            },
            None => r matches Err(e) && refused(record, *old(state), *final(state), e),
        },
{
    match done_results(state, record) {
        Ok(_) => {
            state.target_remote = false;
            Ok(())
        },
        Err(e) => Err(e),
    }
}

/// The reply to `-gdb-set architecture`: the session records it.
pub fn set_architecture_reply(state: &mut GdbSessionState, record: MiOutputRecord, arch: &str) -> (r:
    Result<(), GdbError>)
    ensures
        match accepted_results(record, Expect::Done) {
            Some(_) => r is Ok && (final(state).architecture matches Some(x) && x@ == arch@)
                && *final(state) == GdbSessionState {
                architecture: final(state).architecture,
                ..*old(state)
            },
            None => r matches Err(e) && refused(record, *old(state), *final(state), e),
        },
{
    match done_results(state, record) {
        Ok(_) => {
            state.architecture = Some(String::from_str(arch));
            Ok(())
        },
        Err(e) => Err(e),
    }
}

/// The reply to `-break-insert`: the breakpoint of its `bkpt` tuple.
pub fn break_insert_reply(state: &mut GdbSessionState, record: MiOutputRecord) -> (r: Result<
    Breakpoint,
    GdbError,
>)
    ensures
        match accepted_results(record, Expect::Done) {
            Some(rs) => *final(state) == *old(state) && match breakpoint_in(rs) {
                Some(b) => r matches Ok(bp) && bp@ == b,
                None => r matches Err(e) && e.kind == GdbErrorKind::ParseError,
            },
            None => r matches Err(e) && refused(record, *old(state), *final(state), e),
        },
{
    match done_results(state, record) {
        Ok(results) => match parse_breakpoint(results.as_slice()) {
            Some(b) => Ok(b),
            None => Err(missing_field()),
        },
        Err(e) => Err(e),
    }
}

/// The reply to `-break-list`: the breakpoints of its table.
pub fn break_list_reply(state: &mut GdbSessionState, record: MiOutputRecord) -> (r: Result<
    Vec<Breakpoint>,
    GdbError,
>)
    ensures
        match accepted_results(record, Expect::Done) {
            Some(rs) => *final(state) == *old(state) && (r matches Ok(v) && bps_view(v@)
                == table_breakpoints(results_view(rs), rs.len() as int)),
            None => r matches Err(e) && refused(record, *old(state), *final(state), e),
        },
{
    match done_results(state, record) {
        Ok(results) => Ok(parse_breakpoint_list(results.as_slice())),
        Err(e) => Err(e),
    }
}

/// The reply to `-break-watch`: the watchpoint it created, of kind `ty`.
pub fn watch_insert_reply(
    state: &mut GdbSessionState,
    record: MiOutputRecord,
    ty: WatchpointType,
) -> (r: Result<Watchpoint, GdbError>)
    ensures
        match accepted_results(record, Expect::Done) {
            Some(rs) => *final(state) == *old(state) && match watch_tuple(results_view(rs)) {
                Some(t) => match watchpoint_of(t, ty) {
                    Some(w) => r matches Ok(wp) && wp@ == w,
                    None => r matches Err(e) && e.kind == GdbErrorKind::ParseError,
                },
                None => r matches Err(e) && e.kind == GdbErrorKind::ParseError,
            },
            None => r matches Err(e) && refused(record, *old(state), *final(state), e),
        },
{
    match done_results(state, record) {
        Ok(results) => match parse_watchpoint(results.as_slice(), ty) {
            Some(w) => Ok(w),
            None => Err(missing_field()),
        },
        Err(e) => Err(e),
    }
}

/// The reply to an execution command (`-exec-run`, `-exec-continue`,
/// `-exec-next`, ...): `true` when the target is now running, so that a
/// caller that waits for the stop must wait; `false` when a step variant got
/// `^done`.
pub fn exec_reply(state: &mut GdbSessionState, record: MiOutputRecord, expect: Expect) -> (r: Result<
    bool,
    GdbError,
>)
    requires
        expect == Expect::Running || expect == Expect::Step,
    ensures
        match accepted(record, expect) {
            Some((c, _)) => r == Ok::<bool, GdbError>(c == ResultClass::Running) && *final(state)
                == *old(state),
            None => r matches Err(e) && refused(record, *old(state), *final(state), e),
        },
{
    match check_reply(state, record, expect) {
        Ok((class, _)) => Ok(class == ResultClass::Running),
        Err(e) => Err(e),
    }
}

/// The reply to `-exec-interrupt`: the target is no longer running.
pub fn interrupt_reply(state: &mut GdbSessionState, record: MiOutputRecord) -> (r: Result<(), GdbError>)
    ensures
        match accepted_results(record, Expect::Done) {
            Some(_) => r is Ok && *final(state) == GdbSessionState { running: false, ..*old(state) },
            None => r matches Err(e) && refused(record, *old(state), *final(state), e),
        },
{
    match done_results(state, record) {
        Ok(_) => {
            state.running = false;
            Ok(())
        },
        Err(e) => Err(e),
    }
}

/// The reply to `-stack-list-frames`: its frames.
pub fn stack_list_frames_reply(state: &mut GdbSessionState, record: MiOutputRecord) -> (r: Result<
    Vec<Frame>,
    GdbError,
>)
    ensures
        match accepted_results(record, Expect::Done) {
            Some(rs) => *final(state) == *old(state) && (r matches Ok(v) && frames_view(v@)
                == stack_frames(results_view(rs), rs.len() as int)),
            None => r matches Err(e) && refused(record, *old(state), *final(state), e),
        },
{
    match done_results(state, record) {
        Ok(results) => Ok(parse_stack_frames(results.as_slice())),
        Err(e) => Err(e),
    }
}

/// The reply to `-stack-info-frame`: its frame, if it has one.
pub fn stack_info_frame_reply(state: &mut GdbSessionState, record: MiOutputRecord) -> (r: Result<
    Option<Frame>,
    GdbError,
>)
    ensures
        match accepted_results(record, Expect::Done) {
            Some(rs) => *final(state) == *old(state) && (r matches Ok(f) && opt_frame(f) == frame_in(
                rs,
            )),
            None => r matches Err(e) && refused(record, *old(state), *final(state), e),
        },
{
    match done_results(state, record) {
        Ok(results) => Ok(parse_frame(results.as_slice())),
        Err(e) => Err(e),
    }
}

/// The reply to `-stack-select-frame`: the session records the frame.
pub fn stack_select_frame_reply(state: &mut GdbSessionState, record: MiOutputRecord, level: u64) -> (r:
    Result<(), GdbError>)
    ensures
        match accepted_results(record, Expect::Done) {
            Some(_) => r is Ok && *final(state) == GdbSessionState {
                current_frame: Some(level),
                ..*old(state)
            },
            None => r matches Err(e) && refused(record, *old(state), *final(state), e),
        },
{
    match done_results(state, record) {
        Ok(_) => {
            state.current_frame = Some(level);
            Ok(())
        },
        Err(e) => Err(e),
    }
}

/// The reply to `-thread-list-ids`: the thread ids.
pub fn thread_list_ids_reply(state: &mut GdbSessionState, record: MiOutputRecord) -> (r: Result<
    Vec<String>,
    GdbError,
>)
    ensures
        match accepted_results(record, Expect::Done) {
            Some(rs) => *final(state) == *old(state) && (r matches Ok(v) && texts_view(v@)
                == thread_ids(results_view(rs), rs.len() as int)),
            None => r matches Err(e) && refused(record, *old(state), *final(state), e),
        },
{
    match done_results(state, record) {
        Ok(results) => Ok(parse_thread_ids(results.as_slice())),
        Err(e) => Err(e),
    }
}

/// The reply to `-thread-select`: the session records the thread.
pub fn thread_select_reply(state: &mut GdbSessionState, record: MiOutputRecord, id: &str) -> (r:
    Result<(), GdbError>)
    ensures
        match accepted_results(record, Expect::Done) {
            Some(_) => r is Ok && (final(state).current_thread matches Some(x) && x@ == id@)
                && *final(state) == GdbSessionState {
                current_thread: final(state).current_thread,
                ..*old(state)
            },
            None => r matches Err(e) && refused(record, *old(state), *final(state), e),
        },
{
    match done_results(state, record) {
        Ok(_) => {
            state.current_thread = Some(String::from_str(id));
            Ok(())
        },
        Err(e) => Err(e),
    }
}

/// The reply to `-data-read-memory-bytes`: its first block.
pub fn data_read_memory_reply(state: &mut GdbSessionState, record: MiOutputRecord) -> (r: Result<
    MemoryContent,
    GdbError,
>)
    ensures
        match accepted_results(record, Expect::Done) {
            Some(rs) => *final(state) == *old(state) && match memory_tuple(results_view(rs)) {
                Some(t) => match memory_of(t) {
                    Some(m) => r matches Ok(mc) && mc@ == m,
                    None => r matches Err(e) && e.kind == GdbErrorKind::ParseError,
                },
                None => r matches Err(e) && e.kind == GdbErrorKind::ParseError,
            },
            None => r matches Err(e) && refused(record, *old(state), *final(state), e),
        },
{
    match done_results(state, record) {
        Ok(results) => match parse_memory_content(results.as_slice()) {
            Some(m) => Ok(m),
            None => Err(missing_field()),
        },
        Err(e) => Err(e),
    }
}

/// The reply to `-data-evaluate-expression` or `-var-evaluate-expression`:
/// its `value` text.
pub fn evaluate_reply(state: &mut GdbSessionState, record: MiOutputRecord) -> (r: Result<String, GdbError>)
    ensures
        match accepted_results(record, Expect::Done) {
            Some(rs) => *final(state) == *old(state) && match entry_text(rs, "value"@) {
                Some(v) => r == Ok::<String, GdbError>(v),
                None => r matches Err(e) && e.kind == GdbErrorKind::ParseError,
            },
            None => r matches Err(e) && refused(record, *old(state), *final(state), e),
        },
{
    match done_results(state, record) {
        Ok(results) => match find_text(results.as_slice(), "value") {
            Some(v) => Ok(v),
            None => Err(missing_field()),
        },
        Err(e) => Err(e),
    }
}

/// The reply to `-data-list-register-names`.
pub fn register_names_reply(state: &mut GdbSessionState, record: MiOutputRecord) -> (r: Result<
    Vec<String>,
    GdbError,
>)
    ensures
        match accepted_results(record, Expect::Done) {
            Some(rs) => *final(state) == *old(state) && (r matches Ok(v) && texts_view(v@)
                == match names_list(results_view(rs)) {
                Some(l) => strings_of(l),
                None => seq![],
            }),
            None => r matches Err(e) && refused(record, *old(state), *final(state), e),
        },
{
    match done_results(state, record) {
        Ok(results) => Ok(parse_register_names(results.as_slice())),
        Err(e) => Err(e),
    }
}

/// The reply to `-data-list-register-values`.
pub fn register_values_reply(state: &mut GdbSessionState, record: MiOutputRecord) -> (r: Result<
    Vec<Register>,
    GdbError,
>)
    ensures
        match accepted_results(record, Expect::Done) {
            Some(rs) => *final(state) == *old(state) && (r matches Ok(v) && registers_view(v@)
                == register_values(results_view(rs), rs.len() as int)),
            None => r matches Err(e) && refused(record, *old(state), *final(state), e),
        },
{
    match done_results(state, record) {
        Ok(results) => Ok(parse_register_values(results.as_slice())),
        Err(e) => Err(e),
    }
}

/// The reply to `-var-create` for the expression `name`.
pub fn var_create_reply(state: &mut GdbSessionState, record: MiOutputRecord, name: &str) -> (r: Result<
    Variable,
    GdbError,
>)
    ensures
        match accepted_results(record, Expect::Done) {
            Some(rs) => *final(state) == *old(state) && (r matches Ok(v) && v@ == variable_of(
                results_view(rs),
                name@,
            )),
            None => r matches Err(e) && refused(record, *old(state), *final(state), e),
        },
{
    match done_results(state, record) {
        Ok(results) => match parse_variable(results.as_slice(), name) {
            Some(v) => Ok(v),
            None => Err(missing_field()),
        },
        Err(e) => Err(e),
    }
}

/// The reply to `-var-list-children`.
pub fn var_list_children_reply(state: &mut GdbSessionState, record: MiOutputRecord) -> (r: Result<
    Vec<Variable>,
    GdbError,
>)
    ensures
        match accepted_results(record, Expect::Done) {
            Some(rs) => *final(state) == *old(state) && (r matches Ok(v) && variables_view(v@)
                == variable_children(results_view(rs), rs.len() as int)),
            None => r matches Err(e) && refused(record, *old(state), *final(state), e),
        },
{
    match done_results(state, record) {
        Ok(results) => Ok(parse_variable_children(results.as_slice())),
        Err(e) => Err(e),
    }
}

fn join(a: &str, b: &str) -> (r: String)
    ensures
        r@ == a@ + b@,
{
    let mut s = String::from_str(a);
    s.append(b);
    s
}

/// The commands that prepare a fresh session, in order: asynchronous
/// execution on, pagination off, confirmations off.
pub fn init_commands() -> (r: Vec<String>)
    ensures
        texts_view(r@) == seq![
            "gdb-set mi-async on"@,
            "gdb-set pagination off"@,
            "gdb-set confirm off"@,
        ],
{
    let mut v: Vec<String> = Vec::new();
    v.push(String::from_str("gdb-set mi-async on"));
    v.push(String::from_str("gdb-set pagination off"));
    v.push(String::from_str("gdb-set confirm off"));
    assert(texts_view(v@) =~= seq![
        "gdb-set mi-async on"@,
        "gdb-set pagination off"@,
        "gdb-set confirm off"@,
    ]);
    v
}

/// The line that asks the debugger to exit; it carries no token.
pub fn exit_line() -> (r: String)
    ensures
        r@ == "-gdb-exit\n"@,
{
    String::from_str("-gdb-exit\n")
}

/// `file-exec-and-symbols FILE`.
pub fn file_exec_and_symbols_command(file: &str) -> (r: String)
    ensures
        r@ == "file-exec-and-symbols "@ + file@,
{
    join("file-exec-and-symbols ", file)
}

/// `target-select remote TARGET`, or `target-select extended-remote TARGET`.
pub fn target_select_command(extended: bool, target: &str) -> (r: String)
    ensures
        r@ == (if extended {
            "target-select extended-remote "@
        } else {
            "target-select remote "@
        }) + target@,
{
    if extended {
        join("target-select extended-remote ", target)
    } else {
        join("target-select remote ", target)
    }
}

/// `gdb-set architecture ARCH`.
pub fn set_architecture_command(arch: &str) -> (r: String)
    ensures
        r@ == "gdb-set architecture "@ + arch@,
{
    join("gdb-set architecture ", arch)
}

/// `break-insert [-t] [-c "COND"] LOCATION`.
pub fn break_insert_command(location: &str, temporary: bool, condition: Option<&str>) -> (r: String)
    ensures
        r@ == "break-insert"@ + (if temporary {
            " -t"@
        } else {
            seq![]
        }) + match condition {
            Some(c) => " -c \""@ + c@ + "\""@,
            None => seq![],
        } + " "@ + location@,
{
    let mut s = String::from_str("break-insert");
    if temporary {
        s.append(" -t");
    }
    match condition {
        Some(c) => {
            s.append(" -c \"");
            s.append(c);
            s.append("\"");
        },
        None => {},
    }
    s.append(" ");
    s.append(location);
    s
}

/// `break-delete NUMBER`.
pub fn break_delete_command(number: &str) -> (r: String)
    ensures
        r@ == "break-delete "@ + number@,
{
    join("break-delete ", number)
}

/// `break-enable NUMBER`.
pub fn break_enable_command(number: &str) -> (r: String)
    ensures
        r@ == "break-enable "@ + number@,
{
    join("break-enable ", number)
}

/// `break-disable NUMBER`.
pub fn break_disable_command(number: &str) -> (r: String)
    ensures
        r@ == "break-disable "@ + number@,
{
    join("break-disable ", number)
}

/// `break-watch [-r|-a] EXPR`: no flag watches writes, `-r` reads, `-a`
/// any access.
pub fn watch_insert_command(ty: WatchpointType, location: &str) -> (r: String)
    ensures
        r@ == match ty {
            WatchpointType::Write => "break-watch "@,
            WatchpointType::Read => "break-watch -r "@,
            WatchpointType::Access => "break-watch -a "@,
        } + location@,
{
    match ty {
        WatchpointType::Write => join("break-watch ", location),
        WatchpointType::Read => join("break-watch -r ", location),
        WatchpointType::Access => join("break-watch -a ", location),
    }
}

/// `stack-select-frame LEVEL`.
pub fn stack_select_frame_command(level: u64) -> (r: String)
    ensures
        r@ == "stack-select-frame "@ + decimal_text(level as nat),
{
    let n = decimal_string(level);
    join("stack-select-frame ", n.as_str())
}

/// `thread-select ID`.
pub fn thread_select_command(id: &str) -> (r: String)
    ensures
        r@ == "thread-select "@ + id@,
{
    join("thread-select ", id)
}

/// `data-read-memory-bytes ADDR COUNT`.
pub fn data_read_memory_command(addr: &str, count: u64) -> (r: String)
    ensures
        r@ == "data-read-memory-bytes "@ + addr@ + " "@ + decimal_text(count as nat),
{
    let mut s = join("data-read-memory-bytes ", addr);
    s.append(" ");
    let n = decimal_string(count);
    s.append(n.as_str());
    s
}

/// `data-evaluate-expression "EXPR"`.
pub fn data_evaluate_expression_command(expr: &str) -> (r: String)
    ensures
        r@ == "data-evaluate-expression \""@ + expr@ + "\""@,
{
    let mut s = join("data-evaluate-expression \"", expr);
    s.append("\"");
    s
}

/// `var-create - * "NAME"`, or `var-create --frame ADDR - * "NAME"`.
pub fn var_create_command(name: &str, frame_addr: Option<&str>) -> (r: String)
    ensures
        r@ == match frame_addr {
            Some(a) => "var-create --frame "@ + a@ + " - * \""@ + name@ + "\""@,
            None => "var-create - * \""@ + name@ + "\""@,
        },
{
    let mut s = match frame_addr {
        Some(a) => {
            let mut s = join("var-create --frame ", a);
            s.append(" - * \"");
            s
        },
        None => String::from_str("var-create - * \""),
    };
    s.append(name);
    s.append("\"");
    s
}

/// `var-delete NAME`.
pub fn var_delete_command(name: &str) -> (r: String)
    ensures
        r@ == "var-delete "@ + name@,
{
    join("var-delete ", name)
}

/// `var-evaluate-expression NAME`.
pub fn var_evaluate_expression_command(name: &str) -> (r: String)
    ensures
        r@ == "var-evaluate-expression "@ + name@,
{
    join("var-evaluate-expression ", name)
}

/// `var-list-children --all-values NAME`.
pub fn var_list_children_command(name: &str) -> (r: String)
    ensures
        r@ == "var-list-children --all-values "@ + name@,
{
    join("var-list-children --all-values ", name)
}

/// What a caller waiting for the target to stop does next.
#[derive(Debug, Clone, Copy, PartialEq, Eq, Structural)]
pub enum WaitStep {
    /// The target stopped.
    Stopped,
    /// The time is up.
    TimedOut,
    /// Look again after a short sleep.
    Poll,
}

/// How often a waiting caller looks at the running flag, in milliseconds.
pub const POLL_INTERVAL_MS: u64 = 50;

/// How long `-exec-continue` waits for the stop, in milliseconds.
pub const CONTINUE_TIMEOUT_MS: u64 = 60000;

/// How long a single step waits for the stop, in milliseconds.
pub const STEP_TIMEOUT_MS: u64 = 5000;

/// One look at the running flag, `elapsed_ms` after the wait began.
pub fn wait_step(running: bool, elapsed_ms: u64, timeout_ms: u64) -> (r: WaitStep)
    ensures
        !running ==> r == WaitStep::Stopped,
        running && elapsed_ms > timeout_ms ==> r == WaitStep::TimedOut,
        running && elapsed_ms <= timeout_ms ==> r == WaitStep::Poll,
{
    if !running {
        WaitStep::Stopped
    } else if elapsed_ms > timeout_ms {
        WaitStep::TimedOut
    } else {
        WaitStep::Poll
    }
}

/// The error of a wait whose time ran out.
pub fn stop_timeout() -> (e: GdbError)
    ensures
        e.kind == GdbErrorKind::Timeout,
{
    GdbError::new(GdbErrorKind::Timeout, "timed out waiting for the target to stop")
}

} // verus!
