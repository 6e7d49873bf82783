//! The event bus: how an uncorrelated record changes the session state and
//! which event it publishes.
use vstd::prelude::*;
use crate::decode::{breakpoint_of, frame_of, opt_frame, parse_breakpoint, parse_frame, tuple_named};
use crate::parser::{entry_text, find_text};
use crate::types::{
    AsyncClass, Breakpoint, GdbEvent, GdbSessionState, MiOutputRecord, MiResult, NotificationClass,
    OutputChannel, StopReason, VBreakpoint, VFrame, results_view, stop_reason_of,
};

verus! {

/// The breakpoint of a `bkpt=` tuple among `rs`.
pub open spec fn breakpoint_in(rs: Seq<MiResult>) -> Option<VBreakpoint> {
    match tuple_named(results_view(rs), "bkpt"@) {
        Some(t) => breakpoint_of(t),
        None => None,
    }
}

/// The frame of a `frame=` tuple among `rs`.
pub open spec fn frame_in(rs: Seq<MiResult>) -> Option<VFrame> {
    match tuple_named(results_view(rs), "frame"@) {
        Some(t) => frame_of(t),
        None => None,
    }
}

/// The stop reason of a stopped record: the one its `reason` text names, or
/// `Unknown("unknown")` when it has none.
pub open spec fn stop_reason_in(rs: Seq<MiResult>, reason: StopReason) -> bool {
    match entry_text(rs, "reason"@) {
        Some(s) => reason == stop_reason_of(s),
        None => reason matches StopReason::Unknown(u) && u@ == "unknown"@,
    }
}

/// A breakpoint notification's event: published only when the breakpoint
/// decodes.
pub open spec fn breakpoint_event(rs: Seq<MiResult>, ev: Option<GdbEvent>, modified: bool) -> bool {
    match breakpoint_in(rs) {
        Some(b) => if modified {
            ev matches Some(GdbEvent::BreakpointModified { breakpoint }) && breakpoint@ == b
        } else {
            ev matches Some(GdbEvent::BreakpointCreated { breakpoint }) && breakpoint@ == b
        },
        None => ev is None,
    }
}

/// What the bus does with a record that no caller waits for: `s1` is the
/// session state after it, `ev` the event it publishes.
pub open spec fn bus_step(
    rec: MiOutputRecord,
    s0: GdbSessionState,
    s1: GdbSessionState,
    ev: Option<GdbEvent>,
) -> bool {
    match rec {
        MiOutputRecord::Async { class: AsyncClass::Stopped, results, .. } => {
            &&& s1 == GdbSessionState {
                running: false,
                current_thread: entry_text(results@, "thread-id"@),
                ..s0
            }
            &&& ev is Some
            &&& ev->Some_0 is Stopped
            &&& stop_reason_in(results@, ev->Some_0->Stopped_reason)
            &&& opt_frame(ev->Some_0->Stopped_frame) == frame_in(results@)
            &&& ev->Some_0->Stopped_thread_id == entry_text(results@, "thread-id"@)
        },
        MiOutputRecord::Async { class: AsyncClass::Running, results, .. } => {
            &&& s1 == GdbSessionState { running: true, ..s0 }
            &&& ev == Some(GdbEvent::Running { thread_id: entry_text(results@, "thread-id"@) })
        },
        MiOutputRecord::Notification { class, results } => match class {
            NotificationClass::BreakpointCreated => s1 == s0 && breakpoint_event(
                results@,
                ev,
                false,
            ),
            NotificationClass::BreakpointModified => s1 == s0 && breakpoint_event(
                results@,
                ev,
                true,
            ),
            NotificationClass::BreakpointDeleted => s1 == s0 && match entry_text(
                results@,
                "number"@,
            ) {
                Some(n) => ev == Some(GdbEvent::BreakpointDeleted { number: n }),
                None => ev is None,
            },
            NotificationClass::ThreadCreated => s1 == s0 && match (
                entry_text(results@, "id"@),
                entry_text(results@, "group-id"@),
            ) {
                (Some(id), Some(g)) => ev == Some(GdbEvent::ThreadCreated { id, group_id: g }),
                _ => ev is None,
            },
            NotificationClass::ThreadExited => s1 == s0 && match (
                entry_text(results@, "id"@),
                entry_text(results@, "group-id"@),
            ) {
                (Some(id), Some(g)) => ev == Some(GdbEvent::ThreadExited { id, group_id: g }),
                _ => ev is None,
            },
            NotificationClass::ThreadSelected => match entry_text(results@, "id"@) {
                Some(id) => s1 == GdbSessionState { current_thread: Some(id), ..s0 } && ev == Some(
                    GdbEvent::ThreadSelected { id },
                ),
                None => s1 == s0 && ev is None,
            },
            _ => s1 == s0 && ev is None,
        },
        MiOutputRecord::Console(c) => s1 == s0 && ev == Some(
            GdbEvent::Output { channel: OutputChannel::Console, content: c },
        ),
        MiOutputRecord::Target(c) => s1 == s0 && ev == Some(
            GdbEvent::Output { channel: OutputChannel::Target, content: c },
        ),
        MiOutputRecord::Log(c) => s1 == s0 && ev == Some(
            GdbEvent::Output { channel: OutputChannel::Log, content: c },
        ),
        MiOutputRecord::Result { .. } => s1 == s0 && ev is None,
    }
}

fn breakpoint_notice(results: &Vec<MiResult>, modified: bool) -> (ev: Option<GdbEvent>)
    ensures
        breakpoint_event(results@, ev, modified),
{
    match parse_breakpoint(results.as_slice()) {
        Some(b) => if modified {
            Some(GdbEvent::BreakpointModified { breakpoint: b })
        } else {
            Some(GdbEvent::BreakpointCreated { breakpoint: b })
        },
        None => None,
    }
}

fn thread_pair(results: &Vec<MiResult>) -> (r: Option<(String, String)>)
    ensures
        match (entry_text(results@, "id"@), entry_text(results@, "group-id"@)) {
            (Some(id), Some(g)) => r == Some((id, g)),
            _ => r is None,
        },
{
    match (find_text(results.as_slice(), "id"), find_text(results.as_slice(), "group-id")) {
        (Some(id), Some(g)) => Some((id, g)),
        _ => None,
    }
}

/// Applies a record that no caller waits for to the session state and gives
/// the event to publish, if any. A `stopped` record clears the running flag
/// and sets the current thread before its event is published; a `running`
/// record sets the flag.
pub fn handle_async_record(record: MiOutputRecord, state: &mut GdbSessionState) -> (ev: Option<
    GdbEvent,
>)
    ensures
        bus_step(record, *old(state), *final(state), ev),
{
    match record {
        MiOutputRecord::Async { class: AsyncClass::Stopped, results, .. } => {
            let reason = match find_text(results.as_slice(), "reason") {
                Some(s) => StopReason::from_text(s),
                None => StopReason::Unknown(String::from_str("unknown")),
            };
            let frame = parse_frame(results.as_slice());
            let thread_id = find_text(results.as_slice(), "thread-id");
            state.running = false;
            state.current_thread = thread_id.clone();
            Some(GdbEvent::Stopped { reason, frame, thread_id })
        },
        MiOutputRecord::Async { class: AsyncClass::Running, results, .. } => {
            state.running = true;
            Some(GdbEvent::Running { thread_id: find_text(results.as_slice(), "thread-id") })
        },
        MiOutputRecord::Notification { class, results } => match class {
            NotificationClass::BreakpointCreated => breakpoint_notice(&results, false),
            NotificationClass::BreakpointModified => breakpoint_notice(&results, true),
            NotificationClass::BreakpointDeleted => match find_text(results.as_slice(), "number") {
                Some(number) => Some(GdbEvent::BreakpointDeleted { number }),
                None => None,
            },
            NotificationClass::ThreadCreated => match thread_pair(&results) {
                Some((id, group_id)) => Some(GdbEvent::ThreadCreated { id, group_id }),
                None => None,
            },
            NotificationClass::ThreadExited => match thread_pair(&results) {
                Some((id, group_id)) => Some(GdbEvent::ThreadExited { id, group_id }),
                None => None,
            },
            NotificationClass::ThreadSelected => match find_text(results.as_slice(), "id") {
                Some(id) => {
                    state.current_thread = Some(id.clone());
                    Some(GdbEvent::ThreadSelected { id })
                },
                None => None,
            },
            _ => None,
        },
        MiOutputRecord::Console(content) => Some(
            GdbEvent::Output { channel: OutputChannel::Console, content },
        ),
        MiOutputRecord::Target(content) => Some(
            GdbEvent::Output { channel: OutputChannel::Target, content },
        ),
        MiOutputRecord::Log(content) => Some(GdbEvent::Output { channel: OutputChannel::Log, content }),
        MiOutputRecord::Result { .. } => None,
    }
}

} // verus!
