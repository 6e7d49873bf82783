use mcp_gdb_server::commands::{
    break_insert_command, break_insert_reply, check_reply, data_evaluate_expression_command,
    data_read_memory_command, done_reply, evaluate_reply, exec_reply, exit_line,
    file_exec_and_symbols_reply, init_commands, interrupt_reply, stack_select_frame_command,
    stop_timeout, target_connect_reply, target_select_command, var_create_command,
    wait_step, watch_insert_command, Expect, WaitStep, STEP_TIMEOUT_MS,
};
use mcp_gdb_server::dispatch::{frame_command, pump_line, route, PendingTable, PumpAction, Route};
use mcp_gdb_server::parser::MiParser;
use mcp_gdb_server::session::handle_async_record;
use mcp_gdb_server::types::{
    GdbErrorKind, GdbEvent, GdbSessionState, MiOutputRecord, OutputChannel, StopReason, WatchpointType,
};

fn record(line: &str) -> MiOutputRecord {
    MiParser::new().parse_line(line).unwrap().unwrap()
}

#[test]
fn init_commands_in_order() {
    assert_eq!(
        init_commands(),
        vec![
            "gdb-set mi-async on".to_string(),
            "gdb-set pagination off".to_string(),
            "gdb-set confirm off".to_string()
        ]
    );
}

#[test]
fn tokens_are_fresh_and_framed() {
    let mut t: PendingTable<&str> = PendingTable::new();
    let a = t.register("a");
    let b = t.register("b");
    let c = t.skip_token();
    assert_eq!((a, b, c), (1, 2, 3));
    assert_eq!(frame_command(12, "exec-run"), "12-exec-run\n");
}

#[test]
fn replies_reach_their_own_callers_in_any_order() {
    let parser = MiParser::new();
    let mut table: PendingTable<usize> = PendingTable::new();
    let tokens: Vec<u64> = (0..4).map(|i| table.register(i)).collect();
    let mut state = GdbSessionState::default();
    for &t in tokens.iter().rev() {
        let line = format!("{}^done,value=\"{}\"", t, t * 10);
        match pump_line(&parser, &table, &mut state, &line) {
            PumpAction::Deliver { token, record } => {
                assert_eq!(token, t);
                assert_eq!(*table.get(token).unwrap() as u64, t - 1);
                let v = evaluate_reply(&mut state, record).unwrap();
                assert_eq!(v, format!("{}", t * 10));
            }
            other => panic!("not delivered: {:?}", other),
        }
    }
}

#[test]
fn late_reply_after_timeout_goes_to_the_bus() {
    let parser = MiParser::new();
    let mut table: PendingTable<u8> = PendingTable::new();
    let t = table.register(0);
    assert_eq!(table.remove(t), Some(0));
    assert!(!table.is_waiting(t));
    assert!(table.remove(t).is_none());
    let mut state = GdbSessionState::default();
    let line = format!("{}^done", t);
    assert!(matches!(pump_line(&parser, &table, &mut state, &line), PumpAction::Ignore));
    assert_eq!(route(&table, &record(&line)), Route::Publish);
}

#[test]
fn stream_records_go_to_the_bus_while_requests_wait() {
    let parser = MiParser::new();
    let mut table: PendingTable<u8> = PendingTable::new();
    table.register(0);
    let mut state = GdbSessionState::default();
    match pump_line(&parser, &table, &mut state, "~\"text\"") {
        PumpAction::Publish(GdbEvent::Output { channel, content }) => {
            assert_eq!(channel, OutputChannel::Console);
            assert_eq!(content, "text");
        }
        other => panic!("not published: {:?}", other),
    }
    match pump_line(&parser, &table, &mut state, "&\"log\"") {
        PumpAction::Publish(GdbEvent::Output { channel, .. }) => assert_eq!(channel, OutputChannel::Log),
        other => panic!("not published: {:?}", other),
    }
    assert!(matches!(pump_line(&parser, &table, &mut state, "(gdb)"), PumpAction::Ignore));
    match pump_line(&parser, &table, &mut state, "^bogus") {
        PumpAction::Publish(GdbEvent::Output { channel, content }) => {
            assert_eq!(channel, OutputChannel::Console);
            assert_eq!(content, "^bogus");
        }
        other => panic!("not published: {:?}", other),
    }
}

#[test]
fn insert_breakpoint_then_created_event() {
    assert_eq!(break_insert_command("main", false, None), "break-insert main");
    assert_eq!(break_insert_command("f.c:3", true, Some("x>1")), "break-insert -t -c \"x>1\" f.c:3");
    let mut state = GdbSessionState::default();
    let bp = break_insert_reply(&mut state, record("1^done,bkpt={number=\"1\",type=\"breakpoint\",func=\"main\"}")).unwrap();
    assert_eq!(bp.number, "1");
    match handle_async_record(record("=breakpoint-created,bkpt={number=\"1\"}"), &mut state) {
        Some(GdbEvent::BreakpointCreated { breakpoint }) => assert_eq!(breakpoint.number, "1"),
        other => panic!("no created event: {:?}", other),
    }
    let e = break_insert_reply(&mut state, record("^done,x=\"1\"")).unwrap_err();
    assert_eq!(e.kind, GdbErrorKind::ParseError);
}

#[test]
fn run_then_stopped_event() {
    let parser = MiParser::new();
    let mut table: PendingTable<()> = PendingTable::new();
    let t = table.register(());
    let mut state = GdbSessionState::default();
    let rec = match pump_line(&parser, &table, &mut state, &format!("{}^running", t)) {
        PumpAction::Deliver { record, .. } => record,
        other => panic!("not delivered: {:?}", other),
    };
    assert!(state.running);
    assert_eq!(exec_reply(&mut state, rec, Expect::Running).unwrap(), true);
    let line = "*stopped,reason=\"breakpoint-hit\",thread-id=\"1\",frame={level=\"0\",addr=\"0x400\",func=\"main\"}";
    match pump_line(&parser, &table, &mut state, line) {
        PumpAction::Publish(GdbEvent::Stopped { reason, frame, thread_id }) => {
            assert_eq!(reason, StopReason::BreakpointHit);
            assert_eq!(frame.unwrap().level, 0);
            assert_eq!(thread_id.as_deref(), Some("1"));
        }
        other => panic!("no stopped event: {:?}", other),
    }
    assert!(!state.running);
    assert_eq!(state.current_thread.as_deref(), Some("1"));
    assert_eq!(wait_step(state.running, 0, STEP_TIMEOUT_MS), WaitStep::Stopped);
}

#[test]
fn stopped_without_reason_and_running_events() {
    let mut state = GdbSessionState::default();
    match handle_async_record(record("*running,thread-id=\"all\""), &mut state) {
        Some(GdbEvent::Running { thread_id }) => assert_eq!(thread_id.as_deref(), Some("all")),
        other => panic!("no running event: {:?}", other),
    }
    assert!(state.running);
    match handle_async_record(record("*stopped,reason=\"weird-thing\""), &mut state) {
        Some(GdbEvent::Stopped { reason, .. }) => assert_eq!(reason, StopReason::Unknown("weird-thing".to_string())),
        other => panic!("no stopped event: {:?}", other),
    }
    match handle_async_record(record("*stopped"), &mut state) {
        Some(GdbEvent::Stopped { reason, frame, thread_id }) => {
            assert_eq!(reason, StopReason::Unknown("unknown".to_string()));
            assert!(frame.is_none());
            assert!(thread_id.is_none());
        }
        other => panic!("no stopped event: {:?}", other),
    }
    assert!(!state.running);
}

#[test]
fn thread_and_breakpoint_notifications() {
    let mut state = GdbSessionState::default();
    assert!(matches!(
        handle_async_record(record("=thread-created,id=\"2\",group-id=\"i1\""), &mut state),
        Some(GdbEvent::ThreadCreated { ref id, ref group_id }) if id == "2" && group_id == "i1"
    ));
    assert!(handle_async_record(record("=thread-exited,id=\"2\""), &mut state).is_none());
    assert!(matches!(
        handle_async_record(record("=thread-selected,id=\"3\""), &mut state),
        Some(GdbEvent::ThreadSelected { ref id }) if id == "3"
    ));
    assert_eq!(state.current_thread.as_deref(), Some("3"));
    assert!(matches!(
        handle_async_record(record("=breakpoint-deleted,id=\"1\",number=\"1\""), &mut state),
        Some(GdbEvent::BreakpointDeleted { ref number }) if number == "1"
    ));
    assert!(matches!(
        handle_async_record(record("=breakpoint-modified,bkpt={number=\"1\",times=\"2\"}"), &mut state),
        Some(GdbEvent::BreakpointModified { ref breakpoint }) if breakpoint.times == 2
    ));
    assert!(handle_async_record(record("=library-loaded,id=\"x\""), &mut state).is_none());
    assert!(handle_async_record(record("^done"), &mut state).is_none());
}

#[test]
fn continue_without_stop_times_out() {
    assert_eq!(wait_step(true, 10, 60000), WaitStep::Poll);
    assert_eq!(wait_step(true, 60000, 60000), WaitStep::Poll);
    assert_eq!(wait_step(true, 60001, 60000), WaitStep::TimedOut);
    assert_eq!(stop_timeout().kind, GdbErrorKind::Timeout);
}

#[test]
fn evaluate_expression() {
    assert_eq!(data_evaluate_expression_command("1+2"), "data-evaluate-expression \"1+2\"");
    let mut state = GdbSessionState::default();
    assert_eq!(evaluate_reply(&mut state, record("^done,value=\"3\"")).unwrap(), "3");
    assert_eq!(evaluate_reply(&mut state, record("^done")).unwrap_err().kind, GdbErrorKind::ParseError);
}

#[test]
fn stop_writes_exit_line() {
    assert_eq!(exit_line(), "-gdb-exit\n");
}

#[test]
fn reply_errors() {
    let mut state = GdbSessionState::default();
    let e = done_reply(&mut state, record("^error,msg=\"No symbol \\\"foo\\\".\"")).unwrap_err();
    assert_eq!(e.kind, GdbErrorKind::CommandError);
    assert_eq!(e.message, "No symbol \"foo\".");
    let e = done_reply(&mut state, record("^error")).unwrap_err();
    assert_eq!(e.message, "unknown error");
    let e = done_reply(&mut state, record("^running")).unwrap_err();
    assert_eq!(e.kind, GdbErrorKind::ProtocolError);
    let e = done_reply(&mut state, record("~\"x\"")).unwrap_err();
    assert_eq!(e.kind, GdbErrorKind::ProtocolError);
    state.connected = true;
    let e = done_reply(&mut state, record("^exit")).unwrap_err();
    assert_eq!(e.kind, GdbErrorKind::NotStarted);
    assert!(!state.connected);
    assert!(check_reply(&mut state, record("^connected"), Expect::Attach).is_ok());
}

#[test]
fn state_updating_replies() {
    let mut state = GdbSessionState::default();
    file_exec_and_symbols_reply(&mut state, record("^done"), "/bin/a").unwrap();
    assert_eq!(state.executable.as_deref(), Some("/bin/a"));
    target_connect_reply(&mut state, record("^connected")).unwrap();
    assert!(state.target_remote);
    state.running = true;
    interrupt_reply(&mut state, record("^done")).unwrap();
    assert!(!state.running);
    assert_eq!(exec_reply(&mut state, record("^done"), Expect::Step).unwrap(), false);
}

#[test]
fn command_texts() {
    assert_eq!(target_select_command(true, "localhost:1234"), "target-select extended-remote localhost:1234");
    assert_eq!(target_select_command(false, "/dev/ttyUSB0"), "target-select remote /dev/ttyUSB0");
    assert_eq!(watch_insert_command(WatchpointType::Write, "x"), "break-watch x");
    assert_eq!(watch_insert_command(WatchpointType::Read, "x"), "break-watch -r x");
    assert_eq!(watch_insert_command(WatchpointType::Access, "x"), "break-watch -a x");
    assert_eq!(stack_select_frame_command(10), "stack-select-frame 10");
    assert_eq!(data_read_memory_command("0x1000", 16), "data-read-memory-bytes 0x1000 16");
    assert_eq!(var_create_command("v", None), "var-create - * \"v\"");
    assert_eq!(var_create_command("v", Some("0x10")), "var-create --frame 0x10 - * \"v\"");
}
