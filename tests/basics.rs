use mcp_gdb_server::protocol::{CallToolResult, Content};
use mcp_gdb_server::text::{decimal_string, parse_u64, text_eq};
use mcp_gdb_server::types::{GdbConfig, RemoteTargetConfig, StopReason};

#[test]
fn numbers_read_like_std() {
    assert_eq!(parse_u64(&"42".to_string()), Some(42));
    assert_eq!(parse_u64(&"+7".to_string()), Some(7));
    assert_eq!(parse_u64(&"18446744073709551615".to_string()), Some(u64::MAX));
    assert_eq!(parse_u64(&"18446744073709551616".to_string()), None);
    assert_eq!(parse_u64(&"".to_string()), None);
    assert_eq!(parse_u64(&"+".to_string()), None);
    assert_eq!(parse_u64(&"1a".to_string()), None);
    assert_eq!(parse_u64(&"-1".to_string()), None);
}

#[test]
fn decimal_text_and_equality() {
    assert_eq!(decimal_string(0), "0");
    assert_eq!(decimal_string(1234567890), "1234567890");
    assert_eq!(decimal_string(u64::MAX), u64::MAX.to_string());
    assert!(text_eq(&"abc".to_string(), "abc"));
    assert!(!text_eq(&"abc".to_string(), "abd"));
    assert!(!text_eq(&"ab".to_string(), "abc"));
}

#[test]
fn stop_reasons() {
    assert_eq!(StopReason::from("breakpoint-hit".to_string()), StopReason::BreakpointHit);
    assert_eq!(StopReason::from("end-stepping-range".to_string()), StopReason::EndSteppingRange);
    assert_eq!(StopReason::from("syscall-return".to_string()), StopReason::SyscallReturn);
    assert_eq!(StopReason::from("other".to_string()), StopReason::Unknown("other".to_string()));
}

#[test]
fn target_strings() {
    let tcp = RemoteTargetConfig::Tcp { host: "localhost".to_string(), port: 3333 };
    assert_eq!(tcp.to_target_string(), "localhost:3333");
    let serial = RemoteTargetConfig::Serial { port: "/dev/ttyS0".to_string(), baud_rate: Some(115200) };
    assert_eq!(serial.to_target_string(), "/dev/ttyS0");
}

#[test]
fn default_config() {
    let c = GdbConfig::default();
    assert_eq!(c.gdb_path, "gdb-multiarch");
    assert_eq!(c.gdb_args, vec!["--interpreter=mi2".to_string()]);
    assert_eq!(c.timeout_ms, 30000);
    assert!(c.architecture.is_none());
}

#[test]
fn tool_results() {
    let r = CallToolResult::text("hi".to_string());
    assert_eq!(r.is_error, Some(false));
    assert_eq!(r.content.len(), 1);
    assert!(matches!(&r.content[0], Content::Text { text } if text == "hi"));
    let e = CallToolResult::error_text("bad".to_string());
    assert_eq!(e.is_error, Some(true));
    let s = CallToolResult::success(vec![Content::text("a".to_string()), Content::text("b".to_string())]);
    assert_eq!(s.content.len(), 2);
    assert_eq!(CallToolResult::error(vec![]).is_error, Some(true));
}
