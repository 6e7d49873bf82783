use mcp_gdb_server::parser::MiParser;
use mcp_gdb_server::types::{GdbErrorKind, MiOutputRecord, MiResult, MiValue, NotificationClass, ResultClass};

fn text(v: &MiValue) -> &str {
    match v {
        MiValue::String(s) => s.as_str(),
        other => panic!("not a constant: {:?}", other),
    }
}

fn entry<'a>(rs: &'a [MiResult], key: &str) -> &'a MiValue {
    &rs.iter().find(|r| r.variable == key).expect("missing entry").value
}

#[test]
fn blank_and_prompt_lines_hold_no_record() {
    let p = MiParser::new();
    assert!(p.parse_line("").unwrap().is_none());
    assert!(p.parse_line("(gdb)").unwrap().is_none());
    assert!(p.parse_line("   (gdb)  \r\n").unwrap().is_none());
    assert!(p.parse_line(" \t ").unwrap().is_none());
}

#[test]
fn nested_tuple_and_list() {
    let p = MiParser::new();
    let rec = p
        .parse_line("^done,x=\"1\",y={a=\"2\",b=[\"3\",\"4\"]}")
        .unwrap()
        .unwrap();
    match rec {
        MiOutputRecord::Result { token, class, results } => {
            assert_eq!(token, None);
            assert_eq!(class, ResultClass::Done);
            assert_eq!(results.len(), 2);
            assert_eq!(text(entry(&results, "x")), "1");
            match entry(&results, "y") {
                MiValue::Tuple(t) => {
                    assert_eq!(t.len(), 2);
                    assert_eq!(text(entry(t, "a")), "2");
                    match entry(t, "b") {
                        MiValue::List(l) => {
                            assert_eq!(l.len(), 2);
                            assert_eq!(text(&l[0]), "3");
                            assert_eq!(text(&l[1]), "4");
                        }
                        other => panic!("b is not a list: {:?}", other),
                    }
                }
                other => panic!("y is not a tuple: {:?}", other),
            }
        }
        other => panic!("not a result: {:?}", other),
    }
}

#[test]
fn token_prefix_is_read() {
    let p = MiParser::new();
    match p.parse_line("42^running").unwrap().unwrap() {
        MiOutputRecord::Result { token, class, results } => {
            assert_eq!(token, Some(42));
            assert_eq!(class, ResultClass::Running);
            assert!(results.is_empty());
        }
        other => panic!("not a result: {:?}", other),
    }
    match p.parse_line("7*running,thread-id=\"all\"").unwrap().unwrap() {
        MiOutputRecord::Async { token, .. } => assert_eq!(token, Some(7)),
        other => panic!("not async: {:?}", other),
    }
}

#[test]
fn token_too_large_is_a_parse_error() {
    let p = MiParser::new();
    let e = p.parse_line("99999999999999999999^done").unwrap_err();
    assert_eq!(e.kind, GdbErrorKind::ParseError);
}

#[test]
fn each_prefix_gives_its_record() {
    let p = MiParser::new();
    assert!(matches!(p.parse_line("^exit").unwrap().unwrap(), MiOutputRecord::Result { class: ResultClass::Exit, .. }));
    assert!(matches!(p.parse_line("^connected").unwrap().unwrap(), MiOutputRecord::Result { class: ResultClass::Connected, .. }));
    assert!(matches!(p.parse_line("*stopped").unwrap().unwrap(), MiOutputRecord::Async { .. }));
    assert!(matches!(
        p.parse_line("=thread-group-added,id=\"i1\"").unwrap().unwrap(),
        MiOutputRecord::Notification { class: NotificationClass::ThreadGroupAdded, .. }
    ));
    assert!(matches!(
        p.parse_line("+library-loaded,id=\"x\"").unwrap().unwrap(),
        MiOutputRecord::Notification { class: NotificationClass::LibraryLoaded, .. }
    ));
    match p.parse_line("@\"target out\"").unwrap().unwrap() {
        MiOutputRecord::Target(s) => assert_eq!(s, "target out"),
        other => panic!("not target: {:?}", other),
    }
    match p.parse_line("&\"log \\\"q\\\"\"").unwrap().unwrap() {
        MiOutputRecord::Log(s) => assert_eq!(s, "log \"q\""),
        other => panic!("not log: {:?}", other),
    }
}

#[test]
fn escapes_are_decoded() {
    let p = MiParser::new();
    match p.parse_line("~\"a\\tb\\rc\\\\d\\qe\"").unwrap().unwrap() {
        MiOutputRecord::Console(s) => assert_eq!(s, "a\tb\rc\\d\\qe"),
        other => panic!("not console: {:?}", other),
    }
}

#[test]
fn line_without_prefix_is_console_text() {
    let p = MiParser::new();
    match p.parse_line("  hello world  ").unwrap().unwrap() {
        MiOutputRecord::Console(s) => assert_eq!(s, "hello world"),
        other => panic!("not console: {:?}", other),
    }
}

#[test]
fn malformed_records_are_parse_errors() {
    let p = MiParser::new();
    for line in [
        "^bogus",
        "*halted",
        "=no-such-notification",
        "^done,x=\"unterminated",
        "^done,x={a=\"1\"",
        "^done,x=[\"1\"",
        "^done,",
        "^done,x=1",
        "~\"no closing quote",
        "~\"trailing\"junk",
    ] {
        let e = p.parse_line(line).unwrap_err();
        assert_eq!(e.kind, GdbErrorKind::ParseError, "{}", line);
    }
}

#[test]
fn result_list_keeps_names() {
    let p = MiParser::new();
    match p.parse_line("^done,stack=[frame={level=\"0\"},frame={level=\"1\"}]").unwrap().unwrap() {
        MiOutputRecord::Result { results, .. } => match entry(&results, "stack") {
            MiValue::ResultList(items) => {
                assert_eq!(items.len(), 2);
                assert_eq!(items[0].variable, "frame");
                assert_eq!(items[1].variable, "frame");
            }
            other => panic!("not a result list: {:?}", other),
        },
        other => panic!("not a result: {:?}", other),
    }
}

#[test]
fn empty_tuple_and_list() {
    let p = MiParser::new();
    match p.parse_line("^done,a={},b=[]").unwrap().unwrap() {
        MiOutputRecord::Result { results, .. } => {
            assert!(matches!(entry(&results, "a"), MiValue::Tuple(t) if t.is_empty()));
            assert!(matches!(entry(&results, "b"), MiValue::List(l) if l.is_empty()));
        }
        other => panic!("not a result: {:?}", other),
    }
}

#[test]
fn parse_results_stops_at_first_bad_pair() {
    let p = MiParser::new();
    let rs = p.parse_results("a=\"1\",b=\"2\",c=oops");
    assert_eq!(rs.len(), 2);
    assert_eq!(rs[1].variable, "b");
    assert!(p.parse_results("").is_empty());
}

#[test]
fn tuple_lookups() {
    let p = MiParser::new();
    let rs = p.parse_results("t={k=\"v\",n={}}");
    let t = MiParser::extract_tuple(&rs[0].value).unwrap();
    assert_eq!(MiParser::get_tuple_string(t, "k").as_deref(), Some("v"));
    assert_eq!(MiParser::get_tuple_string(t, "n"), None);
    assert!(MiParser::get_tuple_value(t, "n").is_some());
    assert!(MiParser::get_tuple_value(t, "zz").is_none());
    assert!(MiParser::extract_list(&rs[0].value).is_none());
    assert_eq!(MiParser::extract_string(&rs[0].value), None);
}
