use mcp_gdb_server::decode::{
    parse_breakpoint, parse_breakpoint_list, parse_frame, parse_memory_content,
    parse_register_names, parse_register_values, parse_stack_frames, parse_thread,
    parse_thread_ids, parse_variable, parse_variable_children, parse_watchpoint,
};
use mcp_gdb_server::parser::MiParser;
use mcp_gdb_server::types::{MiOutputRecord, MiResult, ThreadState, WatchpointType};

fn results(line: &str) -> Vec<MiResult> {
    match MiParser::new().parse_line(line).unwrap().unwrap() {
        MiOutputRecord::Result { results, .. } => results,
        MiOutputRecord::Async { results, .. } => results,
        MiOutputRecord::Notification { results, .. } => results,
        other => panic!("no results: {:?}", other),
    }
}

#[test]
fn breakpoint_table_with_one_breakpoint() {
    let rs = results("^done,BreakpointTable={nr_rows=\"1\",body=[bkpt={number=\"1\",type=\"breakpoint\",disp=\"keep\",enabled=\"y\",addr=\"0x80000080\"}]}");
    let bps = parse_breakpoint_list(&rs);
    assert_eq!(bps.len(), 1);
    assert_eq!(bps[0].number, "1");
    assert_eq!(bps[0].breakpoint_type, "breakpoint");
    assert_eq!(bps[0].disposition, "keep");
    assert!(bps[0].enabled);
    assert_eq!(bps[0].addr.as_deref(), Some("0x80000080"));
}

#[test]
fn breakpoint_table_with_several_and_empty_body() {
    let rs = results("^done,BreakpointTable={nr_rows=\"2\",hdr=[{width=\"3\"}],body=[bkpt={number=\"1\",enabled=\"n\",line=\"12\",times=\"3\",thread-groups=[\"i1\"]},bkpt={number=\"2\",func=\"main\",cond=\"x>1\",ignore=\"4\"}]}");
    let bps = parse_breakpoint_list(&rs);
    assert_eq!(bps.len(), 2);
    assert!(!bps[0].enabled);
    assert_eq!(bps[0].line, Some(12));
    assert_eq!(bps[0].times, 3);
    assert_eq!(bps[1].func.as_deref(), Some("main"));
    assert_eq!(bps[1].condition.as_deref(), Some("x>1"));
    assert_eq!(bps[1].ignore_count, Some(4));
    let empty = results("^done,BreakpointTable={nr_rows=\"0\",body=[]}");
    assert!(parse_breakpoint_list(&empty).is_empty());
}

#[test]
fn breakpoint_body_fields_after_a_bkpt_refine_it() {
    let rs = results("^done,BreakpointTable={body=[bkpt={number=\"5\"},thread-groups=[\"i1\",\"i2\"],times=\"9\",bkpt={type=\"x\"},bkpt={number=\"6\"}]}");
    let bps = parse_breakpoint_list(&rs);
    assert_eq!(bps.len(), 2);
    assert_eq!(bps[0].number, "5");
    assert_eq!(bps[0].times, 9);
    assert_eq!(bps[0].thread_groups, Some(vec!["i1".to_string(), "i2".to_string()]));
    assert_eq!(bps[1].number, "6");
}

#[test]
fn inserted_breakpoint() {
    let rs = results("^done,bkpt={number=\"3\",type=\"breakpoint\",file=\"a.c\",fullname=\"/x/a.c\",line=\"7\",original-location=\"a.c:7\"}");
    let bp = parse_breakpoint(&rs).unwrap();
    assert_eq!(bp.number, "3");
    assert!(bp.enabled);
    assert_eq!(bp.file.as_deref(), Some("a.c"));
    assert_eq!(bp.fullname.as_deref(), Some("/x/a.c"));
    assert_eq!(bp.line, Some(7));
    assert_eq!(bp.original_location.as_deref(), Some("a.c:7"));
    assert_eq!(bp.times, 0);
    assert!(parse_breakpoint(&results("^done,bkpt={type=\"breakpoint\"}")).is_none());
    assert!(parse_breakpoint(&results("^done,x=\"1\"")).is_none());
}

#[test]
fn watchpoints_of_each_kind() {
    let w = parse_watchpoint(&results("^done,wpt={number=\"2\",exp=\"x\"}"), WatchpointType::Write).unwrap();
    assert_eq!(w.number, "2");
    assert_eq!(w.exp.as_deref(), Some("x"));
    assert_eq!(w.watchpoint_type, WatchpointType::Write);
    assert_eq!(w.addr, "");
    let r = parse_watchpoint(&results("^done,hw-rwpt={number=\"3\",size=\"4\"}"), WatchpointType::Read).unwrap();
    assert_eq!(r.size, Some(4));
    assert_eq!(r.watchpoint_type, WatchpointType::Read);
    assert!(parse_watchpoint(&results("^done,hw-awpt={exp=\"y\"}"), WatchpointType::Access).is_none());
}

#[test]
fn stopped_frame_and_thread() {
    let rs = results("*stopped,reason=\"breakpoint-hit\",thread-id=\"1\",frame={level=\"0\",addr=\"0x400\",func=\"main\"}");
    let f = parse_frame(&rs).unwrap();
    assert_eq!(f.level, 0);
    assert_eq!(f.addr, "0x400");
    assert_eq!(f.func.as_deref(), Some("main"));
    assert!(parse_frame(&results("^done,frame={addr=\"0x1\"}")).is_none());
}

#[test]
fn threads() {
    let t = parse_thread(&results("^done,new-thread-id=\"3\"")).unwrap();
    assert_eq!(t.id, "3");
    assert_eq!(t.target_id, "3");
    assert_eq!(t.state, ThreadState::Stopped);
    let u = parse_thread(&results("^done,id={id=\"4\",target-id=\"LWP 9\",name=\"w\",core=\"2\"}")).unwrap();
    assert_eq!(u.target_id, "LWP 9");
    assert_eq!(u.name.as_deref(), Some("w"));
    assert_eq!(u.core, Some(2));
    assert!(parse_thread(&results("^done,x=\"1\"")).is_none());
}

#[test]
fn stack_frames_in_both_list_forms() {
    let rs = results("^done,stack=[frame={level=\"0\",addr=\"0x1\"},frame={level=\"1\",addr=\"0x2\",line=\"9\"}]");
    let fs = parse_stack_frames(&rs);
    assert_eq!(fs.len(), 2);
    assert_eq!(fs[1].level, 1);
    assert_eq!(fs[1].line, Some(9));
    let rs2 = results("^done,stack=[{level=\"0\"},{addr=\"0x9\"}]");
    assert_eq!(parse_stack_frames(&rs2).len(), 1);
}

#[test]
fn thread_ids() {
    let rs = results("^done,thread-ids={thread-id=\"1\",thread-id=\"2\"},number-of-threads=\"2\"");
    assert_eq!(parse_thread_ids(&rs), vec!["1".to_string(), "2".to_string()]);
    let rs2 = results("^done,thread-ids=[\"5\",\"6\"]");
    assert_eq!(parse_thread_ids(&rs2), vec!["5".to_string(), "6".to_string()]);
}

#[test]
fn memory_block() {
    let rs = results("^done,memory=[{begin=\"0x1000\",offset=\"0x0\",end=\"0x1004\",contents=\"deadbeef\"}]");
    let m = parse_memory_content(&rs).unwrap();
    assert_eq!(m.addr, "0x1000");
    assert_eq!(m.data, vec!["deadbeef".to_string()]);
    let rs2 = results("^done,memory=[{offset=\"0x8\",contents=\"00\"}]");
    assert_eq!(parse_memory_content(&rs2).unwrap().addr, "0x8");
    assert!(parse_memory_content(&results("^done,memory=[{begin=\"0x1\"}]")).is_none());
}

#[test]
fn registers() {
    let names = parse_register_names(&results("^done,register-names=[\"r0\",\"r1\",\"\",\"pc\"]"));
    assert_eq!(names, vec!["r0".to_string(), "r1".to_string(), "".to_string(), "pc".to_string()]);
    let vals = parse_register_values(&results("^done,register-values=[{number=\"0\",value=\"0x1\"},{number=\"x\",value=\"0x2\"},{number=\"15\",value=\"0xff\"}]"));
    assert_eq!(vals.len(), 2);
    assert_eq!(vals[1].number, 15);
    assert_eq!(vals[1].value, "0xff");
    assert_eq!(vals[1].name, "");
}

#[test]
fn variables() {
    let v = parse_variable(&results("^done,name=\"var1\",numchild=\"0\",value=\"3\",type=\"int\""), "x").unwrap();
    assert_eq!(v.name, "var1");
    assert_eq!(v.value.as_deref(), Some("3"));
    assert_eq!(v.var_type.as_deref(), Some("int"));
    let w = parse_variable(&results("^done,value=\"1\""), "fallback").unwrap();
    assert_eq!(w.name, "fallback");
    let kids = parse_variable_children(&results("^done,numchild=\"2\",children=[child={name=\"v.a\",value=\"1\",type=\"int\"},child={value=\"2\"}]"));
    assert_eq!(kids.len(), 1);
    assert_eq!(kids[0].name, "v.a");
}
