use gemini_chat::dispatch::{plan_tool_call, DispatchError, ToolRequest};
use gemini_chat::invocation::{ParamValue, ToolInvocation};

fn inv(name: &str, ps: Vec<(&str, ParamValue)>) -> ToolInvocation {
    ToolInvocation {
        name: name.to_string(),
        parameters: ps.into_iter().map(|(k, v)| (k.to_string(), v)).collect(),
    }
}

fn text(s: &str) -> ParamValue {
    ParamValue::Text(s.to_string())
}

#[test]
fn read_defaults_to_whole_file() {
    let r = plan_tool_call(&inv("fs_read", vec![("path", text("/a"))]));
    assert!(matches!(r, Ok(ToolRequest::ReadLines { ref path, start_line: 1, end_line: -1 }) if path == "/a"));
}

#[test]
fn string_line_numbers_take_defaults() {
    let r = plan_tool_call(&inv(
        "fs_read",
        vec![("path", text("/a")), ("mode", text("Line")), ("start_line", text("5"))],
    ));
    assert!(matches!(r, Ok(ToolRequest::ReadLines { start_line: 1, end_line: -1, .. })));
    let r = plan_tool_call(&inv(
        "fs_read",
        vec![("start_line", ParamValue::Integer(3)), ("end_line", ParamValue::Integer(4))],
    ));
    assert!(matches!(r, Ok(ToolRequest::ReadLines { start_line: 3, end_line: 4, .. })));
}

#[test]
fn last_repeated_parameter_counts() {
    let r = plan_tool_call(&inv("execute_bash", vec![("command", text("a")), ("command", text("b"))]));
    assert!(matches!(r, Ok(ToolRequest::ExecuteBash { ref command }) if command == "b"));
}

#[test]
fn search_and_directory_modes() {
    let r = plan_tool_call(&inv(
        "fs_read",
        vec![("mode", text("Search")), ("pattern", text("fn")), ("context_lines", ParamValue::Integer(1))],
    ));
    assert!(matches!(r, Ok(ToolRequest::Search { ref pattern, context_lines: Some(1), .. }) if pattern == "fn"));
    let r = plan_tool_call(&inv("fs_read", vec![("mode", text("Directory")), ("path", text("d"))]));
    assert!(matches!(r, Ok(ToolRequest::ListDirectory { ref path }) if path == "d"));
}

#[test]
fn write_commands() {
    let r = plan_tool_call(&inv("fs_write", vec![("command", text("append")), ("new_str", text("x"))]));
    assert!(matches!(r, Ok(ToolRequest::Append { ref content, .. }) if content == "x"));
    let r = plan_tool_call(&inv("fs_write", vec![("command", text("insert"))]));
    assert!(matches!(r, Ok(ToolRequest::Insert { insert_line: 0, .. })));
    let r = plan_tool_call(&inv(
        "fs_write",
        vec![("command", text("str_replace")), ("old_str", text("o")), ("new_str", text("n"))],
    ));
    assert!(matches!(r, Ok(ToolRequest::Replace { ref old_str, ref new_str, .. }) if old_str == "o" && new_str == "n"));
    let r = plan_tool_call(&inv("fs_write", vec![("command", text("create")), ("file_text", text("t"))]));
    assert!(matches!(r, Ok(ToolRequest::Create { ref file_text, .. }) if file_text == "t"));
}

#[test]
fn unknown_tool_and_modes_are_errors() {
    match plan_tool_call(&inv("rm_rf", vec![])) {
        Err(e) => {
            assert!(matches!(e, DispatchError::UnknownTool(_)));
            assert_eq!(e.message(), "Unknown tool: rm_rf");
        }
        Ok(_) => panic!("expected an error"),
    }
    match plan_tool_call(&inv("fs_read", vec![("mode", text("Tail"))])) {
        Err(e) => assert_eq!(e.message(), "Invalid fs_read mode: Tail"),
        Ok(_) => panic!("expected an error"),
    }
    match plan_tool_call(&inv("fs_write", vec![])) {
        Err(e) => assert_eq!(e.message(), "Invalid fs_write command: "),
        Ok(_) => panic!("expected an error"),
    }
}

#[test]
fn cloud_cli_request() {
    let r = plan_tool_call(&inv(
        "use_aws",
        vec![("service_name", text("s3")), ("operation_name", text("ls")), ("region", text("us-east-1"))],
    ));
    assert!(matches!(r, Ok(ToolRequest::UseAws { ref service_name, ref profile_name, .. }) if service_name == "s3" && profile_name.is_none()));
}
