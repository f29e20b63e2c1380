use gemini_chat::invocation::{ParamValue, ToolCall};
use gemini_chat::parser::{
    extract_inline_tool_calls, extract_markup_tool_calls, extract_tool_calls, find_tool_calls,
};

fn markup_name(c: &ToolCall) -> (String, Vec<(String, String)>) {
    match c {
        ToolCall::Markup(inv) => (
            inv.name.clone(),
            inv.parameters
                .iter()
                .map(|(k, v)| match v {
                    ParamValue::Text(s) => (k.clone(), s.clone()),
                    _ => panic!("not text"),
                })
                .collect(),
        ),
        ToolCall::Inline(_) => panic!("not markup"),
    }
}

#[test]
fn markup_invocations_in_source_order() {
    let text = "Let me look.\n<function_calls>\n<invoke name=\"fs_read\">\n<parameter name=\"path\">/tmp/a</parameter>\n<parameter name=\"mode\">Line</parameter>\n</invoke>\n<invoke name=\"execute_bash\">\n<parameter name=\"command\">ls -la</parameter>\n</invoke>\n</function_calls>\ntrailing";
    let p = extract_tool_calls(text);
    assert_eq!(p.leading_text, "Let me look.");
    assert_eq!(p.tool_calls.len(), 2);
    let (n0, p0) = markup_name(&p.tool_calls[0]);
    assert_eq!(n0, "fs_read");
    assert_eq!(
        p0,
        vec![
            ("path".to_string(), "/tmp/a".to_string()),
            ("mode".to_string(), "Line".to_string())
        ]
    );
    let (n1, p1) = markup_name(&p.tool_calls[1]);
    assert_eq!(n1, "execute_bash");
    assert_eq!(p1, vec![("command".to_string(), "ls -la".to_string())]);
}

#[test]
fn markup_block_without_invocations_is_still_markup() {
    let p = extract_markup_tool_calls("  hi  <function_calls>nothing</function_calls>").unwrap();
    assert_eq!(p.leading_text, "hi");
    assert_eq!(p.tool_calls.len(), 0);
    assert!(find_tool_calls("<function_calls></function_calls>").is_some());
}

#[test]
fn unclosed_markup_block_is_not_markup() {
    assert!(extract_markup_tool_calls("a <function_calls> <invoke name=\"x\"></invoke>").is_none());
}

#[test]
fn invoke_with_empty_name_is_skipped() {
    let p = extract_tool_calls(
        "<function_calls><invoke name=\"\"></invoke><invoke name=\"b\"></invoke></function_calls>",
    );
    assert_eq!(p.tool_calls.len(), 1);
    assert_eq!(markup_name(&p.tool_calls[0]).0, "b");
}

#[test]
fn parameter_value_stops_at_first_tag() {
    let p = extract_tool_calls(
        "<function_calls><invoke name=\"t\"><parameter name=\"a\">x<b></parameter><parameter name=\"c\">y</parameter></invoke></function_calls>",
    );
    let (_, ps) = markup_name(&p.tool_calls[0]);
    assert_eq!(ps, vec![("c".to_string(), "y".to_string())]);
}

#[test]
fn inline_calls_and_surrounding_text() {
    let text = "Before Tool call: {\"name\":\"execute_bash\",\"parameters\":{\"command\":\"pwd\"} middle Tool call: {\"name\":\"x\"} after";
    let p = extract_inline_tool_calls(text).unwrap();
    assert_eq!(p.tool_calls.len(), 1);
    match &p.tool_calls[0] {
        ToolCall::Inline(s) => assert_eq!(s, "{\"name\":\"x\"}"),
        _ => panic!("not inline"),
    }
    assert_eq!(p.leading_text, "Before  middle  after");
}

#[test]
fn inline_object_must_end_on_its_line() {
    assert!(extract_inline_tool_calls("Tool call: {\"a\":\n1}").is_none());
}

#[test]
fn invalid_inline_json_is_dropped() {
    let p = extract_tool_calls("x Tool call: {not json} y");
    assert_eq!(p.leading_text, "x Tool call: {not json} y");
    assert_eq!(p.tool_calls.len(), 0);
}

#[test]
fn plain_text_is_returned_unchanged() {
    let text = "  Just an answer.\n";
    let p = extract_tool_calls(text);
    assert_eq!(p.leading_text, text);
    assert_eq!(p.tool_calls.len(), 0);
    let again = extract_tool_calls(&p.leading_text);
    assert_eq!(again.leading_text, text);
    assert_eq!(again.tool_calls.len(), 0);
    assert!(find_tool_calls(text).is_none());
}

#[test]
fn markup_form_wins_over_inline() {
    let p = extract_tool_calls(
        "Tool call: {\"name\":\"a\"} <function_calls><invoke name=\"b\"></invoke></function_calls>",
    );
    assert_eq!(p.tool_calls.len(), 1);
    assert_eq!(markup_name(&p.tool_calls[0]).0, "b");
    assert_eq!(p.leading_text, "Tool call: {\"name\":\"a\"}");
}

#[test]
fn inline_object_with_nested_parameters() {
    let obj = "{\"name\":\"fs_read\",\"parameters\":{\"path\":\"/a\",\"mode\":\"Line\"}}";
    let p = extract_tool_calls(&format!("Tool call: {} done", obj));
    assert_eq!(p.tool_calls.len(), 1);
    match &p.tool_calls[0] {
        ToolCall::Inline(s) => assert_eq!(s, obj),
        _ => panic!("not inline"),
    }
    assert_eq!(p.leading_text, "done");
}
