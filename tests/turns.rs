use gemini_chat::command::{classify_input, InputKind};
use gemini_chat::context::ContextManager;
use gemini_chat::conversation::ConversationState;
use gemini_chat::invocation::ToolCall;
use gemini_chat::prompt::generate_prompt;
use gemini_chat::turn::{Action, Phase, Turn};

fn call_name(c: &ToolCall) -> String {
    match c {
        ToolCall::Markup(inv) => inv.name.clone(),
        ToolCall::Inline(s) => s.clone(),
    }
}

fn markup(names: &[&str]) -> String {
    let mut s = String::from("<function_calls>");
    for n in names {
        s.push_str(&format!("<invoke name=\"{}\"></invoke>", n));
    }
    s.push_str("</function_calls>");
    s
}

#[test]
fn nested_calls_stop_at_second_level() {
    let mut h = ConversationState::new();
    let (mut turn, step) = Turn::start(&mut h, "hi");
    assert!(matches!(step.action, Action::Query));
    let mut dispatched = Vec::new();

    // First reply: two calls at level 1.
    let step = turn.on_reply(&mut h, &format!("Working.{}", markup(&["a", "b"])));
    assert_eq!(step.display, vec!["Working."]);
    assert!(matches!(step.action, Action::Dispatch));
    dispatched.push(call_name(turn.current_call()));
    let step = turn.on_tool_result(&mut h, "a", Ok("ra".to_string()));
    assert!(matches!(step.action, Action::Query));
    let step = turn.on_reply(&mut h, "a done");
    assert_eq!(step.display, vec!["a done"]);
    assert!(matches!(step.action, Action::Dispatch));

    // Second call; its follow-up asks for a third call, at level 2.
    dispatched.push(call_name(turn.current_call()));
    turn.on_tool_result(&mut h, "b", Ok("rb".to_string()));
    let step = turn.on_reply(&mut h, &markup(&["c"]));
    assert!(matches!(step.action, Action::Dispatch));
    assert!(matches!(turn.phase, Phase::AwaitTool { level: 2 }));
    dispatched.push(call_name(turn.current_call()));
    turn.on_tool_result(&mut h, "c", Err("boom".to_string()));

    // The level-2 follow-up asks for more: shown and logged, not run.
    let last = format!("more{}", markup(&["d"]));
    let step = turn.on_reply(&mut h, &last);
    assert_eq!(step.display, vec![last.clone()]);
    assert!(matches!(step.action, Action::Finish));
    assert!(matches!(turn.phase, Phase::Done));
    assert_eq!(dispatched, vec!["a", "b", "c"]);

    let log: Vec<(String, String)> = h.get_messages().to_vec();
    let expected: Vec<(String, String)> = vec![
        ("user", "hi"),
        ("assistant", "Tool call: a"),
        ("user", "Tool result: ra"),
        ("assistant", "a done"),
        ("assistant", "Tool call: b"),
        ("user", "Tool result: rb"),
        ("assistant", "Tool call: c"),
        ("user", "Tool result: Error executing tool call: boom"),
        ("assistant", last.as_str()),
    ]
    .into_iter()
    .map(|(a, b)| (a.to_string(), b.to_string()))
    .collect();
    assert_eq!(log, expected);
}

#[test]
fn plain_reply_ends_turn() {
    let mut h = ConversationState::new();
    let (mut turn, _) = Turn::start(&mut h, "q");
    let step = turn.on_reply(&mut h, "answer");
    assert_eq!(step.display, vec!["answer"]);
    assert!(matches!(step.action, Action::Finish));
    assert_eq!(h.get_messages().len(), 2);
}

#[test]
fn tool_error_is_shown() {
    let mut h = ConversationState::new();
    let (mut turn, _) = Turn::start(&mut h, "q");
    turn.on_reply(&mut h, &markup(&["x"]));
    let step = turn.on_tool_result(&mut h, "x", Err("Unknown tool: x".to_string()));
    assert_eq!(step.display, vec!["Error executing tool call: Unknown tool: x"]);
}

#[test]
fn history_clear_and_roles() {
    let mut h = ConversationState::new();
    h.add_user_message("u");
    h.add_assistant_message("a");
    assert_eq!(
        h.get_messages().to_vec(),
        vec![
            ("user".to_string(), "u".to_string()),
            ("assistant".to_string(), "a".to_string())
        ]
    );
    h.clear();
    assert!(h.get_messages().is_empty());
}

#[test]
fn input_kinds() {
    assert!(matches!(classify_input("  /help "), InputKind::Help));
    assert!(matches!(classify_input("/clear"), InputKind::Clear));
    assert!(matches!(classify_input("/quit\n"), InputKind::Quit));
    assert!(matches!(classify_input("!ls -la"), InputKind::Shell(c) if c == "ls -la"));
    assert!(matches!(classify_input("hello"), InputKind::Chat));
}

#[test]
fn prompt_and_context() {
    assert_eq!(generate_prompt(None), "> ");
    assert_eq!(generate_prompt(Some("$ ")), "$ ");
    let c = ContextManager::new("/home/u".to_string(), "linux".to_string(), "u".to_string());
    assert_eq!(
        c.get_system_context(),
        "Operating System: linux\nCurrent Directory: /home/u\nUsername: u"
    );
}

#[test]
fn empty_markup_block_is_a_plain_reply() {
    let mut h = ConversationState::new();
    let (mut turn, _) = Turn::start(&mut h, "q");
    let reply = "Nothing to run. <function_calls></function_calls>";
    let step = turn.on_reply(&mut h, reply);
    assert_eq!(step.display, vec![reply]);
    assert!(matches!(step.action, Action::Finish));
    assert_eq!(h.get_messages().len(), 2);
    assert_eq!(h.get_messages()[1], ("assistant".to_string(), reply.to_string()));
}

#[test]
fn empty_markup_follow_up_moves_on() {
    let mut h = ConversationState::new();
    let (mut turn, _) = Turn::start(&mut h, "q");
    turn.on_reply(&mut h, &markup(&["a", "b"]));
    turn.on_tool_result(&mut h, "a", Ok("r".to_string()));
    let step = turn.on_reply(&mut h, &markup(&[]));
    assert!(matches!(step.action, Action::Dispatch));
    assert_eq!(call_name(turn.current_call()), "b");
    assert_eq!(h.get_messages().len(), 4);
}
