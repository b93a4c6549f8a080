use wikimind::chat::{parse_tool_input, plan_tool_call_from_json};
use wikimind::tool_schema::{get_tools, ParamType};
use wikimind::chat::{
    build_system_prompt, has_markdown_extension, list_dir_keeps, plan_tool_call, ChatEntry, ChatLoop,
    ChatMessage, PendingTool, SseEvent, SseLineReader, StepOutcome, ToolCall, ToolInput, TurnEnd, TurnState,
};

fn empty_input() -> ToolInput {
    ToolInput {
        path: None,
        content: None,
        old_string: None,
        new_string: None,
        replace_all: None,
        pattern: None,
        offset: None,
        limit: None,
        glob: None,
        output_mode: None,
        before: None,
        after: None,
        context: None,
        case_insensitive: None,
        file_type: None,
        head_limit: None,
        multiline: None,
    }
}

fn delta(kind: &str, text: &str) -> SseEvent {
    SseEvent::ContentBlockDelta { index: 0, delta_type: kind.to_string(), delta: text.to_string() }
}

#[test]
fn system_prompt_lists_markdown_files_of_the_workspace() {
    let base = build_system_prompt(None, &vec![]);
    assert!(base.starts_with("You are WikiMind, an AI assistant"));
    assert!(base.ends_with("sync changes to wiki notes\n"));
    assert_eq!(build_system_prompt(Some("/ws"), &vec![]), base);
    let files = vec!["a.md".to_string(), "notes/b.md".to_string()];
    assert_eq!(build_system_prompt(None, &files), base);
    let with_files = build_system_prompt(Some("/ws"), &files);
    assert_eq!(
        with_files,
        format!("{}\nCurrent workspace: /ws\nMarkdown files in workspace:\n  - a.md\n  - notes/b.md\n", base)
    );
}

#[test]
fn list_dir_hides_dot_and_underscore_entries() {
    assert!(list_dir_keeps("notes", true));
    assert!(list_dir_keeps("page.md", false));
    assert!(!list_dir_keeps("image.png", false));
    assert!(!list_dir_keeps(".git", true));
    assert!(!list_dir_keeps("_drafts", true));
    assert!(!list_dir_keeps(".hidden.md", false));
    assert!(!list_dir_keeps("", false));
}

#[test]
fn markdown_extension_follows_the_file_name() {
    assert!(has_markdown_extension("notes/a.md"));
    assert!(has_markdown_extension("a.b.md"));
    assert!(!has_markdown_extension("notes/a.mdx"));
    assert!(!has_markdown_extension("notes/.md"));
    assert!(!has_markdown_extension("md"));
    assert!(has_markdown_extension("dir.md/"));
    assert!(has_markdown_extension("dir/x.md/"));
    assert!(!has_markdown_extension("/"));
}

#[test]
fn tool_calls_need_their_fields() {
    let input = empty_input();
    assert_eq!(plan_tool_call("Read", &input).unwrap_err(), "Missing 'path' field");
    assert_eq!(plan_tool_call("ListDir", &input).unwrap_err(), "Missing 'path' field");
    assert_eq!(plan_tool_call("Grep", &input).unwrap_err(), "Missing 'pattern' field");
    assert_eq!(plan_tool_call("Delete", &input).unwrap_err(), "Unknown tool: Delete");

    let mut write = empty_input();
    write.path = Some("a.md".to_string());
    assert_eq!(plan_tool_call("Write", &write).unwrap_err(), "Missing 'content' field");
    assert_eq!(plan_tool_call("Edit", &write).unwrap_err(), "Missing 'old_string' field");
    write.old_string = Some("x".to_string());
    assert_eq!(plan_tool_call("Edit", &write).unwrap_err(), "Missing 'new_string' field");
}

#[test]
fn tool_calls_carry_their_inputs() {
    let mut input = empty_input();
    input.path = Some("a.md".to_string());
    input.content = Some("body".to_string());
    input.old_string = Some("x".to_string());
    input.new_string = Some("y".to_string());
    input.offset = Some(3);
    match plan_tool_call("Read", &input).unwrap() {
        ToolCall::Read { path, offset, limit } => {
            assert_eq!(path, "a.md");
            assert_eq!(offset, Some(3));
            assert_eq!(limit, None);
        }
        other => panic!("unexpected {:?}", other),
    }
    match plan_tool_call("Write", &input).unwrap() {
        ToolCall::Write { path, content } => assert_eq!((path.as_str(), content.as_str()), ("a.md", "body")),
        other => panic!("unexpected {:?}", other),
    }
    match plan_tool_call("Edit", &input).unwrap() {
        ToolCall::Edit { old_string, new_string, replace_all, .. } => {
            assert_eq!((old_string.as_str(), new_string.as_str(), replace_all), ("x", "y", false));
        }
        other => panic!("unexpected {:?}", other),
    }
    match plan_tool_call("Glob", &empty_input()).unwrap() {
        ToolCall::Glob { pattern, path } => {
            assert_eq!(pattern, "**/*.md");
            assert_eq!(path, None);
        }
        other => panic!("unexpected {:?}", other),
    }
    let mut grep = empty_input();
    grep.pattern = Some("todo".to_string());
    grep.case_insensitive = Some(true);
    match plan_tool_call("Grep", &grep).unwrap() {
        ToolCall::Grep(g) => {
            assert_eq!(g.pattern, "todo");
            assert_eq!(g.line_numbers, Some(true));
            assert_eq!(g.case_insensitive, Some(true));
            assert_eq!(g.context_short, None);
        }
        other => panic!("unexpected {:?}", other),
    }
    match plan_tool_call("ListDir", &input).unwrap() {
        ToolCall::ListDir { path } => assert_eq!(path, "a.md"),
        other => panic!("unexpected {:?}", other),
    }
}

#[test]
fn a_turn_with_text_and_a_tool_call_runs_the_tool() {
    let mut turn = TurnState::new();
    assert!(matches!(turn.step(delta("text_delta", "Hi ")), StepOutcome::Token(t) if t == "Hi "));
    assert!(matches!(turn.step(delta("text", "there")), StepOutcome::Token(t) if t == "there"));
    let start = SseEvent::ContentBlockStart {
        index: 1,
        block_type: "tool_use".to_string(),
        id: Some("t1".to_string()),
        name: Some("Read".to_string()),
    };
    assert!(matches!(turn.step(start), StepOutcome::Continue));
    assert!(matches!(turn.step(delta("input_json_delta", "{\"input\": {\"path\"")), StepOutcome::Continue));
    assert!(matches!(turn.step(delta("input_json_delta", ": \"a.md\"}}")), StepOutcome::Continue));
    assert!(matches!(turn.step(SseEvent::ContentBlockStop { index: 1 }), StepOutcome::Continue));
    let stop = SseEvent::MessageDelta { stop_reason: Some("tool_use".to_string()) };
    assert!(matches!(turn.step(stop), StepOutcome::Continue));
    assert!(matches!(turn.step(SseEvent::MessageStop), StepOutcome::Finished));

    let messages = vec![ChatMessage { role: "user".to_string(), content: "read a".to_string() }];
    let mut chat = ChatLoop::new("SYSTEM".to_string(), &messages);
    assert_eq!(chat.entries().len(), 2);
    assert!(matches!(&chat.entries()[0], ChatEntry::Text { role, content } if role == "user" && content == "SYSTEM"));
    assert!(chat.begin_request().is_ok());
    let tools = match chat.finish_turn(turn) {
        TurnEnd::RunTools(tools) => tools,
        TurnEnd::Reply(r) => panic!("unexpected reply {:?}", r),
    };
    assert_eq!(tools.len(), 1);
    assert_eq!(tools[0].id, "t1");
    assert_eq!(tools[0].name, "Read");
    assert_eq!(tools[0].input, "{\"path\":\"a.md\"}");
    assert_eq!(chat.entries().len(), 3);
    match &chat.entries()[2] {
        ChatEntry::Assistant { blocks } => assert_eq!(blocks.len(), 2),
        other => panic!("unexpected {:?}", other),
    }
    chat.record_tool_result(&tools[0], "contents of a");
    assert!(matches!(&chat.entries()[3], ChatEntry::ToolResult { tool_use_id, text } if tool_use_id == "t1" && text == "contents of a"));

    let mut second = TurnState::new();
    second.step(delta("text_delta", "Done"));
    second.step(SseEvent::MessageDelta { stop_reason: Some("end_turn".to_string()) });
    second.step(SseEvent::MessageStop);
    assert!(chat.begin_request().is_ok());
    match chat.finish_turn(second) {
        TurnEnd::Reply(r) => {
            assert_eq!(r.content, "Hi thereDone");
            assert!(r.usage.is_none());
            assert_eq!(r.tools_used, Some(vec!["Read".to_string()]));
        }
        TurnEnd::RunTools(_) => panic!("unexpected tool run"),
    }
}

#[test]
fn an_unparsable_tool_input_adds_no_tool_block() {
    let mut turn = TurnState::new();
    let start = SseEvent::ContentBlockStart {
        index: 0,
        block_type: "tool_use".to_string(),
        id: Some("t9".to_string()),
        name: Some("Read".to_string()),
    };
    turn.step(start);
    turn.step(delta("input_json_delta", "{not json"));
    turn.step(SseEvent::ContentBlockStop { index: 0 });
    turn.step(SseEvent::MessageDelta { stop_reason: Some("tool_use".to_string()) });
    turn.step(SseEvent::MessageStop);
    let mut chat = ChatLoop::new("S".to_string(), &vec![]);
    match chat.finish_turn(turn) {
        TurnEnd::RunTools(tools) => assert!(tools.is_empty()),
        TurnEnd::Reply(r) => panic!("unexpected reply {:?}", r),
    }
    assert_eq!(chat.entries().len(), 1);
}

#[test]
fn a_tool_input_without_ids_falls_back_to_its_members() {
    let mut turn = TurnState::new();
    turn.step(SseEvent::ContentBlockStart { index: 0, block_type: "tool_use".to_string(), id: None, name: None });
    turn.step(delta("input_json_delta", "{\"id\": \"x1\", \"name\": \"Glob\"}"));
    turn.step(SseEvent::ContentBlockStop { index: 0 });
    turn.step(SseEvent::MessageDelta { stop_reason: Some("tool_use".to_string()) });
    let mut chat = ChatLoop::new("S".to_string(), &vec![]);
    match chat.finish_turn(turn) {
        TurnEnd::RunTools(tools) => {
            assert_eq!(tools.len(), 1);
            assert_eq!(tools[0].id, "x1");
            assert_eq!(tools[0].name, "Glob");
            assert_eq!(tools[0].input, "{}");
        }
        TurnEnd::Reply(r) => panic!("unexpected reply {:?}", r),
    }
}

#[test]
fn stream_errors_fail_the_turn() {
    let mut turn = TurnState::new();
    match turn.step(SseEvent::Error { error: "overloaded".to_string() }) {
        StepOutcome::Failed(m) => assert_eq!(m, "SSE error: overloaded"),
        other => panic!("unexpected {:?}", other),
    }
    assert!(matches!(turn.step(SseEvent::Other), StepOutcome::Continue));
    assert!(matches!(turn.step(delta("input_json_delta", "{}")), StepOutcome::Continue));
}

#[test]
fn a_chat_makes_at_most_128_requests() {
    let mut chat = ChatLoop::new("S".to_string(), &vec![]);
    for _ in 0..128 {
        assert!(chat.begin_request().is_ok());
    }
    assert_eq!(chat.begin_request(), Err("Too many tool calls, possible infinite loop".to_string()));
    assert_eq!(chat.begin_request(), Err("Too many tool calls, possible infinite loop".to_string()));
}

#[test]
fn a_reply_without_tools_has_no_tool_list() {
    let mut turn = TurnState::new();
    turn.step(delta("text_delta", "plain"));
    turn.step(SseEvent::MessageStop);
    let mut chat = ChatLoop::new("S".to_string(), &vec![]);
    match chat.finish_turn(turn) {
        TurnEnd::Reply(r) => {
            assert_eq!(r.content, "plain");
            assert_eq!(r.tools_used, None);
        }
        TurnEnd::RunTools(_) => panic!("unexpected tool run"),
    }
    let _ = PendingTool { id: String::new(), name: String::new(), input: String::new() };
}

#[test]
fn sse_lines_gather_data_into_events() {
    let mut reader = SseLineReader::new();
    assert_eq!(reader.feed_line("event: message_start"), None);
    assert_eq!(reader.feed_line("data: {\"a\":1}"), None);
    assert_eq!(reader.feed_line("data:x\r"), None);
    assert_eq!(reader.feed_line(""), Some("{\"a\":1}\nx".to_string()));
    assert_eq!(reader.feed_line(""), None);
    assert_eq!(reader.feed_line("data:  two spaces"), None);
    assert_eq!(reader.feed_line("\r"), Some(" two spaces".to_string()));
}

#[test]
fn offered_tools_match_what_planning_needs() {
    let tools = get_tools();
    let names: Vec<&str> = tools.iter().map(|t| t.name.as_str()).collect();
    assert_eq!(names, vec!["Read", "Write", "Edit", "ListDir", "Glob", "Grep"]);
    assert_eq!(tools[0].description, "Read the contents of a file from the filesystem.");
    assert_eq!(tools[2].params.len(), 4);
    assert_eq!(tools[2].params[3].name, "replace_all");
    assert_eq!(tools[2].params[3].param_type, ParamType::Flag);
    assert_eq!(tools[5].params[2].name, "-i");
    assert_eq!(tools[4].required, None);
    for tool in &tools {
        let required = tool.required.clone().unwrap_or_default();
        let mut input = empty_input();
        match plan_tool_call(&tool.name, &input) {
            Ok(_) => assert!(required.is_empty()),
            Err(e) => assert_eq!(e, format!("Missing '{}' field", required[0])),
        }
        for field in &required {
            assert!(tool.params.iter().any(|p| &p.name == field));
            let value = Some("x".to_string());
            match field.as_str() {
                "path" => input.path = value,
                "content" => input.content = value,
                "old_string" => input.old_string = value,
                "new_string" => input.new_string = value,
                "pattern" => input.pattern = value,
                other => panic!("unexpected field {}", other),
            }
        }
        assert!(plan_tool_call(&tool.name, &input).is_ok());
    }
}

#[test]
fn tool_results_wrap_errors_in_json() {
    use_tool_result("plain output", Ok("plain output".to_string()));
    use_tool_result("{\"error\":\"Missing 'path' field\"}", Err("Missing 'path' field".to_string()));
    use_tool_result("{\"error\":\"a \\\"quoted\\\"\\nline\"}", Err("a \"quoted\"\nline".to_string()));
}

fn use_tool_result(expected: &str, outcome: Result<String, String>) {
    assert_eq!(wikimind::chat::tool_result_text(&outcome), expected);
}

#[test]
fn tool_calls_from_json_input_text() {
    use_json_plan();
}

fn use_json_plan() {
    let bad = "{not json";
    let serde_message = serde_json::from_str::<serde_json::Value>(bad).unwrap_err().to_string();
    match plan_tool_call_from_json("Read", bad) {
        Err(e) => assert_eq!(e, format!("Invalid tool input JSON: {}", serde_message)),
        Ok(c) => panic!("unexpected {:?}", c),
    }
    match plan_tool_call_from_json("Nope", bad) {
        Err(e) => assert!(e.starts_with("Invalid tool input JSON: ")),
        Ok(c) => panic!("unexpected {:?}", c),
    }
    match plan_tool_call_from_json("Read", "{\"path\": \"a.md\", \"offset\": 2, \"limit\": \"x\"}") {
        Ok(ToolCall::Read { path, offset, limit }) => {
            assert_eq!(path, "a.md");
            assert_eq!(offset, Some(2));
            assert_eq!(limit, None);
        }
        other => panic!("unexpected {:?}", other),
    }
    assert_eq!(plan_tool_call_from_json("Read", "{\"path\": 5}").unwrap_err(), "Missing 'path' field");
    assert_eq!(plan_tool_call_from_json("Read", "[1, 2]").unwrap_err(), "Missing 'path' field");
    assert_eq!(plan_tool_call_from_json("Nope", "{}").unwrap_err(), "Unknown tool: Nope");
    let input = parse_tool_input("{\"pattern\": \"x\", \"-i\": true, \"-B\": 3, \"type\": \"md\", \"multiline\": false}").unwrap();
    assert_eq!(input.pattern.as_deref(), Some("x"));
    assert_eq!(input.case_insensitive, Some(true));
    assert_eq!(input.before, Some(3));
    assert_eq!(input.file_type.as_deref(), Some("md"));
    assert_eq!(input.multiline, Some(false));
    assert_eq!(input.path, None);
    assert!(parse_tool_input("").is_err());
}

#[test]
fn error_objects_escape_like_serde_json() {
    for msg in ["plain", "q\"uote", "back\\slash", "tab\tnl\ncr\r", "ctl\u{1}\u{1f}\u{8}\u{c}", "ü日本\u{7f}"] {
        let mut members = serde_json::Map::new();
        members.insert("error".to_string(), serde_json::Value::String(msg.to_string()));
        let expected = serde_json::Value::Object(members).to_string();
        assert_eq!(wikimind::chat::tool_result_text(&Err(msg.to_string())), expected);
    }
    assert_eq!(wikimind::chat::tool_result_text(&Err("\u{1}".to_string())), "{\"error\":\"\\u0001\"}");
}
