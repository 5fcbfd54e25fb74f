use clawrig::agent::{
    build_llm_messages, compacted_event, execute_tool, has_greeting, is_canned_greeting, needs_compaction,
    plan_compaction, session_place, session_prompt, summary_of, AgentConfig, AgentRequest, CallError,
};
use clawrig::agent_manager::{AgentManager, IDE_WORKSPACE_RULES};
use clawrig::config::{
    AgentDef, AgentDefaults, AgentsConfig, ChannelsConfig, Config, DatabaseConfig, HeartbeatConfig, ModelProfile,
    ModelsConfig, SchedulerConfig, ServerConfig,
};
use clawrig::database::sessions::{Message, Session};
use clawrig::llm::{
    build_request, failure_message, parse_arguments, parse_choice, parse_response, ChatChoice, ChatMessage,
    ChatMessageResponse, ChatResponse, ChatToolCall, ChatToolFunction, LlmError, LlmProvider, LlmResponse,
    ToolCallRequest,
};
use clawrig::permissions::{PermissionConfig, PermissionManager};
use clawrig::run::{Action, AgentRun, Effect, Phase, Step};
use clawrig::stream::{
    read_event, SseEvent, StreamChoice, StreamChunk, StreamDelta, StreamFunction, StreamReader, StreamToolCall,
};
use clawrig::tools::{create_default_registry, BuiltinTool, PermissionMode};
use clawrig::value::Data;

fn show(d: &Data) -> String {
    match d {
        Data::Null => "null".to_string(),
        Data::Bool(b) => b.to_string(),
        Data::Uint(n) => n.to_string(),
        Data::Int(n) => n.to_string(),
        Data::Float(s) => s.clone(),
        Data::Str(s) => format!("{:?}", s),
        Data::List(v) => format!("[{}]", v.iter().map(show).collect::<Vec<_>>().join(",")),
        Data::Table(v) => {
            format!("{{{}}}", v.iter().map(|(k, x)| format!("{:?}:{}", k, show(x))).collect::<Vec<_>>().join(","))
        }
    }
}

fn call(id: &str, name: &str, arguments: &str) -> ToolCallRequest {
    ToolCallRequest { id: id.to_string(), name: name.to_string(), arguments: parse_arguments(arguments) }
}

fn message(role: &str, content: &str, tool_calls: Option<&str>) -> Message {
    Message {
        id: "m".to_string(),
        session_id: "s".to_string(),
        role: role.to_string(),
        content: content.to_string(),
        attachments: None,
        tool_call_id: None,
        tool_calls: tool_calls.map(|s| s.to_string()),
        created_at: 1,
        tokens: None,
    }
}

fn agent_config(yolo_mode: bool, max_tool_rounds: u32) -> AgentConfig {
    AgentConfig {
        name: "main".to_string(),
        system_prompt: "Prompt.".to_string(),
        max_tool_rounds,
        model_override: None,
        yolo_mode,
    }
}

fn profile(provider: &str, model: &str) -> ModelProfile {
    ModelProfile {
        provider: provider.to_string(),
        model: model.to_string(),
        api_key: None,
        api_key_env: None,
        base_url: None,
        temperature: None,
        max_tokens: None,
        top_p: None,
        extra_body: None,
    }
}

fn config(agents: Vec<AgentDef>) -> Config {
    Config {
        server: ServerConfig { host: "h".to_string(), port: 1 },
        database: DatabaseConfig { path: "p".to_string() },
        agents: AgentsConfig { defaults: AgentDefaults { model: "fast".to_string(), yolo: false }, agents },
        models: ModelsConfig { fast: None, smart: None, reasoning: None, groq: None, nvidia: None },
        channels: ChannelsConfig { telegram: None, email: None },
        scheduler: SchedulerConfig { enabled: true },
        heartbeat: HeartbeatConfig { enabled: false, interval: "30m".to_string() },
    }
}

fn kinds(step: &Step) -> Vec<String> {
    step.effects
        .iter()
        .map(|e| match e {
            Effect::Broadcast(d) => d.text_at("type"),
            Effect::StoreText(s) => format!("text {}", s),
            Effect::StoreCalls => "calls".to_string(),
            Effect::StoreResult { call_id, content } => format!("result {} {}", call_id, content),
        })
        .collect()
}

#[test]
fn requests_have_the_wire_format() {
    let registry = create_default_registry();
    let messages = vec![
        ChatMessage::User("hi".to_string()),
        ChatMessage::Assistant { text: "yo".to_string(), tool_calls: None },
        ChatMessage::Assistant { text: String::new(), tool_calls: Some(vec![call("c1", "grep", "{\"pattern\": \"x\"}")]) },
        ChatMessage::ToolResult { call_id: "c1".to_string(), content: "out".to_string() },
    ];
    let tools = registry.schemas_named(&vec!["list_dir".to_string()]);
    let body = build_request("m", "sys", &messages, &tools, true);
    assert_eq!(body.str_at("model"), Some("m"));
    assert_eq!(body.str_at("tool_choice"), Some("auto"));
    assert_eq!(body.bool_at("stream"), Some(true));
    let wire: Vec<String> = body.list_at("messages").unwrap().iter().map(show).collect();
    assert_eq!(
        wire,
        vec![
            "{\"role\":\"system\",\"content\":\"sys\"}".to_string(),
            "{\"role\":\"user\",\"content\":\"hi\"}".to_string(),
            "{\"role\":\"assistant\",\"content\":\"yo\"}".to_string(),
            "{\"role\":\"assistant\",\"content\":\"\",\"tool_calls\":[{\"id\":\"c1\",\"type\":\"function\",\"function\":{\"name\":\"grep\",\"arguments\":\"{\\\"pattern\\\":\\\"x\\\"}\"}}]}".to_string(),
            "{\"role\":\"tool\",\"tool_call_id\":\"c1\",\"content\":\"out\"}".to_string(),
        ]
    );
    let defs = body.list_at("tools").unwrap();
    assert_eq!(defs.len(), 1);
    assert_eq!(defs[0].str_at("type"), Some("function"));
    assert_eq!(defs[0].get("function").unwrap().str_at("name"), Some("list_dir"));
}

#[test]
fn replies_are_parsed() {
    let reply = |content: Option<&str>, calls: Vec<(&str, &str, &str)>| ChatMessageResponse {
        content: content.map(|s| s.to_string()),
        tool_calls: calls
            .into_iter()
            .map(|(id, name, arguments)| ChatToolCall {
                id: id.to_string(),
                function: ChatToolFunction { name: name.to_string(), arguments: arguments.to_string() },
            })
            .collect(),
    };
    assert!(matches!(parse_choice(Some(&reply(Some("hi"), vec![]))), Ok(LlmResponse::Text(t)) if t == "hi"));
    assert!(matches!(parse_choice(Some(&reply(None, vec![]))), Ok(LlmResponse::Text(t)) if t.is_empty()));
    assert!(matches!(parse_choice(None), Err(LlmError::Empty)));
    match parse_response(&ChatResponse {
        choices: vec![ChatChoice { message: reply(Some("x"), vec![("1", "grep", "{\"a\": 1}"), ("2", "glob", "oops")]) }],
    }) {
        Ok(LlmResponse::ToolCalls(calls)) => {
            assert_eq!(calls.len(), 2);
            assert_eq!(calls[0].id, "1");
            assert_eq!(calls[0].arguments.to_string(), "{\"a\":1}");
            assert_eq!(calls[1].name, "glob");
            assert_eq!(calls[1].arguments.to_string(), "\"oops\"");
        }
        other => panic!("{:?}", other),
    }
    assert!(matches!(parse_response(&ChatResponse { choices: vec![] }), Err(LlmError::Empty)));
    assert_eq!(LlmError::Empty.message(), "Empty response from chat completion");
    assert_eq!(failure_message("500 Internal Server Error", "x"), "Chat completion failed (500 Internal Server Error): x");
}

#[test]
fn providers_come_from_profiles() {
    let mut p = profile("openai", "gpt");
    assert!(matches!(LlmProvider::from_config(&p, None), Err(LlmError::NoKey)));
    p.api_key_env = Some("KEY".to_string());
    match LlmProvider::from_config(&p, None) {
        Err(e) => assert_eq!(e.message(), "Environment variable KEY not set"),
        Ok(_) => panic!("a key came from nowhere"),
    }
    match LlmProvider::from_config(&p, Some("k1")) {
        Ok(LlmProvider::OpenAi(c)) => {
            assert_eq!(c.api_key, "k1");
            assert_eq!(c.completions_url(), "https://api.openai.com/v1/chat/completions");
        }
        Err(e) => panic!("{}", e.message()),
    }
    p.api_key = Some("k2".to_string());
    p.base_url = Some("http://x".to_string());
    match LlmProvider::from_config(&p, Some("k1")) {
        Ok(LlmProvider::OpenAi(c)) => {
            assert_eq!(c.api_key, "k2");
            assert_eq!(c.completions_url(), "http://x/chat/completions");
        }
        Err(e) => panic!("{}", e.message()),
    }
    assert_eq!(LlmError::NoKey.message(), "No API key provided for OpenAI");
    match LlmProvider::from_config(&profile("other", "m"), None) {
        Err(e) => assert_eq!(e.message(), "Unsupported provider: other"),
        Ok(_) => panic!("a client for an unknown provider"),
    }
}

fn delta(content: Option<&str>, calls: Vec<StreamToolCall>) -> StreamChunk {
    StreamChunk {
        choices: vec![StreamChoice { delta: StreamDelta { content: content.map(|s| s.to_string()), tool_calls: calls } }],
    }
}

fn piece(index: usize, id: Option<&str>, name: Option<&str>, arguments: &str) -> StreamToolCall {
    StreamToolCall {
        index,
        id: id.map(|s| s.to_string()),
        function: Some(StreamFunction { name: name.map(|s| s.to_string()), arguments: arguments.to_string() }),
    }
}

#[test]
fn events_are_read_from_lines() {
    assert!(matches!(read_event("\r\n"), SseEvent::Skip));
    assert!(matches!(read_event(": ping"), SseEvent::Skip));
    assert!(matches!(read_event("event: x"), SseEvent::Skip));
    assert!(matches!(read_event("data: [DONE]\r"), SseEvent::Done));
    assert!(matches!(read_event("data:{\"a\":1} "), SseEvent::Data(d) if d == "{\"a\":1}"));
}

#[test]
fn chunks_of_a_stream_do_not_matter() {
    let all = "data: {\"a\":\"\u{e9}\"}\n\ndata: [DONE]\n".as_bytes();
    for size in 1..all.len() + 1 {
        let mut reader = StreamReader::new();
        let mut seen: Vec<String> = Vec::new();
        for chunk in all.chunks(size) {
            reader.push(chunk);
            while let Some(event) = reader.next_event() {
                match event {
                    SseEvent::Data(d) => seen.push(d),
                    SseEvent::Done => seen.push("done".to_string()),
                    SseEvent::Skip => {}
                }
            }
        }
        assert_eq!(seen, vec!["{\"a\":\"\u{e9}\"}".to_string(), "done".to_string()]);
    }
    let mut reader = StreamReader::new();
    reader.push(b"data: x");
    assert!(reader.next_line().is_none());
    reader.push(b"\nrest");
    assert_eq!(reader.next_line(), Some(b"data: x\n".to_vec()));
    assert!(reader.next_line().is_none());
}

#[test]
fn streams_are_read_alike() {
    let all = "data: one\n: c\ndata: t\u{e9}\ndata: [DONE]\ndata: late\n".as_bytes();
    for size in 1..all.len() + 1 {
        let mut reader = StreamReader::new();
        let mut seen: Vec<String> = Vec::new();
        for chunk in all.chunks(size) {
            let mut arrival = reader.arrive(chunk);
            seen.append(&mut arrival.documents);
            if arrival.done {
                seen.push("done".to_string());
                break;
            }
        }
        assert_eq!(seen, vec!["one".to_string(), "t\u{e9}".to_string(), "done".to_string()]);
    }
}

#[test]
fn runs_are_stored_under_their_session() {
    let request = AgentRequest {
        agent_id: "a".to_string(),
        session_id: "web:a:1".to_string(),
        channel: "web".to_string(),
        peer_id: "p".to_string(),
        content: String::new(),
        attachments: vec![],
        run_id: None,
        model_profile: None,
        cancel_token: None,
    };
    let place = session_place(&request);
    assert_eq!((place.agent_id.as_str(), place.channel.as_str()), ("a", "web"));
    assert_eq!((place.peer_id.as_str(), place.thread_id.as_deref()), ("p", Some("web:a:1")));
    let begun = Session::begin("i", "a", "web", "p", place.thread_id.as_deref(), 1);
    assert_eq!(begun.key(), "web:a:1");
    assert_eq!(Session::begin("i", "a", "web", "p", Some(""), 1).key(), "i");
    let written = AgentRequest { channel: "telegram".to_string(), session_id: "telegram:p".to_string(), ..request };
    let place = session_place(&written);
    assert_eq!((place.channel.as_str(), place.peer_id.as_str()), ("telegram", "p"));
    assert_eq!(place.thread_id, None);
    let scheduled = AgentRequest { session_id: "cron:j".to_string(), ..written };
    assert_eq!(session_place(&scheduled).thread_id, None);
    assert_eq!(Session::begin("i", "a", "telegram", "p", None, 1).key(), "i");
}

#[test]
fn results_of_undeclared_calls_are_left_out() {
    let messages = vec![
        message("user", "q", None),
        message("assistant", "", Some("calls")),
        message("tool_result", "c2|two", None),
        message("tool_result", "c9|nobody asked", None),
        message("tool_result", "c1|one", None),
        message("assistant", "", Some("calls")),
        message("tool_result", "c1|late", None),
    ];
    let mut parsed: Vec<Option<Vec<ToolCallRequest>>> = messages.iter().map(|_| None).collect();
    parsed[1] = Some(vec![call("c1", "grep", "{}"), call("c2", "glob", "{}")]);
    parsed[5] = Some(vec![call("c3", "grep", "{}")]);
    let results: Vec<(String, String)> = build_llm_messages(&messages, parsed)
        .into_iter()
        .filter_map(|m| match m {
            ChatMessage::ToolResult { call_id, content } => Some((call_id, content)),
            _ => None,
        })
        .collect();
    let kept = |id: &str, text: &str| (id.to_string(), text.to_string());
    assert_eq!(results, vec![kept("c2", "two"), kept("c1", "one")]);
}

#[test]
fn contents_are_texts() {
    let calls = Some(vec![call("c", "grep", "{}")]);
    let messages = vec![ChatMessage::Assistant { text: "thinking".to_string(), tool_calls: calls }];
    let body = build_request("m", "s", &messages, &Vec::new(), false);
    for m in body.list_at("messages").unwrap() {
        assert!(m.str_at("content").is_some());
    }
    assert_eq!(body.list_at("messages").unwrap()[1].str_at("content"), Some("thinking"));
}

#[test]
fn streamed_texts_and_calls_are_put_together() {
    let mut reader = StreamReader::new();
    assert_eq!(reader.apply(&delta(Some("He"), vec![])).as_deref(), Some("He"));
    assert_eq!(reader.apply(&delta(Some("llo"), vec![])).as_deref(), Some("llo"));
    assert_eq!(reader.apply(&StreamChunk { choices: vec![] }), None);
    assert!(matches!(reader.finish_stream(), LlmResponse::Text(t) if t == "Hello"));

    let mut reader = StreamReader::new();
    assert_eq!(reader.apply(&delta(None, vec![piece(1, Some("b"), Some("glob"), "{\"pattern\":")])), None);
    reader.apply(&delta(None, vec![piece(0, None, Some("grep"), "{}")]));
    reader.apply(&delta(None, vec![piece(1, None, None, "\"*\"}")]));
    reader.apply(&delta(None, vec![piece(7, None, None, "x")]));
    reader.apply(&delta(None, vec![StreamToolCall { index: 9, id: None, function: None }]));
    match reader.finish_stream() {
        LlmResponse::ToolCalls(calls) => {
            let got: Vec<(String, String, String)> =
                calls.into_iter().map(|c| (c.id, c.name, c.arguments.to_string())).collect();
            assert_eq!(
                got,
                vec![
                    ("call_0".to_string(), "grep".to_string(), "{}".to_string()),
                    ("b".to_string(), "glob".to_string(), "{\"pattern\":\"*\"}".to_string()),
                    ("call_7".to_string(), String::new(), "\"x\"".to_string()),
                ]
            );
        }
        LlmResponse::Text(t) => panic!("text {}", t),
    }
}

#[test]
fn prompts_say_where_commands_run() {
    let c = agent_config(false, 5);
    assert_eq!(
        c.build_system_prompt(false),
        "Prompt.\n\nEnvironment: You are running on Linux/Unix. The shell_exec tool runs commands via sh -c."
    );
    let windows = c.build_system_prompt(true);
    assert!(windows.starts_with("Prompt.\n\nEnvironment: You are running on Windows. The shell_exec tool runs commands via cmd.exe (cmd /C). Use Windows"));
    assert!(windows.ends_with("Use PowerShell syntax only if explicitly needed via `powershell -Command \"...\"`."));
    assert_eq!(session_prompt("p", None), "p");
    assert_eq!(session_prompt("p", Some(" \n")), "p");
    assert_eq!(
        session_prompt("p", Some("sum")),
        "p\n\n## Prior conversation summary\nsum\n\nThe messages before this summary were archived to save context. Use this summary to recall earlier context."
    );
}

#[test]
fn stored_messages_are_read_back() {
    let messages = vec![
        message("tool_result", "c0|orphan", None),
        message("user", "q", None),
        message("assistant", "", Some("calls")),
        message("tool_result", "c1|a|b", None),
        message("tool_result", "no separator", None),
        message("assistant", "", None),
        message("tool_result", "c2|late", None),
        message("assistant", "bad", Some("calls")),
        message("assistant", "text", None),
        message("system", "x", None),
    ];
    let mut parsed: Vec<Option<Vec<ToolCallRequest>>> = messages.iter().map(|_| None).collect();
    parsed[2] = Some(vec![call("c1", "grep", "{}")]);
    let out = build_llm_messages(&messages, parsed);
    let got: Vec<String> = out
        .iter()
        .map(|m| match m {
            ChatMessage::User(t) => format!("user {}", t),
            ChatMessage::Assistant { text, tool_calls } => {
                format!("assistant {} {:?}", text, tool_calls.as_ref().map(|c| c.len()))
            }
            ChatMessage::ToolResult { call_id, content } => format!("tool {} {}", call_id, content),
        })
        .collect();
    assert_eq!(
        got,
        vec!["user q", "assistant  Some(1)", "tool c1 a|b", "assistant bad None", "assistant text None"]
    );
}

#[test]
fn canned_greetings_are_short() {
    assert!(is_canned_greeting("Hi there! How can I help you today?"));
    assert!(is_canned_greeting("WHAT CAN I DO FOR YOU"));
    assert!(!is_canned_greeting("The answer is 4."));
    assert!(!is_canned_greeting(&format!("hello! {}", "x".repeat(120))));
    assert!(is_canned_greeting(&format!("hello!{}", "x".repeat(114))));
    assert!(has_greeting("oh, greetings to you"));
    assert!(!has_greeting("GREETINGS"));
}

#[test]
fn tools_are_looked_up() {
    let registry = create_default_registry();
    let (entry, input) = execute_tool(&registry, "grep", "{\"pattern\": \"x\"}").ok().unwrap();
    assert!(entry.handler == BuiltinTool::Grep);
    assert_eq!(input.str_at("pattern"), Some("x"));
    match execute_tool(&registry, "nope", "{}") {
        Err(e) => assert_eq!(e.message(), "Tool not found: nope"),
        Ok(_) => panic!("a tool that is not there"),
    }
    match execute_tool(&registry, "grep", "{") {
        Err(e) => {
            assert!(matches!(e, CallError::BadArguments));
            assert_eq!(e.message(), "Failed to parse tool arguments as JSON");
        }
        Ok(_) => panic!("arguments that are none"),
    }
}

#[test]
fn sessions_are_compacted() {
    assert!(!needs_compaction(60));
    assert!(needs_compaction(61));
    let few: Vec<Message> = (0..30).map(|_| message("user", "x", None)).collect();
    assert!(plan_compaction(&few).is_none());
    let mut many: Vec<Message> = vec![
        message("user", "first", None),
        message("assistant", "second", None),
        message("tool_result", "c|r", None),
        message("note", &"y".repeat(700), None),
    ];
    many.extend((0..30).map(|_| message("user", "kept", None)));
    for (i, m) in many.iter_mut().enumerate() {
        m.id = format!("m{}", i);
    }
    let plan = plan_compaction(&many).unwrap();
    assert_eq!(plan.archived, vec!["m0", "m1", "m2", "m3"]);
    let expected = format!(
        "Summarize the conversation transcript below into a compact summary (max 250 words) that preserves the key facts, decisions, tasks, user preferences, and any context needed to continue the conversation. Do not add anything not present in the transcript.\n\nTRANSCRIPT:\n[user] first\n[assistant] second\n[user] {}\n",
        "y".repeat(600)
    );
    assert_eq!(plan.prompt, expected);
    assert_eq!(plan.system, "You are a conversation summarizer. Output only the summary.");
    let mut tools: Vec<Message> = vec![message("tool", "x", None)];
    tools.extend((0..30).map(|_| message("user", "kept", None)));
    assert!(plan_compaction(&tools).is_none());
    assert_eq!(summary_of(&LlmResponse::Text(" s \n".to_string())).as_deref(), Some("s"));
    assert_eq!(summary_of(&LlmResponse::Text(" ".to_string())), None);
    assert_eq!(summary_of(&LlmResponse::ToolCalls(vec![])), None);
    assert_eq!(
        show(&compacted_event("r", "s", 4)),
        "{\"type\":\"session.compacted\",\"run_id\":\"r\",\"session_id\":\"s\",\"archived_messages\":4}"
    );
}

#[test]
fn configured_agents_are_there() {
    let manager = AgentManager::from_config(&config(vec![AgentDef {
        name: "coder".to_string(),
        model: Some("smart".to_string()),
        tools: vec![],
        bindings: vec![],
    }]));
    assert_eq!(manager.count(), 2);
    let mut names = manager.list();
    names.sort();
    assert_eq!(names, vec!["coder", "main"]);
    let coder = manager.get("coder").unwrap();
    assert_eq!(coder.model_override.as_deref(), Some("smart"));
    assert!(coder.system_prompt.starts_with("You are coder, a specialized coding agent"));
    for name in &names {
        assert!(manager.get(name).unwrap().system_prompt.ends_with(IDE_WORKSPACE_RULES));
    }
    assert!(manager.get("main").is_some());
    assert!(manager.get("other").is_none());
    assert_eq!(AgentManager::new().count(), 0);
}

#[test]
fn a_run_answers() {
    let permissions = PermissionManager::new(PermissionConfig::default());
    let (mut run, step) = AgentRun::start(&agent_config(false, 5), "main", "s", &Some("r".to_string()), "gpt");
    assert!(matches!(step.action, Action::CheckCancelled));
    assert!(run.phase() == Phase::Check);
    let step = run.on_checked(false);
    assert!(matches!(step.action, Action::Complete));
    let step = run.on_completed(LlmResponse::Text("four".to_string()), &permissions);
    assert_eq!(kinds(&step), vec!["text four"]);
    match step.action {
        Action::Return { response, compact } => {
            assert!(compact);
            assert_eq!(response.content, "four");
            assert_eq!(response.session_id, "s");
            assert_eq!(response.model_used.as_deref(), Some("gpt"));
            assert!(response.tool_calls.is_empty());
        }
        other => panic!("{:?}", other),
    }
    assert!(run.phase() == Phase::Done);
}

#[test]
fn a_run_is_cancelled() {
    let (mut run, _) = AgentRun::start(&agent_config(false, 5), "main", "s", &None, "gpt");
    let step = run.on_checked(true);
    assert_eq!(kinds(&step), vec!["run_cancelled"]);
    match step.action {
        Action::Return { response, compact } => {
            assert!(!compact);
            assert_eq!(response.content, "Run cancelled by user.");
        }
        other => panic!("{:?}", other),
    }
}

#[test]
fn bad_replies_and_errors_are_tried_again() {
    let permissions = PermissionManager::new(PermissionConfig::default());
    let (mut run, _) = AgentRun::start(&agent_config(false, 9), "main", "s", &Some("r".to_string()), "gpt");
    for text in ["", "Hi there!"] {
        run.on_checked(false);
        let step = run.on_completed(LlmResponse::Text(text.to_string()), &permissions);
        assert_eq!(kinds(&step), vec!["session.token_reset"]);
        assert!(matches!(step.action, Action::CheckCancelled));
    }
    for _ in 0..2 {
        run.on_checked(false);
        let step = run.on_failed("needs reasoning_content");
        assert_eq!(kinds(&step), vec!["session.token_reset"]);
        assert!(matches!(step.action, Action::CheckCancelled));
    }
    run.on_checked(false);
    let step = run.on_failed("needs reasoning_content");
    match step.action {
        Action::Return { response, compact } => {
            assert!(compact);
            assert_eq!(
                response.content,
                "I encountered an error processing your request: needs reasoning_content"
            );
        }
        other => panic!("{:?}", other),
    }
}

#[test]
fn tools_run_only_when_allowed() {
    let permissions = PermissionManager::new(PermissionConfig::default());
    let (mut run, _) = AgentRun::start(&agent_config(false, 5), "main", "s", &Some("r".to_string()), "gpt");
    run.on_checked(false);
    let calls = vec![call("c1", "grep", "{}"), call("c2", "shell_exec", "{\"command\": \"ls\"}")];
    let step = run.on_completed(LlmResponse::ToolCalls(calls), &permissions);
    assert_eq!(kinds(&step), vec!["calls", "tool_call"]);
    assert_eq!(run.calls().len(), 2);
    assert!(matches!(step.action, Action::Execute { tool, arguments } if tool == "grep" && arguments == "{}"));
    let step = run.on_executed(Err("boom".to_string()), &permissions);
    assert_eq!(kinds(&step), vec!["tool_result", "result c1 c1|Error: boom", "tool_call"]);
    assert!(matches!(step.action, Action::RequestApproval { tool, .. } if tool == "shell_exec"));
    let step = run.on_requested("a1");
    assert_eq!(kinds(&step), vec!["approval_needed"]);
    assert!(matches!(step.action, Action::AwaitApproval { id } if id == "a1"));
    let step = run.on_decided(PermissionMode::Deny, &permissions);
    assert_eq!(
        kinds(&step),
        vec!["tool_result", "result c2 c2|Tool execution denied by human approval"]
    );
    assert!(matches!(step.action, Action::CheckCancelled));

    run.on_checked(false);
    let step = run.on_completed(LlmResponse::ToolCalls(vec![call("c3", "shell_exec", "{}")]), &permissions);
    assert!(matches!(step.action, Action::RequestApproval { .. }));
    run.on_requested("a2");
    let step = run.on_decided(PermissionMode::Allow, &permissions);
    assert!(matches!(step.action, Action::Execute { tool, .. } if tool == "shell_exec"));
    let step = run.on_executed(Ok("z".repeat(2500)), &permissions);
    match &step.effects[0] {
        Effect::Broadcast(d) => assert_eq!(d.text_at("result"), "z".repeat(2000)),
        other => panic!("{:?}", other),
    }

    let (mut free, _) = AgentRun::start(&agent_config(true, 5), "main", "s", &None, "gpt");
    free.on_checked(false);
    let step = free.on_completed(LlmResponse::ToolCalls(vec![call("c", "shell_exec", "{}")]), &permissions);
    assert!(matches!(step.action, Action::Execute { .. }));
}

#[test]
fn rounds_are_limited() {
    let permissions = PermissionManager::new(PermissionConfig::default());
    let (mut run, _) = AgentRun::start(&agent_config(true, 1), "main", "s", &None, "gpt");
    run.on_checked(false);
    run.on_completed(LlmResponse::ToolCalls(vec![call("c", "grep", "{}")]), &permissions);
    let step = run.on_executed(Ok("out".to_string()), &permissions);
    assert!(matches!(step.action, Action::FetchLast));
    let step = run.on_last(Some("c|out".to_string()));
    match step.action {
        Action::Return { response, .. } => {
            assert_eq!(response.content, "c|out");
            assert_eq!(response.tool_calls.len(), 1);
            assert_eq!(response.tool_calls[0].result.as_deref(), Some("out"));
        }
        other => panic!("{:?}", other),
    }
    let (mut none, step) = AgentRun::start(&agent_config(true, 0), "main", "s", &None, "gpt");
    assert!(matches!(step.action, Action::FetchLast));
    match none.on_last(None).action {
        Action::Return { response, .. } => assert_eq!(response.content, "No response generated."),
        other => panic!("{:?}", other),
    }
}
