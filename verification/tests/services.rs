use clawrig::agent::AgentResponse;
use clawrig::channels::email::EmailChannel;
use clawrig::channels::telegram::{
    bot_username, check_ids, extract_chat, extract_text, extract_user, read_updates, send_body, typing_body,
    TelegramChannel,
};
use clawrig::channels::{InboundMessage, OutboundMessage};
use clawrig::cli::{
    doctor_failed, doctor_report, plan_serve, AgentCommands, Commands, CronCommands, SessionCommands,
};
use clawrig::config::{
    default_account, default_db_path, default_dm_policy, default_host, default_interval, default_model, default_peer,
    default_port, default_true, AgentDefaults, AgentsConfig, ChannelsConfig, Config, DatabaseConfig, EmailConfig,
    HeartbeatConfig, ModelProfile, ModelsConfig, SchedulerConfig, ServerConfig, TelegramConfig,
};
use clawrig::database::approvals::{expiry, Approval};
use clawrig::database::database_url;
use clawrig::database::jobs::Job;
use clawrig::database::provider_usage::{cooldown_until, is_provider_available, provider_state, record_call};
use clawrig::database::sessions::{append_summary, thread_key, Message, Session};
use clawrig::database::tasks::{RunEnd, Task};
use clawrig::gateway::{
    accept, email_channel, no_agent_message, reply_to, request_direct, resolve_agent, set_up, telegram_channel,
    EnvValues, SetupError,
};
use clawrig::models::{ModelRouter, RouteError, TaskClass};
use clawrig::permissions::{arguments_hash, hash_text, ApprovalWait, PermissionConfig, PermissionManager};
use clawrig::scheduler::{delivery_for, is_due, request_for};
use clawrig::tools::PermissionMode;
use clawrig::value::{parse_json, Data};
use clawrig::web::{
    answer_event, cancelled_event, chat_agent, chat_peer, chat_request, chat_response, chat_session, decide_approval,
    error_event, health_response, memory_usage, metrics_response, model_profile, session_parties, session_response,
    status_response, token_event, user_event, ChatRequest, SessionRequest,
};
use clawrig::workspace::Refusal;
use std::sync::atomic::AtomicBool;
use std::sync::Arc;

fn show(d: &Data) -> String {
    match d {
        Data::Null => "null".to_string(),
        Data::Bool(b) => b.to_string(),
        Data::Uint(n) => n.to_string(),
        Data::Int(n) => n.to_string(),
        Data::Float(s) => s.clone(),
        Data::Str(s) => format!("{:?}", s),
        Data::List(v) => format!("[{}]", v.iter().map(show).collect::<Vec<_>>().join(",")),
        Data::Table(v) => {
            format!("{{{}}}", v.iter().map(|(k, x)| format!("{:?}:{}", k, show(x))).collect::<Vec<_>>().join(","))
        }
    }
}

fn json(text: &str) -> Data {
    parse_json(text).unwrap()
}

fn profile(provider: &str, model: &str) -> ModelProfile {
    ModelProfile {
        provider: provider.to_string(),
        model: model.to_string(),
        api_key: Some("key".to_string()),
        api_key_env: None,
        base_url: None,
        temperature: None,
        max_tokens: None,
        top_p: None,
        extra_body: None,
    }
}

fn config() -> Config {
    Config {
        server: ServerConfig { host: default_host(), port: default_port() },
        database: DatabaseConfig { path: default_db_path() },
        agents: AgentsConfig { defaults: AgentDefaults::default(), agents: vec![] },
        models: ModelsConfig { fast: None, smart: None, reasoning: None, groq: None, nvidia: None },
        channels: ChannelsConfig { telegram: None, email: None },
        scheduler: SchedulerConfig::default(),
        heartbeat: HeartbeatConfig::default(),
    }
}

fn no_env() -> EnvValues {
    EnvValues { api_key: None, telegram_token: None, email_username: None, email_password: None }
}

fn telegram_config() -> TelegramConfig {
    TelegramConfig { enabled: true, dm_policy: default_dm_policy(), bot_token_env: None, bot_token: None }
}

fn email_config() -> EmailConfig {
    EmailConfig {
        enabled: true,
        imap_host: "imap.x".to_string(),
        imap_port: None,
        smtp_host: "smtp.x".to_string(),
        smtp_port: Some(25),
        username_env: None,
        password_env: None,
        username: None,
        password: None,
    }
}

fn job() -> Job {
    Job {
        id: "j".to_string(),
        agent_id: "main".to_string(),
        schedule: "daily".to_string(),
        timezone: None,
        session_mode: "isolated".to_string(),
        prompt: "do".to_string(),
        target_channel: None,
        target_peer: None,
        enabled: true,
        next_run_at: None,
        last_run_at: None,
        created_at: 1,
    }
}

#[test]
fn settings_have_defaults() {
    assert_eq!(default_host(), "127.0.0.1");
    assert_eq!(default_port(), 18789);
    assert_eq!(default_db_path(), "~/.clawrig/clawrig.db");
    assert_eq!(default_account(), "default");
    assert_eq!(default_peer(), "*");
    assert_eq!(default_model(), "smart");
    assert_eq!(default_dm_policy(), "pairing");
    assert!(default_true());
    assert_eq!(default_interval(), "30m");
    assert_eq!(AgentDefaults::default().model, "smart");
    assert!(!AgentDefaults::default().yolo);
    assert!(SchedulerConfig::default().enabled);
    assert_eq!(HeartbeatConfig::default().interval, "30m");
}

#[test]
fn permissions_are_looked_up() {
    let m = PermissionManager::new(PermissionConfig::default());
    assert!(m.check_permission("main", "shell_exec") == PermissionMode::Ask);
    assert!(m.check_permission("main", "fs_write") == PermissionMode::Ask);
    assert!(m.check_permission("other", "shell_exec") == PermissionMode::Ask);
    assert!(m.check_permission("other", "delete_file") == PermissionMode::Ask);
    assert!(m.check_permission("other", "read_file") == PermissionMode::Allow);
    for tool in ["shell_exec", "fs_write", "write_file", "edit_file", "delete_file", "git_commit"] {
        assert!(m.check_permission("main", tool) == PermissionMode::Ask);
        assert!(m.check_permission("other", tool) == PermissionMode::Ask);
    }
    for tool in ["read_file", "list_dir", "web_fetch", "web_search", "glob", "grep", "todo_list", "git_status", "git_diff"]
    {
        assert!(m.check_permission("main", tool) == PermissionMode::Allow);
    }
    assert_eq!(hash_text(0xabc), "abc");
    assert_eq!(arguments_hash("{}"), arguments_hash("{}"));
    assert_ne!(arguments_hash("{}"), arguments_hash("{ }"));
    assert!(u64::from_str_radix(&arguments_hash("{}"), 16).is_ok());
}

#[test]
fn only_an_approval_allows() {
    let mut wait = ApprovalWait::new();
    assert!(wait.check(None).is_none());
    assert!(wait.check(Some("pending")).is_none());
    assert!(wait.check(Some("approved")) == Some(PermissionMode::Allow));
    for status in ["denied", "expired"] {
        let mut wait = ApprovalWait::new();
        assert!(wait.check(Some(status)) == Some(PermissionMode::Deny));
    }
    let mut wait = ApprovalWait::new();
    let mut checks = 0;
    while !wait.is_over() {
        assert!(wait.check(Some("pending")).is_none());
        checks += 1;
    }
    assert_eq!(checks, 60);
}

#[test]
fn models_are_selected() {
    let mut r = ModelRouter::new();
    assert!(matches!(r.select(&TaskClass::Chat, 0), Err(RouteError::NoneHealthy)));
    r.register_profile("smart", profile("b", "big"));
    assert_eq!(r.select(&TaskClass::Chat, 0).ok().unwrap().0, "smart");
    r.register_profile("fast", profile("a", "small"));
    for task in [TaskClass::Chat, TaskClass::Summarize, TaskClass::Extract] {
        assert_eq!(r.select(&task, 0).ok().unwrap().0, "fast");
    }
    for task in [TaskClass::Coding, TaskClass::Planning, TaskClass::Research, TaskClass::ToolUse] {
        assert_eq!(r.select(&task, 0).ok().unwrap().1.model, "big");
    }
    assert_eq!(r.select_by_name("fast").ok().unwrap().model, "small");
    match r.select_by_name("none") {
        Err(e) => assert_eq!(e.message(), "Model profile 'none' not found"),
        Ok(_) => panic!("a profile that is not there"),
    }
    assert_eq!(r.list_profiles().len(), 2);
    assert_eq!(RouteError::NoneHealthy.message(), "No healthy model providers available");
    let names = vec!["smart".to_string(), "fast".to_string()];
    assert_eq!(r.select_among(&TaskClass::Chat, &names, 0).ok().unwrap().0, "fast");
}

#[test]
fn configured_models_are_registered() {
    let mut r = ModelRouter::new();
    let mut c = config();
    c.models.fast = Some(profile("a", "f"));
    c.models.reasoning = Some(profile("a", "r"));
    c.models.groq = Some(profile("a", "g"));
    r.register_configured(&c.models);
    let mut names: Vec<String> = r.list_profiles().into_iter().map(|(n, _)| n).collect();
    names.sort();
    assert_eq!(names, vec!["fast", "reasoning"]);
    assert_eq!(c.models.default_profile().unwrap().model, "f");
    c.models.fast = None;
    assert_eq!(c.models.default_profile().unwrap().model, "r");
}

#[test]
fn failures_rest_a_provider() {
    let mut r = ModelRouter::new();
    r.register_profile("fast", profile("a", "small"));
    r.report_failure("a", 10, 5);
    assert_eq!(r.failures("a"), 1);
    assert!(r.select(&TaskClass::Chat, 10_000_000_004).is_err());
    assert!(r.select(&TaskClass::Chat, 10_000_000_005).is_ok());
    for _ in 0..4 {
        r.report_failure("a", 0, 5);
    }
    assert_eq!(r.failures("a"), 5);
    assert!(r.select(&TaskClass::Chat, 10_000_000_005).is_err());
    assert!(r.select(&TaskClass::Chat, u128::MAX).is_err());
    r.register_profile("smart", profile("b", "big"));
    assert_eq!(r.select(&TaskClass::Chat, 5).ok().unwrap().0, "smart");
    r.report_success("a");
    assert_eq!(r.failures("a"), 0);
    assert!(r.select(&TaskClass::Chat, 0).is_ok());
}

#[test]
fn telegram_messages_are_read() {
    let t = TelegramChannel::new("tok".to_string(), "bot".to_string(), "pairing".to_string(), vec![7]);
    assert_eq!(t.id(), "telegram");
    assert_eq!(t.method_url("getMe"), "https://api.telegram.org/bottok/getMe");
    assert_eq!(t.updates_url(None), "https://api.telegram.org/bottok/getUpdates?timeout=30");
    assert_eq!(t.updates_url(Some(-4)), "https://api.telegram.org/bottok/getUpdates?timeout=30&offset=-4");
    assert!(t.is_user_allowed(7) && !t.is_user_allowed(8));
    let open = TelegramChannel::new("t".to_string(), "b".to_string(), "open".to_string(), vec![]);
    assert!(open.is_user_allowed(8));

    let updates = vec![
        json("{\"update_id\": 10, \"message\": {\"message_id\": 3, \"text\": \"hi\", \"from\": {\"id\": 7, \"first_name\": \"Ann\"}, \"chat\": {\"id\": -5, \"type\": \"group\"}, \"reply_to_message\": {\"message_id\": 2}}}"),
        json("{\"update_id\": 11, \"message\": {\"text\": \"no\", \"from\": {\"id\": 8}, \"chat\": {\"id\": 8}}}"),
        json("{\"update_id\": 12, \"message\": {\"caption\": \"pic\", \"from\": {\"id\": 7}, \"chat\": {\"id\": 7}}}"),
        json("{\"update_id\": 13}"),
    ];
    assert!(check_ids(&updates));
    let (offset, messages) = t.on_updates(None, &updates, 99);
    assert_eq!(offset, Some(14));
    assert_eq!(messages.len(), 2);
    let m = &messages[0];
    assert_eq!(m.id, "tg_3");
    assert_eq!(m.channel, "telegram");
    assert_eq!(m.account_id.as_deref(), Some("default"));
    assert_eq!(m.peer_id, "group:-5");
    assert_eq!(m.conversation_id.as_deref(), Some("-5"));
    assert_eq!(m.text.as_deref(), Some("hi"));
    assert_eq!(m.reply_to.as_deref(), Some("2"));
    assert_eq!(m.timestamp, 99);
    assert_eq!(show(&m.metadata), "{\"user_name\":\"Ann\",\"chat_type\":\"group\",\"chat_id\":-5}");
    let m = &messages[1];
    assert_eq!(m.id, "tg_0");
    assert_eq!(m.peer_id, "user:7");
    assert_eq!(m.text.as_deref(), Some("pic"));
    assert_eq!(m.reply_to, None);
    assert_eq!(show(&m.metadata), "{\"user_name\":\"Unknown\",\"chat_type\":\"private\",\"chat_id\":7}");
    assert!(t.read_update(&updates[1], 1).is_none());
    assert_eq!(t.on_updates(Some(4), &vec![json("{}")], 1).0, Some(4));
    assert!(!check_ids(&vec![json("{\"update_id\": 9223372036854775807}")]));
}

#[test]
fn telegram_answers_are_read() {
    assert_eq!(read_updates(&json("{\"ok\": true, \"result\": [1, 2]}")).len(), 2);
    assert!(read_updates(&json("{\"ok\": false, \"result\": [1]}")).is_empty());
    assert!(read_updates(&json("{\"result\": [1]}")).is_empty());
    assert_eq!(bot_username(&json("{\"result\": {\"username\": \"b\"}}")), "b");
    assert_eq!(bot_username(&json("{}")), "unknown");
    let m = json("{\"from\": {\"id\": 1}, \"chat\": {}, \"text\": \"t\", \"caption\": \"c\"}");
    assert_eq!(extract_user(&m), Some((1, "Unknown".to_string())));
    assert_eq!(extract_chat(&m), None);
    assert_eq!(extract_text(&m).as_deref(), Some("t"));
    let out = |reply: Option<&str>| OutboundMessage {
        channel: "telegram".to_string(),
        target: "5".to_string(),
        reply_to: reply.map(|s| s.to_string()),
        text: "yo".to_string(),
        attachments: vec![],
        metadata: Data::Null,
    };
    assert_eq!(
        show(&send_body(&out(Some("12")))),
        "{\"chat_id\":\"5\",\"text\":\"yo\",\"reply_to_message_id\":12}"
    );
    assert_eq!(show(&send_body(&out(Some("tg_12")))), "{\"chat_id\":\"5\",\"text\":\"yo\"}");
    assert_eq!(show(&send_body(&out(None))), "{\"chat_id\":\"5\",\"text\":\"yo\"}");
    assert_eq!(show(&typing_body("5")), "{\"chat_id\":\"5\",\"action\":\"typing\"}");
}

#[test]
fn email_channels_hold_their_settings() {
    let c = EmailChannel::new("i".to_string(), 1, "s".to_string(), 2, "u".to_string(), "p".to_string());
    assert_eq!(c.id(), "email");
    assert_eq!((c.imap_host(), c.imap_port()), ("i", 1));
    assert_eq!((c.smtp_host(), c.smtp_port()), ("s", 2));
    assert_eq!((c.username(), c.password()), ("u", "p"));
    assert!(!c.stop_flag().load(std::sync::atomic::Ordering::SeqCst));
}

#[test]
fn gateways_are_set_up() {
    let mut c = config();
    match set_up(&c, &no_env()) {
        Err(e) => assert_eq!(e.message(), "No model profile configured"),
        Ok(_) => panic!("set up without a model"),
    }
    c.models.smart = Some(profile("x", "m"));
    match set_up(&c, &no_env()) {
        Err(e) => assert_eq!(e.message(), "Unsupported provider: x"),
        Ok(_) => panic!("set up with an unknown provider"),
    }
    c.models.smart = Some(profile("openai", "m"));
    c.agents.defaults.yolo = true;
    let s = set_up(&c, &no_env()).ok().unwrap();
    assert!(s.telegram.is_none() && s.email.is_none());
    assert_eq!(s.agent.name, "main");
    assert_eq!(s.agent.system_prompt, "You are ClawRig, a helpful AI assistant.");
    assert_eq!(s.agent.max_tool_rounds, 10);
    assert!(s.agent.yolo_mode);

    c.channels.telegram = Some(telegram_config());
    assert!(matches!(set_up(&c, &no_env()), Err(SetupError::NoTelegramToken)));
    assert_eq!(SetupError::NoTelegramToken.message(), "Telegram bot token not configured");
    assert_eq!(SetupError::NoEmailUsername.message(), "Email username not configured");
    assert_eq!(SetupError::NoEmailPassword.message(), "Email password not configured");
    c.channels.telegram.as_mut().unwrap().bot_token = Some("t".to_string());
    c.channels.email = Some(email_config());
    assert!(matches!(set_up(&c, &no_env()), Err(SetupError::NoEmailUsername)));
    c.channels.email.as_mut().unwrap().username = Some("u".to_string());
    assert!(matches!(set_up(&c, &no_env()), Err(SetupError::NoEmailPassword)));
    c.channels.email.as_mut().unwrap().password = Some("p".to_string());
    let s = set_up(&c, &no_env()).ok().unwrap();
    assert_eq!(s.telegram.unwrap().bot_token, "t");
    let email = s.email.unwrap();
    assert_eq!((email.imap_port(), email.smtp_port()), (993, 25));
}

#[test]
fn channels_take_secrets_from_the_environment() {
    let mut t = telegram_config();
    t.bot_token_env = Some("T".to_string());
    assert!(telegram_channel(&Some(t), &None).is_err());
    let mut t = telegram_config();
    t.bot_token_env = Some("T".to_string());
    assert_eq!(telegram_channel(&Some(t), &Some("v".to_string())).ok().unwrap().unwrap().bot_token, "v");
    let mut off = telegram_config();
    off.enabled = false;
    assert!(telegram_channel(&Some(off), &None).ok().unwrap().is_none());
    let mut e = email_config();
    e.username_env = Some("U".to_string());
    e.password_env = Some("P".to_string());
    let c = email_channel(&Some(e), &Some("u".to_string()), &Some("p".to_string())).ok().unwrap().unwrap();
    assert_eq!((c.username(), c.password()), ("u", "p"));
    assert!(email_channel(&None, &None, &None).ok().unwrap().is_none());
}

#[test]
fn answers_go_back() {
    let message = InboundMessage {
        id: "tg_3".to_string(),
        channel: "telegram".to_string(),
        account_id: None,
        peer_id: "user:7".to_string(),
        conversation_id: Some("7".to_string()),
        text: None,
        attachments: vec![],
        reply_to: None,
        timestamp: 1,
        metadata: Data::Null,
    };
    assert_eq!(resolve_agent(&message), "main");
    let (request, target) = accept("main", message);
    assert_eq!(request.session_id, "telegram:user:7:7");
    assert_eq!(request.content, "");
    assert_eq!(request.channel, "telegram");
    let response = AgentResponse {
        session_id: "s".to_string(),
        content: "hi".to_string(),
        tool_calls: vec![],
        tokens_used: None,
        model_used: None,
    };
    let out = reply_to(&target, &response).unwrap();
    assert_eq!(out.channel, "telegram");
    assert_eq!(out.target, "7");
    assert_eq!(out.reply_to.as_deref(), Some("tg_3"));
    assert_eq!(out.text, "hi");
    assert_eq!(show(&out.metadata), "{\"agent\":\"main\",\"session\":\"s\"}");
    let direct = request_direct("main", "p");
    assert_eq!(direct.session_id, "cli:main");
    assert_eq!((direct.channel.as_str(), direct.peer_id.as_str()), ("cli", "operator"));
    assert_eq!(no_agent_message("x"), "Agent 'x' not found");
}

#[test]
fn untimed_jobs_run_once() {
    let mut j = job();
    assert!(is_due(&j, 5));
    j.last_run_at = Some(5);
    assert!(!is_due(&j, 100));
    j.next_run_at = Some(100);
    assert!(is_due(&j, 100) && !is_due(&j, 99));
    let mut blank = job();
    blank.schedule = String::new();
    assert!(!is_due(&blank, 5));
}

#[test]
fn jobs_are_asked_and_delivered() {
    let mut j = job();
    let r = request_for(&j);
    assert_eq!(r.session_id, "cron:j");
    assert_eq!((r.channel.as_str(), r.peer_id.as_str()), ("internal", "scheduler"));
    assert_eq!(r.content, "do");
    assert!(delivery_for(&j, "x").is_none());
    j.target_channel = Some("telegram".to_string());
    assert!(delivery_for(&j, "x").is_none());
    j.target_peer = Some("7".to_string());
    let out = delivery_for(&j, "x").unwrap();
    assert_eq!((out.channel.as_str(), out.target.as_str(), out.text.as_str()), ("telegram", "7", "x"));
    assert_eq!(out.reply_to, None);
    assert_eq!(show(&out.metadata), "{\"source\":\"scheduler\",\"job_id\":\"j\"}");
}

#[test]
fn rows_become_records() {
    let s = |t: &str| t.to_string();
    let a = Approval::from_row((s("i"), s("a"), s("s"), s("t"), s("{}"), s("h"), s("pending"), 1, 301, None));
    assert_eq!((a.id.as_str(), a.status.as_str(), a.expires_at), ("i", "pending", 301));
    assert_eq!(expiry(10, 300), 310);
    let session = Session::from_row((s("i"), s("a"), s("web"), s("p"), None, 1, 2, 1, Some(s("sum"))));
    assert!(session.compacted);
    assert_eq!(session.summary.as_deref(), Some("sum"));
    let fresh = Session::begin("i", "a", "web", "p", Some("t"), 5);
    assert_eq!((fresh.created_at, fresh.updated_at, fresh.compacted), (5, 5, false));
    assert_eq!(fresh.thread_id.as_deref(), Some("t"));
    assert_eq!(thread_key(None), "");
    assert_eq!(thread_key(Some("t")), "t");
    let m = Message::from_row((s("i"), s("s"), s("user"), s("c"), None, None, None, 3, Some(4)));
    assert_eq!((m.role.as_str(), m.created_at, m.tokens), ("user", 3, Some(4)));
    assert_eq!(append_summary(None, "n"), "n");
    assert_eq!(append_summary(Some(""), "n"), "n");
    assert_eq!(append_summary(Some("o"), "n"), "o\n\nn");
    let t = Task::from_row((s("r"), s("a"), s("s"), s("running"), 1, None, None));
    assert_eq!((t.run_id.as_str(), t.completed_at), ("r", None));
    assert_eq!(RunEnd::Complete.record(), (s("complete"), None));
    assert_eq!(RunEnd::Failed(s("e")).record(), (s("error"), Some(s("e"))));
    assert_eq!(RunEnd::Cancelled.record(), (s("cancelled"), None));
    assert_eq!(database_url("/x/y.db"), "sqlite:/x/y.db?mode=rwc");
}

#[test]
fn provider_usage_is_recorded() {
    assert_eq!(provider_state((1, Some(4), 2)), (true, Some(4), 2));
    assert!(is_provider_available(None, 5));
    assert!(!is_provider_available(Some((1, Some(6))), 5));
    assert!(is_provider_available(Some((1, Some(5))), 5));
    assert!(!is_provider_available(Some((0, None)), 5));
    assert_eq!(cooldown_until(5, 60), 65);
    let r = record_call(100, 2500, true);
    assert_eq!((r.status.as_str(), r.started_at, r.completed_at), ("completed", 98, 100));
    assert_eq!(record_call(100, -2500, false).started_at, 102);
    assert_eq!(record_call(100, 1, false).status, "failed");
}

fn chat(session_id: Option<&str>, provider: Option<&str>) -> ChatRequest {
    ChatRequest {
        message: "hi".to_string(),
        agent: None,
        peer_id: None,
        provider: provider.map(|s| s.to_string()),
        session_id: session_id.map(|s| s.to_string()),
    }
}

#[test]
fn sessions_are_resumed() {
    let first = chat(None, None);
    let key = chat_session(&first, "u1");
    assert_eq!(key, "web:main:u1");
    assert_eq!(chat_session(&chat(Some(&key), None), "u2"), key);
    assert_eq!(chat_session(&chat(Some("  "), None), "u3"), "web:main:u3");
    assert_ne!(chat_session(&first, "u4"), chat_session(&first, "u5"));
    assert_eq!(chat_agent(&first), "main");
    assert_eq!(chat_peer(&first), "anonymous");
}

#[test]
fn chats_become_requests() {
    assert_eq!(model_profile(&Some("nvidia".to_string())).as_deref(), Some("nvidia"));
    assert_eq!(model_profile(&Some("groq".to_string())).as_deref(), Some("groq"));
    assert_eq!(model_profile(&Some("x".to_string())), None);
    assert_eq!(model_profile(&None), None);
    let r = chat_request(chat(None, Some("opencode")), "k", "r", Arc::new(AtomicBool::new(false)));
    assert_eq!(r.model_profile.as_deref(), Some("fast"));
    assert_eq!((r.session_id.as_str(), r.channel.as_str(), r.content.as_str()), ("k", "web", "hi"));
    assert_eq!(r.run_id.as_deref(), Some("r"));
    assert!(r.cancel_token.is_some());
    let cancel = Arc::new(AtomicBool::new(false));
    let r = chat_request(chat(None, None), "k", "r", cancel.clone());
    cancel.store(true, std::sync::atomic::Ordering::Relaxed);
    assert!(r.cancel_token.unwrap().load(std::sync::atomic::Ordering::Relaxed));
    let a = chat_response("r", "main", "k");
    assert_eq!((a.run_id.as_str(), a.agent.as_str(), a.session_id.as_str(), a.status.as_str()), ("r", "main", "k", "running"));
}

#[test]
fn web_events_and_answers() {
    assert_eq!(
        show(&user_event("a", "r", "c")),
        "{\"type\":\"user_message\",\"agent\":\"a\",\"run_id\":\"r\",\"content\":\"c\"}"
    );
    assert_eq!(
        show(&answer_event("a", "r", "c", 2)),
        "{\"type\":\"agent_response\",\"agent\":\"a\",\"run_id\":\"r\",\"content\":\"c\",\"tool_calls\":2}"
    );
    assert_eq!(
        show(&error_event("a", "r", "e")),
        "{\"type\":\"run_error\",\"agent\":\"a\",\"run_id\":\"r\",\"error\":\"e\"}"
    );
    assert_eq!(show(&cancelled_event("r")), "{\"type\":\"run_cancelled\",\"run_id\":\"r\"}");
    assert_eq!(
        show(&token_event("r", "s", "t")),
        "{\"type\":\"session.token\",\"run_id\":\"r\",\"session_id\":\"s\",\"token\":\"t\"}"
    );
    assert_eq!(show(&status_response("cancelled")), "{\"status\":\"cancelled\"}");
    assert_eq!(show(&health_response("0.1")), "{\"status\":\"ok\",\"version\":\"0.1\"}");
    assert_eq!(show(&metrics_response(5, 6, "0.1")), "{\"memory_kb\":5,\"pid\":6,\"version\":\"0.1\"}");
    let n = decide_approval("a", true, Some(true)).ok().unwrap();
    assert_eq!(show(&n.event), "{\"type\":\"approval_granted\",\"approval_id\":\"a\"}");
    assert_eq!(show(&n.answer), "{\"status\":\"approved\"}");
    let n = decide_approval("a", false, Some(true)).ok().unwrap();
    assert_eq!(show(&n.event), "{\"type\":\"approval_denied\",\"approval_id\":\"a\"}");
    assert_eq!(show(&n.answer), "{\"status\":\"denied\"}");
    assert!(matches!(decide_approval("a", true, Some(false)), Err(Refusal::NotFound)));
    assert!(matches!(decide_approval("a", true, None), Err(Refusal::Internal)));
    let p = session_parties(&SessionRequest { agent: None, peer: Some("p".to_string()) });
    assert_eq!(p, ("main".to_string(), "p".to_string()));
    assert_eq!(session_parties(&SessionRequest { agent: None, peer: None }).1, "web-user");
    assert_eq!(
        show(&session_response("a", "p", "s", "/w")),
        "{\"agent\":\"a\",\"peer\":\"p\",\"session_id\":\"s\",\"workspace\":\"/w\"}"
    );
}

#[test]
fn memory_usage_is_read() {
    assert_eq!(memory_usage("Name: x\nVmRSS:\t  1234 kB\nVmRSS: 9 kB\n"), 1234);
    assert_eq!(memory_usage("VmRSS:\nVmRSS: 9 kB\n"), 9);
    assert_eq!(memory_usage("VmRSS: x kB\nVmRSS: 9 kB\n"), 0);
    assert_eq!(memory_usage(""), 0);
}

#[test]
fn commands_print_their_answers() {
    assert_eq!(
        Commands::Status.output().unwrap(),
        vec!["ClawRig Status", "(Gateway must be running for live status)"]
    );
    assert!(Commands::Start.output().is_none());
    assert!(Commands::Doctor.output().is_none());
    assert!(Commands::Agent { command: AgentCommands::Run { agent: "a".to_string(), prompt: "p".to_string() } }.output().is_none());
    assert_eq!(
        Commands::Agent { command: AgentCommands::List }.output().unwrap(),
        vec!["Agents:", "  main (default)"]
    );
    assert_eq!(
        Commands::Session { command: SessionCommands::Reset { agent: "a".to_string() } }.output().unwrap(),
        vec!["Reset session for agent: a"]
    );
    let add = CronCommands::Add { agent: "a".to_string(), schedule: "s".to_string(), prompt: "p".to_string() };
    assert_eq!(
        Commands::Cron { command: add }.output().unwrap(),
        vec!["Added cron job:", "  Agent: a", "  Schedule: s", "  Prompt: p"]
    );
    assert_eq!(
        Commands::Cron { command: CronCommands::Delete { id: "j".to_string() } }.output().unwrap(),
        vec!["Deleted job: j"]
    );
    assert_eq!(
        Commands::Memory { query: "q".to_string() }.output().unwrap(),
        vec!["Memory search: q", "(Run 'clawrig start' to search memory)"]
    );
}

#[test]
fn servers_run_where_they_are_told() {
    let mut c = config();
    let p = plan_serve(None, true, false, &c);
    assert_eq!((p.port, p.address.as_str(), p.yolo), (18789, "0.0.0.0:18789", false));
    assert_eq!(
        p.banner,
        vec![
            "",
            "  ClawRig Web UI: http://localhost:18789",
            "  API:            http://localhost:18789/api/health",
            "  SSE Events:     http://localhost:18789/api/events",
            ""
        ]
    );
    let p = plan_serve(Some(9), false, true, &c);
    assert_eq!((p.port, p.address.as_str(), p.yolo), (9, "0.0.0.0:9", true));
    assert_eq!(
        p.banner,
        vec!["", "  ClawRig API: http://localhost:9/api/health", "  UI disabled (use --ui to enable)", ""]
    );
    c.agents.defaults.yolo = true;
    assert!(plan_serve(None, true, false, &c).yolo);
}

#[test]
fn health_checks_report() {
    let mut c = config();
    assert_eq!(
        doctor_report(&c, None, false),
        vec![
            "",
            "ClawRig Doctor",
            "",
            "Checking configuration...",
            "  \u{2713} Configuration loaded",
            "  \u{2713} Database accessible",
            "  \u{2717} No models configured",
            "",
            "Ready."
        ]
    );
    c.channels.telegram = Some(telegram_config());
    c.channels.telegram.as_mut().unwrap().bot_token_env = Some("T".to_string());
    c.channels.email = Some(email_config());
    c.models.fast = Some(profile("openai", "m"));
    let r = doctor_report(&c, Some("locked"), false);
    assert_eq!(
        r[5..9].to_vec(),
        vec![
            "  \u{2717} Database: locked",
            "  \u{2717} Telegram env var 'T' not set",
            "  \u{2713} Email configured (IMAP: imap.x)",
            "  \u{2713} Fast model configured"
        ]
    );
    assert_eq!(doctor_report(&c, None, true)[6], "  \u{2713} Telegram token from env");
    let f = doctor_failed("bad");
    assert_eq!(f[4], "  \u{2717} Configuration: bad");
    assert_eq!(f[6], "Create a config file at ~/.clawrig/config.toml");
}
