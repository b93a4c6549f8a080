use std::hash::{Hash, Hasher};
use wikimind::anthropic::{
    api_error_message, choose_config, config_file_locations, default_api_config, dirs_config, messages_url,
    response_text, ApiConfig,
};
use wikimind::conversation::{
    role_from_name, AssistantEvent, ContentBlock, ConversationRuntime, MessageRole, RuntimeError, Session,
    ToolError,
};
use wikimind::infra::{
    validate_packet, HookProgressReporter, HookRunResult, HookRunner, PermissionContext, PermissionOutcome, PermissionPolicy,
    RuntimeFeatureConfig, TaskPacket,
};
use wikimind::sessions::SessionStore;

#[test]
fn role_names_map_to_roles() {
    assert_eq!(role_from_name("user"), MessageRole::User);
    assert_eq!(role_from_name("assistant"), MessageRole::Assistant);
    assert_eq!(role_from_name("system"), MessageRole::System);
    assert_eq!(role_from_name("tool"), MessageRole::User);
    assert_eq!(role_from_name(""), MessageRole::User);
}

#[test]
fn add_message_appends_one_message() {
    let mut runtime = ConversationRuntime::new(Session::new());
    runtime.add_message("user", "hello");
    runtime.add_message("assistant", "hi");
    let messages = &runtime.session().messages;
    assert_eq!(messages.len(), 2);
    assert_eq!(messages[0].role, MessageRole::User);
    assert_eq!(messages[1].role, MessageRole::Assistant);
    assert!(messages[1].usage.is_none());
    match &messages[0].blocks[..] {
        [ContentBlock::Text { text }] => assert_eq!(text, "hello"),
        other => panic!("unexpected {:?}", other),
    }
}

#[test]
fn a_turn_answers_with_a_greeting() {
    let mut runtime = ConversationRuntime::new(Session::new());
    let events = runtime.run_turn().unwrap();
    assert_eq!(events.len(), 1);
    match &events[0] {
        AssistantEvent::TextDelta(t) => assert_eq!(t, "Hello from WikiMind!"),
        other => panic!("unexpected {:?}", other),
    }
    assert!(runtime.session().messages.is_empty());
}

#[test]
fn errors_keep_their_messages() {
    assert_eq!(ToolError::new("bad tool").to_string(), "bad tool");
    assert_eq!(RuntimeError::new("no turn").to_string(), "no turn");
}

#[test]
fn hooks_and_permissions_allow_everything() {
    assert!(RuntimeFeatureConfig::default_features().auto_compaction);
    assert!(!RuntimeFeatureConfig::default().auto_compaction);
    let context = PermissionContext::new("/ws");
    assert!(context.check_permission("write"));
    assert_eq!(PermissionPolicy::default_policy().evaluate(&context, "write"), PermissionOutcome::Allow);
    let runner = HookRunner::new("pre");
    assert!(matches!(runner.run(&QuietReporter), HookRunResult::Completed));
}

struct QuietReporter;

impl HookProgressReporter for QuietReporter {
    fn report(&self, _message: &str) {}
}

#[test]
fn every_task_packet_validates_unchanged() {
    let packet = TaskPacket {
        objective: "o".to_string(),
        scope: "s".to_string(),
        repo: "r".to_string(),
        branch_policy: "b".to_string(),
        acceptance_tests: vec!["t1".to_string(), "t2".to_string()],
        commit_policy: "c".to_string(),
        reporting_contract: "rc".to_string(),
        escalation_policy: "e".to_string(),
    };
    let validated = validate_packet(&packet).unwrap();
    assert_eq!(validated.into_inner(), packet);
}

#[test]
fn session_directory_is_the_hash_of_the_workspace() {
    let mut h = std::collections::hash_map::DefaultHasher::new();
    "/home/u/ws".hash(&mut h);
    let expected = format!("/tmp/wikimind-sessions/{:x}", h.finish());
    let store = SessionStore::from_cwd("/home/u/ws").unwrap();
    assert_eq!(store.sessions_dir(), expected);
    let again = SessionStore::from_cwd("/home/u/ws").unwrap();
    assert_eq!(again.sessions_dir(), store.sessions_dir());
    let other = SessionStore::from_cwd("/home/u/other").unwrap();
    assert_ne!(other.sessions_dir(), store.sessions_dir());
    assert!(store.load("s1").is_none());
    assert!(store.save("s1", b"data").is_ok());
}

#[test]
fn api_settings_locations_and_choice() {
    let d = default_api_config();
    assert_eq!(d.base_url, "https://api.minimaxi.com/anthropic");
    assert_eq!(d.auth_token, "");
    assert_eq!(d.model, "MiniMax-M2.7-highspeed");
    assert_eq!(dirs_config(Some("/home/u")), Some("/home/u/.config/wikimind".to_string()));
    assert_eq!(dirs_config(None), None);
    assert_eq!(
        config_file_locations(Some("/home/u")),
        vec!["wikimind.json", ".config/wikimind.json", "/home/u/.config/wikimind/wikimind.json"]
    );
    assert_eq!(config_file_locations(None), vec!["wikimind.json", ".config/wikimind.json"]);
    let a = ApiConfig { base_url: "A".to_string(), auth_token: "ta".to_string(), model: "ma".to_string() };
    let b = ApiConfig { base_url: "B".to_string(), auth_token: "tb".to_string(), model: "mb".to_string() };
    let chosen = choose_config(&vec![None, Some(a), Some(b)]);
    assert_eq!(chosen.base_url, "A");
    assert_eq!(chosen.auth_token, "ta");
    assert_eq!(choose_config(&vec![None, None]).model, "MiniMax-M2.7-highspeed");
    assert_eq!(choose_config(&vec![]).base_url, "https://api.minimaxi.com/anthropic");
}

#[test]
fn api_urls_texts_and_errors() {
    assert_eq!(messages_url("https://x.test/anthropic"), "https://x.test/anthropic/v1/messages");
    assert_eq!(response_text(&vec![Some("a".to_string()), None, Some("b".to_string())]), "ab");
    assert_eq!(response_text(&vec![]), "");
    assert_eq!(api_error_message("429", "slow down"), "API error 429: slow down");
}
