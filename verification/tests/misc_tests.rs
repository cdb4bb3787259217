use agent_rs::config::{McpConfig, McpConfigError, McpServerDef, McpTransportKind, McpTransportSpec, ServerDefError};
use agent_rs::dispatch::{AgentDefinition, AgentDispatcher, AgentKind};
use agent_rs::embeddings::{check_batch, check_texts, fragment_owners, plan_batches, EmbeddingService, FragmentError};
use agent_rs::managed::{managed_chat_history, ManagedSettings};
use agent_rs::invalid_tool::InvalidToolPolicy;
use agent_rs::react::content::AssistantContent;
use agent_rs::react::messages::{MessageView, UserContent};
use agent_rs::memory::{compaction_prompt, count_messages_tokens, count_string_tokens, default_compaction_prompt, estimate_tokens, needs_compaction, tokens_or_estimate};
use agent_rs::permission::{approves_lowered, cli_decision, PermissionEvent, PermissionGate, PermissionObserver, PermissionPolicy, PermissionResult, PolicyMap};
use agent_rs::retry::{backoff_delay_ms, is_retryable, Backoff, PromptErrorKind, RetryStep};
use agent_rs::state::{check_schema, timestamp_text, AgentCheckpoint, CheckpointMetadata};
use std::cell::RefCell;

fn stdio(cmd: &str) -> McpServerDef {
    McpServerDef { transport_type: None, command: Some(cmd.to_string()), args: vec!["-v".to_string()], env: vec![], cwd: None, url: None, headers: vec![] }
}

fn remote(url: &str) -> McpServerDef {
    McpServerDef { transport_type: None, command: None, args: vec![], env: vec![], cwd: None, url: Some(url.to_string()), headers: vec![] }
}

#[test]
fn mcp_transport_kinds() {
    assert_eq!(stdio("x").transport_kind(), Ok(McpTransportKind::Stdio));
    assert_eq!(remote("http://h").transport_kind(), Ok(McpTransportKind::StreamableHttp));
    let mut both = stdio("x");
    both.url = Some("http://h".to_string());
    assert_eq!(both.transport_kind(), Err(ServerDefError::MixedTransport));
    assert_eq!(both.validate(), Err(ServerDefError::MixedTransport));
    let mut neither = stdio("x");
    neither.command = None;
    assert_eq!(neither.transport_kind(), Err(ServerDefError::NoTransport));
}

#[test]
fn mcp_urls_are_parsed() {
    assert_eq!(remote("not a url").validate(), Err(ServerDefError::InvalidUrl { url: "not a url".to_string() }));
    match remote("https://example.com").transport_spec() {
        Ok(McpTransportSpec::StreamableHttp(h)) => assert_eq!(h.url, "https://example.com/"),
        other => panic!("unexpected {:?}", other),
    }
    assert_eq!(ServerDefError::InvalidUrl { url: "u".to_string() }.message(), "invalid MCP server URL `u`");
}

#[test]
fn mcp_config_lookup_and_validation() {
    let empty = McpConfig { mcp_servers: vec![] };
    assert_eq!(empty.validate(), Err(McpConfigError::NoServers));
    let cfg = McpConfig { mcp_servers: vec![("a".to_string(), stdio("one")), ("b".to_string(), remote("bad")), ("a".to_string(), stdio("two"))] };
    assert_eq!(cfg.server("a").unwrap().command, Some("two".to_string()));
    assert!(cfg.server("z").is_none());
    assert_eq!(cfg.validate(), Err(McpConfigError::InvalidServer { name: "b".to_string(), cause: ServerDefError::InvalidUrl { url: "bad".to_string() } }));
    assert_eq!(cfg.resolved_server("z").unwrap_err(), McpConfigError::NotFound { name: "z".to_string() });
    let r = cfg.resolved_server("a").unwrap();
    assert_eq!(r.name, "a");
    assert_eq!(r.transport.kind(), McpTransportKind::Stdio);
    assert!(!cfg.has_distinct_names());
    let named_once = McpConfig { mcp_servers: vec![("a".to_string(), stdio("one")), ("b".to_string(), remote("bad"))] };
    assert!(named_once.has_distinct_names());
    assert!(named_once.resolved_servers().is_err());
    let good = McpConfig { mcp_servers: vec![("a".to_string(), stdio("one")), ("c".to_string(), stdio("two"))] };
    assert!(good.validate().is_ok());
    let resolved = good.resolved_servers().unwrap();
    let names: Vec<String> = resolved.iter().map(|s| s.name.clone()).collect();
    assert_eq!(names, vec!["a".to_string(), "c".to_string()]);
}

struct Gate;
impl PermissionGate for Gate {
    fn check_permission(&self, tool_name: &str, _description: &str) -> PermissionResult {
        if tool_name == "ok" { PermissionResult::Allow } else { PermissionResult::DeferToUser }
    }
}

struct Recorder {
    seen: RefCell<Vec<String>>,
}
impl PermissionObserver for Recorder {
    fn on_evaluation(&self, event: &PermissionEvent) {
        self.seen.borrow_mut().push(format!("{}:{}", event.tool_name, event.policy_variant));
    }
}

#[test]
fn policy_map_overrides_win() {
    let map: PolicyMap<Gate, Recorder> = PolicyMap::new(PermissionPolicy::DenyAll)
        .tool("read".to_string(), PermissionPolicy::AllowAll)
        .tool("gate".to_string(), PermissionPolicy::Custom(Gate))
        .with_observer(Recorder { seen: RefCell::new(vec![]) });
    assert_eq!(map.evaluate("read", "d", None, 1), PermissionResult::Allow);
    assert_eq!(map.evaluate("write", "d", None, 2), PermissionResult::Deny { reason: "denied by DenyAll policy".to_string() });
    assert_eq!(map.evaluate("gate", "d", None, 3), PermissionResult::DeferToUser);
    let seen = map.observer.as_ref().unwrap().seen.borrow().clone();
    assert_eq!(seen, vec!["read:Override".to_string(), "write:DenyAll".to_string(), "gate:Override".to_string()]);
}

#[test]
fn cli_prompt_answers() {
    assert_eq!(cli_decision(Some(" YES \n")), PermissionResult::Allow);
    assert_eq!(cli_decision(Some("y")), PermissionResult::Allow);
    assert_eq!(cli_decision(Some("no")), PermissionResult::Deny { reason: "user denied prompt".to_string() });
    assert_eq!(cli_decision(None), PermissionResult::Deny { reason: "user denied prompt".to_string() });
    assert!(PermissionResult::Allow.is_allow());
}

#[test]
fn token_counting() {
    assert_eq!(tokens_or_estimate(None, "abcdefgh"), 2);
    assert_eq!(tokens_or_estimate(Some(7), "abcdefgh"), 7);
    let n = count_string_tokens("hello world");
    assert_eq!(n, 2);
    let msgs = vec![vec!["hello world".to_string()], vec![]];
    assert_eq!(count_messages_tokens(&msgs), 2 + 4 + 4);
    assert_eq!(estimate_tokens(usize::MAX, "hello"), usize::MAX);
    assert!(needs_compaction(11, 10, 1));
    assert!(!needs_compaction(11, 10, 0));
    assert!(!needs_compaction(10, 10, 3));
    assert!(default_compaction_prompt("H").ends_with("interactions:\n\nH"));
}

#[test]
fn embedding_batches() {
    assert_eq!(plan_batches(5, 2), vec![(0, 2), (2, 4), (4, 5)]);
    assert_eq!(plan_batches(0, 3), vec![]);
    assert_eq!(check_texts(0), Err("cannot embed an empty text collection".to_string()));
    assert_eq!(check_batch(1, 2, false), Err("provider returned 1 embeddings for 2 texts".to_string()));
    assert_eq!(check_batch(3, 2, true), Err("provider returned 3 embeddings for 2 document fragments".to_string()));
    assert_eq!(fragment_owners(&vec![2, 1]), Ok(vec![0, 0, 1]));
    assert_eq!(fragment_owners(&vec![1, 0]), Err(FragmentError::EmptyDocument));
    assert_eq!(fragment_owners(&vec![]), Err(FragmentError::NoDocuments));
    let svc = EmbeddingService::new("m", 384, 0);
    assert_eq!(svc.max_documents(), 1);
    assert_eq!(svc.ndims(), 384);
    assert_eq!(*svc.model(), "m");
}

#[test]
fn retry_backoff() {
    assert_eq!(backoff_delay_ms(0), 500);
    assert_eq!(backoff_delay_ms(3), 4000);
    assert!(is_retryable(PromptErrorKind::Http));
    assert!(!is_retryable(PromptErrorKind::MaxTurns));
    let mut b = Backoff::new(2);
    assert_eq!(b.on_failure(PromptErrorKind::Provider), RetryStep::Sleep(500));
    assert_eq!(b.on_failure(PromptErrorKind::Provider), RetryStep::GiveUp);
}

#[test]
fn checkpoints() {
    assert_eq!(timestamp_text(1700000000), "1700000000s");
    let c = AgentCheckpoint::new("5s".to_string());
    assert_eq!(c.metadata.schema_version, 1);
    assert!(check_schema(&c.metadata).is_ok());
    let old = CheckpointMetadata { created_at: "0s".to_string(), cycles_completed: 2, schema_version: 7 };
    assert_eq!(check_schema(&old), Err("unsupported schema_version 7 (expected 1)".to_string()));
}

struct Named(&'static str);
impl AgentDefinition for Named {
    fn name(&self) -> String {
        self.0.to_string()
    }
    fn kind(&self) -> AgentKind {
        AgentKind::ReAct
    }
}

#[test]
fn dispatcher_refuses_duplicates() {
    let mut d: AgentDispatcher<Named> = AgentDispatcher::new();
    assert!(d.register(Named("a")).is_ok());
    assert_eq!(d.register(Named("a")), Err("agent `a` is already registered".to_string()));
    assert!(d.register(Named("b")).is_ok());
    assert_eq!(d.names(), vec!["a".to_string(), "b".to_string()]);
    assert_eq!(d.get("b").unwrap().0, "b");
    assert_eq!(d.route("c").err(), Some("no agent named `c`".to_string()));
}

#[test]
fn message_token_count_sums_over_messages() {
    let a = vec![vec!["hello world".to_string()]];
    let b = vec![vec!["abc".to_string(), "def".to_string()], vec![]];
    let mut both = a.clone();
    both.extend(b.clone());
    assert_eq!(count_messages_tokens(&both), count_messages_tokens(&a) + count_messages_tokens(&b));
}

#[test]
fn lowered_answers_that_approve() {
    assert!(approves_lowered("y"));
    assert!(approves_lowered("yes"));
    assert!(!approves_lowered("Y"));
    assert!(!approves_lowered("no"));
    assert!(!approves_lowered(""));
}

#[test]
fn compaction_prompt_uses_the_configured_formatter() {
    let none: Option<&fn(&str) -> String> = None;
    assert_eq!(compaction_prompt(none, "h"), default_compaction_prompt("h"));
    let f = |t: &str| format!("<{t}>");
    assert_eq!(compaction_prompt(Some(&f), "h"), "<h>");
}

#[test]
fn resolving_reports_the_bare_transport_error() {
    let cfg = McpConfig { mcp_servers: vec![("b".to_string(), remote("bad"))] };
    let e = cfg.resolved_server("b").unwrap_err();
    assert_eq!(e, McpConfigError::Transport(ServerDefError::InvalidUrl { url: "bad".to_string() }));
    assert_eq!(e.message(), "invalid MCP server URL `bad`");
    assert_eq!(cfg.resolved_servers().unwrap_err(), e);
}

#[test]
fn managed_chat_updates_history_only_on_success() {
    let earlier = vec![MessageView::User(vec![UserContent::Text("old".to_string())])];
    let kept = managed_chat_history(earlier.clone(), vec![], "hi", None);
    assert_eq!(kept.len(), 1);
    let compacted = vec![MessageView::System("summary".to_string())];
    let r = managed_chat_history(earlier, compacted, "hi", Some("hello"));
    assert_eq!(r.len(), 3);
    assert!(matches!(&r[0], MessageView::System(s) if s == "summary"));
    assert!(matches!(&r[1], MessageView::User(u) if matches!(&u[..], [UserContent::Text(t)] if t == "hi")));
    assert!(matches!(&r[2], MessageView::Assistant(a) if matches!(&a[..], [AssistantContent::Text(t)] if t == "hello")));
}

#[test]
fn managed_settings_defaults_and_policy_budget() {
    let s = ManagedSettings::new();
    assert_eq!(s.max_retries, 3);
    assert!(s.is_ready());
    let r = s.invalid_tool_policy(InvalidToolPolicy::Retry);
    assert_eq!(r.max_invalid_tool_call_retries, 2);
    let e = ManagedSettings::new().max_invalid_tool_call_retries(5).invalid_tool_policy(InvalidToolPolicy::Retry);
    assert_eq!(e.max_invalid_tool_call_retries, 5);
    assert!(!ManagedSettings::new().with_compaction().is_ready());
    assert!(ManagedSettings::new().with_compaction().threshold(10).is_ready());
}
