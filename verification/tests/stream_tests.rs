use agent_rs::react::content::{AssistantContent, ToolCall};
use agent_rs::react::messages::{MessageView, UserContent};
use agent_rs::react::stream::{StreamItem, StreamLoop, StreamPhase};
use agent_rs::react::types::ReActStep;
use agent_rs::tool_registry::ToolRegistryBuilder;

#[test]
fn stream_without_budget_reports_max_cycles() {
    let mut run = StreamLoop::new("q", 0, 30);
    let (cycle, notices) = run.begin_cycle();
    assert!(cycle.is_none());
    assert!(notices.is_empty());
    let (item, notices) = run.finish();
    match item {
        Some(StreamItem::Error { error }) => assert_eq!(error, "maximum number of cycles exceeded: 0"),
        other => panic!("unexpected {:?}", other),
    }
    assert_eq!(notices.len(), 2);
}

#[test]
fn stream_records_a_tool_turn_and_completes() {
    let mut run = StreamLoop::new("q", 3, 30);
    let (cycle, _) = run.begin_cycle();
    assert_eq!(cycle, Some(0));
    run.stream_opened();
    assert_eq!(run.phase, StreamPhase::Streaming);
    let call = ToolCall { id: "c1".to_string(), call_id: None, name: "search".to_string(), arguments: "{}".to_string() };
    let (item, _) = run.on_tool_call(&call);
    assert!(matches!(item, StreamItem::Action { ref tool_name, cycle: 0, .. } if tool_name == "search"));
    let (item, _) = run.on_tool_result("c1", &vec!["found".to_string()], 7);
    match item {
        StreamItem::Observation { tool_name, result, is_error, duration_ms, .. } => {
            assert_eq!(tool_name, "search");
            assert_eq!(result, "found");
            assert!(!is_error);
            assert_eq!(duration_ms, 7);
        }
        other => panic!("unexpected {:?}", other),
    }
    // Text after a tool call belongs to the answer.
    let item = run.on_text("the answer".to_string());
    assert!(matches!(item, StreamItem::FinalAnswerDelta { ref delta, .. } if delta == "the answer"));
    run.on_final_response(String::new());
    let (cycle, _) = run.begin_cycle();
    assert!(cycle.is_none());
    let (item, notices) = run.finish();
    assert!(notices.is_empty());
    match item {
        Some(StreamItem::Completed { trace, final_text, new_messages }) => {
            assert_eq!(final_text, Some("the answer".to_string()));
            assert_eq!(new_messages.len(), 2);
            assert!(matches!(&new_messages[0], MessageView::User(u) if matches!(&u[..], [UserContent::Text(t)] if t == "q")));
            assert!(matches!(&new_messages[1], MessageView::Assistant(a) if matches!(&a[..], [AssistantContent::Text(t)] if t == "the answer")));
            assert_eq!(trace.final_answer.map(|f| f.text), Some("the answer".to_string()));
            assert!(matches!(&trace.steps[0], ReActStep::Action(a) if a.tool_name == "search"));
            assert!(matches!(&trace.steps[1], ReActStep::Observation(o) if o.result == "found"));
        }
        other => panic!("unexpected {:?}", other),
    }
}

#[test]
fn stream_result_without_pending_call_is_unknown() {
    let mut run = StreamLoop::new("q", 1, 30);
    run.begin_cycle();
    run.stream_opened();
    let (item, _) = run.on_tool_result("nope", &vec!["x".to_string(), "y".to_string()], 0);
    match item {
        StreamItem::Observation { tool_name, .. } => assert_eq!(tool_name, "unknown"),
        other => panic!("unexpected {:?}", other),
    }
}

#[test]
fn tool_registry_groups_and_activation() {
    let b = ToolRegistryBuilder::new();
    let b = b.register("files", "read".to_string(), 1u32).ok().unwrap();
    let b = b.register("web", "fetch".to_string(), 2u32).ok().unwrap();
    let err = b.register("files", "read".to_string(), 3u32);
    assert!(err.is_err());
    let b = ToolRegistryBuilder::new()
        .register("files", "read".to_string(), 1u32).ok().unwrap()
        .register("web", "fetch".to_string(), 2u32).ok().unwrap()
        .register_mcp("mcp", vec![("a".to_string(), 3u32), ("b".to_string(), 4u32)]).ok().unwrap();
    let dup = ToolRegistryBuilder::new().register_mcp("mcp", vec![("a".to_string(), 1u32), ("a".to_string(), 2u32)]);
    assert!(dup.is_err());
    let mut reg = b.enable(&vec!["files".to_string(), "mcp".to_string()]).build();
    assert_eq!(reg.groups(), vec!["files".to_string(), "mcp".to_string(), "web".to_string()]);
    let active: Vec<u32> = reg.active_tools().into_iter().copied().collect();
    assert_eq!(active, vec![1, 3, 4]);
    reg.disable_group("mcp");
    reg.enable_group("web");
    let active: Vec<u32> = reg.active_tools().into_iter().copied().collect();
    assert_eq!(active, vec![1, 2]);
}
