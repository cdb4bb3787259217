use agent_rs::config::{McpServerDef, McpTransportKind, ServerDefError, StdioCommandError};
use agent_rs::react::content::{AssistantContent, ToolCall};
use agent_rs::react::messages::{MessageView, ToolOutcome, UserContent};
use agent_rs::react::run::{RunLoop, RunPhase, TurnOutcome};
use agent_rs::react::types::{ReActError, ReActStep};

fn def() -> McpServerDef {
    McpServerDef { transport_type: None, command: None, args: vec![], env: vec![], cwd: None, url: None, headers: vec![] }
}

#[test]
fn run_without_budget_ends_at_once() {
    let mut run = RunLoop::new("q", 0, 3, 60, false);
    let (r, notices) = run.start_cycle();
    assert!(matches!(r, Err(ReActError::MaxCyclesExceeded { cycles: 0 })));
    assert_eq!(notices.len(), 3);
    assert_eq!(run.phase, RunPhase::Finished);
    assert_eq!(ReActError::MaxCyclesExceeded { cycles: 4 }.message(), "maximum number of cycles exceeded: 4");
}

#[test]
fn run_answers_a_turn_without_tool_calls() {
    let mut run = RunLoop::new("q", 3, 3, 60, false);
    let (r, _) = run.start_cycle();
    assert!(matches!(r, Ok(0)));
    run.model_succeeded(None, &mut Vec::new());
    let items = vec![AssistantContent::Text("42".to_string())];
    let (outcome, _) = run.assess_turn(Some(&items), "42");
    match outcome {
        TurnOutcome::Answered(fa) => {
            assert_eq!(fa.text, "42");
            assert_eq!(fa.cycles, 1);
        }
        other => panic!("unexpected {:?}", other),
    }
    assert_eq!(run.trace.final_answer.as_ref().map(|f| f.text.clone()), Some("42".to_string()));
}

#[test]
fn run_dispatches_tool_calls_then_continues() {
    let mut run = RunLoop::new("q", 2, 3, 60, false);
    run.start_cycle();
    run.model_succeeded(None, &mut Vec::new());
    let call = ToolCall { id: "c1".to_string(), call_id: None, name: "search".to_string(), arguments: "{}".to_string() };
    let items = vec![AssistantContent::Reasoning("look it up".to_string()), AssistantContent::ToolCall(call)];
    let (outcome, _) = run.assess_turn(Some(&items), "");
    assert!(matches!(outcome, TurnOutcome::Dispatch(1)));
    let (next, _) = run.next_tool_call();
    assert_eq!(next.map(|c| c.name), Some("search".to_string()));
    run.record_tool_outcome(ToolOutcome::Output("found".to_string()), 5);
    let (next, _) = run.next_tool_call();
    assert!(next.is_none());
    let mut history: Vec<MessageView> = Vec::new();
    let (rest, prompt, _) = run.finish_cycle(&mut history);
    assert!(history.is_empty());
    assert!(rest.is_empty());
    assert_eq!(prompt.map(|m| m.text), Some("found".to_string()));
    assert_eq!(run.phase, RunPhase::Ready);
    assert!(matches!(&run.trace.steps[0], ReActStep::Thought(t) if t.reasoning == "look it up"));
    assert!(matches!(&run.trace.steps[1], ReActStep::Action(a) if a.tool_name == "search"));
    assert!(matches!(&run.trace.steps[2], ReActStep::Observation(o) if o.result == "found" && !o.is_error));
}

#[test]
fn server_definition_errors() {
    let mut stdio = def();
    stdio.transport_type = Some(McpTransportKind::Stdio);
    assert_eq!(stdio.validate(), Err(ServerDefError::MissingCommand));
    stdio.command = Some("srv".to_string());
    stdio.url = Some("http://h".to_string());
    assert_eq!(stdio.validate(), Err(ServerDefError::StdioWithUrl { command: "srv".to_string() }));
    assert_eq!(ServerDefError::StdioWithUrl { command: "srv".to_string() }.message(), "stdio server `srv` cannot also define a `url`");
    let mut remote = def();
    remote.transport_type = Some(McpTransportKind::StreamableHttp);
    assert_eq!(remote.validate(), Err(ServerDefError::MissingUrl));
    remote.url = Some("http://h".to_string());
    remote.command = Some("x".to_string());
    assert_eq!(remote.validate(), Err(ServerDefError::RemoteWithCommand));
    remote.command = None;
    assert_eq!(remote.validate(), Ok(()));
    assert_eq!(remote.stdio_transport().unwrap_err(), StdioCommandError::Remote);
    assert_eq!(StdioCommandError::Remote.message(), "remote MCP servers do not have a stdio command");
    let mut ok = def();
    ok.command = Some("srv".to_string());
    ok.args = vec!["--port".to_string(), "1".to_string()];
    let t = ok.stdio_transport().unwrap();
    assert_eq!(t.command, "srv");
    assert_eq!(t.args, vec!["--port".to_string(), "1".to_string()]);
    assert_eq!(def().stdio_transport().unwrap_err(), StdioCommandError::Invalid(ServerDefError::NoTransport));
}

#[test]
fn classic_run_only_appends_to_history() {
    let mut run = RunLoop::new("q", 2, 3, 60, true);
    let mut history = vec![MessageView::User(vec![UserContent::Text("earlier".to_string())])];
    run.start_cycle();
    let call = |id: &str| ToolCall { id: id.to_string(), call_id: None, name: "search".to_string(), arguments: "{}".to_string() };
    let items = vec![AssistantContent::ToolCall(call("c1")), AssistantContent::ToolCall(call("c2"))];
    let reply = vec![
        MessageView::User(vec![UserContent::Text("q".to_string())]),
        MessageView::Assistant(items.clone()),
    ];
    run.model_succeeded(Some(reply), &mut history);
    assert_eq!(history.len(), 3);
    assert!(run.trace.steps.is_empty());
    let (outcome, _) = run.assess_turn(Some(&items), "");
    assert!(matches!(outcome, TurnOutcome::Dispatch(2)));
    run.next_tool_call();
    run.record_tool_outcome(ToolOutcome::Output("one".to_string()), 1);
    run.next_tool_call();
    run.record_tool_outcome(ToolOutcome::Output("two".to_string()), 1);
    let (rest, next, _) = run.finish_cycle(&mut history);
    assert_eq!(rest.len(), 1);
    assert_eq!(next.map(|m| m.text), Some("two".to_string()));
    assert_eq!(history.len(), 4);
    assert!(matches!(&history[0], MessageView::User(u) if matches!(&u[..], [UserContent::Text(t)] if t == "earlier")));
    assert!(matches!(&history[3], MessageView::User(u) if matches!(&u[..], [UserContent::ToolResult { id, texts }] if id == "c1" && texts == &vec!["one".to_string()])));
}
