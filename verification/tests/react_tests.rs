use agent_rs::invalid_tool::{invalid_tool_feedback, InvalidToolPolicy, InvalidToolRecoveryHook, RecoveryFlow};
use agent_rs::react::content::{classify_assistant_content, detect_final_answer, effective_prompt, thought_text, try_detect_final_answer, AssistantContent, ToolCall};
use agent_rs::react::messages::{recover_unknown_tool_call, strip_reasoning_from_history, MessageView, PromptRecovery, UserContent};
use agent_rs::react::types::{ReActError, ReActStep};
use agent_rs::react::pending::PendingCalls;
use agent_rs::react::settings::ReActSettings;

#[test]
fn detect_final_answer_returns_none_for_empty_after_colon() {
    assert_eq!(detect_final_answer("Final Answer:"), None);
    assert_eq!(detect_final_answer("Final Answer:   "), None);
}

#[test]
fn detect_final_answer_any_ascii_case_and_trims() {
    assert_eq!(detect_final_answer("FINAL ANSWER:  42 "), Some("42".to_string()));
    assert_eq!(detect_final_answer("final answer:yes"), Some("yes".to_string()));
    assert_eq!(detect_final_answer("The Final Answer: 3"), None);
    assert_eq!(detect_final_answer("Final"), None);
}

#[test]
fn try_detect_final_answer_joins_trailing_texts() {
    let texts = vec!["  Final ".to_string(), "Answer: done".to_string()];
    assert_eq!(try_detect_final_answer(&texts), Some("done".to_string()));
    let none: Vec<String> = vec![];
    assert_eq!(try_detect_final_answer(&none), None);
}

#[test]
fn thought_text_joins_with_newlines() {
    let parts = vec![" a".to_string(), "b ".to_string()];
    assert_eq!(thought_text(&parts), "a\nb");
}

#[test]
fn effective_prompt_prepends_preamble() {
    assert_eq!(effective_prompt(&Some("P".to_string()), "Q"), "P\n\nQ");
    assert_eq!(effective_prompt(&None, "Q"), "Q");
}

#[test]
fn invalid_tool_feedback_lists_allowed_names() {
    let allowed = vec!["search".to_string(), "read".to_string()];
    assert_eq!(
        invalid_tool_feedback("bogus", &allowed),
        "Error: tool `bogus` is unknown or not allowed this turn.\nUse one of these exact names: [search, read].\nDo not invent tool names. Call a listed tool or produce a final answer."
    );
}

#[test]
fn invalid_tool_policy_defaults_to_skip() {
    assert_eq!(InvalidToolPolicy::default(), InvalidToolPolicy::Skip);
}

#[test]
fn recovery_hook_falls_back_to_available_tools() {
    let hook = InvalidToolRecoveryHook::new(InvalidToolPolicy::Retry);
    let allowed: Vec<String> = vec![];
    let available = vec!["a".to_string()];
    match hook.on_invalid_tool_call("x", &allowed, &available) {
        RecoveryFlow::Retry(t) => assert!(t.contains("[a]")),
        _ => panic!("expected a retry"),
    }
    let fail = InvalidToolRecoveryHook::new(InvalidToolPolicy::Fail);
    assert!(matches!(fail.on_invalid_tool_call("x", &allowed, &available), RecoveryFlow::Fail));
    let skip = InvalidToolRecoveryHook::new(InvalidToolPolicy::Skip);
    let only = vec!["b".to_string()];
    match skip.on_invalid_tool_call("x", &only, &available) {
        RecoveryFlow::Skip(t) => assert!(t.contains("[b]")),
        _ => panic!("expected a skip"),
    }
}

#[test]
fn pending_calls_insert_get_remove() {
    let mut p = PendingCalls::new();
    p.insert("1".to_string(), "a".to_string());
    p.insert("1".to_string(), "b".to_string());
    assert_eq!(p.get("1"), Some("b".to_string()));
    assert_eq!(p.remove("1"), Some("b".to_string()));
    assert_eq!(p.get("1"), None);
    assert_eq!(p.remove("1"), None);
}

#[test]
fn strip_reasoning_drops_reasoning_only_messages() {
    let history = vec![
        MessageView::User(vec![UserContent::Text("hello".to_string())]),
        MessageView::Assistant(vec![
            AssistantContent::Reasoning("thinking...".to_string()),
            AssistantContent::Text("Hi there!".to_string()),
        ]),
        MessageView::Assistant(vec![AssistantContent::Reasoning("only".to_string())]),
    ];
    let clean = strip_reasoning_from_history(history);
    assert_eq!(clean.len(), 2);
    match &clean[1] {
        MessageView::Assistant(items) => {
            assert_eq!(items.len(), 1);
            assert!(matches!(&items[0], AssistantContent::Text(t) if t == "Hi there!"));
        }
        _ => panic!("expected an assistant message"),
    }
}

#[test]
fn tool_call_duplicate_keeps_fields() {
    let tc = ToolCall { id: "i".to_string(), call_id: Some("c".to_string()), name: "n".to_string(), arguments: "{}".to_string() };
    let d = tc.duplicate();
    assert_eq!(d.id, "i");
    assert_eq!(d.call_id, Some("c".to_string()));
}

#[test]
fn settings_retry_policy_budget() {
    let s = ReActSettings::new();
    assert_eq!(s.max_cycles, 20);
    assert_eq!(s.tool_timeout_secs, 60);
    let r = s.invalid_tool_policy(InvalidToolPolicy::Retry);
    assert_eq!(r.max_invalid_tool_call_retries, 2);
    let e = ReActSettings::new().max_invalid_tool_call_retries(5).invalid_tool_policy(InvalidToolPolicy::Retry);
    assert_eq!(e.max_invalid_tool_call_retries, 5);
    let k = ReActSettings::new().invalid_tool_policy(InvalidToolPolicy::Fail);
    assert_eq!(k.max_invalid_tool_call_retries, 0);
}

#[test]
fn classify_keeps_only_texts_after_the_last_tool_call_as_trailing() {
    let call = |id: &str, name: &str| ToolCall { id: id.to_string(), call_id: None, name: name.to_string(), arguments: "{}".to_string() };
    let content = vec![
        AssistantContent::Text("plan".to_string()),
        AssistantContent::ToolCall(call("1", "f")),
        AssistantContent::Text("mid".to_string()),
        AssistantContent::ToolCall(call("2", "g")),
        AssistantContent::Text("end".to_string()),
    ];
    let p = classify_assistant_content(&content);
    assert_eq!(p.reasoning_texts, vec!["plan".to_string()]);
    let ids: Vec<String> = p.tool_calls.iter().map(|c| c.id.clone()).collect();
    assert_eq!(ids, vec!["1".to_string(), "2".to_string()]);
    assert_eq!(p.trailing_texts, vec!["end".to_string()]);
}

#[test]
fn unknown_tool_recovery_records_steps_and_answers_every_call() {
    let call = |id: &str, name: &str| ToolCall { id: id.to_string(), call_id: None, name: name.to_string(), arguments: "{}".to_string() };
    let assistant = vec![AssistantContent::ToolCall(call("1", "nope")), AssistantContent::ToolCall(call("2", "read"))];
    let available = vec!["read".to_string(), "write".to_string()];
    match recover_unknown_tool_call("nope", &available, &assistant, 3) {
        PromptRecovery::Recovered { history_extensions, prompt, steps } => {
            assert_eq!(history_extensions.len(), 1);
            assert_eq!(
                history_extensions[0].text,
                "Error: tool 'nope' is not available. Available tools: [read, write]. Please call one of the available tools."
            );
            assert_eq!(prompt.tool_id, "2");
            assert!(prompt.text.starts_with("Tool call skipped"));
            assert_eq!(steps.len(), 2);
            assert!(matches!(&steps[0], ReActStep::Action(a) if a.tool_name == "nope" && a.cycle == 3));
            assert!(matches!(&steps[1], ReActStep::Observation(o) if o.is_error && o.tool_name == "nope"));
        }
        other => panic!("unexpected {:?}", other),
    }
    match recover_unknown_tool_call("nope", &available, &vec![AssistantContent::Text("hi".to_string())], 0) {
        PromptRecovery::Abort(ReActError::Model(m)) => {
            assert_eq!(m, "UnknownToolCall recovery failed: no tool calls in assistant message for 'nope'")
        }
        other => panic!("unexpected {:?}", other),
    }
}
