use kaku_ai::agent::{
    generate_summary, run_agent, summary_title, AgentEvent, AgentRun, PersistedMessage, Stage,
    StreamMsg, MAX_ROUNDS, ROUNDS_OVER, TITLER_PROMPT,
};
use kaku_ai::client::AiClient;
use kaku_ai::config::AssistantConfig;
use kaku_ai::http::{CallBody, Failure};
use kaku_ai::json::parse_text;
use kaku_ai::messages::{ApiMessage, ToolCall};
use kaku_ai::report::ProcessOutput;
use kaku_ai::task::{ToolEnv, ToolEvent, ToolTask};

fn config() -> AssistantConfig {
    AssistantConfig::load("api_key = \"k\"\nchat_model = \"m\"", None).expect("loads")
}

fn begin() -> AgentRun {
    let env = ToolEnv { home: Some("/home/u".to_string()), shell: None };
    run_agent(config(), env, vec![ApiMessage::user("hi")], "/w".to_string())
}

fn call(id: &str, name: &str, arguments: &str) -> ToolCall {
    ToolCall { id: id.to_string(), name: name.to_string(), arguments: arguments.to_string() }
}

fn asked(calls: Vec<ToolCall>) -> AgentEvent {
    AgentEvent::Answered(Ok(calls))
}

/// Enters a round and has the model ask for the calls.
fn round(run: AgentRun, calls: Vec<ToolCall>) -> AgentRun {
    assert_eq!(run.stage(), &Stage::Round);
    let (run, shown) = run.advance(AgentEvent::Cancelled(false));
    assert!(shown.is_empty());
    assert_eq!(run.stage(), &Stage::Chatting { started: false });
    let (run, shown) = run.advance(asked(calls));
    assert!(shown.is_empty());
    run
}

fn go(run: AgentRun) -> (AgentRun, Vec<StreamMsg>) {
    run.advance(AgentEvent::Cancelled(false))
}

fn last_message(run: &AgentRun) -> (Option<String>, Option<String>, Option<String>) {
    let m = run.messages().last().unwrap();
    let get = |k: &str| m.0.field(k).text().map(|s| s.to_string());
    (get("role"), get("tool_call_id"), get("content"))
}

fn answered(run: &AgentRun, id: &str, content: &str) {
    let expected =
        (Some("tool".to_string()), Some(id.to_string()), Some(content.to_string()));
    assert_eq!(last_message(run), expected);
}

#[test]
fn an_answer_in_text_ends_the_run() {
    let (run, _) = go(begin());
    let (run, shown) = run.advance(AgentEvent::Token("He".to_string()));
    assert_eq!(shown, vec![StreamMsg::AssistantStart, StreamMsg::Token("He".to_string())]);
    let (run, shown) = run.advance(AgentEvent::Token("y".to_string()));
    assert_eq!(shown, vec![StreamMsg::Token("y".to_string())]);
    let (run, shown) = run.advance(asked(vec![]));
    assert_eq!(shown, vec![StreamMsg::Done]);
    assert_eq!(run.stage(), &Stage::Over);
    assert_eq!(run.messages().len(), 1);
    let (run, shown) = go(run);
    assert!(shown.is_empty());
    assert_eq!(run.stage(), &Stage::Over);
}

#[test]
fn a_failed_request_ends_the_run() {
    let (run, _) = go(begin());
    let (run, shown) = run.advance(AgentEvent::Answered(Err(Failure::new("API error 401: x"))));
    assert_eq!(shown, vec![StreamMsg::Error("API error 401: x".to_string())]);
    assert_eq!(run.stage(), &Stage::Over);
}

#[test]
fn reading_tools_run_at_once() {
    let run = round(begin(), vec![call("1", "fs_list", "{\"path\": \"sub\"}")]);
    assert_eq!(run.messages().len(), 2);
    let turn = &run.messages()[1].0;
    assert_eq!(turn.field("role").text(), Some("assistant"));
    let told = turn.field("tool_calls").first();
    assert_eq!(told.field("id").text(), Some("1"));
    assert_eq!(told.field("type").text(), Some("function"));
    assert_eq!(told.field("function").field("name").text(), Some("fs_list"));
    assert_eq!(told.field("function").field("arguments").text(), Some("{\"path\": \"sub\"}"));
    let (run, shown) = go(run);
    assert_eq!(
        shown,
        vec![StreamMsg::ToolStart { name: "fs_list".to_string(), args_preview: "sub".to_string() }]
    );
    assert_eq!(run.stage(), &Stage::Tool(ToolTask::List { path: "/w/sub".to_string() }));
    let entries = vec![("b".to_string(), false), ("a".to_string(), true)];
    let (run, shown) = run.advance(AgentEvent::Tool(ToolEvent::Entries(Some(entries))));
    assert_eq!(shown, vec![StreamMsg::ToolDone { result_preview: String::new() }]);
    answered(&run, "1", "a/\nb");
    assert_eq!(run.stage(), &Stage::Round);
}

#[test]
fn changing_tools_wait_for_the_user() {
    let calls = || {
        vec![
            call("1", "fs_delete", "{\"path\": \"/x\"}"),
            call("2", "pwd", "not json"),
        ]
    };
    let (run, shown) = go(round(begin(), calls()));
    assert_eq!(shown, vec![StreamMsg::ApprovalRequired { summary: "delete: /x".to_string() }]);
    assert_eq!(run.stage(), &Stage::Asking);
    let (run, shown) = run.advance(AgentEvent::Approved(false));
    assert_eq!(
        shown,
        vec![StreamMsg::ToolFailed { error: "Operation rejected by user.".to_string() }]
    );
    answered(&run, "1", "Error: user rejected the operation.");
    assert_eq!(run.stage(), &Stage::Call);
    let (run, shown) = go(run);
    assert_eq!(
        shown,
        vec![
            StreamMsg::ToolStart { name: "pwd".to_string(), args_preview: String::new() },
            StreamMsg::ToolDone { result_preview: String::new() },
        ]
    );
    answered(&run, "2", "/w");
    assert_eq!(run.stage(), &Stage::Round);

    let (run, _) = go(round(begin(), calls()));
    let (run, shown) = run.advance(AgentEvent::Approved(true));
    assert_eq!(
        shown,
        vec![StreamMsg::ToolStart { name: "fs_delete".to_string(), args_preview: "/x".to_string() }]
    );
    assert_eq!(run.stage(), &Stage::Tool(ToolTask::LookAt { path: "/x".to_string() }));
    let (run, _) = run.advance(AgentEvent::Tool(ToolEvent::IsDir(false)));
    let (run, shown) = run.advance(AgentEvent::Tool(ToolEvent::Did(false)));
    assert_eq!(shown, vec![StreamMsg::ToolFailed { error: "rm /x".to_string() }]);
    answered(&run, "1", "Error: rm /x");
}

#[test]
fn the_working_directory_follows_commands() {
    let run = round(
        begin(),
        vec![call("1", "shell_exec", "{\"command\": \"ls\"}"), call("2", "pwd", "{}")],
    );
    let (run, _) = go(run);
    let output = ProcessOutput {
        stdout: b"a\n\n__KAKU_CWD__:/w/deep\n".to_vec(),
        stderr: vec![],
        success: true,
        code: Some(0),
    };
    let (run, _) = run.advance(AgentEvent::Tool(ToolEvent::Ran(Some(output))));
    answered(&run, "1", "a\n");
    assert_eq!(run.cwd(), "/w/deep");
    let (run, _) = go(run);
    answered(&run, "2", "/w/deep");
}

#[test]
fn arguments_are_previewed() {
    let preview = |arguments: &str| {
        let (_, shown) = go(round(begin(), vec![call("1", "pwd", arguments)]));
        match &shown[0] {
            StreamMsg::ToolStart { name: _, args_preview } => args_preview.clone(),
            other => panic!("{:?}", other),
        }
    };
    assert_eq!(preview(r#"{"path": "p", "query": "q"}"#), "q");
    assert_eq!(preview(r#"{"url": "u", "path": "p"}"#), "p");
    assert_eq!(preview(r#"{"command": "c", "pattern": "r"}"#), "r");
    assert_eq!(preview(r#"{"command": "c", "aaa": "x"}"#), "c");
    assert_eq!(preview(r#"{"zz": "z", "method": "GET"}"#), "GET");
    assert_eq!(preview(r#"{"query": 1, "path": "p"}"#), "");
    assert_eq!(preview(r#"[1]"#), "");
    let long = format!("{{\"path\": \"{}\"}}", "é".repeat(50));
    assert_eq!(preview(&long), "é".repeat(40));
}

#[test]
fn rounds_are_limited() {
    let mut run = begin();
    for i in 0..MAX_ROUNDS {
        let (next, shown) = go(round(run, vec![call("1", "pwd", "{}")]));
        run = next;
        if i + 1 == MAX_ROUNDS {
            assert_eq!(shown[2..], [StreamMsg::Error(ROUNDS_OVER.to_string()), StreamMsg::Done]);
        } else {
            assert_eq!(shown.len(), 2);
        }
    }
    assert_eq!(run.stage(), &Stage::Over);
    assert_eq!(run.messages().len(), 31);
    assert_eq!(ROUNDS_OVER, "Reached the maximum number of tool-call rounds (15).");
}

#[test]
fn cancelling_stops_between_steps() {
    let over = vec![StreamMsg::Done];
    let (run, shown) = begin().advance(AgentEvent::Cancelled(true));
    assert_eq!(shown, over);
    assert_eq!(run.stage(), &Stage::Over);
    assert_eq!(run.messages().len(), 1);
    let run = round(begin(), vec![call("1", "pwd", "{}"), call("2", "pwd", "{}")]);
    let (run, _) = go(run);
    let (run, shown) = run.advance(AgentEvent::Cancelled(true));
    assert!(shown.is_empty());
    assert_eq!(run.stage(), &Stage::Round);
    assert_eq!(run.messages().len(), 3);
    let (run, shown) = run.advance(AgentEvent::Cancelled(true));
    assert_eq!(shown, over);
    assert_eq!(run.stage(), &Stage::Over);
}

#[test]
fn cancelling_in_the_last_round_ends_the_run() {
    let mut run = begin();
    for _ in 1..MAX_ROUNDS {
        run = go(round(run, vec![call("1", "pwd", "{}")])).0;
    }
    let run = round(run, vec![call("1", "pwd", "{}")]);
    let (run, shown) = run.advance(AgentEvent::Cancelled(true));
    assert_eq!(shown, vec![StreamMsg::Error(ROUNDS_OVER.to_string()), StreamMsg::Done]);
    assert_eq!(run.stage(), &Stage::Over);
}

#[test]
fn the_next_request_holds_the_calls_and_their_answers() {
    let client = AiClient::new(config());
    let run = round(begin(), vec![call("1", "pwd", "{}"), call("2", "fs_write", "{}")]);
    let (run, _) = go(go(run).0);
    let (run, _) = run.advance(AgentEvent::Approved(false));
    let (run, _) = go(run);
    assert_eq!(run.stage(), &Stage::Chatting { started: false });
    let tool = parse_text(r#"{"type": "function"}"#).unwrap();
    let request = run.request(&client, "other", &[tool]);
    let body = match request.body {
        CallBody::Json(j) => j,
        other => panic!("{:?}", other),
    };
    assert_eq!(body.field("model").text(), Some("other"));
    assert_eq!(body.field("tools").array().unwrap().len(), 1);
    let messages = body.field("messages").array().unwrap();
    let told: Vec<_> = messages
        .iter()
        .map(|m| (m.field("role").text().unwrap(), m.field("tool_call_id").text()))
        .collect();
    assert_eq!(
        told,
        vec![("user", None), ("assistant", None), ("tool", Some("1")), ("tool", Some("2"))]
    );
    assert_eq!(messages[1].field("tool_calls").array().unwrap().len(), 2);
    assert_eq!(messages[2].field("content").text(), Some("/w"));
}

#[test]
fn unexpected_events_change_nothing() {
    let (run, shown) = begin().advance(AgentEvent::Approved(true));
    assert!(shown.is_empty());
    assert_eq!(run.stage(), &Stage::Round);
    let (run, _) = go(round(run, vec![call("1", "fs_write", "{}")]));
    let (run, shown) = run.advance(AgentEvent::Tool(ToolEvent::Did(true)));
    assert!(shown.is_empty());
    assert_eq!(run.stage(), &Stage::Asking);
    assert_eq!(run.messages().len(), 2);
}

#[test]
fn titles_are_asked_for_with_the_last_messages() {
    let kept: Vec<PersistedMessage> = (0..25)
        .map(|i| PersistedMessage {
            role: if i % 2 == 0 { "user".to_string() } else { "tool".to_string() },
            content: format!("c{}", i),
        })
        .collect();
    let client = AiClient::new(config());
    let body = match generate_summary(&client, &kept).body {
        CallBody::Json(j) => j,
        other => panic!("{:?}", other),
    };
    assert_eq!(body.field("model").text(), Some("m"));
    assert!(body.get("tools").is_none());
    let messages = body.field("messages").array().unwrap();
    assert_eq!(messages.len(), 21);
    assert_eq!(messages[0].field("content").text(), Some(TITLER_PROMPT));
    assert_eq!(messages[1].field("content").text(), Some("c5"));
    assert_eq!(messages[1].field("role").text(), Some("assistant"));
    assert_eq!(messages[20].field("role").text(), Some("user"));
    let body = match generate_summary(&client, &kept[..1]).body {
        CallBody::Json(j) => j,
        other => panic!("{:?}", other),
    };
    assert_eq!(body.field("messages").array().unwrap().len(), 2);
    assert_eq!(summary_title("short"), "short");
    assert_eq!(summary_title(&"é".repeat(41)), "é".repeat(40));
}
