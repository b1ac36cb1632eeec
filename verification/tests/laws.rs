use kaku_ai::agent::{run_agent, AgentEvent, Stage};
use kaku_ai::config::AssistantConfig;
use kaku_ai::http::{HttpAnswer, Method, ReplyBody};
use kaku_ai::json::{parse_text, Json};
use kaku_ai::messages::ToolCall;
use kaku_ai::models::is_chat_model_id;
use kaku_ai::paths::{is_within, resolve};
use kaku_ai::reader::{page_of_extract, page_of_reader};
use kaku_ai::report::{report_found, report_texts};
use kaku_ai::request::{make_request, write_answer};
use kaku_ai::search::{report_brave, report_pipellm, report_tavily};
use kaku_ai::shell::split_shell_pipeline;
use kaku_ai::task::{ToolEnv, ToolEvent, ToolTask};

fn json(text: &str) -> Json {
    parse_text(text).expect("valid JSON")
}

#[test]
fn containment_is_an_order() {
    let inside = |p: &str, b: &str| is_within(p.as_bytes(), b.as_bytes());
    assert!(inside("/a/b/c", "/a/b") && inside("/a/b", "/a") && inside("/a/b/c", "/a"));
    for p in ["", "/", ".", "/a", "a/../b", "x y/é"] {
        assert!(inside(p, p), "{:?}", p);
    }
}

#[test]
fn only_relative_paths_depend_on_the_working_directory() {
    for cwd in ["/", "/w", "/w/v/", ""] {
        assert_eq!(resolve("~/x", cwd, Some("/h")).unwrap(), "/h/x");
        assert_eq!(resolve("/x", cwd, Some("/h")).unwrap(), "/x");
        assert!(resolve("x", cwd, Some("/h")).unwrap().starts_with(cwd));
    }
}

#[test]
fn stages_put_together_are_the_command() {
    for command in ["ls", "a|b", "a '|' b|c \\| d", "cat x|grep \"a|b\"|wc"] {
        let stages = split_shell_pipeline(command).unwrap();
        assert_eq!(stages.join("|"), command);
    }
}

#[test]
fn case_does_not_matter_for_models() {
    for (a, b) in [("TTS-1", "tts-1"), ("GPT-4o", "gpt-4O"), ("Text-Ada-1", "text-ada-1")] {
        assert_eq!(is_chat_model_id(a), is_chat_model_id(b));
    }
}

#[test]
fn nothing_changes_before_the_user_approves() {
    let config = AssistantConfig::load("api_key = \"k\"", None).unwrap();
    let env = ToolEnv { home: None, shell: None };
    let changing = [
        ("fs_write", r#"{"path": "/a", "content": "x"}"#),
        ("fs_patch", r#"{"path": "/a", "old_text": "x", "new_text": "y"}"#),
        ("fs_mkdir", r#"{"path": "/a"}"#),
        ("fs_delete", r#"{"path": "/a"}"#),
        ("shell_bg", r#"{"command": "ls"}"#),
        ("shell_exec", r#"{"command": "rm -rf /a"}"#),
        ("http_request", r#"{"method": "POST", "url": "http://a"}"#),
    ];
    for (name, arguments) in changing {
        let call = ToolCall {
            id: "1".to_string(),
            name: name.to_string(),
            arguments: arguments.to_string(),
        };
        let env = ToolEnv { home: env.home.clone(), shell: env.shell.clone() };
        let run = run_agent(config.clone(), env, vec![], "/w".to_string());
        let (run, _) = run.advance(AgentEvent::Cancelled(false));
        let (run, _) = run.advance(AgentEvent::Answered(Ok(vec![call])));
        let (run, _) = run.advance(AgentEvent::Cancelled(false));
        assert_eq!(run.stage(), &Stage::Asking, "{}", name);
        let events = vec![
            AgentEvent::Cancelled(false),
            AgentEvent::Token("x".to_string()),
            AgentEvent::Answered(Ok(vec![])),
            AgentEvent::Tool(ToolEvent::Did(true)),
        ];
        let mut run = run;
        for event in events {
            let (next, shown) = run.advance(event);
            assert!(shown.is_empty());
            assert_eq!(next.stage(), &Stage::Asking, "{}", name);
            run = next;
        }
        let (run, _) = run.advance(AgentEvent::Approved(true));
        assert!(matches!(run.stage(), Stage::Tool(_)), "{}", name);
    }
}

#[test]
fn a_safe_command_and_a_get_need_no_approval() {
    let config = AssistantConfig::load("api_key = \"k\"", None).unwrap();
    for (name, arguments) in [
        ("shell_exec", r#"{"command": "git log | head"}"#),
        ("http_request", r#"{"method": "GET", "url": "http://a"}"#),
    ] {
        let env = ToolEnv { home: None, shell: None };
        let call = ToolCall {
            id: "1".to_string(),
            name: name.to_string(),
            arguments: arguments.to_string(),
        };
        let run = run_agent(config.clone(), env, vec![], "/w".to_string());
        let (run, _) = run.advance(AgentEvent::Cancelled(false));
        let (run, _) = run.advance(AgentEvent::Answered(Ok(vec![call])));
        let (run, _) = run.advance(AgentEvent::Cancelled(false));
        match run.stage() {
            Stage::Tool(ToolTask::Run { program, .. }) => assert_eq!(program, "/bin/bash"),
            Stage::Tool(ToolTask::Send { call, .. }) => assert_eq!(call.method, Method::Get),
            other => panic!("{:?}", other),
        }
    }
}

#[test]
fn parsed_answers_are_written_out() {
    let found = json(r#"{"results": [{"title": "T", "url": "U", "content": "C"}]}"#);
    assert_eq!(report_tavily(&found), "- **T** <U>\n  C\n");
    assert_eq!(report_brave(true, &found), "- **T** <U>\n  \n");
    assert_eq!(report_brave(false, &found), "No results found.");
    assert_eq!(report_pipellm(&found), "No results found.");
    assert_eq!(page_of_reader(&json(r#"{"text": "T"}"#)), "T");
    assert_eq!(page_of_reader(&Json::Null), "Page returned empty content.");
    assert_eq!(page_of_extract(&found), Some("C".to_string()));
    assert_eq!(page_of_extract(&Json::Null), None);
}

#[test]
fn requests_and_answers_are_made_of_their_parts() {
    let none = Json::Null;
    let call = make_request(Method::Put, "http://a", &none, Some("b"), true, &none);
    assert_eq!(call.headers, vec![("Content-Type".to_string(), "application/json".to_string())]);
    let call = make_request(Method::Put, "http://a", &none, None, true, &none);
    assert!(call.headers.is_empty());
    let answer = HttpAnswer {
        code: 204,
        status: "204 No Content".to_string(),
        headers: vec![("X-RateLimit-Remaining".to_string(), Some("9".to_string()))],
        body: ReplyBody::Unread,
    };
    assert_eq!(write_answer(&answer, "b"), "HTTP 204\nX-RateLimit-Remaining: 9\n\nb");
}

#[test]
fn reports_are_made_of_texts() {
    let mut cwd = "/a".to_string();
    let text = report_texts("x\n\n__KAKU_CWD__:/b\n", Some("e"), false, Some(1), &mut cwd);
    assert_eq!(text, "x\n\n[stderr] e\n[exit 1]");
    assert_eq!(cwd, "/b");
    assert_eq!(
        report_found("/d/f-1-a\n/d/f:2:hit\n/d/f-3-b\n", "", 1),
        "/d/f-1-a\n/d/f:2:hit\n\n[... truncated at 1 results]"
    );
    assert_eq!(report_found("", "e", 1), "No matches. (e)");
}
