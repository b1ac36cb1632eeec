use kaku_ai::config::AssistantConfig;
use kaku_ai::execute::{execute, proceed, READ_LIMIT};
use kaku_ai::http::{Failure, HttpAnswer, HttpReply, Method, Reading, ReplyBody};
use kaku_ai::json::{parse_text, Json};
use kaku_ai::paths::{
    expand_tilde, is_within, join_path, memory_file_path, onboarding_flag_path, resolve, PathError,
};
use kaku_ai::report::{ProcessOutput, MAX_RESULT_BYTES};
use kaku_ai::task::{
    ProcessLook, ProcessState, Purpose, ToolEnv, ToolEvent, ToolStep, ToolTask, WaitOutcome,
};
use kaku_ai::tools::{all_tools, to_api_schema};

fn dummy_config() -> AssistantConfig {
    AssistantConfig {
        api_key: "test".to_string(),
        chat_model: "test".to_string(),
        chat_model_choices: vec![],
        base_url: "https://example.com".to_string(),
        chat_tools_enabled: false,
        web_search_provider: None,
        web_search_api_key: None,
        web_fetch_script: None,
        memory_curator_model: None,
    }
}

fn search_config(provider: &str) -> AssistantConfig {
    AssistantConfig {
        web_search_provider: Some(provider.to_string()),
        web_search_api_key: Some("key".to_string()),
        ..dummy_config()
    }
}

fn env() -> ToolEnv {
    ToolEnv { home: Some("/home/u".to_string()), shell: Some("/bin/zsh".to_string()) }
}

fn json(text: &str) -> Json {
    parse_text(text).expect("valid JSON")
}

fn start(name: &str, args: &str) -> ToolStep {
    execute(name, &json(args), "/tmp", &env(), &dummy_config())
}

fn task(step: ToolStep) -> ToolTask {
    match step {
        ToolStep::Act(task) => task,
        ToolStep::Done(r) => panic!("ended with {:?}", r),
    }
}

fn done(step: ToolStep) -> Result<String, String> {
    match step {
        ToolStep::Done(Ok(text)) => Ok(text),
        ToolStep::Done(Err(e)) => Err(e.message),
        ToolStep::Act(task) => panic!("not ended: {:?}", task),
    }
}

fn after(step: ToolStep, event: ToolEvent) -> ToolStep {
    let mut cwd = "/tmp".to_string();
    let next = proceed(task(step), event, &mut cwd);
    assert_eq!(cwd, "/tmp");
    next
}

fn output(stdout: &str, stderr: &str, code: Option<i32>) -> ProcessOutput {
    ProcessOutput {
        stdout: stdout.as_bytes().to_vec(),
        stderr: stderr.as_bytes().to_vec(),
        success: code == Some(0),
        code,
    }
}

fn ran(stdout: &str, stderr: &str, code: Option<i32>) -> ToolEvent {
    ToolEvent::Ran(Some(output(stdout, stderr, code)))
}

fn strings(list: &[&str]) -> Vec<String> {
    list.iter().map(|s| s.to_string()).collect()
}

// ---- Paths -------------------------------------------------------------------------------------

#[test]
fn resolve_expands_tilde() {
    let home = "/home/u";
    assert_eq!(resolve("~/foo", "/tmp", Some(home)).unwrap(), "/home/u/foo");
    assert_eq!(resolve("~", "/tmp", Some(home)).unwrap(), home);
}

#[test]
fn resolve_absolute_unchanged() {
    assert_eq!(resolve("/etc/passwd", "/tmp", None).unwrap(), "/etc/passwd");
}

#[test]
fn resolve_relative_to_cwd() {
    assert_eq!(resolve("src/main.rs", "/project", None).unwrap(), "/project/src/main.rs");
}

#[test]
fn resolve_needs_a_home_for_tilde() {
    assert_eq!(resolve("~", "/tmp", None), Err(PathError::HomeNotSet));
    assert_eq!(resolve("~/x", "/tmp", None), Err(PathError::HomeNotSet));
    assert_eq!(resolve("~x", "/tmp", None).unwrap(), "/tmp/~x");
    assert_eq!(resolve("~//etc", "/tmp", Some("/home/u")).unwrap(), "/etc");
}

#[test]
fn resolve_agrees_with_std_paths() {
    for base in ["/", "/a", "/a/", "a", "", "/a/b"] {
        for rest in ["", "x", "/x", "x/y", "./x", "../x", "é"] {
            let expected = std::path::Path::new(base).join(rest);
            assert_eq!(join_path(base, rest), expected.to_str().unwrap(), "{} {}", base, rest);
        }
    }
}

#[test]
fn own_files_stand_below_home() {
    assert_eq!(memory_file_path(Some("/home/u")), "/home/u/.config/kaku/ai_chat_memory.md");
    assert_eq!(onboarding_flag_path(Some("/home/u")), "/home/u/.config/kaku/ai_chat_onboarded");
    assert_eq!(memory_file_path(None), "./.config/kaku/ai_chat_memory.md");
    assert_eq!(expand_tilde("~/fetch.sh", Some("/home/u")), "/home/u/fetch.sh");
    assert_eq!(expand_tilde("~/fetch.sh", None), "~/fetch.sh");
    assert_eq!(expand_tilde("~", Some("/home/u")), "~");
}

#[test]
fn containment_goes_by_components() {
    let inside = |p: &str, b: &str| is_within(p.as_bytes(), b.as_bytes());
    assert!(inside("/a/b", "/a"));
    assert!(inside("/a", "/a/"));
    assert!(inside("/a/b/c", "/"));
    assert!(!inside("/ab", "/a"));
    assert!(!inside("/a", "/a/b"));
    assert!(!inside("a/b", "/a"));
    for p in ["/a", "/a/b", "a", "./a", "a/./b", "a//b", "", ".", "/.", "..", "/a/../b"] {
        for b in ["/", "/a", "/a/", "a", ".", "./a", "", "..", "a/b"] {
            let expected = std::path::Path::new(p).starts_with(b);
            assert_eq!(inside(p, b), expected, "{:?} in {:?}", p, b);
        }
    }
}

// ---- Files -------------------------------------------------------------------------------------

#[test]
fn fs_read_caps_large_files() {
    let step = start("fs_read", r#"{"path": "/tmp/huge"}"#);
    assert_eq!(
        step,
        ToolStep::Act(ToolTask::ReadStart { path: "/tmp/huge".to_string(), limit: READ_LIMIT })
    );
    let huge = "x".repeat(MAX_RESULT_BYTES + 2000);
    let read = huge.as_bytes()[..READ_LIMIT as usize].to_vec();
    let step = after(step, ToolEvent::Bytes(Some(read)));
    match &step {
        ToolStep::Act(ToolTask::Save { content }) => {
            assert_eq!(content.len(), READ_LIMIT as usize)
        }
        other => panic!("{:?}", other),
    }
    let saved = ToolEvent::Saved(Some("/tmp/kaku_tool_1_2.txt".to_string()));
    let result = done(after(step, saved)).unwrap();
    assert!(result.contains("truncated at"), "expected truncation note in result");
    assert!(result.len() > MAX_RESULT_BYTES && result.len() < MAX_RESULT_BYTES + 500);
    assert!(result.ends_with(
        "\n[... output truncated at 8000 bytes. Full content saved to /tmp/kaku_tool_1_2.txt — use \
         fs_read to access it.]"
    ));
}

#[test]
fn long_results_that_cannot_be_saved_are_cut_only() {
    let step = start("fs_read", r#"{"path": "/x"}"#);
    let step = after(step, ToolEvent::Bytes(Some("é".repeat(4001).into_bytes())));
    let result = done(after(step, ToolEvent::Saved(None))).unwrap();
    assert_eq!(result, "é".repeat(4000) + "\n[... truncated at 8000 bytes]");
}

#[test]
fn results_of_exactly_the_limit_are_whole() {
    let step = start("fs_read", r#"{"path": "/x"}"#);
    let text = "y".repeat(MAX_RESULT_BYTES);
    let step = after(step, ToolEvent::Bytes(Some(text.clone().into_bytes())));
    assert_eq!(done(step), Ok(text));
}

#[test]
fn fs_read_replaces_what_is_no_text() {
    let step = start("fs_read", r#"{"path": "/x"}"#);
    let step = after(step, ToolEvent::Bytes(Some(vec![b'a', 0xff, b'b'])));
    assert_eq!(done(step), Ok("a\u{fffd}b".to_string()));
}

#[test]
fn fs_read_stays_inside_the_working_directory() {
    let step = start("fs_read", r#"{"path": "../secret"}"#);
    assert_eq!(
        step,
        ToolStep::Act(ToolTask::Locate {
            raw: "../secret".to_string(),
            path: "/tmp/../secret".to_string(),
            cwd: "/tmp".to_string(),
        })
    );
    let outside = ToolEvent::Canonical {
        path: Some(b"/secret".to_vec()),
        cwd: Some(b"/tmp".to_vec()),
    };
    assert_eq!(
        done(after(step, outside)),
        Err("path '../secret' resolves outside the working directory; use an absolute path to \
             access it"
            .to_string())
    );
    let inside = ToolEvent::Canonical {
        path: Some(b"/tmp/a".to_vec()),
        cwd: Some(b"/tmp".to_vec()),
    };
    let step = after(start("fs_read", r#"{"path": "a"}"#), inside);
    assert_eq!(
        task(step),
        ToolTask::ReadStart { path: "/tmp/a".to_string(), limit: READ_LIMIT }
    );
    let unknown = ToolEvent::Canonical { path: None, cwd: Some(b"/tmp".to_vec()) };
    let step = after(start("fs_read", r#"{"path": "a"}"#), unknown);
    let step = after(step, ToolEvent::Bytes(None));
    assert_eq!(done(step), Err("read /tmp/a".to_string()));
}

#[test]
fn fs_list_basic() {
    let step = start("fs_list", r#"{"path": "/tmp/dir"}"#);
    assert_eq!(step, ToolStep::Act(ToolTask::List { path: "/tmp/dir".to_string() }));
    let entries = vec![("sub".to_string(), true), ("a.txt".to_string(), false)];
    let result = done(after(step, ToolEvent::Entries(Some(entries)))).unwrap();
    assert!(result.contains("a.txt"), "expected a.txt in listing: {}", result);
    assert!(result.contains("sub/"), "expected sub/ in listing: {}", result);
    assert_eq!(result, "a.txt\nsub/");
    let step = start("fs_list", r#"{"path": "d"}"#);
    assert_eq!(done(after(step, ToolEvent::Entries(None))), Err("list /tmp/d".to_string()));
}

#[test]
fn fs_write_makes_parents_then_writes() {
    let args = r#"{"path": "~/a/b", "content": "héllo"}"#;
    let step = start("fs_write", args);
    let path = "/home/u/a/b".to_string();
    let content = "héllo".to_string();
    assert_eq!(
        step,
        ToolStep::Act(ToolTask::MakeParents { path: path.clone(), content: content.clone() })
    );
    let step = after(step, ToolEvent::Made(None));
    assert_eq!(step, ToolStep::Act(ToolTask::Write { path, content }));
    assert_eq!(
        done(after(step, ToolEvent::Did(true))),
        Ok("Written 6 bytes to /home/u/a/b".to_string())
    );
    let trouble = ToolEvent::Made(Some(Failure::new("no space")));
    assert_eq!(done(after(start("fs_write", args), trouble)), Err("no space".to_string()));
    let step = after(start("fs_write", args), ToolEvent::Made(None));
    assert_eq!(done(after(step, ToolEvent::Did(false))), Err("write /home/u/a/b".to_string()));
}

#[test]
fn fs_patch_replaces_the_first_occurrence() {
    let args = r#"{"path": "/f", "old_text": "ab", "new_text": "X"}"#;
    let step = after(start("fs_patch", args), ToolEvent::Text(Some("aab ab".to_string())));
    assert_eq!(
        step,
        ToolStep::Act(ToolTask::WritePatched { path: "/f".to_string(), content: "aX ab".to_string() })
    );
    assert_eq!(
        done(after(step, ToolEvent::Did(true))),
        Ok("Patched /f (replaced 1 occurrence)".to_string())
    );
    let step = after(start("fs_patch", args), ToolEvent::Text(Some("ba".to_string())));
    assert_eq!(done(step), Err("old_text not found in /f".to_string()));
    let step = after(start("fs_patch", args), ToolEvent::Text(None));
    assert_eq!(done(step), Err("read /f".to_string()));
    let step = after(start("fs_patch", args), ToolEvent::Text(Some("ab".to_string())));
    assert_eq!(done(after(step, ToolEvent::Did(false))), Err("write /f".to_string()));
    let empty = r#"{"path": "/f", "old_text": "", "new_text": "X"}"#;
    let step = after(start("fs_patch", empty), ToolEvent::Text(Some("ab".to_string())));
    assert_eq!(
        task(step),
        ToolTask::WritePatched { path: "/f".to_string(), content: "Xab".to_string() }
    );
}

#[test]
fn fs_mkdir_and_fs_delete_tell_what_they_did() {
    let step = start("fs_mkdir", r#"{"path": "d"}"#);
    assert_eq!(step, ToolStep::Act(ToolTask::MakeDirs { path: "/tmp/d".to_string() }));
    assert_eq!(done(after(step, ToolEvent::Did(true))), Ok("Created /tmp/d".to_string()));
    let step = start("fs_mkdir", r#"{"path": "d"}"#);
    assert_eq!(done(after(step, ToolEvent::Did(false))), Err("mkdir /tmp/d".to_string()));

    for (directory, words) in [(true, "rmdir /tmp/d"), (false, "rm /tmp/d")] {
        let step = after(start("fs_delete", r#"{"path": "d"}"#), ToolEvent::IsDir(directory));
        assert_eq!(
            step,
            ToolStep::Act(ToolTask::Remove { path: "/tmp/d".to_string(), directory })
        );
        assert_eq!(done(after(step, ToolEvent::Did(true))), Ok("Deleted /tmp/d".to_string()));
        let step = after(start("fs_delete", r#"{"path": "d"}"#), ToolEvent::IsDir(directory));
        assert_eq!(done(after(step, ToolEvent::Did(false))), Err(words.to_string()));
    }
}

#[test]
fn missing_arguments_are_named() {
    let cases = [
        ("fs_read", "{}", "missing path"),
        ("fs_list", "{\"path\": 1}", "missing path"),
        ("fs_write", "{\"path\": \"/a\"}", "missing content"),
        ("fs_patch", "{\"path\": \"/a\"}", "missing old_text"),
        ("fs_patch", "{\"path\": \"/a\", \"old_text\": \"x\"}", "missing new_text"),
        ("fs_mkdir", "null", "missing path"),
        ("fs_delete", "[]", "missing path"),
        ("shell_exec", "{}", "missing command"),
        ("shell_bg", "{}", "missing command"),
        ("shell_poll", "{\"pid\": -1}", "missing pid"),
        ("web_fetch", "{}", "missing url"),
        ("web_fetch", "{\"url\": \"ftp://x\"}", "url must start with http:// or https://"),
        ("web_search", "{}", "missing query"),
        ("web_search", "{\"query\": \"q\"}", "web_search provider not configured"),
        ("read_url", "{}", "missing url"),
        ("read_url", "{\"url\": \"x\"}", "url must start with http:// or https://"),
        ("grep_search", "{}", "missing pattern"),
        ("http_request", "{}", "missing method"),
        ("http_request", "{\"method\": \"GET\"}", "missing url"),
        (
            "http_request",
            "{\"method\": \"GET\", \"url\": \"x\"}",
            "url must start with http:// or https://",
        ),
        (
            "http_request",
            "{\"method\": \"HEAD\", \"url\": \"http://x\"}",
            "unsupported HTTP method: HEAD",
        ),
        ("rm_rf", "{}", "unknown tool: rm_rf"),
    ];
    for (name, args, words) in cases {
        assert_eq!(done(start(name, args)), Err(words.to_string()), "{} {}", name, args);
    }
    let homeless = ToolEnv { home: None, shell: None };
    let step = execute("fs_list", &json("{\"path\": \"~\"}"), "/tmp", &homeless, &dummy_config());
    assert_eq!(done(step), Err("HOME not set".to_string()));
    let mut keyless = search_config("brave");
    keyless.web_search_api_key = None;
    let step = execute("web_search", &json("{\"query\": \"q\"}"), "/tmp", &env(), &keyless);
    assert_eq!(done(step), Err("web_search api key missing".to_string()));
    let config = search_config("other");
    let step = execute("web_search", &json("{\"query\": \"q\"}"), "/tmp", &env(), &config);
    assert_eq!(done(step), Err("unknown web_search provider: other".to_string()));
}

#[test]
fn pwd_and_memory() {
    assert_eq!(done(start("pwd", "{}")), Ok("/tmp".to_string()));
    let step = start("memory_read", "{}");
    let path = "/home/u/.config/kaku/ai_chat_memory.md".to_string();
    assert_eq!(step, ToolStep::Act(ToolTask::ReadMemory { path }));
    assert_eq!(
        done(after(step, ToolEvent::Text(Some("likes tea".to_string())))),
        Ok("likes tea".to_string())
    );
    let step = start("memory_read", "{}");
    assert_eq!(done(after(step, ToolEvent::Text(None))), Ok("(no memories yet)".to_string()));
}

#[test]
fn an_event_that_was_not_asked_for_changes_nothing() {
    let step = start("fs_list", r#"{"path": "/d"}"#);
    let step = after(step, ToolEvent::Did(true));
    assert_eq!(step, ToolStep::Act(ToolTask::List { path: "/d".to_string() }));
}

// ---- Commands ----------------------------------------------------------------------------------

#[test]
fn shell_exec_follows_the_command() {
    let step = start("shell_exec", r#"{"command": "cd src && ls"}"#);
    assert_eq!(
        step,
        ToolStep::Act(ToolTask::Run {
            program: "/bin/zsh".to_string(),
            args: strings(&[
                "-l",
                "-c",
                "cd src && ls\n__kaku_rc=$?; printf '\\n__KAKU_CWD__:%s\\n' \"$(pwd)\"; exit $__kaku_rc",
            ]),
            workdir: Some("/tmp".to_string()),
            purpose: Purpose::Command,
        })
    );
    let mut cwd = "/tmp".to_string();
    let event = ran("a\nb\n\n__KAKU_CWD__:/tmp/src\n", "", Some(0));
    let result = done(proceed(task(step), event, &mut cwd));
    assert_eq!(result, Ok("a\nb\n".to_string()));
    assert_eq!(cwd, "/tmp/src");
}

#[test]
fn the_directory_follows_output_without_a_line_break() {
    let step = start("shell_exec", r#"{"command": "cd /usr && printf foo"}"#);
    let mut cwd = "/".to_string();
    let event = ran("foo\n__KAKU_CWD__:/usr\n", "", Some(0));
    assert_eq!(done(proceed(task(step), event, &mut cwd)), Ok("foo".to_string()));
    assert_eq!(cwd, "/usr");
}

#[test]
fn shell_exec_tells_errors_and_codes() {
    let run = |event: ToolEvent| {
        let step = start("shell_exec", r#"{"command": "x", "cwd": "sub"}"#);
        let mut cwd = "/tmp".to_string();
        (done(proceed(task(step), event, &mut cwd)), cwd)
    };
    assert_eq!(
        run(ran("out\n\n__KAKU_CWD__:/tmp/sub\n", "bad\n", Some(2))),
        (Ok("out\n\n[stderr] bad\n\n[exit 2]".to_string()), "/tmp/sub".to_string())
    );
    assert_eq!(
        run(ran("", "bad", None)),
        (Ok("[stderr] bad\n[exit -1]".to_string()), "/tmp".to_string())
    );
    assert_eq!(
        run(ran("\n__KAKU_CWD__:/tmp\n", "", Some(0))),
        (Ok("(no output)".to_string()), "/tmp".to_string())
    );
    assert_eq!(
        run(ran("\n__KAKU_CWD__: \n", "", Some(0))),
        (Ok("(no output)".to_string()), "/tmp".to_string())
    );
    assert_eq!(
        run(ran("__KAKU_CWD__:/old\nx\r\n\n__KAKU_CWD__:/new\n", "", Some(0))),
        (Ok("__KAKU_CWD__:/old\nx\n".to_string()), "/new".to_string())
    );
    assert_eq!(
        run(ToolEvent::Ran(None)),
        (Err("shell exec failed (/bin/zsh)".to_string()), "/tmp".to_string())
    );
}

#[test]
fn shell_falls_back_to_bash() {
    let env = ToolEnv { home: None, shell: None };
    let step = execute("shell_bg", &json(r#"{"command": "x"}"#), "/w", &env, &dummy_config());
    assert_eq!(
        task(step),
        ToolTask::Spawn {
            program: "/bin/bash".to_string(),
            args: strings(&["-l", "-c", "x"]),
            cwd: "/w".to_string(),
            command: "x".to_string(),
        }
    );
}

#[test]
fn background_processes() {
    let step = start("shell_bg", r#"{"command": "make"}"#);
    assert_eq!(
        done(after(step, ToolEvent::Spawned(Some(42)))),
        Ok("Background process started (pid 42). Use shell_poll to check status.".to_string())
    );
    let step = start("shell_bg", r#"{"command": "make"}"#);
    assert_eq!(
        done(after(step, ToolEvent::Spawned(None))),
        Err("failed to spawn background command: make".to_string())
    );
}

#[test]
fn polling_reports_and_waits() {
    let look = |output: &str, state: ProcessState| {
        ToolEvent::Polled(Some(ProcessLook { output: output.to_string(), state }))
    };
    let step = start("shell_poll", r#"{"pid": 7}"#);
    assert_eq!(step, ToolStep::Act(ToolTask::Poll { pid: 7, timeout_secs: 0 }));
    assert_eq!(
        done(after(step, look("half", ProcessState::Running))),
        Ok("pid 7: running \nhalf".to_string())
    );
    let step = start("shell_poll", r#"{"pid": 7}"#);
    assert_eq!(
        done(after(step, ToolEvent::Polled(None))),
        Err("no background process with pid 7".to_string())
    );
    let step = start("shell_poll", r#"{"pid": 7}"#);
    let step = after(step, look("", ProcessState::Ended(Some(3))));
    assert_eq!(
        done(after(step, ToolEvent::Text(Some("all".to_string())))),
        Ok("pid 7: done [exit 3]\nall".to_string())
    );
    let step = start("shell_poll", r#"{"pid": 4294967303, "timeout_secs": 5}"#);
    assert_eq!(step, ToolStep::Act(ToolTask::Poll { pid: 7, timeout_secs: 5 }));
    let step = after(step, look("half", ProcessState::Running));
    let step = after(step, ToolEvent::Waited(WaitOutcome::Seen(ProcessState::Running)));
    assert_eq!(
        step,
        ToolStep::Act(ToolTask::Wait { pid: 7, timeout_secs: 5, output: "half".to_string() })
    );
    let step = after(step, ToolEvent::Waited(WaitOutcome::Seen(ProcessState::Ended(None))));
    assert_eq!(
        done(after(step, ToolEvent::Text(None))),
        Ok("pid 7: done [exit -1]\nhalf".to_string())
    );
    for outcome in [WaitOutcome::Expired, WaitOutcome::Gone] {
        let step = start("shell_poll", r#"{"pid": 7, "timeout_secs": 5}"#);
        let step = after(step, look("", ProcessState::Running));
        assert_eq!(done(after(step, ToolEvent::Waited(outcome))), Ok("pid 7: running ".to_string()));
    }
}

#[test]
fn a_fetch_script_takes_the_place_of_the_converters() {
    let mut config = dummy_config();
    config.web_fetch_script = Some("/s.sh".to_string());
    let begin = || {
        execute("web_fetch", &json(r#"{"url": "https://a.b"}"#), "/tmp", &env(), &config)
    };
    assert_eq!(
        begin(),
        ToolStep::Act(ToolTask::Run {
            program: "bash".to_string(),
            args: strings(&["/s.sh", "https://a.b"]),
            workdir: None,
            purpose: Purpose::FetchScript,
        })
    );
    assert_eq!(done(after(begin(), ran("# page", "", Some(0)))), Ok("# page".to_string()));
    assert_eq!(
        done(after(begin(), ran("", "oops", Some(1)))),
        Err("fetch script failed: oops".to_string())
    );
    assert_eq!(
        done(after(begin(), ToolEvent::Ran(None))),
        Err("web_fetch_script exec failed".to_string())
    );
}

// ---- Searching files ---------------------------------------------------------------------------

#[test]
fn grep_search_finds_pattern() {
    let step = start("grep_search", r#"{"pattern": "hello", "path": "/tmp/dir"}"#);
    let step = after(step, ToolEvent::Ran(None));
    assert_eq!(
        step,
        ToolStep::Act(ToolTask::Run {
            program: "grep".to_string(),
            args: strings(&["-rn", "-C2", "--color=never", "hello", "/tmp/dir"]),
            workdir: None,
            purpose: Purpose::Search { max_results: 100 },
        })
    );
    let found = "/tmp/dir/data.txt:1:hello world\n/tmp/dir/data.txt-2-foo bar\n";
    let result = done(after(step, ran(found, "", Some(0)))).unwrap();
    assert!(result.contains("hello world"), "expected match in result: {}", result);
    assert_eq!(result, "/tmp/dir/data.txt:1:hello world\n/tmp/dir/data.txt-2-foo bar");
}

#[test]
fn ripgrep_is_preferred() {
    let args = r#"{"pattern": "p", "glob": "*.rs", "context_lines": 0, "case_insensitive": true,
                   "max_results": 2}"#;
    let step = start("grep_search", args);
    match &step {
        ToolStep::Act(ToolTask::Run { program, args, workdir: None, purpose: _ }) => {
            assert_eq!(program, "rg");
            assert_eq!(args, &strings(&["--version"]));
        }
        other => panic!("{:?}", other),
    }
    let step = after(step, ran("ripgrep 14", "", Some(0)));
    assert_eq!(
        step,
        ToolStep::Act(ToolTask::Run {
            program: "rg".to_string(),
            args: strings(&[
                "--line-number",
                "--no-heading",
                "--color=never",
                "--context=0",
                "--ignore-case",
                "--glob",
                "*.rs",
                "p",
                "/tmp",
            ]),
            workdir: None,
            purpose: Purpose::Search { max_results: 2 },
        })
    );
    let found = "/tmp/a:1:p\n--\n/tmp/b:2:p\n--\n/tmp/c:3:p\n";
    let result = done(after(step, ran(found, "", Some(0))));
    let told = "/tmp/a:1:p\n--\n/tmp/b:2:p\n\n[... truncated at 2 results]";
    assert_eq!(result, Ok(told.to_string()));
}

#[test]
fn searches_without_matches() {
    let search = |event: ToolEvent| {
        let step = start("grep_search", r#"{"pattern": "p"}"#);
        done(after(after(step, ToolEvent::Ran(None)), event))
    };
    assert_eq!(search(ran("", "", Some(1))), Ok("No matches found.".to_string()));
    assert_eq!(
        search(ran(" \n", "  no such file \n", Some(2))),
        Ok("No matches. (no such file)".to_string())
    );
    let long = "e".repeat(300);
    assert_eq!(
        search(ran("", &long, Some(2))),
        Ok(format!("No matches. ({})", "e".repeat(200)))
    );
    assert_eq!(search(ToolEvent::Ran(None)), Err("grep_search exec failed".to_string()));
}

// ---- Sending requests --------------------------------------------------------------------------

#[test]
fn web_tools_send_and_conclude() {
    let step = start("web_fetch", r#"{"url": "https://a.b/c"}"#);
    match &step {
        ToolStep::Act(ToolTask::Send { call, state: _ }) => {
            assert_eq!(call.method, Method::Get);
            assert_eq!(call.url, "https://defuddle.md/https://a.b/c");
            assert_eq!(call.reading, Reading::Text);
        }
        other => panic!("{:?}", other),
    }
    let page = HttpReply::Answered(HttpAnswer {
        code: 200,
        status: "200 OK".to_string(),
        headers: vec![],
        body: ReplyBody::Text("# Page".to_string()),
    });
    assert_eq!(done(after(step, ToolEvent::Replied(page))), Ok("# Page".to_string()));
    for (provider, url) in [
        ("brave", "https://api.search.brave.com/res/v1/web/search"),
        ("pipellm", "https://api.pipellm.ai/v1/websearch/simple-search"),
        ("tavily", "https://api.tavily.com/search"),
    ] {
        let config = search_config(provider);
        let step = execute("web_search", &json(r#"{"query": "q"}"#), "/", &env(), &config);
        match task(step) {
            ToolTask::Send { call, state: _ } => assert_eq!(call.url, url),
            other => panic!("{:?}", other),
        }
    }
    for (provider, url) in [
        ("brave", "https://defuddle.md/http://a"),
        ("pipellm", "https://api.pipellm.ai/v1/websearch/reader"),
        ("tavily", "https://api.tavily.com/extract"),
    ] {
        let config = search_config(provider);
        let step = execute("read_url", &json(r#"{"url": "http://a"}"#), "/", &env(), &config);
        match task(step) {
            ToolTask::Send { call, state: _ } => assert_eq!(call.url, url),
            other => panic!("{:?}", other),
        }
    }
    let step = start("http_request", r#"{"method": "DELETE", "url": "http://a"}"#);
    match &step {
        ToolStep::Act(ToolTask::Send { call, state: _ }) => {
            assert_eq!(call.method, Method::Delete);
            assert_eq!(call.url, "http://a");
        }
        other => panic!("{:?}", other),
    }
    let lost = ToolEvent::Replied(HttpReply::Failed("timeout".to_string()));
    assert_eq!(done(after(step, lost)), Err("http_request DELETE http://a failed".to_string()));
}

// ---- Definitions -------------------------------------------------------------------------------

#[test]
fn tools_are_offered_by_configuration() {
    let names: Vec<&str> = all_tools(&dummy_config()).iter().map(|t| t.name).collect();
    assert_eq!(
        names,
        vec![
            "fs_read", "fs_list", "fs_write", "fs_patch", "fs_mkdir", "fs_delete", "shell_exec",
            "shell_bg", "shell_poll", "pwd", "web_fetch", "grep_search", "memory_read",
            "http_request",
        ]
    );
    let tools = all_tools(&search_config("tavily"));
    let names: Vec<&str> = tools.iter().map(|t| t.name).collect();
    assert_eq!(&names[10..14], &["web_fetch", "web_search", "read_url", "grep_search"]);
    assert_eq!(names.len(), 16);
    assert!(tools[11].description.starts_with("Search the web using tavily and return results"));
    for tool in &tools {
        let step = execute(tool.name, &json("{}"), "/tmp", &env(), &search_config("tavily"));
        let unknown = format!("unknown tool: {}", tool.name);
        assert_ne!(step, ToolStep::Done(Err(Failure::new(&unknown))));
    }
    let mut half = search_config("brave");
    half.web_search_api_key = None;
    assert_eq!(all_tools(&half).len(), 14);
}

#[test]
fn schemas_are_told_to_the_api() {
    let tools = all_tools(&search_config("brave"));
    let schema = to_api_schema(&tools[0]);
    let expected = json(
        r#"{"type": "function", "function": {
            "name": "fs_read",
            "description": "Read the full content of a file and return it as a string.",
            "parameters": {
                "type": "object",
                "properties": {
                    "path": {"type": "string", "description": "Absolute or ~/relative path"}
                },
                "required": ["path"]
            }}}"#,
    );
    assert!(same(&schema, &expected), "{:?}", schema);
    let expected = json(
        r#"{"type": "function", "function": {
            "name": "http_request",
            "description": "Make an HTTP request (GET, POST, PUT, PATCH, DELETE) and return the response status, headers, and body. Use for testing APIs, fetching JSON endpoints, or any HTTP call that requires a specific method or request body. For web pages, prefer web_fetch instead.",
            "parameters": {
                "type": "object",
                "properties": {
                    "method": {
                        "type": "string",
                        "enum": ["GET", "POST", "PUT", "PATCH", "DELETE"],
                        "description": "HTTP method"
                    },
                    "url": {
                        "type": "string",
                        "description": "Full URL (must start with http:// or https://)"
                    },
                    "headers": {
                        "type": "object",
                        "description": "Optional extra request headers as key-value pairs",
                        "additionalProperties": {"type": "string"}
                    },
                    "body": {
                        "type": "string",
                        "description": "Request body (for POST/PUT/PATCH). If it is valid JSON, Content-Type is set to application/json automatically."
                    },
                    "query": {
                        "type": "object",
                        "description": "Optional URL query parameters as key-value pairs",
                        "additionalProperties": {"type": "string"}
                    }
                },
                "required": ["method", "url"]
            }}}"#,
    );
    assert!(same(&to_api_schema(&tools[15]), &expected));
}

/// The same value, whatever the order of members.
fn same(a: &Json, b: &Json) -> bool {
    match (a, b) {
        (Json::Object(x), Json::Object(y)) => {
            x.len() == y.len()
                && x.iter().all(|(k, v)| b.get(k).map(|w| same(v, w)).unwrap_or(false))
        }
        (Json::Array(x), Json::Array(y)) => {
            x.len() == y.len() && x.iter().zip(y).all(|(v, w)| same(v, w))
        }
        _ => a == b,
    }
}
