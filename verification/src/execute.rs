//! Executing tools: how each one starts, and what follows each event.

use crate::config::{AssistantConfig, ConfigView};
use crate::course::{resume, resumed};
use crate::http::Failure;
use crate::json::{opt_text, Json, JsonView};
use crate::numeral::{decimal, decimal_text};
use crate::paths::{
    config_dir, is_within, joined_path, memory_file_path, resolve, resolved, within,
};
use crate::reader::{exec_read_url, read_started};
use crate::report::{
    byte_length, command_report, directory_after, listed, listing, lossy_text, process_report,
    report_command, report_process, report_search, search_args, search_report, shorten, shortened,
    text_of_bytes, track_script, tracked_script, ProcessOutput, MAX_RESULT_BYTES,
};
use crate::request::{exec_http_request, request_started};
use crate::search::{
    brave_started, pipellm_asks, pipellm_path, search_brave, search_pipellm, search_tavily,
    tavily_started,
};
use crate::task::{
    EnvView, EventView, ProcessState, Purpose, PurposeView, StepView, TaskView, ToolEnv, ToolEvent,
    ToolStep, ToolTask, WaitOutcome,
};
use crate::text::{
    cat, contained, first_replaced, opt_string, replace_first, same, starts_with, texts,
};
use crate::web::{fetch_markdown_default, fetch_started, WebStep, WebStepView};
use vstd::prelude::*;
use vstd::string::*;
use vstd::utf8::*;

verus! {

// ---- Results -----------------------------------------------------------------------------------

/// A tool that failed with the words.
pub open spec fn refused(words: Seq<char>) -> StepView {
    StepView::Done(Err(words))
}

/// A tool that has its result: one that is too long is saved in full first.
pub open spec fn concluded(result: Seq<char>) -> StepView {
    if encode_utf8(result).len() > MAX_RESULT_BYTES {
        StepView::Act(TaskView::Save { content: result })
    } else {
        StepView::Done(Ok(result))
    }
}

fn refuse(words: &str) -> (r: ToolStep)
    ensures
        r@ == refused(words@),
{
    ToolStep::Done(Err(Failure::new(words)))
}

fn refuse_with(label: &str, what: &str) -> (r: ToolStep)
    ensures
        r@ == refused(label@ + what@),
{
    refuse(cat(label, what).as_str())
}

fn conclude(result: String) -> (r: ToolStep)
    ensures
        r@ == concluded(result@),
{
    if byte_length(result.as_str()) > MAX_RESULT_BYTES {
        ToolStep::Act(ToolTask::Save { content: result })
    } else {
        ToolStep::Done(Ok(result))
    }
}

/// The step that a course of requests takes.
pub open spec fn web_step(step: WebStepView) -> StepView {
    match step {
        WebStepView::Send(call, state) => StepView::Act(TaskView::Send { call, state }),
        WebStepView::Done(Ok(text)) => concluded(text),
        WebStepView::Done(Err(words)) => refused(words),
    }
}

fn take_web_step(step: WebStep) -> (r: ToolStep)
    ensures
        r@ == web_step(step@),
{
    match step {
        WebStep::Send(call, state) => ToolStep::Act(ToolTask::Send { call, state }),
        WebStep::Done(Ok(text)) => conclude(text),
        WebStep::Done(Err(e)) => ToolStep::Done(Err(e)),
    }
}

// ---- Arguments ---------------------------------------------------------------------------------

/// A path as a tool means it, or why there is none.
pub open spec fn place(path: Option<Seq<char>>, cwd: Seq<char>, home: Option<Seq<char>>) -> Result<
    Seq<char>,
    Seq<char>,
> {
    match path {
        None => Err("missing path"@),
        Some(p) => match resolved(p, cwd, home) {
            Ok(q) => Ok(q),
            Err(_) => Err("HOME not set"@),
        },
    }
}

fn find_place(path: Option<&str>, cwd: &str, env: &ToolEnv) -> (r: Result<String, Failure>)
    ensures
        crate::http::outcome(r) == place(opt_text(path), cwd@, env@.home),
{
    match path {
        None => Err(Failure::new("missing path")),
        Some(p) => match resolve(p, cwd, as_text(&env.home)) {
            Ok(q) => Ok(q),
            Err(_) => Err(Failure::new("HOME not set")),
        },
    }
}

fn as_text(s: &Option<String>) -> (r: Option<&str>)
    ensures
        opt_text(r) == opt_string(*s),
{
    match s {
        Some(t) => Some(t.as_str()),
        None => None,
    }
}

fn to_owned(s: Option<&str>) -> (r: Option<String>)
    ensures
        opt_string(r) == opt_text(s),
{
    match s {
        Some(t) => Some(t.to_string()),
        None => None,
    }
}

/// The directory that a command is to run in, or why there is none.
pub open spec fn command_place(args: JsonView, cwd: Seq<char>, home: Option<Seq<char>>) -> Result<
    Seq<char>,
    Seq<char>,
> {
    match args.field("cwd"@).text() {
        None => Ok(cwd),
        Some(p) => place(Some(p), cwd, home),
    }
}

fn find_command_place(args: &Json, cwd: &str, env: &ToolEnv) -> (r: Result<String, Failure>)
    ensures
        crate::http::outcome(r) == command_place(args@, cwd@, env@.home),
{
    match args.field("cwd").text() {
        None => Ok(cwd.to_string()),
        Some(p) => find_place(Some(p), cwd, env),
    }
}

/// The shell that runs commands.
pub open spec fn shell_of(env: EnvView) -> Seq<char> {
    match env.shell {
        Some(s) => s,
        None => "/bin/bash"@,
    }
}

fn find_shell(env: &ToolEnv) -> (r: String)
    ensures
        r@ == shell_of(env@),
{
    match &env.shell {
        Some(s) => s.clone(),
        None => "/bin/bash".to_string(),
    }
}

/// The arguments with which a shell runs a script.
pub open spec fn shell_args(script: Seq<char>) -> Seq<Seq<char>> {
    seq!["-l"@, "-c"@, script]
}

fn args_for_shell(script: &str) -> (r: Vec<String>)
    ensures
        texts(r@) == shell_args(script@),
{
    let mut args: Vec<String> = Vec::new();
    args.push("-l".to_string());
    args.push("-c".to_string());
    args.push(script.to_string());
    assert(texts(args@) == shell_args(script@));
    args
}

/// An address on the web.
pub open spec fn is_web_address(url: Seq<char>) -> bool {
    "http://"@.is_prefix_of(url) || "https://"@.is_prefix_of(url)
}

fn check_web_address(url: &str) -> (r: bool)
    ensures
        r == is_web_address(url@),
{
    starts_with(url, "http://") || starts_with(url, "https://")
}

// ---- Files -------------------------------------------------------------------------------------

/// How many bytes of a file are read: enough to find a character boundary beyond the limit.
pub const READ_LIMIT: u64 = 8_512;

/// A path that has to stay within the working directory: neither absolute nor below home.
pub open spec fn confined(raw: Seq<char>) -> bool {
    !"/"@.is_prefix_of(raw) && !"~/"@.is_prefix_of(raw)
}

/// How reading a file starts.
pub open spec fn fs_read_started(args: JsonView, cwd: Seq<char>, env: EnvView) -> StepView {
    match place(args.field("path"@).text(), cwd, env.home) {
        Err(words) => refused(words),
        Ok(path) => if confined(args.field("path"@).text()->0) {
            StepView::Act(
                TaskView::Locate { raw: args.field("path"@).text()->0, path, cwd },
            )
        } else {
            StepView::Act(TaskView::ReadStart { path, limit: READ_LIMIT })
        },
    }
}

fn start_fs_read(args: &Json, cwd: &str, env: &ToolEnv) -> (r: ToolStep)
    ensures
        r@ == fs_read_started(args@, cwd@, env@),
{
    let raw = match args.field("path").text() {
        Some(p) => p,
        None => {
            return refuse("missing path");
        },
    };
    match find_place(Some(raw), cwd, env) {
        Err(e) => ToolStep::Done(Err(e)),
        Ok(path) => if !starts_with(raw, "/") && !starts_with(raw, "~/") {
            ToolStep::Act(
                ToolTask::Locate { raw: raw.to_string(), path, cwd: cwd.to_string() },
            )
        } else {
            ToolStep::Act(ToolTask::ReadStart { path, limit: READ_LIMIT })
        },
    }
}

/// How listing a directory starts.
pub open spec fn fs_list_started(args: JsonView, cwd: Seq<char>, env: EnvView) -> StepView {
    match place(args.field("path"@).text(), cwd, env.home) {
        Err(words) => refused(words),
        Ok(path) => StepView::Act(TaskView::List { path }),
    }
}

/// How writing a file starts.
pub open spec fn fs_write_started(args: JsonView, cwd: Seq<char>, env: EnvView) -> StepView {
    match place(args.field("path"@).text(), cwd, env.home) {
        Err(words) => refused(words),
        Ok(path) => match args.field("content"@).text() {
            None => refused("missing content"@),
            Some(content) => StepView::Act(TaskView::MakeParents { path, content }),
        },
    }
}

/// How replacing a text in a file starts.
pub open spec fn fs_patch_started(args: JsonView, cwd: Seq<char>, env: EnvView) -> StepView {
    match place(args.field("path"@).text(), cwd, env.home) {
        Err(words) => refused(words),
        Ok(path) => match args.field("old_text"@).text() {
            None => refused("missing old_text"@),
            Some(old_text) => match args.field("new_text"@).text() {
                None => refused("missing new_text"@),
                Some(new_text) => StepView::Act(TaskView::ReadToPatch { path, old_text, new_text }),
            },
        },
    }
}

/// How creating a directory starts.
pub open spec fn fs_mkdir_started(args: JsonView, cwd: Seq<char>, env: EnvView) -> StepView {
    match place(args.field("path"@).text(), cwd, env.home) {
        Err(words) => refused(words),
        Ok(path) => StepView::Act(TaskView::MakeDirs { path }),
    }
}

/// How removing a file or a directory starts.
pub open spec fn fs_delete_started(args: JsonView, cwd: Seq<char>, env: EnvView) -> StepView {
    match place(args.field("path"@).text(), cwd, env.home) {
        Err(words) => refused(words),
        Ok(path) => StepView::Act(TaskView::LookAt { path }),
    }
}

fn start_fs_list(args: &Json, cwd: &str, env: &ToolEnv) -> (r: ToolStep)
    ensures
        r@ == fs_list_started(args@, cwd@, env@),
{
    match find_place(args.field("path").text(), cwd, env) {
        Err(e) => ToolStep::Done(Err(e)),
        Ok(path) => ToolStep::Act(ToolTask::List { path }),
    }
}

fn start_fs_write(args: &Json, cwd: &str, env: &ToolEnv) -> (r: ToolStep)
    ensures
        r@ == fs_write_started(args@, cwd@, env@),
{
    match find_place(args.field("path").text(), cwd, env) {
        Err(e) => ToolStep::Done(Err(e)),
        Ok(path) => match args.field("content").text() {
            None => refuse("missing content"),
            Some(content) => ToolStep::Act(
                ToolTask::MakeParents { path, content: content.to_string() },
            ),
        },
    }
}

fn start_fs_patch(args: &Json, cwd: &str, env: &ToolEnv) -> (r: ToolStep)
    ensures
        r@ == fs_patch_started(args@, cwd@, env@),
{
    match find_place(args.field("path").text(), cwd, env) {
        Err(e) => ToolStep::Done(Err(e)),
        Ok(path) => match args.field("old_text").text() {
            None => refuse("missing old_text"),
            Some(old_text) => match args.field("new_text").text() {
                None => refuse("missing new_text"),
                Some(new_text) => ToolStep::Act(
                    ToolTask::ReadToPatch {
                        path,
                        old_text: old_text.to_string(),
                        new_text: new_text.to_string(),
                    },
                ),
            },
        },
    }
}

fn start_fs_mkdir(args: &Json, cwd: &str, env: &ToolEnv) -> (r: ToolStep)
    ensures
        r@ == fs_mkdir_started(args@, cwd@, env@),
{
    match find_place(args.field("path").text(), cwd, env) {
        Err(e) => ToolStep::Done(Err(e)),
        Ok(path) => ToolStep::Act(ToolTask::MakeDirs { path }),
    }
}

fn start_fs_delete(args: &Json, cwd: &str, env: &ToolEnv) -> (r: ToolStep)
    ensures
        r@ == fs_delete_started(args@, cwd@, env@),
{
    match find_place(args.field("path").text(), cwd, env) {
        Err(e) => ToolStep::Done(Err(e)),
        Ok(path) => ToolStep::Act(ToolTask::LookAt { path }),
    }
}

// ---- Commands ----------------------------------------------------------------------------------

/// How a command starts.
pub open spec fn shell_exec_started(args: JsonView, cwd: Seq<char>, env: EnvView) -> StepView {
    match args.field("command"@).text() {
        None => refused("missing command"@),
        Some(command) => match command_place(args, cwd, env.home) {
            Err(words) => refused(words),
            Ok(dir) => StepView::Act(
                TaskView::Run {
                    program: shell_of(env),
                    args: shell_args(tracked_script(command)),
                    workdir: Some(dir),
                    purpose: PurposeView::Command,
                },
            ),
        },
    }
}

/// How a command in the background starts.
pub open spec fn shell_bg_started(args: JsonView, cwd: Seq<char>, env: EnvView) -> StepView {
    match args.field("command"@).text() {
        None => refused("missing command"@),
        Some(command) => match command_place(args, cwd, env.home) {
            Err(words) => refused(words),
            Ok(dir) => StepView::Act(
                TaskView::Spawn {
                    program: shell_of(env),
                    args: shell_args(command),
                    cwd: dir,
                    command,
                },
            ),
        },
    }
}

/// How looking at a background process starts; its id is taken modulo 2^32.
pub open spec fn shell_poll_started(args: JsonView) -> StepView {
    match args.field("pid"@).unsigned() {
        None => refused("missing pid"@),
        Some(pid) => StepView::Act(
            TaskView::Poll {
                pid: (pid % 0x1_0000_0000) as u32,
                timeout_secs: match args.field("timeout_secs"@).unsigned() {
                    Some(t) => t,
                    None => 0,
                },
            },
        ),
    }
}

fn start_shell_exec(args: &Json, cwd: &str, env: &ToolEnv) -> (r: ToolStep)
    ensures
        r@ == shell_exec_started(args@, cwd@, env@),
{
    match args.field("command").text() {
        None => refuse("missing command"),
        Some(command) => match find_command_place(args, cwd, env) {
            Err(e) => ToolStep::Done(Err(e)),
            Ok(dir) => ToolStep::Act(
                ToolTask::Run {
                    program: find_shell(env),
                    args: args_for_shell(track_script(command).as_str()),
                    workdir: Some(dir),
                    purpose: Purpose::Command,
                },
            ),
        },
    }
}

fn start_shell_bg(args: &Json, cwd: &str, env: &ToolEnv) -> (r: ToolStep)
    ensures
        r@ == shell_bg_started(args@, cwd@, env@),
{
    match args.field("command").text() {
        None => refuse("missing command"),
        Some(command) => match find_command_place(args, cwd, env) {
            Err(e) => ToolStep::Done(Err(e)),
            Ok(dir) => ToolStep::Act(
                ToolTask::Spawn {
                    program: find_shell(env),
                    args: args_for_shell(command),
                    cwd: dir,
                    command: command.to_string(),
                },
            ),
        },
    }
}

fn start_shell_poll(args: &Json) -> (r: ToolStep)
    ensures
        r@ == shell_poll_started(args@),
{
    match args.field("pid").unsigned() {
        None => refuse("missing pid"),
        Some(pid) => ToolStep::Act(
            ToolTask::Poll {
                pid: (pid % 0x1_0000_0000) as u32,
                timeout_secs: match args.field("timeout_secs").unsigned() {
                    Some(t) => t,
                    None => 0,
                },
            },
        ),
    }
}

// ---- The web -----------------------------------------------------------------------------------

/// How fetching a page starts: with the user's script, or with the converters.
pub open spec fn web_fetch_started(args: JsonView, config: ConfigView) -> StepView {
    match args.field("url"@).text() {
        None => refused("missing url"@),
        Some(url) => if !is_web_address(url) {
            refused("url must start with http:// or https://"@)
        } else {
            match config.web_fetch_script {
                Some(script) => StepView::Act(
                    TaskView::Run {
                        program: "bash"@,
                        args: seq![script, url],
                        workdir: None,
                        purpose: PurposeView::FetchScript,
                    },
                ),
                None => web_step(fetch_started(url)),
            }
        },
    }
}

/// How a web search starts.
pub open spec fn web_search_started(args: JsonView, config: ConfigView) -> StepView {
    match args.field("query"@).text() {
        None => refused("missing query"@),
        Some(query) => match config.web_search_provider {
            None => refused("web_search provider not configured"@),
            Some(provider) => match config.web_search_api_key {
                None => refused("web_search api key missing"@),
                Some(api_key) => {
                    let kind = args.field("kind"@).text();
                    let freshness = args.field("freshness"@).text();
                    let depth = args.field("search_depth"@).text();
                    if provider == "brave"@ {
                        web_step(brave_started(query, api_key, kind, freshness))
                    } else if provider == "pipellm"@ {
                        web_step(pipellm_asks(query, api_key, pipellm_path(kind), false))
                    } else if provider == "tavily"@ {
                        web_step(tavily_started(query, api_key, kind, freshness, depth))
                    } else {
                        refused("unknown web_search provider: "@ + provider)
                    }
                },
            },
        },
    }
}

/// How reading a page starts.
pub open spec fn read_url_started(args: JsonView, config: ConfigView) -> StepView {
    match args.field("url"@).text() {
        None => refused("missing url"@),
        Some(url) => if !is_web_address(url) {
            refused("url must start with http:// or https://"@)
        } else {
            web_step(
                read_started(
                    url,
                    crate::config::text_else(config.web_search_provider, ""@),
                    crate::config::text_else(config.web_search_api_key, ""@),
                ),
            )
        },
    }
}

/// How a plain HTTP request starts.
pub open spec fn http_request_started(args: JsonView) -> StepView {
    match args.field("method"@).text() {
        None => refused("missing method"@),
        Some(method) => match args.field("url"@).text() {
            None => refused("missing url"@),
            Some(url) => if !is_web_address(url) {
                refused("url must start with http:// or https://"@)
            } else {
                web_step(
                    request_started(
                        method,
                        url,
                        args.field("headers"@),
                        args.field("body"@).text(),
                        args.field("query"@),
                    ),
                )
            },
        },
    }
}

fn start_web_fetch(args: &Json, config: &AssistantConfig) -> (r: ToolStep)
    ensures
        r@ == web_fetch_started(args@, config@),
{
    match args.field("url").text() {
        None => refuse("missing url"),
        Some(url) => if !check_web_address(url) {
            refuse("url must start with http:// or https://")
        } else {
            match &config.web_fetch_script {
                Some(script) => {
                    let mut list: Vec<String> = Vec::new();
                    list.push(script.clone());
                    list.push(url.to_string());
                    assert(texts(list@) == seq![script@, url@]);
                    ToolStep::Act(
                        ToolTask::Run {
                            program: "bash".to_string(),
                            args: list,
                            workdir: None,
                            purpose: Purpose::FetchScript,
                        },
                    )
                },
                None => take_web_step(fetch_markdown_default(url)),
            }
        },
    }
}

fn start_web_search(args: &Json, config: &AssistantConfig) -> (r: ToolStep)
    ensures
        r@ == web_search_started(args@, config@),
{
    let query = match args.field("query").text() {
        Some(q) => q,
        None => {
            return refuse("missing query");
        },
    };
    let provider = match &config.web_search_provider {
        Some(p) => p.as_str(),
        None => {
            return refuse("web_search provider not configured");
        },
    };
    let api_key = match &config.web_search_api_key {
        Some(k) => k.as_str(),
        None => {
            return refuse("web_search api key missing");
        },
    };
    let kind = args.field("kind").text();
    let freshness = args.field("freshness").text();
    let depth = args.field("search_depth").text();
    if same(provider, "brave") {
        take_web_step(search_brave(query, api_key, kind, freshness))
    } else if same(provider, "pipellm") {
        take_web_step(search_pipellm(query, api_key, kind))
    } else if same(provider, "tavily") {
        take_web_step(search_tavily(query, api_key, kind, freshness, depth))
    } else {
        refuse_with("unknown web_search provider: ", provider)
    }
}

fn start_read_url(args: &Json, config: &AssistantConfig) -> (r: ToolStep)
    ensures
        r@ == read_url_started(args@, config@),
{
    match args.field("url").text() {
        None => refuse("missing url"),
        Some(url) => if !check_web_address(url) {
            refuse("url must start with http:// or https://")
        } else {
            let provider = match &config.web_search_provider {
                Some(p) => p.as_str(),
                None => "",
            };
            let api_key = match &config.web_search_api_key {
                Some(k) => k.as_str(),
                None => "",
            };
            take_web_step(exec_read_url(url, provider, api_key))
        },
    }
}

fn start_http_request(args: &Json) -> (r: ToolStep)
    ensures
        r@ == http_request_started(args@),
{
    match args.field("method").text() {
        None => refuse("missing method"),
        Some(method) => match args.field("url").text() {
            None => refuse("missing url"),
            Some(url) => if !check_web_address(url) {
                refuse("url must start with http:// or https://")
            } else {
                take_web_step(
                    exec_http_request(
                        method,
                        url,
                        args.field("headers"),
                        args.field("body").text(),
                        args.field("query"),
                    ),
                )
            },
        },
    }
}

// ---- Searching files ---------------------------------------------------------------------------

/// A number, or another one where there is none.
pub open spec fn number_else(n: Option<u64>, default: u64) -> u64 {
    match n {
        Some(v) => v,
        None => default,
    }
}

/// How searching files starts.
pub open spec fn grep_search_started(args: JsonView, cwd: Seq<char>, env: EnvView) -> StepView {
    match args.field("pattern"@).text() {
        None => refused("missing pattern"@),
        Some(pattern) => match place(
            Some(args.field("path"@).text_or(cwd)),
            cwd,
            env.home,
        ) {
            Err(words) => refused(words),
            Ok(path) => StepView::Act(
                TaskView::Run {
                    program: "rg"@,
                    args: seq!["--version"@],
                    workdir: None,
                    purpose: PurposeView::Probe {
                        pattern,
                        path,
                        glob: args.field("glob"@).text(),
                        context_lines: number_else(args.field("context_lines"@).unsigned(), 2),
                        case_insensitive: args.field("case_insensitive"@).flag() == Some(true),
                        max_results: number_else(args.field("max_results"@).unsigned(), 100),
                    },
                },
            ),
        },
    }
}

fn value_else(n: Option<u64>, default: u64) -> (r: u64)
    ensures
        r == number_else(n, default),
{
    match n {
        Some(v) => v,
        None => default,
    }
}

fn exec_grep_search(args: &Json, cwd: &str, env: &ToolEnv) -> (r: ToolStep)
    ensures
        r@ == grep_search_started(args@, cwd@, env@),
{
    match args.field("pattern").text() {
        None => refuse("missing pattern"),
        Some(pattern) => match find_place(Some(args.field("path").text_or(cwd)), cwd, env) {
            Err(e) => ToolStep::Done(Err(e)),
            Ok(path) => {
                let mut list: Vec<String> = Vec::new();
                list.push("--version".to_string());
                assert(texts(list@) == seq!["--version"@]);
                let case_insensitive = match args.field("case_insensitive").flag() {
                    Some(b) => b,
                    None => false,
                };
                ToolStep::Act(
                    ToolTask::Run {
                        program: "rg".to_string(),
                        args: list,
                        workdir: None,
                        purpose: Purpose::Probe {
                            pattern: pattern.to_string(),
                            path,
                            glob: to_owned(args.field("glob").text()),
                            context_lines: value_else(args.field("context_lines").unsigned(), 2),
                            case_insensitive,
                            max_results: value_else(args.field("max_results").unsigned(), 100),
                        },
                    },
                )
            },
        },
    }
}

// ---- Start -------------------------------------------------------------------------------------

/// How a tool starts.
pub open spec fn started(
    name: Seq<char>,
    args: JsonView,
    cwd: Seq<char>,
    env: EnvView,
    config: ConfigView,
) -> StepView {
    if name == "fs_read"@ {
        fs_read_started(args, cwd, env)
    } else if name == "fs_list"@ {
        fs_list_started(args, cwd, env)
    } else if name == "fs_write"@ {
        fs_write_started(args, cwd, env)
    } else if name == "fs_patch"@ {
        fs_patch_started(args, cwd, env)
    } else if name == "fs_mkdir"@ {
        fs_mkdir_started(args, cwd, env)
    } else if name == "fs_delete"@ {
        fs_delete_started(args, cwd, env)
    } else if name == "shell_exec"@ {
        shell_exec_started(args, cwd, env)
    } else if name == "shell_bg"@ {
        shell_bg_started(args, cwd, env)
    } else if name == "shell_poll"@ {
        shell_poll_started(args)
    } else if name == "pwd"@ {
        concluded(cwd)
    } else if name == "web_fetch"@ {
        web_fetch_started(args, config)
    } else if name == "web_search"@ {
        web_search_started(args, config)
    } else if name == "read_url"@ {
        read_url_started(args, config)
    } else if name == "grep_search"@ {
        grep_search_started(args, cwd, env)
    } else if name == "memory_read"@ {
        StepView::Act(
            TaskView::ReadMemory {
                path: joined_path(config_dir(env.home), "ai_chat_memory.md"@),
            },
        )
    } else if name == "http_request"@ {
        http_request_started(args)
    } else {
        refused("unknown tool: "@ + name)
    }
}

/// Starts a tool by name. `args` is the parsed JSON from the model, `cwd` the agent's current
/// working directory.
pub fn execute(
    name: &str,
    args: &Json,
    cwd: &str,
    env: &ToolEnv,
    config: &AssistantConfig,
) -> (r: ToolStep)
    ensures
        r@ == started(name@, args@, cwd@, env@, config@),
{
    if same(name, "fs_read") {
        start_fs_read(args, cwd, env)
    } else if same(name, "fs_list") {
        start_fs_list(args, cwd, env)
    } else if same(name, "fs_write") {
        start_fs_write(args, cwd, env)
    } else if same(name, "fs_patch") {
        start_fs_patch(args, cwd, env)
    } else if same(name, "fs_mkdir") {
        start_fs_mkdir(args, cwd, env)
    } else if same(name, "fs_delete") {
        start_fs_delete(args, cwd, env)
    } else if same(name, "shell_exec") {
        start_shell_exec(args, cwd, env)
    } else if same(name, "shell_bg") {
        start_shell_bg(args, cwd, env)
    } else if same(name, "shell_poll") {
        start_shell_poll(args)
    } else if same(name, "pwd") {
        conclude(cwd.to_string())
    } else if same(name, "web_fetch") {
        start_web_fetch(args, config)
    } else if same(name, "web_search") {
        start_web_search(args, config)
    } else if same(name, "read_url") {
        start_read_url(args, config)
    } else if same(name, "grep_search") {
        exec_grep_search(args, cwd, env)
    } else if same(name, "memory_read") {
        ToolStep::Act(ToolTask::ReadMemory { path: memory_file_path(as_text(&env.home)) })
    } else if same(name, "http_request") {
        start_http_request(args)
    } else {
        refuse_with("unknown tool: ", name)
    }
}

// ---- Going on ----------------------------------------------------------------------------------

/// What follows when it is known where a path really is: a path outside the working directory is
/// refused.
pub open spec fn located(
    raw: Seq<char>,
    path: Seq<char>,
    real_path: Option<Seq<u8>>,
    real_cwd: Option<Seq<u8>>,
) -> StepView {
    if real_path is Some && real_cwd is Some && !within(real_path->0, real_cwd->0) {
        refused(
            "path '"@ + raw
                + "' resolves outside the working directory; use an absolute path to access it"@,
        )
    } else {
        StepView::Act(TaskView::ReadStart { path, limit: READ_LIMIT })
    }
}

fn after_locate(
    raw: &str,
    path: String,
    real_path: &Option<Vec<u8>>,
    real_cwd: &Option<Vec<u8>>,
) -> (r: ToolStep)
    ensures
        r@ == located(
            raw@,
            path@,
            crate::task::opt_bytes(*real_path),
            crate::task::opt_bytes(*real_cwd),
        ),
{
    if let (Some(p), Some(c)) = (real_path, real_cwd) {
        if !is_within(p.as_slice(), c.as_slice()) {
            let mut words = cat("path '", raw);
            words.append(
                "' resolves outside the working directory; use an absolute path to access it",
            );
            return refuse(words.as_str());
        }
    }
    ToolStep::Act(ToolTask::ReadStart { path, limit: READ_LIMIT })
}

/// What a file looks like in which the first occurrence of a text was replaced.
pub open spec fn patched(
    content: Seq<char>,
    old_text: Seq<char>,
    new_text: Seq<char>,
) -> Seq<char> {
    choose|after: Seq<char>| first_replaced(content, old_text, new_text, after)
}

/// What follows when the file is read in which a text is to be replaced.
pub open spec fn read_to_patch(
    path: Seq<char>,
    old_text: Seq<char>,
    new_text: Seq<char>,
    content: Option<Seq<char>>,
) -> StepView {
    match content {
        None => refused("read "@ + path),
        Some(before) => if contained(before, old_text) {
            StepView::Act(
                TaskView::WritePatched { path, content: patched(before, old_text, new_text) },
            )
        } else {
            refused("old_text not found in "@ + path)
        },
    }
}

/// There is one first occurrence, and so one text that has it replaced.
pub proof fn law_patched_unique(
    before: Seq<char>,
    old_text: Seq<char>,
    new_text: Seq<char>,
    after: Seq<char>,
)
    requires
        first_replaced(before, old_text, new_text, after),
    ensures
        patched(before, old_text, new_text) == after,
        contained(before, old_text),
{
    let other = patched(before, old_text, new_text);
    assert(first_replaced(before, old_text, new_text, other));
    let i = choose|i: int|
        {
            &&& #[trigger] crate::text::found_at(before, old_text, i)
            &&& forall|j: int| 0 <= j < i ==> !crate::text::found_at(before, old_text, j)
            &&& after == before.take(i) + new_text + before.skip(i + old_text.len())
        };
    let k = choose|k: int|
        {
            &&& #[trigger] crate::text::found_at(before, old_text, k)
            &&& forall|j: int| 0 <= j < k ==> !crate::text::found_at(before, old_text, j)
            &&& other == before.take(k) + new_text + before.skip(k + old_text.len())
        };
    assert(i == k);
}

fn after_read_to_patch(path: String, old_text: &str, new_text: &str, content: Option<String>) -> (r:
    ToolStep)
    ensures
        r@ == read_to_patch(path@, old_text@, new_text@, opt_string(content)),
{
    match content {
        None => refuse_with("read ", path.as_str()),
        Some(before) => match replace_first(before.as_str(), old_text, new_text) {
            Some(after) => {
                proof {
                    law_patched_unique(before@, old_text@, new_text@, after@);
                }
                ToolStep::Act(ToolTask::WritePatched { path, content: after })
            },
            None => refuse_with("old_text not found in ", path.as_str()),
        },
    }
}

/// What follows when a program has run.
pub open spec fn ran(
    program: Seq<char>,
    purpose: PurposeView,
    output: Option<crate::report::OutputView>,
) -> StepView {
    match purpose {
        PurposeView::Command => match output {
            None => refused("shell exec failed ("@ + program + ")"@),
            Some(o) => concluded(command_report(o)),
        },
        PurposeView::FetchScript => match output {
            None => refused("web_fetch_script exec failed"@),
            Some(o) => if o.success {
                concluded(lossy_text(o.stdout))
            } else {
                refused("fetch script failed: "@ + lossy_text(o.stderr))
            },
        },
        PurposeView::Probe {
            pattern,
            path,
            glob,
            context_lines,
            case_insensitive,
            max_results,
        } => StepView::Act(
            TaskView::Run {
                program: if output is Some {
                    "rg"@
                } else {
                    "grep"@
                },
                args: if output is Some {
                    crate::report::ripgrep_args(
                        pattern,
                        path,
                        glob,
                        context_lines,
                        case_insensitive,
                    )
                } else {
                    crate::report::grep_args(pattern, path, glob, context_lines, case_insensitive)
                },
                workdir: None,
                purpose: PurposeView::Search { max_results },
            },
        ),
        PurposeView::Search { max_results } => match output {
            None => refused("grep_search exec failed"@),
            Some(o) => concluded(search_report(o, max_results)),
        },
    }
}

/// The working directory when a program has run.
pub open spec fn cwd_after_run(
    cwd: Seq<char>,
    purpose: PurposeView,
    output: Option<crate::report::OutputView>,
) -> Seq<char> {
    if purpose is Command && output is Some {
        directory_after(cwd, lossy_text(output->0.stdout))
    } else {
        cwd
    }
}

fn after_run(
    program: &str,
    purpose: Purpose,
    output: Option<ProcessOutput>,
    cwd: &mut String,
) -> (r: ToolStep)
    ensures
        ({
            let o = match output {
                Some(out) => Some(out@),
                None => None,
            };
            &&& r@ == ran(program@, purpose@, o)
            &&& final(cwd)@ == cwd_after_run(old(cwd)@, purpose@, o)
        }),
{
    match purpose {
        Purpose::Command => match output {
            None => {
                let mut words = cat("shell exec failed (", program);
                words.append(")");
                refuse(words.as_str())
            },
            Some(o) => conclude(report_command(&o, cwd)),
        },
        Purpose::FetchScript => match output {
            None => refuse("web_fetch_script exec failed"),
            Some(o) => if o.success {
                conclude(text_of_bytes(o.stdout.as_slice()))
            } else {
                refuse_with("fetch script failed: ", text_of_bytes(o.stderr.as_slice()).as_str())
            },
        },
        Purpose::Probe { pattern, path, glob, context_lines, case_insensitive, max_results } => {
            let ripgrep = output.is_some();
            let args = search_args(
                ripgrep,
                pattern.as_str(),
                path.as_str(),
                as_text(&glob),
                context_lines,
                case_insensitive,
            );
            let program = if ripgrep {
                "rg"
            } else {
                "grep"
            };
            ToolStep::Act(
                ToolTask::Run {
                    program: program.to_string(),
                    args,
                    workdir: None,
                    purpose: Purpose::Search { max_results },
                },
            )
        },
        Purpose::Search { max_results } => match output {
            None => refuse("grep_search exec failed"),
            Some(o) => conclude(report_search(&o, max_results)),
        },
    }
}

/// What follows when a background process was looked at: it is waited for only where that is asked
/// for and it still runs.
pub open spec fn polled(
    pid: u32,
    timeout_secs: u64,
    look: Option<crate::task::LookView>,
) -> StepView {
    match look {
        None => refused("no background process with pid "@ + decimal(pid as nat)),
        Some(l) => match l.state {
            ProcessState::Ended(code) => StepView::Act(
                TaskView::Collect { pid, code, output: l.output },
            ),
            ProcessState::Running => if timeout_secs == 0 {
                concluded(process_report(pid, None, l.output))
            } else {
                StepView::Act(TaskView::Wait { pid, timeout_secs, output: l.output })
            },
        },
    }
}

/// What follows a wait for a background process.
pub open spec fn waited(
    pid: u32,
    timeout_secs: u64,
    output: Seq<char>,
    seen: WaitOutcome,
) -> StepView {
    match seen {
        WaitOutcome::Seen(ProcessState::Ended(code)) => StepView::Act(
            TaskView::Collect { pid, code, output },
        ),
        WaitOutcome::Seen(ProcessState::Running) => StepView::Act(
            TaskView::Wait { pid, timeout_secs, output },
        ),
        WaitOutcome::Expired => concluded(process_report(pid, None, output)),
        WaitOutcome::Gone => concluded(process_report(pid, None, output)),
    }
}

/// What follows an event. An event that does not answer what was asked for changes nothing: the
/// same is asked for again.
pub open spec fn proceeded(task: TaskView, event: EventView) -> StepView {
    match (task, event) {
        (TaskView::Locate { raw, path, .. }, EventView::Canonical { path: p, cwd: c }) => located(
            raw,
            path,
            p,
            c,
        ),
        (TaskView::ReadStart { path, .. }, EventView::Bytes(bytes)) => match bytes {
            Some(b) => concluded(lossy_text(b)),
            None => refused("read "@ + path),
        },
        (TaskView::List { path }, EventView::Entries(entries)) => match entries {
            Some(list) => concluded(listed(list)),
            None => refused("list "@ + path),
        },
        (TaskView::MakeParents { path, content }, EventView::Made(trouble)) => match trouble {
            Some(words) => refused(words),
            None => StepView::Act(TaskView::Write { path, content }),
        },
        (TaskView::Write { path, content }, EventView::Did(done)) => if done {
            concluded(
                "Written "@ + decimal(encode_utf8(content).len()) + " bytes to "@ + path,
            )
        } else {
            refused("write "@ + path)
        },
        (
            TaskView::ReadToPatch { path, old_text, new_text },
            EventView::Text(content),
        ) => read_to_patch(path, old_text, new_text, content),
        (TaskView::WritePatched { path, .. }, EventView::Did(done)) => if done {
            concluded("Patched "@ + path + " (replaced 1 occurrence)"@)
        } else {
            refused("write "@ + path)
        },
        (TaskView::MakeDirs { path }, EventView::Did(done)) => if done {
            concluded("Created "@ + path)
        } else {
            refused("mkdir "@ + path)
        },
        (TaskView::LookAt { path }, EventView::IsDir(directory)) => StepView::Act(
            TaskView::Remove { path, directory },
        ),
        (TaskView::Remove { path, directory }, EventView::Did(done)) => if done {
            concluded("Deleted "@ + path)
        } else if directory {
            refused("rmdir "@ + path)
        } else {
            refused("rm "@ + path)
        },
        (TaskView::Run { program, purpose, .. }, EventView::Ran(output)) => ran(
            program,
            purpose,
            output,
        ),
        (TaskView::Spawn { command, .. }, EventView::Spawned(pid)) => match pid {
            Some(p) => concluded(
                "Background process started (pid "@ + decimal(p as nat)
                    + "). Use shell_poll to check status."@,
            ),
            None => refused("failed to spawn background command: "@ + command),
        },
        (TaskView::Poll { pid, timeout_secs }, EventView::Polled(look)) => polled(
            pid,
            timeout_secs,
            look,
        ),
        (TaskView::Wait { pid, timeout_secs, output }, EventView::Waited(seen)) => waited(
            pid,
            timeout_secs,
            output,
            seen,
        ),
        (TaskView::Collect { pid, code, output }, EventView::Text(text)) => concluded(
            process_report(
                pid,
                Some(code),
                match text {
                    Some(t) => t,
                    None => output,
                },
            ),
        ),
        (TaskView::Send { state, .. }, EventView::Replied(reply)) => web_step(
            resumed(state, reply),
        ),
        (TaskView::ReadMemory { .. }, EventView::Text(text)) => match text {
            Some(t) => concluded(t),
            None => concluded("(no memories yet)"@),
        },
        (TaskView::Save { content }, EventView::Saved(path)) => StepView::Done(
            Ok(shortened(content, path)),
        ),
        _ => StepView::Act(task),
    }
}

/// The working directory after an event: a command that has run may have changed it.
pub open spec fn cwd_after(cwd: Seq<char>, task: TaskView, event: EventView) -> Seq<char> {
    match (task, event) {
        (TaskView::Run { purpose, .. }, EventView::Ran(output)) => cwd_after_run(
            cwd,
            purpose,
            output,
        ),
        _ => cwd,
    }
}

fn after_poll(pid: u32, timeout_secs: u64, look: Option<crate::task::ProcessLook>) -> (r: ToolStep)
    ensures
        r@ == polled(
            pid,
            timeout_secs,
            match look {
                Some(l) => Some(l@),
                None => None,
            },
        ),
{
    match look {
        None => refuse_with(
            "no background process with pid ",
            decimal_text(pid as u64).as_str(),
        ),
        Some(l) => match l.state {
            ProcessState::Ended(code) => ToolStep::Act(
                ToolTask::Collect { pid, code, output: l.output },
            ),
            ProcessState::Running => if timeout_secs == 0 {
                conclude(report_process(pid, None, l.output.as_str()))
            } else {
                ToolStep::Act(ToolTask::Wait { pid, timeout_secs, output: l.output })
            },
        },
    }
}

fn after_wait(pid: u32, timeout_secs: u64, output: String, seen: WaitOutcome) -> (r: ToolStep)
    ensures
        r@ == waited(pid, timeout_secs, output@, seen),
{
    match seen {
        WaitOutcome::Seen(ProcessState::Ended(code)) => ToolStep::Act(
            ToolTask::Collect { pid, code, output },
        ),
        WaitOutcome::Seen(ProcessState::Running) => ToolStep::Act(
            ToolTask::Wait { pid, timeout_secs, output },
        ),
        WaitOutcome::Expired => conclude(report_process(pid, None, output.as_str())),
        WaitOutcome::Gone => conclude(report_process(pid, None, output.as_str())),
    }
}

/// Goes on with a tool after an event. `cwd` is the agent's current working directory; it follows a
/// command that changes it (e.g. via `cd`).
pub fn proceed(task: ToolTask, event: ToolEvent, cwd: &mut String) -> (r: ToolStep)
    ensures
        r@ == proceeded(task@, event@),
        final(cwd)@ == cwd_after(old(cwd)@, task@, event@),
{
    match (task, event) {
        (
            ToolTask::Locate { raw, path, cwd: _ },
            ToolEvent::Canonical { path: p, cwd: c },
        ) => after_locate(raw.as_str(), path, &p, &c),
        (ToolTask::ReadStart { path, limit: _ }, ToolEvent::Bytes(bytes)) => match bytes {
            Some(b) => conclude(text_of_bytes(b.as_slice())),
            None => refuse_with("read ", path.as_str()),
        },
        (ToolTask::List { path }, ToolEvent::Entries(entries)) => match entries {
            Some(list) => conclude(listing(list.as_slice())),
            None => refuse_with("list ", path.as_str()),
        },
        (ToolTask::MakeParents { path, content }, ToolEvent::Made(trouble)) => match trouble {
            Some(e) => ToolStep::Done(Err(e)),
            None => ToolStep::Act(ToolTask::Write { path, content }),
        },
        (ToolTask::Write { path, content }, ToolEvent::Did(done)) => if done {
            let mut out = cat(
                "Written ",
                decimal_text(byte_length(content.as_str()) as u64).as_str(),
            );
            out.append(" bytes to ");
            out.append(path.as_str());
            conclude(out)
        } else {
            refuse_with("write ", path.as_str())
        },
        (
            ToolTask::ReadToPatch { path, old_text, new_text },
            ToolEvent::Text(content),
        ) => after_read_to_patch(path, old_text.as_str(), new_text.as_str(), content),
        (ToolTask::WritePatched { path, content: _ }, ToolEvent::Did(done)) => if done {
            let mut out = cat("Patched ", path.as_str());
            out.append(" (replaced 1 occurrence)");
            conclude(out)
        } else {
            refuse_with("write ", path.as_str())
        },
        (ToolTask::MakeDirs { path }, ToolEvent::Did(done)) => if done {
            conclude(cat("Created ", path.as_str()))
        } else {
            refuse_with("mkdir ", path.as_str())
        },
        (ToolTask::LookAt { path }, ToolEvent::IsDir(directory)) => ToolStep::Act(
            ToolTask::Remove { path, directory },
        ),
        (ToolTask::Remove { path, directory }, ToolEvent::Did(done)) => if done {
            conclude(cat("Deleted ", path.as_str()))
        } else if directory {
            refuse_with("rmdir ", path.as_str())
        } else {
            refuse_with("rm ", path.as_str())
        },
        (
            ToolTask::Run { program, args: _, workdir: _, purpose },
            ToolEvent::Ran(output),
        ) => after_run(program.as_str(), purpose, output, cwd),
        (
            ToolTask::Spawn { program: _, args: _, cwd: _, command },
            ToolEvent::Spawned(pid),
        ) => match pid {
            Some(p) => {
                let mut out = cat(
                    "Background process started (pid ",
                    decimal_text(p as u64).as_str(),
                );
                out.append("). Use shell_poll to check status.");
                conclude(out)
            },
            None => refuse_with("failed to spawn background command: ", command.as_str()),
        },
        (ToolTask::Poll { pid, timeout_secs }, ToolEvent::Polled(look)) => after_poll(
            pid,
            timeout_secs,
            look,
        ),
        (ToolTask::Wait { pid, timeout_secs, output }, ToolEvent::Waited(seen)) => after_wait(
            pid,
            timeout_secs,
            output,
            seen,
        ),
        (ToolTask::Collect { pid, code, output }, ToolEvent::Text(text)) => match text {
            Some(t) => conclude(report_process(pid, Some(code), t.as_str())),
            None => conclude(report_process(pid, Some(code), output.as_str())),
        },
        (ToolTask::Send { call: _, state }, ToolEvent::Replied(reply)) => take_web_step(
            resume(&state, &reply),
        ),
        (ToolTask::ReadMemory { path: _ }, ToolEvent::Text(text)) => match text {
            Some(t) => conclude(t),
            None => conclude("(no memories yet)".to_string()),
        },
        (ToolTask::Save { content }, ToolEvent::Saved(path)) => ToolStep::Done(
            Ok(shorten(content.as_str(), as_text(&path))),
        ),
        (task, _) => ToolStep::Act(task),
    }
}

// ---- Laws --------------------------------------------------------------------------------------

/// The names of the tools.
pub open spec fn is_tool(name: Seq<char>) -> bool {
    name == "fs_read"@ || name == "fs_list"@ || name == "fs_write"@ || name == "fs_patch"@ || name
        == "fs_mkdir"@ || name == "fs_delete"@ || name == "shell_exec"@ || name == "shell_bg"@
        || name == "shell_poll"@ || name == "pwd"@ || name == "web_fetch"@ || name == "web_search"@
        || name == "read_url"@ || name == "grep_search"@ || name == "memory_read"@ || name
        == "http_request"@
}

/// Words with which no unknown tool is refused.
spec fn other_words(words: Seq<char>) -> bool {
    !(words.len() > 8 && words[0] == 'u' && words[1] == 'n' && words[2] == 'k' && words[8] == 't')
}

proof fn lemma_refusals_differ(t: Seq<char>)
    ensures
        !other_words("unknown tool: "@ + t),
        other_words("unknown web_search provider: "@ + t),
        other_words("unsupported HTTP method: "@ + t),
        other_words("missing path"@),
        other_words("missing content"@),
        other_words("missing old_text"@),
        other_words("missing new_text"@),
        other_words("missing command"@),
        other_words("missing pid"@),
        other_words("missing url"@),
        other_words("missing query"@),
        other_words("missing method"@),
        other_words("missing pattern"@),
        other_words("HOME not set"@),
        other_words("url must start with http:// or https://"@),
        other_words("web_search provider not configured"@),
        other_words("web_search api key missing"@),
{
    reveal_strlit("unknown tool: ");
    reveal_strlit("unknown web_search provider: ");
    reveal_strlit("unsupported HTTP method: ");
    assert("unknown tool: "@[0] == 'u' && "unknown tool: "@[1] == 'n' && "unknown tool: "@[2] == 'k'
        && "unknown tool: "@[8] == 't');
    assert("unknown web_search provider: "@[8] == 'w');
    assert("unsupported HTTP method: "@[2] == 's');
    reveal_strlit("missing path");
    reveal_strlit("missing content");
    reveal_strlit("missing old_text");
    reveal_strlit("missing new_text");
    reveal_strlit("missing command");
    reveal_strlit("missing pid");
    reveal_strlit("missing url");
    reveal_strlit("missing query");
    reveal_strlit("missing method");
    reveal_strlit("missing pattern");
    reveal_strlit("HOME not set");
    reveal_strlit("url must start with http:// or https://");
    reveal_strlit("web_search provider not configured");
    reveal_strlit("web_search api key missing");
    assert("missing path"@[0] == 'm');
    assert("missing content"@[0] == 'm');
    assert("missing old_text"@[0] == 'm');
    assert("missing new_text"@[0] == 'm');
    assert("missing command"@[0] == 'm');
    assert("missing pid"@[0] == 'm');
    assert("missing url"@[0] == 'm');
    assert("missing query"@[0] == 'm');
    assert("missing method"@[0] == 'm');
    assert("missing pattern"@[0] == 'm');
    assert("HOME not set"@[0] == 'H');
    assert("url must start with http:// or https://"@[0] == 'u' && "url must start with http:// or https://"@[1] == 'r');
    assert("web_search provider not configured"@[0] == 'w');
    assert("web_search api key missing"@[0] == 'w');
}

/// A tool is refused as unknown exactly when nobody knows it, and then nothing is done.
pub proof fn law_unknown_tool_is_refused(
    name: Seq<char>,
    args: JsonView,
    cwd: Seq<char>,
    env: EnvView,
    config: ConfigView,
)
    ensures
        !is_tool(name) <==> started(name, args, cwd, env, config) == refused(
            "unknown tool: "@ + name,
        ),
{
    lemma_refusals_differ(name);
    if let Some(provider) = config.web_search_provider {
        lemma_refusals_differ(provider);
    }
    if let Some(method) = args.field("method"@).text() {
        lemma_refusals_differ(method);
    }
    if is_tool(name) {
        if let StepView::Done(Err(words)) = started(name, args, cwd, env, config) {
            assert(other_words(words));
        }
    }
}

/// A relative path is read only after it was looked up where it really is, and then only within
/// the working directory, wherever both could be found out.
pub proof fn law_relative_paths_stay_inside(
    args: JsonView,
    cwd: Seq<char>,
    env: EnvView,
    raw: Seq<char>,
    path: Seq<char>,
    real_path: Seq<u8>,
    real_cwd: Seq<u8>,
)
    requires
        args.field("path"@) == JsonView::Text(raw),
        confined(raw),
    ensures
        fs_read_started(args, cwd, env) is Act ==> (fs_read_started(args, cwd, env)->Act_0
            matches TaskView::Locate { raw: r, cwd: c, .. } && r == raw && c == cwd),
        proceeded(
            TaskView::Locate { raw, path, cwd },
            EventView::Canonical { path: Some(real_path), cwd: Some(real_cwd) },
        ) is Act <==> within(real_path, real_cwd),
{
}

/// A result in full takes at most as many bytes as the limit; a longer one is saved, and its
/// beginning stands for it.
pub proof fn law_results_are_short(
    name: Seq<char>,
    args: JsonView,
    cwd: Seq<char>,
    env: EnvView,
    config: ConfigView,
    task: TaskView,
    event: EventView,
)
    ensures
        started(name, args, cwd, env, config) matches StepView::Done(Ok(text)) ==> encode_utf8(
            text,
        ).len() <= MAX_RESULT_BYTES,
        proceeded(task, event) matches StepView::Done(Ok(text)) ==> encode_utf8(text).len()
            <= MAX_RESULT_BYTES || (task matches TaskView::Save { content } && exists|
            path: Option<Seq<char>>,
        | #[trigger]
            shortened(content, path) == text),
{
    if let StepView::Done(Ok(text)) = proceeded(task, event) {
        if let TaskView::Save { content } = task {
            assert(shortened(content, event->Saved_0) == text);
        }
    }
}

/// The event answers what was asked for.
pub open spec fn answers(task: TaskView, event: EventView) -> bool {
    match task {
        TaskView::Locate { .. } => event is Canonical,
        TaskView::ReadStart { .. } => event is Bytes,
        TaskView::List { .. } => event is Entries,
        TaskView::MakeParents { .. } => event is Made,
        TaskView::Write { .. } => event is Did,
        TaskView::ReadToPatch { .. } => event is Text,
        TaskView::WritePatched { .. } => event is Did,
        TaskView::MakeDirs { .. } => event is Did,
        TaskView::LookAt { .. } => event is IsDir,
        TaskView::Remove { .. } => event is Did,
        TaskView::Run { .. } => event is Ran,
        TaskView::Spawn { .. } => event is Spawned,
        TaskView::Poll { .. } => event is Polled,
        TaskView::Wait { .. } => event is Waited,
        TaskView::Collect { .. } => event is Text,
        TaskView::Send { .. } => event is Replied,
        TaskView::ReadMemory { .. } => event is Text,
        TaskView::Save { .. } => event is Saved,
    }
}

/// How many answers a tool can still ask for, waiting apart.
pub open spec fn answers_left(task: TaskView) -> nat {
    match task {
        TaskView::Locate { .. } => 3,
        TaskView::ReadStart { .. } => 2,
        TaskView::List { .. } => 2,
        TaskView::MakeParents { .. } => 3,
        TaskView::Write { .. } => 2,
        TaskView::ReadToPatch { .. } => 3,
        TaskView::WritePatched { .. } => 2,
        TaskView::MakeDirs { .. } => 2,
        TaskView::LookAt { .. } => 3,
        TaskView::Remove { .. } => 2,
        TaskView::Run { purpose, .. } => if purpose is Probe {
            3
        } else {
            2
        },
        TaskView::Spawn { .. } => 2,
        TaskView::Poll { .. } => 4,
        TaskView::Wait { .. } => 3,
        TaskView::Collect { .. } => 2,
        TaskView::Send { state, .. } => crate::course::replies_left(state) + 1,
        TaskView::ReadMemory { .. } => 2,
        TaskView::Save { .. } => 1,
    }
}

/// Every tool ends: each answer leaves it fewer answers to ask for, unless it waits for a process
/// that was seen running.
pub proof fn law_tools_end(task: TaskView, event: EventView)
    requires
        answers(task, event),
    ensures
        answers_left(task) <= 5,
        proceeded(task, event) is Act ==> {
            ||| answers_left(proceeded(task, event)->Act_0) < answers_left(task)
            ||| task is Wait && event == EventView::Waited(WaitOutcome::Seen(ProcessState::Running))
                && proceeded(task, event)->Act_0 == task
        },
        answers_left(task) == 1 ==> proceeded(task, event) is Done,
{
    if let (TaskView::Send { state, .. }, EventView::Replied(reply)) = (task, event) {
        crate::course::law_courses_end(state, reply);
    }
}

/// An event that does not answer what was asked for changes nothing.
pub proof fn law_wrong_events_change_nothing(task: TaskView, event: EventView, cwd: Seq<char>)
    requires
        !answers(task, event),
    ensures
        proceeded(task, event) == StepView::Act(task),
        cwd_after(cwd, task, event) == cwd,
{
}

/// A text is replaced only in a file that holds it, exactly once, and the rest of the file stays
/// what it was.
pub proof fn law_patch_replaces_first(
    path: Seq<char>,
    old_text: Seq<char>,
    new_text: Seq<char>,
    content: Seq<char>,
)
    ensures
        contained(content, old_text) <==> proceeded(
            TaskView::ReadToPatch { path, old_text, new_text },
            EventView::Text(Some(content)),
        ) is Act,
        contained(content, old_text) ==> {
            &&& first_replaced(content, old_text, new_text, patched(content, old_text, new_text))
            &&& proceeded(
                TaskView::ReadToPatch { path, old_text, new_text },
                EventView::Text(Some(content)),
            ) == StepView::Act(
                TaskView::WritePatched { path, content: patched(content, old_text, new_text) },
            )
        },
{
    if contained(content, old_text) {
        let i = choose|i: int| crate::text::found_at(content, old_text, i);
        let first = first_found(content, old_text, i);
        assert(first_replaced(
            content,
            old_text,
            new_text,
            content.take(first) + new_text + content.skip(first + old_text.len()),
        ));
    }
}

proof fn first_found(s: Seq<char>, pattern: Seq<char>, i: int) -> (first: int)
    requires
        crate::text::found_at(s, pattern, i),
    ensures
        crate::text::found_at(s, pattern, first),
        forall|j: int| 0 <= j < first ==> !crate::text::found_at(s, pattern, j),
    decreases i,
{
    if exists|j: int| 0 <= j < i && crate::text::found_at(s, pattern, j) {
        let j = choose|j: int| 0 <= j < i && crate::text::found_at(s, pattern, j);
        first_found(s, pattern, j)
    } else {
        i
    }
}

/// Nothing but a command of the model moves the working directory, and only to where its output
/// says that it left off.
pub proof fn law_only_commands_move(cwd: Seq<char>, task: TaskView, event: EventView)
    requires
        cwd_after(cwd, task, event) != cwd,
    ensures
        task matches TaskView::Run { purpose: PurposeView::Command, .. } && event
            matches EventView::Ran(Some(output)) && cwd_after(cwd, task, event)
            == crate::report::told_directory(lossy_text(output.stdout)),
{
}

/// What is not an address on the web is neither fetched nor read nor requested, and a plain request
/// goes to exactly the address that was given.
pub proof fn law_only_web_addresses(args: JsonView, config: ConfigView, url: Seq<char>)
    requires
        args.field("url"@) == JsonView::Text(url),
    ensures
        !is_web_address(url) ==> web_fetch_started(args, config) is Done && read_url_started(
            args,
            config,
        ) is Done && http_request_started(args) is Done,
        http_request_started(args) matches StepView::Act(task) ==> (task matches TaskView::Send {
            call,
            ..
        } ==> call.url == url),
{
}

/// A result comes back whole where it takes no more than the limit of bytes; otherwise the whole of
/// it is saved. A refusal comes back in its words.
pub proof fn law_results_come_back_whole(text: Seq<char>)
    ensures
        encode_utf8(text).len() <= 8000 ==> concluded(text) == StepView::Done(Ok(text)),
        encode_utf8(text).len() > 8000 ==> concluded(text) == StepView::Act(
            TaskView::Save { content: text },
        ),
        refused(text) == StepView::Done(Err(text)),
        web_step(WebStepView::Done(Ok(text))) == concluded(text),
        web_step(WebStepView::Done(Err(text))) == refused(text),
{
}

/// What a course of requests asks for is sent as it is.
pub proof fn law_requests_are_sent(call: crate::http::HttpCallView, state: crate::web::WebStateView)
    ensures
        web_step(WebStepView::Send(call, state)) == StepView::Act(TaskView::Send { call, state }),
{
}

proof fn lemma_tools_have_names(
    args: JsonView,
    cwd: Seq<char>,
    env: EnvView,
    config: ConfigView,
)
    ensures
        started("fs_read"@, args, cwd, env, config) == fs_read_started(args, cwd, env),
        started("fs_list"@, args, cwd, env, config) == fs_list_started(args, cwd, env),
        started("fs_write"@, args, cwd, env, config) == fs_write_started(args, cwd, env),
        started("fs_patch"@, args, cwd, env, config) == fs_patch_started(args, cwd, env),
        started("fs_mkdir"@, args, cwd, env, config) == fs_mkdir_started(args, cwd, env),
        started("fs_delete"@, args, cwd, env, config) == fs_delete_started(args, cwd, env),
        started("shell_exec"@, args, cwd, env, config) == shell_exec_started(args, cwd, env),
        started("shell_bg"@, args, cwd, env, config) == shell_bg_started(args, cwd, env),
        started("shell_poll"@, args, cwd, env, config) == shell_poll_started(args),
        started("web_fetch"@, args, cwd, env, config) == web_fetch_started(args, config),
        started("web_search"@, args, cwd, env, config) == web_search_started(args, config),
        started("read_url"@, args, cwd, env, config) == read_url_started(args, config),
        started("grep_search"@, args, cwd, env, config) == grep_search_started(args, cwd, env),
        started("http_request"@, args, cwd, env, config) == http_request_started(args),
        started("pwd"@, args, cwd, env, config) == concluded(cwd),
        started("memory_read"@, args, cwd, env, config) == StepView::Act(
            TaskView::ReadMemory {
                path: joined_path(config_dir(env.home), "ai_chat_memory.md"@),
            },
        ),
{
    reveal_strlit("fs_list");
    reveal_strlit("fs_read");
    reveal_strlit("fs_write");
    reveal_strlit("fs_patch");
    reveal_strlit("fs_mkdir");
    reveal_strlit("fs_delete");
    reveal_strlit("shell_exec");
    reveal_strlit("shell_bg");
    reveal_strlit("shell_poll");
    reveal_strlit("pwd");
    reveal_strlit("web_fetch");
    reveal_strlit("web_search");
    reveal_strlit("read_url");
    reveal_strlit("grep_search");
    reveal_strlit("memory_read");
    reveal_strlit("http_request");
    assert("fs_list"@[3] == 'l');
    assert("fs_read"@[3] == 'r');
    assert("fs_write"@.len() == 8);
    assert("fs_read"@.len() == 7);
    assert("fs_list"@.len() == 7);
    assert("fs_patch"@.len() == 8);
    assert("fs_patch"@[3] == 'p');
    assert("fs_write"@[3] == 'w');
    assert("fs_mkdir"@.len() == 8);
    assert("fs_mkdir"@[3] == 'm');
    assert("fs_delete"@.len() == 9);
    assert("shell_exec"@.len() == 10);
    assert("shell_bg"@.len() == 8);
    assert("shell_bg"@[0] == 's');
    assert("fs_write"@[0] == 'f');
    assert("fs_patch"@[0] == 'f');
    assert("fs_mkdir"@[0] == 'f');
    assert("shell_poll"@.len() == 10);
    assert("shell_poll"@[6] == 'p');
    assert("shell_exec"@[6] == 'e');
    assert("pwd"@.len() == 3);
    assert("web_fetch"@.len() == 9);
    assert("web_fetch"@[0] == 'w');
    assert("fs_delete"@[0] == 'f');
    assert("web_search"@.len() == 10);
    assert("web_search"@[0] == 'w');
    assert("shell_exec"@[0] == 's');
    assert("shell_poll"@[0] == 's');
    assert("read_url"@.len() == 8);
    assert("read_url"@[0] == 'r');
    assert("grep_search"@.len() == 11);
    assert("memory_read"@.len() == 11);
    assert("memory_read"@[0] == 'm');
    assert("grep_search"@[0] == 'g');
    assert("http_request"@.len() == 12);
}

/// A command of the model runs in the directory that its `cwd` argument names, and without that
/// argument in the agent's own. It is run by the user's shell, or by bash where none is known: in
/// the foreground as it stands, with what tells the directory behind it, and in the background as
/// it stands.
pub proof fn law_commands_run_where_told(
    args: JsonView,
    cwd: Seq<char>,
    env: EnvView,
    config: ConfigView,
    command: Seq<char>,
    p: Seq<char>,
    q: Seq<char>,
)
    requires
        args.field("command"@) == JsonView::Text(command),
        (args.field("cwd"@) == JsonView::Text(p) && resolved(p, cwd, env.home) == Ok::<
            Seq<char>,
            crate::paths::PathError,
        >(q)) || (!(args.field("cwd"@) is Text) && q == cwd),
    ensures
        started("shell_exec"@, args, cwd, env, config) matches StepView::Act(
            TaskView::Run { program, args: list, workdir, purpose },
        ) && workdir == Some(q) && purpose is Command && list.len() == 3 && list[0] == "-l"@
            && list[1] == "-c"@ && command.is_prefix_of(list[2]) && (match env.shell {
            Some(s) => program == s,
            None => program == "/bin/bash"@,
        }),
        started("shell_bg"@, args, cwd, env, config) matches StepView::Act(
            TaskView::Spawn { program, args: list, cwd: dir, command: told },
        ) && dir == q && told == command && list.len() == 3 && list[0] == "-l"@ && list[1] == "-c"@
            && list[2] == command && (match env.shell {
            Some(s) => program == s,
            None => program == "/bin/bash"@,
        }),
{
    lemma_tools_have_names(args, cwd, env, config);
    let script = tracked_script(command);
    assert(script.subrange(0, command.len() as int) == command);
}

/// A command without words, and one whose directory is below an unknown home, is refused.
pub proof fn law_commands_need_words_and_a_place(
    args: JsonView,
    cwd: Seq<char>,
    env: EnvView,
    config: ConfigView,
    p: Seq<char>,
)
    ensures
        !(args.field("command"@) is Text) ==> started("shell_exec"@, args, cwd, env, config)
            == StepView::Done(Err("missing command"@))
                && started("shell_bg"@, args, cwd, env, config)
            == StepView::Done(Err("missing command"@)),
        args.field("command"@) is Text && args.field("cwd"@) == JsonView::Text(p) && resolved(
            p,
            cwd,
            env.home,
        ) is Err ==> started("shell_exec"@, args, cwd, env, config) == StepView::Done(
            Err("HOME not set"@),
        ) && started("shell_bg"@, args, cwd, env, config) == StepView::Done(Err("HOME not set"@)),
{
    lemma_tools_have_names(args, cwd, env, config);
}

/// Every tool on files works on the place that its path means, seen from the working directory and
/// the home directory, and takes its texts whole.
pub proof fn law_files_are_where_the_path_says(
    args: JsonView,
    cwd: Seq<char>,
    env: EnvView,
    config: ConfigView,
    p: Seq<char>,
    q: Seq<char>,
    content: Seq<char>,
    old_text: Seq<char>,
    new_text: Seq<char>,
)
    requires
        args.field("path"@) == JsonView::Text(p),
        resolved(p, cwd, env.home) == Ok::<Seq<char>, crate::paths::PathError>(q),
    ensures
        started("fs_list"@, args, cwd, env, config) == StepView::Act(TaskView::List { path: q }),
        started("fs_mkdir"@, args, cwd, env, config) == StepView::Act(
            TaskView::MakeDirs { path: q },
        ),
        started("fs_delete"@, args, cwd, env, config) == StepView::Act(
            TaskView::LookAt { path: q },
        ),
        args.field("content"@) == JsonView::Text(content) ==> started(
            "fs_write"@,
            args,
            cwd,
            env,
            config,
        ) == StepView::Act(TaskView::MakeParents { path: q, content }),
        args.field("old_text"@) == JsonView::Text(old_text) && args.field("new_text"@)
            == JsonView::Text(new_text) ==> started("fs_patch"@, args, cwd, env, config)
            == StepView::Act(TaskView::ReadToPatch { path: q, old_text, new_text }),
        p.len() > 0 && (p[0] == '/' || (p.len() > 1 && p[0] == '~' && p[1] == '/')) ==> (started(
            "fs_read"@,
            args,
            cwd,
            env,
            config,
        ) matches StepView::Act(TaskView::ReadStart { path, limit }) && path == q && limit == 8512),
        !(p.len() > 0 && (p[0] == '/' || (p.len() > 1 && p[0] == '~' && p[1] == '/'))) ==> started(
            "fs_read"@,
            args,
            cwd,
            env,
            config,
        ) == StepView::Act(TaskView::Locate { raw: p, path: q, cwd }),
{
    lemma_tools_have_names(args, cwd, env, config);
    reveal_strlit("/");
    reveal_strlit("~/");
    assert("/"@.len() == 1 && "/"@[0] == '/');
    assert("~/"@.len() == 2 && "~/"@[0] == '~' && "~/"@[1] == '/');
    if "/"@.is_prefix_of(p) {
        assert(p.subrange(0, 1)[0] == p[0]);
    }
    if "~/"@.is_prefix_of(p) {
        assert(p.subrange(0, 2)[0] == p[0] && p.subrange(0, 2)[1] == p[1]);
    }
    if p.len() > 0 && p[0] == '/' {
        assert(p.subrange(0, 1) == "/"@);
    }
    if p.len() > 1 && p[0] == '~' && p[1] == '/' {
        assert(p.subrange(0, 2) == "~/"@);
    }
}

/// A tool on files without a path, or with one below an unknown home, is refused; so are writing
/// without content, and replacing without the old or the new text.
pub proof fn law_files_need_their_arguments(
    args: JsonView,
    cwd: Seq<char>,
    env: EnvView,
    config: ConfigView,
    name: Seq<char>,
)
    requires
        name == "fs_read"@ || name == "fs_list"@ || name == "fs_write"@ || name == "fs_patch"@
            || name == "fs_mkdir"@ || name == "fs_delete"@,
    ensures
        !(args.field("path"@) is Text) ==> started(name, args, cwd, env, config) == StepView::Done(
            Err("missing path"@),
        ),
        args.field("path"@) matches JsonView::Text(p) ==> (resolved(p, cwd, env.home) is Err
            ==> started(name, args, cwd, env, config) == StepView::Done(Err("HOME not set"@))),
        args.field("path"@) matches JsonView::Text(p) ==> (resolved(p, cwd, env.home) is Ok ==> {
            &&& !(args.field("content"@) is Text) ==> started("fs_write"@, args, cwd, env, config)
                == StepView::Done(Err("missing content"@))
            &&& !(args.field("old_text"@) is Text) ==> started("fs_patch"@, args, cwd, env, config)
                == StepView::Done(Err("missing old_text"@))
            &&& args.field("old_text"@) is Text && !(args.field("new_text"@) is Text) ==> started(
                "fs_patch"@,
                args,
                cwd,
                env,
                config,
            ) == StepView::Done(Err("missing new_text"@))
        }),
{
    lemma_tools_have_names(args, cwd, env, config);
}

/// A file is written where and as the model said, after the directories above it were made; what is
/// told is the number of bytes and the place.
pub proof fn law_writing_writes_what_was_said(path: Seq<char>, content: Seq<char>, words: Seq<char>)
    ensures
        proceeded(TaskView::MakeParents { path, content }, EventView::Made(None)) == StepView::Act(
            TaskView::Write { path, content },
        ),
        proceeded(TaskView::MakeParents { path, content }, EventView::Made(Some(words)))
            == StepView::Done(Err(words)),
        proceeded(TaskView::Write { path, content }, EventView::Did(true)) == concluded(
            "Written "@ + decimal(encode_utf8(content).len()) + " bytes to "@ + path,
        ),
        proceeded(TaskView::Write { path, content }, EventView::Did(false)) == StepView::Done(
            Err("write "@ + path),
        ),
        proceeded(TaskView::WritePatched { path, content }, EventView::Did(true)) == concluded(
            "Patched "@ + path + " (replaced 1 occurrence)"@,
        ),
        proceeded(TaskView::WritePatched { path, content }, EventView::Did(false))
            == StepView::Done(Err("write "@ + path)),
{
}

/// A text is replaced in the file that was read, and written to the same place: what stood before
/// and after its first occurrence stays. A file that cannot be read, or does not hold the text, is
/// not written.
pub proof fn law_patching_keeps_the_rest(
    path: Seq<char>,
    a: Seq<char>,
    old_text: Seq<char>,
    new_text: Seq<char>,
    b: Seq<char>,
    content: Seq<char>,
)
    requires
        forall|j: int| 0 <= j < a.len() ==> !crate::text::found_at(a + old_text + b, old_text, j),
    ensures
        proceeded(
            TaskView::ReadToPatch { path, old_text, new_text },
            EventView::Text(Some(a + old_text + b)),
        ) == StepView::Act(TaskView::WritePatched { path, content: a + new_text + b }),
        proceeded(TaskView::ReadToPatch { path, old_text, new_text }, EventView::Text(None))
            == StepView::Done(Err("read "@ + path)),
        !contained(content, old_text) ==> proceeded(
            TaskView::ReadToPatch { path, old_text, new_text },
            EventView::Text(Some(content)),
        ) == StepView::Done(Err("old_text not found in "@ + path)),
{
    let before = a + old_text + b;
    crate::text::law_contained_in_the_middle(a, old_text, b, before);
    law_patch_replaces_first(path, old_text, new_text, before);
    crate::text::law_replacing_keeps_the_rest(
        a,
        old_text,
        new_text,
        b,
        patched(before, old_text, new_text),
    );
}

/// What was read of a file, a directory or the memory comes back whole, and what could not be read
/// is named.
pub proof fn law_reading_gives_what_is_there(
    raw: Seq<char>,
    path: Seq<char>,
    limit: u64,
    bytes: Seq<u8>,
    entries: Seq<(Seq<char>, bool)>,
    text: Seq<char>,
)
    ensures
        proceeded(TaskView::ReadStart { path, limit }, EventView::Bytes(Some(bytes))) == concluded(
            lossy_text(bytes),
        ),
        proceeded(TaskView::ReadStart { path, limit }, EventView::Bytes(None)) == StepView::Done(
            Err("read "@ + path),
        ),
        proceeded(TaskView::List { path }, EventView::Entries(Some(entries))) == concluded(
            listed(entries),
        ),
        proceeded(TaskView::List { path }, EventView::Entries(None)) == StepView::Done(
            Err("list "@ + path),
        ),
        proceeded(TaskView::ReadMemory { path }, EventView::Text(Some(text))) == concluded(text),
        proceeded(TaskView::ReadMemory { path }, EventView::Text(None)) == concluded(
            "(no memories yet)"@,
        ),
{
}

/// A relative path that stays inside the working directory is read, and so is one of which that
/// could not be found out; one that leads outside is refused.
pub proof fn law_outside_paths_are_refused(
    raw: Seq<char>,
    path: Seq<char>,
    cwd: Seq<char>,
    real_path: Option<Seq<u8>>,
    real_cwd: Option<Seq<u8>>,
)
    ensures
        ({
            let step = proceeded(
                TaskView::Locate { raw, path, cwd },
                EventView::Canonical { path: real_path, cwd: real_cwd },
            );
            let outside = real_path is Some && real_cwd is Some
                && !within(real_path->0, real_cwd->0);
            &&& !outside ==> (step matches StepView::Act(TaskView::ReadStart { path: p, limit })
                && p == path && limit == 8512)
            &&& outside ==> step == StepView::Done(
                Err(
                    "path '"@ + raw
                        + "' resolves outside the working directory; use an absolute path to access it"@,
                ),
            )
        }),
{
}

/// A directory is made and a path is removed where the model said, a directory as one; what is told
/// names the place.
pub proof fn law_making_and_removing(path: Seq<char>, directory: bool)
    ensures
        proceeded(TaskView::MakeDirs { path }, EventView::Did(true))
            == concluded("Created "@ + path),
        proceeded(TaskView::MakeDirs { path }, EventView::Did(false)) == StepView::Done(
            Err("mkdir "@ + path),
        ),
        proceeded(TaskView::LookAt { path }, EventView::IsDir(directory)) == StepView::Act(
            TaskView::Remove { path, directory },
        ),
        proceeded(TaskView::Remove { path, directory }, EventView::Did(true)) == concluded(
            "Deleted "@ + path,
        ),
        proceeded(TaskView::Remove { path, directory: true }, EventView::Did(false))
            == StepView::Done(Err("rmdir "@ + path)),
        proceeded(TaskView::Remove { path, directory: false }, EventView::Did(false))
            == StepView::Done(Err("rm "@ + path)),
{
}

/// The working directory and the memory file are told as they are.
pub proof fn law_where_the_agent_is(
    args: JsonView,
    cwd: Seq<char>,
    env: EnvView,
    config: ConfigView,
    h: Seq<char>,
)
    requires
        h.len() > 0,
        h.last() != '/',
    ensures
        started("pwd"@, args, cwd, env, config) == concluded(cwd),
        env.home == Some(h) ==> started("memory_read"@, args, cwd, env, config) == StepView::Act(
            TaskView::ReadMemory { path: h + "/.config/kaku/ai_chat_memory.md"@ },
        ),
{
    lemma_tools_have_names(args, cwd, env, config);
    crate::paths::law_own_files_are_below_home(h);
}

/// The place that is searched is the path argument seen from the agent's working directory and
/// home, or the working directory itself where there is none. That place, after the pattern, ends
/// the arguments of the search that follows, which ripgrep makes where it is there, and grep
/// otherwise.
pub proof fn law_searches_look_where_told(
    args: JsonView,
    cwd: Seq<char>,
    env: EnvView,
    config: ConfigView,
    pattern: Seq<char>,
    q: Seq<char>,
    output: Option<crate::report::OutputView>,
)
    requires
        args.field("pattern"@) == JsonView::Text(pattern),
        resolved(args.field("path"@).text_or(cwd), cwd, env.home) == Ok::<
            Seq<char>,
            crate::paths::PathError,
        >(q),
    ensures
        started("grep_search"@, args, cwd, env, config) matches StepView::Act(probe) && (probe
            matches TaskView::Run { program, args: list, workdir, purpose } && program == "rg"@
            && list == seq!["--version"@] && workdir is None && purpose is Probe) && (proceeded(
            probe,
            EventView::Ran(output),
        ) matches StepView::Act(TaskView::Run { program, args: list, workdir, purpose }) && program
            == (if output is Some {
            "rg"@
        } else {
            "grep"@
        }) && list.len() >= 2 && list.last() == q && list[list.len() - 2] == pattern && workdir
            is None && (purpose matches PurposeView::Search { max_results } && (match args.field(
            "max_results"@,
        ).unsigned() {
            Some(n) => max_results == n,
            None => max_results == 100,
        }))),
{
    lemma_tools_have_names(args, cwd, env, config);
}

/// What else a search is told: the files to look at, the lines around a match, two where nothing is
/// said, and whether case matters, which it does where nothing is said.
pub proof fn law_searches_pass_on_their_options(
    args: JsonView,
    cwd: Seq<char>,
    env: EnvView,
    config: ConfigView,
    pattern: Seq<char>,
    q: Seq<char>,
)
    requires
        args.field("pattern"@) == JsonView::Text(pattern),
        resolved(args.field("path"@).text_or(cwd), cwd, env.home) == Ok::<
            Seq<char>,
            crate::paths::PathError,
        >(q),
    ensures
        started("grep_search"@, args, cwd, env, config) matches StepView::Act(TaskView::Run {
            purpose: PurposeView::Probe {
                pattern: told,
                path,
                glob,
                context_lines,
                case_insensitive,
                max_results,
            },
            ..
        }) && told == pattern && path == q
            && (args.field("glob"@) matches JsonView::Text(g) ==> glob
            == Some(g)) && (!(args.field("glob"@) is Text) ==> glob is None) && (match args.field(
            "context_lines"@,
        ).unsigned() {
            Some(n) => context_lines == n,
            None => context_lines == 2,
        }) && (case_insensitive <==> args.field("case_insensitive"@) == JsonView::Bool(true)),
{
    lemma_tools_have_names(args, cwd, env, config);
}

/// A search without a pattern, or in a place below an unknown home, is refused.
pub proof fn law_searches_need_a_pattern_and_a_place(
    args: JsonView,
    cwd: Seq<char>,
    env: EnvView,
    config: ConfigView,
)
    ensures
        !(args.field("pattern"@) is Text) ==> started("grep_search"@, args, cwd, env, config)
            == StepView::Done(Err("missing pattern"@)),
        args.field("pattern"@) is Text && resolved(args.field("path"@).text_or(cwd), cwd, env.home)
            is Err ==> started("grep_search"@, args, cwd, env, config) == StepView::Done(
            Err("HOME not set"@),
        ),
{
    lemma_tools_have_names(args, cwd, env, config);
}

/// What a program left is reported by what it was run for, and one that could not be run is named.
pub proof fn law_programs_are_reported(
    program: Seq<char>,
    list: Seq<Seq<char>>,
    workdir: Option<Seq<char>>,
    output: crate::report::OutputView,
    max_results: u64,
    cwd: Seq<char>,
)
    ensures
        ({
            let command = TaskView::Run {
                program,
                args: list,
                workdir,
                purpose: PurposeView::Command,
            };
            let script = TaskView::Run {
                program,
                args: list,
                workdir,
                purpose: PurposeView::FetchScript,
            };
            let search = TaskView::Run {
                program,
                args: list,
                workdir,
                purpose: PurposeView::Search { max_results },
            };
            &&& proceeded(command, EventView::Ran(Some(output))) == concluded(
                command_report(output),
            )
            &&& cwd_after(cwd, command, EventView::Ran(Some(output))) == directory_after(
                cwd,
                lossy_text(output.stdout),
            )
            &&& proceeded(command, EventView::Ran(None)) == StepView::Done(
                Err("shell exec failed ("@ + program + ")"@),
            )
            &&& output.success ==> proceeded(script, EventView::Ran(Some(output))) == concluded(
                lossy_text(output.stdout),
            )
            &&& !output.success ==> proceeded(script, EventView::Ran(Some(output)))
                == StepView::Done(Err("fetch script failed: "@ + lossy_text(output.stderr)))
            &&& proceeded(script, EventView::Ran(None)) == StepView::Done(
                Err("web_fetch_script exec failed"@),
            )
            &&& proceeded(search, EventView::Ran(Some(output))) == concluded(
                search_report(output, max_results),
            )
            &&& proceeded(search, EventView::Ran(None)) == StepView::Done(
                Err("grep_search exec failed"@),
            )
        }),
{
}

/// A background process is named by the id it got, looked at by that id, and waited for only where
/// a time is given and it still runs. Once it has ended its output is collected with its code;
/// where that is gone, what was seen before is told.
pub proof fn law_background_processes(
    args: JsonView,
    cwd: Seq<char>,
    env: EnvView,
    config: ConfigView,
    pid: u32,
    code: Option<i32>,
    output: Seq<char>,
    text: Seq<char>,
    timeout_secs: u64,
    command: Seq<char>,
    program: Seq<char>,
    list: Seq<Seq<char>>,
)
    ensures
        args.field("pid"@).unsigned() == Some(pid as u64) ==> (started(
            "shell_poll"@,
            args,
            cwd,
            env,
            config,
        ) matches StepView::Act(TaskView::Poll { pid: p, timeout_secs: t }) && p == pid
            && (match args.field(
            "timeout_secs"@,
        ).unsigned() {
            Some(n) => t == n,
            None => t == 0,
        })),
        args.field("pid"@).unsigned() is None ==> started("shell_poll"@, args, cwd, env, config)
            == StepView::Done(Err("missing pid"@)),
        ({
            let spawn = TaskView::Spawn { program, args: list, cwd, command };
            &&& proceeded(spawn, EventView::Spawned(Some(pid))) == concluded(
                "Background process started (pid "@ + decimal(pid as nat)
                    + "). Use shell_poll to check status."@,
            )
            &&& proceeded(spawn, EventView::Spawned(None)) == StepView::Done(
                Err("failed to spawn background command: "@ + command),
            )
        }),
        ({
            let poll = TaskView::Poll { pid, timeout_secs };
            let runs = crate::task::LookView { output, state: ProcessState::Running };
            let ended = crate::task::LookView { output, state: ProcessState::Ended(code) };
            &&& proceeded(poll, EventView::Polled(None)) == StepView::Done(
                Err("no background process with pid "@ + decimal(pid as nat)),
            )
            &&& proceeded(poll, EventView::Polled(Some(ended))) == StepView::Act(
                TaskView::Collect { pid, code, output },
            )
            &&& timeout_secs == 0 ==> proceeded(poll, EventView::Polled(Some(runs))) == concluded(
                process_report(pid, None, output),
            )
            &&& timeout_secs > 0 ==> proceeded(poll, EventView::Polled(Some(runs)))
                == StepView::Act(TaskView::Wait { pid, timeout_secs, output })
        }),
        ({
            let wait = TaskView::Wait { pid, timeout_secs, output };
            &&& proceeded(wait, EventView::Waited(WaitOutcome::Seen(ProcessState::Ended(code))))
                == StepView::Act(TaskView::Collect { pid, code, output })
            &&& proceeded(wait, EventView::Waited(WaitOutcome::Seen(ProcessState::Running)))
                == StepView::Act(wait)
            &&& proceeded(wait, EventView::Waited(WaitOutcome::Expired)) == concluded(
                process_report(pid, None, output),
            )
            &&& proceeded(wait, EventView::Waited(WaitOutcome::Gone)) == concluded(
                process_report(pid, None, output),
            )
        }),
        ({
            let collect = TaskView::Collect { pid, code, output };
            &&& proceeded(collect, EventView::Text(Some(text))) == concluded(
                process_report(pid, Some(code), text),
            )
            &&& proceeded(collect, EventView::Text(None)) == concluded(
                process_report(pid, Some(code), output),
            )
        }),
{
    lemma_tools_have_names(args, cwd, env, config);
    assert((pid as u64) % 0x1_0000_0000 == pid as u64);
}

/// An address begins with `http://` or `https://`.
pub proof fn law_addresses_begin_with_http(rest: Seq<char>, url: Seq<char>)
    ensures
        is_web_address("http://"@ + rest),
        is_web_address("https://"@ + rest),
        is_web_address(url) ==> url.len() >= 7 && url[0] == 'h' && url[1] == 't' && url[2] == 't'
            && url[3] == 'p' && (url[4] == ':' || (url[4] == 's' && url[5] == ':')),
{
    reveal_strlit("http://");
    reveal_strlit("https://");
    let a = "http://"@;
    let b = "https://"@;
    assert(a.len() == 7 && b.len() == 8);
    assert((a + rest).subrange(0, 7) == a);
    assert((b + rest).subrange(0, 8) == b);
    if a.is_prefix_of(url) {
        assert forall|i: int| 0 <= i < 7 implies url[i] == a[i] by {
            assert(url.subrange(0, 7)[i] == url[i]);
        }
    }
    if b.is_prefix_of(url) {
        assert forall|i: int| 0 <= i < 8 implies url[i] == b[i] by {
            assert(url.subrange(0, 8)[i] == url[i]);
        }
    }
}

/// A page is fetched from exactly the address that was given: by the user's script where there is
/// one, and by the converters otherwise. What is no address, and no address at all, is refused.
pub proof fn law_pages_are_fetched_as_told(
    args: JsonView,
    cwd: Seq<char>,
    env: EnvView,
    config: ConfigView,
    url: Seq<char>,
)
    ensures
        !(args.field("url"@) is Text) ==> started("web_fetch"@, args, cwd, env, config)
            == StepView::Done(Err("missing url"@)) && started("read_url"@, args, cwd, env, config)
            == StepView::Done(Err("missing url"@)),
        args.field("url"@) == JsonView::Text(url) && !is_web_address(url) ==> started(
            "web_fetch"@,
            args,
            cwd,
            env,
            config,
        ) == StepView::Done(Err("url must start with http:// or https://"@)) && started(
            "read_url"@,
            args,
            cwd,
            env,
            config,
        ) == StepView::Done(Err("url must start with http:// or https://"@)),
        args.field("url"@) == JsonView::Text(url) && is_web_address(url) ==> {
            &&& config.web_fetch_script matches Some(script) ==> started(
                "web_fetch"@,
                args,
                cwd,
                env,
                config,
            ) == StepView::Act(
                TaskView::Run {
                    program: "bash"@,
                    args: seq![script, url],
                    workdir: None,
                    purpose: PurposeView::FetchScript,
                },
            )
            &&& config.web_fetch_script is None ==> (started("web_fetch"@, args, cwd, env, config)
                matches StepView::Act(TaskView::Send { call, state }) && call.url
                == "https://defuddle.md/"@ + url && call.method is Get && state
                == (crate::web::WebStateView::FetchPrimary { url }))
        },
{
    lemma_tools_have_names(args, cwd, env, config);
}

/// A page is read by the reader of the provider that is configured, with its key, and by the
/// converters where the provider has none.
pub proof fn law_pages_are_read_as_configured(
    args: JsonView,
    cwd: Seq<char>,
    env: EnvView,
    config: ConfigView,
    url: Seq<char>,
    key: Seq<char>,
)
    requires
        args.field("url"@) == JsonView::Text(url),
        is_web_address(url),
        config.web_search_api_key == Some(key),
    ensures
        ({
            let step = started("read_url"@, args, cwd, env, config);
            &&& config.web_search_provider == Some("pipellm"@) ==> (step matches StepView::Act(
                TaskView::Send { call, state },
            ) && call.url == "https://api.pipellm.ai/v1/websearch/reader"@ && call.bearer == Some(
                key,
            ) && call.query == seq![("url"@, url)] && call.method is Get)
            &&& config.web_search_provider == Some("tavily"@) ==> (step matches StepView::Act(
                TaskView::Send { call, state },
            ) && call.url == "https://api.tavily.com/extract"@ && call.bearer == Some(key)
                && call.method is Post && call.body is Json && call.body->Json_0.field(
                "urls"@,
            ) == JsonView::Array(seq![JsonView::Text(url)]))
            &&& config.web_search_provider is None || (config.web_search_provider->0 != "pipellm"@
                && config.web_search_provider->0 != "tavily"@) ==> (step matches StepView::Act(
                TaskView::Send { call, state },
            ) && call.url == "https://defuddle.md/"@ + url && call.bearer is None)
        }),
{
    lemma_tools_have_names(args, cwd, env, config);
    reveal_strlit("pipellm");
    reveal_strlit("tavily");
    reveal_strlit("");
    assert("pipellm"@.len() == 7);
    assert("tavily"@.len() == 6);
    assert(""@.len() == 0);
    reveal_strlit("https://api.pipellm.ai");
    reveal_strlit("/v1/websearch/reader");
    reveal_strlit("https://api.pipellm.ai/v1/websearch/reader");
    assert("https://api.pipellm.ai"@ + "/v1/websearch/reader"@
        =~= "https://api.pipellm.ai/v1/websearch/reader"@);
    let body = seq![("urls"@, JsonView::Array(seq![JsonView::Text(url)]))];
    crate::json::law_first_member_counts(body, "urls"@, 0);
}

/// A web search asks the provider that is configured for the words of the query, with its key; what
/// is not configured is refused.
pub proof fn law_searches_ask_the_provider(
    args: JsonView,
    cwd: Seq<char>,
    env: EnvView,
    config: ConfigView,
    query: Seq<char>,
    key: Seq<char>,
)
    ensures
        ({
            let step = started("web_search"@, args, cwd, env, config);
            let ready = args.field("query"@) == JsonView::Text(query) && config.web_search_api_key
                == Some(key);
            &&& !(args.field("query"@) is Text) ==> step == StepView::Done(Err("missing query"@))
            &&& args.field("query"@) is Text && config.web_search_provider is None ==> step
                == StepView::Done(Err("web_search provider not configured"@))
            &&& args.field("query"@) is Text && config.web_search_provider is Some
                && config.web_search_api_key is None ==> step == StepView::Done(
                Err("web_search api key missing"@),
            )
            &&& ready && config.web_search_provider == Some("brave"@) ==> (step
                matches StepView::Act(TaskView::Send { call, state }) && call.query.contains(
                ("q"@, query),
            ) && call.headers.contains(("X-Subscription-Token"@, key)) && (state matches
                crate::web::WebStateView::Brave { news } && news == (args.field("kind"@)
                == JsonView::Text("news"@))))
            &&& ready && config.web_search_provider == Some("pipellm"@) ==> (step
                matches StepView::Act(TaskView::Send { call, state }) && call.query
                == seq![("q"@, query)] && call.bearer == Some(key))
            &&& ready && config.web_search_provider == Some("tavily"@) ==> (step
                matches StepView::Act(TaskView::Send { call, state }) && call.bearer == Some(key)
                && call.body is Json && call.body->Json_0.field("query"@) == JsonView::Text(query))
            &&& ready && (config.web_search_provider matches Some(p) && p != "brave"@ && p
                != "pipellm"@ && p != "tavily"@) ==> step == StepView::Done(
                Err("unknown web_search provider: "@ + config.web_search_provider->0),
            )
        }),
{
    lemma_tools_have_names(args, cwd, env, config);
    reveal_strlit("pipellm");
    reveal_strlit("tavily");
    reveal_strlit("brave");
    assert("pipellm"@.len() == 7);
    assert("tavily"@.len() == 6);
    assert("brave"@.len() == 5);
    let kind = args.field("kind"@).text();
    let freshness = args.field("freshness"@).text();
    let brave = brave_started(query, key, kind, freshness)->Send_0;
    assert(brave.query[0] == ("q"@, query));
    assert(brave.headers[0] == ("X-Subscription-Token"@, key));
    let tavily = tavily_started(query, key, kind, freshness, args.field("search_depth"@).text());
    crate::json::law_first_member_counts(tavily->Send_0.body->Json_0->Object_0, "query"@, 0);
}

/// A plain request is made with the method, the address, the headers, the body and the parameters
/// that were given, and refused without a method or an address.
pub proof fn law_plain_requests_are_made_as_told(
    args: JsonView,
    cwd: Seq<char>,
    env: EnvView,
    config: ConfigView,
    method: Seq<char>,
    url: Seq<char>,
)
    ensures
        ({
            let step = started("http_request"@, args, cwd, env, config);
            &&& !(args.field("method"@) is Text) ==> step == StepView::Done(
                Err("missing method"@),
            )
            &&& args.field("method"@) is Text && !(args.field("url"@) is Text) ==> step
                == StepView::Done(Err("missing url"@))
            &&& args.field("method"@) is Text && args.field("url"@) == JsonView::Text(url)
                && !is_web_address(url) ==> step == StepView::Done(
                Err("url must start with http:// or https://"@),
            )
            &&& args.field("method"@) == JsonView::Text(method) && args.field("url"@)
                == JsonView::Text(url) && is_web_address(url) ==> step == web_step(
                request_started(
                    method,
                    url,
                    args.field("headers"@),
                    args.field("body"@).text(),
                    args.field("query"@),
                ),
            )
        }),
{
    lemma_tools_have_names(args, cwd, env, config);
}

/// A reply goes to the course of requests that waits for it.
pub proof fn law_replies_go_to_their_course(
    call: crate::http::HttpCallView,
    state: crate::web::WebStateView,
    reply: crate::http::HttpReplyView,
)
    ensures
        proceeded(TaskView::Send { call, state }, EventView::Replied(reply)) == web_step(
            resumed(state, reply),
        ),
{
}

/// Once it is known which program there is, the search runs with exactly what it was told.
pub proof fn law_searches_run_with_their_options(
    pattern: Seq<char>,
    path: Seq<char>,
    glob: Option<Seq<char>>,
    context_lines: u64,
    case_insensitive: bool,
    max_results: u64,
    output: crate::report::OutputView,
)
    ensures
        ({
            let probe = TaskView::Run {
                program: "rg"@,
                args: seq!["--version"@],
                workdir: None,
                purpose: PurposeView::Probe {
                    pattern,
                    path,
                    glob,
                    context_lines,
                    case_insensitive,
                    max_results,
                },
            };
            &&& proceeded(probe, EventView::Ran(Some(output))) == StepView::Act(
                TaskView::Run {
                    program: "rg"@,
                    args: crate::report::ripgrep_args(
                        pattern,
                        path,
                        glob,
                        context_lines,
                        case_insensitive,
                    ),
                    workdir: None,
                    purpose: PurposeView::Search { max_results },
                },
            )
            &&& proceeded(probe, EventView::Ran(None)) == StepView::Act(
                TaskView::Run {
                    program: "grep"@,
                    args: crate::report::grep_args(
                        pattern,
                        path,
                        glob,
                        context_lines,
                        case_insensitive,
                    ),
                    workdir: None,
                    purpose: PurposeView::Search { max_results },
                },
            )
        }),
{
}

/// A web search hands the provider the kind, the freshness and the depth that were asked for.
pub proof fn law_web_searches_pass_on_their_options(
    args: JsonView,
    cwd: Seq<char>,
    env: EnvView,
    config: ConfigView,
    query: Seq<char>,
    key: Seq<char>,
)
    requires
        args.field("query"@) == JsonView::Text(query),
        config.web_search_api_key == Some(key),
    ensures
        ({
            let step = started("web_search"@, args, cwd, env, config);
            let kind = args.field("kind"@).text();
            let freshness = args.field("freshness"@).text();
            &&& config.web_search_provider == Some("brave"@) ==> step == web_step(
                brave_started(query, key, kind, freshness),
            )
            &&& config.web_search_provider == Some("pipellm"@) ==> step == web_step(
                pipellm_asks(query, key, pipellm_path(kind), false),
            )
            &&& config.web_search_provider == Some("tavily"@) ==> step == web_step(
                tavily_started(query, key, kind, freshness, args.field("search_depth"@).text()),
            )
        }),
{
    lemma_tools_have_names(args, cwd, env, config);
    reveal_strlit("pipellm");
    reveal_strlit("tavily");
    reveal_strlit("brave");
    assert("pipellm"@.len() == 7);
    assert("tavily"@.len() == 6);
    assert("brave"@.len() == 5);
}

/// A process is looked at by the lower half of the number that was given.
pub proof fn law_processes_are_named_by_a_number(
    args: JsonView,
    cwd: Seq<char>,
    env: EnvView,
    config: ConfigView,
    n: u64,
)
    requires
        args.field("pid"@).unsigned() == Some(n),
    ensures
        started("shell_poll"@, args, cwd, env, config) matches StepView::Act(
            TaskView::Poll { pid, timeout_secs },
        ) && pid == n % 0x1_0000_0000,
{
    lemma_tools_have_names(args, cwd, env, config);
}

/// A result that was too long comes back shortened, with the place where the whole was saved.
pub proof fn law_saved_results_come_back_shortened(content: Seq<char>, path: Option<Seq<char>>)
    ensures
        proceeded(TaskView::Save { content }, EventView::Saved(path)) == StepView::Done(
            Ok(shortened(content, path)),
        ),
{
}

/// The sixteen tools go by these names, and no other name is a tool.
pub proof fn law_tools_go_by_these_names(name: Seq<char>)
    ensures
        is_tool(name) <==> name == "fs_read"@ || name == "fs_list"@ || name == "fs_write"@ || name
            == "fs_patch"@ || name == "fs_mkdir"@ || name == "fs_delete"@ || name == "shell_exec"@
            || name == "shell_bg"@ || name == "shell_poll"@ || name == "pwd"@ || name
            == "web_fetch"@ || name == "web_search"@ || name == "read_url"@ || name
            == "grep_search"@ || name == "memory_read"@ || name == "http_request"@,
{
}

} // verus!
