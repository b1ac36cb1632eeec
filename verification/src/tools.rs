//! The tools that the model can call, as it is told of them.

use crate::config::{text_else, AssistantConfig, ConfigView};
use crate::execute::is_tool;
use crate::json::{items, law_first_member_counts, pairs, put, Json, JsonView};
use crate::text::cat;
use vstd::prelude::*;
use vstd::string::*;

verus! {

/// JSON-schema description of one tool, ready to pass to the API.
#[derive(Debug, PartialEq)]
pub struct ToolDef {
    pub name: &'static str,
    pub description: String,
    /// JSON Schema for the function's parameters.
    pub parameters: Json,
}

/// The description of a tool with its texts as sequences of characters.
pub struct ToolView {
    pub name: Seq<char>,
    pub description: Seq<char>,
    pub parameters: JsonView,
}

impl View for ToolDef {
    type V = ToolView;

    open spec fn view(&self) -> ToolView {
        ToolView {
            name: self.name@,
            description: self.description@,
            parameters: self.parameters@,
        }
    }
}

/// The contents of a list of tool descriptions.
pub open spec fn tool_views(list: Seq<ToolDef>) -> Seq<ToolView> {
    Seq::new(list.len(), |i: int| list[i]@)
}

// ---- Schemas -----------------------------------------------------------------------------------

/// The contents of a list of words.
pub open spec fn strs(list: Seq<&str>) -> Seq<Seq<char>> {
    Seq::new(list.len(), |i: int| list[i]@)
}

/// A list of words as JSON.
pub open spec fn word_list(words: Seq<Seq<char>>) -> JsonView {
    JsonView::Array(Seq::new(words.len(), |i: int| JsonView::Text(words[i])))
}

fn make_word_list(words: &[&str]) -> (r: Json)
    ensures
        r@ == word_list(strs(words@)),
{
    let mut list: Vec<Json> = Vec::new();
    let ghost all = word_list(strs(words@))->Array_0;
    let mut i: usize = 0;
    assert(items(list@) == all.take(0));
    while i < words.len()
        invariant
            i <= words@.len(),
            all == word_list(strs(words@))->Array_0,
            items(list@) == all.take(i as int),
        decreases words@.len() - i,
    {
        let item = Json::from_text(words[i]);
        let ghost before = items(list@);
        list.push(item);
        assert(items(list@) == before.push(item@));
        assert(all.take(i + 1) == all.take(i as int).push(all[i as int]));
        i = i + 1;
    }
    assert(all.take(i as int) == all);
    Json::from_items(list)
}

/// A parameter of a type.
pub open spec fn typed(kind: Seq<char>) -> JsonView {
    JsonView::Object(seq![("type"@, JsonView::Text(kind))])
}

/// A parameter of a type, described in words.
pub open spec fn described(kind: Seq<char>, description: Seq<char>) -> JsonView {
    JsonView::Object(
        seq![("type"@, JsonView::Text(kind)), ("description"@, JsonView::Text(description))],
    )
}

/// A parameter that is one of the given texts.
pub open spec fn choice_of(options: Seq<Seq<char>>, description: Seq<char>) -> JsonView {
    JsonView::Object(
        seq![
            ("type"@, JsonView::Text("string"@)),
            ("enum"@, word_list(options)),
            ("description"@, JsonView::Text(description)),
        ],
    )
}

/// A parameter that maps keys to texts.
pub open spec fn mapping(description: Seq<char>) -> JsonView {
    JsonView::Object(
        seq![
            ("type"@, JsonView::Text("object"@)),
            ("description"@, JsonView::Text(description)),
            ("additionalProperties"@, typed("string"@)),
        ],
    )
}

/// The parameters of a tool, and which of them it needs.
pub open spec fn schema(
    properties: Seq<(Seq<char>, JsonView)>,
    required: Seq<Seq<char>>,
) -> JsonView {
    JsonView::Object(
        seq![
            ("type"@, JsonView::Text("object"@)),
            ("properties"@, JsonView::Object(properties)),
            ("required"@, word_list(required)),
        ],
    )
}

fn make_typed(kind: &str) -> (r: Json)
    ensures
        r@ == typed(kind@),
{
    let mut list: Vec<(String, Json)> = Vec::new();
    put(&mut list, "type", Json::from_text(kind));
    assert(pairs(list@) == typed(kind@)->Object_0);
    Json::from_members(list)
}

fn make_described(kind: &str, description: &str) -> (r: Json)
    ensures
        r@ == described(kind@, description@),
{
    let mut list: Vec<(String, Json)> = Vec::new();
    put(&mut list, "type", Json::from_text(kind));
    put(&mut list, "description", Json::from_text(description));
    assert(pairs(list@) == described(kind@, description@)->Object_0);
    Json::from_members(list)
}

fn make_choice(options: &[&str], description: &str) -> (r: Json)
    ensures
        r@ == choice_of(strs(options@), description@),
{
    let mut list: Vec<(String, Json)> = Vec::new();
    put(&mut list, "type", Json::from_text("string"));
    put(&mut list, "enum", make_word_list(options));
    put(&mut list, "description", Json::from_text(description));
    assert(pairs(list@) == choice_of(strs(options@), description@)->Object_0);
    Json::from_members(list)
}

fn make_mapping(description: &str) -> (r: Json)
    ensures
        r@ == mapping(description@),
{
    let mut list: Vec<(String, Json)> = Vec::new();
    put(&mut list, "type", Json::from_text("object"));
    put(&mut list, "description", Json::from_text(description));
    put(&mut list, "additionalProperties", make_typed("string"));
    assert(pairs(list@) == mapping(description@)->Object_0);
    Json::from_members(list)
}

fn make_schema(properties: Vec<(String, Json)>, required: &[&str]) -> (r: Json)
    ensures
        r@ == schema(pairs(properties@), strs(required@)),
{
    let ghost props = pairs(properties@);
    let mut list: Vec<(String, Json)> = Vec::new();
    put(&mut list, "type", Json::from_text("object"));
    put(&mut list, "properties", Json::from_members(properties));
    put(&mut list, "required", make_word_list(required));
    assert(pairs(list@) == schema(props, strs(required@))->Object_0);
    Json::from_members(list)
}

// ---- The tools ---------------------------------------------------------------------------------

/// The tool `fs_read`.
pub open spec fn fs_read_tool() -> ToolView {
    ToolView {
        name: "fs_read"@,
        description: "Read the full content of a file and return it as a string."@,
        parameters: schema(
            seq![
                ("path"@, described("string"@, "Absolute or ~/relative path"@)),
            ],
            seq!["path"@],
        ),
    }
}

fn make_fs_read() -> (r: ToolDef)
    ensures
        r@ == fs_read_tool(),
{
    let mut props: Vec<(String, Json)> = Vec::new();
    put(&mut props, "path", make_described("string", "Absolute or ~/relative path"));
    assert(pairs(props@) == fs_read_tool().parameters->Object_0[1].1->Object_0);
    let required: &[&str] = &["path"];
    assert(strs(required@) == seq!["path"@]);
    ToolDef {
        name: "fs_read",
        description: "Read the full content of a file and return it as a string.".to_string(),
        parameters: make_schema(props, required),
    }
}

/// The tool `fs_list`.
pub open spec fn fs_list_tool() -> ToolView {
    ToolView {
        name: "fs_list"@,
        description: "List files and sub-directories inside a directory. Directories are shown with a trailing /."@,
        parameters: schema(
            seq![
                ("path"@, described("string"@, "Directory path"@)),
            ],
            seq!["path"@],
        ),
    }
}

fn make_fs_list() -> (r: ToolDef)
    ensures
        r@ == fs_list_tool(),
{
    let mut props: Vec<(String, Json)> = Vec::new();
    put(&mut props, "path", make_described("string", "Directory path"));
    assert(pairs(props@) == fs_list_tool().parameters->Object_0[1].1->Object_0);
    let required: &[&str] = &["path"];
    assert(strs(required@) == seq!["path"@]);
    ToolDef {
        name: "fs_list",
        description: "List files and sub-directories inside a directory. Directories are shown with a trailing /.".to_string(),
        parameters: make_schema(props, required),
    }
}

/// The tool `fs_write`.
pub open spec fn fs_write_tool() -> ToolView {
    ToolView {
        name: "fs_write"@,
        description: "Write (create or overwrite) a file with the given content. Parent directories are created automatically."@,
        parameters: schema(
            seq![
                ("path"@, typed("string"@)),
                ("content"@, typed("string"@)),
            ],
            seq!["path"@, "content"@],
        ),
    }
}

fn make_fs_write() -> (r: ToolDef)
    ensures
        r@ == fs_write_tool(),
{
    let mut props: Vec<(String, Json)> = Vec::new();
    put(&mut props, "path", make_typed("string"));
    put(&mut props, "content", make_typed("string"));
    assert(pairs(props@) == fs_write_tool().parameters->Object_0[1].1->Object_0);
    let required: &[&str] = &["path", "content"];
    assert(strs(required@) == seq!["path"@, "content"@]);
    ToolDef {
        name: "fs_write",
        description: "Write (create or overwrite) a file with the given content. Parent directories are created automatically.".to_string(),
        parameters: make_schema(props, required),
    }
}

/// The tool `fs_patch`.
pub open spec fn fs_patch_tool() -> ToolView {
    ToolView {
        name: "fs_patch"@,
        description: "Replace the first occurrence of `old_text` with `new_text` in a file. Fails if old_text is not found."@,
        parameters: schema(
            seq![
                ("path"@, typed("string"@)),
                ("old_text"@, described("string"@, "Exact text to find"@)),
                ("new_text"@, described("string"@, "Replacement text"@)),
            ],
            seq!["path"@, "old_text"@, "new_text"@],
        ),
    }
}

fn make_fs_patch() -> (r: ToolDef)
    ensures
        r@ == fs_patch_tool(),
{
    let mut props: Vec<(String, Json)> = Vec::new();
    put(&mut props, "path", make_typed("string"));
    put(&mut props, "old_text", make_described("string", "Exact text to find"));
    put(&mut props, "new_text", make_described("string", "Replacement text"));
    assert(pairs(props@) == fs_patch_tool().parameters->Object_0[1].1->Object_0);
    let required: &[&str] = &["path", "old_text", "new_text"];
    assert(strs(required@) == seq!["path"@, "old_text"@, "new_text"@]);
    ToolDef {
        name: "fs_patch",
        description: "Replace the first occurrence of `old_text` with `new_text` in a file. Fails if old_text is not found.".to_string(),
        parameters: make_schema(props, required),
    }
}

/// The tool `fs_mkdir`.
pub open spec fn fs_mkdir_tool() -> ToolView {
    ToolView {
        name: "fs_mkdir"@,
        description: "Create a directory and all missing parent directories."@,
        parameters: schema(
            seq![
                ("path"@, typed("string"@)),
            ],
            seq!["path"@],
        ),
    }
}

fn make_fs_mkdir() -> (r: ToolDef)
    ensures
        r@ == fs_mkdir_tool(),
{
    let mut props: Vec<(String, Json)> = Vec::new();
    put(&mut props, "path", make_typed("string"));
    assert(pairs(props@) == fs_mkdir_tool().parameters->Object_0[1].1->Object_0);
    let required: &[&str] = &["path"];
    assert(strs(required@) == seq!["path"@]);
    ToolDef {
        name: "fs_mkdir",
        description: "Create a directory and all missing parent directories.".to_string(),
        parameters: make_schema(props, required),
    }
}

/// The tool `fs_delete`.
pub open spec fn fs_delete_tool() -> ToolView {
    ToolView {
        name: "fs_delete"@,
        description: "Delete a file or directory (recursive for directories)."@,
        parameters: schema(
            seq![
                ("path"@, typed("string"@)),
            ],
            seq!["path"@],
        ),
    }
}

fn make_fs_delete() -> (r: ToolDef)
    ensures
        r@ == fs_delete_tool(),
{
    let mut props: Vec<(String, Json)> = Vec::new();
    put(&mut props, "path", make_typed("string"));
    assert(pairs(props@) == fs_delete_tool().parameters->Object_0[1].1->Object_0);
    let required: &[&str] = &["path"];
    assert(strs(required@) == seq!["path"@]);
    ToolDef {
        name: "fs_delete",
        description: "Delete a file or directory (recursive for directories).".to_string(),
        parameters: make_schema(props, required),
    }
}

/// The tool `shell_exec`.
pub open spec fn shell_exec_tool() -> ToolView {
    ToolView {
        name: "shell_exec"@,
        description: "Run an arbitrary shell command via bash and return stdout + stderr. Use for building, testing, grepping, git, npm, cargo, etc."@,
        parameters: schema(
            seq![
                ("command"@, described("string"@, "Shell command to execute (passed to bash -c)"@)),
                ("cwd"@, described("string"@, "Working directory override (optional, defaults to pane cwd)"@)),
            ],
            seq!["command"@],
        ),
    }
}

fn make_shell_exec() -> (r: ToolDef)
    ensures
        r@ == shell_exec_tool(),
{
    let mut props: Vec<(String, Json)> = Vec::new();
    put(&mut props, "command", make_described("string", "Shell command to execute (passed to bash -c)"));
    put(&mut props, "cwd", make_described("string", "Working directory override (optional, defaults to pane cwd)"));
    assert(pairs(props@) == shell_exec_tool().parameters->Object_0[1].1->Object_0);
    let required: &[&str] = &["command"];
    assert(strs(required@) == seq!["command"@]);
    ToolDef {
        name: "shell_exec",
        description: "Run an arbitrary shell command via bash and return stdout + stderr. Use for building, testing, grepping, git, npm, cargo, etc.".to_string(),
        parameters: make_schema(props, required),
    }
}

/// The tool `shell_bg`.
pub open spec fn shell_bg_tool() -> ToolView {
    ToolView {
        name: "shell_bg"@,
        description: "Start a long-running shell command in the background and return its process id immediately. Use for commands that take minutes (builds, dev servers, watchers). Call shell_poll to check status and collect output."@,
        parameters: schema(
            seq![
                ("command"@, described("string"@, "Shell command to run in background"@)),
                ("cwd"@, described("string"@, "Working directory (optional)"@)),
            ],
            seq!["command"@],
        ),
    }
}

fn make_shell_bg() -> (r: ToolDef)
    ensures
        r@ == shell_bg_tool(),
{
    let mut props: Vec<(String, Json)> = Vec::new();
    put(&mut props, "command", make_described("string", "Shell command to run in background"));
    put(&mut props, "cwd", make_described("string", "Working directory (optional)"));
    assert(pairs(props@) == shell_bg_tool().parameters->Object_0[1].1->Object_0);
    let required: &[&str] = &["command"];
    assert(strs(required@) == seq!["command"@]);
    ToolDef {
        name: "shell_bg",
        description: "Start a long-running shell command in the background and return its process id immediately. Use for commands that take minutes (builds, dev servers, watchers). Call shell_poll to check status and collect output.".to_string(),
        parameters: make_schema(props, required),
    }
}

/// The tool `shell_poll`.
pub open spec fn shell_poll_tool() -> ToolView {
    ToolView {
        name: "shell_poll"@,
        description: "Check the status of a background process started with shell_bg. Returns accumulated stdout/stderr and whether the process has exited. Pass timeout_secs > 0 to wait up to that many seconds for it to finish."@,
        parameters: schema(
            seq![
                ("pid"@, described("integer"@, "Process id returned by shell_bg"@)),
                ("timeout_secs"@, described("integer"@, "Seconds to wait for process exit (0 = non-blocking check)"@)),
            ],
            seq!["pid"@],
        ),
    }
}

fn make_shell_poll() -> (r: ToolDef)
    ensures
        r@ == shell_poll_tool(),
{
    let mut props: Vec<(String, Json)> = Vec::new();
    put(&mut props, "pid", make_described("integer", "Process id returned by shell_bg"));
    put(&mut props, "timeout_secs", make_described("integer", "Seconds to wait for process exit (0 = non-blocking check)"));
    assert(pairs(props@) == shell_poll_tool().parameters->Object_0[1].1->Object_0);
    let required: &[&str] = &["pid"];
    assert(strs(required@) == seq!["pid"@]);
    ToolDef {
        name: "shell_poll",
        description: "Check the status of a background process started with shell_bg. Returns accumulated stdout/stderr and whether the process has exited. Pass timeout_secs > 0 to wait up to that many seconds for it to finish.".to_string(),
        parameters: make_schema(props, required),
    }
}

/// The tool `pwd`.
pub open spec fn pwd_tool() -> ToolView {
    ToolView {
        name: "pwd"@,
        description: "Return the current working directory of the terminal pane."@,
        parameters: schema(
            Seq::empty(),
            Seq::empty(),
        ),
    }
}

fn make_pwd() -> (r: ToolDef)
    ensures
        r@ == pwd_tool(),
{
    let mut props: Vec<(String, Json)> = Vec::new();
    assert(pairs(props@) == pwd_tool().parameters->Object_0[1].1->Object_0);
    let required: &[&str] = &[];
    assert(strs(required@) == Seq::<Seq<char>>::empty());
    ToolDef {
        name: "pwd",
        description: "Return the current working directory of the terminal pane.".to_string(),
        parameters: make_schema(props, required),
    }
}

/// The tool `web_fetch`.
pub open spec fn web_fetch_tool() -> ToolView {
    ToolView {
        name: "web_fetch"@,
        description: "Fetch a URL and return its content as Markdown. Uses defuddle.md then r.jina.ai as free anonymous backends. Use for reading documentation, articles, or any public web page."@,
        parameters: schema(
            seq![
                ("url"@, described("string"@, "Full URL to fetch (must start with http:// or https://)"@)),
            ],
            seq!["url"@],
        ),
    }
}

fn make_web_fetch() -> (r: ToolDef)
    ensures
        r@ == web_fetch_tool(),
{
    let mut props: Vec<(String, Json)> = Vec::new();
    put(&mut props, "url", make_described("string", "Full URL to fetch (must start with http:// or https://)"));
    assert(pairs(props@) == web_fetch_tool().parameters->Object_0[1].1->Object_0);
    let required: &[&str] = &["url"];
    assert(strs(required@) == seq!["url"@]);
    ToolDef {
        name: "web_fetch",
        description: "Fetch a URL and return its content as Markdown. Uses defuddle.md then r.jina.ai as free anonymous backends. Use for reading documentation, articles, or any public web page.".to_string(),
        parameters: make_schema(props, required),
    }
}

/// The tool `web_search` with the given provider.
pub open spec fn web_search_tool(provider: Seq<char>) -> ToolView {
    ToolView {
        name: "web_search"@,
        description: "Search the web using "@ + provider + " and return results with title, URL, snippet, and (where supported) a direct AI answer. Use for finding current information, documentation, or answering questions. Use kind='news' for recent events; kind='deep' (pipellm) for richer RAG results; freshness to limit by recency."@,
        parameters: schema(
            seq![
                ("query"@, described("string"@, "Search query"@)),
                ("kind"@, choice_of(seq!["web"@, "news"@, "deep"@], "'web' (default), 'news' (recent news), or 'deep' (pipellm: full RAG pipeline)"@)),
                ("freshness"@, described("string"@, "Recency filter: 'pd' (24h), 'pw' (7d), 'pm' (31d), 'py' (1y). Brave also accepts custom ranges like '2024-01-01to2024-06-30'."@)),
                ("search_depth"@, choice_of(seq!["basic"@, "advanced"@], "Tavily only. 'advanced' performs deeper crawling for richer results."@)),
            ],
            seq!["query"@],
        ),
    }
}

fn make_web_search(provider: &str) -> (r: ToolDef)
    ensures
        r@ == web_search_tool(provider@),
{
    let mut props: Vec<(String, Json)> = Vec::new();
    put(&mut props, "query", make_described("string", "Search query"));
    let kinds: &[&str] = &["web", "news", "deep"];
    assert(strs(kinds@) == seq!["web"@, "news"@, "deep"@]);
    put(&mut props, "kind", make_choice(kinds, "'web' (default), 'news' (recent news), or 'deep' (pipellm: full RAG pipeline)"));
    put(&mut props, "freshness", make_described("string", "Recency filter: 'pd' (24h), 'pw' (7d), 'pm' (31d), 'py' (1y). Brave also accepts custom ranges like '2024-01-01to2024-06-30'."));
    let search_depths: &[&str] = &["basic", "advanced"];
    assert(strs(search_depths@) == seq!["basic"@, "advanced"@]);
    put(&mut props, "search_depth", make_choice(search_depths, "Tavily only. 'advanced' performs deeper crawling for richer results."));
    assert(pairs(props@) == web_search_tool(provider@).parameters->Object_0[1].1->Object_0);
    let mut description = cat(
        "Search the web using ",
        provider,
    );
    description.append(
        " and return results with title, URL, snippet, and (where supported) a direct AI answer. Use for finding current information, documentation, or answering questions. Use kind='news' for recent events; kind='deep' (pipellm) for richer RAG results; freshness to limit by recency.",
    );
    let required: &[&str] = &["query"];
    assert(strs(required@) == seq!["query"@]);
    ToolDef {
        name: "web_search",
        description: description,
        parameters: make_schema(props, required),
    }
}

/// The tool `read_url`.
pub open spec fn read_url_tool() -> ToolView {
    ToolView {
        name: "read_url"@,
        description: "Fetch a web page and return its clean text content, optimized for AI reading. Use after web_search to read the full content of a promising result. Handles JS-heavy pages better than web_fetch for supported providers."@,
        parameters: schema(
            seq![
                ("url"@, described("string"@, "Full URL to read (must start with http:// or https://)"@)),
            ],
            seq!["url"@],
        ),
    }
}

fn make_read_url() -> (r: ToolDef)
    ensures
        r@ == read_url_tool(),
{
    let mut props: Vec<(String, Json)> = Vec::new();
    put(&mut props, "url", make_described("string", "Full URL to read (must start with http:// or https://)"));
    assert(pairs(props@) == read_url_tool().parameters->Object_0[1].1->Object_0);
    let required: &[&str] = &["url"];
    assert(strs(required@) == seq!["url"@]);
    ToolDef {
        name: "read_url",
        description: "Fetch a web page and return its clean text content, optimized for AI reading. Use after web_search to read the full content of a promising result. Handles JS-heavy pages better than web_fetch for supported providers.".to_string(),
        parameters: make_schema(props, required),
    }
}

/// The tool `grep_search`.
pub open spec fn grep_search_tool() -> ToolView {
    ToolView {
        name: "grep_search"@,
        description: "Recursively search for a regex pattern in files and return matching lines with context. Use for finding symbol definitions, usages, TODO comments, or any text pattern across the codebase. Faster and more precise than reading individual files."@,
        parameters: schema(
            seq![
                ("pattern"@, described("string"@, "Regular expression pattern to search for"@)),
                ("path"@, described("string"@, "Directory or file to search in (defaults to cwd)"@)),
                ("glob"@, described("string"@, "File glob filter, e.g. '*.rs' or '*.{ts,tsx}' (optional)"@)),
                ("context_lines"@, described("integer"@, "Lines of context before and after each match (default 2)"@)),
                ("case_insensitive"@, described("boolean"@, "Case-insensitive matching (default false)"@)),
                ("max_results"@, described("integer"@, "Maximum number of matching lines to return (default 100)"@)),
            ],
            seq!["pattern"@],
        ),
    }
}

fn make_grep_search() -> (r: ToolDef)
    ensures
        r@ == grep_search_tool(),
{
    let mut props: Vec<(String, Json)> = Vec::new();
    put(&mut props, "pattern", make_described("string", "Regular expression pattern to search for"));
    put(&mut props, "path", make_described("string", "Directory or file to search in (defaults to cwd)"));
    put(&mut props, "glob", make_described("string", "File glob filter, e.g. '*.rs' or '*.{ts,tsx}' (optional)"));
    put(&mut props, "context_lines", make_described("integer", "Lines of context before and after each match (default 2)"));
    put(&mut props, "case_insensitive", make_described("boolean", "Case-insensitive matching (default false)"));
    put(&mut props, "max_results", make_described("integer", "Maximum number of matching lines to return (default 100)"));
    assert(pairs(props@) == grep_search_tool().parameters->Object_0[1].1->Object_0);
    let required: &[&str] = &["pattern"];
    assert(strs(required@) == seq!["pattern"@]);
    ToolDef {
        name: "grep_search",
        description: "Recursively search for a regex pattern in files and return matching lines with context. Use for finding symbol definitions, usages, TODO comments, or any text pattern across the codebase. Faster and more precise than reading individual files.".to_string(),
        parameters: make_schema(props, required),
    }
}

/// The tool `memory_read`.
pub open spec fn memory_read_tool() -> ToolView {
    ToolView {
        name: "memory_read"@,
        description: "Read the user's local memory file that stores persistent facts, preferences, and project context across AI chat sessions. Kaku updates this file automatically after each conversation; you do not need to write to it yourself."@,
        parameters: schema(
            Seq::empty(),
            Seq::empty(),
        ),
    }
}

fn make_memory_read() -> (r: ToolDef)
    ensures
        r@ == memory_read_tool(),
{
    let mut props: Vec<(String, Json)> = Vec::new();
    assert(pairs(props@) == memory_read_tool().parameters->Object_0[1].1->Object_0);
    let required: &[&str] = &[];
    assert(strs(required@) == Seq::<Seq<char>>::empty());
    ToolDef {
        name: "memory_read",
        description: "Read the user's local memory file that stores persistent facts, preferences, and project context across AI chat sessions. Kaku updates this file automatically after each conversation; you do not need to write to it yourself.".to_string(),
        parameters: make_schema(props, required),
    }
}

/// The tool `http_request`.
pub open spec fn http_request_tool() -> ToolView {
    ToolView {
        name: "http_request"@,
        description: "Make an HTTP request (GET, POST, PUT, PATCH, DELETE) and return the response status, headers, and body. Use for testing APIs, fetching JSON endpoints, or any HTTP call that requires a specific method or request body. For web pages, prefer web_fetch instead."@,
        parameters: schema(
            seq![
                ("method"@, choice_of(seq!["GET"@, "POST"@, "PUT"@, "PATCH"@, "DELETE"@], "HTTP method"@)),
                ("url"@, described("string"@, "Full URL (must start with http:// or https://)"@)),
                ("headers"@, mapping("Optional extra request headers as key-value pairs"@)),
                ("body"@, described("string"@, "Request body (for POST/PUT/PATCH). If it is valid JSON, Content-Type is set to application/json automatically."@)),
                ("query"@, mapping("Optional URL query parameters as key-value pairs"@)),
            ],
            seq!["method"@, "url"@],
        ),
    }
}

fn make_http_request() -> (r: ToolDef)
    ensures
        r@ == http_request_tool(),
{
    let mut props: Vec<(String, Json)> = Vec::new();
    let methods: &[&str] = &["GET", "POST", "PUT", "PATCH", "DELETE"];
    assert(strs(methods@) == seq!["GET"@, "POST"@, "PUT"@, "PATCH"@, "DELETE"@]);
    put(&mut props, "method", make_choice(methods, "HTTP method"));
    put(&mut props, "url", make_described("string", "Full URL (must start with http:// or https://)"));
    put(&mut props, "headers", make_mapping("Optional extra request headers as key-value pairs"));
    put(&mut props, "body", make_described("string", "Request body (for POST/PUT/PATCH). If it is valid JSON, Content-Type is set to application/json automatically."));
    put(&mut props, "query", make_mapping("Optional URL query parameters as key-value pairs"));
    assert(pairs(props@) == http_request_tool().parameters->Object_0[1].1->Object_0);
    let required: &[&str] = &["method", "url"];
    assert(strs(required@) == seq!["method"@, "url"@]);
    ToolDef {
        name: "http_request",
        description: "Make an HTTP request (GET, POST, PUT, PATCH, DELETE) and return the response status, headers, and body. Use for testing APIs, fetching JSON endpoints, or any HTTP call that requires a specific method or request body. For web pages, prefer web_fetch instead.".to_string(),
        parameters: make_schema(props, required),
    }
}

// ---- All of them -------------------------------------------------------------------------------

/// The tools that are exposed to the model: those of web search only where it is configured.
pub open spec fn offered(config: ConfigView) -> Seq<ToolView> {
    seq![
        fs_read_tool(),
        fs_list_tool(),
        fs_write_tool(),
        fs_patch_tool(),
        fs_mkdir_tool(),
        fs_delete_tool(),
        shell_exec_tool(),
        shell_bg_tool(),
        shell_poll_tool(),
        pwd_tool(),
        web_fetch_tool(),
    ] + (if config.web_search_provider is Some && config.web_search_api_key is Some {
        seq![
            web_search_tool(text_else(config.web_search_provider, "search"@)),
            read_url_tool(),
        ]
    } else {
        Seq::empty()
    }) + seq![grep_search_tool(), memory_read_tool(), http_request_tool()]
}

fn add_tool(list: &mut Vec<ToolDef>, tool: ToolDef)
    ensures
        tool_views(final(list)@) == tool_views(old(list)@).push(tool@),
{
    list.push(tool);
    assert(tool_views(list@) == tool_views(old(list)@).push(tool@));
}

/// All tools exposed to the model, filtered by the active configuration.
pub fn all_tools(config: &AssistantConfig) -> (r: Vec<ToolDef>)
    ensures
        tool_views(r@) == offered(config@),
{
    let mut tools: Vec<ToolDef> = Vec::new();
    add_tool(&mut tools, make_fs_read());
    add_tool(&mut tools, make_fs_list());
    add_tool(&mut tools, make_fs_write());
    add_tool(&mut tools, make_fs_patch());
    add_tool(&mut tools, make_fs_mkdir());
    add_tool(&mut tools, make_fs_delete());
    add_tool(&mut tools, make_shell_exec());
    add_tool(&mut tools, make_shell_bg());
    add_tool(&mut tools, make_shell_poll());
    add_tool(&mut tools, make_pwd());
    add_tool(&mut tools, make_web_fetch());
    if config.web_search_ready() {
        let provider = match &config.web_search_provider {
            Some(p) => p.as_str(),
            None => "search",
        };
        add_tool(&mut tools, make_web_search(provider));
        add_tool(&mut tools, make_read_url());
    }
    add_tool(&mut tools, make_grep_search());
    add_tool(&mut tools, make_memory_read());
    add_tool(&mut tools, make_http_request());
    assert(tool_views(tools@) == offered(config@));
    tools
}

/// A tool as the API is told of it.
pub open spec fn api_schema(tool: ToolView) -> JsonView {
    JsonView::Object(
        seq![
            ("type"@, JsonView::Text("function"@)),
            (
                "function"@,
                JsonView::Object(
                    seq![
                        ("name"@, JsonView::Text(tool.name)),
                        ("description"@, JsonView::Text(tool.description)),
                        ("parameters"@, tool.parameters),
                    ],
                ),
            ),
        ],
    )
}

/// Serialize a ToolDef into the JSON object expected by the OpenAI API.
pub fn to_api_schema(tool: &ToolDef) -> (r: Json)
    ensures
        r@ == api_schema(tool@),
{
    let mut inner: Vec<(String, Json)> = Vec::new();
    put(&mut inner, "name", Json::from_text(tool.name));
    put(&mut inner, "description", Json::from_text(tool.description.as_str()));
    put(&mut inner, "parameters", tool.parameters.copy());
    let ghost expected = api_schema(tool@)->Object_0;
    assert(pairs(inner@) == expected[1].1->Object_0);
    let mut list: Vec<(String, Json)> = Vec::new();
    put(&mut list, "type", Json::from_text("function"));
    put(&mut list, "function", Json::from_members(inner));
    assert(pairs(list@) == expected);
    Json::from_members(list)
}

// ---- Laws --------------------------------------------------------------------------------------

/// Every tool that is offered can be executed.
pub proof fn law_offered_tools_exist(config: ConfigView)
    ensures
        forall|i: int|
            0 <= i < offered(config).len() ==> is_tool(#[trigger] offered(config)[i].name),
{
}

/// Fetching pages is offered whatever is configured.
pub proof fn law_fetching_is_always_offered(config: ConfigView)
    ensures
        offered(config).contains(web_fetch_tool()),
{
    assert(offered(config)[10] == web_fetch_tool());
}

proof fn lemma_names_differ()
    ensures
        "fs_read"@ != "web_search"@,
        "fs_list"@ != "web_search"@,
        "fs_write"@ != "web_search"@,
        "fs_patch"@ != "web_search"@,
        "fs_mkdir"@ != "web_search"@,
        "fs_delete"@ != "web_search"@,
        "shell_exec"@ != "web_search"@,
        "shell_bg"@ != "web_search"@,
        "shell_poll"@ != "web_search"@,
        "pwd"@ != "web_search"@,
        "web_fetch"@ != "web_search"@,
        "read_url"@ != "web_search"@,
        "grep_search"@ != "web_search"@,
        "memory_read"@ != "web_search"@,
        "http_request"@ != "web_search"@,
{
    reveal_strlit("web_search");
    assert("web_search"@.len() == 10 && "web_search"@[0] == 'w' && "web_search"@[4] == 's');
    reveal_strlit("fs_read");
    reveal_strlit("fs_list");
    reveal_strlit("fs_write");
    reveal_strlit("fs_patch");
    reveal_strlit("fs_mkdir");
    reveal_strlit("fs_delete");
    reveal_strlit("shell_exec");
    reveal_strlit("shell_bg");
    reveal_strlit("shell_poll");
    reveal_strlit("pwd");
    reveal_strlit("web_fetch");
    reveal_strlit("read_url");
    reveal_strlit("grep_search");
    reveal_strlit("memory_read");
    reveal_strlit("http_request");
    assert("fs_read"@.len() == 7);
    assert("fs_list"@.len() == 7);
    assert("fs_write"@.len() == 8);
    assert("fs_patch"@.len() == 8);
    assert("fs_mkdir"@.len() == 8);
    assert("fs_delete"@.len() == 9);
    assert("shell_exec"@[0] == 's');
    assert("shell_bg"@.len() == 8);
    assert("shell_poll"@[0] == 's');
    assert("pwd"@.len() == 3);
    assert("web_fetch"@.len() == 9);
    assert("read_url"@.len() == 8);
    assert("grep_search"@.len() == 11);
    assert("memory_read"@.len() == 11);
    assert("http_request"@.len() == 12);
}

/// Web search is offered exactly where a provider and a key are configured.
pub proof fn law_search_offered_when_ready(config: ConfigView)
    ensures
        (exists|i: int| 0 <= i < offered(config).len() && #[trigger] offered(config)[i].name
            == "web_search"@) <==> config.web_search_provider is Some && config.web_search_api_key
            is Some,
{
    let ready = config.web_search_provider is Some && config.web_search_api_key is Some;
    let list = offered(config);
    if ready {
        assert(list[11].name == "web_search"@);
    } else {
        lemma_names_differ();
    }
}

/// A tool is told to the API by its name, what it does and its parameters, as they are.
pub proof fn law_tools_are_told_in_full(tool: ToolView)
    ensures
        api_schema(tool).get("type"@) == Some(JsonView::Text("function"@)),
        api_schema(tool).field("function"@).get("name"@) == Some(JsonView::Text(tool.name)),
        api_schema(tool).field("function"@).get("description"@) == Some(
            JsonView::Text(tool.description),
        ),
        api_schema(tool).field("function"@).get("parameters"@) == Some(tool.parameters),
{
    reveal_strlit("type");
    reveal_strlit("function");
    reveal_strlit("description");
    reveal_strlit("name");
    reveal_strlit("parameters");
    assert("type"@.len() == 4);
    assert("function"@.len() == 8);
    assert("description"@.len() == 11);
    assert("name"@.len() == 4);
    assert("parameters"@.len() == 10);
    let list = api_schema(tool)->Object_0;
    law_first_member_counts(list, "type"@, 0);
    law_first_member_counts(list, "function"@, 1);
    let inner = list[1].1->Object_0;
    law_first_member_counts(inner, "name"@, 0);
    law_first_member_counts(inner, "description"@, 1);
    law_first_member_counts(inner, "parameters"@, 2);
}

/// The parameters of a tool are an object of the given properties, of which the given ones are
/// required. A property has its type, and its description and its choices where it has any.
pub proof fn law_schemas_hold_their_parts(
    properties: Seq<(Seq<char>, JsonView)>,
    required: Seq<Seq<char>>,
    kind: Seq<char>,
    description: Seq<char>,
)
    ensures
        schema(properties, required).get("type"@) == Some(JsonView::Text("object"@)),
        schema(properties, required).get("properties"@) == Some(JsonView::Object(properties)),
        schema(properties, required).get("required"@) == Some(word_list(required)),
        word_list(required)->Array_0.len() == required.len(),
        forall|i: int|
            0 <= i < required.len() ==> #[trigger] word_list(required)->Array_0[i]
                == JsonView::Text(required[i]),
        typed(kind).get("type"@) == Some(JsonView::Text(kind)),
        described(kind, description).get("type"@) == Some(JsonView::Text(kind)),
        described(kind, description).get("description"@) == Some(JsonView::Text(description)),
        choice_of(required, description).get("type"@) == Some(JsonView::Text("string"@)),
        choice_of(required, description).get("enum"@) == Some(word_list(required)),
        choice_of(required, description).get("description"@) == Some(JsonView::Text(description)),
        mapping(description).get("type"@) == Some(JsonView::Text("object"@)),
        mapping(description).get("description"@) == Some(JsonView::Text(description)),
        mapping(description).field("additionalProperties"@).get("type"@) == Some(
            JsonView::Text("string"@),
        ),
{
    reveal_strlit("properties");
    reveal_strlit("type");
    reveal_strlit("required");
    reveal_strlit("description");
    reveal_strlit("enum");
    reveal_strlit("additionalProperties");
    assert("properties"@.len() == 10);
    assert("type"@.len() == 4);
    assert("required"@.len() == 8);
    assert("description"@.len() == 11);
    assert("enum"@[0] == 'e');
    assert("type"@[0] == 't');
    assert("enum"@.len() == 4);
    assert("additionalProperties"@.len() == 20);
    let whole = schema(properties, required)->Object_0;
    law_first_member_counts(whole, "type"@, 0);
    law_first_member_counts(whole, "properties"@, 1);
    law_first_member_counts(whole, "required"@, 2);
    law_first_member_counts(typed(kind)->Object_0, "type"@, 0);
    law_first_member_counts(typed("string"@)->Object_0, "type"@, 0);
    law_first_member_counts(described(kind, description)->Object_0, "type"@, 0);
    law_first_member_counts(described(kind, description)->Object_0, "description"@, 1);
    law_first_member_counts(choice_of(required, description)->Object_0, "type"@, 0);
    law_first_member_counts(choice_of(required, description)->Object_0, "enum"@, 1);
    law_first_member_counts(choice_of(required, description)->Object_0, "description"@, 2);
    law_first_member_counts(mapping(description)->Object_0, "type"@, 0);
    law_first_member_counts(mapping(description)->Object_0, "description"@, 1);
    law_first_member_counts(mapping(description)->Object_0, "additionalProperties"@, 2);
}

/// The tools that are offered, by name and in order: always the same, and those of web search
/// between them where it is configured, told with the provider.
pub proof fn law_tools_are_offered_by_name(config: ConfigView, provider: Seq<char>)
    ensures
        ({
            let list = offered(config);
            let names = Seq::new(list.len(), |i: int| list[i].name);
            let first = seq![
                "fs_read"@,
                "fs_list"@,
                "fs_write"@,
                "fs_patch"@,
                "fs_mkdir"@,
                "fs_delete"@,
                "shell_exec"@,
                "shell_bg"@,
                "shell_poll"@,
                "pwd"@,
                "web_fetch"@,
            ];
            let last = seq!["grep_search"@, "memory_read"@, "http_request"@];
            &&& config.web_search_provider == Some(provider) && config.web_search_api_key is Some
                ==> names == first + seq!["web_search"@, "read_url"@] + last && list[11]
                == web_search_tool(provider)
            &&& config.web_search_provider is None || config.web_search_api_key is None ==> names
                == first + last
        }),
{
}

/// The tools on files take exactly these arguments, of these types, and need those that they
/// are refused without.
pub proof fn law_file_tools_take_their_arguments()
    ensures
        fs_read_tool().parameters.field("required"@) == word_list(seq!["path"@]),
        fs_read_tool().parameters.field("properties"@)->Object_0.len() == 1,
        fs_read_tool().parameters.field("properties"@).field("path"@).field("type"@)
            == JsonView::Text("string"@),
        fs_list_tool().parameters.field("required"@) == word_list(seq!["path"@]),
        fs_list_tool().parameters.field("properties"@)->Object_0.len() == 1,
        fs_list_tool().parameters.field("properties"@).field("path"@).field("type"@)
            == JsonView::Text("string"@),
        fs_write_tool().parameters.field("required"@) == word_list(seq!["path"@, "content"@]),
        fs_write_tool().parameters.field("properties"@)->Object_0.len() == 2,
        fs_write_tool().parameters.field("properties"@).field("path"@).field("type"@)
            == JsonView::Text("string"@),
        fs_write_tool().parameters.field("properties"@).field("content"@).field("type"@)
            == JsonView::Text("string"@),
        fs_patch_tool().parameters.field("required"@)
            == word_list(seq!["path"@, "old_text"@, "new_text"@]),
        fs_patch_tool().parameters.field("properties"@)->Object_0.len() == 3,
        fs_patch_tool().parameters.field("properties"@).field("path"@).field("type"@)
            == JsonView::Text("string"@),
        fs_patch_tool().parameters.field("properties"@).field("old_text"@).field("type"@)
            == JsonView::Text("string"@),
        fs_patch_tool().parameters.field("properties"@).field("new_text"@).field("type"@)
            == JsonView::Text("string"@),
        fs_mkdir_tool().parameters.field("required"@) == word_list(seq!["path"@]),
        fs_mkdir_tool().parameters.field("properties"@)->Object_0.len() == 1,
        fs_mkdir_tool().parameters.field("properties"@).field("path"@).field("type"@)
            == JsonView::Text("string"@),
        fs_delete_tool().parameters.field("required"@) == word_list(seq!["path"@]),
        fs_delete_tool().parameters.field("properties"@)->Object_0.len() == 1,
        fs_delete_tool().parameters.field("properties"@).field("path"@).field("type"@)
            == JsonView::Text("string"@),
{
    reveal_strlit("content");
    reveal_strlit("path");
    reveal_strlit("old_text");
    reveal_strlit("new_text");
    reveal_strlit("type");
    reveal_strlit("enum");
    assert("content"@.len() == 7);
    assert("path"@.len() == 4);
    assert("old_text"@.len() == 8);
    assert("new_text"@.len() == 8);
    assert("new_text"@[0] == 'n');
    assert("old_text"@[0] == 'o');
    assert("type"@[0] == 't');
    assert("enum"@[0] == 'e');
    let list = fs_read_tool().parameters->Object_0[1].1->Object_0;
    law_schemas_hold_their_parts(list, seq!["path"@], "string"@, ""@);
    law_first_member_counts(list, "path"@, 0);
    law_first_member_counts(list[0].1->Object_0, "type"@, 0);
    let list = fs_list_tool().parameters->Object_0[1].1->Object_0;
    law_schemas_hold_their_parts(list, seq!["path"@], "string"@, ""@);
    law_first_member_counts(list, "path"@, 0);
    law_first_member_counts(list[0].1->Object_0, "type"@, 0);
    let list = fs_write_tool().parameters->Object_0[1].1->Object_0;
    law_schemas_hold_their_parts(list, seq!["path"@, "content"@], "string"@, ""@);
    law_first_member_counts(list, "path"@, 0);
    law_first_member_counts(list[0].1->Object_0, "type"@, 0);
    law_first_member_counts(list, "content"@, 1);
    law_first_member_counts(list[1].1->Object_0, "type"@, 0);
    let list = fs_patch_tool().parameters->Object_0[1].1->Object_0;
    law_schemas_hold_their_parts(list, seq!["path"@, "old_text"@, "new_text"@], "string"@, ""@);
    law_first_member_counts(list, "path"@, 0);
    law_first_member_counts(list[0].1->Object_0, "type"@, 0);
    law_first_member_counts(list, "old_text"@, 1);
    law_first_member_counts(list[1].1->Object_0, "type"@, 0);
    law_first_member_counts(list, "new_text"@, 2);
    law_first_member_counts(list[2].1->Object_0, "type"@, 0);
    let list = fs_mkdir_tool().parameters->Object_0[1].1->Object_0;
    law_schemas_hold_their_parts(list, seq!["path"@], "string"@, ""@);
    law_first_member_counts(list, "path"@, 0);
    law_first_member_counts(list[0].1->Object_0, "type"@, 0);
    let list = fs_delete_tool().parameters->Object_0[1].1->Object_0;
    law_schemas_hold_their_parts(list, seq!["path"@], "string"@, ""@);
    law_first_member_counts(list, "path"@, 0);
    law_first_member_counts(list[0].1->Object_0, "type"@, 0);
}

/// The tools on commands and processes take exactly these arguments, of these types, and need those
/// that they are refused without.
pub proof fn law_command_tools_take_their_arguments()
    ensures
        shell_exec_tool().parameters.field("required"@) == word_list(seq!["command"@]),
        shell_exec_tool().parameters.field("properties"@)->Object_0.len() == 2,
        shell_exec_tool().parameters.field("properties"@).field("command"@).field("type"@)
            == JsonView::Text("string"@),
        shell_exec_tool().parameters.field("properties"@).field("cwd"@).field("type"@)
            == JsonView::Text("string"@),
        shell_bg_tool().parameters.field("required"@) == word_list(seq!["command"@]),
        shell_bg_tool().parameters.field("properties"@)->Object_0.len() == 2,
        shell_bg_tool().parameters.field("properties"@).field("command"@).field("type"@)
            == JsonView::Text("string"@),
        shell_bg_tool().parameters.field("properties"@).field("cwd"@).field("type"@)
            == JsonView::Text("string"@),
        shell_poll_tool().parameters.field("required"@) == word_list(seq!["pid"@]),
        shell_poll_tool().parameters.field("properties"@)->Object_0.len() == 2,
        shell_poll_tool().parameters.field("properties"@).field("pid"@).field("type"@)
            == JsonView::Text("integer"@),
        shell_poll_tool().parameters.field("properties"@).field("timeout_secs"@).field("type"@)
            == JsonView::Text("integer"@),
        pwd_tool().parameters.field("required"@) == word_list(Seq::empty()),
        pwd_tool().parameters.field("properties"@)->Object_0.len() == 0,
        memory_read_tool().parameters.field("required"@) == word_list(Seq::empty()),
        memory_read_tool().parameters.field("properties"@)->Object_0.len() == 0,
{
    reveal_strlit("cwd");
    reveal_strlit("command");
    reveal_strlit("timeout_secs");
    reveal_strlit("pid");
    reveal_strlit("type");
    reveal_strlit("enum");
    assert("cwd"@.len() == 3);
    assert("command"@.len() == 7);
    assert("timeout_secs"@.len() == 12);
    assert("pid"@.len() == 3);
    assert("type"@[0] == 't');
    assert("enum"@[0] == 'e');
    let list = shell_exec_tool().parameters->Object_0[1].1->Object_0;
    law_schemas_hold_their_parts(list, seq!["command"@], "string"@, ""@);
    law_first_member_counts(list, "command"@, 0);
    law_first_member_counts(list[0].1->Object_0, "type"@, 0);
    law_first_member_counts(list, "cwd"@, 1);
    law_first_member_counts(list[1].1->Object_0, "type"@, 0);
    let list = shell_bg_tool().parameters->Object_0[1].1->Object_0;
    law_schemas_hold_their_parts(list, seq!["command"@], "string"@, ""@);
    law_first_member_counts(list, "command"@, 0);
    law_first_member_counts(list[0].1->Object_0, "type"@, 0);
    law_first_member_counts(list, "cwd"@, 1);
    law_first_member_counts(list[1].1->Object_0, "type"@, 0);
    let list = shell_poll_tool().parameters->Object_0[1].1->Object_0;
    law_schemas_hold_their_parts(list, seq!["pid"@], "string"@, ""@);
    law_first_member_counts(list, "pid"@, 0);
    law_first_member_counts(list[0].1->Object_0, "type"@, 0);
    law_first_member_counts(list, "timeout_secs"@, 1);
    law_first_member_counts(list[1].1->Object_0, "type"@, 0);
    let list = pwd_tool().parameters->Object_0[1].1->Object_0;
    law_schemas_hold_their_parts(list, Seq::empty(), "string"@, ""@);
    let list = memory_read_tool().parameters->Object_0[1].1->Object_0;
    law_schemas_hold_their_parts(list, Seq::empty(), "string"@, ""@);
}

/// The tools on pages take exactly these arguments, of these types, and need those that they
/// are refused without.
pub proof fn law_web_tools_take_their_arguments(provider: Seq<char>)
    ensures
        web_fetch_tool().parameters.field("required"@) == word_list(seq!["url"@]),
        web_fetch_tool().parameters.field("properties"@)->Object_0.len() == 1,
        web_fetch_tool().parameters.field("properties"@).field("url"@).field("type"@)
            == JsonView::Text("string"@),
        web_search_tool(provider).parameters.field("required"@) == word_list(seq!["query"@]),
        web_search_tool(provider).parameters.field("properties"@)->Object_0.len() == 4,
        web_search_tool(provider).parameters.field("properties"@).field("query"@).field("type"@)
            == JsonView::Text("string"@),
        web_search_tool(provider).parameters.field("properties"@).field("kind"@).field("type"@)
            == JsonView::Text("string"@),
        web_search_tool(provider).parameters.field("properties"@).field("kind"@).field("enum"@)
            == word_list(seq!["web"@, "news"@, "deep"@]),
        web_search_tool(provider).parameters.field("properties"@).field("freshness"@).field("type"@)
            == JsonView::Text("string"@),
        web_search_tool(provider).parameters.field("properties"@).field("search_depth"@).field("type"@)
            == JsonView::Text("string"@),
        web_search_tool(provider).parameters.field("properties"@).field("search_depth"@).field("enum"@)
            == word_list(seq!["basic"@, "advanced"@]),
        read_url_tool().parameters.field("required"@) == word_list(seq!["url"@]),
        read_url_tool().parameters.field("properties"@)->Object_0.len() == 1,
        read_url_tool().parameters.field("properties"@).field("url"@).field("type"@)
            == JsonView::Text("string"@),
{
    reveal_strlit("kind");
    reveal_strlit("query");
    reveal_strlit("freshness");
    reveal_strlit("search_depth");
    reveal_strlit("type");
    reveal_strlit("enum");
    assert("kind"@.len() == 4);
    assert("query"@.len() == 5);
    assert("freshness"@.len() == 9);
    assert("search_depth"@.len() == 12);
    assert("type"@[0] == 't');
    assert("enum"@[0] == 'e');
    let list = web_fetch_tool().parameters->Object_0[1].1->Object_0;
    law_schemas_hold_their_parts(list, seq!["url"@], "string"@, ""@);
    law_first_member_counts(list, "url"@, 0);
    law_first_member_counts(list[0].1->Object_0, "type"@, 0);
    let list = web_search_tool(provider).parameters->Object_0[1].1->Object_0;
    law_schemas_hold_their_parts(list, seq!["query"@], "string"@, ""@);
    law_first_member_counts(list, "query"@, 0);
    law_first_member_counts(list[0].1->Object_0, "type"@, 0);
    law_first_member_counts(list, "kind"@, 1);
    law_first_member_counts(list[1].1->Object_0, "type"@, 0);
    law_first_member_counts(list[1].1->Object_0, "enum"@, 1);
    law_first_member_counts(list, "freshness"@, 2);
    law_first_member_counts(list[2].1->Object_0, "type"@, 0);
    law_first_member_counts(list, "search_depth"@, 3);
    law_first_member_counts(list[3].1->Object_0, "type"@, 0);
    law_first_member_counts(list[3].1->Object_0, "enum"@, 1);
    let list = read_url_tool().parameters->Object_0[1].1->Object_0;
    law_schemas_hold_their_parts(list, seq!["url"@], "string"@, ""@);
    law_first_member_counts(list, "url"@, 0);
    law_first_member_counts(list[0].1->Object_0, "type"@, 0);
}

/// The tool for plain requests takes exactly these arguments, of these types, and needs those that
/// it is refused without.
pub proof fn law_request_tools_take_their_arguments()
    ensures
        http_request_tool().parameters.field("required"@) == word_list(seq!["method"@, "url"@]),
        http_request_tool().parameters.field("properties"@)->Object_0.len() == 5,
        http_request_tool().parameters.field("properties"@).field("method"@).field("type"@)
            == JsonView::Text("string"@),
        http_request_tool().parameters.field("properties"@).field("method"@).field("enum"@)
            == word_list(seq!["GET"@, "POST"@, "PUT"@, "PATCH"@, "DELETE"@]),
        http_request_tool().parameters.field("properties"@).field("url"@).field("type"@)
            == JsonView::Text("string"@),
        http_request_tool().parameters.field("properties"@).field("headers"@).field("type"@)
            == JsonView::Text("object"@),
        http_request_tool().parameters.field("properties"@).field("body"@).field("type"@)
            == JsonView::Text("string"@),
        http_request_tool().parameters.field("properties"@).field("query"@).field("type"@)
            == JsonView::Text("object"@),
{
    reveal_strlit("url");
    reveal_strlit("method");
    reveal_strlit("headers");
    reveal_strlit("body");
    reveal_strlit("query");
    reveal_strlit("type");
    reveal_strlit("enum");
    assert("url"@.len() == 3);
    assert("method"@.len() == 6);
    assert("headers"@.len() == 7);
    assert("body"@.len() == 4);
    assert("query"@.len() == 5);
    assert("type"@[0] == 't');
    assert("enum"@[0] == 'e');
    let list = http_request_tool().parameters->Object_0[1].1->Object_0;
    law_schemas_hold_their_parts(list, seq!["method"@, "url"@], "string"@, ""@);
    law_first_member_counts(list, "method"@, 0);
    law_first_member_counts(list[0].1->Object_0, "type"@, 0);
    law_first_member_counts(list[0].1->Object_0, "enum"@, 1);
    law_first_member_counts(list, "url"@, 1);
    law_first_member_counts(list[1].1->Object_0, "type"@, 0);
    law_first_member_counts(list, "headers"@, 2);
    law_first_member_counts(list[2].1->Object_0, "type"@, 0);
    law_first_member_counts(list, "body"@, 3);
    law_first_member_counts(list[3].1->Object_0, "type"@, 0);
    law_first_member_counts(list, "query"@, 4);
    law_first_member_counts(list[4].1->Object_0, "type"@, 0);
}

/// The tool that searches files takes exactly these arguments, of these types, and needs those that
/// it is refused without.
pub proof fn law_search_tools_take_their_arguments()
    ensures
        grep_search_tool().parameters.field("required"@) == word_list(seq!["pattern"@]),
        grep_search_tool().parameters.field("properties"@)->Object_0.len() == 6,
        grep_search_tool().parameters.field("properties"@).field("pattern"@).field("type"@)
            == JsonView::Text("string"@),
        grep_search_tool().parameters.field("properties"@).field("path"@).field("type"@)
            == JsonView::Text("string"@),
        grep_search_tool().parameters.field("properties"@).field("glob"@).field("type"@)
            == JsonView::Text("string"@),
        grep_search_tool().parameters.field("properties"@).field("context_lines"@).field("type"@)
            == JsonView::Text("integer"@),
        grep_search_tool().parameters.field("properties"@).field("case_insensitive"@).field("type"@)
            == JsonView::Text("boolean"@),
        grep_search_tool().parameters.field("properties"@).field("max_results"@).field("type"@)
            == JsonView::Text("integer"@),
{
    reveal_strlit("path");
    reveal_strlit("pattern");
    reveal_strlit("glob");
    reveal_strlit("context_lines");
    reveal_strlit("case_insensitive");
    reveal_strlit("max_results");
    reveal_strlit("type");
    reveal_strlit("enum");
    assert("path"@.len() == 4);
    assert("pattern"@.len() == 7);
    assert("glob"@.len() == 4);
    assert("glob"@[0] == 'g');
    assert("path"@[0] == 'p');
    assert("context_lines"@.len() == 13);
    assert("case_insensitive"@.len() == 16);
    assert("max_results"@.len() == 11);
    assert("type"@[0] == 't');
    assert("enum"@[0] == 'e');
    let list = grep_search_tool().parameters->Object_0[1].1->Object_0;
    law_schemas_hold_their_parts(list, seq!["pattern"@], "string"@, ""@);
    law_first_member_counts(list, "pattern"@, 0);
    law_first_member_counts(list[0].1->Object_0, "type"@, 0);
    law_first_member_counts(list, "path"@, 1);
    law_first_member_counts(list[1].1->Object_0, "type"@, 0);
    law_first_member_counts(list, "glob"@, 2);
    law_first_member_counts(list[2].1->Object_0, "type"@, 0);
    law_first_member_counts(list, "context_lines"@, 3);
    law_first_member_counts(list[3].1->Object_0, "type"@, 0);
    law_first_member_counts(list, "case_insensitive"@, 4);
    law_first_member_counts(list[4].1->Object_0, "type"@, 0);
    law_first_member_counts(list, "max_results"@, 5);
    law_first_member_counts(list[5].1->Object_0, "type"@, 0);
}

/// The description of a tool is seen whole, and of a list of tools and of words every one, in
/// order.
pub proof fn law_tools_are_seen_whole(list: Seq<ToolDef>, words: Seq<&str>, i: int)
    ensures
        tool_views(list).len() == list.len(),
        0 <= i < list.len() ==> tool_views(list)[i].name == list[i].name@
            && tool_views(list)[i].description == list[i].description@
            && tool_views(list)[i].parameters == list[i].parameters@,
        strs(words).len() == words.len(),
        0 <= i < words.len() ==> strs(words)[i] == words[i]@,
{
}

} // verus!
