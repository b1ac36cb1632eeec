//! What a tool asks of the outside world, and what comes back.

use crate::http::{outcome, Failure, HttpCall, HttpCallView, HttpReply, HttpReplyView};
use crate::report::{entry_views, OutputView, ProcessOutput};
use crate::text::{opt_string, texts};
use crate::web::{WebState, WebStateView};
use vstd::prelude::*;

verus! {

/// What a tool takes from the environment.
#[derive(Debug, PartialEq)]
pub struct ToolEnv {
    /// The home directory.
    pub home: Option<String>,
    /// The user's login shell.
    pub shell: Option<String>,
}

/// What a tool takes from the environment, with its texts as sequences of characters.
pub struct EnvView {
    pub home: Option<Seq<char>>,
    pub shell: Option<Seq<char>>,
}

impl View for ToolEnv {
    type V = EnvView;

    open spec fn view(&self) -> EnvView {
        EnvView { home: opt_string(self.home), shell: opt_string(self.shell) }
    }
}

/// What a program is run for.
#[derive(Debug, PartialEq)]
pub enum Purpose {
    /// A command of the model.
    Command,
    /// The user's script that fetches a page.
    FetchScript,
    /// To see whether ripgrep is there, for the search that is described.
    Probe {
        pattern: String,
        path: String,
        glob: Option<String>,
        context_lines: u64,
        case_insensitive: bool,
        max_results: u64,
    },
    /// A search.
    Search { max_results: u64 },
}

/// What a program is run for, with its texts as sequences of characters.
pub enum PurposeView {
    Command,
    FetchScript,
    Probe {
        pattern: Seq<char>,
        path: Seq<char>,
        glob: Option<Seq<char>>,
        context_lines: u64,
        case_insensitive: bool,
        max_results: u64,
    },
    Search { max_results: u64 },
}

impl View for Purpose {
    type V = PurposeView;

    open spec fn view(&self) -> PurposeView {
        match self {
            Purpose::Command => PurposeView::Command,
            Purpose::FetchScript => PurposeView::FetchScript,
            Purpose::Probe {
                pattern,
                path,
                glob,
                context_lines,
                case_insensitive,
                max_results,
            } => PurposeView::Probe {
                pattern: pattern@,
                path: path@,
                glob: opt_string(*glob),
                context_lines: *context_lines,
                case_insensitive: *case_insensitive,
                max_results: *max_results,
            },
            Purpose::Search { max_results } => PurposeView::Search { max_results: *max_results },
        }
    }
}

/// What a tool asks for. Each is answered by one kind of event.
#[derive(Debug, PartialEq)]
pub enum ToolTask {
    /// Find out where `path` and `cwd` really are. Answer: `Canonical`.
    Locate { raw: String, path: String, cwd: String },
    /// Read the beginning of a file, at most `limit` bytes. Answer: `Bytes`.
    ReadStart { path: String, limit: u64 },
    /// List a directory. Answer: `Entries`.
    List { path: String },
    /// Create the directories above a file. Answer: `Made`.
    MakeParents { path: String, content: String },
    /// Write a file. Answer: `Did`.
    Write { path: String, content: String },
    /// Read a file in which a text is to be replaced. Answer: `Text`.
    ReadToPatch { path: String, old_text: String, new_text: String },
    /// Write a file in which a text was replaced. Answer: `Did`.
    WritePatched { path: String, content: String },
    /// Create a directory and those above it. Answer: `Did`.
    MakeDirs { path: String },
    /// Find out whether a path is a directory. Answer: `IsDir`.
    LookAt { path: String },
    /// Remove a file, or a directory with all that is in it. Answer: `Did`.
    Remove { path: String, directory: bool },
    /// Run a program to its end. Answer: `Ran`.
    Run { program: String, args: Vec<String>, workdir: Option<String>, purpose: Purpose },
    /// Start a program in the background. Answer: `Spawned`.
    Spawn { program: String, args: Vec<String>, cwd: String, command: String },
    /// Look at a background process. Answer: `Polled`.
    Poll { pid: u32, timeout_secs: u64 },
    /// Wait a moment for a background process and look at it again; the time is counted from the
    /// first wait on. Answer: `Waited`.
    Wait { pid: u32, timeout_secs: u64, output: String },
    /// Take the output of a background process that has ended, and forget the process. Answer:
    /// `Text`.
    Collect { pid: u32, code: Option<i32>, output: String },
    /// Send a request. Answer: `Replied`.
    Send { call: HttpCall, state: WebState },
    /// Read the memory file. Answer: `Text`.
    ReadMemory { path: String },
    /// Save a result in full. Answer: `Saved`.
    Save { content: String },
}

/// What a tool asks for, with its texts as sequences of characters.
pub enum TaskView {
    Locate { raw: Seq<char>, path: Seq<char>, cwd: Seq<char> },
    ReadStart { path: Seq<char>, limit: u64 },
    List { path: Seq<char> },
    MakeParents { path: Seq<char>, content: Seq<char> },
    Write { path: Seq<char>, content: Seq<char> },
    ReadToPatch { path: Seq<char>, old_text: Seq<char>, new_text: Seq<char> },
    WritePatched { path: Seq<char>, content: Seq<char> },
    MakeDirs { path: Seq<char> },
    LookAt { path: Seq<char> },
    Remove { path: Seq<char>, directory: bool },
    Run {
        program: Seq<char>,
        args: Seq<Seq<char>>,
        workdir: Option<Seq<char>>,
        purpose: PurposeView,
    },
    Spawn { program: Seq<char>, args: Seq<Seq<char>>, cwd: Seq<char>, command: Seq<char> },
    Poll { pid: u32, timeout_secs: u64 },
    Wait { pid: u32, timeout_secs: u64, output: Seq<char> },
    Collect { pid: u32, code: Option<i32>, output: Seq<char> },
    Send { call: HttpCallView, state: WebStateView },
    ReadMemory { path: Seq<char> },
    Save { content: Seq<char> },
}

impl View for ToolTask {
    type V = TaskView;

    open spec fn view(&self) -> TaskView {
        match self {
            ToolTask::Locate { raw, path, cwd } => TaskView::Locate {
                raw: raw@,
                path: path@,
                cwd: cwd@,
            },
            ToolTask::ReadStart { path, limit } => TaskView::ReadStart {
                path: path@,
                limit: *limit,
            },
            ToolTask::List { path } => TaskView::List { path: path@ },
            ToolTask::MakeParents { path, content } => TaskView::MakeParents {
                path: path@,
                content: content@,
            },
            ToolTask::Write { path, content } => TaskView::Write { path: path@, content: content@ },
            ToolTask::ReadToPatch { path, old_text, new_text } => TaskView::ReadToPatch {
                path: path@,
                old_text: old_text@,
                new_text: new_text@,
            },
            ToolTask::WritePatched { path, content } => TaskView::WritePatched {
                path: path@,
                content: content@,
            },
            ToolTask::MakeDirs { path } => TaskView::MakeDirs { path: path@ },
            ToolTask::LookAt { path } => TaskView::LookAt { path: path@ },
            ToolTask::Remove { path, directory } => TaskView::Remove {
                path: path@,
                directory: *directory,
            },
            ToolTask::Run { program, args, workdir, purpose } => TaskView::Run {
                program: program@,
                args: texts(args@),
                workdir: opt_string(*workdir),
                purpose: purpose@,
            },
            ToolTask::Spawn { program, args, cwd, command } => TaskView::Spawn {
                program: program@,
                args: texts(args@),
                cwd: cwd@,
                command: command@,
            },
            ToolTask::Poll { pid, timeout_secs } => TaskView::Poll {
                pid: *pid,
                timeout_secs: *timeout_secs,
            },
            ToolTask::Wait { pid, timeout_secs, output } => TaskView::Wait {
                pid: *pid,
                timeout_secs: *timeout_secs,
                output: output@,
            },
            ToolTask::Collect { pid, code, output } => TaskView::Collect {
                pid: *pid,
                code: *code,
                output: output@,
            },
            ToolTask::Send { call, state } => TaskView::Send { call: call@, state: state@ },
            ToolTask::ReadMemory { path } => TaskView::ReadMemory { path: path@ },
            ToolTask::Save { content } => TaskView::Save { content: content@ },
        }
    }
}

/// Whether a background process has ended.
#[derive(Debug, Clone, Copy, PartialEq, Eq, Structural)]
pub enum ProcessState {
    Running,
    /// It has ended; no code where a signal ended it.
    Ended(Option<i32>),
}

/// What was seen after a wait for a background process.
#[derive(Debug, Clone, Copy, PartialEq, Eq, Structural)]
pub enum WaitOutcome {
    /// The time is over.
    Expired,
    /// Nobody knows the process any more.
    Gone,
    /// The process, seen in time.
    Seen(ProcessState),
}

/// What a background process looks like.
#[derive(Debug, PartialEq)]
pub struct ProcessLook {
    /// Its output so far.
    pub output: String,
    pub state: ProcessState,
}

/// What comes back for what a tool asked for.
#[derive(Debug, PartialEq)]
pub enum ToolEvent {
    /// Where the path and the working directory really are, as far as that can be found out.
    Canonical { path: Option<Vec<u8>>, cwd: Option<Vec<u8>> },
    /// The bytes that were read.
    Bytes(Option<Vec<u8>>),
    /// The names of the entries, and whether each is a directory.
    Entries(Option<Vec<(String, bool)>>),
    /// Directories were created, or why not.
    Made(Option<Failure>),
    /// Whether it was done.
    Did(bool),
    /// The text that was read.
    Text(Option<String>),
    /// Whether it is a directory.
    IsDir(bool),
    /// What the program left, if it could be run.
    Ran(Option<ProcessOutput>),
    /// The id of the process, if it could be started.
    Spawned(Option<u32>),
    /// The process, if it is known.
    Polled(Option<ProcessLook>),
    Waited(WaitOutcome),
    /// The reply to the request.
    Replied(HttpReply),
    /// Where the result was saved, if it was.
    Saved(Option<String>),
}

/// What a background process looks like, with its text as a sequence of characters.
pub struct LookView {
    pub output: Seq<char>,
    pub state: ProcessState,
}

impl View for ProcessLook {
    type V = LookView;

    open spec fn view(&self) -> LookView {
        LookView { output: self.output@, state: self.state }
    }
}

/// What comes back, with its texts as sequences of characters.
pub enum EventView {
    Canonical { path: Option<Seq<u8>>, cwd: Option<Seq<u8>> },
    Bytes(Option<Seq<u8>>),
    Entries(Option<Seq<(Seq<char>, bool)>>),
    Made(Option<Seq<char>>),
    Did(bool),
    Text(Option<Seq<char>>),
    IsDir(bool),
    Ran(Option<OutputView>),
    Spawned(Option<u32>),
    Polled(Option<LookView>),
    Waited(WaitOutcome),
    Replied(HttpReplyView),
    Saved(Option<Seq<char>>),
}

/// The content of optional bytes.
pub open spec fn opt_bytes(b: Option<Vec<u8>>) -> Option<Seq<u8>> {
    match b {
        Some(v) => Some(v@),
        None => None,
    }
}

impl View for ToolEvent {
    type V = EventView;

    open spec fn view(&self) -> EventView {
        match self {
            ToolEvent::Canonical { path, cwd } => EventView::Canonical {
                path: opt_bytes(*path),
                cwd: opt_bytes(*cwd),
            },
            ToolEvent::Bytes(b) => EventView::Bytes(opt_bytes(*b)),
            ToolEvent::Entries(list) => EventView::Entries(
                match list {
                    Some(l) => Some(entry_views(l@)),
                    None => None,
                },
            ),
            ToolEvent::Made(f) => EventView::Made(
                match f {
                    Some(e) => Some(e@),
                    None => None,
                },
            ),
            ToolEvent::Did(b) => EventView::Did(*b),
            ToolEvent::Text(t) => EventView::Text(opt_string(*t)),
            ToolEvent::IsDir(b) => EventView::IsDir(*b),
            ToolEvent::Ran(o) => EventView::Ran(
                match o {
                    Some(output) => Some(output@),
                    None => None,
                },
            ),
            ToolEvent::Spawned(p) => EventView::Spawned(*p),
            ToolEvent::Polled(l) => EventView::Polled(
                match l {
                    Some(look) => Some(look@),
                    None => None,
                },
            ),
            ToolEvent::Waited(w) => EventView::Waited(*w),
            ToolEvent::Replied(r) => EventView::Replied(r@),
            ToolEvent::Saved(p) => EventView::Saved(opt_string(*p)),
        }
    }
}

/// A step of a tool.
#[derive(Debug, PartialEq)]
pub enum ToolStep {
    /// Do this and come back with the event.
    Act(ToolTask),
    /// The tool has ended.
    Done(Result<String, Failure>),
}

/// A step of a tool, with its texts as sequences of characters.
pub enum StepView {
    Act(TaskView),
    Done(Result<Seq<char>, Seq<char>>),
}

impl View for ToolStep {
    type V = StepView;

    open spec fn view(&self) -> StepView {
        match self {
            ToolStep::Act(task) => StepView::Act(task@),
            ToolStep::Done(r) => StepView::Done(outcome(*r)),
        }
    }
}

// ---- Laws --------------------------------------------------------------------------------------

/// What a tool asks of files is seen whole: the place, and every text.
pub proof fn law_file_tasks_are_seen_whole(
    path: String,
    raw: String,
    cwd: String,
    content: String,
    old_text: String,
    new_text: String,
    limit: u64,
    directory: bool,
)
    ensures
        (ToolTask::Locate { raw, path, cwd })@ == (TaskView::Locate {
            raw: raw@,
            path: path@,
            cwd: cwd@,
        }),
        (ToolTask::ReadStart { path, limit })@ == (TaskView::ReadStart { path: path@, limit }),
        (ToolTask::List { path })@ == (TaskView::List { path: path@ }),
        (ToolTask::MakeParents { path, content })@ == (TaskView::MakeParents {
            path: path@,
            content: content@,
        }),
        (ToolTask::Write { path, content })@ == (TaskView::Write {
            path: path@,
            content: content@,
        }),
        (ToolTask::ReadToPatch { path, old_text, new_text })@ == (TaskView::ReadToPatch {
            path: path@,
            old_text: old_text@,
            new_text: new_text@,
        }),
        (ToolTask::WritePatched { path, content })@ == (TaskView::WritePatched {
            path: path@,
            content: content@,
        }),
        (ToolTask::MakeDirs { path })@ == (TaskView::MakeDirs { path: path@ }),
        (ToolTask::LookAt { path })@ == (TaskView::LookAt { path: path@ }),
        (ToolTask::Remove { path, directory })@ == (TaskView::Remove { path: path@, directory }),
        (ToolTask::ReadMemory { path })@ == (TaskView::ReadMemory { path: path@ }),
        (ToolTask::Save { content })@ == (TaskView::Save { content: content@ }),
{
}

/// What a tool asks of programs and of the web is seen whole: the program, every argument, the
/// directory, what it is run for, the process, and the request.
pub proof fn law_other_tasks_are_seen_whole(
    program: String,
    args: Vec<String>,
    workdir: Option<String>,
    purpose: Purpose,
    cwd: String,
    command: String,
    pid: u32,
    timeout_secs: u64,
    code: Option<i32>,
    output: String,
    call: HttpCall,
    state: WebState,
)
    ensures
        (ToolTask::Run { program, args, workdir, purpose })@ == (TaskView::Run {
            program: program@,
            args: texts(args@),
            workdir: opt_string(workdir),
            purpose: purpose@,
        }),
        (ToolTask::Spawn { program, args, cwd, command })@ == (TaskView::Spawn {
            program: program@,
            args: texts(args@),
            cwd: cwd@,
            command: command@,
        }),
        (ToolTask::Poll { pid, timeout_secs })@ == (TaskView::Poll { pid, timeout_secs }),
        (ToolTask::Wait { pid, timeout_secs, output })@ == (TaskView::Wait {
            pid,
            timeout_secs,
            output: output@,
        }),
        (ToolTask::Collect { pid, code, output })@ == (TaskView::Collect {
            pid,
            code,
            output: output@,
        }),
        (ToolTask::Send { call, state })@ == (TaskView::Send { call: call@, state: state@ }),
{
}

/// What a program is run for is seen whole, and so is what a tool takes from the environment.
pub proof fn law_purposes_are_seen_whole(
    pattern: String,
    path: String,
    glob: Option<String>,
    context_lines: u64,
    case_insensitive: bool,
    max_results: u64,
    env: ToolEnv,
)
    ensures
        (Purpose::Probe {
            pattern,
            path,
            glob,
            context_lines,
            case_insensitive,
            max_results,
        })@ == (PurposeView::Probe {
            pattern: pattern@,
            path: path@,
            glob: opt_string(glob),
            context_lines,
            case_insensitive,
            max_results,
        }),
        (Purpose::Search { max_results })@ == (PurposeView::Search { max_results }),
        Purpose::Command@ is Command,
        Purpose::FetchScript@ is FetchScript,
        env@.home == opt_string(env.home),
        env@.shell == opt_string(env.shell),
{
}

/// What comes back to a tool is seen whole.
pub proof fn law_events_are_seen_whole(
    bytes: Vec<u8>,
    list: Vec<(String, bool)>,
    failure: Failure,
    b: bool,
    text: Option<String>,
    output: ProcessOutput,
    pid: Option<u32>,
    look: ProcessLook,
    reply: HttpReply,
)
    ensures
        (ToolEvent::Canonical { path: Some(bytes), cwd: None })@ == (EventView::Canonical {
            path: Some(bytes@),
            cwd: None,
        }),
        (ToolEvent::Canonical { path: None, cwd: Some(bytes) })@ == (EventView::Canonical {
            path: None,
            cwd: Some(bytes@),
        }),
        ToolEvent::Bytes(Some(bytes))@ == EventView::Bytes(Some(bytes@)),
        ToolEvent::Bytes(None)@ == EventView::Bytes(None),
        ToolEvent::Entries(Some(list))@ == EventView::Entries(Some(entry_views(list@))),
        ToolEvent::Entries(None)@ == EventView::Entries(None),
        ToolEvent::Made(Some(failure))@ == EventView::Made(Some(failure@)),
        ToolEvent::Made(None)@ == EventView::Made(None),
        ToolEvent::Did(b)@ == EventView::Did(b),
        ToolEvent::Text(text)@ == EventView::Text(opt_string(text)),
        ToolEvent::IsDir(b)@ == EventView::IsDir(b),
        ToolEvent::Ran(Some(output))@ == EventView::Ran(Some(output@)),
        ToolEvent::Ran(None)@ == EventView::Ran(None),
        ToolEvent::Spawned(pid)@ == EventView::Spawned(pid),
        ToolEvent::Polled(Some(look))@ == EventView::Polled(
            Some(LookView { output: look.output@, state: look.state }),
        ),
        ToolEvent::Polled(None)@ == EventView::Polled(None),
        ToolEvent::Replied(reply)@ == EventView::Replied(reply@),
        ToolEvent::Saved(text)@ == EventView::Saved(opt_string(text)),
{
}

/// A step is seen whole: what it asks for, or how the tool ended.
pub proof fn law_steps_are_seen_whole(task: ToolTask, text: String, failure: Failure)
    ensures
        ToolStep::Act(task)@ == StepView::Act(task@),
        ToolStep::Done(Ok(text))@ == StepView::Done(Ok(text@)),
        ToolStep::Done(Err(failure))@ == StepView::Done(Err(failure.message@)),
{
}

} // verus!
