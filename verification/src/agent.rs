//! The agent: a conversation with the model in which its tool calls are made, with the user's
//! approval where they change something, until it answers in text.

use crate::approval::{
    approval_summary, command_safe, law_changing_tools_ask, law_http_asks_unless_get, question,
};
use crate::client::{chat_call, AiClient};
use crate::config::{AssistantConfig, ConfigView};
use crate::execute::{
    concluded, cwd_after, execute, fs_list_started, fs_read_started, grep_search_started,
    http_request_started, proceed, proceeded, read_url_started, refused, shell_exec_started,
    shell_poll_started, started, web_fetch_started, web_search_started,
};
use crate::http::{Failure, HttpCall, Method};
use crate::json::{items, parse_text, parsed, Json, JsonView};
use crate::messages::{
    call_schemas, call_views, calls_to_json, calls_turn, law_answers_hold_their_results,
    message_views, said, tool_answer, ApiMessage, ToolCall, ToolCallView,
};
use crate::paths::{config_dir, joined_path};
use crate::task::{EnvView, EventView, StepView, TaskView, ToolEnv, ToolEvent, ToolStep, ToolTask};
use crate::text::{cat, clip, clipped, same, uppered};
use vstd::prelude::*;
use vstd::string::*;
use vstd::utf8::*;

verus! {

// ---- Titles ------------------------------------------------------------------------------------

/// A message of a conversation that was kept.
#[derive(Debug, PartialEq)]
pub struct PersistedMessage {
    pub role: String,
    pub content: String,
}

/// The contents of kept messages: role and content.
pub open spec fn kept_views(list: Seq<PersistedMessage>) -> Seq<(Seq<char>, Seq<char>)> {
    Seq::new(list.len(), |i: int| (list[i].role@, list[i].content@))
}

/// What asks for a title.
pub const TITLER_PROMPT: &'static str = "You are a titler. Summarize the following conversation in a short phrase (max 40 characters). Use the same language as the conversation. Return only the phrase, no quotes.";

/// At most the last `n` elements of a sequence.
pub open spec fn last_of<T>(s: Seq<T>, n: nat) -> Seq<T> {
    if s.len() <= n {
        s
    } else {
        s.skip(s.len() - n)
    }
}

/// A kept message as the API is told of it: whoever is not the user is the assistant.
pub open spec fn retold(message: (Seq<char>, Seq<char>)) -> JsonView {
    if message.0 == "user"@ {
        said("user"@, message.1)
    } else {
        said("assistant"@, message.1)
    }
}

/// The messages that ask for the title of a conversation: at most its last twenty messages.
pub open spec fn title_messages(kept: Seq<(Seq<char>, Seq<char>)>) -> Seq<JsonView> {
    seq![said("system"@, TITLER_PROMPT@)] + last_of(kept, 20).map_values(
        |m: (Seq<char>, Seq<char>)| retold(m),
    )
}

/// The request for a short title of a conversation. `summary_title` makes the title of the answer.
pub fn generate_summary(client: &AiClient, messages: &[PersistedMessage]) -> (r: HttpCall)
    ensures
        r@ == chat_call(
            client@,
            client@.chat_model,
            title_messages(kept_views(messages@)),
            Seq::empty(),
        ),
{
    let n = messages.len();
    let start: usize = if n > 20 {
        n - 20
    } else {
        0
    };
    let mut list: Vec<ApiMessage> = Vec::new();
    list.push(ApiMessage::system(TITLER_PROMPT));
    let ghost window = last_of(kept_views(messages@), 20);
    let ghost all = title_messages(kept_views(messages@));
    let mut i: usize = start;
    assert(message_views(list@) == all.take(1));
    while i < n
        invariant
            start <= i <= n,
            n == messages@.len(),
            start == (if n > 20 {
                n - 20
            } else {
                0
            }),
            window == last_of(kept_views(messages@), 20),
            all == title_messages(kept_views(messages@)),
            message_views(list@) == all.take(1 + i - start),
        decreases n - i,
    {
        let m = &messages[i];
        let told = if same(m.role.as_str(), "user") {
            ApiMessage::user(m.content.as_str())
        } else {
            ApiMessage::assistant(m.content.as_str())
        };
        assert(window[i - start] == (m.role@, m.content@));
        assert(all[1 + i - start] == told@);
        let ghost before = message_views(list@);
        list.push(told);
        assert(message_views(list@) == before.push(told@));
        assert(all.take(2 + i - start) == all.take(1 + i - start).push(told@));
        i = i + 1;
    }
    assert(all.take(1 + n - start) == all);
    client.complete_once(client.config().chat_model.as_str(), list.as_slice())
}

/// The title that an answer gives: at most its first forty characters.
pub fn summary_title(summary: &str) -> (r: String)
    ensures
        r@ == clipped(summary@, 40),
        r@.len() <= 40,
{
    clip(summary, 40)
}

// ---- What the user sees ------------------------------------------------------------------------

/// What the user is shown of a run.
#[derive(Debug, PartialEq)]
pub enum StreamMsg {
    AssistantStart,
    Token(String),
    ToolStart { name: String, args_preview: String },
    ToolDone { result_preview: String },
    ToolFailed { error: String },
    ApprovalRequired { summary: String },
    Error(String),
    Done,
}

/// What the user is shown, with its texts as sequences of characters.
pub enum MsgView {
    AssistantStart,
    Token(Seq<char>),
    ToolStart { name: Seq<char>, args_preview: Seq<char> },
    ToolDone { result_preview: Seq<char> },
    ToolFailed { error: Seq<char> },
    ApprovalRequired { summary: Seq<char> },
    Error(Seq<char>),
    Done,
}

impl View for StreamMsg {
    type V = MsgView;

    open spec fn view(&self) -> MsgView {
        match self {
            StreamMsg::AssistantStart => MsgView::AssistantStart,
            StreamMsg::Token(t) => MsgView::Token(t@),
            StreamMsg::ToolStart { name, args_preview } => MsgView::ToolStart {
                name: name@,
                args_preview: args_preview@,
            },
            StreamMsg::ToolDone { result_preview } => MsgView::ToolDone {
                result_preview: result_preview@,
            },
            StreamMsg::ToolFailed { error } => MsgView::ToolFailed { error: error@ },
            StreamMsg::ApprovalRequired { summary } => MsgView::ApprovalRequired {
                summary: summary@,
            },
            StreamMsg::Error(t) => MsgView::Error(t@),
            StreamMsg::Done => MsgView::Done,
        }
    }
}

/// The contents of a list of what the user is shown.
pub open spec fn msg_views(list: Seq<StreamMsg>) -> Seq<MsgView> {
    Seq::new(list.len(), |i: int| list[i]@)
}

/// The argument of a call that says most: one of the usual names, or else the first one.
pub open spec fn telling_argument(args: JsonView) -> JsonView {
    if args.get("query"@) is Some {
        args.field("query"@)
    } else if args.get("path"@) is Some {
        args.field("path"@)
    } else if args.get("url"@) is Some {
        args.field("url"@)
    } else if args.get("pattern"@) is Some {
        args.field("pattern"@)
    } else if args.get("command"@) is Some {
        args.field("command"@)
    } else {
        match args {
            JsonView::Object(list) => if list.len() > 0 {
                list[0].1
            } else {
                JsonView::Null
            },
            _ => JsonView::Null,
        }
    }
}

/// What is shown of the arguments of a call.
pub open spec fn preview(args: JsonView) -> Seq<char> {
    clipped(telling_argument(args).text_or(""@), 40)
}

fn find_telling(args: &Json) -> (r: &Json)
    ensures
        r@ == telling_argument(args@),
{
    if let Some(v) = args.get("query") {
        return v;
    }
    if let Some(v) = args.get("path") {
        return v;
    }
    if let Some(v) = args.get("url") {
        return v;
    }
    if let Some(v) = args.get("pattern") {
        return v;
    }
    if let Some(v) = args.get("command") {
        return v;
    }
    match args {
        Json::Object(list) => {
            proof {
                crate::json::lemma_object_view(*list);
            }
            if list.len() > 0 {
                &list[0].1
            } else {
                &Json::Null
            }
        },
        _ => &Json::Null,
    }
}

fn make_preview(args: &Json) -> (r: String)
    ensures
        r@ == preview(args@),
{
    clip(find_telling(args).text_or(""), 40)
}

// ---- A run -------------------------------------------------------------------------------------

/// The largest number of times that the model is asked.
pub const MAX_ROUNDS: u64 = 15;

/// What a run waits for.
#[derive(Debug, PartialEq)]
pub enum Stage {
    /// Whether the user has cancelled, before the model is asked. Answer: `Cancelled`.
    Round,
    /// What the model says. Answers: any number of `Token`s, then `Answered`.
    Chatting { started: bool },
    /// Whether the user has cancelled, before a tool call is made. Answer: `Cancelled`.
    Call,
    /// Whether the user approves of a tool call. Answer: `Approved`.
    Asking,
    /// What a tool asked for. Answer: `Tool`.
    Tool(ToolTask),
    /// Nothing: the run has ended.
    Over,
}

/// What a run waits for, with its texts as sequences of characters.
pub enum StageView {
    Round,
    Chatting { started: bool },
    Call,
    Asking,
    Tool(TaskView),
    Over,
}

impl View for Stage {
    type V = StageView;

    open spec fn view(&self) -> StageView {
        match self {
            Stage::Round => StageView::Round,
            Stage::Chatting { started } => StageView::Chatting { started: *started },
            Stage::Call => StageView::Call,
            Stage::Asking => StageView::Asking,
            Stage::Tool(task) => StageView::Tool(task@),
            Stage::Over => StageView::Over,
        }
    }
}

/// What comes back to a run.
#[derive(Debug, PartialEq)]
pub enum AgentEvent {
    /// Whether the user has cancelled.
    Cancelled(bool),
    /// A piece of text from the model.
    Token(String),
    /// The tool calls that the model asks for, or why there is no answer.
    Answered(Result<Vec<ToolCall>, Failure>),
    /// Whether the user approves.
    Approved(bool),
    /// What came back for what a tool asked for.
    Tool(ToolEvent),
}

/// What comes back to a run, with its texts as sequences of characters.
pub enum AgentEventView {
    Cancelled(bool),
    Token(Seq<char>),
    Answered(Result<Seq<ToolCallView>, Seq<char>>),
    Approved(bool),
    Tool(EventView),
}

impl View for AgentEvent {
    type V = AgentEventView;

    open spec fn view(&self) -> AgentEventView {
        match self {
            AgentEvent::Cancelled(b) => AgentEventView::Cancelled(*b),
            AgentEvent::Token(t) => AgentEventView::Token(t@),
            AgentEvent::Answered(r) => AgentEventView::Answered(
                match r {
                    Ok(calls) => Ok(call_views(calls@)),
                    Err(e) => Err(e@),
                },
            ),
            AgentEvent::Approved(b) => AgentEventView::Approved(*b),
            AgentEvent::Tool(e) => AgentEventView::Tool(e@),
        }
    }
}

/// A run of the agent.
#[derive(Debug)]
pub struct AgentRun {
    config: AssistantConfig,
    env: ToolEnv,
    rounds_left: u64,
    messages: Vec<ApiMessage>,
    cwd: String,
    calls: Vec<ToolCall>,
    at: usize,
    stage: Stage,
}

/// A run of the agent, with its texts as sequences of characters.
#[verifier::ext_equal]
pub struct RunView {
    pub config: ConfigView,
    pub env: EnvView,
    /// How often the model may still be asked.
    pub rounds_left: u64,
    /// The conversation so far.
    pub messages: Seq<JsonView>,
    pub cwd: Seq<char>,
    /// The tool calls of this round.
    pub calls: Seq<ToolCallView>,
    /// The call that is being made.
    pub at: int,
    pub stage: StageView,
}

impl View for AgentRun {
    type V = RunView;

    closed spec fn view(&self) -> RunView {
        RunView {
            config: self.config@,
            env: self.env@,
            rounds_left: self.rounds_left,
            messages: message_views(self.messages@),
            cwd: self.cwd@,
            calls: call_views(self.calls@),
            at: self.at as int,
            stage: self.stage@,
        }
    }
}

impl RunView {
    /// While calls are made, there is one that is being made; and the rounds are counted.
    pub open spec fn wf(self) -> bool {
        &&& self.rounds_left <= MAX_ROUNDS
        &&& self.stage is Round ==> self.rounds_left > 0
        &&& self.stage is Call || self.stage is Asking || self.stage is Tool ==> 0 <= self.at
            < self.calls.len()
    }

    /// The call that is being made.
    pub open spec fn call(self) -> ToolCallView {
        self.calls[self.at]
    }

    /// The arguments of the call that is being made; null where they are no JSON document.
    pub open spec fn args(self) -> JsonView {
        match parsed(encode_utf8(self.call().arguments)) {
            Some(args) => args,
            None => JsonView::Null,
        }
    }

    /// What the user is asked before the call is made.
    pub open spec fn question(self) -> Option<Seq<char>> {
        question(self.call().name, self.args())
    }
}

/// A run after a step, and what the user is shown of the step.
pub struct AfterView {
    pub run: RunView,
    pub shown: Seq<MsgView>,
}

/// What the user is told when the model was asked too often.
pub const ROUNDS_OVER: &'static str = "Reached the maximum number of tool-call rounds (15).";

/// The run ends without an answer in text: the model was asked as often as it may be.
pub open spec fn run_out(run: RunView, shown: Seq<MsgView>) -> AfterView {
    AfterView {
        run: RunView { stage: StageView::Over, ..run },
        shown: shown.push(MsgView::Error(ROUNDS_OVER@)).push(MsgView::Done),
    }
}

/// The run ends because the user has cancelled.
pub open spec fn run_stopped(run: RunView) -> AfterView {
    AfterView { run: RunView { stage: StageView::Over, ..run }, shown: seq![MsgView::Done] }
}

/// A round has ended: the next one begins where there is one left.
pub open spec fn round_ended(run: RunView, shown: Seq<MsgView>) -> AfterView {
    if run.rounds_left == 0 {
        run_out(run, shown)
    } else {
        AfterView { run: RunView { stage: StageView::Round, ..run }, shown }
    }
}

/// A call has ended with what the model is told of it: the next one follows where there is one.
pub open spec fn call_ended(run: RunView, content: Seq<char>, shown: Seq<MsgView>) -> AfterView {
    let told = RunView { messages: run.messages.push(tool_answer(run.call().id, content)), ..run };
    if run.at + 1 < run.calls.len() {
        AfterView {
            run: RunView { at: run.at + 1, stage: StageView::Call, ..told },
            shown,
        }
    } else {
        round_ended(told, shown)
    }
}

/// A tool has taken a step.
pub open spec fn tool_stepped(run: RunView, step: StepView, shown: Seq<MsgView>) -> AfterView {
    match step {
        StepView::Act(task) => AfterView {
            run: RunView { stage: StageView::Tool(task), ..run },
            shown,
        },
        StepView::Done(Ok(text)) => call_ended(
            run,
            text,
            shown.push(MsgView::ToolDone { result_preview: Seq::empty() }),
        ),
        StepView::Done(Err(words)) => call_ended(
            run,
            "Error: "@ + words,
            shown.push(MsgView::ToolFailed { error: words }),
        ),
    }
}

/// What the user is shown when the tool of a call is started.
pub open spec fn tool_start(run: RunView) -> Seq<MsgView> {
    seq![MsgView::ToolStart { name: run.call().name, args_preview: preview(run.args()) }]
}

/// The tool of a call is started.
pub open spec fn tool_begun(run: RunView) -> AfterView {
    tool_stepped(
        run,
        started(run.call().name, run.args(), run.cwd, run.env, run.config),
        tool_start(run),
    )
}

/// A round is entered, unless the user has cancelled.
pub open spec fn round_entered(run: RunView, cancelled: bool) -> AfterView {
    if cancelled {
        run_stopped(run)
    } else {
        AfterView {
            run: RunView {
                rounds_left: (run.rounds_left - 1) as u64,
                stage: StageView::Chatting { started: false },
                ..run
            },
            shown: Seq::empty(),
        }
    }
}

/// The model has said a piece of text.
pub open spec fn token_heard(run: RunView, started: bool, token: Seq<char>) -> AfterView {
    AfterView {
        run: RunView { stage: StageView::Chatting { started: true }, ..run },
        shown: if started {
            seq![MsgView::Token(token)]
        } else {
            seq![MsgView::AssistantStart, MsgView::Token(token)]
        },
    }
}

/// The model has answered: in text, which ends the run, or with tool calls.
pub open spec fn answer_heard(
    run: RunView,
    answer: Result<Seq<ToolCallView>, Seq<char>>,
) -> AfterView {
    match answer {
        Err(words) => AfterView {
            run: RunView { stage: StageView::Over, ..run },
            shown: seq![MsgView::Error(words)],
        },
        Ok(calls) => if calls.len() == 0 {
            AfterView {
                run: RunView { stage: StageView::Over, ..run },
                shown: seq![MsgView::Done],
            }
        } else {
            AfterView {
                run: RunView {
                    messages: run.messages.push(calls_turn(call_schemas(calls))),
                    calls,
                    at: 0,
                    stage: StageView::Call,
                    ..run
                },
                shown: Seq::empty(),
            }
        },
    }
}

/// A call is taken up: the user is asked, or the tool is started. Where the user has cancelled, the
/// round ends without a further call.
pub open spec fn call_taken_up(run: RunView, cancelled: bool) -> AfterView {
    if cancelled {
        round_ended(run, Seq::empty())
    } else {
        match run.question() {
            Some(summary) => AfterView {
                run: RunView { stage: StageView::Asking, ..run },
                shown: seq![MsgView::ApprovalRequired { summary }],
            },
            None => tool_begun(run),
        }
    }
}

/// The user has decided about a call.
pub open spec fn call_decided(run: RunView, approved: bool) -> AfterView {
    if approved {
        tool_begun(run)
    } else {
        call_ended(
            run,
            "Error: user rejected the operation."@,
            seq![MsgView::ToolFailed { error: "Operation rejected by user."@ }],
        )
    }
}

/// What a tool asked for has come back.
pub open spec fn tool_answered(run: RunView, task: TaskView, event: EventView) -> AfterView {
    tool_stepped(
        RunView { cwd: cwd_after(run.cwd, task, event), ..run },
        proceeded(task, event),
        Seq::empty(),
    )
}

/// A run after an event. An event that the run does not wait for changes nothing.
pub open spec fn stepped(run: RunView, event: AgentEventView) -> AfterView {
    match (run.stage, event) {
        (StageView::Round, AgentEventView::Cancelled(cancelled)) => round_entered(run, cancelled),
        (StageView::Chatting { started }, AgentEventView::Token(token)) => token_heard(
            run,
            started,
            token,
        ),
        (StageView::Chatting { .. }, AgentEventView::Answered(answer)) => answer_heard(run, answer),
        (StageView::Call, AgentEventView::Cancelled(cancelled)) => call_taken_up(run, cancelled),
        (StageView::Asking, AgentEventView::Approved(approved)) => call_decided(run, approved),
        (StageView::Tool(task), AgentEventView::Tool(tool_event)) => tool_answered(
            run,
            task,
            tool_event,
        ),
        _ => AfterView { run, shown: Seq::empty() },
    }
}

/// A run that has not begun.
pub open spec fn fresh_run(
    config: ConfigView,
    env: EnvView,
    messages: Seq<JsonView>,
    cwd: Seq<char>,
) -> RunView {
    RunView {
        config,
        env,
        rounds_left: MAX_ROUNDS,
        messages,
        cwd,
        calls: Seq::empty(),
        at: 0,
        stage: StageView::Round,
    }
}

/// Begins a run: the model is asked and its tool calls are made until it answers in text or the
/// round limit is reached.
pub fn run_agent(
    config: AssistantConfig,
    env: ToolEnv,
    messages: Vec<ApiMessage>,
    cwd: String,
) -> (r: AgentRun)
    ensures
        r@ == fresh_run(config@, env@, message_views(messages@), cwd@),
        r@.wf(),
{
    let r = AgentRun {
        config,
        env,
        rounds_left: MAX_ROUNDS,
        messages,
        cwd,
        calls: Vec::new(),
        at: 0,
        stage: Stage::Round,
    };
    assert(r@ =~= fresh_run(config@, env@, message_views(messages@), cwd@));
    r
}

fn show(list: &mut Vec<StreamMsg>, msg: StreamMsg)
    ensures
        msg_views(final(list)@) == msg_views(old(list)@).push(msg@),
{
    list.push(msg);
    assert(msg_views(list@) == msg_views(old(list)@).push(msg@));
}

fn nothing() -> (r: Vec<StreamMsg>)
    ensures
        msg_views(r@) == Seq::<MsgView>::empty(),
{
    let r: Vec<StreamMsg> = Vec::new();
    assert(msg_views(r@) == Seq::<MsgView>::empty());
    r
}

fn single(msg: StreamMsg) -> (r: Vec<StreamMsg>)
    ensures
        msg_views(r@) == seq![msg@],
{
    let mut r = nothing();
    show(&mut r, msg);
    assert(msg_views(r@) == seq![msg@]);
    r
}

/// The parts of a step as one value.
pub open spec fn after(run: AgentRun, shown: Seq<StreamMsg>) -> AfterView {
    AfterView { run: run@, shown: msg_views(shown) }
}

impl AgentRun {
    /// What the run waits for.
    pub fn stage(&self) -> (r: &Stage)
        ensures
            r@ == self@.stage,
    {
        &self.stage
    }

    /// The conversation so far.
    pub fn messages(&self) -> (r: &[ApiMessage])
        ensures
            message_views(r@) == self@.messages,
    {
        self.messages.as_slice()
    }

    /// The request to the model: the whole conversation so far, and the tools that it may call.
    pub fn request(&self, client: &AiClient, model: &str, tools: &[Json]) -> (r: HttpCall)
        ensures
            r@ == chat_call(client@, model@, self@.messages, items(tools@)),
    {
        client.chat_step(model, self.messages.as_slice(), tools)
    }

    /// The working directory.
    pub fn cwd(&self) -> (r: &str)
        ensures
            r@ == self@.cwd,
    {
        self.cwd.as_str()
    }

    fn run_out(self, shown: Vec<StreamMsg>) -> (r: (AgentRun, Vec<StreamMsg>))
        ensures
            after(r.0, r.1@) == run_out(self@, msg_views(shown@)),
    {
        let mut shown = shown;
        show(&mut shown, StreamMsg::Error(ROUNDS_OVER.to_string()));
        show(&mut shown, StreamMsg::Done);
        let run = AgentRun { stage: Stage::Over, ..self };
        (run, shown)
    }

    fn stop(self) -> (r: (AgentRun, Vec<StreamMsg>))
        ensures
            after(r.0, r.1@) == run_stopped(self@),
    {
        (AgentRun { stage: Stage::Over, ..self }, single(StreamMsg::Done))
    }

    fn end_round(self, shown: Vec<StreamMsg>) -> (r: (AgentRun, Vec<StreamMsg>))
        ensures
            after(r.0, r.1@) == round_ended(self@, msg_views(shown@)),
    {
        if self.rounds_left == 0 {
            self.run_out(shown)
        } else {
            (AgentRun { stage: Stage::Round, ..self }, shown)
        }
    }

    fn end_call(self, content: &str, shown: Vec<StreamMsg>) -> (r: (AgentRun, Vec<StreamMsg>))
        requires
            self@.at < self@.calls.len(),
        ensures
            after(r.0, r.1@) == call_ended(self@, content@, msg_views(shown@)),
    {
        let mut run = self;
        let answer = ApiMessage::tool_result(run.calls[run.at].id.as_str(), content);
        run.messages.push(answer);
        assert(message_views(run.messages@) == message_views(self.messages@).push(answer@));
        if run.at < run.calls.len() - 1 {
            let at = run.at + 1;
            (AgentRun { at, stage: Stage::Call, ..run }, shown)
        } else {
            run.end_round(shown)
        }
    }

    fn take_tool_step(self, step: ToolStep, shown: Vec<StreamMsg>) -> (r: (
        AgentRun,
        Vec<StreamMsg>,
    ))
        requires
            self@.at < self@.calls.len(),
        ensures
            after(r.0, r.1@) == tool_stepped(self@, step@, msg_views(shown@)),
    {
        let mut shown = shown;
        match step {
            ToolStep::Act(task) => (AgentRun { stage: Stage::Tool(task), ..self }, shown),
            ToolStep::Done(Ok(text)) => {
                let preview = String::new();
                show(&mut shown, StreamMsg::ToolDone { result_preview: preview });
                self.end_call(text.as_str(), shown)
            },
            ToolStep::Done(Err(e)) => {
                let content = cat("Error: ", e.message.as_str());
                show(&mut shown, StreamMsg::ToolFailed { error: e.message });
                self.end_call(content.as_str(), shown)
            },
        }
    }

    fn call_args(&self) -> (r: Json)
        requires
            self@.at < self@.calls.len(),
        ensures
            r@ == self@.args(),
    {
        match parse_text(self.calls[self.at].arguments.as_str()) {
            Some(args) => args,
            None => Json::Null,
        }
    }

    fn begin_tool(self) -> (r: (AgentRun, Vec<StreamMsg>))
        requires
            self@.at < self@.calls.len(),
        ensures
            after(r.0, r.1@) == tool_begun(self@),
    {
        let args = self.call_args();
        let name = self.calls[self.at].name.clone();
        let step = execute(name.as_str(), &args, self.cwd.as_str(), &self.env, &self.config);
        let args_preview = make_preview(&args);
        let shown = single(StreamMsg::ToolStart { name, args_preview });
        self.take_tool_step(step, shown)
    }

    fn enter_round(self, cancelled: bool) -> (r: (AgentRun, Vec<StreamMsg>))
        requires
            self@.rounds_left > 0,
        ensures
            after(r.0, r.1@) == round_entered(self@, cancelled),
    {
        if cancelled {
            self.stop()
        } else {
            let rounds_left = self.rounds_left - 1;
            (AgentRun { rounds_left, stage: Stage::Chatting { started: false }, ..self }, nothing())
        }
    }

    fn hear_token(self, started: bool, token: String) -> (r: (AgentRun, Vec<StreamMsg>))
        ensures
            after(r.0, r.1@) == token_heard(self@, started, token@),
    {
        let mut shown = nothing();
        if !started {
            show(&mut shown, StreamMsg::AssistantStart);
        }
        show(&mut shown, StreamMsg::Token(token));
        assert(msg_views(shown@) == token_heard(self@, started, token@).shown);
        (AgentRun { stage: Stage::Chatting { started: true }, ..self }, shown)
    }

    fn hear_answer(self, answer: Result<Vec<ToolCall>, Failure>) -> (r: (AgentRun, Vec<StreamMsg>))
        ensures
            after(r.0, r.1@) == answer_heard(
                self@,
                match answer {
                    Ok(calls) => Ok(call_views(calls@)),
                    Err(e) => Err(e@),
                },
            ),
    {
        match answer {
            Err(e) => (
                AgentRun { stage: Stage::Over, ..self },
                single(StreamMsg::Error(e.message)),
            ),
            Ok(calls) => if calls.len() == 0 {
                (AgentRun { stage: Stage::Over, ..self }, single(StreamMsg::Done))
            } else {
                let turn = ApiMessage::assistant_tool_calls(calls_to_json(calls.as_slice()));
                let mut run = self;
                run.messages.push(turn);
                assert(message_views(run.messages@) == message_views(self.messages@).push(turn@));
                (AgentRun { calls, at: 0, stage: Stage::Call, ..run }, nothing())
            },
        }
    }

    fn take_up_call(self, cancelled: bool) -> (r: (AgentRun, Vec<StreamMsg>))
        requires
            self@.at < self@.calls.len(),
        ensures
            after(r.0, r.1@) == call_taken_up(self@, cancelled),
    {
        if cancelled {
            return self.end_round(nothing());
        }
        let args = self.call_args();
        match approval_summary(self.calls[self.at].name.as_str(), &args) {
            Some(summary) => (
                AgentRun { stage: Stage::Asking, ..self },
                single(StreamMsg::ApprovalRequired { summary }),
            ),
            None => self.begin_tool(),
        }
    }

    fn decide_call(self, approved: bool) -> (r: (AgentRun, Vec<StreamMsg>))
        requires
            self@.at < self@.calls.len(),
        ensures
            after(r.0, r.1@) == call_decided(self@, approved),
    {
        if approved {
            self.begin_tool()
        } else {
            let error = "Operation rejected by user.".to_string();
            self.end_call(
                "Error: user rejected the operation.",
                single(StreamMsg::ToolFailed { error }),
            )
        }
    }

    fn answer_tool(self, task: ToolTask, event: ToolEvent) -> (r: (AgentRun, Vec<StreamMsg>))
        requires
            self@.at < self@.calls.len(),
        ensures
            after(r.0, r.1@) == tool_answered(self@, task@, event@),
    {
        let mut run = self;
        let step = proceed(task, event, &mut run.cwd);
        run.take_tool_step(step, nothing())
    }

    /// Goes on with the run after an event, and tells what the user is shown.
    pub fn advance(self, event: AgentEvent) -> (r: (AgentRun, Vec<StreamMsg>))
        requires
            self@.wf(),
        ensures
            after(r.0, r.1@) == stepped(self@, event@),
            r.0@.wf(),
    {
        proof {
            law_runs_stay_well_formed(self@, event@);
        }
        let mut run = self;
        let mut stage = Stage::Over;
        std::mem::swap(&mut run.stage, &mut stage);
        match (stage, event) {
            (Stage::Round, AgentEvent::Cancelled(cancelled)) => run.enter_round(cancelled),
            (Stage::Chatting { started }, AgentEvent::Token(token)) => run.hear_token(
                started,
                token,
            ),
            (Stage::Chatting { started: _ }, AgentEvent::Answered(answer)) => run.hear_answer(
                answer,
            ),
            (Stage::Call, AgentEvent::Cancelled(cancelled)) => run.take_up_call(cancelled),
            (Stage::Asking, AgentEvent::Approved(approved)) => run.decide_call(approved),
            (Stage::Tool(task), AgentEvent::Tool(tool_event)) => run.answer_tool(task, tool_event),
            (stage, _) => (AgentRun { stage, ..run }, nothing()),
        }
    }
}

// ---- Laws --------------------------------------------------------------------------------------

/// What holds of the state of a run holds after every event.
pub proof fn law_runs_stay_well_formed(run: RunView, event: AgentEventView)
    requires
        run.wf(),
    ensures
        stepped(run, event).run.wf(),
{
}

/// A run after a sequence of events.
pub open spec fn run_after(run: RunView, events: Seq<AgentEventView>) -> RunView
    decreases events.len(),
{
    if events.len() == 0 {
        run
    } else {
        stepped(run_after(run, events.drop_last()), events.last()).run
    }
}

proof fn lemma_run_after_wf(run: RunView, events: Seq<AgentEventView>)
    requires
        run.wf(),
    ensures
        run_after(run, events).wf(),
    decreases events.len(),
{
    if events.len() > 0 {
        lemma_run_after_wf(run, events.drop_last());
        law_runs_stay_well_formed(run_after(run, events.drop_last()), events.last());
    }
}

/// A tool is started only for a call about which the user need not be asked, or of which the user
/// has just approved.
pub proof fn law_tools_start_with_approval(run: RunView, event: AgentEventView)
    requires
        run.wf(),
        !(run.stage is Tool),
        stepped(run, event).run.stage is Tool,
    ensures
        stepped(run, event).run.calls == run.calls,
        stepped(run, event).run.at == run.at,
        run.stage is Call && run.question() is None || run.stage is Asking && event
            == AgentEventView::Approved(true),
{
}

/// The user approved of a call at the `k`-th event.
pub open spec fn approved_at(run: RunView, events: Seq<AgentEventView>, k: int) -> bool {
    &&& 0 <= k < events.len()
    &&& events[k] == AgentEventView::Approved(true)
    &&& run_after(run, events.take(k)).stage is Asking
}

/// Whatever happens in a run: while a tool works for a call about which the user has to be asked,
/// the user has approved of that very call.
pub proof fn law_asked_calls_are_approved(run: RunView, events: Seq<AgentEventView>)
    requires
        run.wf(),
        run.stage is Round,
    ensures
        ({
            let now = run_after(run, events);
            now.stage is Tool && now.question() is Some ==> exists|k: int|
                #[trigger] approved_at(run, events, k) && run_after(run, events.take(k)).calls
                    == now.calls && run_after(run, events.take(k)).at == now.at
        }),
    decreases events.len(),
{
    let now = run_after(run, events);
    if events.len() > 0 && now.stage is Tool && now.question() is Some {
        let front = events.drop_last();
        let before = run_after(run, front);
        lemma_run_after_wf(run, front);
        if before.stage is Tool {
            law_asked_calls_are_approved(run, front);
            assert(before.calls == now.calls && before.at == now.at);
            let k = choose|k: int|
                #[trigger] approved_at(run, front, k) && run_after(run, front.take(k)).calls
                    == before.calls && run_after(run, front.take(k)).at == before.at;
            assert(front.take(k) == events.take(k));
            assert(approved_at(run, events, k));
        } else {
            law_tools_start_with_approval(before, events.last());
            let k = events.len() - 1;
            assert(events.take(k) == front);
            assert(approved_at(run, events, k));
        }
    }
}

/// How often the model is asked during a sequence of events.
pub open spec fn times_asked(run: RunView, events: Seq<AgentEventView>) -> nat
    decreases events.len(),
{
    if events.len() == 0 {
        0
    } else {
        times_asked(run, events.drop_last()) + if run_after(run, events.drop_last()).stage is Round
            && run_after(run, events).stage is Chatting {
            1nat
        } else {
            0nat
        }
    }
}

/// Whatever happens in a run, the model is asked no more often than the limit allows.
pub proof fn law_rounds_are_limited(run: RunView, events: Seq<AgentEventView>)
    requires
        run.wf(),
    ensures
        times_asked(run, events) + run_after(run, events).rounds_left == run.rounds_left,
        times_asked(run, events) <= MAX_ROUNDS,
    decreases events.len(),
{
    if events.len() > 0 {
        law_rounds_are_limited(run, events.drop_last());
        lemma_run_after_wf(run, events.drop_last());
    }
}

/// Once a run has ended, nothing changes any more and the user is shown nothing.
pub proof fn law_ended_runs_stay_ended(run: RunView, event: AgentEventView)
    requires
        run.stage is Over,
    ensures
        stepped(run, event).run == run,
        stepped(run, event).shown.len() == 0,
{
}

/// When a run ends, the last that the user is shown is that it is done, or what went wrong with the
/// request to the model.
pub proof fn law_ends_are_shown(run: RunView, event: AgentEventView)
    requires
        !(run.stage is Over),
        stepped(run, event).run.stage is Over,
    ensures
        stepped(run, event).shown.len() > 0,
        stepped(run, event).shown.last() == MsgView::Done || (event
            matches AgentEventView::Answered(Err(words)) && stepped(run, event).shown
            == seq![MsgView::Error(words)]),
{
}

/// Where the user has cancelled, nothing is sent and no tool is started: a run that was about to
/// ask the model ends, and the user is shown no more than that it is done; one that was about to
/// make a call ends the round without it.
pub proof fn law_cancelled_runs_end(run: RunView)
    requires
        run.stage is Round || run.stage is Call,
    ensures
        run.stage is Round ==> stepped(run, AgentEventView::Cancelled(true)) == run_stopped(run),
        run.stage is Call ==> stepped(run, AgentEventView::Cancelled(true)) == round_ended(
            run,
            Seq::empty(),
        ),
{
}

/// The user is told that the model was asked too often only when it was: no round is left, and the
/// calls of the last one have ended, or the user has cancelled before the next of them.
pub proof fn law_limit_is_told_when_reached(run: RunView, event: AgentEventView, i: int)
    requires
        run.wf(),
        0 <= i < stepped(run, event).shown.len(),
        stepped(run, event).shown[i] == MsgView::Error(ROUNDS_OVER@),
        !(event is Answered),
    ensures
        run.rounds_left == 0,
        run.stage is Call || run.stage is Asking || run.stage is Tool,
        run.at + 1 == run.calls.len() || event == AgentEventView::Cancelled(true),
        stepped(run, event).run.stage is Over,
{
}

/// A call is being made.
pub open spec fn in_call(run: RunView) -> bool {
    run.stage is Call || run.stage is Asking || run.stage is Tool
}

/// The message answers the call of that id.
pub open spec fn is_answer(message: JsonView, id: Seq<char>) -> bool {
    exists|content: Seq<char>| message == #[trigger] tool_answer(id, content)
}

/// An event of a call leaves it being made and the conversation as it was, or answers it; then the
/// next call follows, and after the last one the round ends.
pub open spec fn call_goes_on(run: RunView, next: RunView) -> bool {
    ||| in_call(next) && next.calls == run.calls && next.at == run.at && next.messages
        == run.messages
    ||| {
        &&& next.messages == run.messages.push(next.messages.last())
        &&& is_answer(next.messages.last(), run.call().id)
        &&& if run.at + 1 < run.calls.len() {
            next.stage is Call && next.calls == run.calls && next.at == run.at + 1
        } else if run.rounds_left > 0 {
            next.stage is Round
        } else {
            next.stage is Over
        }
    }
}

proof fn lemma_call_ends(run: RunView, content: Seq<char>, shown: Seq<MsgView>)
    requires
        0 <= run.at < run.calls.len(),
    ensures
        call_goes_on(run, call_ended(run, content, shown).run),
{
    let next = call_ended(run, content, shown).run;
    assert(next.messages == run.messages.push(tool_answer(run.call().id, content)));
    assert(is_answer(next.messages.last(), run.call().id));
}

proof fn lemma_tool_steps(run: RunView, step: StepView, shown: Seq<MsgView>)
    requires
        0 <= run.at < run.calls.len(),
    ensures
        call_goes_on(run, tool_stepped(run, step, shown).run),
{
    match step {
        StepView::Act(_) => {},
        StepView::Done(Ok(text)) => {
            lemma_call_ends(
                run,
                text,
                shown.push(MsgView::ToolDone { result_preview: Seq::empty() }),
            );
        },
        StepView::Done(Err(words)) => {
            lemma_call_ends(
                run,
                "Error: "@ + words,
                shown.push(MsgView::ToolFailed { error: words }),
            );
        },
    }
}

proof fn lemma_call_goes_on(run: RunView, event: AgentEventView)
    requires
        run.wf(),
        in_call(run),
        event != AgentEventView::Cancelled(true),
    ensures
        call_goes_on(run, stepped(run, event).run),
        stepped(run, event).run.rounds_left == run.rounds_left,
{
    match (run.stage, event) {
        (StageView::Call, AgentEventView::Cancelled(_)) => {
            lemma_tool_steps(
                run,
                started(run.call().name, run.args(), run.cwd, run.env, run.config),
                tool_start(run),
            );
        },
        (StageView::Asking, AgentEventView::Approved(_)) => {
            lemma_tool_steps(
                run,
                started(run.call().name, run.args(), run.cwd, run.env, run.config),
                tool_start(run),
            );
            lemma_call_ends(
                run,
                "Error: user rejected the operation."@,
                seq![MsgView::ToolFailed { error: "Operation rejected by user."@ }],
            );
        },
        (StageView::Tool(task), AgentEventView::Tool(e)) => {
            let told = RunView { cwd: cwd_after(run.cwd, task, e), ..run };
            lemma_tool_steps(told, proceeded(task, e), Seq::empty());
            assert(told.call() == run.call());
        },
        _ => {},
    }
}

/// The events belong to the calls of a round: at each of them a call is being made, and the user
/// has not cancelled.
pub open spec fn within_round(start: RunView, events: Seq<AgentEventView>) -> bool
    decreases events.len(),
{
    events.len() > 0 ==> {
        &&& within_round(start, events.drop_last())
        &&& in_call(run_after(start, events.drop_last()))
        &&& events.last() != AgentEventView::Cancelled(true)
    }
}

/// The conversation after the model has asked for the calls and the first `n` of them were
/// answered: the turn with the calls, and one answer for each, in order.
pub open spec fn answered_so_far(
    before: Seq<JsonView>,
    calls: Seq<ToolCallView>,
    n: int,
    messages: Seq<JsonView>,
) -> bool {
    &&& messages.len() == before.len() + 1 + n
    &&& messages.take(before.len() as int + 1) == before.push(calls_turn(call_schemas(calls)))
    &&& forall|i: int|
        0 <= i < n ==> is_answer(messages[before.len() + 1 + i], (#[trigger] calls[i]).id)
}

/// In a round every call is answered to the model once, under its own id and in order. Whatever
/// happens while the calls are made, unless the user cancels: the conversation is the one before
/// the round, the turn with the calls, and the answers of the calls before the one that is being
/// made; when the round has ended, of all calls. The next request tells the model just that.
pub proof fn law_calls_are_answered_once(
    run: RunView,
    calls: Seq<ToolCallView>,
    events: Seq<AgentEventView>,
)
    requires
        run.wf(),
        run.stage is Chatting,
        calls.len() > 0,
        within_round(stepped(run, AgentEventView::Answered(Ok(calls))).run, events),
    ensures
        ({
            let now = run_after(stepped(run, AgentEventView::Answered(Ok(calls))).run, events);
            &&& in_call(now) ==> now.calls == calls && answered_so_far(
                run.messages,
                calls,
                now.at,
                now.messages,
            )
            &&& !in_call(now) ==> answered_so_far(
                run.messages,
                calls,
                calls.len() as int,
                now.messages,
            )
            &&& !in_call(now) && run.rounds_left > 0 ==> now.stage is Round && ({
                let next = stepped(now, AgentEventView::Cancelled(false)).run;
                next.stage is Chatting && next.messages == now.messages
            })
            &&& !in_call(now) && run.rounds_left == 0 ==> now.stage is Over
        }),
{
    let start = stepped(run, AgentEventView::Answered(Ok(calls))).run;
    let turn = run.messages.push(calls_turn(call_schemas(calls)));
    assert(turn.take(turn.len() as int) == turn);
    lemma_round(run.messages, calls, start, events);
}

/// How far a round with the calls has come.
spec fn round_state(
    base: Seq<JsonView>,
    calls: Seq<ToolCallView>,
    rounds_left: u64,
    now: RunView,
) -> bool {
    &&& now.wf()
    &&& now.rounds_left == rounds_left
    &&& if in_call(now) {
        now.calls == calls && answered_so_far(base, calls, now.at, now.messages)
    } else {
        &&& answered_so_far(base, calls, calls.len() as int, now.messages)
        &&& if rounds_left > 0 {
            now.stage is Round
        } else {
            now.stage is Over
        }
    }
}

proof fn lemma_round_goes_on(
    base: Seq<JsonView>,
    calls: Seq<ToolCallView>,
    before: RunView,
    event: AgentEventView,
)
    requires
        round_state(base, calls, before.rounds_left, before),
        in_call(before),
        event != AgentEventView::Cancelled(true),
    ensures
        round_state(base, calls, before.rounds_left, stepped(before, event).run),
{
    law_runs_stay_well_formed(before, event);
    lemma_call_goes_on(before, event);
    lemma_answers_grow(base, calls, before, stepped(before, event).run);
}

proof fn lemma_round(
    base: Seq<JsonView>,
    calls: Seq<ToolCallView>,
    start: RunView,
    events: Seq<AgentEventView>,
)
    requires
        round_state(base, calls, start.rounds_left, start),
        within_round(start, events),
    ensures
        round_state(base, calls, start.rounds_left, run_after(start, events)),
    decreases events.len(),
{
    if events.len() > 0 {
        let front = events.drop_last();
        lemma_round(base, calls, start, front);
        lemma_round_goes_on(base, calls, run_after(start, front), events.last());
    }
}

proof fn lemma_answers_grow(
    base: Seq<JsonView>,
    calls: Seq<ToolCallView>,
    before: RunView,
    now: RunView,
)
    requires
        before.calls == calls,
        0 <= before.at < calls.len(),
        answered_so_far(base, calls, before.at, before.messages),
        call_goes_on(before, now),
    ensures
        if in_call(now) {
            now.calls == calls && answered_so_far(base, calls, now.at, now.messages)
        } else {
            &&& answered_so_far(base, calls, calls.len() as int, now.messages)
            &&& if before.rounds_left > 0 {
                now.stage is Round
            } else {
                now.stage is Over
            }
        },
{
    if !(in_call(now) && now.at == before.at && now.messages == before.messages) {
        let n = base.len() as int + 1;
        assert(now.messages.take(n) == before.messages.take(n));
        assert forall|i: int| 0 <= i < before.at + 1 implies is_answer(
            now.messages[base.len() + 1 + i],
            (#[trigger] calls[i]).id,
        ) by {
            if i < before.at {
                assert(now.messages[n + i] == before.messages[n + i]);
            } else {
                assert(now.messages[n + i] == now.messages.last());
            }
        }
        assert(answered_so_far(base, calls, before.at + 1, now.messages));
    }
}

/// The conversation only grows.
pub proof fn law_conversation_grows(run: RunView, event: AgentEventView)
    ensures
        run.messages.is_prefix_of(stepped(run, event).run.messages),
        stepped(run, event).run.messages.len() <= run.messages.len() + 1,
{
    let next = stepped(run, event).run;
    assert(next.messages.subrange(0, run.messages.len() as int) == run.messages);
}

/// The task changes files, or prepares to, or leaves a process behind.
pub open spec fn changes_something(task: TaskView) -> bool {
    task is MakeParents || task is Write || task is ReadToPatch || task is WritePatched || task
        is MakeDirs || task is LookAt || task is Remove || task is Spawn
}

/// The task runs a command of the model.
pub open spec fn runs_command(task: TaskView) -> bool {
    task matches TaskView::Run { purpose, .. } && purpose is Command
}

proof fn lemma_other_methods()
    ensures
        uppered("POST"@) != "GET"@,
        uppered("PUT"@) != "GET"@,
        uppered("PATCH"@) != "GET"@,
        uppered("DELETE"@) != "GET"@,
{
    reveal_strlit("GET");
    reveal_strlit("POST");
    reveal_strlit("PUT");
    reveal_strlit("PATCH");
    reveal_strlit("DELETE");
    assert("GET"@.len() == 3 && "POST"@.len() == 4 && "PATCH"@.len() == 5 && "DELETE"@.len() == 6);
    assert("GET"@[0] == 'G' && "PUT"@[0] == 'P');
    assert(is_ascii_chars("PUT"@));
    assert(uppered("PUT"@)[0] == 'P');
    assert(is_ascii_chars("POST"@) && is_ascii_chars("PATCH"@) && is_ascii_chars("DELETE"@));
}

proof fn lemma_http_request_is_last()
    ensures
        "http_request"@ != "fs_read"@,
        "http_request"@ != "fs_list"@,
        "http_request"@ != "fs_write"@,
        "http_request"@ != "fs_patch"@,
        "http_request"@ != "fs_mkdir"@,
        "http_request"@ != "fs_delete"@,
        "http_request"@ != "shell_exec"@,
        "http_request"@ != "shell_bg"@,
        "http_request"@ != "shell_poll"@,
        "http_request"@ != "pwd"@,
        "http_request"@ != "web_fetch"@,
        "http_request"@ != "web_search"@,
        "http_request"@ != "read_url"@,
        "http_request"@ != "grep_search"@,
        "http_request"@ != "memory_read"@,
{
    reveal_strlit("http_request");
    assert("http_request"@.len() == 12);
    reveal_strlit("fs_read");
    reveal_strlit("fs_list");
    reveal_strlit("fs_write");
    reveal_strlit("fs_patch");
    reveal_strlit("fs_mkdir");
    reveal_strlit("fs_delete");
    reveal_strlit("shell_exec");
    reveal_strlit("shell_bg");
    reveal_strlit("shell_poll");
    reveal_strlit("pwd");
    reveal_strlit("web_fetch");
    reveal_strlit("web_search");
    reveal_strlit("read_url");
    reveal_strlit("grep_search");
    reveal_strlit("memory_read");
    assert("fs_read"@.len() == 7);
    assert("fs_list"@.len() == 7);
    assert("fs_write"@.len() == 8);
    assert("fs_patch"@.len() == 8);
    assert("fs_mkdir"@.len() == 8);
    assert("fs_delete"@.len() == 9);
    assert("shell_exec"@.len() == 10);
    assert("shell_bg"@.len() == 8);
    assert("shell_poll"@.len() == 10);
    assert("pwd"@.len() == 3);
    assert("web_fetch"@.len() == 9);
    assert("web_search"@.len() == 10);
    assert("read_url"@.len() == 8);
    assert("grep_search"@.len() == 11);
    assert("memory_read"@.len() == 11);
}

/// A plain HTTP request about which the user is not asked is a `GET`.
pub proof fn law_unasked_requests_are_get(
    args: JsonView,
    cwd: Seq<char>,
    env: EnvView,
    config: ConfigView,
)
    requires
        question("http_request"@, args) is None,
    ensures
        started("http_request"@, args, cwd, env, config) matches StepView::Act(first) ==> (first
            matches TaskView::Send { call, .. } ==> call.method == Method::Get),
{
    law_http_asks_unless_get(args);
    lemma_other_methods();
    lemma_http_request_is_last();
}

/// A tool about which the user is not asked starts by changing no files and leaving no process
/// behind, and a command that it runs is one that is safe.
pub proof fn law_unasked_tools_start_by_reading(
    name: Seq<char>,
    args: JsonView,
    cwd: Seq<char>,
    env: EnvView,
    config: ConfigView,
)
    requires
        question(name, args) is None,
    ensures
        started(name, args, cwd, env, config) matches StepView::Act(first) ==> !changes_something(
            first,
        ) && (runs_command(first) ==> command_safe(args.field("command"@).text_or(""@))),
{
    lemma_unasked_tools(name, args, cwd, env, config);
    reveal(begins_quietly);
}

/// A step after which nothing is changed, no process is left behind, no request is sent that is no
/// `GET`, and a command that runs is safe.
#[verifier::opaque]
spec fn begins_quietly(step: StepView, args: JsonView) -> bool {
    step matches StepView::Act(first) ==> !changes_something(first) && !sends_change(first) && (
    runs_command(first) ==> command_safe(args.field("command"@).text_or(""@)))
}

proof fn lemma_reading_is_quiet(args: JsonView, cwd: Seq<char>, env: EnvView)
    ensures
        begins_quietly(fs_read_started(args, cwd, env), args),
{
    reveal(begins_quietly);
}

proof fn lemma_listing_is_quiet(args: JsonView, cwd: Seq<char>, env: EnvView)
    ensures
        begins_quietly(fs_list_started(args, cwd, env), args),
{
    reveal(begins_quietly);
}

proof fn lemma_safe_command_is_quiet(args: JsonView, cwd: Seq<char>, env: EnvView)
    requires
        question("shell_exec"@, args) is None,
    ensures
        begins_quietly(shell_exec_started(args, cwd, env), args),
{
    reveal(begins_quietly);
}

proof fn lemma_polling_is_quiet(args: JsonView)
    ensures
        begins_quietly(shell_poll_started(args), args),
{
    reveal(begins_quietly);
}

proof fn lemma_fetching_is_quiet(args: JsonView, config: ConfigView)
    ensures
        begins_quietly(web_fetch_started(args, config), args),
{
    reveal(begins_quietly);
}

proof fn lemma_web_search_is_quiet(args: JsonView, config: ConfigView)
    ensures
        begins_quietly(web_search_started(args, config), args),
{
    reveal(begins_quietly);
}

proof fn lemma_reading_pages_is_quiet(args: JsonView, config: ConfigView)
    ensures
        begins_quietly(read_url_started(args, config), args),
{
    reveal(begins_quietly);
}

proof fn lemma_searching_is_quiet(args: JsonView, cwd: Seq<char>, env: EnvView)
    ensures
        begins_quietly(grep_search_started(args, cwd, env), args),
{
    reveal(begins_quietly);
}

proof fn lemma_get_is_quiet(args: JsonView)
    requires
        question("http_request"@, args) is None,
    ensures
        begins_quietly(http_request_started(args), args),
{
    reveal(begins_quietly);
    law_http_asks_unless_get(args);
    lemma_other_methods();
}

proof fn lemma_ends_are_quiet(args: JsonView, text: Seq<char>, path: Seq<char>)
    ensures
        begins_quietly(concluded(text), args),
        begins_quietly(refused(text), args),
        begins_quietly(StepView::Act(TaskView::ReadMemory { path }), args),
{
    reveal(begins_quietly);
}

proof fn lemma_unasked_tools(
    name: Seq<char>,
    args: JsonView,
    cwd: Seq<char>,
    env: EnvView,
    config: ConfigView,
)
    requires
        question(name, args) is None,
    ensures
        begins_quietly(started(name, args, cwd, env, config), args),
{
    law_changing_tools_ask(args);
    if name == "fs_read"@ {
        lemma_reading_is_quiet(args, cwd, env);
    } else if name == "fs_list"@ {
        lemma_listing_is_quiet(args, cwd, env);
    } else if name == "shell_exec"@ {
        lemma_safe_command_is_quiet(args, cwd, env);
    } else if name == "shell_poll"@ {
        lemma_polling_is_quiet(args);
    } else if name == "pwd"@ {
        lemma_ends_are_quiet(args, cwd, cwd);
    } else if name == "web_fetch"@ {
        lemma_fetching_is_quiet(args, config);
    } else if name == "web_search"@ {
        lemma_web_search_is_quiet(args, config);
    } else if name == "read_url"@ {
        lemma_reading_pages_is_quiet(args, config);
    } else if name == "grep_search"@ {
        lemma_searching_is_quiet(args, cwd, env);
    } else if name == "memory_read"@ {
        lemma_ends_are_quiet(
            args,
            cwd,
            joined_path(config_dir(env.home), "ai_chat_memory.md"@),
        );
    } else if name == "http_request"@ {
        lemma_get_is_quiet(args);
    } else {
        lemma_ends_are_quiet(args, "unknown tool: "@ + name, cwd);
    }
}

/// A tool that has not begun to change anything, nor run a command, does not begin to later,
/// whatever comes back to it.
pub proof fn law_reading_stays_reading(task: TaskView, event: EventView)
    ensures
        !changes_something(task) ==> (proceeded(task, event) matches StepView::Act(next)
            ==> !changes_something(next)),
        !runs_command(task) ==> (proceeded(task, event) matches StepView::Act(next)
            ==> !runs_command(next)),
{
}

/// The task sends a plain request of the model that is no `GET`.
pub open spec fn sends_change(task: TaskView) -> bool {
    task matches TaskView::Send { call, state } && state is Request && call.method != Method::Get
}

/// A tool that has not sent a request that is no `GET` does not begin to later.
proof fn lemma_requests_are_sent_once(task: TaskView, event: EventView)
    ensures
        proceeded(task, event) matches StepView::Act(next) ==> (sends_change(next) ==> next
            == task),
{
}

/// What a call is doing needs the user's approval: it changes something, runs a command that is not
/// known to be safe, or sends a plain request that is no `GET`.
pub open spec fn needs_approval(run: RunView) -> bool {
    run.stage matches StageView::Tool(task) && (changes_something(task) || sends_change(task) || (
    runs_command(task) && !command_safe(run.args().field("command"@).text_or(""@))))
}

proof fn lemma_what_needs_approval_asks(run: RunView, events: Seq<AgentEventView>)
    requires
        run.wf(),
        run.stage is Round,
    ensures
        needs_approval(run_after(run, events)) ==> run_after(run, events).question() is Some,
    decreases events.len(),
{
    let now = run_after(run, events);
    if events.len() > 0 && needs_approval(now) {
        let before = run_after(run, events.drop_last());
        let event = events.last();
        lemma_run_after_wf(run, events.drop_last());
        lemma_what_needs_approval_asks(run, events.drop_last());
        if let StageView::Tool(task) = before.stage {
            assert(now.calls == before.calls && now.at == before.at);
            if let AgentEventView::Tool(e) = event {
                law_reading_stays_reading(task, e);
                lemma_commands_run_once(task, e);
                lemma_requests_are_sent_once(task, e);
            }
        } else {
            law_tools_start_with_approval(before, event);
            assert(now.question() == before.question());
            if before.question() is None {
                reveal(begins_quietly);
                lemma_unasked_tools(
                    before.call().name,
                    before.args(),
                    before.cwd,
                    before.env,
                    before.config,
                );
            }
        }
    }
}

proof fn lemma_commands_run_once(task: TaskView, event: EventView)
    ensures
        proceeded(task, event) matches StepView::Act(next) ==> (runs_command(next) ==> next
            == task),
{
}

/// Whatever happens in a run: while a call changes something, runs a command that is not known to
/// be safe, or sends a plain request that is no `GET`, the user has approved of that very call.
pub proof fn law_changes_are_approved(run: RunView, events: Seq<AgentEventView>)
    requires
        run.wf(),
        run.stage is Round,
        needs_approval(run_after(run, events)),
    ensures
        exists|k: int|
            #[trigger] approved_at(run, events, k) && run_after(run, events.take(k)).calls
                == run_after(run, events).calls && run_after(run, events.take(k)).at == run_after(
                run,
                events,
            ).at,
{
    lemma_what_needs_approval_asks(run, events);
    law_asked_calls_are_approved(run, events);
}

// ---- What a step comes to ----------------------------------------------------------------------

/// What a tool comes to reaches the model word for word: its result as it is, and why it failed
/// behind `Error: `, in an answer to the call that is being made. The user is told that it is done,
/// or why it failed. While it goes on, nothing is added to the conversation and nothing is shown.
pub proof fn law_results_reach_the_model(
    run: RunView,
    task: TaskView,
    event: EventView,
    text: Seq<char>,
    further: TaskView,
)
    requires
        run.wf(),
        run.stage == StageView::Tool(task),
    ensures
        ({
            let next = stepped(run, AgentEventView::Tool(event));
            let id = run.calls[run.at].id;
            &&& next.run.cwd == cwd_after(run.cwd, task, event)
            &&& proceeded(task, event) == StepView::Done(Ok(text)) ==> {
                &&& next.run.messages == run.messages.push(tool_answer(id, text))
                &&& next.run.messages.last().get("content"@) == Some(JsonView::Text(text))
                &&& next.run.messages.last().get("tool_call_id"@) == Some(JsonView::Text(id))
                &&& next.shown.len() > 0
                &&& next.shown[0] is ToolDone
            }
            &&& proceeded(task, event) == StepView::Done(Err(text)) ==> {
                &&& next.run.messages == run.messages.push(tool_answer(id, "Error: "@ + text))
                &&& next.run.messages.last().get("content"@) == Some(
                    JsonView::Text("Error: "@ + text),
                )
                &&& next.run.messages.last().get("tool_call_id"@) == Some(JsonView::Text(id))
                &&& next.shown.len() > 0
                &&& next.shown[0] == (MsgView::ToolFailed { error: text })
            }
            &&& proceeded(task, event) == StepView::Act(further) ==> next.run.messages
                == run.messages && next.shown == Seq::<MsgView>::empty() && next.run.stage
                == StageView::Tool(further) && next.run.at == run.at && next.run.calls == run.calls
        }),
{
    let id = run.calls[run.at].id;
    law_answers_hold_their_results(id, text);
    law_answers_hold_their_results(id, "Error: "@ + text);
}

/// A call that needs no approval, and one that was approved, starts the tool that it names, with
/// the arguments that it gives, in the working directory of the run. The user sees the name and a
/// preview. What the tool comes to at once reaches the model word for word.
pub proof fn law_calls_start_their_tool(
    run: RunView,
    args: JsonView,
    text: Seq<char>,
    first: TaskView,
)
    requires
        run.wf(),
        run.stage is Call || run.stage is Asking,
        parsed(encode_utf8(run.calls[run.at].arguments)) == Some(args) || (parsed(
            encode_utf8(run.calls[run.at].arguments),
        ) is None && args is Null),
        run.stage is Call ==> question(run.calls[run.at].name, args) is None,
    ensures
        ({
            let next = stepped(
                run,
                if run.stage is Call {
                    AgentEventView::Cancelled(false)
                } else {
                    AgentEventView::Approved(true)
                },
            );
            let id = run.calls[run.at].id;
            let name = run.calls[run.at].name;
            let step = started(name, args, run.cwd, run.env, run.config);
            &&& next.run.cwd == run.cwd
            &&& next.shown.len() > 0
            &&& next.shown[0] == (MsgView::ToolStart { name, args_preview: preview(args) })
            &&& step == StepView::Done(Ok(text)) ==> next.run.messages == run.messages.push(
                tool_answer(id, text),
            ) && next.shown.len() > 1 && next.shown[1] is ToolDone
            &&& step == StepView::Done(Err(text)) ==> next.run.messages == run.messages.push(
                tool_answer(id, "Error: "@ + text),
            ) && next.shown.len() > 1 && next.shown[1] == (MsgView::ToolFailed { error: text })
            &&& step == StepView::Act(first) ==> next.run.messages == run.messages
                && next.run.stage == StageView::Tool(first) && next.run.at == run.at
                && next.run.calls == run.calls && next.shown.len() == 1
        }),
{
}

/// A call that needs approval is put to the user, with the question for its tool and its arguments,
/// before anything else happens; and a call that the user rejects is answered with that.
pub proof fn law_users_are_asked_and_heard(run: RunView, args: JsonView, summary: Seq<char>)
    requires
        run.wf(),
        parsed(encode_utf8(run.calls[run.at].arguments)) == Some(args),
    ensures
        run.stage is Call && question(run.calls[run.at].name, args) == Some(summary) ==> stepped(
            run,
            AgentEventView::Cancelled(false),
        ) == (AfterView {
            run: RunView { stage: StageView::Asking, ..run },
            shown: seq![MsgView::ApprovalRequired { summary }],
        }),
        run.stage is Asking ==> ({
            let next = stepped(run, AgentEventView::Approved(false));
            &&& next.run.messages == run.messages.push(
                tool_answer(run.calls[run.at].id, "Error: user rejected the operation."@),
            )
            &&& next.run.cwd == run.cwd
            &&& next.shown.len() > 0
            &&& next.shown[0] == (MsgView::ToolFailed { error: "Operation rejected by user."@ })
        }),
{
}

/// Once a call has been answered the next call of the round is taken up; after the last one the
/// model is asked again, where it may be, and otherwise the run ends and the user is told why.
pub proof fn law_calls_follow_each_other(run: RunView, event: AgentEventView)
    requires
        run.wf(),
        run.stage is Asking || run.stage is Tool,
        stepped(run, event).run.messages.len() > run.messages.len(),
    ensures
        ({
            let next = stepped(run, event);
            &&& run.at + 1 < run.calls.len() ==> next.run.stage is Call && next.run.at == run.at + 1
                && next.run.calls == run.calls
            &&& run.at + 1 == run.calls.len() && run.rounds_left > 0 ==> next.run.stage is Round
            &&& run.at + 1 == run.calls.len() && run.rounds_left == 0 ==> next.run.stage is Over
                && next.shown.len() >= 2 && next.shown[next.shown.len() - 2] == MsgView::Error(
                "Reached the maximum number of tool-call rounds (15)."@,
            ) && next.shown.last() is Done
            &&& next.run.rounds_left == run.rounds_left
            &&& next.run.config == run.config
            &&& next.run.env == run.env
        }),
{
}

/// What the model says is shown word for word, and its first piece of a round behind a mark that it
/// begins. An answer without calls ends the run, and so does a failure, which is shown.
pub proof fn law_the_model_is_shown(run: RunView, begun: bool, token: Seq<char>)
    requires
        run.stage == (StageView::Chatting { started: begun }),
    ensures
        ({
            let next = stepped(run, AgentEventView::Token(token));
            &&& next.shown.last() == MsgView::Token(token)
            &&& begun ==> next.shown.len() == 1
            &&& !begun ==> next.shown.len() == 2 && next.shown[0] is AssistantStart
            &&& next.run == (RunView { stage: StageView::Chatting { started: true }, ..run })
        }),
        stepped(run, AgentEventView::Answered(Err(token))) == (AfterView {
            run: RunView { stage: StageView::Over, ..run },
            shown: seq![MsgView::Error(token)],
        }),
        stepped(run, AgentEventView::Answered(Ok(Seq::empty()))) == (AfterView {
            run: RunView { stage: StageView::Over, ..run },
            shown: seq![MsgView::Done],
        }),
{
}

/// Every call that the model asks for is kept, in its order, and told back to it in the
/// conversation; the first one is taken up first.
pub proof fn law_calls_are_all_kept(run: RunView, calls: Seq<ToolCallView>)
    requires
        run.stage is Chatting,
        calls.len() > 0,
    ensures
        ({
            let next = stepped(run, AgentEventView::Answered(Ok(calls)));
            &&& next.run.calls == calls
            &&& next.run.at == 0
            &&& next.run.stage is Call
            &&& next.run.messages == run.messages.push(calls_turn(call_schemas(calls)))
            &&& next.run.cwd == run.cwd
            &&& next.run.rounds_left == run.rounds_left
            &&& next.shown == Seq::<MsgView>::empty()
        }),
{
}

/// A run begins with the conversation and the directory that it is given, and may ask the model
/// fifteen times. Each time counts.
pub proof fn law_runs_begin_as_told(
    config: ConfigView,
    env: EnvView,
    messages: Seq<JsonView>,
    cwd: Seq<char>,
    run: RunView,
)
    ensures
        ({
            let fresh = fresh_run(config, env, messages, cwd);
            &&& fresh.config == config
            &&& fresh.env == env
            &&& fresh.messages == messages
            &&& fresh.cwd == cwd
            &&& fresh.rounds_left == 15
            &&& fresh.stage is Round
        }),
        run.wf() && run.stage is Round ==> ({
            let next = stepped(run, AgentEventView::Cancelled(false));
            &&& next.run.rounds_left == run.rounds_left - 1
            &&& next.run.stage == (StageView::Chatting { started: false })
            &&& next.run.messages == run.messages
            &&& next.run.cwd == run.cwd
            &&& next.run.config == run.config
            &&& next.run.env == run.env
            &&& next.shown == Seq::<MsgView>::empty()
        }),
        run.wf() && run.stage is Round ==> stepped(run, AgentEventView::Cancelled(true)) == (
        AfterView { run: RunView { stage: StageView::Over, ..run }, shown: seq![MsgView::Done] }),
{
}

/// A call is previewed by the argument that says most: the query, or else the path, the address,
/// the pattern, the command, and otherwise the first argument there is. Its first forty characters
/// are shown.
pub proof fn law_previews_tell_most(args: JsonView, t: Seq<char>, list: Seq<(Seq<char>, JsonView)>)
    ensures
        ({
            let shown = if t.len() <= 40 {
                t
            } else {
                t.take(40)
            };
            let query = args.get("query"@);
            let path = args.get("path"@);
            let url = args.get("url"@);
            let pattern = args.get("pattern"@);
            let command = args.get("command"@);
            let told = Some(JsonView::Text(t));
            &&& query == told ==> preview(args) == shown
            &&& query is None && path == told ==> preview(args) == shown
            &&& query is None && path is None && url == told ==> preview(args) == shown
            &&& query is None && path is None && url is None && pattern == told ==> preview(args)
                == shown
            &&& query is None && path is None && url is None && pattern is None && command == told
                ==> preview(args) == shown
            &&& query is None && path is None && url is None && pattern is None && command is None
                && args == JsonView::Object(list) && list.len() > 0 && list[0].1
                    == JsonView::Text(t)
                ==> preview(args) == shown
            &&& query is Some && !(query->0 is Text) ==> preview(args) == ""@
            &&& !(args is Object) ==> preview(args) == ""@
        }),
{
    crate::text::law_clipping_keeps_the_beginning(t, 40);
    reveal_strlit("");
    assert(""@.len() == 0);
    assert(clipped(""@, 40) =~= ""@);
}

/// A title is asked for with the last messages of a conversation, at most twenty, in their order
/// and in full, behind what asks for it. What the user said is told as theirs, and all else as the
/// assistant's.
pub proof fn law_titles_come_of_the_last_messages(kept: Seq<(Seq<char>, Seq<char>)>, i: int)
    ensures
        title_messages(kept).len() == 1 + (if kept.len() > 20 {
            20
        } else {
            kept.len() as int
        }),
        title_messages(kept)[0] == said(
            "system"@,
            "You are a titler. Summarize the following conversation in a short phrase (max 40 characters). Use the same language as the conversation. Return only the phrase, no quotes."@,
        ),
        0 <= i < kept.len() && i + 20 >= kept.len() ==> title_messages(
            kept,
        )[title_messages(kept).len() - kept.len() + i] == said(
            if kept[i].0 == "user"@ {
                "user"@
            } else {
                "assistant"@
            },
            kept[i].1,
        ),
{
}

/// What a run does not wait for changes nothing and shows nothing.
pub proof fn law_only_awaited_events_count(run: RunView, event: AgentEventView)
    requires
        match run.stage {
            StageView::Round | StageView::Call => !(event is Cancelled),
            StageView::Chatting { .. } => !(event is Token) && !(event is Answered),
            StageView::Asking => !(event is Approved),
            StageView::Tool(_) => !(event is Tool),
            StageView::Over => true,
        },
    ensures
        stepped(run, event).run == run,
        stepped(run, event).shown == Seq::<MsgView>::empty(),
{
}

/// Where the user has cancelled before a call is made, no call of the round is made any more:
/// nothing is added to the conversation, and the round ends.
pub proof fn law_cancelled_calls_are_not_made(run: RunView)
    requires
        run.wf(),
        run.stage is Call,
    ensures
        ({
            let next = stepped(run, AgentEventView::Cancelled(true));
            &&& next.run.messages == run.messages
            &&& next.run.cwd == run.cwd
            &&& next.run.rounds_left == run.rounds_left
            &&& run.rounds_left > 0 ==> next.run.stage is Round && next.shown
                == Seq::<MsgView>::empty()
            &&& run.rounds_left == 0 ==> next.run.stage is Over && next.shown == seq![
                MsgView::Error("Reached the maximum number of tool-call rounds (15)."@),
                MsgView::Done,
            ]
        }),
{
}

/// What a run waits for is seen whole.
pub proof fn law_stages_are_seen_whole(task: ToolTask, begun: bool)
    ensures
        Stage::Round@ is Round,
        (Stage::Chatting { started: begun })@ == (StageView::Chatting { started: begun }),
        Stage::Call@ is Call,
        Stage::Asking@ is Asking,
        Stage::Tool(task)@ == StageView::Tool(task@),
        Stage::Over@ is Over,
{
}

/// What the user is shown, what comes back to a run, and what was kept of a conversation are seen
/// whole.
pub proof fn law_exchanges_are_seen_whole(
    text: String,
    other: String,
    b: bool,
    calls: Vec<ToolCall>,
    failure: Failure,
    event: ToolEvent,
    list: Seq<StreamMsg>,
    kept: Seq<PersistedMessage>,
    i: int,
)
    ensures
        StreamMsg::AssistantStart@ is AssistantStart,
        StreamMsg::Token(text)@ == MsgView::Token(text@),
        (StreamMsg::ToolStart { name: text, args_preview: other })@ == (MsgView::ToolStart {
            name: text@,
            args_preview: other@,
        }),
        (StreamMsg::ToolDone { result_preview: text })@ == (MsgView::ToolDone {
            result_preview: text@,
        }),
        (StreamMsg::ToolFailed { error: text })@ == (MsgView::ToolFailed { error: text@ }),
        (StreamMsg::ApprovalRequired { summary: text })@ == (MsgView::ApprovalRequired {
            summary: text@,
        }),
        StreamMsg::Error(text)@ == MsgView::Error(text@),
        StreamMsg::Done@ is Done,
        AgentEvent::Cancelled(b)@ == AgentEventView::Cancelled(b),
        AgentEvent::Token(text)@ == AgentEventView::Token(text@),
        AgentEvent::Answered(Ok(calls))@ == AgentEventView::Answered(Ok(call_views(calls@))),
        AgentEvent::Answered(Err(failure))@ == AgentEventView::Answered(Err(failure@)),
        AgentEvent::Approved(b)@ == AgentEventView::Approved(b),
        AgentEvent::Tool(event)@ == AgentEventView::Tool(event@),
        msg_views(list).len() == list.len(),
        0 <= i < list.len() ==> msg_views(list)[i] == list[i]@,
        kept_views(kept).len() == kept.len(),
        0 <= i < kept.len() ==> kept_views(kept)[i] == (kept[i].role@, kept[i].content@),
{
}

} // verus!
