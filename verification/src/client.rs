//! The chat API: requests, and what a streamed answer says.

use crate::config::{AssistantConfig, ConfigView};
use crate::http::{
    plain_call, put_pair, CallBody, CallBodyView, Failure, HttpCall, HttpCallView, HttpReply,
    HttpReplyView, Method, Reading,
};
use crate::json::{
    items, law_first_member_counts, pairs, parse_text, parsed, put, Json, JsonView,
};
use crate::lines::{concatenate, concatenated};
use crate::messages::{call_views, message_views, ApiMessage, ToolCall, ToolCallView};
use crate::models::{chat_models, is_model_list};
use crate::text::{cat, same, skip_chars, starts_with, texts, trim, trimmed};
use std::collections::BTreeMap;
use vstd::prelude::*;
use vstd::std_specs::btree::increasing_seq;
use vstd::std_specs::cmp::OrdSpec;
use vstd::std_specs::iter::IteratorSpec;
use vstd::string::*;
use vstd::utf8::*;

verus! {

// ---- Requests ----------------------------------------------------------------------------------

/// The client of a chat API.
#[derive(Debug, Clone)]
pub struct AiClient {
    config: AssistantConfig,
}

/// The body of a chat request.
pub open spec fn chat_body(
    model: Seq<char>,
    messages: Seq<JsonView>,
    tools: Seq<JsonView>,
    tools_enabled: bool,
) -> JsonView {
    let base = seq![
        ("model"@, JsonView::Text(model)),
        ("messages"@, JsonView::Array(messages)),
        ("stream"@, JsonView::Bool(true)),
    ];
    JsonView::Object(
        if tools.len() > 0 && tools_enabled {
            base.push(("tools"@, JsonView::Array(tools)))
        } else {
            base
        },
    )
}

/// The request of a chat step.
pub open spec fn chat_call(
    config: ConfigView,
    model: Seq<char>,
    messages: Seq<JsonView>,
    tools: Seq<JsonView>,
) -> HttpCallView {
    HttpCallView {
        method: Method::Post,
        url: config.base_url + "/chat/completions"@,
        query: Seq::empty(),
        headers: seq![
            ("Authorization"@, "Bearer "@ + config.api_key),
            ("Content-Type"@, "application/json"@),
            ("Accept"@, "text/event-stream"@),
            ("Cache-Control"@, "no-cache"@),
            ("Accept-Encoding"@, "identity"@),
        ],
        bearer: None,
        body: CallBodyView::Json(chat_body(model, messages, tools, config.chat_tools_enabled)),
        reading: Reading::Lines,
    }
}

/// The request for the list of models.
pub open spec fn models_call(config: ConfigView) -> HttpCallView {
    HttpCallView {
        headers: seq![("Authorization"@, "Bearer "@ + config.api_key)],
        ..plain_call(Method::Get, config.base_url + "/models"@, Reading::Bytes)
    }
}

impl View for AiClient {
    type V = ConfigView;

    closed spec fn view(&self) -> ConfigView {
        self.config@
    }
}

impl AiClient {
    /// A client with the given configuration.
    pub fn new(config: AssistantConfig) -> (r: Self)
        ensures
            r@ == config@,
    {
        AiClient { config }
    }

    /// Whether this client will include tools in chat requests.
    pub fn tools_enabled(&self) -> (r: bool)
        ensures
            r == self@.chat_tools_enabled,
    {
        self.config.chat_tools_enabled
    }

    /// The loaded configuration.
    pub fn config(&self) -> (r: &AssistantConfig)
        ensures
            r@ == self@,
    {
        &self.config
    }

    /// The request of a single chat step with optional tool support. The answer is read line by
    /// line into a `ChatStream`.
    pub fn chat_step(&self, model: &str, messages: &[ApiMessage], tools: &[Json]) -> (r: HttpCall)
        ensures
            r@ == chat_call(self@, model@, message_views(messages@), items(tools@)),
    {
        let mut list: Vec<Json> = Vec::new();
        let mut i: usize = 0;
        while i < messages.len()
            invariant
                i <= messages@.len(),
                items(list@) == message_views(messages@).take(i as int),
            decreases messages@.len() - i,
        {
            let m = messages[i].0.copy();
            let ghost before = items(list@);
            list.push(m);
            i = i + 1;
            assert(items(list@) == before.push(m@));
            assert(message_views(messages@).take(i as int) == message_views(messages@).take(
                i - 1,
            ).push(m@));
        }
        assert(items(list@) == message_views(messages@));
        let mut body: Vec<(String, Json)> = Vec::new();
        put(&mut body, "model", Json::from_text(model));
        put(&mut body, "messages", Json::from_items(list));
        put(&mut body, "stream", Json::Bool(true));
        if tools.len() > 0 && self.config.chat_tools_enabled {
            let mut copies: Vec<Json> = Vec::new();
            let mut k: usize = 0;
            while k < tools.len()
                invariant
                    k <= tools@.len(),
                    items(copies@) == items(tools@).take(k as int),
                decreases tools@.len() - k,
            {
                let t = tools[k].copy();
                let ghost before = items(copies@);
                copies.push(t);
                k = k + 1;
                assert(items(copies@) == before.push(t@));
                assert(items(tools@).take(k as int) == items(tools@).take(k - 1).push(t@));
            }
            assert(items(copies@) == items(tools@));
            put(&mut body, "tools", Json::from_items(copies));
        }
        let ghost expected = chat_body(
            model@,
            message_views(messages@),
            items(tools@),
            self@.chat_tools_enabled,
        );
        assert(pairs(body@) == expected->Object_0);
        let url = cat(self.config.base_url.as_str(), "/chat/completions");
        let mut call = HttpCall::new(Method::Post, url.as_str(), Reading::Lines);
        let token = cat("Bearer ", self.config.api_key.as_str());
        let mut headers: Vec<(String, String)> = Vec::new();
        put_pair(&mut headers, "Authorization", token.as_str());
        put_pair(&mut headers, "Content-Type", "application/json");
        put_pair(&mut headers, "Accept", "text/event-stream");
        put_pair(&mut headers, "Cache-Control", "no-cache");
        put_pair(&mut headers, "Accept-Encoding", "identity");
        call.headers = headers;
        call.body = CallBody::Json(Json::from_members(body));
        assert(call@ =~= chat_call(self@, model@, message_views(messages@), items(tools@)));
        call
    }

    /// The request of a single-shot completion for short tasks like title generation: a chat step
    /// without tools. `completion_text` makes the text of the tokens.
    pub fn complete_once(&self, model: &str, messages: &[ApiMessage]) -> (r: HttpCall)
        ensures
            r@ == chat_call(self@, model@, message_views(messages@), Seq::empty()),
    {
        let none: Vec<Json> = Vec::new();
        assert(items(none@) == Seq::<JsonView>::empty());
        self.chat_step(model, messages, none.as_slice())
    }

    /// The request for the available models.
    pub fn list_models(&self) -> (r: HttpCall)
        ensures
            r@ == models_call(self@),
    {
        let url = cat(self.config.base_url.as_str(), "/models");
        let mut call = HttpCall::new(Method::Get, url.as_str(), Reading::Bytes);
        let token = cat("Bearer ", self.config.api_key.as_str());
        let mut headers: Vec<(String, String)> = Vec::new();
        put_pair(&mut headers, "Authorization", token.as_str());
        call.headers = headers;
        assert(call@ =~= models_call(self@));
        call
    }
}

/// What the user is told of a chat request whose answer cannot be streamed.
pub open spec fn chat_error(reply: HttpReplyView) -> Option<Seq<char>> {
    match reply {
        HttpReplyView::Failed(_) => Some("HTTP request failed"@),
        HttpReplyView::Answered(a) => if a.success() {
            None
        } else {
            Some("API error "@ + a.status + ": "@ + a.text_or_empty())
        },
    }
}

/// Whether the answer to a chat request can be streamed; otherwise what the user is told.
pub fn check_chat_reply(reply: &HttpReply) -> (r: Result<(), Failure>)
    ensures
        match r {
            Ok(_) => chat_error(reply@) is None,
            Err(e) => chat_error(reply@) == Some(e@),
        },
{
    match reply {
        HttpReply::Failed(_) => Err(Failure::new("HTTP request failed")),
        HttpReply::Answered(a) => if a.success() {
            Ok(())
        } else {
            let mut out = cat("API error ", a.status.as_str());
            out.append(": ");
            out.append(a.text_or_empty());
            Err(Failure { message: out })
        },
    }
}

/// What is told of a reply to `/models` that gives no list.
pub open spec fn models_error(reply: HttpReplyView) -> Option<Seq<char>> {
    match reply {
        HttpReplyView::Failed(_) => Some("GET /models failed"@),
        HttpReplyView::Answered(a) => if !a.success() {
            Some("models API "@ + a.status + ": "@ + a.text_or_empty())
        } else {
            match a.json() {
                None => Some("parse /models response"@),
                Some(v) => if v.field("data"@).array() is None {
                    Some("missing `data` array in /models response"@)
                } else {
                    None
                },
            }
        },
    }
}

/// The list of chat models that a reply to `/models` gives.
pub fn models_of_reply(reply: &HttpReply) -> (r: Result<Vec<String>, Failure>)
    ensures
        match r {
            Ok(ids) => models_error(reply@) is None && is_model_list(
                reply@->Answered_0.json()->0.field("data"@).array()->0,
                texts(ids@),
            ),
            Err(e) => models_error(reply@) == Some(e@),
        },
{
    let answer = match reply {
        HttpReply::Failed(_) => {
            return Err(Failure::new("GET /models failed"));
        },
        HttpReply::Answered(a) => a,
    };
    if !answer.success() {
        let mut out = cat("models API ", answer.status.as_str());
        out.append(": ");
        out.append(answer.text_or_empty());
        return Err(Failure { message: out });
    }
    match answer.json() {
        None => Err(Failure::new("parse /models response")),
        Some(v) => match chat_models(&v) {
            Some(ids) => Ok(ids),
            None => Err(Failure::new("missing `data` array in /models response")),
        },
    }
}

// ---- Streamed answers --------------------------------------------------------------------------

/// A tool call of which nothing has arrived.
pub open spec fn no_call() -> ToolCallView {
    ToolCallView { id: Seq::empty(), name: Seq::empty(), arguments: Seq::empty() }
}

/// The index that a fragment belongs to.
pub open spec fn fragment_index(fragment: JsonView) -> u64 {
    match fragment.field("index"@).unsigned() {
        Some(n) => n,
        None => 0,
    }
}

/// A tool call after a fragment: an id or a name replaces the one before, arguments are appended.
pub open spec fn extended(call: ToolCallView, fragment: JsonView) -> ToolCallView {
    ToolCallView {
        id: fragment.field("id"@).text_or(call.id),
        name: fragment.field("function"@).field("name"@).text_or(call.name),
        arguments: match fragment.field("function"@).field("arguments"@).text() {
            Some(s) => call.arguments + s,
            None => call.arguments,
        },
    }
}

/// The pending tool calls after a fragment.
pub open spec fn with_fragment(calls: Map<u64, ToolCallView>, fragment: JsonView) -> Map<
    u64,
    ToolCallView,
> {
    let index = fragment_index(fragment);
    let before = if calls.contains_key(index) {
        calls[index]
    } else {
        no_call()
    };
    calls.insert(index, extended(before, fragment))
}

/// The pending tool calls after fragments, in order.
pub open spec fn with_fragments(
    calls: Map<u64, ToolCallView>,
    fragments: Seq<JsonView>,
) -> Map<u64, ToolCallView>
    decreases fragments.len(),
{
    if fragments.len() == 0 {
        calls
    } else {
        with_fragment(with_fragments(calls, fragments.drop_last()), fragments.last())
    }
}

/// The part of a chunk that speaks.
pub open spec fn choice(chunk: JsonView) -> JsonView {
    chunk.field("choices"@).first()
}

/// The fragments of tool calls in a chunk.
pub open spec fn fragments(chunk: JsonView) -> Seq<JsonView> {
    choice(chunk).field("delta"@).field("tool_calls"@).elements()
}

/// The reasoning in a chunk.
pub open spec fn reasoning(chunk: JsonView) -> Option<Seq<char>> {
    match choice(chunk).field("delta"@).field("reasoning_content"@).text() {
        Some(s) => Some(s),
        None => choice(chunk).field("reasoning"@).text(),
    }
}

/// The tokens that a chunk adds to the text: reasoning, marked as such, then content.
pub open spec fn chunk_tokens(chunk: JsonView) -> Seq<Seq<char>> {
    let thought = match reasoning(chunk) {
        Some(s) => if s.len() > 0 {
            seq!["<think>\n"@ + s + "\n</think>\n\n"@]
        } else {
            Seq::empty()
        },
        None => Seq::empty(),
    };
    match choice(chunk).field("delta"@).field("content"@).text() {
        Some(s) => thought.push(s),
        None => thought,
    }
}

/// Why the model stopped, after a chunk.
pub open spec fn reason_after(before: Seq<char>, chunk: JsonView) -> Seq<char> {
    match choice(chunk).field("finish_reason"@).text() {
        Some(s) => if s.len() > 0 && s != "null"@ {
            s
        } else {
            before
        },
        None => before,
    }
}

/// The data of a line of the event stream.
pub open spec fn line_data(line: Seq<char>) -> Option<Seq<char>> {
    if "data: "@.is_prefix_of(line) {
        Some(line.skip(6))
    } else {
        None
    }
}

/// The line that ends the stream.
pub open spec fn ends_stream(line: Seq<char>) -> bool {
    line_data(line) is Some && trimmed(line_data(line)->0) == "[DONE]"@
}

/// The chunk that a line carries: the JSON document in its data.
pub open spec fn line_chunk(line: Seq<char>) -> Option<JsonView> {
    if line_data(line) is Some && !ends_stream(line) {
        parsed(encode_utf8(line_data(line)->0))
    } else {
        None
    }
}

/// What a streamed answer has said so far.
pub struct StreamView {
    pub calls: Map<u64, ToolCallView>,
    pub reason: Seq<char>,
}

impl StreamView {
    /// What the answer has said after a chunk.
    pub open spec fn after(self, chunk: JsonView) -> StreamView {
        StreamView {
            calls: with_fragments(self.calls, fragments(chunk)),
            reason: reason_after(self.reason, chunk),
        }
    }
}

/// The calls in the order of their indices.
pub open spec fn in_index_order(calls: Map<u64, ToolCallView>, list: Seq<ToolCallView>) -> bool {
    exists|keys: Seq<u64>| #[trigger] lists_calls(calls, keys, list)
}

/// `keys` are the indices of the calls in ascending order, `list` the calls at those indices.
pub open spec fn lists_calls(
    calls: Map<u64, ToolCallView>,
    keys: Seq<u64>,
    list: Seq<ToolCallView>,
) -> bool {
    &&& forall|i: int, j: int| 0 <= i < j < keys.len() ==> keys[i] < keys[j]
    &&& forall|k: u64| calls.contains_key(k) == keys.contains(k)
    &&& list.len() == keys.len()
    &&& forall|i: int| 0 <= i < keys.len() ==> list[i] == calls[#[trigger] keys[i]]
}

/// What is left of a streamed answer to assemble: the tool calls so far, by index, and why the
/// model stopped.
pub struct ChatStream {
    calls: BTreeMap<u64, ToolCall>,
    reason: String,
}

impl View for ChatStream {
    type V = StreamView;

    closed spec fn view(&self) -> StreamView {
        StreamView {
            calls: self.calls@.map_values(|call: ToolCall| call@),
            reason: self.reason@,
        }
    }
}

/// Keys that ascend in the order of their type ascend as numbers.
proof fn lemma_ascending_keys(keys: Seq<u64>)
    requires
        increasing_seq(keys),
    ensures
        forall|i: int, j: int| 0 <= i < j < keys.len() ==> keys[i] < keys[j],
{
    broadcast use vstd::laws_cmp::group_laws_cmp;

    assert forall|i: int, j: int| 0 <= i < j < keys.len() implies keys[i] < keys[j] by {
        assert(keys[i].cmp_spec(&keys[j]) is Less);
    }
}

/// What a line adds to the text, and whether it ends the stream.
#[derive(Debug, PartialEq)]
pub struct LineOutcome {
    pub tokens: Vec<String>,
    pub done: bool,
}

impl ChatStream {
    /// An answer of which nothing has arrived.
    pub fn new() -> (r: Self)
        ensures
            r@.calls == Map::<u64, ToolCallView>::empty(),
            r@.reason == Seq::<char>::empty(),
    {
        let r = ChatStream { calls: BTreeMap::new(), reason: String::new() };
        assert(r@.calls =~= Map::<u64, ToolCallView>::empty());
        r
    }

    fn add_fragment(&mut self, fragment: &Json)
        ensures
            final(self)@.calls == with_fragment(old(self)@.calls, fragment@),
            final(self)@.reason == old(self)@.reason,
    {
        let index: u64 = match fragment.field("index").unsigned() {
            Some(n) => n,
            None => 0,
        };
        let call = match self.calls.remove(&index) {
            Some(call) => call,
            None => ToolCall { id: String::new(), name: String::new(), arguments: String::new() },
        };
        let ghost before = if old(self)@.calls.contains_key(index) {
            old(self)@.calls[index]
        } else {
            no_call()
        };
        assert(call@ == before);
        let id = match fragment.field("id").text() {
            Some(s) => s.to_string(),
            None => call.id,
        };
        let function = fragment.field("function");
        let name = match function.field("name").text() {
            Some(s) => s.to_string(),
            None => call.name,
        };
        let mut arguments = call.arguments;
        if let Some(s) = function.field("arguments").text() {
            arguments.append(s);
        }
        let next = ToolCall { id, name, arguments };
        self.calls.insert(index, next);
        assert(self@.calls =~= with_fragment(old(self)@.calls, fragment@));
    }

    /// Takes in a chunk of the answer; returns the tokens it adds to the text.
    pub fn feed_chunk(&mut self, chunk: &Json) -> (r: Vec<String>)
        ensures
            final(self)@ == old(self)@.after(chunk@),
            texts(r@) == chunk_tokens(chunk@),
    {
        let choice_json = chunk.field("choices").first();
        if let Some(s) = choice_json.field("finish_reason").text() {
            if !s.is_empty() && !same(s, "null") {
                self.reason = s.to_string();
            }
        }
        assert(self@.reason == reason_after(old(self)@.reason, chunk@));
        assert(self@.calls == old(self)@.calls);
        let delta = choice_json.field("delta");
        let mut tokens: Vec<String> = Vec::new();
        let thought = match delta.field("reasoning_content").text() {
            Some(s) => Some(s),
            None => choice_json.field("reasoning").text(),
        };
        assert(texts(tokens@) == Seq::<Seq<char>>::empty());
        if let Some(s) = thought {
            if !s.is_empty() {
                let mut t = cat("<think>\n", s);
                t.append("\n</think>\n\n");
                tokens.push(t);
                assert(texts(tokens@) == seq![t@]);
            }
        }
        if let Some(s) = delta.field("content").text() {
            let ghost before = texts(tokens@);
            tokens.push(s.to_string());
            assert(texts(tokens@) == before.push(s@));
        }
        assert(texts(tokens@) == chunk_tokens(chunk@));
        if let Some(list) = delta.field("tool_calls").array() {
            let ghost all = items(list@);
            assert(all == fragments(chunk@));
            let ghost start = self@;
            assert(all.take(0).len() == 0);
            let mut i: usize = 0;
            while i < list.len()
                invariant
                    i <= list@.len(),
                    all == items(list@),
                    self@.calls == with_fragments(start.calls, all.take(i as int)),
                    self@.reason == start.reason,
                decreases list@.len() - i,
            {
                proof {
                    let upto = all.take(i + 1);
                    assert(upto.drop_last() == all.take(i as int));
                    assert(upto.last() == list@[i as int]@);
                }
                self.add_fragment(&list[i]);
                i = i + 1;
            }
            assert(all.take(i as int) == all);
        }
        tokens
    }

    /// Takes in a line of the event stream. Lines without data and data that is no JSON document
    /// say nothing.
    pub fn feed_line(&mut self, line: &str) -> (r: LineOutcome)
        ensures
            r.done == ends_stream(line@),
            match line_chunk(line@) {
                Some(chunk) => final(self)@ == old(self)@.after(chunk) && texts(r.tokens@)
                    == chunk_tokens(chunk),
                None => final(self)@ == old(self)@ && r.tokens@.len() == 0,
            },
    {
        if !starts_with(line, "data: ") {
            return LineOutcome { tokens: Vec::new(), done: false };
        }
        proof {
            reveal_strlit("data: ");
            assert("data: "@.len() == 6);
        }
        let data = skip_chars(line, 6);
        if same(trim(data.as_str()).as_str(), "[DONE]") {
            return LineOutcome { tokens: Vec::new(), done: true };
        }
        match parse_text(data.as_str()) {
            Some(chunk) => {
                let tokens = self.feed_chunk(&chunk);
                LineOutcome { tokens, done: false }
            },
            None => LineOutcome { tokens: Vec::new(), done: false },
        }
    }

    /// Takes in what was read of the event stream: a line, or that none could be read. Once the
    /// user has cancelled, the stream ends there.
    pub fn take_line(&mut self, cancelled: bool, line: Option<&str>) -> (r: Result<
        LineOutcome,
        Failure,
    >)
        ensures
            r is Err <==> !cancelled && line is None,
            match r {
                Err(e) => e@ == "read SSE line"@ && final(self)@ == old(self)@,
                Ok(out) => if cancelled {
                    out.done && out.tokens@.len() == 0 && final(self)@ == old(self)@
                } else {
                    &&& out.done == ends_stream(line->0@)
                    &&& match line_chunk(line->0@) {
                        Some(chunk) => final(self)@ == old(self)@.after(chunk) && texts(out.tokens@)
                            == chunk_tokens(chunk),
                        None => final(self)@ == old(self)@ && out.tokens@.len() == 0,
                    }
                },
            },
    {
        if cancelled {
            return Ok(LineOutcome { tokens: Vec::new(), done: true });
        }
        match line {
            None => Err(Failure::new("read SSE line")),
            Some(text) => Ok(self.feed_line(text)),
        }
    }

    /// The tool calls that the model asks for, in the order of their indices; none unless it
    /// stopped in order to have them made.
    pub fn finish(self) -> (r: Vec<ToolCall>)
        ensures
            if self@.reason == "tool_calls"@ {
                in_index_order(self@.calls, call_views(r@))
            } else {
                r@.len() == 0
            },
    {
        if !same(self.reason.as_str(), "tool_calls") {
            return Vec::new();
        }
        let values = self.calls.values();
        let ghost list = values.remaining();
        let ghost keys = choose|keys: Seq<u64>|
            {
                &&& increasing_seq(keys)
                &&& keys.to_set() == self.calls@.dom()
                &&& keys.no_duplicates()
                &&& list == keys.map(|i: int, k| &self.calls@[k])
            };
        let mut out: Vec<ToolCall> = Vec::new();
        for call in it: values
            invariant
                it.seq() == list,
                out@.len() == it.index(),
                forall|i: int| 0 <= i < out@.len() ==> (#[trigger] out@[i])@ == list[i]@,
        {
            out.push(
                ToolCall {
                    id: call.id.clone(),
                    name: call.name.clone(),
                    arguments: call.arguments.clone(),
                },
            );
        }
        proof {
            lemma_ascending_keys(keys);
            assert forall|k: u64| self@.calls.contains_key(k) == keys.contains(k) by {
                assert(keys.to_set().contains(k) == self.calls@.dom().contains(k));
            }
            assert forall|i: int| 0 <= i < keys.len() implies call_views(out@)[i]
                == self@.calls[#[trigger] keys[i]] by {
                assert(keys.to_set().contains(keys[i]));
                assert(list[i] == &self.calls@[keys[i]]);
                assert(out@[i]@ == list[i]@);
            }
            assert(lists_calls(self@.calls, keys, call_views(out@)));
        }
        out
    }
}

/// The text of a single-shot completion: all tokens, without white space at either end.
pub fn completion_text(tokens: &[String]) -> (r: String)
    ensures
        r@ == trimmed(concatenated(texts(tokens@))),
{
    let out = concatenate(tokens);
    trim(out.as_str())
}

// ---- Laws --------------------------------------------------------------------------------------

/// The arguments that fragments give for an index: every piece with that index, in order.
pub open spec fn argument_text(list: Seq<JsonView>, index: u64) -> Seq<char>
    decreases list.len(),
{
    if list.len() == 0 {
        Seq::empty()
    } else {
        let front = argument_text(list.drop_last(), index);
        if fragment_index(list.last()) == index {
            match list.last().field("function"@).field("arguments"@).text() {
                Some(s) => front + s,
                None => front,
            }
        } else {
            front
        }
    }
}

/// A fragment has the index.
pub open spec fn mentions(list: Seq<JsonView>, index: u64) -> bool {
    exists|i: int| 0 <= i < list.len() && fragment_index(#[trigger] list[i]) == index
}

/// There is a call for exactly the indices that fragments mention, and its arguments are the
/// pieces for its index, in the order in which they came.
pub proof fn law_arguments_are_the_pieces(list: Seq<JsonView>, index: u64)
    ensures
        ({
            let calls = with_fragments(Map::empty(), list);
            &&& calls.contains_key(index) == mentions(list, index)
            &&& calls.contains_key(index) ==> calls[index].arguments == argument_text(list, index)
            &&& !calls.contains_key(index) ==> argument_text(list, index).len() == 0
        }),
    decreases list.len(),
{
    if list.len() > 0 {
        let front = list.drop_last();
        law_arguments_are_the_pieces(front, index);
        let calls = with_fragments(Map::empty(), list);
        let before = with_fragments(Map::empty(), front);
        assert(mentions(list, index) == (mentions(front, index) || fragment_index(list.last())
            == index)) by {
            if mentions(front, index) {
                let i = choose|i: int|
                    0 <= i < front.len() && fragment_index(#[trigger] front[i]) == index;
                assert(list[i] == front[i]);
            }
            if mentions(list, index) && fragment_index(list.last()) != index {
                let i = choose|i: int|
                    0 <= i < list.len() && fragment_index(#[trigger] list[i]) == index;
                assert(front[i] == list[i]);
            }
            if fragment_index(list.last()) == index {
                assert(fragment_index(list[list.len() - 1]) == index);
            }
        }
        if fragment_index(list.last()) == index && !before.contains_key(index) {
            assert(no_call().arguments == argument_text(front, index));
        }
    }
}

/// How fragments are cut into chunks does not matter: taking in one list after another is taking
/// in both together.
pub proof fn law_chunks_do_not_matter(
    calls: Map<u64, ToolCallView>,
    first: Seq<JsonView>,
    second: Seq<JsonView>,
)
    ensures
        with_fragments(with_fragments(calls, first), second) == with_fragments(
            calls,
            first + second,
        ),
    decreases second.len(),
{
    if second.len() == 0 {
        assert(first + second == first);
    } else {
        law_chunks_do_not_matter(calls, first, second.drop_last());
        assert((first + second).drop_last() == first + second.drop_last());
    }
}

/// The order of the returned calls is fixed by their indices.
pub proof fn law_call_order_unique(
    calls: Map<u64, ToolCallView>,
    a: Seq<ToolCallView>,
    b: Seq<ToolCallView>,
)
    requires
        in_index_order(calls, a),
        in_index_order(calls, b),
    ensures
        a == b,
{
    let ka = choose|keys: Seq<u64>| #[trigger] lists_calls(calls, keys, a);
    let kb = choose|keys: Seq<u64>| #[trigger] lists_calls(calls, keys, b);
    assert forall|k: u64| ka.contains(k) == kb.contains(k) by {
        assert(calls.contains_key(k) == ka.contains(k));
        assert(calls.contains_key(k) == kb.contains(k));
    }
    lemma_ascending_keys_agree(ka, kb, ka.len() as int);
    lemma_ascending_keys_agree(kb, ka, kb.len() as int);
    assert(ka.take(ka.len() as int) == ka);
    assert(kb.take(kb.len() as int) == kb);
    assert(ka == kb);
    assert forall|i: int| 0 <= i < a.len() implies a[i] == b[i] by {
        assert(a[i] == calls[ka[i]]);
        assert(b[i] == calls[kb[i]]);
    }
    assert(a =~= b);
}

proof fn lemma_ascending_keys_agree(a: Seq<u64>, b: Seq<u64>, n: int)
    requires
        forall|i: int, j: int| 0 <= i < j < a.len() ==> a[i] < a[j],
        forall|i: int, j: int| 0 <= i < j < b.len() ==> b[i] < b[j],
        forall|k: u64| a.contains(k) == b.contains(k),
        0 <= n <= a.len(),
    ensures
        n <= b.len(),
        a.take(n) == b.take(n),
    decreases n,
{
    if n > 0 {
        lemma_ascending_keys_agree(a, b, n - 1);
        let x = a[n - 1];
        assert(a.contains(x));
        assert(b.contains(x));
        let j = choose|j: int| 0 <= j < b.len() && b[j] == x;
        if j < n - 1 {
            assert(a.take(n - 1)[j] == b.take(n - 1)[j]);
            assert(a[j] < x);
        }
        let y = b[n - 1];
        assert(b.contains(y));
        assert(a.contains(y));
        let k = choose|k: int| 0 <= k < a.len() && a[k] == y;
        if k < n - 1 {
            assert(a.take(n - 1)[k] == b.take(n - 1)[k]);
            assert(b[k] < y);
        }
        if x != y {
            assert(b[n - 1] < b[j]);
            assert(a[n - 1] < a[k]);
        }
        assert(a.take(n) == a.take(n - 1).push(x));
        assert(b.take(n) == b.take(n - 1).push(y));
    }
}

/// Tools are offered to the model only where there are some and the configuration enables them.
pub proof fn law_tools_only_when_enabled(
    config: ConfigView,
    model: Seq<char>,
    messages: Seq<JsonView>,
    tools: Seq<JsonView>,
)
    ensures
        (chat_call(config, model, messages, tools).body->Json_0.get("tools"@) is Some) == (
        tools.len() > 0 && config.chat_tools_enabled),
{
    reveal_strlit("model");
    reveal_strlit("messages");
    reveal_strlit("stream");
    reveal_strlit("tools");
    assert("model"@.len() == 5 && "messages"@.len() == 8 && "stream"@.len() == 6);
    assert("tools"@.len() == 5 && "tools"@[0] == 't' && "model"@[0] == 'm');
    let body = chat_call(config, model, messages, tools).body->Json_0;
    let list = body->Object_0;
    reveal_with_fuel(crate::json::key_position, 5);
    assert(list.skip(1)[0] == list[1]);
    assert(list.skip(1).skip(1)[0] == list[2]);
    if list.len() > 3 {
        assert(list.skip(1).skip(1).skip(1)[0] == list[3]);
    }
}

proof fn lemma_body_keys()
    ensures
        "messages"@ != "model"@,
        "stream"@ != "model"@,
        "stream"@ != "messages"@,
        "tools"@ != "model"@,
        "tools"@ != "messages"@,
        "tools"@ != "stream"@,
{
    reveal_strlit("messages");
    reveal_strlit("model");
    reveal_strlit("stream");
    reveal_strlit("tools");
    assert("messages"@.len() == 8);
    assert("model"@.len() == 5);
    assert("stream"@.len() == 6);
    assert("tools"@[0] == 't');
    assert("model"@[0] == 'm');
    assert("tools"@.len() == 5);
}

/// A chat request asks the given model, tells it every message of the conversation in order, and
/// asks for a stream. Where tools are given and enabled, it offers exactly these; otherwise none.
/// Nothing else is asked.
pub proof fn law_requests_tell_everything(
    config: ConfigView,
    model: Seq<char>,
    messages: Seq<JsonView>,
    tools: Seq<JsonView>,
)
    ensures
        ({
            let body = chat_call(config, model, messages, tools).body->Json_0;
            let offers = tools.len() > 0 && config.chat_tools_enabled;
            &&& chat_call(config, model, messages, tools).body is Json
            &&& body is Object
            &&& body.get("model"@) == Some(JsonView::Text(model))
            &&& body.get("messages"@) == Some(JsonView::Array(messages))
            &&& body.get("stream"@) == Some(JsonView::Bool(true))
            &&& offers ==> body.get("tools"@) == Some(JsonView::Array(tools))
            &&& !offers ==> body.get("tools"@) is None
            &&& body->Object_0.len() == if offers {
                4int
            } else {
                3int
            }
        }),
{
    lemma_body_keys();
    let list = chat_call(config, model, messages, tools).body->Json_0->Object_0;
    law_first_member_counts(list, "model"@, 0);
    law_first_member_counts(list, "messages"@, 1);
    law_first_member_counts(list, "stream"@, 2);
    law_first_member_counts(list, "tools"@, 3);
}

/// A chat request is posted below the base address and the list of models is fetched from there;
/// both carry the key of the API, and the answer to a chat request is read line by line.
pub proof fn law_requests_reach_the_api(
    config: ConfigView,
    model: Seq<char>,
    messages: Seq<JsonView>,
    tools: Seq<JsonView>,
)
    ensures
        ({
            let chat = chat_call(config, model, messages, tools);
            let models = models_call(config);
            &&& chat.method is Post
            &&& chat.url == config.base_url + "/chat/completions"@
            &&& chat.headers.contains(("Authorization"@, "Bearer "@ + config.api_key))
            &&& chat.headers.contains(("Content-Type"@, "application/json"@))
            &&& chat.headers.contains(("Accept"@, "text/event-stream"@))
            &&& chat.headers.contains(("Cache-Control"@, "no-cache"@))
            &&& chat.headers.contains(("Accept-Encoding"@, "identity"@))
            &&& chat.headers.len() == 5
            &&& chat.query.len() == 0
            &&& chat.bearer is None
            &&& chat.reading is Lines
            &&& models.method is Get
            &&& models.url == config.base_url + "/models"@
            &&& models.headers == seq![("Authorization"@, "Bearer "@ + config.api_key)]
            &&& models.query.len() == 0
            &&& models.bearer is None
            &&& models.body is Empty
            &&& models.reading is Bytes
        }),
{
    let chat = chat_call(config, model, messages, tools);
    assert(chat.headers[0] == ("Authorization"@, "Bearer "@ + config.api_key));
    assert(chat.headers[1] == ("Content-Type"@, "application/json"@));
    assert(chat.headers[2] == ("Accept"@, "text/event-stream"@));
    assert(chat.headers[3] == ("Cache-Control"@, "no-cache"@));
    assert(chat.headers[4] == ("Accept-Encoding"@, "identity"@));
}

/// An answer to a chat request is streamed exactly when it was accepted. A refusal is told with its
/// status and its whole text.
pub proof fn law_refusals_are_told(reply: HttpReplyView)
    ensures
        chat_error(reply) is None <==> reply is Answered && 200 <= reply->Answered_0.code < 300,
        reply is Failed ==> chat_error(reply) == Some("HTTP request failed"@),
        reply is Answered && chat_error(reply) is Some ==> chat_error(reply)->0 == "API error "@
            + reply->Answered_0.status + ": "@ + reply->Answered_0.text_or_empty(),
{
}

/// The list of models is refused unless the answer was accepted and is a document with a list under
/// `data`; each refusal says which of these failed.
pub proof fn law_model_lists_need_data(reply: HttpReplyView)
    ensures
        models_error(reply) is None <==> reply is Answered && 200 <= reply->Answered_0.code < 300
            && reply->Answered_0.json() is Some && reply->Answered_0.json()->0.field("data"@)
            is Array,
        reply is Failed ==> models_error(reply) == Some("GET /models failed"@),
        reply is Answered && !(200 <= reply->Answered_0.code < 300) ==> models_error(reply) == Some(
            "models API "@ + reply->Answered_0.status + ": "@ + reply->Answered_0.text_or_empty(),
        ),
{
}

/// A fragment touches the call of its index alone: an id or a name that it holds replaces the one
/// before, arguments are added at the end, and what it does not hold stays. The first fragment of
/// an index starts from nothing.
pub proof fn law_fragments_touch_one_call(
    calls: Map<u64, ToolCallView>,
    fragment: JsonView,
    other: u64,
    id: Seq<char>,
    name: Seq<char>,
    arguments: Seq<char>,
)
    ensures
        ({
            let after = with_fragment(calls, fragment);
            let index = fragment_index(fragment);
            let function = fragment.field("function"@);
            &&& fragment.field("index"@).unsigned() matches Some(n) ==> index == n
            &&& fragment.field("index"@).unsigned() is None ==> index == 0
            &&& after.contains_key(index)
            &&& other != index ==> after.contains_key(other) == calls.contains_key(other)
            &&& other != index && calls.contains_key(other) ==> after[other] == calls[other]
            &&& fragment.field("id"@) == JsonView::Text(id) ==> after[index].id == id
            &&& function.field("name"@) == JsonView::Text(name) ==> after[index].name == name
            &&& calls.contains_key(index) ==> {
                &&& !(fragment.field("id"@) is Text) ==> after[index].id == calls[index].id
                &&& !(function.field("name"@) is Text) ==> after[index].name == calls[index].name
                &&& function.field("arguments"@) == JsonView::Text(arguments)
                    ==> after[index].arguments == calls[index].arguments + arguments
                &&& !(function.field("arguments"@) is Text) ==> after[index].arguments
                    == calls[index].arguments
            }
            &&& !calls.contains_key(index) ==> {
                &&& !(fragment.field("id"@) is Text) ==> after[index].id.len() == 0
                &&& !(function.field("name"@) is Text) ==> after[index].name.len() == 0
                &&& function.field("arguments"@) == JsonView::Text(arguments)
                    ==> after[index].arguments == arguments
                &&& !(function.field("arguments"@) is Text) ==> after[index].arguments.len() == 0
            }
        }),
{
    assert(Seq::<char>::empty() + arguments == arguments);
}

/// The fragments of a chunk are taken in one after the other.
pub proof fn law_fragments_follow_each_other(
    state: StreamView,
    chunk: JsonView,
    first: Seq<JsonView>,
    last: JsonView,
)
    ensures
        with_fragments(state.calls, Seq::empty()) == state.calls,
        with_fragments(state.calls, first.push(last)) == with_fragment(
            with_fragments(state.calls, first),
            last,
        ),
        state.after(chunk).calls == with_fragments(
            state.calls,
            chunk.field("choices"@).first().field("delta"@).field("tool_calls"@).elements(),
        ),
{
    assert(first.push(last).drop_last() == first);
}

/// The text of a chunk reaches the user as it came. Reasoning that is not empty comes first,
/// between marks; there is nothing else.
pub proof fn law_chunks_are_told_in_full(chunk: JsonView, thought: Seq<char>, content: Seq<char>)
    ensures
        ({
            let choice = chunk.field("choices"@).first();
            let delta = choice.field("delta"@);
            let thinks = thought.len() > 0 && (delta.field("reasoning_content"@) == JsonView::Text(
                thought,
            ) || (!(delta.field("reasoning_content"@) is Text) && choice.field("reasoning"@)
                == JsonView::Text(thought)));
            let silent = !(delta.field("reasoning_content"@) is Text) && !(choice.field(
                "reasoning"@,
            ) is Text);
            let marked = "<think>\n"@ + thought + "\n</think>\n\n"@;
            let speaks = delta.field("content"@) == JsonView::Text(content);
            &&& silent && speaks ==> chunk_tokens(chunk) == seq![content]
            &&& silent && !(delta.field("content"@) is Text) ==> chunk_tokens(chunk).len() == 0
            &&& thinks && speaks ==> chunk_tokens(chunk) == seq![marked, content]
            &&& thinks && !(delta.field("content"@) is Text) ==> chunk_tokens(chunk)
                == seq![marked]
            &&& delta.field("reasoning_content"@) == JsonView::Text(Seq::empty()) && speaks
                ==> chunk_tokens(chunk) == seq![content]
        }),
{
}

/// Why the model stopped is what the last chunk said that gave a reason.
pub proof fn law_last_reason_counts(state: StreamView, chunk: JsonView, reason: Seq<char>)
    ensures
        ({
            let told = chunk.field("choices"@).first().field("finish_reason"@);
            &&& told == JsonView::Text(reason) && reason.len() > 0 && reason != "null"@
                ==> state.after(chunk).reason == reason
            &&& !(told is Text) || told == JsonView::Text("null"@) || told == JsonView::Text(
                Seq::empty(),
            ) ==> state.after(chunk).reason == state.reason
        }),
{
}

/// A line of the stream carries the document behind `data: `. The one that says `[DONE]` there,
/// with white space around it or not, ends the stream; a line that begins otherwise says nothing.
pub proof fn law_lines_carry_documents(data: Seq<char>, line: Seq<char>)
    ensures
        ends_stream("data: "@ + data) <==> trimmed(data) == "[DONE]"@,
        trimmed(data) != "[DONE]"@ ==> line_chunk("data: "@ + data) == parsed(encode_utf8(data)),
        trimmed(data) == "[DONE]"@ ==> line_chunk("data: "@ + data) is None,
        !"data: "@.is_prefix_of(line) ==> !ends_stream(line) && line_chunk(line) is None,
{
    reveal_strlit("data: ");
    let whole = "data: "@ + data;
    assert("data: "@.len() == 6);
    assert(whole.subrange(0, 6) == "data: "@);
    assert(whole.skip(6) == data);
}

/// Every call that was assembled is asked for once: the list has one entry for each, and of two
/// calls the one with the smaller index comes first.
pub proof fn law_calls_are_listed_by_index(
    calls: Map<u64, ToolCallView>,
    list: Seq<ToolCallView>,
    a: u64,
    b: u64,
)
    requires
        in_index_order(calls, list),
    ensures
        calls.contains_key(a) ==> list.contains(calls[a]),
        calls.contains_key(a) && calls.contains_key(b) && a < b ==> exists|i: int, j: int|
            0 <= i < j < list.len() && #[trigger] list[i] == calls[a] && #[trigger] list[j]
                == calls[b],
        calls.dom().len() == list.len(),
        forall|i: int|
            0 <= i < list.len() ==> exists|k: u64|
                calls.contains_key(k) && #[trigger] list[i] == #[trigger] calls[k],
{
    let keys = choose|keys: Seq<u64>| #[trigger] lists_calls(calls, keys, list);
    assert forall|k: u64| calls.contains_key(k) implies exists|i: int|
        0 <= i < keys.len() && keys[i] == k && list[i] == calls[k] by {
        assert(keys.contains(k));
        let i = choose|i: int| 0 <= i < keys.len() && keys[i] == k;
        assert(list[i] == calls[keys[i]]);
    }
    if calls.contains_key(a) {
        let i = choose|i: int| 0 <= i < keys.len() && keys[i] == a && list[i] == calls[a];
        assert(list[i] == calls[a]);
        if calls.contains_key(b) && a < b {
            let j = choose|j: int| 0 <= j < keys.len() && keys[j] == b && list[j] == calls[b];
            assert(list[j] == calls[b]);
            if j < i {
                assert(keys[j] < keys[i]);
            }
        }
    }
    assert(calls.dom() =~= keys.to_set()) by {
        assert forall|k: u64| calls.dom().contains(k) == keys.to_set().contains(k) by {
            assert(calls.contains_key(k) == keys.contains(k));
        }
    }
    keys.unique_seq_to_set();
    assert forall|i: int| 0 <= i < list.len() implies exists|k: u64|
        calls.contains_key(k) && #[trigger] list[i] == #[trigger] calls[k] by {
        assert(keys.contains(keys[i]));
        assert(calls.contains_key(keys[i]));
        assert(list[i] == calls[keys[i]]);
    }
}

} // verus!
