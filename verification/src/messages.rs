//! Messages of a conversation in the format of the chat API.

use crate::json::{items, law_first_member_counts, pairs, put, Json, JsonView};
use vstd::prelude::*;
use vstd::string::*;

verus! {

/// A single message in API format. A JSON value, so that it can stand for any role (system, user,
/// assistant, tool), tool calls and tool results among them.
#[derive(Debug, PartialEq)]
pub struct ApiMessage(pub Json);

impl View for ApiMessage {
    type V = JsonView;

    open spec fn view(&self) -> JsonView {
        self.0@
    }
}

/// The contents of a list of messages.
pub open spec fn message_views(list: Seq<ApiMessage>) -> Seq<JsonView> {
    Seq::new(list.len(), |i: int| list[i]@)
}

/// A message that a role says.
pub open spec fn said(role: Seq<char>, content: Seq<char>) -> JsonView {
    JsonView::Object(
        seq![("role"@, JsonView::Text(role)), ("content"@, JsonView::Text(content))],
    )
}

/// The assistant's turn that asks for tool calls; its content is null.
pub open spec fn calls_turn(tool_calls: JsonView) -> JsonView {
    JsonView::Object(
        seq![
            ("role"@, JsonView::Text("assistant"@)),
            ("content"@, JsonView::Null),
            ("tool_calls"@, tool_calls),
        ],
    )
}

/// The result of a tool call.
pub open spec fn tool_answer(tool_call_id: Seq<char>, content: Seq<char>) -> JsonView {
    JsonView::Object(
        seq![
            ("role"@, JsonView::Text("tool"@)),
            ("tool_call_id"@, JsonView::Text(tool_call_id)),
            ("content"@, JsonView::Text(content)),
        ],
    )
}

fn say(role: &str, content: &str) -> (r: ApiMessage)
    ensures
        r@ == said(role@, content@),
{
    let mut list: Vec<(String, Json)> = Vec::new();
    put(&mut list, "role", Json::from_text(role));
    put(&mut list, "content", Json::from_text(content));
    let r = ApiMessage(Json::from_members(list));
    assert(pairs(list@) == said(role@, content@)->Object_0);
    r
}

impl ApiMessage {
    /// A system message.
    pub fn system(content: &str) -> (r: Self)
        ensures
            r@ == said("system"@, content@),
    {
        say("system", content)
    }

    /// A user message.
    pub fn user(content: &str) -> (r: Self)
        ensures
            r@ == said("user"@, content@),
    {
        say("user", content)
    }

    /// An assistant message.
    pub fn assistant(content: &str) -> (r: Self)
        ensures
            r@ == said("assistant"@, content@),
    {
        say("assistant", content)
    }

    /// The assistant's turn that asks for tool calls; its content is null.
    pub fn assistant_tool_calls(tool_calls: Json) -> (r: Self)
        ensures
            r@ == calls_turn(tool_calls@),
    {
        let mut list: Vec<(String, Json)> = Vec::new();
        put(&mut list, "role", Json::from_text("assistant"));
        put(&mut list, "content", Json::Null);
        put(&mut list, "tool_calls", tool_calls);
        let r = ApiMessage(Json::from_members(list));
        assert(pairs(list@) == calls_turn(tool_calls@)->Object_0);
        r
    }

    /// The result of a tool call.
    pub fn tool_result(tool_call_id: &str, content: &str) -> (r: Self)
        ensures
            r@ == tool_answer(tool_call_id@, content@),
    {
        let mut list: Vec<(String, Json)> = Vec::new();
        put(&mut list, "role", Json::from_text("tool"));
        put(&mut list, "tool_call_id", Json::from_text(tool_call_id));
        put(&mut list, "content", Json::from_text(content));
        let r = ApiMessage(Json::from_members(list));
        assert(pairs(list@) == tool_answer(tool_call_id@, content@)->Object_0);
        r
    }

    /// The same message again.
    pub fn copy(&self) -> (r: Self)
        ensures
            r@ == self@,
    {
        ApiMessage(self.0.copy())
    }
}

/// A fully assembled tool call returned by the model after streaming is complete.
#[derive(Debug, PartialEq)]
pub struct ToolCall {
    pub id: String,
    pub name: String,
    /// Complete JSON-encoded arguments string, e.g. `{"path": "~/Downloads"}`.
    pub arguments: String,
}

/// A tool call with its texts as sequences of characters.
pub struct ToolCallView {
    pub id: Seq<char>,
    pub name: Seq<char>,
    pub arguments: Seq<char>,
}

impl View for ToolCall {
    type V = ToolCallView;

    open spec fn view(&self) -> ToolCallView {
        ToolCallView { id: self.id@, name: self.name@, arguments: self.arguments@ }
    }
}

/// The contents of a list of tool calls.
pub open spec fn call_views(list: Seq<ToolCall>) -> Seq<ToolCallView> {
    Seq::new(list.len(), |i: int| list[i]@)
}

/// A tool call in API format.
pub open spec fn call_schema(call: ToolCallView) -> JsonView {
    JsonView::Object(
        seq![
            ("id"@, JsonView::Text(call.id)),
            ("type"@, JsonView::Text("function"@)),
            (
                "function"@,
                JsonView::Object(
                    seq![
                        ("name"@, JsonView::Text(call.name)),
                        ("arguments"@, JsonView::Text(call.arguments)),
                    ],
                ),
            ),
        ],
    )
}

/// Tool calls in API format.
pub open spec fn call_schemas(calls: Seq<ToolCallView>) -> JsonView {
    JsonView::Array(Seq::new(calls.len(), |i: int| call_schema(calls[i])))
}

impl ToolCall {
    /// The call in API format.
    pub fn to_json(&self) -> (r: Json)
        ensures
            r@ == call_schema(self@),
    {
        let mut inner: Vec<(String, Json)> = Vec::new();
        put(&mut inner, "name", Json::from_text(self.name.as_str()));
        put(&mut inner, "arguments", Json::from_text(self.arguments.as_str()));
        let ghost inner_view = pairs(inner@);
        let function = Json::from_members(inner);
        let mut list: Vec<(String, Json)> = Vec::new();
        put(&mut list, "id", Json::from_text(self.id.as_str()));
        put(&mut list, "type", Json::from_text("function"));
        put(&mut list, "function", function);
        proof {
            let expected = call_schema(self@)->Object_0;
            assert(inner_view == expected[2].1->Object_0);
            assert(pairs(list@) == expected);
        }
        Json::from_members(list)
    }
}

/// The calls in API format.
pub fn calls_to_json(calls: &[ToolCall]) -> (r: Json)
    ensures
        r@ == call_schemas(call_views(calls@)),
{
    let mut out: Vec<Json> = Vec::new();
    let mut i: usize = 0;
    let ghost expected = call_schemas(call_views(calls@))->Array_0;
    while i < calls.len()
        invariant
            i <= calls@.len(),
            expected == call_schemas(call_views(calls@))->Array_0,
            items(out@) == expected.take(i as int),
        decreases calls@.len() - i,
    {
        let item = calls[i].to_json();
        let ghost before = items(out@);
        out.push(item);
        i = i + 1;
        assert(items(out@) == before.push(item@));
        assert(expected.take(i as int) == expected.take(i - 1).push(item@));
    }
    assert(expected.take(i as int) == expected);
    Json::from_items(out)
}

// ---- Laws --------------------------------------------------------------------------------------

proof fn lemma_message_keys()
    ensures
        "role"@ != "content"@,
        "role"@ != "tool_calls"@,
        "role"@ != "tool_call_id"@,
        "content"@ != "tool_calls"@,
        "content"@ != "tool_call_id"@,
        "id"@ != "type"@,
        "id"@ != "function"@,
        "type"@ != "function"@,
        "name"@ != "arguments"@,
{
    reveal_strlit("role");
    reveal_strlit("content");
    reveal_strlit("tool_calls");
    reveal_strlit("tool_call_id");
    reveal_strlit("id");
    reveal_strlit("type");
    reveal_strlit("function");
    reveal_strlit("name");
    reveal_strlit("arguments");
    assert("role"@.len() == 4);
    assert("content"@.len() == 7);
    assert("tool_calls"@.len() == 10);
    assert("tool_call_id"@.len() == 12);
    assert("id"@.len() == 2);
    assert("type"@.len() == 4);
    assert("function"@.len() == 8);
    assert("name"@.len() == 4);
    assert("arguments"@.len() == 9);
}

/// A message holds who says it and the whole of what is said, and nothing else.
pub proof fn law_messages_hold_their_words(role: Seq<char>, content: Seq<char>)
    ensures
        said(role, content).get("role"@) == Some(JsonView::Text(role)),
        said(role, content).get("content"@) == Some(JsonView::Text(content)),
        said(role, content)->Object_0.len() == 2,
{
    lemma_message_keys();
    law_first_member_counts(said(role, content)->Object_0, "role"@, 0);
    law_first_member_counts(said(role, content)->Object_0, "content"@, 1);
}

/// The answer to a call is said by the tool, names the call, and holds the whole result.
pub proof fn law_answers_hold_their_results(id: Seq<char>, content: Seq<char>)
    ensures
        tool_answer(id, content).get("role"@) == Some(JsonView::Text("tool"@)),
        tool_answer(id, content).get("tool_call_id"@) == Some(JsonView::Text(id)),
        tool_answer(id, content).get("content"@) == Some(JsonView::Text(content)),
        tool_answer(id, content)->Object_0.len() == 3,
{
    lemma_message_keys();
    law_first_member_counts(tool_answer(id, content)->Object_0, "role"@, 0);
    law_first_member_counts(tool_answer(id, content)->Object_0, "tool_call_id"@, 1);
    law_first_member_counts(tool_answer(id, content)->Object_0, "content"@, 2);
}

/// The turn that asks for calls is said by the assistant, has no words, and lists every call in
/// order: its id, its name and its arguments as they came.
pub proof fn law_calls_are_told(calls: Seq<ToolCallView>, i: int)
    requires
        0 <= i < calls.len(),
    ensures
        calls_turn(call_schemas(calls)).get("role"@) == Some(JsonView::Text("assistant"@)),
        calls_turn(call_schemas(calls)).get("content"@) == Some(JsonView::Null),
        ({
            let list = calls_turn(call_schemas(calls)).field("tool_calls"@).elements();
            &&& list.len() == calls.len()
            &&& list[i].get("id"@) == Some(JsonView::Text(calls[i].id))
            &&& list[i].get("type"@) == Some(JsonView::Text("function"@))
            &&& list[i].field("function"@).get("name"@) == Some(JsonView::Text(calls[i].name))
            &&& list[i].field("function"@).get("arguments"@) == Some(
                JsonView::Text(calls[i].arguments),
            )
        }),
{
    lemma_message_keys();
    let turn = calls_turn(call_schemas(calls));
    law_first_member_counts(turn->Object_0, "role"@, 0);
    law_first_member_counts(turn->Object_0, "content"@, 1);
    law_first_member_counts(turn->Object_0, "tool_calls"@, 2);
    let call = call_schema(calls[i]);
    law_first_member_counts(call->Object_0, "id"@, 0);
    law_first_member_counts(call->Object_0, "type"@, 1);
    law_first_member_counts(call->Object_0, "function"@, 2);
    let function = call.field("function"@);
    law_first_member_counts(function->Object_0, "name"@, 0);
    law_first_member_counts(function->Object_0, "arguments"@, 1);
}

/// Messages and calls are seen whole: every one of a list, in order, and every part of a call.
pub proof fn law_messages_are_seen_whole(
    list: Seq<ApiMessage>,
    calls: Seq<ToolCall>,
    i: int,
)
    ensures
        message_views(list).len() == list.len(),
        0 <= i < list.len() ==> message_views(list)[i] == list[i].0@,
        call_views(calls).len() == calls.len(),
        0 <= i < calls.len() ==> call_views(calls)[i].id == calls[i].id@ && call_views(calls)[i].name
            == calls[i].name@ && call_views(calls)[i].arguments == calls[i].arguments@,
{
}

} // verus!
