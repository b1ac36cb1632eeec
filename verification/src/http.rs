//! HTTP exchanges as plain data: what is to be sent, and what came back.

use crate::json::{Json, JsonView};
use vstd::prelude::*;
use vstd::string::*;

verus! {

/// Why something failed, in words for the user or the model.
#[derive(Debug, Clone, PartialEq)]
pub struct Failure {
    pub message: String,
}

impl View for Failure {
    type V = Seq<char>;

    open spec fn view(&self) -> Seq<char> {
        self.message@
    }
}

impl Failure {
    /// A failure in the given words.
    pub fn new(message: &str) -> (r: Self)
        ensures
            r@ == message@,
    {
        Failure { message: message.to_string() }
    }
}

/// The content of a result: the text, or the words of the failure.
pub open spec fn outcome(r: Result<String, Failure>) -> Result<Seq<char>, Seq<char>> {
    match r {
        Ok(s) => Ok(s@),
        Err(e) => Err(e@),
    }
}

/// The method of a request.
#[derive(Debug, Clone, Copy, PartialEq, Eq, Structural)]
pub enum Method {
    Get,
    Post,
    Put,
    Patch,
    Delete,
}

/// The body of a request.
#[derive(Debug, PartialEq)]
pub enum CallBody {
    Empty,
    Text(String),
    Json(Json),
}

/// The body of a request with its texts as sequences of characters.
pub enum CallBodyView {
    Empty,
    Text(Seq<char>),
    Json(JsonView),
}

impl View for CallBody {
    type V = CallBodyView;

    open spec fn view(&self) -> CallBodyView {
        match self {
            CallBody::Empty => CallBodyView::Empty,
            CallBody::Text(s) => CallBodyView::Text(s@),
            CallBody::Json(j) => CallBodyView::Json(j@),
        }
    }
}

/// How the body of a successful answer is read.
#[derive(Debug, Clone, Copy, PartialEq, Eq, Structural)]
pub enum Reading {
    /// As text, decoded by its character set.
    Text,
    /// As the bytes it consists of.
    Bytes,
    /// Line by line, as it arrives.
    Lines,
}

/// A request to be sent.
#[derive(Debug, PartialEq)]
pub struct HttpCall {
    pub method: Method,
    pub url: String,
    /// Parameters that are appended to the URL.
    pub query: Vec<(String, String)>,
    pub headers: Vec<(String, String)>,
    /// The token of an `Authorization: Bearer` header.
    pub bearer: Option<String>,
    pub body: CallBody,
    pub reading: Reading,
}

/// A request with its texts as sequences of characters.
#[verifier::ext_equal]
pub struct HttpCallView {
    pub method: Method,
    pub url: Seq<char>,
    pub query: Seq<(Seq<char>, Seq<char>)>,
    pub headers: Seq<(Seq<char>, Seq<char>)>,
    pub bearer: Option<Seq<char>>,
    pub body: CallBodyView,
    pub reading: Reading,
}

/// The contents of a list of named texts.
pub open spec fn text_pairs(list: Seq<(String, String)>) -> Seq<(Seq<char>, Seq<char>)> {
    Seq::new(list.len(), |i: int| (list[i].0@, list[i].1@))
}

impl View for HttpCall {
    type V = HttpCallView;

    open spec fn view(&self) -> HttpCallView {
        HttpCallView {
            method: self.method,
            url: self.url@,
            query: text_pairs(self.query@),
            headers: text_pairs(self.headers@),
            bearer: crate::text::opt_string(self.bearer),
            body: self.body@,
            reading: self.reading,
        }
    }
}

/// Appends a named text.
pub fn put_pair(list: &mut Vec<(String, String)>, name: &str, value: &str)
    ensures
        text_pairs(final(list)@) == text_pairs(old(list)@).push((name@, value@)),
{
    list.push((name.to_string(), value.to_string()));
    assert(text_pairs(list@) == text_pairs(old(list)@).push((name@, value@)));
}

/// A request for the address, with nothing else.
pub open spec fn plain_call(method: Method, url: Seq<char>, reading: Reading) -> HttpCallView {
    HttpCallView {
        method,
        url,
        query: Seq::empty(),
        headers: Seq::empty(),
        bearer: None,
        body: CallBodyView::Empty,
        reading,
    }
}

impl HttpCall {
    /// A request for the address, with nothing else.
    pub fn new(method: Method, url: &str, reading: Reading) -> (r: Self)
        ensures
            r@ == plain_call(method, url@, reading),
    {
        let r = HttpCall {
            method,
            url: url.to_string(),
            query: Vec::new(),
            headers: Vec::new(),
            bearer: None,
            body: CallBody::Empty,
            reading,
        };
        assert(r@ =~= plain_call(method, url@, reading));
        r
    }
}

/// The body of an answer, as far as it could be read.
#[derive(Debug, PartialEq)]
pub enum ReplyBody {
    Text(String),
    Bytes(Vec<u8>),
    Unread,
}

/// What came back for a request.
#[derive(Debug, PartialEq)]
pub enum HttpReply {
    /// No answer; the words say why.
    Failed(String),
    /// An answer.
    Answered(HttpAnswer),
}

/// An answer to a request.
#[derive(Debug, PartialEq)]
pub struct HttpAnswer {
    pub code: u16,
    /// The code and its name, such as `404 Not Found`.
    pub status: String,
    /// Names and values of the headers; no value where it is no text.
    pub headers: Vec<(String, Option<String>)>,
    pub body: ReplyBody,
}

/// The body of an answer with its text as a sequence of characters.
pub enum ReplyBodyView {
    Text(Seq<char>),
    Bytes(Seq<u8>),
    Unread,
}

/// An answer with its texts as sequences of characters.
pub struct HttpAnswerView {
    pub code: u16,
    pub status: Seq<char>,
    pub headers: Seq<(Seq<char>, Option<Seq<char>>)>,
    pub body: ReplyBodyView,
}

/// What came back, with its texts as sequences of characters.
pub enum HttpReplyView {
    Failed(Seq<char>),
    Answered(HttpAnswerView),
}

impl View for ReplyBody {
    type V = ReplyBodyView;

    open spec fn view(&self) -> ReplyBodyView {
        match self {
            ReplyBody::Text(s) => ReplyBodyView::Text(s@),
            ReplyBody::Bytes(b) => ReplyBodyView::Bytes(b@),
            ReplyBody::Unread => ReplyBodyView::Unread,
        }
    }
}

/// The contents of a list of headers.
pub open spec fn header_views(list: Seq<(String, Option<String>)>) -> Seq<
    (Seq<char>, Option<Seq<char>>),
> {
    Seq::new(list.len(), |i: int| (list[i].0@, crate::text::opt_string(list[i].1)))
}

impl View for HttpAnswer {
    type V = HttpAnswerView;

    open spec fn view(&self) -> HttpAnswerView {
        HttpAnswerView {
            code: self.code,
            status: self.status@,
            headers: header_views(self.headers@),
            body: self.body@,
        }
    }
}

impl View for HttpReply {
    type V = HttpReplyView;

    open spec fn view(&self) -> HttpReplyView {
        match self {
            HttpReply::Failed(s) => HttpReplyView::Failed(s@),
            HttpReply::Answered(a) => HttpReplyView::Answered(a@),
        }
    }
}

impl HttpAnswerView {
    /// The request was accepted.
    pub open spec fn success(self) -> bool {
        200 <= self.code < 300
    }

    /// The text of the body, if it was read as text.
    pub open spec fn text(self) -> Option<Seq<char>> {
        match self.body {
            ReplyBodyView::Text(s) => Some(s),
            _ => None,
        }
    }

    /// The text of the body; empty if it was not read as text.
    pub open spec fn text_or_empty(self) -> Seq<char> {
        match self.body {
            ReplyBodyView::Text(s) => s,
            _ => Seq::empty(),
        }
    }

    /// The JSON document in the body, if there is one.
    pub open spec fn json(self) -> Option<JsonView> {
        match self.body {
            ReplyBodyView::Bytes(b) => crate::json::parsed(b),
            _ => None,
        }
    }
}

impl HttpAnswer {
    /// Whether the request was accepted.
    pub fn success(&self) -> (r: bool)
        ensures
            r == self@.success(),
    {
        200 <= self.code && self.code < 300
    }

    /// The text of the body, if it was read as text.
    pub fn text(&self) -> (r: Option<&str>)
        ensures
            crate::json::opt_text(r) == self@.text(),
    {
        match &self.body {
            ReplyBody::Text(s) => Some(s.as_str()),
            _ => None,
        }
    }

    /// The text of the body; empty if it was not read as text.
    pub fn text_or_empty(&self) -> (r: &str)
        ensures
            r@ == self@.text_or_empty(),
    {
        match &self.body {
            ReplyBody::Text(s) => s.as_str(),
            _ => {
                proof {
                    reveal_strlit("");
                    assert(""@ =~= Seq::<char>::empty());
                }
                ""
            },
        }
    }

    /// The JSON document in the body, if there is one.
    pub fn json(&self) -> (r: Option<Json>)
        ensures
            match r {
                Some(j) => self@.json() == Some(j@),
                None => self@.json() is None,
            },
    {
        match &self.body {
            ReplyBody::Bytes(b) => crate::json::parse_bytes(b.as_slice()),
            _ => None,
        }
    }
}

// ---- Laws --------------------------------------------------------------------------------------

/// An answer counts as accepted when its code is one of those from 200 to 299.
pub proof fn law_two_hundreds_succeed(answer: HttpAnswerView)
    ensures
        answer.success() <==> answer.code / 100 == 2,
{
}

/// The text of an answer is given back as it was read, and nothing where it was not read as text.
pub proof fn law_bodies_are_given_back(answer: HttpAnswerView, text: Seq<char>, bytes: Seq<u8>)
    ensures
        answer.text() == Some(text) <==> answer.body == ReplyBodyView::Text(text),
        answer.text() == Some(text) ==> answer.text_or_empty() == text,
        answer.text() is None ==> answer.text_or_empty().len() == 0,
        answer.body == ReplyBodyView::Bytes(bytes) ==> answer.json() == crate::json::parsed(bytes),
        !(answer.body is Bytes) ==> answer.json() is None,
{
}

/// A plain request has the method and the address that were given, and nothing besides.
pub proof fn law_plain_requests_are_plain(method: Method, url: Seq<char>, reading: Reading)
    ensures
        ({
            let call = plain_call(method, url, reading);
            &&& call.method == method
            &&& call.url == url
            &&& call.reading == reading
            &&& call.query.len() == 0
            &&& call.headers.len() == 0
            &&& call.bearer is None
            &&& call.body is Empty
        }),
{
}

/// A request is seen whole: its method, its address, every parameter and header, the token, the
/// body and how the answer is read.
pub proof fn law_requests_are_seen_whole(call: HttpCall, i: int)
    ensures
        call@.method == call.method,
        call@.url == call.url@,
        call@.query.len() == call.query@.len(),
        0 <= i < call.query@.len() ==> call@.query[i].0 == call.query@[i].0@ && call@.query[i].1
            == call.query@[i].1@,
        call@.headers.len() == call.headers@.len(),
        0 <= i < call.headers@.len() ==> call@.headers[i].0 == call.headers@[i].0@
            && call@.headers[i].1 == call.headers@[i].1@,
        call.bearer matches Some(token) ==> call@.bearer == Some(token@),
        call.bearer is None ==> call@.bearer is None,
        call.body matches CallBody::Text(s) ==> call@.body == CallBodyView::Text(s@),
        call.body matches CallBody::Json(j) ==> call@.body == CallBodyView::Json(j@),
        call.body is Empty ==> call@.body is Empty,
        call@.reading == call.reading,
{
}

/// An answer is seen whole: its code, its status, every header and the body.
pub proof fn law_answers_are_seen_whole(answer: HttpAnswer, i: int, words: String)
    ensures
        answer@.code == answer.code,
        answer@.status == answer.status@,
        answer@.headers.len() == answer.headers@.len(),
        0 <= i < answer.headers@.len() ==> answer@.headers[i].0 == answer.headers@[i].0@ && (
        answer.headers@[i].1 matches Some(value) ==> answer@.headers[i].1 == Some(value@)) && (
        answer.headers@[i].1 is None ==> answer@.headers[i].1 is None),
        answer.body matches ReplyBody::Text(s) ==> answer@.body == ReplyBodyView::Text(s@),
        answer.body matches ReplyBody::Bytes(b) ==> answer@.body == ReplyBodyView::Bytes(b@),
        answer.body is Unread ==> answer@.body is Unread,
        HttpReply::Failed(words)@ == HttpReplyView::Failed(words@),
        HttpReply::Answered(answer)@ == HttpReplyView::Answered(answer@),
{
}

/// An outcome is the text of a success, and the words of a failure.
pub proof fn law_outcomes_are_seen_whole(text: String, failure: Failure)
    ensures
        outcome(Ok(text)) == Ok::<Seq<char>, Seq<char>>(text@),
        outcome(Err(failure)) == Err::<Seq<char>, Seq<char>>(failure.message@),
{
}

} // verus!
