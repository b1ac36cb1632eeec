//! Courses of requests: a step says what to send next, or how the course ended. The simplest one
//! fetches a page as Markdown.

use crate::http::{
    outcome, plain_call, Failure, HttpAnswer, HttpAnswerView, HttpCall, HttpCallView, HttpReply,
    HttpReplyView, Method, Reading,
};
use crate::text::{blank, cat, clip, clipped, is_blank};
use vstd::prelude::*;
use vstd::string::*;

verus! {

// ---- Courses of requests -----------------------------------------------------------------------

/// What a course of requests waits for.
#[derive(Debug, PartialEq)]
pub enum WebState {
    /// A page from the primary converter.
    FetchPrimary { url: String },
    /// A page from the fallback converter.
    FetchFallback,
    /// Search results of Brave.
    Brave { news: bool },
    /// Search results of PipeLLM; `second` when the first domain has failed.
    Pipellm { query: String, api_key: String, path: String, second: bool },
    /// Search results of Tavily.
    Tavily,
    /// A page from the reader of PipeLLM; `second` when the first domain has failed.
    ReaderPipellm { url: String, api_key: String, second: bool },
    /// A page from the extractor of Tavily.
    ReaderTavily { url: String },
    /// The answer to a plain request.
    Request { method: String, url: String },
}

/// What a course of requests waits for, with its texts as sequences of characters.
pub enum WebStateView {
    FetchPrimary { url: Seq<char> },
    FetchFallback,
    Brave { news: bool },
    Pipellm { query: Seq<char>, api_key: Seq<char>, path: Seq<char>, second: bool },
    Tavily,
    ReaderPipellm { url: Seq<char>, api_key: Seq<char>, second: bool },
    ReaderTavily { url: Seq<char> },
    Request { method: Seq<char>, url: Seq<char> },
}

impl View for WebState {
    type V = WebStateView;

    open spec fn view(&self) -> WebStateView {
        match self {
            WebState::FetchPrimary { url } => WebStateView::FetchPrimary { url: url@ },
            WebState::FetchFallback => WebStateView::FetchFallback,
            WebState::Brave { news } => WebStateView::Brave { news: *news },
            WebState::Pipellm { query, api_key, path, second } => WebStateView::Pipellm {
                query: query@,
                api_key: api_key@,
                path: path@,
                second: *second,
            },
            WebState::Tavily => WebStateView::Tavily,
            WebState::ReaderPipellm { url, api_key, second } => WebStateView::ReaderPipellm {
                url: url@,
                api_key: api_key@,
                second: *second,
            },
            WebState::ReaderTavily { url } => WebStateView::ReaderTavily { url: url@ },
            WebState::Request { method, url } => WebStateView::Request {
                method: method@,
                url: url@,
            },
        }
    }
}

/// A step of a course of requests.
#[derive(Debug, PartialEq)]
pub enum WebStep {
    /// Send this and come back with the reply.
    Send(HttpCall, WebState),
    /// The course has ended.
    Done(Result<String, Failure>),
}

/// A step with its texts as sequences of characters.
pub enum WebStepView {
    Send(HttpCallView, WebStateView),
    Done(Result<Seq<char>, Seq<char>>),
}

impl View for WebStep {
    type V = WebStepView;

    open spec fn view(&self) -> WebStepView {
        match self {
            WebStep::Send(call, state) => WebStepView::Send(call@, state@),
            WebStep::Done(r) => WebStepView::Done(outcome(*r)),
        }
    }
}

/// A course that ended with the text.
pub open spec fn gave(text: Seq<char>) -> WebStepView {
    WebStepView::Done(Ok(text))
}

/// A course that failed with the words.
pub open spec fn failed(words: Seq<char>) -> WebStepView {
    WebStepView::Done(Err(words))
}

pub(crate) fn give(text: String) -> (r: WebStep)
    ensures
        r@ == gave(text@),
{
    WebStep::Done(Ok(text))
}

pub(crate) fn fail(words: &str) -> (r: WebStep)
    ensures
        r@ == failed(words@),
{
    WebStep::Done(Err(Failure::new(words)))
}

/// What is told of an answer that was not accepted.
pub open spec fn returned(what: Seq<char>, a: HttpAnswerView) -> Seq<char> {
    what + " returned "@ + a.status + ": "@ + clipped(a.text_or_empty(), 300)
}

pub(crate) fn tell_returned(what: &str, a: &HttpAnswer) -> (r: String)
    ensures
        r@ == returned(what@, a@),
{
    let mut out = cat(what, " returned ");
    out.append(a.status.as_str());
    out.append(": ");
    out.append(clip(a.text_or_empty(), 300).as_str());
    out
}

// ---- Fetching pages ----------------------------------------------------------------------------

/// The first request for a page as Markdown.
pub open spec fn fetch_started(url: Seq<char>) -> WebStepView {
    WebStepView::Send(
        plain_call(Method::Get, "https://defuddle.md/"@ + url, Reading::Text),
        WebStateView::FetchPrimary { url },
    )
}

/// The second request for a page as Markdown.
pub open spec fn fetch_again(url: Seq<char>) -> WebStepView {
    WebStepView::Send(
        plain_call(Method::Get, "https://r.jina.ai/"@ + url, Reading::Text),
        WebStateView::FetchFallback,
    )
}

/// The text of a page that is worth having: the request was accepted and the page is not blank.
pub open spec fn page_text(reply: HttpReplyView) -> Option<Seq<char>> {
    match reply {
        HttpReplyView::Answered(a) => if a.success() && a.text() is Some && !blank(a.text()->0) {
            a.text()
        } else {
            None
        },
        HttpReplyView::Failed(_) => None,
    }
}

/// The page from the primary converter, or the second request.
pub open spec fn fetch_primary(url: Seq<char>, reply: HttpReplyView) -> WebStepView {
    match page_text(reply) {
        Some(text) => gave(text),
        None => fetch_again(url),
    }
}

/// The page from the fallback converter, or why there is none.
pub open spec fn fetch_fallback(reply: HttpReplyView) -> WebStepView {
    match reply {
        HttpReplyView::Failed(_) => failed("both defuddle.md and r.jina.ai unreachable"@),
        HttpReplyView::Answered(a) => if !a.success() {
            failed(
                "fetch failed: defuddle.md and r.jina.ai both returned non-2xx (last: "@ + a.status
                    + ")"@,
            )
        } else {
            match a.text() {
                Some(text) => gave(text),
                None => failed("read fetch response body"@),
            }
        },
    }
}

/// Fetch a URL as Markdown. Primary: defuddle.md. Fallback: r.jina.ai.
pub fn fetch_markdown_default(url: &str) -> (r: WebStep)
    ensures
        r@ == fetch_started(url@),
{
    let address = cat("https://defuddle.md/", url);
    WebStep::Send(
        HttpCall::new(Method::Get, address.as_str(), Reading::Text),
        WebState::FetchPrimary { url: url.to_string() },
    )
}

pub(crate) fn after_primary(url: &str, reply: &HttpReply) -> (r: WebStep)
    ensures
        r@ == fetch_primary(url@, reply@),
{
    if let HttpReply::Answered(a) = reply {
        if a.success() {
            if let Some(text) = a.text() {
                if !is_blank(text) {
                    return give(text.to_string());
                }
            }
        }
    }
    let address = cat("https://r.jina.ai/", url);
    WebStep::Send(
        HttpCall::new(Method::Get, address.as_str(), Reading::Text),
        WebState::FetchFallback,
    )
}

pub(crate) fn after_fallback(reply: &HttpReply) -> (r: WebStep)
    ensures
        r@ == fetch_fallback(reply@),
{
    match reply {
        HttpReply::Failed(_) => fail("both defuddle.md and r.jina.ai unreachable"),
        HttpReply::Answered(a) => if !a.success() {
            let mut out = cat(
                "fetch failed: defuddle.md and r.jina.ai both returned non-2xx (last: ",
                a.status.as_str(),
            );
            out.append(")");
            fail(out.as_str())
        } else {
            match a.text() {
                Some(text) => give(text.to_string()),
                None => fail("read fetch response body"),
            }
        },
    }
}

// ---- Laws --------------------------------------------------------------------------------------

/// A page that the primary converter gives comes back whole. Otherwise the fallback converter is
/// asked for the same address, and what it gives comes back whole; where it gives nothing either,
/// the words say why.
pub proof fn law_pages_come_back_whole(url: Seq<char>, a: HttpAnswerView, text: Seq<char>)
    ensures
        a.success() && a.text() == Some(text) && !blank(text) ==> fetch_primary(
            url,
            HttpReplyView::Answered(a),
        ) == WebStepView::Done(Ok(text)),
        !a.success() || a.text() is None || blank(a.text()->0) ==> fetch_primary(
            url,
            HttpReplyView::Answered(a),
        ) == fetch_again(url),
        fetch_primary(url, HttpReplyView::Failed(text)) == fetch_again(url),
        a.success() && a.text() == Some(text) ==> fetch_fallback(HttpReplyView::Answered(a))
            == WebStepView::Done(Ok(text)),
        a.success() && a.text() is None ==> fetch_fallback(HttpReplyView::Answered(a))
            == WebStepView::Done(Err("read fetch response body"@)),
        !a.success() ==> fetch_fallback(HttpReplyView::Answered(a)) == WebStepView::Done(
            Err(
                "fetch failed: defuddle.md and r.jina.ai both returned non-2xx (last: "@ + a.status
                    + ")"@,
            ),
        ),
        fetch_fallback(HttpReplyView::Failed(text)) == WebStepView::Done(
            Err("both defuddle.md and r.jina.ai unreachable"@),
        ),
{
}

/// Both converters are asked for exactly the address that was given, and for nothing else.
pub proof fn law_converters_get_the_address(url: Seq<char>)
    ensures
        fetch_started(url) matches WebStepView::Send(call, state) && call.method is Get && call.url
            == "https://defuddle.md/"@ + url && call.bearer is None && call.body is Empty
            && call.query.len() == 0 && call.headers.len() == 0 && state == (
        WebStateView::FetchPrimary { url }),
        fetch_again(url) matches WebStepView::Send(call, state) && call.method is Get && call.url
            == "https://r.jina.ai/"@ + url && call.bearer is None && call.body is Empty
            && call.query.len() == 0 && call.headers.len() == 0 && state is FetchFallback,
{
}

/// What is told of a refusal names who refused, the status, and the first three hundred characters
/// of what was said.
pub proof fn law_refusals_quote_the_answer(what: Seq<char>, a: HttpAnswerView)
    ensures
        returned(what, a) == what + " returned "@ + a.status + ": "@ + if a.text_or_empty().len()
            <= 300 {
            a.text_or_empty()
        } else {
            a.text_or_empty().take(300)
        },
{
    crate::text::law_clipping_keeps_the_beginning(a.text_or_empty(), 300);
    assert(clipped(a.text_or_empty(), 300) =~= if a.text_or_empty().len() <= 300 {
        a.text_or_empty()
    } else {
        a.text_or_empty().take(300)
    });
}

/// What a course of requests waits for is seen whole, and so is each of its steps.
pub proof fn law_courses_are_seen_whole(
    url: String,
    query: String,
    api_key: String,
    path: String,
    method: String,
    flag: bool,
    call: HttpCall,
    state: WebState,
    text: String,
    failure: Failure,
)
    ensures
        (WebState::FetchPrimary { url })@ == (WebStateView::FetchPrimary { url: url@ }),
        WebState::FetchFallback@ is FetchFallback,
        (WebState::Brave { news: flag })@ == (WebStateView::Brave { news: flag }),
        (WebState::Pipellm { query, api_key, path, second: flag })@ == (WebStateView::Pipellm {
            query: query@,
            api_key: api_key@,
            path: path@,
            second: flag,
        }),
        WebState::Tavily@ is Tavily,
        (WebState::ReaderPipellm { url, api_key, second: flag })@ == (WebStateView::ReaderPipellm {
            url: url@,
            api_key: api_key@,
            second: flag,
        }),
        (WebState::ReaderTavily { url })@ == (WebStateView::ReaderTavily { url: url@ }),
        (WebState::Request { method, url })@ == (WebStateView::Request {
            method: method@,
            url: url@,
        }),
        WebStep::Send(call, state)@ == WebStepView::Send(call@, state@),
        WebStep::Done(Ok(text))@ == WebStepView::Done(Ok(text@)),
        WebStep::Done(Err(failure))@ == WebStepView::Done(Err(failure.message@)),
{
}

} // verus!
