//! Courses of requests, step by step.

use crate::http::{HttpReply, HttpReplyView};
use crate::json::JsonView;
use crate::reader::{
    after_extract, after_reader, extract_page, extract_result, read_started, reader_asks,
    reader_result,
};
use crate::request::{after_request, method_named, request_result, request_started};
use crate::search::{
    after_brave, after_pipellm, after_tavily, brave_result, pipellm_result, tavily_result,
};
use crate::web::{
    after_fallback, after_primary, failed, fetch_fallback, fetch_primary, fetch_started, WebState,
    WebStateView, WebStep, WebStepView,
};
use vstd::prelude::*;
use vstd::string::*;

verus! {

/// What follows a reply.
pub open spec fn resumed(state: WebStateView, reply: HttpReplyView) -> WebStepView {
    match state {
        WebStateView::FetchPrimary { url } => fetch_primary(url, reply),
        WebStateView::FetchFallback => fetch_fallback(reply),
        WebStateView::Brave { news } => brave_result(news, reply),
        WebStateView::Pipellm { query, api_key, path, second } => pipellm_result(
            query,
            api_key,
            path,
            second,
            reply,
        ),
        WebStateView::Tavily => tavily_result(reply),
        WebStateView::ReaderPipellm { url, api_key, second } => reader_result(
            url,
            api_key,
            second,
            reply,
        ),
        WebStateView::ReaderTavily { url } => extract_result(url, reply),
        WebStateView::Request { method, url } => request_result(method, url, reply),
    }
}

/// Goes on with a course of requests after a reply.
pub fn resume(state: &WebState, reply: &HttpReply) -> (r: WebStep)
    ensures
        r@ == resumed(state@, reply@),
{
    match state {
        WebState::FetchPrimary { url } => after_primary(url.as_str(), reply),
        WebState::FetchFallback => after_fallback(reply),
        WebState::Brave { news } => after_brave(*news, reply),
        WebState::Pipellm { query, api_key, path, second } => after_pipellm(
            query.as_str(),
            api_key.as_str(),
            path.as_str(),
            *second,
            reply,
        ),
        WebState::Tavily => after_tavily(reply),
        WebState::ReaderPipellm { url, api_key, second } => after_reader(
            url.as_str(),
            api_key.as_str(),
            *second,
            reply,
        ),
        WebState::ReaderTavily { url } => after_extract(url.as_str(), reply),
        WebState::Request { method, url } => after_request(method.as_str(), url.as_str(), reply),
    }
}

// ---- Laws --------------------------------------------------------------------------------------

/// How many replies a course can still ask for.
pub open spec fn replies_left(state: WebStateView) -> nat {
    match state {
        WebStateView::FetchPrimary { .. } => 2,
        WebStateView::FetchFallback => 1,
        WebStateView::Brave { .. } => 1,
        WebStateView::Pipellm { second, .. } => if second {
            1
        } else {
            2
        },
        WebStateView::Tavily => 1,
        WebStateView::ReaderPipellm { second, .. } => if second {
            3
        } else {
            4
        },
        WebStateView::ReaderTavily { .. } => 3,
        WebStateView::Request { .. } => 1,
    }
}

/// Every course ends: each reply leaves it fewer replies to ask for, and none asks for more than
/// four.
pub proof fn law_courses_end(state: WebStateView, reply: HttpReplyView)
    ensures
        replies_left(state) <= 4,
        resumed(state, reply) is Send ==> replies_left(resumed(state, reply)->Send_1)
            < replies_left(state),
        replies_left(state) == 1 ==> resumed(state, reply) is Done,
{
}

/// A request with an unknown method is refused, and nothing is sent; any other is sent to the
/// address that was given.
pub proof fn law_unknown_method_sends_nothing(
    method: Seq<char>,
    url: Seq<char>,
    headers: JsonView,
    body: Option<Seq<char>>,
    query: JsonView,
)
    ensures
        request_started(method, url, headers, body, query) is Send <==> method_named(method)
            is Some,
        method_named(method) is None ==> request_started(method, url, headers, body, query)
            == failed("unsupported HTTP method: "@ + method),
        request_started(method, url, headers, body, query) is Send ==> request_started(
            method,
            url,
            headers,
            body,
            query,
        )->Send_0.url == url,
{
}

/// There is no accepted answer.
pub open spec fn no_success(reply: HttpReplyView) -> bool {
    match reply {
        HttpReplyView::Failed(_) => true,
        HttpReplyView::Answered(a) => !a.success(),
    }
}

/// An accepted answer of the extractor of Tavily holds no page that is worth having.
pub open spec fn no_extract(reply: HttpReplyView) -> bool {
    match reply {
        HttpReplyView::Failed(_) => false,
        HttpReplyView::Answered(a) => match a.json() {
            Some(json) => extract_page(json) is None,
            None => false,
        },
    }
}

/// When no reader of a provider has the page, what follows is a plain fetch of the same address:
/// after a failure or a refusal at both domains of PipeLLM, after a failure, a refusal or a blank
/// page of Tavily, and at once where the provider has no reader.
pub proof fn law_readers_fall_back(
    url: Seq<char>,
    provider: Seq<char>,
    api_key: Seq<char>,
    reply: HttpReplyView,
)
    ensures
        no_success(reply) ==> resumed(
            WebStateView::ReaderPipellm { url, api_key, second: false },
            reply,
        ) == reader_asks(url, api_key, true),
        no_success(reply) ==> resumed(
            WebStateView::ReaderPipellm { url, api_key, second: true },
            reply,
        ) == fetch_started(url),
        no_success(reply) || no_extract(reply) ==> resumed(
            WebStateView::ReaderTavily { url },
            reply,
        ) == fetch_started(url),
        provider != "pipellm"@ && provider != "tavily"@ ==> read_started(url, provider, api_key)
            == fetch_started(url),
{
}

/// Each course goes on by its own rules, with what it was waiting with.
pub proof fn law_courses_go_on_with_their_own(
    url: Seq<char>,
    api_key: Seq<char>,
    query: Seq<char>,
    path: Seq<char>,
    method: Seq<char>,
    flag: bool,
    reply: HttpReplyView,
)
    ensures
        resumed(WebStateView::FetchPrimary { url }, reply) == fetch_primary(url, reply),
        resumed(WebStateView::FetchFallback, reply) == fetch_fallback(reply),
        resumed(WebStateView::Brave { news: flag }, reply) == brave_result(flag, reply),
        resumed(WebStateView::Pipellm { query, api_key, path, second: flag }, reply)
            == pipellm_result(query, api_key, path, flag, reply),
        resumed(WebStateView::Tavily, reply) == tavily_result(reply),
        resumed(WebStateView::ReaderPipellm { url, api_key, second: flag }, reply)
            == reader_result(url, api_key, flag, reply),
        resumed(WebStateView::ReaderTavily { url }, reply) == extract_result(url, reply),
        resumed(WebStateView::Request { method, url }, reply) == request_result(method, url, reply),
{
}

} // verus!
