//! Reading a page through the provider of web search, where it has a reader.

use crate::http::{
    plain_call, put_pair, CallBody, CallBodyView, HttpCall, HttpCallView, HttpReply, HttpReplyView,
    Method, Reading,
};
use crate::json::{items, pairs, put, Json, JsonView};
use crate::search::{pipellm_base, pipellm_domain, pipellm_trouble, trouble_of_pipellm};
use crate::text::{blank, cat, is_blank, opt_string, same};
use crate::web::{
    fail, failed, fetch_markdown_default, fetch_started, gave, give, WebState, WebStateView,
    WebStep, WebStepView,
};
use vstd::prelude::*;
use vstd::string::*;

verus! {

// ---- PipeLLM -----------------------------------------------------------------------------------

/// The request for a page to a domain of PipeLLM.
pub open spec fn reader_asks(url: Seq<char>, api_key: Seq<char>, second: bool) -> WebStepView {
    WebStepView::Send(
        HttpCallView {
            query: seq![("url"@, url)],
            bearer: Some(api_key),
            ..plain_call(
                Method::Get,
                pipellm_domain(second) + "/v1/websearch/reader"@,
                Reading::Bytes,
            )
        },
        WebStateView::ReaderPipellm { url, api_key, second },
    )
}

fn ask_reader(url: &str, api_key: &str, second: bool) -> (r: WebStep)
    ensures
        r@ == reader_asks(url@, api_key@, second),
{
    let address = cat(pipellm_base(second), "/v1/websearch/reader");
    let mut call = HttpCall::new(Method::Get, address.as_str(), Reading::Bytes);
    let mut params: Vec<(String, String)> = Vec::new();
    put_pair(&mut params, "url", url);
    call.query = params;
    call.bearer = Some(api_key.to_string());
    assert(call@ =~= reader_asks(url@, api_key@, second)->Send_0);
    WebStep::Send(
        call,
        WebState::ReaderPipellm { url: url.to_string(), api_key: api_key.to_string(), second },
    )
}

/// The text that the reader of PipeLLM found: plain text, or a member of an object.
pub open spec fn reader_text(json: JsonView) -> Seq<char> {
    json.field("content"@).text_or(json.field("text"@).text_or(json.text_or(""@)))
}

/// The page that the reader of PipeLLM found.
pub open spec fn reader_page(json: JsonView) -> Seq<char> {
    if blank(reader_text(json)) {
        "Page returned empty content."@
    } else {
        reader_text(json)
    }
}

/// Takes the page out of what the reader of PipeLLM found.
pub fn page_of_reader(json: &Json) -> (r: String)
    ensures
        r@ == reader_page(json@),
{
    let text = json.field("content").text_or(json.field("text").text_or(json.text_or("")));
    if is_blank(text) {
        "Page returned empty content.".to_string()
    } else {
        text.to_string()
    }
}

/// The page from the reader of PipeLLM, or why there is none. A domain in trouble is followed by
/// the next one, and the last one by the generic converters.
pub open spec fn reader_result(
    url: Seq<char>,
    api_key: Seq<char>,
    second: bool,
    reply: HttpReplyView,
) -> WebStepView {
    if pipellm_trouble(second, reply) is Some {
        if second {
            fetch_started(url)
        } else {
            reader_asks(url, api_key, true)
        }
    } else {
        match reply->Answered_0.json() {
            None => failed("parse pipellm reader response"@),
            Some(json) => gave(reader_page(json)),
        }
    }
}

pub(crate) fn after_reader(url: &str, api_key: &str, second: bool, reply: &HttpReply) -> (r:
    WebStep)
    ensures
        r@ == reader_result(url@, api_key@, second, reply@),
{
    if let Some(_) = trouble_of_pipellm(second, reply) {
        return if second {
            fetch_markdown_default(url)
        } else {
            ask_reader(url, api_key, true)
        };
    }
    match reply {
        HttpReply::Failed(words) => fail(words.as_str()),
        HttpReply::Answered(a) => match a.json() {
            None => fail("parse pipellm reader response"),
            Some(json) => give(page_of_reader(&json)),
        },
    }
}

// ---- Tavily ------------------------------------------------------------------------------------

/// The request for a page to the extractor of Tavily.
pub open spec fn extract_asks(url: Seq<char>, api_key: Seq<char>) -> WebStepView {
    WebStepView::Send(
        HttpCallView {
            bearer: Some(api_key),
            body: CallBodyView::Json(
                JsonView::Object(seq![("urls"@, JsonView::Array(seq![JsonView::Text(url)]))]),
            ),
            ..plain_call(Method::Post, "https://api.tavily.com/extract"@, Reading::Bytes)
        },
        WebStateView::ReaderTavily { url },
    )
}

fn ask_extract(url: &str, api_key: &str) -> (r: WebStep)
    ensures
        r@ == extract_asks(url@, api_key@),
{
    let mut urls: Vec<Json> = Vec::new();
    urls.push(Json::from_text(url));
    assert(items(urls@) =~= seq![JsonView::Text(url@)]);
    let mut body: Vec<(String, Json)> = Vec::new();
    put(&mut body, "urls", Json::from_items(urls));
    assert(pairs(body@) =~= seq![("urls"@, JsonView::Array(seq![JsonView::Text(url@)]))]);
    let mut call = HttpCall::new(Method::Post, "https://api.tavily.com/extract", Reading::Bytes);
    call.bearer = Some(api_key.to_string());
    call.body = CallBody::Json(Json::from_members(body));
    assert(call@ =~= extract_asks(url@, api_key@)->Send_0);
    WebStep::Send(call, WebState::ReaderTavily { url: url.to_string() })
}

/// The text that the extractor of Tavily found: that of its first result.
pub open spec fn extract_text(json: JsonView) -> Seq<char> {
    let first = json.field("results"@).first();
    first.field("raw_content"@).text_or(first.field("content"@).text_or(""@))
}

/// The page that the extractor of Tavily found, if it is worth having.
pub open spec fn extract_page(json: JsonView) -> Option<Seq<char>> {
    if blank(extract_text(json)) {
        None
    } else {
        Some(extract_text(json))
    }
}

/// Takes the page out of what the extractor of Tavily found.
pub fn page_of_extract(json: &Json) -> (r: Option<String>)
    ensures
        opt_string(r) == extract_page(json@),
{
    let first = json.field("results").first();
    let text = first.field("raw_content").text_or(first.field("content").text_or(""));
    if is_blank(text) {
        None
    } else {
        Some(text.to_string())
    }
}

/// The page from the extractor of Tavily, or why there is none. A failure, a refusal and an empty
/// page are followed by the generic converters.
pub open spec fn extract_result(url: Seq<char>, reply: HttpReplyView) -> WebStepView {
    match reply {
        HttpReplyView::Failed(_) => fetch_started(url),
        HttpReplyView::Answered(a) => if !a.success() {
            fetch_started(url)
        } else {
            match a.json() {
                None => failed("parse tavily extract response"@),
                Some(json) => match extract_page(json) {
                    Some(page) => gave(page),
                    None => fetch_started(url),
                },
            }
        },
    }
}

pub(crate) fn after_extract(url: &str, reply: &HttpReply) -> (r: WebStep)
    ensures
        r@ == extract_result(url@, reply@),
{
    let a = match reply {
        HttpReply::Failed(_) => {
            return fetch_markdown_default(url);
        },
        HttpReply::Answered(a) => a,
    };
    if !a.success() {
        return fetch_markdown_default(url);
    }
    match a.json() {
        None => fail("parse tavily extract response"),
        Some(json) => match page_of_extract(&json) {
            Some(page) => give(page),
            None => fetch_markdown_default(url),
        },
    }
}

// ---- Start -------------------------------------------------------------------------------------

/// The first request for a page: to the reader of the provider, or to the generic converters.
pub open spec fn read_started(
    url: Seq<char>,
    provider: Seq<char>,
    api_key: Seq<char>,
) -> WebStepView {
    if provider == "pipellm"@ {
        reader_asks(url, api_key, false)
    } else if provider == "tavily"@ {
        extract_asks(url, api_key)
    } else {
        fetch_started(url)
    }
}

/// Read a URL and return clean extracted text. Uses provider-native readers where available, falls
/// back to generic fetchers.
pub fn exec_read_url(url: &str, provider: &str, api_key: &str) -> (r: WebStep)
    ensures
        r@ == read_started(url@, provider@, api_key@),
{
    if same(provider, "pipellm") {
        ask_reader(url, api_key, false)
    } else if same(provider, "tavily") {
        ask_extract(url, api_key)
    } else {
        fetch_markdown_default(url)
    }
}

// ---- Laws --------------------------------------------------------------------------------------

/// The reader of PipeLLM is asked for exactly the address that was given, with the key, at its
/// first domain and then at its second one; and the extractor of Tavily likewise at its own.
pub proof fn law_readers_get_the_address(url: Seq<char>, api_key: Seq<char>)
    ensures
        reader_asks(url, api_key, false) matches WebStepView::Send(call, state) && call.url
            == "https://api.pipellm.ai/v1/websearch/reader"@ && call.query == seq![("url"@, url)]
            && call.bearer == Some(api_key) && call.method is Get && call.body is Empty && state
                == (
        WebStateView::ReaderPipellm { url, api_key, second: false }),
        reader_asks(url, api_key, true) matches WebStepView::Send(call, state) && call.url
            == "https://api.pipellm.com/v1/websearch/reader"@ && call.query == seq![("url"@, url)]
            && call.bearer == Some(api_key) && call.method is Get && call.body is Empty && state
                == (
        WebStateView::ReaderPipellm { url, api_key, second: true }),
        extract_asks(url, api_key) matches WebStepView::Send(call, state) && call.url
            == "https://api.tavily.com/extract"@ && call.method is Post && call.bearer == Some(
            api_key,
        ) && call.body == CallBodyView::Json(
            JsonView::Object(seq![("urls"@, JsonView::Array(seq![JsonView::Text(url)]))]),
        ) && call.query.len() == 0 && state == (WebStateView::ReaderTavily { url }),
        read_started(url, "pipellm"@, api_key) == reader_asks(url, api_key, false),
        read_started(url, "tavily"@, api_key) == extract_asks(url, api_key),
{
    reveal_strlit("pipellm");
    reveal_strlit("tavily");
    assert("pipellm"@.len() == 7);
    assert("tavily"@.len() == 6);
    reveal_strlit("https://api.pipellm.ai");
    reveal_strlit("https://api.pipellm.com");
    reveal_strlit("/v1/websearch/reader");
    reveal_strlit("https://api.pipellm.ai/v1/websearch/reader");
    reveal_strlit("https://api.pipellm.com/v1/websearch/reader");
    assert("https://api.pipellm.ai"@ + "/v1/websearch/reader"@
        =~= "https://api.pipellm.ai/v1/websearch/reader"@);
    assert("https://api.pipellm.com"@ + "/v1/websearch/reader"@
        =~= "https://api.pipellm.com/v1/websearch/reader"@);
}

/// The page that the reader of PipeLLM found comes back whole: the content, or else the text, or
/// else what the answer itself is. An empty one is told.
pub proof fn law_reader_pages_come_back_whole(
    url: Seq<char>,
    api_key: Seq<char>,
    second: bool,
    a: crate::http::HttpAnswerView,
    json: JsonView,
    page: Seq<char>,
)
    requires
        a.success(),
    ensures
        ({
            let after = reader_result(url, api_key, second, HttpReplyView::Answered(a));
            let content = json.field("content"@);
            let text = json.field("text"@);
            let found = content == JsonView::Text(page) || (!(content is Text) && text
                == JsonView::Text(page)) || (!(content is Text) && !(text is Text) && json
                == JsonView::Text(page));
            &&& a.json() == Some(json) && found && !blank(page) ==> after == WebStepView::Done(
                Ok(page),
            )
            &&& a.json() == Some(json) && found && blank(page) ==> after == WebStepView::Done(
                Ok("Page returned empty content."@),
            )
            &&& a.json() == Some(json) && !(content is Text) && !(text is Text) && !(json is Text)
                ==> after == WebStepView::Done(Ok("Page returned empty content."@))
            &&& a.json() is None ==> after == WebStepView::Done(
                Err("parse pipellm reader response"@),
            )
        }),
{
    reveal_strlit("");
    assert(""@ =~= Seq::<char>::empty());
}

/// The page that the extractor of Tavily found comes back whole: the raw content of its first
/// result, or else the content.
pub proof fn law_extracts_come_back_whole(
    url: Seq<char>,
    a: crate::http::HttpAnswerView,
    json: JsonView,
    results: Seq<JsonView>,
    page: Seq<char>,
)
    requires
        a.success(),
    ensures
        ({
            let after = extract_result(url, HttpReplyView::Answered(a));
            let raw = results[0].field("raw_content"@);
            let content = results[0].field("content"@);
            &&& a.json() == Some(json) && json.field("results"@) == JsonView::Array(results)
                && results.len() > 0 && (raw == JsonView::Text(page) || (!(raw is Text) && content
                == JsonView::Text(page))) && !blank(page) ==> after == WebStepView::Done(Ok(page))
            &&& a.json() == Some(json) && json.field("results"@) == JsonView::Array(results)
                && results.len() > 0 && (raw == JsonView::Text(page) || (!(raw is Text) && content
                == JsonView::Text(page))) && blank(page) ==> after == fetch_started(url)
            &&& a.json() is None ==> after == WebStepView::Done(
                Err("parse tavily extract response"@),
            )
        }),
{
}

} // verus!
