//! Web search: requests to the providers, and their results as Markdown.

use crate::http::{
    plain_call, put_pair, CallBody, CallBodyView, HttpCall, HttpCallView, HttpReply, HttpReplyView,
    Method, Reading,
};
use crate::json::{items, opt_text, pairs, put, Json, JsonNumberView, JsonView};
use crate::lines::concatenated;
use crate::numeral::{parse_u32, parsed_u32};
use crate::text::{cat, clip, clipped, same};
use crate::web::{
    fail, failed, gave, give, returned, tell_returned, WebState, WebStateView, WebStep, WebStepView,
};
use vstd::prelude::*;
use vstd::string::*;

verus! {

// ---- Results -----------------------------------------------------------------------------------

/// A search result in Markdown.
pub open spec fn entry(title: Seq<char>, url: Seq<char>, text: Seq<char>) -> Seq<char> {
    "- **"@ + title + "** <"@ + url + ">\n  "@ + text + "\n"@
}

fn write_entry(title: &str, url: &str, text: &str) -> (r: String)
    ensures
        r@ == entry(title@, url@, text@),
{
    let mut out = cat("- **", title);
    out.append("** <");
    out.append(url);
    out.append(">\n  ");
    out.append(text);
    out.append("\n");
    out
}

/// The first ten results, each written out.
pub open spec fn written(
    list: Seq<JsonView>,
    write: spec_fn(JsonView) -> Seq<char>,
) -> Seq<char> {
    concatenated(clipped(list, 10).map_values(write))
}

fn write_results<F: Fn(&Json) -> String>(
    list: &[Json],
    writer: F,
    write: Ghost<spec_fn(JsonView) -> Seq<char>>,
) -> (r: String)
    requires
        forall|j: &Json| call_requires(writer, (j,)),
        forall|j: &Json, s: String| call_ensures(writer, (j,), s) ==> s@ == write@(j@),
    ensures
        r@ == written(items(list@), write@),
{
    let n: usize = if list.len() < 10 {
        list.len()
    } else {
        10
    };
    let mut out = String::new();
    let ghost shown = clipped(items(list@), 10).map_values(write@);
    let mut i: usize = 0;
    assert(shown.take(0).len() == 0);
    while i < n
        invariant
            i <= n,
            n <= list@.len(),
            n == shown.len(),
            shown == clipped(items(list@), 10).map_values(write@),
            forall|j: &Json| call_requires(writer, (j,)),
            forall|j: &Json, s: String| call_ensures(writer, (j,), s) ==> s@ == write@(j@),
            out@ == concatenated(shown.take(i as int)),
        decreases n - i,
    {
        let piece = writer(&list[i]);
        assert(shown[i as int] == piece@);
        assert(shown.take(i + 1).drop_last() == shown.take(i as int));
        out.append(piece.as_str());
        i = i + 1;
    }
    assert(shown.take(i as int) == shown);
    out
}

// ---- Brave -------------------------------------------------------------------------------------

/// The request for search results of Brave.
pub open spec fn brave_started(
    query: Seq<char>,
    api_key: Seq<char>,
    kind: Option<Seq<char>>,
    freshness: Option<Seq<char>>,
) -> WebStepView {
    let news = kind == Some("news"@);
    let base = seq![("q"@, query), ("count"@, "10"@), ("extra_snippets"@, "true"@)];
    WebStepView::Send(
        HttpCallView {
            query: match freshness {
                Some(f) => base.push(("freshness"@, f)),
                None => base,
            },
            headers: seq![("X-Subscription-Token"@, api_key), ("Accept"@, "application/json"@)],
            ..plain_call(
                Method::Get,
                if news {
                    "https://api.search.brave.com/res/v1/news/search"@
                } else {
                    "https://api.search.brave.com/res/v1/web/search"@
                },
                Reading::Bytes,
            )
        },
        WebStateView::Brave { news },
    )
}

fn is_word(s: Option<&str>, word: &str) -> (r: bool)
    ensures
        r == (opt_text(s) == Some(word@)),
{
    match s {
        Some(t) => same(t, word),
        None => false,
    }
}

/// Starts a search with Brave; news have an endpoint of their own.
pub fn search_brave(query: &str, api_key: &str, kind: Option<&str>, freshness: Option<&str>) -> (r:
    WebStep)
    ensures
        r@ == brave_started(query@, api_key@, opt_text(kind), opt_text(freshness)),
{
    let news = is_word(kind, "news");
    let endpoint = if news {
        "https://api.search.brave.com/res/v1/news/search"
    } else {
        "https://api.search.brave.com/res/v1/web/search"
    };
    let mut call = HttpCall::new(Method::Get, endpoint, Reading::Bytes);
    let mut params: Vec<(String, String)> = Vec::new();
    put_pair(&mut params, "q", query);
    put_pair(&mut params, "count", "10");
    put_pair(&mut params, "extra_snippets", "true");
    if let Some(f) = freshness {
        put_pair(&mut params, "freshness", f);
    }
    call.query = params;
    let mut headers: Vec<(String, String)> = Vec::new();
    put_pair(&mut headers, "X-Subscription-Token", api_key);
    put_pair(&mut headers, "Accept", "application/json");
    call.headers = headers;
    assert(call@ =~= brave_started(
        query@,
        api_key@,
        opt_text(kind),
        opt_text(freshness),
    )->Send_0);
    WebStep::Send(call, WebState::Brave { news })
}

/// An additional snippet of a result; nothing where it is no text.
pub open spec fn snippet(s: JsonView) -> Seq<char> {
    match s.text() {
        Some(t) => "  > "@ + t + "\n"@,
        None => Seq::empty(),
    }
}

/// A result of Brave: title, address and description, then up to three more snippets.
pub open spec fn brave_entry(r: JsonView) -> Seq<char> {
    entry(
        r.field("title"@).text_or("(no title)"@),
        r.field("url"@).text_or(""@),
        r.field("description"@).text_or(""@),
    ) + concatenated(
        clipped(r.field("extra_snippets"@).elements(), 3).map_values(|s: JsonView| snippet(s)),
    )
}

fn write_brave_entry(r: &Json) -> (s: String)
    ensures
        s@ == brave_entry(r@),
{
    let mut out = write_entry(
        r.field("title").text_or("(no title)"),
        r.field("url").text_or(""),
        r.field("description").text_or(""),
    );
    let ghost head = out@;
    let ghost more = clipped(r@.field("extra_snippets"@).elements(), 3).map_values(
        |s: JsonView| snippet(s),
    );
    if let Some(list) = r.field("extra_snippets").array() {
        let n: usize = if list.len() < 3 {
            list.len()
        } else {
            3
        };
        let mut i: usize = 0;
        assert(more.take(0).len() == 0);
        assert(head + concatenated(more.take(0)) == head);
        while i < n
            invariant
                i <= n,
                n <= list@.len(),
                n == more.len(),
                more == clipped(items(list@), 3).map_values(|s: JsonView| snippet(s)),
                out@ == head + concatenated(more.take(i as int)),
            decreases n - i,
        {
            assert(more.take(i + 1).drop_last() == more.take(i as int));
            assert(more[i as int] == snippet(list@[i as int]@));
            let ghost before = out@;
            if let Some(t) = list[i].text() {
                out.append("  > ");
                out.append(t);
                out.append("\n");
                assert(before + "  > "@ + t@ + "\n"@ == before + ("  > "@ + t@ + "\n"@));
            } else {
                assert(before + snippet(list@[i as int]@) == before);
            }
            assert(out@ == before + more[i as int]);
            assert(before + more[i as int] == head + (concatenated(more.take(i as int))
                + more[i as int]));
            i = i + 1;
        }
        assert(more.take(i as int) == more);
    } else {
        assert(more.len() == 0);
        assert(head + concatenated(more) == head);
    }
    out
}

/// What Brave found: news stand at the root of its answer, other results under `web`.
pub open spec fn brave_report(news: bool, json: JsonView) -> Seq<char> {
    let results = if news {
        json.field("results"@).elements()
    } else {
        json.field("web"@).field("results"@).elements()
    };
    if results.len() == 0 {
        "No results found."@
    } else {
        written(results, |r: JsonView| brave_entry(r))
    }
}

/// What Brave found, or why the search failed.
pub open spec fn brave_result(news: bool, reply: HttpReplyView) -> WebStepView {
    match reply {
        HttpReplyView::Failed(_) => failed("brave search request failed"@),
        HttpReplyView::Answered(a) => if !a.success() {
            failed(returned("brave search"@, a))
        } else {
            match a.json() {
                None => failed("parse brave response"@),
                Some(json) => gave(brave_report(news, json)),
            }
        },
    }
}

pub(crate) fn elements_of(j: &Json) -> (r: &[Json])
    ensures
        items(r@) == j@.elements(),
{
    match j.array() {
        Some(list) => list.as_slice(),
        None => {
            let none: &[Json] = &[];
            assert(items(none@) =~= Seq::<JsonView>::empty());
            none
        },
    }
}

/// Writes out what Brave found.
pub fn report_brave(news: bool, json: &Json) -> (r: String)
    ensures
        r@ == brave_report(news, json@),
{
    let results = elements_of(
        if news {
            json.field("results")
        } else {
            json.field("web").field("results")
        },
    );
    if results.len() == 0 {
        "No results found.".to_string()
    } else {
        write_results(results, write_brave_entry, Ghost(|r: JsonView| brave_entry(r)))
    }
}

pub(crate) fn after_brave(news: bool, reply: &HttpReply) -> (r: WebStep)
    ensures
        r@ == brave_result(news, reply@),
{
    let a = match reply {
        HttpReply::Failed(_) => {
            return fail("brave search request failed");
        },
        HttpReply::Answered(a) => a,
    };
    if !a.success() {
        return fail(tell_returned("brave search", a).as_str());
    }
    match a.json() {
        None => fail("parse brave response"),
        Some(json) => give(report_brave(news, &json)),
    }
}

// ---- PipeLLM -----------------------------------------------------------------------------------

/// The domains of PipeLLM, in the order in which they are tried.
pub open spec fn pipellm_domain(second: bool) -> Seq<char> {
    if second {
        "https://api.pipellm.com"@
    } else {
        "https://api.pipellm.ai"@
    }
}

pub(crate) fn pipellm_base(second: bool) -> (r: &'static str)
    ensures
        r@ == pipellm_domain(second),
{
    if second {
        "https://api.pipellm.com"
    } else {
        "https://api.pipellm.ai"
    }
}

/// The endpoint for a kind of search.
pub open spec fn pipellm_path(kind: Option<Seq<char>>) -> Seq<char> {
    if kind == Some("news"@) {
        "v1/websearch/search-news"@
    } else if kind == Some("deep"@) {
        "v1/websearch/search"@
    } else {
        "v1/websearch/simple-search"@
    }
}

/// The request for search results to a domain of PipeLLM.
pub open spec fn pipellm_asks(
    query: Seq<char>,
    api_key: Seq<char>,
    path: Seq<char>,
    second: bool,
) -> WebStepView {
    WebStepView::Send(
        HttpCallView {
            query: seq![("q"@, query)],
            bearer: Some(api_key),
            ..plain_call(Method::Get, pipellm_domain(second) + "/"@ + path, Reading::Bytes)
        },
        WebStateView::Pipellm { query, api_key, path, second },
    )
}

pub(crate) fn ask_pipellm(query: &str, api_key: &str, path: &str, second: bool) -> (r: WebStep)
    ensures
        r@ == pipellm_asks(query@, api_key@, path@, second),
{
    let mut url = cat(pipellm_base(second), "/");
    url.append(path);
    let mut call = HttpCall::new(Method::Get, url.as_str(), Reading::Bytes);
    let mut params: Vec<(String, String)> = Vec::new();
    put_pair(&mut params, "q", query);
    call.query = params;
    call.bearer = Some(api_key.to_string());
    assert(call@ =~= pipellm_asks(query@, api_key@, path@, second)->Send_0);
    WebStep::Send(
        call,
        WebState::Pipellm {
            query: query.to_string(),
            api_key: api_key.to_string(),
            path: path.to_string(),
            second,
        },
    )
}

/// Starts a search with PipeLLM; news and deep search have endpoints of their own.
pub fn search_pipellm(query: &str, api_key: &str, kind: Option<&str>) -> (r: WebStep)
    ensures
        r@ == pipellm_asks(query@, api_key@, pipellm_path(opt_text(kind)), false),
{
    let path = if is_word(kind, "news") {
        "v1/websearch/search-news"
    } else if is_word(kind, "deep") {
        "v1/websearch/search"
    } else {
        "v1/websearch/simple-search"
    };
    ask_pipellm(query, api_key, path, false)
}

/// A result of PipeLLM.
pub open spec fn pipellm_entry(r: JsonView) -> Seq<char> {
    entry(
        r.field("title"@).text_or("(no title)"@),
        r.field("link"@).text_or(r.field("url"@).text_or(""@)),
        r.field("snippet"@).text_or(r.field("content"@).text_or(""@)),
    )
}

fn write_pipellm_entry(r: &Json) -> (s: String)
    ensures
        s@ == pipellm_entry(r@),
{
    write_entry(
        r.field("title").text_or("(no title)"),
        r.field("link").text_or(r.field("url").text_or("")),
        r.field("snippet").text_or(r.field("content").text_or("")),
    )
}

/// The results in an answer of PipeLLM: at its root, or else under `data`.
pub open spec fn pipellm_results(json: JsonView) -> Seq<JsonView> {
    match json.field("organic"@).array() {
        Some(list) => list,
        None => json.field("data"@).field("organic"@).elements(),
    }
}

/// What PipeLLM found.
pub open spec fn pipellm_report(json: JsonView) -> Seq<char> {
    if pipellm_results(json).len() == 0 {
        "No results found."@
    } else {
        written(pipellm_results(json), |r: JsonView| pipellm_entry(r))
    }
}

/// Writes out what PipeLLM found.
pub fn report_pipellm(json: &Json) -> (r: String)
    ensures
        r@ == pipellm_report(json@),
{
    let results = match json.field("organic").array() {
        Some(list) => list.as_slice(),
        None => elements_of(json.field("data").field("organic")),
    };
    if results.len() == 0 {
        "No results found.".to_string()
    } else {
        write_results(results, write_pipellm_entry, Ghost(|r: JsonView| pipellm_entry(r)))
    }
}

/// Why a domain of PipeLLM did not answer a request, if it did not.
pub open spec fn pipellm_trouble(second: bool, reply: HttpReplyView) -> Option<Seq<char>> {
    match reply {
        HttpReplyView::Failed(words) => Some(words),
        HttpReplyView::Answered(a) => if a.success() {
            None
        } else {
            Some(
                a.status + " from "@ + pipellm_domain(second) + ": "@ + clipped(
                    a.text_or_empty(),
                    300,
                ),
            )
        },
    }
}

/// Why a domain of PipeLLM did not answer a request, if it did not.
pub fn trouble_of_pipellm(second: bool, reply: &HttpReply) -> (r: Option<String>)
    ensures
        crate::text::opt_string(r) == pipellm_trouble(second, reply@),
{
    match reply {
        HttpReply::Failed(words) => Some(words.clone()),
        HttpReply::Answered(a) => if a.success() {
            None
        } else {
            let mut out = cat(a.status.as_str(), " from ");
            out.append(pipellm_base(second));
            out.append(": ");
            out.append(clip(a.text_or_empty(), 300).as_str());
            Some(out)
        },
    }
}

/// What PipeLLM found, or why the search failed. A domain in trouble is followed by the next one.
pub open spec fn pipellm_result(
    query: Seq<char>,
    api_key: Seq<char>,
    path: Seq<char>,
    second: bool,
    reply: HttpReplyView,
) -> WebStepView {
    match pipellm_trouble(second, reply) {
        Some(words) => if second {
            failed("pipellm search failed: "@ + words)
        } else {
            pipellm_asks(query, api_key, path, true)
        },
        None => match reply->Answered_0.json() {
            None => failed("parse pipellm response"@),
            Some(json) => gave(pipellm_report(json)),
        },
    }
}

pub(crate) fn after_pipellm(
    query: &str,
    api_key: &str,
    path: &str,
    second: bool,
    reply: &HttpReply,
) -> (r: WebStep)
    ensures
        r@ == pipellm_result(query@, api_key@, path@, second, reply@),
{
    if let Some(words) = trouble_of_pipellm(second, reply) {
        return if second {
            fail(cat("pipellm search failed: ", words.as_str()).as_str())
        } else {
            ask_pipellm(query, api_key, path, true)
        };
    }
    match reply {
        HttpReply::Failed(words) => fail(words.as_str()),
        HttpReply::Answered(a) => match a.json() {
            None => fail("parse pipellm response"),
            Some(json) => give(report_pipellm(&json)),
        },
    }
}

// ---- Tavily ------------------------------------------------------------------------------------

/// The days that a freshness stands for; a week where it is not understood.
pub open spec fn freshness_days(freshness: Seq<char>) -> u32 {
    if freshness == "pd"@ {
        1
    } else if freshness == "pw"@ {
        7
    } else if freshness == "pm"@ {
        31
    } else if freshness == "py"@ {
        365
    } else {
        match parsed_u32(freshness) {
            Some(n) => n,
            None => 7,
        }
    }
}

fn days_of(freshness: &str) -> (r: u32)
    ensures
        r == freshness_days(freshness@),
{
    if same(freshness, "pd") {
        1
    } else if same(freshness, "pw") {
        7
    } else if same(freshness, "pm") {
        31
    } else if same(freshness, "py") {
        365
    } else {
        match parse_u32(freshness) {
            Some(n) => n,
            None => 7,
        }
    }
}

/// A member where there is a value for it.
pub open spec fn optional_member(key: Seq<char>, value: Option<JsonView>) -> Seq<
    (Seq<char>, JsonView),
> {
    match value {
        Some(v) => seq![(key, v)],
        None => Seq::empty(),
    }
}

/// The body of a request to Tavily.
pub open spec fn tavily_body(
    query: Seq<char>,
    kind: Option<Seq<char>>,
    freshness: Option<Seq<char>>,
    search_depth: Option<Seq<char>>,
) -> JsonView {
    JsonView::Object(
        seq![
            ("query"@, JsonView::Text(query)),
            ("max_results"@, JsonView::Number(JsonNumberView::Unsigned(10))),
            ("include_answer"@, JsonView::Bool(true)),
        ] + optional_member(
            "topic"@,
            match kind {
                Some(k) => if k == "news"@ || k == "finance"@ {
                    Some(JsonView::Text(k))
                } else {
                    None
                },
                None => None,
            },
        ) + optional_member(
            "search_depth"@,
            match search_depth {
                Some(d) => Some(JsonView::Text(d)),
                None => None,
            },
        ) + optional_member(
            "days"@,
            match freshness {
                Some(f) => Some(
                    JsonView::Number(JsonNumberView::Unsigned(freshness_days(f) as u64)),
                ),
                None => None,
            },
        ),
    )
}

/// The request for search results of Tavily.
pub open spec fn tavily_started(
    query: Seq<char>,
    api_key: Seq<char>,
    kind: Option<Seq<char>>,
    freshness: Option<Seq<char>>,
    search_depth: Option<Seq<char>>,
) -> WebStepView {
    WebStepView::Send(
        HttpCallView {
            bearer: Some(api_key),
            body: CallBodyView::Json(tavily_body(query, kind, freshness, search_depth)),
            ..plain_call(Method::Post, "https://api.tavily.com/search"@, Reading::Bytes)
        },
        WebStateView::Tavily,
    )
}

/// Starts a search with Tavily, which also answers directly.
pub fn search_tavily(
    query: &str,
    api_key: &str,
    kind: Option<&str>,
    freshness: Option<&str>,
    search_depth: Option<&str>,
) -> (r: WebStep)
    ensures
        r@ == tavily_started(
            query@,
            api_key@,
            opt_text(kind),
            opt_text(freshness),
            opt_text(search_depth),
        ),
{
    let mut body: Vec<(String, Json)> = Vec::new();
    put(&mut body, "query", Json::from_text(query));
    put(&mut body, "max_results", Json::from_unsigned(10));
    put(&mut body, "include_answer", Json::Bool(true));
    if let Some(k) = kind {
        if same(k, "news") || same(k, "finance") {
            put(&mut body, "topic", Json::from_text(k));
        }
    }
    if let Some(d) = search_depth {
        put(&mut body, "search_depth", Json::from_text(d));
    }
    if let Some(f) = freshness {
        put(&mut body, "days", Json::from_unsigned(days_of(f) as u64));
    }
    let ghost expected = tavily_body(
        query@,
        opt_text(kind),
        opt_text(freshness),
        opt_text(search_depth),
    );
    assert(pairs(body@) =~= expected->Object_0);
    let mut call = HttpCall::new(Method::Post, "https://api.tavily.com/search", Reading::Bytes);
    call.bearer = Some(api_key.to_string());
    call.body = CallBody::Json(Json::from_members(body));
    assert(call@ =~= tavily_started(
        query@,
        api_key@,
        opt_text(kind),
        opt_text(freshness),
        opt_text(search_depth),
    )->Send_0);
    WebStep::Send(call, WebState::Tavily)
}

/// A result of Tavily.
pub open spec fn tavily_entry(r: JsonView) -> Seq<char> {
    entry(
        r.field("title"@).text_or("(no title)"@),
        r.field("url"@).text_or(""@),
        r.field("content"@).text_or(""@),
    )
}

fn write_tavily_entry(r: &Json) -> (s: String)
    ensures
        s@ == tavily_entry(r@),
{
    write_entry(
        r.field("title").text_or("(no title)"),
        r.field("url").text_or(""),
        r.field("content").text_or(""),
    )
}

/// The direct answer of Tavily; nothing where there is none.
pub open spec fn tavily_answer(json: JsonView) -> Seq<char> {
    match json.field("answer"@).text() {
        Some(s) => if s.len() > 0 {
            "**Answer:** "@ + s + "\n\n"@
        } else {
            Seq::empty()
        },
        None => Seq::empty(),
    }
}

/// What Tavily found: its direct answer first, then the results.
pub open spec fn tavily_report(json: JsonView) -> Seq<char> {
    let results = json.field("results"@).elements();
    if results.len() == 0 && tavily_answer(json).len() == 0 {
        "No results found."@
    } else {
        tavily_answer(json) + written(results, |r: JsonView| tavily_entry(r))
    }
}

/// Writes out what Tavily found.
pub fn report_tavily(json: &Json) -> (r: String)
    ensures
        r@ == tavily_report(json@),
{
    let mut out = String::new();
    if let Some(s) = json.field("answer").text() {
        if !s.is_empty() {
            out.append("**Answer:** ");
            out.append(s);
            out.append("\n\n");
        }
    }
    assert(out@ =~= tavily_answer(json@));
    let results = elements_of(json.field("results"));
    if results.len() == 0 && out.as_str().is_empty() {
        return "No results found.".to_string();
    }
    let list = write_results(results, write_tavily_entry, Ghost(|r: JsonView| tavily_entry(r)));
    out.append(list.as_str());
    out
}

/// What Tavily found, or why the search failed.
pub open spec fn tavily_result(reply: HttpReplyView) -> WebStepView {
    match reply {
        HttpReplyView::Failed(_) => failed("tavily search request failed"@),
        HttpReplyView::Answered(a) => if !a.success() {
            failed(returned("tavily search"@, a))
        } else {
            match a.json() {
                None => failed("parse tavily response"@),
                Some(json) => gave(tavily_report(json)),
            }
        },
    }
}

pub(crate) fn after_tavily(reply: &HttpReply) -> (r: WebStep)
    ensures
        r@ == tavily_result(reply@),
{
    let a = match reply {
        HttpReply::Failed(_) => {
            return fail("tavily search request failed");
        },
        HttpReply::Answered(a) => a,
    };
    if !a.success() {
        return fail(tell_returned("tavily search", a).as_str());
    }
    match a.json() {
        None => fail("parse tavily response"),
        Some(json) => give(report_tavily(&json)),
    }
}

// ---- Laws --------------------------------------------------------------------------------------

/// The first ten results are written out, one after the other in their order; what follows them is
/// left out.
pub proof fn law_ten_results_are_written(
    list: Seq<JsonView>,
    next: JsonView,
    write: spec_fn(JsonView) -> Seq<char>,
)
    ensures
        written(Seq::empty(), write).len() == 0,
        list.len() < 10 ==> written(list.push(next), write) == written(list, write) + write(next),
        list.len() >= 10 ==> written(list.push(next), write) == written(list, write),
{
    let none = Seq::<JsonView>::empty();
    assert(clipped(none, 10).map_values(write) =~= Seq::<Seq<char>>::empty());
    if list.len() < 10 {
        let before = clipped(list, 10).map_values(write);
        let after = clipped(list.push(next), 10).map_values(write);
        assert(clipped(list, 10) =~= list);
        assert(clipped(list.push(next), 10) =~= list.push(next));
        assert(after =~= before.push(write(next)));
        assert(after.drop_last() =~= before);
    } else {
        assert(clipped(list.push(next), 10) =~= clipped(list, 10));
    }
}

/// A search with Brave asks for the words of the query with the key, for ten results with further
/// snippets, among the news where those are asked for, and as fresh as asked for.
pub proof fn law_brave_is_asked(
    query: Seq<char>,
    api_key: Seq<char>,
    kind: Option<Seq<char>>,
    freshness: Option<Seq<char>>,
)
    ensures
        brave_started(query, api_key, kind, freshness) matches WebStepView::Send(call, state) && {
            &&& call.method is Get
            &&& call.query.len() >= 3
            &&& call.query[0] == ("q"@, query)
            &&& call.query[1] == ("count"@, "10"@)
            &&& call.query[2] == ("extra_snippets"@, "true"@)
            &&& freshness is None ==> call.query.len() == 3
            &&& freshness matches Some(f) ==> call.query.len() == 4 && call.query[3] == (
                "freshness"@,
                f,
            )
            &&& call.headers == seq![
                ("X-Subscription-Token"@, api_key),
                ("Accept"@, "application/json"@),
            ]
            &&& call.bearer is None
            &&& call.body is Empty
            &&& kind == Some("news"@) ==> call.url
                == "https://api.search.brave.com/res/v1/news/search"@ && state == (
            WebStateView::Brave { news: true })
            &&& kind != Some("news"@) ==> call.url
                == "https://api.search.brave.com/res/v1/web/search"@ && state == (
            WebStateView::Brave { news: false })
        },
{
}

/// A result of Brave shows its title, its address and its description, and up to three further
/// snippets; what is missing is left empty, and a missing title is told.
pub proof fn law_brave_results_are_shown(
    r: JsonView,
    title: Seq<char>,
    url: Seq<char>,
    text: Seq<char>,
    a: Seq<char>,
    b: Seq<char>,
    c: Seq<char>,
)
    requires
        r.field("title"@) == JsonView::Text(title) || (!(r.field("title"@) is Text) && title
            == "(no title)"@),
        r.field("url"@) == JsonView::Text(url) || (!(r.field("url"@) is Text) && url == ""@),
        r.field("description"@) == JsonView::Text(text) || (!(r.field("description"@) is Text)
            && text == ""@),
    ensures
        ({
            let head = "- **"@ + title + "** <"@ + url + ">\n  "@ + text + "\n"@;
            let more = r.field("extra_snippets"@).elements();
            let first = "  > "@ + a + "\n"@;
            let second = "  > "@ + b + "\n"@;
            let third = "  > "@ + c + "\n"@;
            &&& more.len() == 0 ==> brave_entry(r) == head
            &&& more.len() == 1 && more[0] == JsonView::Text(a) ==> brave_entry(r) == head + first
            &&& more.len() == 2 && more[0] == JsonView::Text(a) && more[1] == JsonView::Text(b)
                ==> brave_entry(r) == head + first + second
            &&& more.len() >= 3 && more[0] == JsonView::Text(a) && more[1] == JsonView::Text(b)
                && more[2] == JsonView::Text(c) ==> brave_entry(r) == head + first + second + third
            &&& more.len() == 1 && !(more[0] is Text) ==> brave_entry(r) == head
        }),
{
    let head = "- **"@ + title + "** <"@ + url + ">\n  "@ + text + "\n"@;
    let more = r.field("extra_snippets"@).elements();
    let shown = clipped(more, 3).map_values(|s: JsonView| snippet(s));
    let first = "  > "@ + a + "\n"@;
    let second = "  > "@ + b + "\n"@;
    let third = "  > "@ + c + "\n"@;
    reveal_with_fuel(concatenated, 4);
    let empty = Seq::<char>::empty();
    assert(head + empty =~= head);
    if more.len() == 1 {
        assert(shown.drop_last() =~= Seq::empty());
        assert(empty + shown[0] =~= shown[0]);
    }
    if more.len() == 2 {
        assert(shown.drop_last() =~= seq![shown[0]]);
        assert(shown.drop_last().drop_last() =~= Seq::empty());
        assert(empty + shown[0] =~= shown[0]);
        assert(head + (shown[0] + shown[1]) =~= head + shown[0] + shown[1]);
    }
    if more.len() >= 3 {
        assert(shown.len() == 3);
        assert(shown.drop_last() =~= seq![shown[0], shown[1]]);
        assert(shown.drop_last().drop_last() =~= seq![shown[0]]);
        assert(shown.drop_last().drop_last().drop_last() =~= Seq::empty());
        assert(empty + shown[0] =~= shown[0]);
        assert(head + (shown[0] + shown[1] + shown[2]) =~= head + shown[0] + shown[1] + shown[2]);
    }
}

/// The results of Brave are those of its answer: the news at its root, all others under `web`. A
/// search that did not work says why.
pub proof fn law_brave_searches_end(
    news: bool,
    a: crate::http::HttpAnswerView,
    json: JsonView,
    results: Seq<JsonView>,
    words: Seq<char>,
)
    requires
        (if news {
            json.field("results"@)
        } else {
            json.field("web"@).field("results"@)
        }) == JsonView::Array(results),
    ensures
        brave_result(news, HttpReplyView::Failed(words)) == WebStepView::Done(
            Err("brave search request failed"@),
        ),
        !a.success() ==> brave_result(news, HttpReplyView::Answered(a)) == WebStepView::Done(
            Err(returned("brave search"@, a)),
        ),
        a.success() && a.json() is None ==> brave_result(news, HttpReplyView::Answered(a))
            == WebStepView::Done(Err("parse brave response"@)),
        a.success() && a.json() == Some(json) && results.len() > 0 ==> brave_result(
            news,
            HttpReplyView::Answered(a),
        ) == WebStepView::Done(Ok(written(results, |r: JsonView| brave_entry(r)))),
        a.success() && a.json() == Some(json) && results.len() == 0 ==> brave_result(
            news,
            HttpReplyView::Answered(a),
        ) == WebStepView::Done(Ok("No results found."@)),
{
}

/// A search with PipeLLM asks for the words of the query with the key, at the endpoint for its
/// kind; the first domain is asked first, and the second one for the same.
pub proof fn law_pipellm_is_asked(
    query: Seq<char>,
    api_key: Seq<char>,
    path: Seq<char>,
    kind: Option<Seq<char>>,
)
    ensures
        pipellm_path(kind) == (if kind == Some("news"@) {
            "v1/websearch/search-news"@
        } else if kind == Some("deep"@) {
            "v1/websearch/search"@
        } else {
            "v1/websearch/simple-search"@
        }),
        pipellm_asks(query, api_key, path, false) matches WebStepView::Send(call, state) && call.url
            == "https://api.pipellm.ai/"@ + path && call.query == seq![("q"@, query)] && call.bearer
            == Some(api_key) && call.method is Get && call.body is Empty && call.headers.len() == 0
            && state == (WebStateView::Pipellm { query, api_key, path, second: false }),
        pipellm_asks(query, api_key, path, true) matches WebStepView::Send(call, state) && call.url
            == "https://api.pipellm.com/"@ + path && call.query == seq![("q"@, query)]
            && call.bearer == Some(api_key) && call.method is Get && call.body is Empty
            && call.headers.len() == 0 && state == (
        WebStateView::Pipellm { query, api_key, path, second: true }),
{
    reveal_strlit("https://api.pipellm.ai");
    reveal_strlit("https://api.pipellm.com");
    reveal_strlit("/");
    reveal_strlit("https://api.pipellm.ai/");
    reveal_strlit("https://api.pipellm.com/");
    assert("https://api.pipellm.ai"@ + "/"@ =~= "https://api.pipellm.ai/"@);
    assert("https://api.pipellm.com"@ + "/"@ =~= "https://api.pipellm.com/"@);
}

/// A result of PipeLLM shows its title, its link, or else its address, and its snippet, or else its
/// content.
pub proof fn law_pipellm_results_are_shown(
    r: JsonView,
    title: Seq<char>,
    url: Seq<char>,
    text: Seq<char>,
)
    requires
        r.field("title"@) == JsonView::Text(title) || (!(r.field("title"@) is Text) && title
            == "(no title)"@),
        r.field("link"@) == JsonView::Text(url) || (!(r.field("link"@) is Text) && (r.field("url"@)
            == JsonView::Text(url) || (!(r.field("url"@) is Text) && url == ""@))),
        r.field("snippet"@) == JsonView::Text(text) || (!(r.field("snippet"@) is Text) && (r.field(
            "content"@,
        ) == JsonView::Text(text) || (!(r.field("content"@) is Text) && text == ""@))),
    ensures
        pipellm_entry(r) == "- **"@ + title + "** <"@ + url + ">\n  "@ + text + "\n"@,
{
}

/// The results of PipeLLM are those at the root of its answer, or else under `data`. A domain that
/// failed or refused is followed by the second one, and after that the search has failed, in the
/// words of the last trouble.
pub proof fn law_pipellm_searches_end(
    query: Seq<char>,
    api_key: Seq<char>,
    path: Seq<char>,
    second: bool,
    a: crate::http::HttpAnswerView,
    json: JsonView,
    results: Seq<JsonView>,
    words: Seq<char>,
)
    requires
        json.field("organic"@) == JsonView::Array(results) || (!(json.field("organic"@) is Array)
            && json.field("data"@).field("organic"@) == JsonView::Array(results)),
    ensures
        ({
            let after = pipellm_result(query, api_key, path, second, HttpReplyView::Answered(a));
            let told = a.status + " from "@ + (if second {
                "https://api.pipellm.com"@
            } else {
                "https://api.pipellm.ai"@
            }) + ": "@ + if a.text_or_empty().len() <= 300 {
                a.text_or_empty()
            } else {
                a.text_or_empty().take(300)
            };
            &&& !a.success() && !second ==> after == pipellm_asks(query, api_key, path, true)
            &&& !a.success() && second ==> after == WebStepView::Done(
                Err("pipellm search failed: "@ + told),
            )
            &&& a.success() && a.json() is None ==> after == WebStepView::Done(
                Err("parse pipellm response"@),
            )
            &&& a.success() && a.json() == Some(json) && results.len() > 0 ==> after
                == WebStepView::Done(Ok(written(results, |r: JsonView| pipellm_entry(r))))
            &&& a.success() && a.json() == Some(json) && results.len() == 0 ==> after
                == WebStepView::Done(Ok("No results found."@))
        }),
        pipellm_result(query, api_key, path, false, HttpReplyView::Failed(words)) == pipellm_asks(
            query,
            api_key,
            path,
            true,
        ),
        pipellm_result(query, api_key, path, true, HttpReplyView::Failed(words))
            == WebStepView::Done(Err("pipellm search failed: "@ + words)),
{
    crate::text::law_clipping_keeps_the_beginning(a.text_or_empty(), 300);
    assert(clipped(a.text_or_empty(), 300) =~= if a.text_or_empty().len() <= 300 {
        a.text_or_empty()
    } else {
        a.text_or_empty().take(300)
    });
}

/// A freshness is a day, a week, a month or a year by its sign, a number of days where it is one,
/// and a week otherwise.
pub proof fn law_freshness_is_counted_in_days(freshness: Seq<char>)
    ensures
        freshness_days("pd"@) == 1,
        freshness_days("pw"@) == 7,
        freshness_days("pm"@) == 31,
        freshness_days("py"@) == 365,
        parsed_u32(freshness) matches Some(n) ==> freshness_days(freshness) == n,
        parsed_u32(freshness) is None && freshness != "pd"@ && freshness != "pw"@ && freshness
            != "pm"@ && freshness != "py"@ ==> freshness_days(freshness) == 7,
{
    reveal_strlit("pw");
    reveal_strlit("pd");
    reveal_strlit("pm");
    reveal_strlit("py");
    assert("pw"@[1] == 'w');
    assert("pd"@[1] == 'd');
    assert("pm"@[1] == 'm');
    assert("py"@[1] == 'y');
    assert("pd"@[0] == 'p' && "pw"@[0] == 'p' && "pm"@[0] == 'p' && "py"@[0] == 'p');
    crate::numeral::law_numbers_are_digits(freshness);
    if parsed_u32(freshness) is Some && freshness.len() > 0 && freshness[0] == 'p' {
        assert(crate::numeral::is_digit(freshness[0]));
    }
    if parsed_u32(freshness) is Some && freshness.len() == 0 {
        assert(freshness =~= Seq::empty());
    }
}

/// A search with Tavily asks for the words of the query with the key, for ten results and a direct
/// answer; the topic where it is news or finance, the depth and the days where they are given, and
/// nothing else.
pub proof fn law_tavily_is_asked(
    query: Seq<char>,
    api_key: Seq<char>,
    kind: Option<Seq<char>>,
    freshness: Option<Seq<char>>,
    search_depth: Option<Seq<char>>,
)
    ensures
        tavily_started(query, api_key, kind, freshness, search_depth) matches WebStepView::Send(
            call,
            state,
        ) && call.method is Post && call.url == "https://api.tavily.com/search"@ && call.bearer
            == Some(api_key) && call.query.len() == 0 && call.headers.len() == 0 && state is Tavily
            && (call.body matches CallBodyView::Json(body) && {
            &&& body.get("query"@) == Some(JsonView::Text(query))
            &&& body.get("max_results"@) == Some(JsonView::Number(JsonNumberView::Unsigned(10)))
            &&& body.get("include_answer"@) == Some(JsonView::Bool(true))
            &&& kind == Some("news"@) ==> body.get("topic"@) == Some(JsonView::Text("news"@))
            &&& kind == Some("finance"@) ==> body.get("topic"@) == Some(JsonView::Text("finance"@))
            &&& kind != Some("news"@) && kind != Some("finance"@) ==> body.get("topic"@) is None
            &&& search_depth matches Some(d) ==> body.get("search_depth"@) == Some(
                JsonView::Text(d),
            )
            &&& search_depth is None ==> body.get("search_depth"@) is None
            &&& freshness matches Some(f) ==> body.get("days"@) == Some(
                JsonView::Number(JsonNumberView::Unsigned(freshness_days(f) as u64)),
            )
            &&& freshness is None ==> body.get("days"@) is None
        }),
{
    reveal_strlit("max_results");
    reveal_strlit("query");
    reveal_strlit("include_answer");
    reveal_strlit("topic");
    reveal_strlit("search_depth");
    reveal_strlit("days");
    assert("max_results"@.len() == 11);
    assert("query"@.len() == 5);
    assert("include_answer"@.len() == 14);
    assert("topic"@[0] == 't');
    assert("query"@[0] == 'q');
    assert("topic"@.len() == 5);
    assert("search_depth"@.len() == 12);
    assert("days"@.len() == 4);
    let list = tavily_body(query, kind, freshness, search_depth)->Object_0;
    let topic: int = if kind == Some("news"@) || kind == Some("finance"@) {
        1
    } else {
        0
    };
    let depth: int = if search_depth is Some {
        1
    } else {
        0
    };
    crate::json::law_first_member_counts(list, "query"@, 0);
    crate::json::law_first_member_counts(list, "max_results"@, 1);
    crate::json::law_first_member_counts(list, "include_answer"@, 2);
    crate::json::law_first_member_counts(list, "topic"@, 3);
    crate::json::law_first_member_counts(list, "search_depth"@, 3 + topic);
    crate::json::law_first_member_counts(list, "days"@, 3 + topic + depth);
}

/// What Tavily found shows its direct answer first, where there is one, and then the results, each
/// with its title, its address and its content.
pub proof fn law_tavily_results_are_shown(
    json: JsonView,
    results: Seq<JsonView>,
    answer: Seq<char>,
    r: JsonView,
    title: Seq<char>,
    url: Seq<char>,
    text: Seq<char>,
)
    requires
        json.field("results"@) == JsonView::Array(results),
        r.field("title"@) == JsonView::Text(title) || (!(r.field("title"@) is Text) && title
            == "(no title)"@),
        r.field("url"@) == JsonView::Text(url) || (!(r.field("url"@) is Text) && url == ""@),
        r.field("content"@) == JsonView::Text(text) || (!(r.field("content"@) is Text) && text
            == ""@),
    ensures
        tavily_entry(r) == "- **"@ + title + "** <"@ + url + ">\n  "@ + text + "\n"@,
        json.field("answer"@) == JsonView::Text(answer) && answer.len() > 0 ==> tavily_report(json)
            == "**Answer:** "@ + answer + "\n\n"@ + written(results, |r: JsonView| tavily_entry(r)),
        !(json.field("answer"@) is Text) && results.len() > 0 ==> tavily_report(json) == written(
            results,
            |r: JsonView| tavily_entry(r),
        ),
        !(json.field("answer"@) is Text) && results.len() == 0 ==> tavily_report(json)
            == "No results found."@,
{
    let shown = written(results, |r: JsonView| tavily_entry(r));
    assert(Seq::<char>::empty() + shown =~= shown);
}

/// A search with Tavily ends with what was found, or says why it did not work.
pub proof fn law_tavily_searches_end(
    a: crate::http::HttpAnswerView,
    json: JsonView,
    words: Seq<char>,
)
    ensures
        tavily_result(HttpReplyView::Failed(words)) == WebStepView::Done(
            Err("tavily search request failed"@),
        ),
        !a.success() ==> tavily_result(HttpReplyView::Answered(a)) == WebStepView::Done(
            Err(returned("tavily search"@, a)),
        ),
        a.success() && a.json() is None ==> tavily_result(HttpReplyView::Answered(a))
            == WebStepView::Done(Err("parse tavily response"@)),
        a.success() && a.json() == Some(json) ==> tavily_result(HttpReplyView::Answered(a))
            == WebStepView::Done(Ok(tavily_report(json))),
{
}

} // verus!
