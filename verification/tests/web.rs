use kaku_ai::course::resume;
use kaku_ai::http::{CallBody, HttpAnswer, HttpCall, HttpReply, Method, Reading, ReplyBody};
use kaku_ai::json::{parse_text, Json};
use kaku_ai::reader::exec_read_url;
use kaku_ai::request::exec_http_request;
use kaku_ai::search::{search_brave, search_pipellm, search_tavily};
use kaku_ai::web::{fetch_markdown_default, WebState, WebStep};

fn json(text: &str) -> Json {
    parse_text(text).expect("valid JSON")
}

fn answer(code: u16, status: &str, body: ReplyBody) -> HttpReply {
    HttpReply::Answered(HttpAnswer { code, status: status.to_string(), headers: vec![], body })
}

fn text(body: &str) -> HttpReply {
    answer(200, "200 OK", ReplyBody::Text(body.to_string()))
}

fn bytes(body: &str) -> HttpReply {
    answer(200, "200 OK", ReplyBody::Bytes(body.as_bytes().to_vec()))
}

fn refusal() -> HttpReply {
    answer(503, "503 Service Unavailable", ReplyBody::Text("b".repeat(400)))
}

fn lost() -> HttpReply {
    HttpReply::Failed("connection reset".to_string())
}

fn sent(step: WebStep) -> (HttpCall, WebState) {
    match step {
        WebStep::Send(call, state) => (call, state),
        WebStep::Done(r) => panic!("ended with {:?}", r),
    }
}

fn next(step: WebStep, reply: HttpReply) -> WebStep {
    let (_, state) = sent(step);
    resume(&state, &reply)
}

fn done(step: WebStep) -> Result<String, String> {
    match step {
        WebStep::Done(Ok(t)) => Ok(t),
        WebStep::Done(Err(e)) => Err(e.message),
        WebStep::Send(call, _) => panic!("sends {:?}", call),
    }
}

fn pair(name: &str, value: &str) -> (String, String) {
    (name.to_string(), value.to_string())
}

// ---- Fetching ----------------------------------------------------------------------------------

#[test]
fn pages_come_from_the_first_converter_that_has_them() {
    let (call, _) = sent(fetch_markdown_default("http://a"));
    assert_eq!(call, HttpCall::new(Method::Get, "https://defuddle.md/http://a", Reading::Text));
    assert_eq!(done(next(fetch_markdown_default("http://a"), text("# A"))), Ok("# A".to_string()));
    let no_page = [
        lost(),
        refusal(),
        text("  \n"),
        answer(200, "200 OK", ReplyBody::Unread),
    ];
    for reply in no_page {
        let (call, state) = sent(next(fetch_markdown_default("http://a"), reply));
        assert_eq!(call.url, "https://r.jina.ai/http://a");
        assert_eq!(state, WebState::FetchFallback);
    }
    let second = |reply: HttpReply| {
        done(next(next(fetch_markdown_default("http://a"), lost()), reply))
    };
    assert_eq!(second(text("")), Ok(String::new()));
    assert_eq!(second(lost()), Err("both defuddle.md and r.jina.ai unreachable".to_string()));
    assert_eq!(
        second(refusal()),
        Err("fetch failed: defuddle.md and r.jina.ai both returned non-2xx (last: 503 Service \
             Unavailable)"
            .to_string())
    );
    assert_eq!(
        second(answer(200, "200 OK", ReplyBody::Unread)),
        Err("read fetch response body".to_string())
    );
}

// ---- Searching ---------------------------------------------------------------------------------

#[test]
fn brave_searches_the_web_and_the_news() {
    let (call, state) = sent(search_brave("q", "k", None, Some("pw")));
    assert_eq!(call.url, "https://api.search.brave.com/res/v1/web/search");
    assert_eq!(
        call.query,
        vec![
            pair("q", "q"),
            pair("count", "10"),
            pair("extra_snippets", "true"),
            pair("freshness", "pw"),
        ]
    );
    assert_eq!(
        call.headers,
        vec![pair("X-Subscription-Token", "k"), pair("Accept", "application/json")]
    );
    let found = r#"{"web": {"results": [
        {"title": "T", "url": "U", "description": "D", "extra_snippets": ["1", 2, "3", "4"]},
        {}
    ]}}"#;
    assert_eq!(
        done(resume(&state, &bytes(found))),
        Ok("- **T** <U>\n  D\n  > 1\n  > 3\n- **(no title)** <>\n  \n".to_string())
    );
    let (call, state) = sent(search_brave("q", "k", Some("news"), None));
    assert_eq!(call.url, "https://api.search.brave.com/res/v1/news/search");
    assert_eq!(call.query.len(), 3);
    let news = r#"{"results": [{"title": "N"}]}"#;
    assert_eq!(done(resume(&state, &bytes(news))), Ok("- **N** <>\n  \n".to_string()));
    assert_eq!(done(resume(&state, &bytes(found))), Ok("No results found.".to_string()));
    assert_eq!(
        done(resume(&state, &refusal())),
        Err(format!("brave search returned 503 Service Unavailable: {}", "b".repeat(300)))
    );
    assert_eq!(done(resume(&state, &lost())), Err("brave search request failed".to_string()));
    assert_eq!(done(resume(&state, &bytes("x"))), Err("parse brave response".to_string()));
}

#[test]
fn at_most_ten_results_are_told() {
    let many: Vec<String> = (0..12).map(|i| format!("{{\"title\": \"t{}\"}}", i)).collect();
    let body = format!("{{\"results\": [{}]}}", many.join(","));
    let told = done(next(search_brave("q", "k", Some("news"), None), bytes(&body))).unwrap();
    assert!(told.contains("t9") && !told.contains("t10"));
}

#[test]
fn pipellm_tries_two_domains() {
    for (kind, path) in [
        (None, "simple-search"),
        (Some("web"), "simple-search"),
        (Some("news"), "search-news"),
        (Some("deep"), "search"),
    ] {
        let (call, _) = sent(search_pipellm("q", "k", kind));
        assert_eq!(call.url, format!("https://api.pipellm.ai/v1/websearch/{}", path));
        assert_eq!(call.query, vec![pair("q", "q")]);
        assert_eq!(call.bearer, Some("k".to_string()));
    }
    let start = || search_pipellm("q", "k", Some("deep"));
    let (call, _) = sent(next(start(), lost()));
    assert_eq!(call.url, "https://api.pipellm.com/v1/websearch/search");
    assert_eq!(call.bearer, Some("k".to_string()));
    assert_eq!(
        done(next(next(start(), refusal()), lost())),
        Err("pipellm search failed: connection reset".to_string())
    );
    assert_eq!(
        done(next(next(start(), lost()), refusal())),
        Err(format!(
            "pipellm search failed: 503 Service Unavailable from https://api.pipellm.com: {}",
            "b".repeat(300)
        ))
    );
    let found = r#"{"organic": [
        {"title": "T", "link": "L", "url": "U", "snippet": "S"},
        {"url": "U", "content": "C"}
    ]}"#;
    assert_eq!(
        done(next(start(), bytes(found))),
        Ok("- **T** <L>\n  S\n- **(no title)** <U>\n  C\n".to_string())
    );
    let wrapped = r#"{"organic": 1, "data": {"organic": [{"title": "W"}]}}"#;
    assert_eq!(
        done(next(next(start(), lost()), bytes(wrapped))),
        Ok("- **W** <>\n  \n".to_string())
    );
    assert_eq!(done(next(start(), bytes("{}"))), Ok("No results found.".to_string()));
    assert_eq!(done(next(start(), bytes("x"))), Err("parse pipellm response".to_string()));
}

#[test]
fn tavily_answers_and_finds() {
    let body = |step: WebStep| match sent(step).0.body {
        CallBody::Json(j) => j,
        other => panic!("{:?}", other),
    };
    let (call, _) = sent(search_tavily("q", "k", None, None, None));
    assert_eq!(call.method, Method::Post);
    assert_eq!(call.bearer, Some("k".to_string()));
    let plain = body(search_tavily("q", "k", Some("web"), None, None));
    assert_eq!(plain.field("query").text(), Some("q"));
    assert_eq!(plain.field("max_results").unsigned(), Some(10));
    assert_eq!(plain.field("include_answer").flag(), Some(true));
    assert!(plain.get("topic").is_none() && plain.get("days").is_none());
    let full = body(search_tavily("q", "k", Some("finance"), Some("pm"), Some("advanced")));
    assert_eq!(full.field("topic").text(), Some("finance"));
    assert_eq!(full.field("search_depth").text(), Some("advanced"));
    for (freshness, days) in [
        ("pd", 1),
        ("pw", 7),
        ("pm", 31),
        ("py", 365),
        ("12", 12),
        ("+3", 3),
        ("4294967295", 4294967295),
        ("4294967296", 7),
        ("-1", 7),
        ("", 7),
        ("x", 7),
    ] {
        let b = body(search_tavily("q", "k", None, Some(freshness), None));
        assert_eq!(b.field("days").unsigned(), Some(days), "{}", freshness);
    }
    let result = |reply: HttpReply| done(next(search_tavily("q", "k", None, None, None), reply));
    let found = r#"{"answer": "A", "results": [{"title": "T", "url": "U", "content": "C"}]}"#;
    assert_eq!(result(bytes(found)), Ok("**Answer:** A\n\n- **T** <U>\n  C\n".to_string()));
    assert_eq!(result(bytes(r#"{"answer": "A"}"#)), Ok("**Answer:** A\n\n".to_string()));
    assert_eq!(result(bytes(r#"{"answer": ""}"#)), Ok("No results found.".to_string()));
    assert_eq!(result(lost()), Err("tavily search request failed".to_string()));
    assert_eq!(
        result(refusal()),
        Err(format!("tavily search returned 503 Service Unavailable: {}", "b".repeat(300)))
    );
    assert_eq!(result(bytes("x")), Err("parse tavily response".to_string()));
}

// ---- Reading -----------------------------------------------------------------------------------

#[test]
fn pages_are_read_by_the_provider() {
    let start = || exec_read_url("http://a", "pipellm", "k");
    let (call, _) = sent(start());
    assert_eq!(call.url, "https://api.pipellm.ai/v1/websearch/reader");
    assert_eq!(call.query, vec![pair("url", "http://a")]);
    for (body, page) in [
        (r#"{"content": "C", "text": "T"}"#, "C"),
        (r#"{"content": 1, "text": "T"}"#, "T"),
        (r#""plain""#, "plain"),
        ("{}", "Page returned empty content."),
        (r#"{"content": " "}"#, "Page returned empty content."),
    ] {
        assert_eq!(done(next(start(), bytes(body))), Ok(page.to_string()));
    }
    assert_eq!(done(next(start(), bytes("x"))), Err("parse pipellm reader response".to_string()));
    let (call, _) = sent(next(start(), refusal()));
    assert_eq!(call.url, "https://api.pipellm.com/v1/websearch/reader");
    let (call, _) = sent(next(next(start(), refusal()), lost()));
    assert_eq!(call.url, "https://defuddle.md/http://a");

    let start = || exec_read_url("http://a", "tavily", "k");
    let (call, _) = sent(start());
    assert_eq!(call.url, "https://api.tavily.com/extract");
    assert_eq!(call.bearer, Some("k".to_string()));
    match call.body {
        CallBody::Json(j) => assert_eq!(j.field("urls").first().text(), Some("http://a")),
        other => panic!("{:?}", other),
    }
    let raw = r#"{"results": [{"raw_content": "R", "content": "C"}]}"#;
    assert_eq!(done(next(start(), bytes(raw))), Ok("R".to_string()));
    let content = r#"{"results": [{"content": "C"}]}"#;
    assert_eq!(done(next(start(), bytes(content))), Ok("C".to_string()));
    for reply in [lost(), refusal(), bytes("{}"), bytes(r#"{"results": [{"raw_content": " "}]}"#)] {
        let (call, _) = sent(next(start(), reply));
        assert_eq!(call.url, "https://defuddle.md/http://a");
    }
    assert_eq!(done(next(start(), bytes("x"))), Err("parse tavily extract response".to_string()));

    let (call, _) = sent(exec_read_url("http://a", "brave", "k"));
    assert_eq!(call.url, "https://defuddle.md/http://a");
}

#[test]
fn the_longest_course_takes_four_requests() {
    let mut step = exec_read_url("http://a", "pipellm", "k");
    let mut requests = 0;
    while let WebStep::Send(_, state) = step {
        requests += 1;
        step = resume(&state, &lost());
    }
    assert_eq!(requests, 4);
    assert_eq!(done(step), Err("both defuddle.md and r.jina.ai unreachable".to_string()));
}

// ---- Requests ----------------------------------------------------------------------------------

#[test]
fn requests_carry_texts_only() {
    let headers = json(r#"{"X-A": "1", "X-B": 2}"#);
    let query = json(r#"{"a": "b", "c": null, "d": "e"}"#);
    let (call, state) = sent(exec_http_request("POST", "http://a", &headers, Some("[1]"), &query));
    assert_eq!(call.method, Method::Post);
    assert_eq!(call.query, vec![pair("a", "b"), pair("d", "e")]);
    assert_eq!(call.headers, vec![pair("X-A", "1"), pair("Content-Type", "application/json")]);
    assert_eq!(call.body, CallBody::Text("[1]".to_string()));
    assert_eq!(state, WebState::Request { method: "POST".to_string(), url: "http://a".to_string() });
    let (call, _) = sent(exec_http_request("PUT", "http://a", &Json::Null, Some("[1"), &Json::Null));
    assert!(call.headers.is_empty() && call.query.is_empty());
    assert_eq!(call.body, CallBody::Text("[1".to_string()));
    let (call, _) = sent(exec_http_request("PATCH", "http://a", &Json::Null, None, &Json::Null));
    assert_eq!(call.body, CallBody::Empty);
    assert_eq!(call.method, Method::Patch);
    for method in ["get", "HEAD", "", "OPTIONS"] {
        let step = exec_http_request(method, "http://a", &Json::Null, None, &Json::Null);
        assert_eq!(done(step), Err(format!("unsupported HTTP method: {}", method)));
    }
}

#[test]
fn answers_are_written_out() {
    let state = WebState::Request { method: "GET".to_string(), url: "http://a".to_string() };
    let reply = |headers: Vec<(String, Option<String>)>, body: ReplyBody| {
        HttpReply::Answered(HttpAnswer {
            code: 404,
            status: "404 Not Found".to_string(),
            headers,
            body,
        })
    };
    let headers = vec![
        ("content-type".to_string(), Some("text/plain".to_string())),
        ("server".to_string(), Some("x".to_string())),
        ("X-Request-Id".to_string(), None),
    ];
    let body = ReplyBody::Text("{\"b\": [1], \"a\": 1.50}".to_string());
    assert_eq!(
        done(resume(&state, &reply(headers, body))),
        Ok("HTTP 404\ncontent-type: text/plain\nX-Request-Id: ?\n\n{\n  \"a\": 1.5,\n  \"b\": [\n    \
            1\n  ]\n}"
            .to_string())
    );
    let body = ReplyBody::Text("not {json".to_string());
    assert_eq!(
        done(resume(&state, &reply(vec![], body))),
        Ok("HTTP 404\n\nnot {json".to_string())
    );
    assert_eq!(
        done(resume(&state, &reply(vec![], ReplyBody::Unread))),
        Err("read http_request response body".to_string())
    );
    assert_eq!(
        done(resume(&state, &lost())),
        Err("http_request GET http://a failed".to_string())
    );
}
