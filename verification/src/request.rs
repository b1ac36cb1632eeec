//! Plain HTTP requests, and their answers as text.

use crate::http::{
    header_views, plain_call, put_pair, text_pairs, CallBody, CallBodyView, HttpAnswer,
    HttpAnswerView, HttpCall, HttpCallView, HttpReply, HttpReplyView, Method, Reading,
};
use crate::json::{opt_text, pairs, parse_text, parsed, prettified, prettify, Json, JsonView};
use crate::lines::{join, joined};
use crate::numeral::{decimal, decimal_text};
use crate::text::{cat, lower, lowered, opt_string, same, texts};
use crate::web::{fail, failed, gave, give, WebState, WebStateView, WebStep, WebStepView};
use vstd::prelude::*;
use vstd::string::*;
use vstd::utf8::*;

verus! {

// ---- The request -------------------------------------------------------------------------------

/// The method that a name stands for.
pub open spec fn method_named(name: Seq<char>) -> Option<Method> {
    if name == "GET"@ {
        Some(Method::Get)
    } else if name == "POST"@ {
        Some(Method::Post)
    } else if name == "PUT"@ {
        Some(Method::Put)
    } else if name == "PATCH"@ {
        Some(Method::Patch)
    } else if name == "DELETE"@ {
        Some(Method::Delete)
    } else {
        None
    }
}

fn find_method(name: &str) -> (r: Option<Method>)
    ensures
        r == method_named(name@),
{
    if same(name, "GET") {
        Some(Method::Get)
    } else if same(name, "POST") {
        Some(Method::Post)
    } else if same(name, "PUT") {
        Some(Method::Put)
    } else if same(name, "PATCH") {
        Some(Method::Patch)
    } else if same(name, "DELETE") {
        Some(Method::Delete)
    } else {
        None
    }
}

/// The members of an object whose values are texts, in order.
pub open spec fn text_members(list: Seq<(Seq<char>, JsonView)>) -> Seq<(Seq<char>, Seq<char>)>
    decreases list.len(),
{
    if list.len() == 0 {
        Seq::empty()
    } else {
        let front = text_members(list.drop_last());
        match list.last().1.text() {
            Some(value) => front.push((list.last().0, value)),
            None => front,
        }
    }
}

/// The named texts in an optional object; none where the value is no object.
pub open spec fn named_texts(value: JsonView) -> Seq<(Seq<char>, Seq<char>)> {
    match value {
        JsonView::Object(list) => text_members(list),
        _ => Seq::empty(),
    }
}

fn texts_named(value: &Json) -> (r: Vec<(String, String)>)
    ensures
        text_pairs(r@) == named_texts(value@),
{
    let mut out: Vec<(String, String)> = Vec::new();
    assert(text_pairs(out@) =~= Seq::empty());
    if let Json::Object(list) = value {
        proof {
            crate::json::lemma_object_view(*list);
        }
        let ghost all = pairs(list@);
        let mut i: usize = 0;
        assert(all.take(0).len() == 0);
        while i < list.len()
            invariant
                i <= list@.len(),
                all == pairs(list@),
                text_pairs(out@) == text_members(all.take(i as int)),
            decreases list@.len() - i,
        {
            assert(all.take(i + 1).drop_last() == all.take(i as int));
            assert(all.take(i + 1).last() == (list@[i as int].0@, list@[i as int].1@));
            if let Some(text) = list[i].1.text() {
                put_pair(&mut out, list[i].0.as_str(), text);
            }
            i = i + 1;
        }
        assert(all.take(i as int) == all);
    }
    out
}

/// The request that the arguments describe. A body that is JSON is declared as such.
pub open spec fn request_call(
    method: Method,
    url: Seq<char>,
    headers: JsonView,
    body: Option<Seq<char>>,
    body_is_json: bool,
    query: JsonView,
) -> HttpCallView {
    HttpCallView {
        query: named_texts(query),
        headers: if body is Some && body_is_json {
            named_texts(headers).push(("Content-Type"@, "application/json"@))
        } else {
            named_texts(headers)
        },
        body: match body {
            Some(b) => CallBodyView::Text(b),
            None => CallBodyView::Empty,
        },
        ..plain_call(method, url, Reading::Text)
    }
}

/// The request, or the refusal of an unknown method.
pub open spec fn request_started(
    method: Seq<char>,
    url: Seq<char>,
    headers: JsonView,
    body: Option<Seq<char>>,
    query: JsonView,
) -> WebStepView {
    match method_named(method) {
        Some(m) => WebStepView::Send(
            request_call(
                m,
                url,
                headers,
                body,
                body is Some && parsed(encode_utf8(body->0)) is Some,
                query,
            ),
            WebStateView::Request { method, url },
        ),
        None => failed("unsupported HTTP method: "@ + method),
    }
}

/// Makes the request that the arguments describe; `body_is_json` says whether the body is JSON.
pub fn make_request(
    method: Method,
    url: &str,
    headers: &Json,
    body: Option<&str>,
    body_is_json: bool,
    query_params: &Json,
) -> (r: HttpCall)
    ensures
        r@ == request_call(
            method,
            url@,
            headers@,
            opt_text(body),
            body_is_json,
            query_params@,
        ),
{
    let mut call = HttpCall::new(method, url, Reading::Text);
    call.query = texts_named(query_params);
    let mut list = texts_named(headers);
    if let Some(b) = body {
        if body_is_json {
            put_pair(&mut list, "Content-Type", "application/json");
        }
        call.body = CallBody::Text(b.to_string());
    }
    call.headers = list;
    assert(call@ =~= request_call(
        method,
        url@,
        headers@,
        opt_text(body),
        body_is_json,
        query_params@,
    ));
    call
}

/// Starts a plain HTTP request.
pub fn exec_http_request(
    method: &str,
    url: &str,
    headers: &Json,
    body: Option<&str>,
    query_params: &Json,
) -> (r: WebStep)
    ensures
        r@ == request_started(method@, url@, headers@, opt_text(body), query_params@),
{
    let m = match find_method(method) {
        Some(m) => m,
        None => {
            return fail(cat("unsupported HTTP method: ", method).as_str());
        },
    };
    let body_is_json = match body {
        Some(b) => parse_text(b).is_some(),
        None => false,
    };
    WebStep::Send(
        make_request(m, url, headers, body, body_is_json, query_params),
        WebState::Request { method: method.to_string(), url: url.to_string() },
    )
}

// ---- The answer --------------------------------------------------------------------------------

/// A header worth telling.
pub open spec fn told(name: Seq<char>) -> bool {
    let l = lowered(name);
    l == "content-type"@ || l == "content-length"@ || l == "x-request-id"@ || l
        == "x-ratelimit-remaining"@
}

/// The headers worth telling, one line each, in order.
pub open spec fn header_lines(list: Seq<(Seq<char>, Option<Seq<char>>)>) -> Seq<Seq<char>>
    decreases list.len(),
{
    if list.len() == 0 {
        Seq::empty()
    } else {
        let front = header_lines(list.drop_last());
        if told(list.last().0) {
            front.push(
                list.last().0 + ": "@ + match list.last().1 {
                    Some(value) => value,
                    None => "?"@,
                },
            )
        } else {
            front
        }
    }
}

fn write_headers(list: &[(String, Option<String>)]) -> (r: Vec<String>)
    ensures
        texts(r@) == header_lines(header_views(list@)),
{
    let mut out: Vec<String> = Vec::new();
    let ghost all = header_views(list@);
    let mut i: usize = 0;
    assert(all.take(0).len() == 0);
    assert(texts(out@) =~= Seq::empty());
    while i < list.len()
        invariant
            i <= list@.len(),
            all == header_views(list@),
            texts(out@) == header_lines(all.take(i as int)),
        decreases list@.len() - i,
    {
        assert(all.take(i + 1).drop_last() == all.take(i as int));
        assert(all.take(i + 1).last() == (list@[i as int].0@, opt_string(list@[i as int].1)));
        let name = list[i].0.as_str();
        let l = lower(name);
        if same(l.as_str(), "content-type") || same(l.as_str(), "content-length") || same(
            l.as_str(),
            "x-request-id",
        ) || same(l.as_str(), "x-ratelimit-remaining") {
            let mut line = cat(name, ": ");
            match &list[i].1 {
                Some(value) => line.append(value.as_str()),
                None => line.append("?"),
            }
            let ghost before = texts(out@);
            out.push(line);
            assert(texts(out@) == before.push(line@));
        }
        i = i + 1;
    }
    assert(all.take(i as int) == all);
    out
}

/// An answer as text: the code, the headers worth telling, an empty line, and the body.
pub open spec fn answer_text(a: HttpAnswerView, body: Seq<char>) -> Seq<char> {
    let lines = header_lines(a.headers);
    "HTTP "@ + decimal(a.code as nat) + "\n"@ + (if lines.len() == 0 {
        Seq::empty()
    } else {
        joined(lines, "\n"@) + "\n"@
    }) + "\n"@ + body
}

/// Writes out an answer with the given body.
pub fn write_answer(a: &HttpAnswer, body: &str) -> (r: String)
    ensures
        r@ == answer_text(a@, body@),
{
    let mut out = cat("HTTP ", decimal_text(a.code as u64).as_str());
    out.append("\n");
    let lines = write_headers(a.headers.as_slice());
    if lines.len() > 0 {
        let head = join(lines.as_slice(), "\n");
        let part = cat(head.as_str(), "\n");
        out.append(part.as_str());
    } else {
        assert(texts(lines@).len() == 0);
        assert(out@ + Seq::<char>::empty() == out@);
    }
    out.append("\n");
    out.append(body);
    out
}

/// The answer to a request as text, its body indented where it is JSON; or why there is none.
pub open spec fn request_result(
    method: Seq<char>,
    url: Seq<char>,
    reply: HttpReplyView,
) -> WebStepView {
    match reply {
        HttpReplyView::Failed(_) => failed(
            "http_request "@ + method + " "@ + url + " failed"@,
        ),
        HttpReplyView::Answered(a) => match a.text() {
            Some(body) => gave(answer_text(a, prettified(body))),
            None => failed("read http_request response body"@),
        },
    }
}

pub(crate) fn after_request(method: &str, url: &str, reply: &HttpReply) -> (r: WebStep)
    ensures
        r@ == request_result(method@, url@, reply@),
{
    match reply {
        HttpReply::Failed(_) => {
            let mut words = cat("http_request ", method);
            words.append(" ");
            words.append(url);
            words.append(" failed");
            fail(words.as_str())
        },
        HttpReply::Answered(a) => match a.text() {
            Some(body) => give(write_answer(a, prettify(body).as_str())),
            None => fail("read http_request response body"),
        },
    }
}

// ---- Laws --------------------------------------------------------------------------------------

/// The five methods go by their names in capitals, and no other name is one.
pub proof fn law_methods_go_by_their_names(name: Seq<char>)
    ensures
        method_named("GET"@) == Some(Method::Get),
        method_named("POST"@) == Some(Method::Post),
        method_named("PUT"@) == Some(Method::Put),
        method_named("PATCH"@) == Some(Method::Patch),
        method_named("DELETE"@) == Some(Method::Delete),
        method_named(name) is Some ==> name == "GET"@ || name == "POST"@ || name == "PUT"@ || name
            == "PATCH"@ || name == "DELETE"@,
{
    reveal_strlit("POST");
    reveal_strlit("GET");
    reveal_strlit("PUT");
    reveal_strlit("PATCH");
    reveal_strlit("DELETE");
    assert("POST"@.len() == 4);
    assert("GET"@.len() == 3);
    assert("PUT"@[0] == 'P');
    assert("GET"@[0] == 'G');
    assert("PUT"@.len() == 3);
    assert("PATCH"@.len() == 5);
    assert("DELETE"@.len() == 6);
}

/// A request carries what was given and nothing else: the method, the address, the parameters, the
/// headers and the body, word for word; and a body that is JSON is declared as such behind the
/// other headers.
pub proof fn law_requests_carry_what_was_given(
    method: Seq<char>,
    m: Method,
    url: Seq<char>,
    headers: JsonView,
    body: Option<Seq<char>>,
    query: JsonView,
)
    requires
        method_named(method) == Some(m),
    ensures
        request_started(method, url, headers, body, query) matches WebStepView::Send(call, state)
            && call.method == m && call.url == url && call.query == named_texts(query)
            && call.bearer is None && state == (WebStateView::Request { method, url })
            && (body matches Some(b) ==> call.body == CallBodyView::Text(b)) && (body is None
            ==> call.body is Empty) && (if body is Some && parsed(encode_utf8(body->0)) is Some {
            call.headers == named_texts(headers) + seq![("Content-Type"@, "application/json"@)]
        } else {
            call.headers == named_texts(headers)
        }),
{
    assert(named_texts(headers).push(("Content-Type"@, "application/json"@)) =~= named_texts(headers)
        + seq![("Content-Type"@, "application/json"@)]);
}

proof fn lemma_members_join(a: Seq<(Seq<char>, JsonView)>, b: Seq<(Seq<char>, JsonView)>)
    ensures
        text_members(a + b) == text_members(a) + text_members(b),
    decreases b.len(),
{
    if b.len() == 0 {
        assert(a + b =~= a);
        assert(text_members(a) + text_members(b) =~= text_members(a));
    } else {
        assert((a + b).drop_last() =~= a + b.drop_last());
        lemma_members_join(a, b.drop_last());
        assert(text_members(a + b) =~= text_members(a) + text_members(b));
    }
}

/// The named texts of an object are all its members with a text, in their order; what is no object
/// has none.
pub proof fn law_named_texts_are_the_members(
    a: Seq<(Seq<char>, JsonView)>,
    name: Seq<char>,
    value: JsonView,
    b: Seq<(Seq<char>, JsonView)>,
    text: Seq<char>,
)
    ensures
        value == JsonView::Text(text) ==> named_texts(
            JsonView::Object(a + seq![(name, value)] + b),
        ) == named_texts(JsonView::Object(a)) + seq![(name, text)] + named_texts(
            JsonView::Object(b),
        ),
        !(value is Text) ==> named_texts(JsonView::Object(a + seq![(name, value)] + b))
            == named_texts(JsonView::Object(a)) + named_texts(JsonView::Object(b)),
        named_texts(JsonView::Object(Seq::empty())).len() == 0,
        !(value is Object) ==> named_texts(value).len() == 0,
{
    let one = seq![(name, value)];
    assert(one.drop_last() =~= Seq::empty());
    assert(text_members(one.drop_last()) =~= Seq::empty());
    lemma_members_join(a, one);
    lemma_members_join(a + one, b);
    if value == JsonView::Text(text) {
        assert(text_members(one) =~= seq![(name, text)]);
    } else if !(value is Text) {
        assert(text_members(one) =~= Seq::empty());
        assert(text_members(a) + text_members(one) =~= text_members(a));
    }
}

proof fn lemma_headers_join(
    a: Seq<(Seq<char>, Option<Seq<char>>)>,
    b: Seq<(Seq<char>, Option<Seq<char>>)>,
)
    ensures
        header_lines(a + b) == header_lines(a) + header_lines(b),
    decreases b.len(),
{
    if b.len() == 0 {
        assert(a + b =~= a);
        assert(header_lines(a) + header_lines(b) =~= header_lines(a));
    } else {
        assert((a + b).drop_last() =~= a + b.drop_last());
        lemma_headers_join(a, b.drop_last());
        assert(header_lines(a + b) =~= header_lines(a) + header_lines(b));
    }
}

/// Four headers are told, whatever the case of their names, each on a line with its value, in their
/// order; all others are left out. A value that is no text shows as a question mark.
pub proof fn law_headers_are_told(
    a: Seq<(Seq<char>, Option<Seq<char>>)>,
    name: Seq<char>,
    value: Seq<char>,
    b: Seq<(Seq<char>, Option<Seq<char>>)>,
)
    ensures
        ({
            let told = lowered(name) == "content-type"@ || lowered(name) == "content-length"@
                || lowered(name) == "x-request-id"@ || lowered(name) == "x-ratelimit-remaining"@;
            &&& told ==> header_lines(a + seq![(name, Some(value))] + b) == header_lines(a) + seq![
                name + ": "@ + value,
            ] + header_lines(b)
            &&& told ==> header_lines(a + seq![(name, None)] + b) == header_lines(a) + seq![
                name + ": "@ + "?"@,
            ] + header_lines(b)
            &&& !told ==> header_lines(a + seq![(name, Some(value))] + b) == header_lines(a)
                + header_lines(b)
        }),
        header_lines(Seq::empty()).len() == 0,
{
    let one = seq![(name, Some(value))];
    let unread = seq![(name, None::<Seq<char>>)];
    assert(one.drop_last() =~= Seq::empty());
    assert(unread.drop_last() =~= Seq::empty());
    assert(header_lines(one.drop_last()) =~= Seq::<Seq<char>>::empty());
    lemma_headers_join(a, one);
    lemma_headers_join(a + one, b);
    lemma_headers_join(a, unread);
    lemma_headers_join(a + unread, b);
    if told(name) {
        assert(header_lines(one) =~= seq![name + ": "@ + value]);
        assert(header_lines(unread) =~= seq![name + ": "@ + "?"@]);
    } else {
        assert(header_lines(one) =~= Seq::<Seq<char>>::empty());
        assert(header_lines(a) + header_lines(one) =~= header_lines(a));
    }
}

/// An answer is told whatever its status: the code, the headers, an empty line, and the whole body,
/// indented where it is JSON. Where there is none, the words say what was asked for.
pub proof fn law_answers_are_told_in_full(
    method: Seq<char>,
    url: Seq<char>,
    a: HttpAnswerView,
    body: Seq<char>,
)
    ensures
        a.text() == Some(body) && header_lines(a.headers).len() == 0 ==> request_result(
            method,
            url,
            HttpReplyView::Answered(a),
        ) == WebStepView::Done(
            Ok("HTTP "@ + decimal(a.code as nat) + "\n"@ + "\n"@ + prettified(body)),
        ),
        a.text() == Some(body) && header_lines(a.headers).len() > 0 ==> request_result(
            method,
            url,
            HttpReplyView::Answered(a),
        ) == WebStepView::Done(
            Ok(
                "HTTP "@ + decimal(a.code as nat) + "\n"@ + joined(
                    header_lines(a.headers),
                    "\n"@,
                ) + "\n"@ + "\n"@ + prettified(body),
            ),
        ),
        a.text() is None ==> request_result(method, url, HttpReplyView::Answered(a))
            == WebStepView::Done(Err("read http_request response body"@)),
        request_result(method, url, HttpReplyView::Failed(body)) == WebStepView::Done(
            Err("http_request "@ + method + " "@ + url + " failed"@),
        ),
{
    let lines = joined(header_lines(a.headers), "\n"@);
    let head = "HTTP "@ + decimal(a.code as nat) + "\n"@;
    assert(head + Seq::<char>::empty() =~= head);
    assert(head + (lines + "\n"@) =~= head + lines + "\n"@);
}

} // verus!
