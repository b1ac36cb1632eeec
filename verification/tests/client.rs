use kaku_ai::client::{check_chat_reply, completion_text, models_of_reply, AiClient, ChatStream};
use kaku_ai::config::{
    assistant_toml_path, AssistantConfig, ConfigError, Setting, DEFAULT_BASE_URL, DEFAULT_MODEL,
};
use kaku_ai::http::{CallBody, HttpAnswer, HttpReply, Method, Reading, ReplyBody};
use kaku_ai::json::{parse_text, Json};
use kaku_ai::messages::{ApiMessage, ToolCall};
use kaku_ai::models::{chat_models, is_chat_model_id};
use kaku_ai::toast::{show_notif, ToastNotification};

fn json(text: &str) -> Json {
    parse_text(text).expect("valid JSON")
}

fn load(raw: &str) -> AssistantConfig {
    AssistantConfig::load(raw, Some("/home/u")).expect("loads")
}

fn answer(code: u16, status: &str, body: ReplyBody) -> HttpReply {
    HttpReply::Answered(HttpAnswer { code, status: status.to_string(), headers: vec![], body })
}

fn bytes(text: &str) -> ReplyBody {
    ReplyBody::Bytes(text.as_bytes().to_vec())
}

// ---- Configuration -----------------------------------------------------------------------------

#[test]
fn defaults_fill_a_short_configuration() {
    let config = load("api_key = \"k\"");
    assert_eq!(
        config,
        AssistantConfig {
            api_key: "k".to_string(),
            chat_model: DEFAULT_MODEL.to_string(),
            chat_model_choices: vec![],
            base_url: DEFAULT_BASE_URL.to_string(),
            chat_tools_enabled: true,
            web_search_provider: None,
            web_search_api_key: None,
            web_fetch_script: None,
            memory_curator_model: None,
        }
    );
    assert!(!config.web_search_ready());
}

#[test]
fn a_full_configuration_is_read() {
    let config = load(
        r#"
        api_key = "k"
        model = "m"
        chat_model_choices = ["a", 1, "b"]
        base_url = "https://x.y/v1//"
        chat_tools_enabled = false
        web_search_provider = "tavily"
        web_search_api_key = "s"
        web_fetch_script = "~/fetch.sh"
        memory_curator_model = "c"
        [other]
        api_key = "wrong"
        "#,
    );
    assert_eq!(
        config,
        AssistantConfig {
            api_key: "k".to_string(),
            chat_model: "m".to_string(),
            chat_model_choices: vec!["a".to_string(), "b".to_string()],
            base_url: "https://x.y/v1".to_string(),
            chat_tools_enabled: false,
            web_search_provider: Some("tavily".to_string()),
            web_search_api_key: Some("s".to_string()),
            web_fetch_script: Some("/home/u/fetch.sh".to_string()),
            memory_curator_model: Some("c".to_string()),
        }
    );
    assert!(config.web_search_ready());
    assert_eq!(load("api_key = \"k\"\nmodel = \"m\"\nchat_model = \"c\"").chat_model, "c");
}

#[test]
fn useless_settings_are_left_out() {
    let config = load(
        "api_key = \"\"\nweb_search_provider = \"google\"\nweb_search_api_key = \"\"\n\
         web_fetch_script = \"\"\nmemory_curator_model = \"\"\nchat_model = 5\nbase_url = 1.5\n\
         chat_tools_enabled = \"no\"",
    );
    assert_eq!(config.api_key, "");
    assert_eq!(config.web_search_provider, None);
    assert_eq!(config.web_search_api_key, None);
    assert_eq!(config.web_fetch_script, None);
    assert_eq!(config.memory_curator_model, None);
    assert_eq!(config.chat_model, DEFAULT_MODEL);
    assert_eq!(config.base_url, DEFAULT_BASE_URL);
    assert!(config.chat_tools_enabled);
}

#[test]
fn configuration_errors_say_what_is_wrong() {
    assert_eq!(AssistantConfig::load("api_key", None), Err(ConfigError::InvalidToml));
    assert_eq!(AssistantConfig::load("", None), Err(ConfigError::MissingApiKey));
    assert_eq!(AssistantConfig::load("api_key = 1", None), Err(ConfigError::MissingApiKey));
    let text = |e: ConfigError| e.message("/c/assistant.toml");
    assert_eq!(text(ConfigError::InvalidToml), "Invalid assistant.toml");
    assert_eq!(text(ConfigError::Unreadable), "Cannot read /c/assistant.toml");
    assert_eq!(text(ConfigError::InvalidPath), "invalid user config path");
    assert_eq!(
        text(ConfigError::MissingApiKey),
        "api_key not set in /c/assistant.toml. Run `kaku ai` to configure."
    );
    assert_eq!(assistant_toml_path(Some("/c")), Ok("/c/assistant.toml".to_string()));
    assert_eq!(assistant_toml_path(None), Err(ConfigError::InvalidPath));
}

#[test]
fn settings_can_be_given_directly() {
    let settings = vec![
        ("api_key".to_string(), Setting::Text("k".to_string())),
        ("chat_tools_enabled".to_string(), Setting::Flag(false)),
        (
            "chat_model_choices".to_string(),
            Setting::List(vec![Some("a".to_string()), None, Some("b".to_string())]),
        ),
        ("base_url".to_string(), Setting::Other),
    ];
    let config = AssistantConfig::from_settings(&settings, None).unwrap();
    assert!(!config.chat_tools_enabled);
    assert_eq!(config.chat_model_choices, vec!["a".to_string(), "b".to_string()]);
    assert_eq!(config.base_url, DEFAULT_BASE_URL);
}

// ---- Requests ----------------------------------------------------------------------------------

#[test]
fn chat_steps_are_streaming_posts() {
    let client = AiClient::new(load("api_key = \"k\"\nbase_url = \"https://x/\""));
    assert!(client.tools_enabled());
    assert_eq!(client.config().api_key, "k");
    let messages = [ApiMessage::system("s"), ApiMessage::user("u")];
    let tools = [json("{\"type\": \"function\"}")];
    let call = client.chat_step("m", &messages, &tools);
    assert_eq!(call.method, Method::Post);
    assert_eq!(call.url, "https://x/chat/completions");
    assert_eq!(call.reading, Reading::Lines);
    assert!(call.headers.contains(&("Authorization".to_string(), "Bearer k".to_string())));
    assert!(call.headers.contains(&("Accept-Encoding".to_string(), "identity".to_string())));
    assert_eq!(call.headers.len(), 5);
    let body = match call.body {
        CallBody::Json(j) => j,
        other => panic!("{:?}", other),
    };
    assert_eq!(body.field("model").text(), Some("m"));
    assert_eq!(body.field("stream").flag(), Some(true));
    assert_eq!(body.field("messages").array().unwrap().len(), 2);
    assert_eq!(body.field("messages").first().field("role").text(), Some("system"));
    assert_eq!(body.field("tools").array().unwrap().len(), 1);

    let quiet = AiClient::new(load("api_key = \"k\"\nchat_tools_enabled = false"));
    let without = |call: CallBody| match call {
        CallBody::Json(j) => j.get("tools").is_none(),
        other => panic!("{:?}", other),
    };
    assert!(without(quiet.chat_step("m", &messages, &tools).body));
    assert!(without(client.chat_step("m", &messages, &[]).body));
    assert!(without(client.complete_once("m", &messages).body));
}

#[test]
fn messages_have_their_roles() {
    assert_eq!(ApiMessage::assistant("a").0, Json::Object(vec![
        ("role".to_string(), Json::Text("assistant".to_string())),
        ("content".to_string(), Json::Text("a".to_string())),
    ]));
    let calls = ApiMessage::assistant_tool_calls(Json::Array(vec![]));
    assert_eq!(calls.0.field("role").text(), Some("assistant"));
    assert_eq!(calls.0.get("content"), Some(&Json::Null));
    assert_eq!(calls.0.field("tool_calls").array().unwrap().len(), 0);
    let result = ApiMessage::tool_result("id", "text");
    assert_eq!(result.0.field("role").text(), Some("tool"));
    assert_eq!(result.0.field("tool_call_id").text(), Some("id"));
    assert_eq!(result.copy().0.field("content").text(), Some("text"));
}

#[test]
fn refused_chat_requests_are_told() {
    assert!(check_chat_reply(&answer(200, "200 OK", ReplyBody::Unread)).is_ok());
    let refused = answer(401, "401 Unauthorized", ReplyBody::Text("no key".to_string()));
    assert_eq!(
        check_chat_reply(&refused).unwrap_err().message,
        "API error 401 Unauthorized: no key"
    );
    let unread = answer(500, "500 Internal Server Error", ReplyBody::Unread);
    assert_eq!(
        check_chat_reply(&unread).unwrap_err().message,
        "API error 500 Internal Server Error: "
    );
    let failed = HttpReply::Failed("dns".to_string());
    assert_eq!(check_chat_reply(&failed).unwrap_err().message, "HTTP request failed");
}

// ---- Streams -----------------------------------------------------------------------------------

fn feed(lines: &[&str]) -> (Vec<String>, Vec<ToolCall>) {
    let mut stream = ChatStream::new();
    let mut tokens = Vec::new();
    for line in lines {
        let out = stream.take_line(false, Some(line)).unwrap();
        tokens.extend(out.tokens);
        if out.done {
            break;
        }
    }
    (tokens, stream.finish())
}

#[test]
fn text_is_streamed_in_tokens() {
    let (tokens, calls) = feed(&[
        ": comment",
        "data: {\"choices\": [{\"delta\": {\"content\": \"Hel\"}}]}",
        "",
        "data: not json",
        "data: {\"choices\": [{\"delta\": {\"reasoning_content\": \"hm\"}}]}",
        "data: {\"choices\": [{\"delta\": {\"reasoning_content\": \"\", \"content\": \"lo\"}}]}",
        "data: {\"choices\": [{\"reasoning\": \"r\", \"delta\": {}, \"finish_reason\": \"stop\"}]}",
        "data: [DONE] ",
        "data: {\"choices\": [{\"delta\": {\"content\": \"late\"}}]}",
    ]);
    assert_eq!(
        tokens,
        vec!["Hel", "<think>\nhm\n</think>\n\n", "lo", "<think>\nr\n</think>\n\n"]
    );
    assert!(calls.is_empty());
    assert_eq!(completion_text(&[" Hel".to_string(), "lo \n".to_string()]), "Hello");
}

#[test]
fn tool_calls_are_assembled_by_index() {
    let (tokens, calls) = feed(&[
        "data: {\"choices\": [{\"delta\": {\"tool_calls\": [{\"index\": 1, \"id\": \"b\", \
         \"function\": {\"name\": \"pwd\", \"arguments\": \"{\"}}]}}]}",
        "data: {\"choices\": [{\"delta\": {\"tool_calls\": [{\"id\": \"a\", \
         \"function\": {\"name\": \"fs_read\", \"arguments\": \"{\\\"path\\\":\"}}, \
         {\"index\": 1, \"function\": {\"arguments\": \"}\"}}]}}]}",
        "data: {\"choices\": [{\"delta\": {\"tool_calls\": [{\"index\": 0, \
         \"function\": {\"arguments\": \" 1}\"}}]}}]}",
        "data: {\"choices\": [{\"delta\": {}, \"finish_reason\": \"tool_calls\"}]}",
        "data: {\"choices\": [{\"delta\": {}, \"finish_reason\": \"null\"}]}",
        "data: [DONE]",
    ]);
    assert!(tokens.is_empty());
    let call = |id: &str, name: &str, arguments: &str| ToolCall {
        id: id.to_string(),
        name: name.to_string(),
        arguments: arguments.to_string(),
    };
    assert_eq!(calls, vec![call("a", "fs_read", "{\"path\": 1}"), call("b", "pwd", "{}")]);
    let (_, none) = feed(&[
        "data: {\"choices\": [{\"delta\": {\"tool_calls\": [{\"id\": \"a\"}]}}]}",
        "data: {\"choices\": [{\"delta\": {}, \"finish_reason\": \"length\"}]}",
    ]);
    assert!(none.is_empty());
}

#[test]
fn streams_end_on_cancel_and_on_trouble() {
    let mut stream = ChatStream::new();
    let line = "data: {\"choices\": [{\"delta\": {\"content\": \"x\"}}]}";
    let out = stream.take_line(true, Some(line)).unwrap();
    assert!(out.done && out.tokens.is_empty());
    assert!(stream.take_line(true, None).unwrap().done);
    assert_eq!(stream.take_line(false, None).unwrap_err().message, "read SSE line");
    let out = stream.take_line(false, Some(line)).unwrap();
    assert_eq!(out.tokens, vec!["x"]);
}

// ---- Models ------------------------------------------------------------------------------------

#[test]
fn chat_models_are_told_from_others() {
    for id in ["gpt-4o", "mistral-7b", "o1", "Llama-3", "", "canada"] {
        assert!(is_chat_model_id(id), "{}", id);
    }
    for id in [
        "whisper-1", "tts-1", "dall-e-3", "DALLE", "text-embedding-3", "omni-moderation",
        "gpt-audio", "gpt-image-1", "davinci-002", "babbage-002", "text-ada-001", "TTS",
    ] {
        assert!(!is_chat_model_id(id), "{}", id);
    }
}

#[test]
fn model_lists_are_sorted_and_capped() {
    let client = AiClient::new(load("api_key = \"k\""));
    let call = client.list_models();
    assert_eq!(call.url, "https://api.openai.com/v1/models");
    assert_eq!(call.headers, vec![("Authorization".to_string(), "Bearer k".to_string())]);
    let list = json(
        r#"{"data": [{"id": "b"}, {"id": "a"}, {"id": "tts-1"}, {"id": 3}, {"id": "b"}, {}]}"#,
    );
    assert_eq!(chat_models(&list), Some(vec!["a".to_string(), "b".to_string()]));
    assert_eq!(chat_models(&json("{}")), None);
    let ids: Vec<String> = (10..60).map(|i| format!("{{\"id\": \"m{}\"}}", i)).collect();
    let body = format!("{{\"data\": [{}]}}", ids.join(","));
    let models = models_of_reply(&answer(200, "200 OK", bytes(&body))).unwrap();
    assert_eq!(models.len(), 30);
    assert_eq!(models[29], "m39");
}

#[test]
fn model_lists_that_fail_are_told() {
    let words = |reply: HttpReply| models_of_reply(&reply).unwrap_err().message;
    assert_eq!(words(HttpReply::Failed("x".to_string())), "GET /models failed");
    assert_eq!(
        words(answer(404, "404 Not Found", ReplyBody::Text("nope".to_string()))),
        "models API 404 Not Found: nope"
    );
    assert_eq!(words(answer(200, "200 OK", bytes("nope"))), "parse /models response");
    assert_eq!(
        words(answer(200, "200 OK", bytes("{}"))),
        "missing `data` array in /models response"
    );
}

#[test]
fn notifications_are_logged_in_one_line() {
    let notif = ToastNotification { title: "T".to_string(), message: "m".to_string() };
    assert_eq!(show_notif(&notif), "[toast] T: m");
}
