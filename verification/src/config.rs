//! Configuration of the assistant, as `assistant.toml` gives it.

use crate::json::opt_text;
use crate::paths::{expand_tilde, expanded, join_path, joined_path};
use crate::text::{cat, opt_string, same, texts, trim_trailing, without_trailing};
use toml::Value;
use vstd::prelude::*;
use vstd::string::*;

verus! {

/// The model used when none is configured.
pub const DEFAULT_MODEL: &'static str = "gpt-5.4-mini";

/// The API used when none is configured.
pub const DEFAULT_BASE_URL: &'static str = "https://api.openai.com/v1";

// ---- Settings ----------------------------------------------------------------------------------

/// The value of a setting, as far as the configuration reads it. A list keeps its texts and, for
/// every element that is no text, a gap.
#[derive(Debug, PartialEq)]
pub enum Setting {
    Text(String),
    Flag(bool),
    List(Vec<Option<String>>),
    Other,
}

/// The value of a setting with its texts as sequences of characters.
pub enum SettingView {
    Text(Seq<char>),
    Flag(bool),
    List(Seq<Option<Seq<char>>>),
    Other,
}

impl View for Setting {
    type V = SettingView;

    open spec fn view(&self) -> SettingView {
        match self {
            Setting::Text(s) => SettingView::Text(s@),
            Setting::Flag(b) => SettingView::Flag(*b),
            Setting::List(list) => SettingView::List(
                Seq::new(list@.len(), |i: int| opt_string(list@[i])),
            ),
            Setting::Other => SettingView::Other,
        }
    }
}

/// The contents of a list of settings.
pub open spec fn setting_views(list: Seq<(String, Setting)>) -> Seq<(Seq<char>, SettingView)> {
    Seq::new(list.len(), |i: int| (list[i].0@, list[i].1@))
}

/// The error of a text that is no TOML document.
#[verifier::external_type_specification]
#[verifier::external_body]
pub struct ExTomlError(toml::de::Error);

/// A TOML document.
#[verifier::external_type_specification]
#[verifier::external_body]
pub struct ExTomlValue(toml::Value);

/// The settings at the top of a TOML document, in the order in which its table is walked.
pub uninterp spec fn value_settings(value: toml::Value) -> Seq<(Seq<char>, SettingView)>;

/// The settings at the top of the TOML document that a text holds, if it is one: what parsing it
/// as a `toml::Value` makes of it.
pub uninterp spec fn toml_settings(raw: Seq<char>) -> Option<Seq<(Seq<char>, SettingView)>>;

/// `toml::Value` parsed from text (its `FromStr`): whether the text is a document, and what that
/// holds, depends on the text alone.
#[verifier::external_body]
fn value_from_text(raw: &str) -> (r: Result<toml::Value, toml::de::Error>)
    ensures
        match r {
            Ok(value) => toml_settings(raw@) == Some(value_settings(value)),
            Err(_) => toml_settings(raw@) is None,
        },
{
    raw.parse()
}

/// Hands out the entries of the table that a `toml::Value` is, in the order in which the table is
/// walked: texts, booleans and the texts in arrays as they are, anything else as `Other`. A value
/// that is no table has no entries.
#[verifier::external_body]
fn settings_from_value(value: toml::Value) -> (list: Vec<(String, Setting)>)
    ensures
        setting_views(list@) == value_settings(value),
{
    let text = |v: &Value| v.as_str().map(String::from);
    let setting = |v: &Value| match v {
        Value::String(s) => Setting::Text(s.clone()),
        Value::Boolean(b) => Setting::Flag(*b),
        Value::Array(a) => Setting::List(a.iter().map(text).collect()),
        Value::Integer(_) | Value::Float(_) => Setting::Other,
        Value::Datetime(_) | Value::Table(_) => Setting::Other,
    };
    value.as_table().into_iter().flatten().map(|(k, v)| (k.clone(), setting(v))).collect()
}

/// Position of the first setting with the key, or the number of settings when there is none.
pub open spec fn setting_position(list: Seq<(Seq<char>, SettingView)>, key: Seq<char>) -> nat
    decreases list.len(),
{
    if list.len() == 0 || list[0].0 == key {
        0
    } else {
        1 + setting_position(list.skip(1), key)
    }
}

/// The value of the setting with the key.
pub open spec fn setting(list: Seq<(Seq<char>, SettingView)>, key: Seq<char>) -> Option<SettingView> {
    if setting_position(list, key) < list.len() {
        Some(list[setting_position(list, key) as int].1)
    } else {
        None
    }
}

/// The text of the setting with the key, if it is a text.
pub open spec fn text_setting(list: Seq<(Seq<char>, SettingView)>, key: Seq<char>) -> Option<Seq<char>> {
    match setting(list, key) {
        Some(SettingView::Text(s)) => Some(s),
        _ => None,
    }
}

/// The text of the setting with the key, if it is a text and not empty.
pub open spec fn filled_setting(
    list: Seq<(Seq<char>, SettingView)>,
    key: Seq<char>,
) -> Option<Seq<char>> {
    match text_setting(list, key) {
        Some(s) => if s.len() > 0 {
            Some(s)
        } else {
            None
        },
        None => None,
    }
}

/// The texts in a list that also holds gaps.
pub open spec fn present(list: Seq<Option<Seq<char>>>) -> Seq<Seq<char>>
    decreases list.len(),
{
    if list.len() == 0 {
        Seq::empty()
    } else {
        match list.last() {
            Some(s) => present(list.drop_last()).push(s),
            None => present(list.drop_last()),
        }
    }
}

proof fn lemma_setting_position(list: Seq<(Seq<char>, SettingView)>, key: Seq<char>, n: nat)
    requires
        n <= list.len(),
        n < list.len() ==> list[n as int].0 == key,
        forall|i: int| 0 <= i < n ==> (#[trigger] list[i]).0 != key,
    ensures
        setting_position(list, key) == n,
    decreases list.len(),
{
    if list.len() > 0 && list[0].0 != key {
        assert(n > 0);
        assert forall|i: int| 0 <= i < n - 1 implies (#[trigger] list.skip(1)[i]).0 != key by {
            assert(list.skip(1)[i] == list[i + 1]);
        }
        lemma_setting_position(list.skip(1), key, (n - 1) as nat);
    }
}

fn find_setting<'a>(list: &'a [(String, Setting)], key: &str) -> (r: Option<&'a Setting>)
    ensures
        match r {
            Some(v) => setting(setting_views(list@), key@) == Some(v@),
            None => setting(setting_views(list@), key@) is None,
        },
{
    let ghost views = setting_views(list@);
    let mut i: usize = 0;
    while i < list.len()
        invariant
            i <= list@.len(),
            views == setting_views(list@),
            forall|k: int| 0 <= k < i ==> (#[trigger] views[k]).0 != key@,
        decreases list@.len() - i,
    {
        if same(list[i].0.as_str(), key) {
            proof {
                lemma_setting_position(views, key@, i as nat);
            }
            return Some(&list[i].1);
        }
        i = i + 1;
    }
    proof {
        lemma_setting_position(views, key@, i as nat);
    }
    None
}

fn find_text<'a>(list: &'a [(String, Setting)], key: &str) -> (r: Option<&'a str>)
    ensures
        opt_text(r) == text_setting(setting_views(list@), key@),
{
    match find_setting(list, key) {
        Some(Setting::Text(s)) => Some(s.as_str()),
        _ => None,
    }
}

fn find_filled(list: &[(String, Setting)], key: &str) -> (r: Option<String>)
    ensures
        opt_string(r) == filled_setting(setting_views(list@), key@),
{
    match find_text(list, key) {
        Some(s) => if s.is_empty() {
            None
        } else {
            Some(s.to_string())
        },
        None => None,
    }
}

fn texts_in(list: &Vec<Option<String>>) -> (r: Vec<String>)
    ensures
        texts(r@) == present(Seq::new(list@.len(), |i: int| opt_string(list@[i]))),
{
    let ghost all = Seq::new(list@.len(), |i: int| opt_string(list@[i]));
    let mut out: Vec<String> = Vec::new();
    let mut i: usize = 0;
    assert(all.take(0).len() == 0);
    assert(texts(out@) == present(all.take(0)));
    while i < list.len()
        invariant
            i <= list@.len(),
            all == Seq::new(list@.len(), |i: int| opt_string(list@[i])),
            texts(out@) == present(all.take(i as int)),
        decreases list@.len() - i,
    {
        let ghost upto = all.take(i + 1);
        assert(upto.drop_last() == all.take(i as int));
        assert(upto.last() == opt_string(list@[i as int]));
        match &list[i] {
            Some(s) => {
                let ghost before = texts(out@);
                let t = s.clone();
                out.push(t);
                assert(texts(out@) == before.push(t@));
            },
            None => {},
        }
        i = i + 1;
    }
    assert(all.take(i as int) == all);
    out
}

// ---- Configuration -----------------------------------------------------------------------------

/// Configuration loaded from `assistant.toml`.
#[derive(Debug, Clone, PartialEq)]
pub struct AssistantConfig {
    pub api_key: String,
    /// Chat overlay model. Falls back to `model` from assistant.toml when omitted.
    pub chat_model: String,
    /// Optional user-curated model list for the chat overlay. When set, the chat overlay cycles
    /// only through these and skips the auto-fetch step.
    pub chat_model_choices: Vec<String>,
    pub base_url: String,
    /// When false, the `tools` field is omitted from chat requests.
    pub chat_tools_enabled: bool,
    /// Web search provider: "brave", "pipellm", or "tavily". None = disabled.
    pub web_search_provider: Option<String>,
    /// API key for web_search_provider. None = search tool not registered.
    pub web_search_api_key: Option<String>,
    /// Path to a custom fetch script. It receives the URL as $1 and prints Markdown to stdout.
    pub web_fetch_script: Option<String>,
    /// Optional dedicated model for background memory curation. Falls back to `chat_model` when
    /// unset.
    pub memory_curator_model: Option<String>,
}

/// A configuration with its texts as sequences of characters.
pub struct ConfigView {
    pub api_key: Seq<char>,
    pub chat_model: Seq<char>,
    pub chat_model_choices: Seq<Seq<char>>,
    pub base_url: Seq<char>,
    pub chat_tools_enabled: bool,
    pub web_search_provider: Option<Seq<char>>,
    pub web_search_api_key: Option<Seq<char>>,
    pub web_fetch_script: Option<Seq<char>>,
    pub memory_curator_model: Option<Seq<char>>,
}

impl View for AssistantConfig {
    type V = ConfigView;

    open spec fn view(&self) -> ConfigView {
        ConfigView {
            api_key: self.api_key@,
            chat_model: self.chat_model@,
            chat_model_choices: texts(self.chat_model_choices@),
            base_url: self.base_url@,
            chat_tools_enabled: self.chat_tools_enabled,
            web_search_provider: opt_string(self.web_search_provider),
            web_search_api_key: opt_string(self.web_search_api_key),
            web_fetch_script: opt_string(self.web_fetch_script),
            memory_curator_model: opt_string(self.memory_curator_model),
        }
    }
}

/// Why there is no configuration.
#[derive(Debug, Clone, Copy, PartialEq, Eq, Structural)]
pub enum ConfigError {
    /// The place of the configuration is unknown.
    InvalidPath,
    /// The file cannot be read.
    Unreadable,
    /// The file is no TOML document.
    InvalidToml,
    /// The key of the API is not set.
    MissingApiKey,
}

impl ConfigError {
    /// What the user is told; `path` is the file.
    pub open spec fn words(self, path: Seq<char>) -> Seq<char> {
        match self {
            ConfigError::InvalidPath => "invalid user config path"@,
            ConfigError::Unreadable => "Cannot read "@ + path,
            ConfigError::InvalidToml => "Invalid assistant.toml"@,
            ConfigError::MissingApiKey => "api_key not set in "@ + path
                + ". Run `kaku ai` to configure."@,
        }
    }

    /// What the user is told; `path` is the file.
    pub fn message(&self, path: &str) -> (r: String)
        ensures
            r@ == self.words(path@),
    {
        match self {
            ConfigError::InvalidPath => "invalid user config path".to_string(),
            ConfigError::Unreadable => cat("Cannot read ", path),
            ConfigError::InvalidToml => "Invalid assistant.toml".to_string(),
            ConfigError::MissingApiKey => {
                let mut out = cat("api_key not set in ", path);
                out.append(". Run `kaku ai` to configure.");
                out
            },
        }
    }
}

/// The providers that web search knows.
pub open spec fn known_provider(name: Seq<char>) -> bool {
    name == "brave"@ || name == "pipellm"@ || name == "tavily"@
}

/// A text, or another when there is none.
pub open spec fn text_else(s: Option<Seq<char>>, default: Seq<char>) -> Seq<char> {
    match s {
        Some(t) => t,
        None => default,
    }
}

/// The configuration that settings give; `home` is the home directory, where it is known.
pub open spec fn configured(
    list: Seq<(Seq<char>, SettingView)>,
    home: Option<Seq<char>>,
) -> Result<ConfigView, ConfigError> {
    match text_setting(list, "api_key"@) {
        None => Err(ConfigError::MissingApiKey),
        Some(api_key) => Ok(
            ConfigView {
                api_key,
                chat_model: text_else(
                    text_setting(list, "chat_model"@),
                    text_else(text_setting(list, "model"@), DEFAULT_MODEL@),
                ),
                chat_model_choices: match setting(list, "chat_model_choices"@) {
                    Some(SettingView::List(choices)) => present(choices),
                    _ => Seq::empty(),
                },
                base_url: without_trailing(
                    text_else(text_setting(list, "base_url"@), DEFAULT_BASE_URL@),
                    '/',
                ),
                chat_tools_enabled: match setting(list, "chat_tools_enabled"@) {
                    Some(SettingView::Flag(b)) => b,
                    _ => true,
                },
                web_search_provider: match text_setting(list, "web_search_provider"@) {
                    Some(name) => if known_provider(name) {
                        Some(name)
                    } else {
                        None
                    },
                    None => None,
                },
                web_search_api_key: filled_setting(list, "web_search_api_key"@),
                web_fetch_script: match filled_setting(list, "web_fetch_script"@) {
                    Some(path) => Some(expanded(path, home)),
                    None => None,
                },
                memory_curator_model: filled_setting(list, "memory_curator_model"@),
            },
        ),
    }
}

/// The content of the result of loading a configuration.
pub open spec fn config_view(r: Result<AssistantConfig, ConfigError>) -> Result<
    ConfigView,
    ConfigError,
> {
    match r {
        Ok(c) => Ok(c@),
        Err(e) => Err(e),
    }
}

/// The configuration that the text of `assistant.toml` gives.
pub open spec fn loaded(raw: Seq<char>, home: Option<Seq<char>>) -> Result<ConfigView, ConfigError> {
    match toml_settings(raw) {
        Some(list) => configured(list, home),
        None => Err(ConfigError::InvalidToml),
    }
}

impl AssistantConfig {
    /// The configuration that the text of `assistant.toml` gives; `home` is the home directory,
    /// where it is known.
    pub fn load(raw: &str, home: Option<&str>) -> (r: Result<Self, ConfigError>)
        ensures
            config_view(r) == loaded(raw@, opt_text(home)),
    {
        match value_from_text(raw) {
            Ok(value) => Self::from_settings(settings_from_value(value).as_slice(), home),
            Err(_) => Err(ConfigError::InvalidToml),
        }
    }

    /// The configuration that settings give; `home` is the home directory, where it is known.
    pub fn from_settings(list: &[(String, Setting)], home: Option<&str>) -> (r: Result<
        Self,
        ConfigError,
    >)
        ensures
            config_view(r) == configured(setting_views(list@), opt_text(home)),
    {
        let ghost views = setting_views(list@);
        let api_key = match find_text(list, "api_key") {
            Some(s) => s.to_string(),
            None => {
                return Err(ConfigError::MissingApiKey);
            },
        };
        let model = match find_text(list, "model") {
            Some(s) => s,
            None => DEFAULT_MODEL,
        };
        let chat_model = match find_text(list, "chat_model") {
            Some(s) => s.to_string(),
            None => model.to_string(),
        };
        let chat_model_choices = match find_setting(list, "chat_model_choices") {
            Some(Setting::List(choices)) => texts_in(choices),
            _ => {
                let none: Vec<String> = Vec::new();
                assert(texts(none@) == Seq::<Seq<char>>::empty());
                none
            },
        };
        let base_url = trim_trailing(
            match find_text(list, "base_url") {
                Some(s) => s,
                None => DEFAULT_BASE_URL,
            },
            '/',
        );
        let chat_tools_enabled = match find_setting(list, "chat_tools_enabled") {
            Some(Setting::Flag(b)) => *b,
            _ => true,
        };
        let web_search_provider = match find_text(list, "web_search_provider") {
            Some(s) => if same(s, "brave") || same(s, "pipellm") || same(s, "tavily") {
                Some(s.to_string())
            } else {
                None
            },
            None => None,
        };
        let web_search_api_key = find_filled(list, "web_search_api_key");
        let web_fetch_script = match find_filled(list, "web_fetch_script") {
            Some(s) => Some(expand_tilde(s.as_str(), home)),
            None => None,
        };
        let memory_curator_model = find_filled(list, "memory_curator_model");
        Ok(
            AssistantConfig {
                api_key,
                chat_model,
                chat_model_choices,
                base_url,
                chat_tools_enabled,
                web_search_provider,
                web_search_api_key,
                web_fetch_script,
                memory_curator_model,
            },
        )
    }

    /// Whether a web search provider and its API key are both configured.
    pub fn web_search_ready(&self) -> (r: bool)
        ensures
            r == (self@.web_search_provider is Some && self@.web_search_api_key is Some),
    {
        self.web_search_provider.is_some() && self.web_search_api_key.is_some()
    }
}

/// The configuration file in the directory that holds the user's configuration.
pub fn assistant_toml_path(config_dir: Option<&str>) -> (r: Result<String, ConfigError>)
    ensures
        match config_dir {
            Some(dir) => r matches Ok(p) && p@ == joined_path(dir@, "assistant.toml"@),
            None => r == Err::<String, ConfigError>(ConfigError::InvalidPath),
        },
{
    match config_dir {
        Some(dir) => Ok(join_path(dir, "assistant.toml")),
        None => Err(ConfigError::InvalidPath),
    }
}

// ---- Laws --------------------------------------------------------------------------------------

proof fn lemma_without_trailing(s: Seq<char>, c: char)
    ensures
        without_trailing(s, c).len() > 0 ==> without_trailing(s, c).last() != c,
    decreases s.len(),
{
    if s.len() > 0 && s.last() == c {
        lemma_without_trailing(s.drop_last(), c);
    }
}

/// Every configuration that loads names a known search provider or none, has no empty search key or
/// curator model, and its base URL does not end with a slash.
pub proof fn law_loaded_is_usable(list: Seq<(Seq<char>, SettingView)>, home: Option<Seq<char>>)
    requires
        configured(list, home) is Ok,
    ensures
        ({
            let c = configured(list, home)->Ok_0;
            &&& c.web_search_provider is Some ==> known_provider(c.web_search_provider->0)
            &&& c.web_search_api_key is Some ==> c.web_search_api_key->0.len() > 0
            &&& c.memory_curator_model is Some ==> c.memory_curator_model->0.len() > 0
            &&& c.base_url.len() > 0 ==> c.base_url.last() != '/'
        }),
{
    lemma_without_trailing(
        text_else(text_setting(list, "base_url"@), DEFAULT_BASE_URL@),
        '/',
    );
}

/// A configuration loads exactly when it holds the key of the API as a text.
pub proof fn law_loads_with_api_key(list: Seq<(Seq<char>, SettingView)>, home: Option<Seq<char>>)
    ensures
        (configured(list, home) is Ok) == (text_setting(list, "api_key"@) is Some),
        configured(list, home) is Ok ==> Some(configured(list, home)->Ok_0.api_key)
            == text_setting(list, "api_key"@),
{
}

/// Of several settings with one key the first one counts; a key that no setting has has no value.
pub proof fn law_first_setting_counts(list: Seq<(Seq<char>, SettingView)>, key: Seq<char>, n: int)
    requires
        0 <= n <= list.len(),
        n < list.len() ==> list[n].0 == key,
        forall|i: int| 0 <= i < n ==> (#[trigger] list[i]).0 != key,
    ensures
        n < list.len() ==> setting(list, key) == Some(list[n].1),
        n == list.len() ==> setting(list, key) is None,
{
    lemma_setting_position(list, key, n as nat);
}

proof fn lemma_no_trailing(s: Seq<char>, c: char)
    requires
        s.len() == 0 || s.last() != c,
    ensures
        without_trailing(s, c) == s,
        without_trailing(s.push(c), c) == s,
{
    assert(s.push(c).drop_last() =~= s);
}

/// A setting that is given is taken as it is: the key, the model, the address without a slash at
/// its end, and whether tools are used. Where the model of conversations is not set, the general
/// one is used; and what is not set at all has its default.
pub proof fn law_settings_are_taken(
    list: Seq<(Seq<char>, SettingView)>,
    home: Option<Seq<char>>,
    t: Seq<char>,
    on: bool,
)
    requires
        configured(list, home) is Ok,
    ensures
        ({
            let c = configured(list, home)->Ok_0;
            let told = Some(SettingView::Text(t));
            let model = setting(list, "model"@);
            let chat_model = setting(list, "chat_model"@);
            let base_url = setting(list, "base_url"@);
            let tools = setting(list, "chat_tools_enabled"@);
            &&& setting(list, "api_key"@) == told ==> c.api_key == t
            &&& chat_model == told ==> c.chat_model == t
            &&& chat_model is None && model == told ==> c.chat_model == t
            &&& chat_model is None && model is None ==> c.chat_model == "gpt-5.4-mini"@
            &&& base_url == told && (t.len() == 0 || t.last() != '/') ==> c.base_url == t
            &&& base_url == Some(SettingView::Text(t.push('/'))) && (t.len() == 0
                || t.last() != '/')
                ==> c.base_url == t
            &&& base_url is None ==> c.base_url == "https://api.openai.com/v1"@
            &&& tools == Some(SettingView::Flag(on)) ==> c.chat_tools_enabled == on
            &&& tools is None ==> c.chat_tools_enabled
        }),
{
    if t.len() == 0 || t.last() != '/' {
        lemma_no_trailing(t, '/');
    }
    reveal_strlit("https://api.openai.com/v1");
    assert("https://api.openai.com/v1"@.last() == '1');
    lemma_no_trailing("https://api.openai.com/v1"@, '/');
}

/// The settings of web search and of memory are taken where they are set and not empty, the
/// provider where it is one of the three that are known, and a path below the home directory in
/// full.
pub proof fn law_search_settings_are_taken(
    list: Seq<(Seq<char>, SettingView)>,
    home: Option<Seq<char>>,
    t: Seq<char>,
)
    requires
        configured(list, home) is Ok,
    ensures
        ({
            let c = configured(list, home)->Ok_0;
            let told = Some(SettingView::Text(t));
            let provider = setting(list, "web_search_provider"@);
            let key = setting(list, "web_search_api_key"@);
            let script = setting(list, "web_fetch_script"@);
            let curator = setting(list, "memory_curator_model"@);
            &&& provider == told && (t == "brave"@ || t == "pipellm"@ || t == "tavily"@)
                ==> c.web_search_provider == Some(t)
            &&& provider == told && t != "brave"@ && t != "pipellm"@ && t != "tavily"@
                ==> c.web_search_provider is None
            &&& provider is None ==> c.web_search_provider is None
            &&& key == told && t.len() > 0 ==> c.web_search_api_key == Some(t)
            &&& key is None || (key == told && t.len() == 0) ==> c.web_search_api_key is None
            &&& script == told && t.len() > 0 ==> c.web_fetch_script == Some(expanded(t, home))
            &&& script is None || (script == told && t.len() == 0) ==> c.web_fetch_script is None
            &&& curator == told && t.len() > 0 ==> c.memory_curator_model == Some(t)
            &&& curator is None || (curator == told && t.len() == 0) ==> c.memory_curator_model
                is None
        }),
{
}

proof fn lemma_present_joins(a: Seq<Option<Seq<char>>>, b: Seq<Option<Seq<char>>>)
    ensures
        present(a + b) == present(a) + present(b),
    decreases b.len(),
{
    if b.len() == 0 {
        assert(a + b =~= a);
        assert(present(a) + present(b) =~= present(a));
    } else {
        assert((a + b).drop_last() =~= a + b.drop_last());
        lemma_present_joins(a, b.drop_last());
        assert(present(a + b) =~= present(a) + present(b));
    }
}

/// The models to choose from are all the texts of their list, in order; what is no text is left
/// out.
pub proof fn law_choices_are_the_texts(
    list: Seq<(Seq<char>, SettingView)>,
    home: Option<Seq<char>>,
    a: Seq<Option<Seq<char>>>,
    t: Seq<char>,
    b: Seq<Option<Seq<char>>>,
)
    requires
        configured(list, home) is Ok,
    ensures
        ({
            let c = configured(list, home)->Ok_0;
            let choices = setting(list, "chat_model_choices"@);
            &&& choices == Some(SettingView::List(a + seq![Some(t)] + b)) ==> c.chat_model_choices
                == present(a) + seq![t] + present(b)
            &&& choices == Some(SettingView::List(a + seq![None::<Seq<char>>] + b))
                ==> c.chat_model_choices == present(a) + present(b)
            &&& choices == Some(SettingView::List(Seq::empty())) ==> c.chat_model_choices.len() == 0
            &&& !(choices is Some && choices->0 is List) ==> c.chat_model_choices.len() == 0
        }),
{
    let one = seq![Some(t)];
    let gap = seq![None::<Seq<char>>];
    assert(one.drop_last() =~= Seq::empty());
    assert(gap.drop_last() =~= Seq::empty());
    assert(present(one.drop_last()) =~= Seq::<Seq<char>>::empty());
    assert(present(one) =~= seq![t]);
    assert(present(gap) =~= Seq::<Seq<char>>::empty());
    lemma_present_joins(a, one);
    lemma_present_joins(a + one, b);
    lemma_present_joins(a, gap);
    lemma_present_joins(a + gap, b);
    assert(present(a) + present(gap) =~= present(a));
}

/// A text that is no document is refused as one, and one that is gives what its settings give.
/// Every refusal is told in its own words.
pub proof fn law_refusals_have_words(
    raw: Seq<char>,
    home: Option<Seq<char>>,
    list: Seq<(Seq<char>, SettingView)>,
    path: Seq<char>,
)
    ensures
        toml_settings(raw) is None ==> loaded(raw, home) == Err::<ConfigView, ConfigError>(
            ConfigError::InvalidToml,
        ),
        toml_settings(raw) == Some(list) ==> loaded(raw, home) == configured(list, home),
        setting(list, "api_key"@) is None ==> configured(list, home) == Err::<
            ConfigView,
            ConfigError,
        >(ConfigError::MissingApiKey),
        ConfigError::InvalidPath.words(path) == "invalid user config path"@,
        ConfigError::Unreadable.words(path) == "Cannot read "@ + path,
        ConfigError::InvalidToml.words(path) == "Invalid assistant.toml"@,
        ConfigError::MissingApiKey.words(path) == "api_key not set in "@ + path
            + ". Run `kaku ai` to configure."@,
{
}

/// A configuration is seen whole: every setting of it, and of a list of settings every one, in
/// order.
pub proof fn law_configurations_are_seen_whole(
    c: AssistantConfig,
    list: Seq<(String, Setting)>,
    i: int,
    e: ConfigError,
)
    ensures
        c@.api_key == c.api_key@,
        c@.chat_model == c.chat_model@,
        c@.chat_model_choices.len() == c.chat_model_choices@.len(),
        0 <= i < c.chat_model_choices@.len() ==> c@.chat_model_choices[i]
            == c.chat_model_choices@[i]@,
        c@.base_url == c.base_url@,
        c@.chat_tools_enabled == c.chat_tools_enabled,
        c@.web_search_provider == opt_string(c.web_search_provider),
        c@.web_search_api_key == opt_string(c.web_search_api_key),
        c@.web_fetch_script == opt_string(c.web_fetch_script),
        c@.memory_curator_model == opt_string(c.memory_curator_model),
        setting_views(list).len() == list.len(),
        0 <= i < list.len() ==> setting_views(list)[i].0 == list[i].0@ && setting_views(list)[i].1
            == list[i].1@,
        config_view(Ok(c)) == Ok::<ConfigView, ConfigError>(c@),
        config_view(Err(e)) == Err::<ConfigView, ConfigError>(e),
{
}

/// A setting is seen whole: its text, its flag, or every element of its list, in order.
pub proof fn law_settings_are_seen_whole(s: String, b: bool, list: Vec<Option<String>>, i: int)
    ensures
        Setting::Text(s)@ == SettingView::Text(s@),
        Setting::Flag(b)@ == SettingView::Flag(b),
        Setting::Other@ == SettingView::Other,
        Setting::List(list)@ matches SettingView::List(seen) && seen.len() == list@.len() && (0 <= i
            < list@.len() ==> seen[i] == opt_string(list@[i])),
{
}

} // verus!
