//! Configuration of OpenCode Go models.
use crate::text;
use vstd::prelude::*;
use vstd::string::*;

verus! {

/// Wire API accepted by an OpenCode Go model.
#[derive(Debug, Clone, Copy, PartialEq, Eq, Structural)]
pub enum OpenCodeGoApi {
    /// OpenAI-compatible Chat Completions.
    ChatCompletions,
    /// OpenAI Responses.
    Responses,
    /// Anthropic Messages.
    Messages,
}

/// The published Go endpoint table lists the model under OpenAI Responses.
pub open spec fn speaks_responses(model: Seq<char>) -> bool {
    ||| model == "grok-4.7"@
    ||| model == "grok-4.6"@
    ||| model == "gpt-6-luna"@
    ||| model == "gpt-5.6-luna"@
    ||| model == "muse-spark-1.3-contributor"@
    ||| model == "muse-spark-1.2-contributor"@
}

/// The published Go endpoint table lists the model under Anthropic Messages.
pub open spec fn speaks_messages(model: Seq<char>) -> bool {
    ||| model == "minimax-m3"@
    ||| model == "minimax-m2.7"@
    ||| model == "minimax-m2.5"@
    ||| model == "qwen3.8-max"@
    ||| model == "qwen3.8-flash"@
    ||| model == "qwen3.7-max"@
    ||| model == "qwen3.7-plus"@
    ||| model == "qwen3.6-plus"@
}

/// The published Go endpoint table lists the model under OpenAI-compatible Chat Completions.
pub open spec fn speaks_chat_completions(model: Seq<char>) -> bool {
    ||| model == "glm-5.3-flash"@
    ||| model == "glm-5.3"@
    ||| model == "glm-5.2"@
    ||| model == "glm-5.1"@
    ||| model == "kimi-k3"@
    ||| model == "kimi-k2.7-code"@
    ||| model == "kimi-k2.6"@
    ||| model == "longcat-2.0"@
    ||| model == "deepseek-v4.1-flash"@
    ||| model == "deepseek-v4-pro"@
    ||| model == "deepseek-v4-flash"@
    ||| model == "deepseek-v4-flash-vision-exp"@
    ||| model == "mimo-v2.6-flash"@
    ||| model == "mimo-v2.6-pro"@
    ||| model == "mimo-v2.5"@
    ||| model == "mimo-v2.5-pro"@
    ||| model == "hy4-preview"@
    ||| model == "hy3"@
    ||| model == "space-bunny-free"@
    ||| model == "longcat-2.5-preview-free"@
}

/// The API in the published Go endpoint table.
pub open spec fn published_api(model: Seq<char>) -> Option<OpenCodeGoApi> {
    if speaks_responses(model) {
        Some(OpenCodeGoApi::Responses)
    } else if speaks_messages(model) {
        Some(OpenCodeGoApi::Messages)
    } else if speaks_chat_completions(model) {
        Some(OpenCodeGoApi::ChatCompletions)
    } else {
        None
    }
}

impl OpenCodeGoApi {
    /// Returns the API in the published Go endpoint table, or `None` for an unknown model.
    ///
    /// Unknown models require an explicit selection with [`OpenCodeGoConfig::with_api`].
    /// Source: <https://opencode.ai/docs/go/#endpoints>.
    pub fn for_model(model: &str) -> (api: Option<Self>)
        ensures
            api == published_api(model@),
    {
        if text::same_text(model, "grok-4.7")
            || text::same_text(model, "grok-4.6")
            || text::same_text(model, "gpt-6-luna")
            || text::same_text(model, "gpt-5.6-luna")
            || text::same_text(model, "muse-spark-1.3-contributor")
            || text::same_text(model, "muse-spark-1.2-contributor") {
            Some(OpenCodeGoApi::Responses)
        } else if text::same_text(model, "minimax-m3")
            || text::same_text(model, "minimax-m2.7")
            || text::same_text(model, "minimax-m2.5")
            || text::same_text(model, "qwen3.8-max")
            || text::same_text(model, "qwen3.8-flash")
            || text::same_text(model, "qwen3.7-max")
            || text::same_text(model, "qwen3.7-plus")
            || text::same_text(model, "qwen3.6-plus") {
            Some(OpenCodeGoApi::Messages)
        } else if text::same_text(model, "glm-5.3-flash")
            || text::same_text(model, "glm-5.3")
            || text::same_text(model, "glm-5.2")
            || text::same_text(model, "glm-5.1")
            || text::same_text(model, "kimi-k3")
            || text::same_text(model, "kimi-k2.7-code")
            || text::same_text(model, "kimi-k2.6")
            || text::same_text(model, "longcat-2.0")
            || text::same_text(model, "deepseek-v4.1-flash")
            || text::same_text(model, "deepseek-v4-pro")
            || text::same_text(model, "deepseek-v4-flash")
            || text::same_text(model, "deepseek-v4-flash-vision-exp")
            || text::same_text(model, "mimo-v2.6-flash")
            || text::same_text(model, "mimo-v2.6-pro")
            || text::same_text(model, "mimo-v2.5")
            || text::same_text(model, "mimo-v2.5-pro")
            || text::same_text(model, "hy4-preview")
            || text::same_text(model, "hy3")
            || text::same_text(model, "space-bunny-free")
            || text::same_text(model, "longcat-2.5-preview-free") {
            Some(OpenCodeGoApi::ChatCompletions)
        } else {
            None
        }
    }
}

/// The endpoint table is unambiguous: no model is listed under two APIs.
pub proof fn law_no_model_is_listed_twice(model: Seq<char>)
    ensures
        !(speaks_responses(model) && speaks_messages(model)),
        !(speaks_responses(model) && speaks_chat_completions(model)),
        !(speaks_messages(model) && speaks_chat_completions(model)),
{
    reveal_strlit("grok-4.7");
    reveal_strlit("grok-4.6");
    reveal_strlit("gpt-6-luna");
    reveal_strlit("gpt-5.6-luna");
    reveal_strlit("muse-spark-1.3-contributor");
    reveal_strlit("muse-spark-1.2-contributor");
    reveal_strlit("minimax-m3");
    reveal_strlit("minimax-m2.7");
    reveal_strlit("minimax-m2.5");
    reveal_strlit("qwen3.8-max");
    reveal_strlit("qwen3.8-flash");
    reveal_strlit("qwen3.7-max");
    reveal_strlit("qwen3.7-plus");
    reveal_strlit("qwen3.6-plus");
    reveal_strlit("glm-5.3-flash");
    reveal_strlit("glm-5.3");
    reveal_strlit("glm-5.2");
    reveal_strlit("glm-5.1");
    reveal_strlit("kimi-k3");
    reveal_strlit("kimi-k2.7-code");
    reveal_strlit("kimi-k2.6");
    reveal_strlit("longcat-2.0");
    reveal_strlit("deepseek-v4.1-flash");
    reveal_strlit("deepseek-v4-pro");
    reveal_strlit("deepseek-v4-flash");
    reveal_strlit("deepseek-v4-flash-vision-exp");
    reveal_strlit("mimo-v2.6-flash");
    reveal_strlit("mimo-v2.6-pro");
    reveal_strlit("mimo-v2.5");
    reveal_strlit("mimo-v2.5-pro");
    reveal_strlit("hy4-preview");
    reveal_strlit("hy3");
    reveal_strlit("space-bunny-free");
    reveal_strlit("longcat-2.5-preview-free");
    let (first, second, third) = (model[0], model[1], model[2]);
    assert(speaks_responses(model) ==> (first == 'g' && second != 'l') || second == 'u');
    assert(speaks_messages(model) ==> first == 'q' || (first == 'm' && third == 'n'));
    assert(speaks_chat_completions(model) ==> first != 'q' && second != 'u' && (first == 'm'
        ==> third == 'm') && (first == 'g' ==> second == 'l'));
}

/// An API is given only to a model that is listed under it, and to every such model; for a model
/// that is not listed none is guessed.
pub proof fn law_only_listed_models_have_an_api(model: Seq<char>)
    ensures
        published_api(model) == Some(OpenCodeGoApi::Responses) <==> seq![
            "grok-4.7"@,
            "grok-4.6"@,
            "gpt-6-luna"@,
            "gpt-5.6-luna"@,
            "muse-spark-1.3-contributor"@,
            "muse-spark-1.2-contributor"@,
        ].contains(model),
        published_api(model) == Some(OpenCodeGoApi::Messages) <==> seq![
            "minimax-m3"@,
            "minimax-m2.7"@,
            "minimax-m2.5"@,
            "qwen3.8-max"@,
            "qwen3.8-flash"@,
            "qwen3.7-max"@,
            "qwen3.7-plus"@,
            "qwen3.6-plus"@,
        ].contains(model),
        published_api(model) == Some(OpenCodeGoApi::ChatCompletions) <==> seq![
            "glm-5.3-flash"@,
            "glm-5.3"@,
            "glm-5.2"@,
            "glm-5.1"@,
            "kimi-k3"@,
            "kimi-k2.7-code"@,
            "kimi-k2.6"@,
            "longcat-2.0"@,
            "deepseek-v4.1-flash"@,
            "deepseek-v4-pro"@,
            "deepseek-v4-flash"@,
            "deepseek-v4-flash-vision-exp"@,
            "mimo-v2.6-flash"@,
            "mimo-v2.6-pro"@,
            "mimo-v2.5"@,
            "mimo-v2.5-pro"@,
            "hy4-preview"@,
            "hy3"@,
            "space-bunny-free"@,
            "longcat-2.5-preview-free"@,
        ].contains(model),
        published_api(model) == Some(OpenCodeGoApi::Responses) <==> speaks_responses(model),
        published_api(model) == Some(OpenCodeGoApi::Messages) <==> speaks_messages(model),
        published_api(model) == Some(OpenCodeGoApi::ChatCompletions) <==> speaks_chat_completions(
            model,
        ),
        published_api(model) is None <==> !speaks_responses(model) && !speaks_messages(model)
            && !speaks_chat_completions(model),
{
    law_no_model_is_listed_twice(model);
    let responses = seq![
        "grok-4.7"@,
        "grok-4.6"@,
        "gpt-6-luna"@,
        "gpt-5.6-luna"@,
        "muse-spark-1.3-contributor"@,
        "muse-spark-1.2-contributor"@,
    ];
    let messages = seq![
        "minimax-m3"@,
        "minimax-m2.7"@,
        "minimax-m2.5"@,
        "qwen3.8-max"@,
        "qwen3.8-flash"@,
        "qwen3.7-max"@,
        "qwen3.7-plus"@,
        "qwen3.6-plus"@,
    ];
    let chat = seq![
        "glm-5.3-flash"@,
        "glm-5.3"@,
        "glm-5.2"@,
        "glm-5.1"@,
        "kimi-k3"@,
        "kimi-k2.7-code"@,
        "kimi-k2.6"@,
        "longcat-2.0"@,
        "deepseek-v4.1-flash"@,
        "deepseek-v4-pro"@,
        "deepseek-v4-flash"@,
        "deepseek-v4-flash-vision-exp"@,
        "mimo-v2.6-flash"@,
        "mimo-v2.6-pro"@,
        "mimo-v2.5"@,
        "mimo-v2.5-pro"@,
        "hy4-preview"@,
        "hy3"@,
        "space-bunny-free"@,
        "longcat-2.5-preview-free"@,
    ];
    assert(responses[0] == "grok-4.7"@);
    assert(responses[1] == "grok-4.6"@);
    assert(responses[2] == "gpt-6-luna"@);
    assert(responses[3] == "gpt-5.6-luna"@);
    assert(responses[4] == "muse-spark-1.3-contributor"@);
    assert(responses[5] == "muse-spark-1.2-contributor"@);
    assert(messages[0] == "minimax-m3"@);
    assert(messages[1] == "minimax-m2.7"@);
    assert(messages[2] == "minimax-m2.5"@);
    assert(messages[3] == "qwen3.8-max"@);
    assert(messages[4] == "qwen3.8-flash"@);
    assert(messages[5] == "qwen3.7-max"@);
    assert(messages[6] == "qwen3.7-plus"@);
    assert(messages[7] == "qwen3.6-plus"@);
    assert(chat[0] == "glm-5.3-flash"@);
    assert(chat[1] == "glm-5.3"@);
    assert(chat[2] == "glm-5.2"@);
    assert(chat[3] == "glm-5.1"@);
    assert(chat[4] == "kimi-k3"@);
    assert(chat[5] == "kimi-k2.7-code"@);
    assert(chat[6] == "kimi-k2.6"@);
    assert(chat[7] == "longcat-2.0"@);
    assert(chat[8] == "deepseek-v4.1-flash"@);
    assert(chat[9] == "deepseek-v4-pro"@);
    assert(chat[10] == "deepseek-v4-flash"@);
    assert(chat[11] == "deepseek-v4-flash-vision-exp"@);
    assert(chat[12] == "mimo-v2.6-flash"@);
    assert(chat[13] == "mimo-v2.6-pro"@);
    assert(chat[14] == "mimo-v2.5"@);
    assert(chat[15] == "mimo-v2.5-pro"@);
    assert(chat[16] == "hy4-preview"@);
    assert(chat[17] == "hy3"@);
    assert(chat[18] == "space-bunny-free"@);
    assert(chat[19] == "longcat-2.5-preview-free"@);
}

/// `<String as From<&str>>::from`: the string made from a text holds that text.
pub assume_specification<'a>[ <String as From<&'a str>>::from ](source: &str) -> (string: String)
    ensures
        string@ == source@,
;

/// `<Value as From<Value>>::from`, the conversion of any type to itself: it returns its argument
/// unchanged.
pub assume_specification<Value>[ <Value as From<Value>>::from ](value: Value) -> (same: Value)
    ensures
        same == value,
;

/// What the `Debug` form of a text is: the text in quotes, with escapes.
pub uninterp spec fn debug_quoted(text: Seq<char>) -> Seq<char>;

/// The `Debug` form of `str`, through `format!`. Its escapes are not spelled out here.
#[verifier::external_body]
fn quoted(text: &str) -> (quoted: String)
    ensures
        quoted@ == debug_quoted(text@),
{
    format!("{:?}", text)
}

/// How an optional API reads in a debug representation.
pub open spec fn api_form(api: Option<OpenCodeGoApi>) -> Seq<char> {
    match api {
        None => "None"@,
        Some(OpenCodeGoApi::ChatCompletions) => "Some(ChatCompletions)"@,
        Some(OpenCodeGoApi::Responses) => "Some(Responses)"@,
        Some(OpenCodeGoApi::Messages) => "Some(Messages)"@,
    }
}

/// The debug representation of a config: its model, already quoted, and its API; the two dots
/// stand for everything else.
pub open spec fn debug_form(quoted_model: Seq<char>, api: Option<OpenCodeGoApi>) -> Seq<char> {
    "OpenCodeGoConfig { model: "@ + quoted_model + ", api: "@ + api_form(api) + ", .. }"@
}

/// The debug representation of a config whose model reads like this in quotes.
pub fn debug_text_of(quoted_model: &str, api: Option<OpenCodeGoApi>) -> (text: String)
    ensures
        text@ == debug_form(quoted_model@, api),
{
    let mut text: String = "OpenCodeGoConfig { model: ".to_string();
    text.append(quoted_model);
    text.append(", api: ");
    text.append(
        match api {
            None => "None",
            Some(OpenCodeGoApi::ChatCompletions) => "Some(ChatCompletions)",
            Some(OpenCodeGoApi::Responses) => "Some(Responses)",
            Some(OpenCodeGoApi::Messages) => "Some(Messages)",
        },
    );
    text.append(", .. }");
    text
}

/// Configuration for one OpenCode Go model and conversation.
///
/// Set the application's own user agent and reuse the session ID for all main
/// and auxiliary requests in the same conversation. Credentials are omitted
/// from the debug representation.
///
/// The option types of the underlying model clients are parameters: `O` is the reasoning effort
/// of OpenAI-compatible models, `H` the thinking mode and `A` the output effort of models using
/// Anthropic Messages, and `R` the retry policy. A config carries them unread.
pub struct OpenCodeGoConfig<O, H, A, R> {
    /// The account's key.
    pub api_key: String,
    /// The model's ID.
    pub model: String,
    /// Where requests go, including the `/v1` suffix.
    pub base_url: String,
    /// The API chosen explicitly, if any.
    pub api: Option<OpenCodeGoApi>,
    /// The calling application.
    pub user_agent: String,
    /// The conversation.
    pub session_id: String,
    /// Reasoning effort for Chat Completions or Responses models.
    pub reasoning_effort: Option<O>,
    /// Thinking for models using Anthropic Messages.
    pub thinking: Option<H>,
    /// Output effort for models using Anthropic Messages.
    pub anthropic_effort: Option<A>,
    /// The underlying model client's retry policy.
    pub retry: R,
}

/// The optional setting is a copy of the other.
pub open spec fn is_copy<S: Clone>(setting: Option<S>, copy: Option<S>) -> bool {
    match (setting, copy) {
        (Some(held), Some(copied)) => cloned(held, copied),
        (None, None) => true,
        _ => false,
    }
}

impl<O: Clone, H: Clone, A: Clone, R: Clone> Clone for OpenCodeGoConfig<O, H, A, R> {
    fn clone(&self) -> (copy: Self)
        ensures
            copy.api_key == self.api_key,
            copy.model == self.model,
            copy.base_url == self.base_url,
            copy.api == self.api,
            copy.user_agent == self.user_agent,
            copy.session_id == self.session_id,
            is_copy(self.reasoning_effort, copy.reasoning_effort),
            is_copy(self.thinking, copy.thinking),
            is_copy(self.anthropic_effort, copy.anthropic_effort),
            cloned(self.retry, copy.retry),
    {
        OpenCodeGoConfig {
            api_key: self.api_key.clone(),
            model: self.model.clone(),
            base_url: self.base_url.clone(),
            api: self.api,
            user_agent: self.user_agent.clone(),
            session_id: self.session_id.clone(),
            reasoning_effort: self.reasoning_effort.clone(),
            thinking: self.thinking.clone(),
            anthropic_effort: self.anthropic_effort.clone(),
            retry: self.retry.clone(),
        }
    }
}

impl<O, H, A, R: Default> OpenCodeGoConfig<O, H, A, R> {
    /// Creates a config with the official Go base URL and automatic API selection.
    pub fn new<K: Into<String>, M: Into<String>>(api_key: K, model: M) -> (config: Self)
        ensures
            call_ensures(K::into, (api_key,), config.api_key),
            call_ensures(M::into, (model,), config.model),
            config.base_url@ == "https://opencode.ai/zen/go/v1"@,
            config.api is None,
            config.user_agent@ == Seq::<char>::empty(),
            config.session_id@ == Seq::<char>::empty(),
            config.reasoning_effort is None,
            config.thinking is None,
            config.anthropic_effort is None,
            call_ensures(R::default, (), config.retry),
    {
        OpenCodeGoConfig {
            api_key: api_key.into(),
            model: model.into(),
            base_url: String::from("https://opencode.ai/zen/go/v1"),
            api: None,
            user_agent: String::new(),
            session_id: String::new(),
            reasoning_effort: None,
            thinking: None,
            anthropic_effort: None,
            retry: R::default(),
        }
    }
}

impl<O, H, A, R> OpenCodeGoConfig<O, H, A, R> {
    /// Sets the API explicitly, including for models added after this library release.
    pub fn with_api(self, api: OpenCodeGoApi) -> (config: Self)
        ensures
            config == (OpenCodeGoConfig { api: Some(api), ..self }),
    {
        OpenCodeGoConfig { api: Some(api), ..self }
    }

    /// Sets a proxy or test endpoint including its `/v1` suffix.
    pub fn with_base_url<S: Into<String>>(self, base_url: S) -> (config: Self)
        ensures
            call_ensures(S::into, (base_url,), config.base_url),
            config == (OpenCodeGoConfig { base_url: config.base_url, ..self }),
    {
        OpenCodeGoConfig { base_url: base_url.into(), ..self }
    }

    /// Identifies the calling coding application, such as `my-coding-agent/1.0`.
    pub fn with_user_agent<S: Into<String>>(self, user_agent: S) -> (config: Self)
        ensures
            call_ensures(S::into, (user_agent,), config.user_agent),
            config == (OpenCodeGoConfig { user_agent: config.user_agent, ..self }),
    {
        OpenCodeGoConfig { user_agent: user_agent.into(), ..self }
    }

    /// Sets the stable conversation ID sent as `x-opencode-session`.
    pub fn with_session_id<S: Into<String>>(self, session_id: S) -> (config: Self)
        ensures
            call_ensures(S::into, (session_id,), config.session_id),
            config == (OpenCodeGoConfig { session_id: config.session_id, ..self }),
    {
        OpenCodeGoConfig { session_id: session_id.into(), ..self }
    }

    /// Sets reasoning effort for Chat Completions or Responses models.
    ///
    /// Messages models use [`Self::with_anthropic_effort`] instead.
    pub fn with_reasoning_effort(self, effort: O) -> (config: Self)
        ensures
            config == (OpenCodeGoConfig { reasoning_effort: Some(effort), ..self }),
    {
        OpenCodeGoConfig { reasoning_effort: Some(effort), ..self }
    }

    /// Sets thinking for models using Anthropic Messages.
    pub fn with_anthropic_thinking(self, thinking: H) -> (config: Self)
        ensures
            config == (OpenCodeGoConfig { thinking: Some(thinking), ..self }),
    {
        OpenCodeGoConfig { thinking: Some(thinking), ..self }
    }

    /// Sets output effort for models using Anthropic Messages.
    pub fn with_anthropic_effort(self, effort: A) -> (config: Self)
        ensures
            config == (OpenCodeGoConfig { anthropic_effort: Some(effort), ..self }),
    {
        OpenCodeGoConfig { anthropic_effort: Some(effort), ..self }
    }

    /// Sets the underlying model client's retry policy.
    pub fn with_retry_config(self, retry: R) -> (config: Self)
        ensures
            config == (OpenCodeGoConfig { retry, ..self }),
    {
        OpenCodeGoConfig { retry, ..self }
    }

    /// What the debug representation says of this config.
    pub open spec fn shown(self) -> Seq<char> {
        debug_form(debug_quoted(self.model@), self.api)
    }

    /// The debug representation: the model and the API, and no credentials.
    pub fn debug_text(&self) -> (text: String)
        ensures
            text@ == self.shown(),
    {
        let quoted_model: String = quoted(self.model.as_str());
        debug_text_of(quoted_model.as_str(), self.api)
    }
}

/// The debug representation shows the model, in quotes, and the API, as they are, and two dots
/// for all the rest.
pub proof fn law_debug_shows_the_model_and_the_api<O, H, A, R>(
    config: OpenCodeGoConfig<O, H, A, R>,
)
    ensures
        config.shown() == "OpenCodeGoConfig { model: "@ + debug_quoted(config.model@) + ", api: "@
            + (match config.api {
            None => "None"@,
            Some(OpenCodeGoApi::ChatCompletions) => "Some(ChatCompletions)"@,
            Some(OpenCodeGoApi::Responses) => "Some(Responses)"@,
            Some(OpenCodeGoApi::Messages) => "Some(Messages)"@,
        }) + ", .. }"@,
        config.shown() == debug_form(debug_quoted(config.model@), config.api),
{
}

/// The debug representation has the quoted model in it as it is, between fixed words, and tells
/// the APIs apart.
pub proof fn law_debug_form_is_faithful(
    quoted_model: Seq<char>,
    other_model: Seq<char>,
    api: Option<OpenCodeGoApi>,
    other_api: Option<OpenCodeGoApi>,
)
    ensures
        debug_form(quoted_model, api) == "OpenCodeGoConfig { model: "@ + quoted_model + ", api: "@
            + (match api {
            None => "None"@,
            Some(OpenCodeGoApi::ChatCompletions) => "Some(ChatCompletions)"@,
            Some(OpenCodeGoApi::Responses) => "Some(Responses)"@,
            Some(OpenCodeGoApi::Messages) => "Some(Messages)"@,
        }) + ", .. }"@,
        api_form(api) == api_form(other_api) <==> api == other_api,
        debug_form(quoted_model, api) == debug_form(other_model, api) <==> quoted_model
            == other_model,
{
    reveal_strlit("None");
    reveal_strlit("Some(ChatCompletions)");
    reveal_strlit("Some(Responses)");
    reveal_strlit("Some(Messages)");
    if api_form(api) == api_form(other_api) {
        assert(api_form(api).len() == api_form(other_api).len());
    }
    let intro = "OpenCodeGoConfig { model: "@;
    let (left, right) = (debug_form(quoted_model, api), debug_form(other_model, api));
    if left == right {
        let rest = ", api: "@ + api_form(api) + ", .. }"@;
        assert(left =~= intro + quoted_model + rest);
        assert(right =~= intro + other_model + rest);
        assert(left.len() == intro.len() + quoted_model.len() + rest.len());
        assert(right.len() == intro.len() + other_model.len() + rest.len());
        let start = intro.len() as int;
        let end = start + quoted_model.len();
        assert(quoted_model =~= left.subrange(start, end));
        assert(other_model =~= right.subrange(start, end));
    }
}

/// A copy of an optional setting is there exactly when the setting is, and is then a copy of it.
pub proof fn law_a_copied_setting_is_there_when_the_setting_is<S: Clone>(
    setting: Option<S>,
    copy: Option<S>,
)
    requires
        is_copy(setting, copy),
    ensures
        setting is Some <==> copy is Some,
        setting is Some ==> cloned(setting->0, copy->0),
{
}

/// Credentials are omitted from the debug representation: it tells apart no two configs of the
/// same model and API, whatever their keys, endpoints, user agents and conversations.
pub proof fn law_debug_omits_credentials<O, H, A, R>(
    config: OpenCodeGoConfig<O, H, A, R>,
    other: OpenCodeGoConfig<O, H, A, R>,
)
    requires
        config.model@ == other.model@,
        config.api == other.api,
    ensures
        config.shown() == other.shown(),
{
}

} // verus!
