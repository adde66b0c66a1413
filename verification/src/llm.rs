//! Language-model client settings and the mock completion.
//!
//! The client records which provider, endpoint, key and model a planner
//! uses. Only the mock provider answers; every other provider reports that
//! remote calls are not available.
use vstd::prelude::*;
use crate::error::AgentError;
use crate::text::{own, push_str};

verus! {

/// The DeepSeek chat-completions endpoint used by default.
pub const DEFAULT_DEEPSEEK_ENDPOINT: &'static str = "https://api.deepseek.com/v1/chat/completions";

/// The DeepSeek model used by default.
pub const DEFAULT_DEEPSEEK_MODEL: &'static str = "deepseek-v4-pro";

/// The OpenAI chat-completions endpoint.
pub const OPENAI_ENDPOINT: &'static str = "https://api.openai.com/v1/chat/completions";

/// The OpenAI model used by default.
pub const DEFAULT_OPENAI_MODEL: &'static str = "gpt-4o";

/// The model name of the mock client.
pub const MOCK_MODEL: &'static str = "mock-model";

/// Token count the mock completion reports.
pub const MOCK_TOKENS_USED: u32 = 42;

/// Which service answers completions.
#[derive(Debug, Clone, PartialEq, Eq)]
pub enum LLMProvider {
    OpenAI,
    DeepSeek,
    LlamaCpp,
    Custom(String),
    Mock,
}

/// The role of a chat message.
#[derive(Debug, Clone, Copy, PartialEq, Eq)]
pub enum Role {
    System,
    User,
    Assistant,
}

/// One chat message.
#[derive(Debug, Clone)]
pub struct ChatMessage {
    pub role: Role,
    pub content: String,
}

/// The answer to a completion request.
#[derive(Debug, Clone)]
pub struct ChatCompletionResponse {
    pub content: String,
    pub tokens_used: Option<u32>,
    pub model: String,
    pub truncated: bool,
}

/// A language-model client: provider, endpoint, optional key and model.
#[derive(Debug)]
pub struct LLMClient {
    provider: LLMProvider,
    endpoint: String,
    api_key: Option<String>,
    model: String,
}

/// The model of a provider, with a custom endpoint as its characters.
pub enum ProviderKind {
    OpenAI,
    DeepSeek,
    LlamaCpp,
    Custom(Seq<char>),
    Mock,
}

/// The model of a provider.
pub open spec fn provider_kind(p: LLMProvider) -> ProviderKind {
    match p {
        LLMProvider::OpenAI => ProviderKind::OpenAI,
        LLMProvider::DeepSeek => ProviderKind::DeepSeek,
        LLMProvider::LlamaCpp => ProviderKind::LlamaCpp,
        LLMProvider::Custom(s) => ProviderKind::Custom(s@),
        LLMProvider::Mock => ProviderKind::Mock,
    }
}

/// The model of a client.
pub struct ClientView {
    pub provider: ProviderKind,
    pub endpoint: Seq<char>,
    pub api_key: Option<Seq<char>>,
    pub model: Seq<char>,
}

/// The model of an optional string.
pub open spec fn opt_chars(o: Option<String>) -> Option<Seq<char>> {
    match o {
        Some(s) => Some(s@),
        None => None,
    }
}

impl View for LLMClient {
    type V = ClientView;

    closed spec fn view(&self) -> ClientView {
        ClientView {
            provider: provider_kind(self.provider),
            endpoint: self.endpoint@,
            api_key: opt_chars(self.api_key),
            model: self.model@,
        }
    }
}

/// How a provider is named in messages.
pub open spec fn provider_label(p: ProviderKind) -> Seq<char> {
    match p {
        ProviderKind::OpenAI => "OpenAI"@,
        ProviderKind::DeepSeek => "DeepSeek"@,
        ProviderKind::LlamaCpp => "LlamaCpp"@,
        ProviderKind::Custom(s) => "Custom(\""@ + s + "\")"@,
        ProviderKind::Mock => "Mock"@,
    }
}

/// The content of the last message, empty when there is none.
pub open spec fn last_content(msgs: Seq<ChatMessage>) -> Seq<char> {
    if msgs.len() == 0 {
        Seq::empty()
    } else {
        msgs.last().content@
    }
}

/// What the mock completion answers to a last message.
pub open spec fn mock_reply(last: Seq<char>) -> Seq<char> {
    "[Mock LLM 响应] 已收到您的消息: \""@ + last + "\""@
}

/// What a provider other than the mock reports.
pub open spec fn unavailable_message(p: ProviderKind, endpoint: Seq<char>) -> Seq<char> {
    "LLM 调用尚未实现，当前仅支持 Mock 模式。提供者: "@ + provider_label(p) + "，端点: "@ + endpoint
}

fn label_of(p: &LLMProvider) -> (r: String)
    ensures
        r@ == provider_label(provider_kind(*p)),
{
    match p {
        LLMProvider::OpenAI => own("OpenAI"),
        LLMProvider::DeepSeek => own("DeepSeek"),
        LLMProvider::LlamaCpp => own("LlamaCpp"),
        LLMProvider::Custom(s) => {
            let mut r = own("Custom(\"");
            push_str(&mut r, s.as_str());
            push_str(&mut r, "\")");
            r
        },
        LLMProvider::Mock => own("Mock"),
    }
}

/// `s` without the slashes it ends with.
pub open spec fn strip_trailing_slashes(s: Seq<char>) -> Seq<char>
    decreases s.len(),
{
    if s.len() > 0 && s.last() == '/' {
        strip_trailing_slashes(s.drop_last())
    } else {
        s
    }
}

impl LLMClient {
    /// A client with the given settings.
    pub fn new(provider: LLMProvider, endpoint: String, api_key: Option<String>, model: String) -> (c:
        Self)
        ensures
            c@.provider == provider_kind(provider),
            c@.endpoint == endpoint@,
            c@.api_key == opt_chars(api_key),
            c@.model == model@,
    {
        LLMClient { provider, endpoint, api_key, model }
    }

    /// The mock client: no endpoint, no key, the mock model.
    pub fn mock() -> (c: Self)
        ensures
            c@.provider == ProviderKind::Mock,
            c@.endpoint == Seq::<char>::empty(),
            c@.api_key is None,
            c@.model == MOCK_MODEL@,
    {
        LLMClient { provider: LLMProvider::Mock, endpoint: String::new(), api_key: None, model: own(MOCK_MODEL) }
    }

    /// An OpenAI client; the model defaults to `gpt-4o`.
    pub fn openai(api_key: String, model: Option<String>) -> (c: Self)
        ensures
            c@.provider == ProviderKind::OpenAI,
            c@.endpoint == OPENAI_ENDPOINT@,
            c@.api_key == Some(api_key@),
            c@.model == match model {
                Some(m) => m@,
                None => DEFAULT_OPENAI_MODEL@,
            },
    {
        let model = match model {
            Some(m) => m,
            None => own(DEFAULT_OPENAI_MODEL),
        };
        LLMClient { provider: LLMProvider::OpenAI, endpoint: own(OPENAI_ENDPOINT), api_key: Some(api_key), model }
    }

    /// A client for an OpenAI-compatible service: the chat completions path
    /// under `api_base_url` (trailing slashes dropped), OpenAI's endpoint
    /// when no base is given; the model defaults to `gpt-4o`.
    pub fn openai_compatible(api_key: String, model: Option<String>, api_base_url: Option<String>) -> (c: Self)
        ensures
            c@.provider == ProviderKind::OpenAI,
            c@.endpoint == match api_base_url {
                Some(b) => strip_trailing_slashes(b@) + "/chat/completions"@,
                None => OPENAI_ENDPOINT@,
            },
            c@.api_key == Some(api_key@),
            c@.model == match model {
                Some(m) => m@,
                None => DEFAULT_OPENAI_MODEL@,
            },
    {
        let model = match model {
            Some(m) => m,
            None => own(DEFAULT_OPENAI_MODEL),
        };
        let endpoint = match api_base_url {
            Some(b) => {
                let cs = crate::text::chars_of(b.as_str());
                let mut e: usize = cs.len();
                assert(cs@.take(e as int) =~= b@);
                while e > 0 && cs[e - 1] == '/'
                    invariant
                        e <= cs@.len(),
                        cs@ == b@,
                        forall|j: int| e <= j < cs@.len() ==> cs@[j] == '/',
                        strip_trailing_slashes(b@) == strip_trailing_slashes(cs@.take(e as int)),
                    decreases e,
                {
                    proof {
                        assert(cs@.take(e as int).drop_last() =~= cs@.take(e - 1));
                    }
                    e -= 1;
                }
                proof {
                    if e > 0 {
                        assert(cs@.take(e as int).last() == cs@[e - 1]);
                    }
                }
                let mut out = crate::text::string_of_range(&cs, 0, e);
                push_str(&mut out, "/chat/completions");
                out
            },
            None => own(OPENAI_ENDPOINT),
        };
        LLMClient { provider: LLMProvider::OpenAI, endpoint, api_key: Some(api_key), model }
    }

    /// A DeepSeek client on the default endpoint; the model defaults to
    /// `DEFAULT_DEEPSEEK_MODEL`.
    pub fn deepseek(api_key: String, model: Option<String>) -> (c: Self)
        ensures
            c@.provider == ProviderKind::DeepSeek,
            c@.endpoint == DEFAULT_DEEPSEEK_ENDPOINT@,
            c@.api_key == Some(api_key@),
            c@.model == match model {
                Some(m) => m@,
                None => DEFAULT_DEEPSEEK_MODEL@,
            },
    {
        let model = match model {
            Some(m) => m,
            None => own(DEFAULT_DEEPSEEK_MODEL),
        };
        LLMClient {
            provider: LLMProvider::DeepSeek,
            endpoint: own(DEFAULT_DEEPSEEK_ENDPOINT),
            api_key: Some(api_key),
            model,
        }
    }

    /// The provider.
    pub fn provider(&self) -> (p: &LLMProvider)
        ensures
            provider_kind(*p) == self@.provider,
    {
        &self.provider
    }

    /// The model name.
    pub fn model(&self) -> (m: &str)
        ensures
            m@ == self@.model,
    {
        self.model.as_str()
    }

    /// The endpoint.
    pub fn endpoint(&self) -> (e: &str)
        ensures
            e@ == self@.endpoint,
    {
        self.endpoint.as_str()
    }

    /// The API key, if one is set.
    pub fn api_key(&self) -> (k: Option<&str>)
        ensures
            match k {
                Some(s) => self@.api_key == Some(s@),
                None => self@.api_key is None,
            },
    {
        match &self.api_key {
            Some(s) => Some(s.as_str()),
            None => None,
        }
    }

    /// Answers a conversation. The mock provider echoes the last message,
    /// reports 42 tokens and its model; every other provider fails with an
    /// `LlmError` naming the provider and the endpoint.
    pub fn complete(&self, messages: &Vec<ChatMessage>) -> (r: Result<ChatCompletionResponse, AgentError>)
        ensures
            self@.provider is Mock ==> (r matches Ok(resp) && resp.content@ == mock_reply(
                last_content(messages@),
            ) && resp.tokens_used == Some(MOCK_TOKENS_USED) && resp.model@ == self@.model
                && !resp.truncated),
            !(self@.provider is Mock) ==> (r matches Err(AgentError::LlmError(m)) && m@
                == unavailable_message(self@.provider, self@.endpoint)),
    {
        match &self.provider {
            LLMProvider::Mock => {
                let mut content = own("[Mock LLM 响应] 已收到您的消息: \"");
                if messages.len() > 0 {
                    push_str(&mut content, messages[messages.len() - 1].content.as_str());
                }
                push_str(&mut content, "\"");
                proof {
                    if messages@.len() == 0 {
                        assert(content@ =~= mock_reply(last_content(messages@)));
                    }
                }
                Ok(
                    ChatCompletionResponse {
                        content,
                        tokens_used: Some(MOCK_TOKENS_USED),
                        model: own(self.model.as_str()),
                        truncated: false,
                    },
                )
            },
            _ => {
                let mut m = own("LLM 调用尚未实现，当前仅支持 Mock 模式。提供者: ");
                let label = label_of(&self.provider);
                push_str(&mut m, label.as_str());
                push_str(&mut m, "，端点: ");
                push_str(&mut m, self.endpoint.as_str());
                Err(AgentError::LlmError(m))
            },
        }
    }
}

} // verus!
