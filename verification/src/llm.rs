use vstd::prelude::*;
use crate::strmap::str_eq;

verus! {

/// Marker type for the Ollama provider.
pub struct Ollama;

/// Marker type for the DeepSeek provider.
pub struct DeepSeek;

/// Marker type for the Gemini provider.
pub struct Gemini;

/// Marker indicating a provider is enabled.
#[derive(Clone, Copy, Debug, PartialEq, Eq)]
pub struct Enabled;

/// Marker indicating a provider is disabled.
#[derive(Clone, Copy, Debug, PartialEq, Eq)]
pub struct Disabled;

/// Provider state container: each type parameter tracks whether a provider
/// is configured on a client.
pub struct Providers<OllamaState, DeepSeekState, GeminiState> {
    _ollama: core::marker::PhantomData<OllamaState>,
    _deepseek: core::marker::PhantomData<DeepSeekState>,
    _gemini: core::marker::PhantomData<GeminiState>,
}

/// Whether a provider is available on a client in the given state.
pub trait HasProvider<Provider> {
}

impl<D, G> HasProvider<Ollama> for Providers<Enabled, D, G> {
}

impl<O, G> HasProvider<DeepSeek> for Providers<O, Enabled, G> {
}

impl<O, D> HasProvider<Gemini> for Providers<O, D, Enabled> {
}

/// Configuration for the Ollama provider.
#[derive(Clone, Debug)]
pub struct OllamaConfig {
    pub host: String,
    pub default_model: String,
}

impl Default for OllamaConfig {
    fn default() -> (r: Self)
        ensures
            r.host@ == "http://localhost:11434"@,
            r.default_model@ == "phi4"@,
    {
        OllamaConfig {
            host: "http://localhost:11434".to_owned(),
            default_model: "phi4".to_owned(),
        }
    }
}

/// Configuration for the DeepSeek provider.
#[derive(Clone, Debug)]
pub struct DeepSeekConfig {
    pub api_key: String,
    pub base_url: String,
    pub default_model: String,
}

impl Default for DeepSeekConfig {
    fn default() -> (r: Self)
        ensures
            r.api_key@ == Seq::<char>::empty(),
            r.base_url@ == "https://api.deepseek.com"@,
            r.default_model@ == "deepseek-reasoner"@,
    {
        DeepSeekConfig {
            api_key: String::new(),
            base_url: "https://api.deepseek.com".to_owned(),
            default_model: "deepseek-reasoner".to_owned(),
        }
    }
}

/// Configuration for the Gemini provider.
#[derive(Clone, Debug)]
pub struct GeminiConfig {
    pub api_key: String,
    pub base_url: String,
    pub default_model: String,
}

impl Default for GeminiConfig {
    fn default() -> (r: Self)
        ensures
            r.api_key@ == Seq::<char>::empty(),
            r.base_url@ == "https://generativelanguage.googleapis.com"@,
            r.default_model@ == "gemini-3-flash-preview"@,
    {
        GeminiConfig {
            api_key: String::new(),
            base_url: "https://generativelanguage.googleapis.com".to_owned(),
            default_model: "gemini-3-flash-preview".to_owned(),
        }
    }
}

/// A plain snapshot of the model lists a client has fetched from each
/// provider, used to validate a requested model name before a call.
pub struct ModelCache {
    pub ollama: Option<Vec<String>>,
    pub deepseek: Option<Vec<String>>,
    pub gemini: Option<Vec<String>>,
}

/// A message in DeepSeek's chat format.
#[derive(Debug)]
pub struct DeepSeekMessage {
    pub role: String,
    pub content: String,
}

impl DeepSeekMessage {
    pub fn system(content: &str) -> (r: Self)
        ensures
            r.role@ == "system"@,
            r.content@ == content@,
    {
        DeepSeekMessage { role: "system".to_owned(), content: content.to_owned() }
    }

    pub fn user(content: &str) -> (r: Self)
        ensures
            r.role@ == "user"@,
            r.content@ == content@,
    {
        DeepSeekMessage { role: "user".to_owned(), content: content.to_owned() }
    }

    pub fn assistant(content: &str) -> (r: Self)
        ensures
            r.role@ == "assistant"@,
            r.content@ == content@,
    {
        DeepSeekMessage { role: "assistant".to_owned(), content: content.to_owned() }
    }
}

/// Response from DeepSeek chat completions.
#[derive(Debug)]
pub struct DeepSeekResponse {
    pub id: String,
    pub object: String,
    pub created: u64,
    pub model: String,
    pub choices: Vec<DeepSeekChoice>,
    pub usage: DeepSeekUsage,
}

#[derive(Debug)]
pub struct DeepSeekChoice {
    pub index: u32,
    pub message: DeepSeekMessage,
    pub finish_reason: String,
}

#[derive(Debug)]
pub struct DeepSeekUsage {
    pub prompt_tokens: u32,
    pub completion_tokens: u32,
    pub total_tokens: u32,
}

/// Model information from DeepSeek.
#[derive(Debug)]
pub struct DeepSeekModel {
    pub id: String,
}

/// One part of a Gemini content block.
#[derive(Debug)]
pub struct GeminiPart {
    pub text: Option<String>,
}

/// A content block in Gemini's chat format.
#[derive(Debug)]
pub struct GeminiContent {
    pub role: Option<String>,
    pub parts: Vec<GeminiPart>,
}

impl GeminiContent {
    pub fn user(text: &str) -> (r: Self)
        ensures
            r.role.deep_view() == Some("user"@),
            r.parts@.len() == 1,
            r.parts@[0].text.deep_view() == Some(text@),
    {
        GeminiContent {
            role: Some("user".to_owned()),
            parts: vec![GeminiPart { text: Some(text.to_owned()) }],
        }
    }

    pub fn model(text: &str) -> (r: Self)
        ensures
            r.role.deep_view() == Some("model"@),
            r.parts@.len() == 1,
            r.parts@[0].text.deep_view() == Some(text@),
    {
        GeminiContent {
            role: Some("model".to_owned()),
            parts: vec![GeminiPart { text: Some(text.to_owned()) }],
        }
    }

    /// System instructions carry no role.
    pub fn system(text: &str) -> (r: Self)
        ensures
            r.role is None,
            r.parts@.len() == 1,
            r.parts@[0].text.deep_view() == Some(text@),
    {
        GeminiContent { role: None, parts: vec![GeminiPart { text: Some(text.to_owned()) }] }
    }
}

/// Response from Gemini content generation.
#[derive(Debug)]
pub struct GeminiResponse {
    pub candidates: Vec<GeminiCandidate>,
    pub usage_metadata: Option<GeminiUsageMetadata>,
}

#[derive(Debug)]
pub struct GeminiCandidate {
    pub content: GeminiContent,
    pub finish_reason: Option<String>,
    pub safety_ratings: Vec<GeminiSafetyRating>,
}

#[derive(Debug)]
pub struct GeminiSafetyRating {
    pub category: String,
    pub probability: String,
}

#[derive(Debug)]
pub struct GeminiUsageMetadata {
    pub prompt_token_count: u32,
    pub candidates_token_count: u32,
    pub total_token_count: u32,
}

/// Model information from Gemini.
#[derive(Debug)]
pub struct GeminiModel {
    pub name: String,
    pub version: String,
    pub display_name: String,
}

/// A response from Ollama's generate endpoint. The creation time is carried
/// as the text the provider sent.
#[derive(Debug)]
pub struct OllamaResponse {
    pub model: String,
    pub created_at: String,
    pub response: String,
    pub done: bool,
    pub done_reason: String,
    pub context: Vec<u32>,
    pub total_duration: u64,
    pub load_duration: u64,
    pub prompt_eval_count: u32,
    pub prompt_eval_duration: u64,
    pub eval_count: u32,
    pub eval_duration: u64,
}

/// What can go wrong when talking to a provider. The transport and
/// serialization variants carry the text of the underlying failure.
#[derive(Debug)]
pub enum LLMError {
    HttpError(String),
    OllamaError(String),
    DeepSeekError(String),
    GeminiError(String),
    SerializationError(String),
    ProviderNotConfigured(String),
    InvalidResponse(String),
    InvalidModel(String),
}

impl LLMError {
    /// A readable rendering of the failure.
    pub fn message(&self) -> (r: String)
        ensures
            match self {
                LLMError::HttpError(s) => r@ == "HTTP request error: "@ + s@,
                LLMError::OllamaError(s) => r@ == "Ollama error: "@ + s@,
                LLMError::DeepSeekError(s) => r@ == "DeepSeek error: "@ + s@,
                LLMError::GeminiError(s) => r@ == "Gemini error: "@ + s@,
                LLMError::SerializationError(s) => r@ == "Serialization error: "@ + s@,
                LLMError::ProviderNotConfigured(s) => r@ == "Provider not configured: "@ + s@,
                LLMError::InvalidResponse(s) => r@ == "Invalid response: "@ + s@,
                LLMError::InvalidModel(s) => r@ == "Invalid model: "@ + s@,
            },
    {
        match self {
            LLMError::HttpError(s) => "HTTP request error: ".to_owned().concat(s.as_str()),
            LLMError::OllamaError(s) => "Ollama error: ".to_owned().concat(s.as_str()),
            LLMError::DeepSeekError(s) => "DeepSeek error: ".to_owned().concat(s.as_str()),
            LLMError::GeminiError(s) => "Gemini error: ".to_owned().concat(s.as_str()),
            LLMError::SerializationError(s) => "Serialization error: ".to_owned().concat(
                s.as_str(),
            ),
            LLMError::ProviderNotConfigured(s) => "Provider not configured: ".to_owned().concat(
                s.as_str(),
            ),
            LLMError::InvalidResponse(s) => "Invalid response: ".to_owned().concat(s.as_str()),
            LLMError::InvalidModel(s) => "Invalid model: ".to_owned().concat(s.as_str()),
        }
    }
}

/// The model a completion uses: the explicit request wins over the
/// configured default.
pub fn resolve_model(requested: Option<String>, default_model: &String) -> (r: String)
    ensures
        match requested {
            Some(m) => r@ == m@,
            None => r@ == default_model@,
        },
{
    match requested {
        Some(m) => m,
        None => default_model.clone(),
    }
}

/// Whether some entry of the list reads as the given model name.
pub open spec fn list_has_model(list: Seq<String>, model: Seq<char>) -> bool {
    exists|i: int| #![trigger list[i]] 0 <= i && i < list.len() && list[i]@ == model
}

/// Checks a chosen model against a fetched model list: with no list at hand
/// nothing can be validated and the call proceeds; with a list, the model
/// must be on it, or the call is refused before any request is sent.
pub fn validate_model_choice(known: &Option<Vec<String>>, model: &String) -> (r: Result<
    (),
    LLMError,
>)
    ensures
        match known {
            None => r is Ok,
            Some(list) => {
                &&& r is Ok <==> list_has_model(list@, model@)
                &&& r matches Err(e) ==> e matches LLMError::InvalidModel(m) && m@ == model@
            },
        },
{
    match known {
        None => Ok(()),
        Some(list) => {
            if contains_model(list, model) {
                Ok(())
            } else {
                Err(LLMError::InvalidModel(model.clone()))
            }
        },
    }
}

/// Whether the list carries an entry reading as the given model name.
fn contains_model(list: &Vec<String>, model: &String) -> (r: bool)
    ensures
        r == list_has_model(list@, model@),
{
    let mut i: usize = 0;
    while i < list.len()
        invariant
            i <= list@.len(),
            forall|j: int| 0 <= j < i as int ==> list@[j]@ != model@,
        decreases list@.len() - i,
    {
        if str_eq(list[i].as_str(), model) {
            proof {
                let w: int = i as int;
                assert(0 <= w && w < list@.len() && list@[w]@ == model@);
            }
            return true;
        }
        i = i + 1;
    }
    false
}

/// Which provider a typestate-erased completion goes to: the first
/// configured one, in the fixed order DeepSeek, Gemini, Ollama.
#[derive(Debug, Clone, Copy, PartialEq, Eq)]
pub enum ProviderChoice {
    UseDeepSeek,
    UseGemini,
    UseOllama,
}

pub fn choose_provider(has_deepseek: bool, has_gemini: bool, has_ollama: bool) -> (r: Option<
    ProviderChoice,
>)
    ensures
        r == (if has_deepseek {
            Some(ProviderChoice::UseDeepSeek)
        } else if has_gemini {
            Some(ProviderChoice::UseGemini)
        } else if has_ollama {
            Some(ProviderChoice::UseOllama)
        } else {
            None::<ProviderChoice>
        }),
{
    if has_deepseek {
        Some(ProviderChoice::UseDeepSeek)
    } else if has_gemini {
        Some(ProviderChoice::UseGemini)
    } else if has_ollama {
        Some(ProviderChoice::UseOllama)
    } else {
        None
    }
}

} // verus!
