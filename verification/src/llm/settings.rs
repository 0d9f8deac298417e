//! The request settings that the language-model clients are built with.
use vstd::prelude::*;

use crate::config::LlmConfig;
use crate::text::{trim, trim_end_char, trim_end_char_string, trim_string};

verus! {

/// The view of an optional string field.
pub open spec fn field_view(o: Option<String>) -> Option<Seq<char>> {
    match o {
        Some(s) => Some(s@),
        None => None,
    }
}

/// An optional setting that is present and not empty.
pub open spec fn given(o: Option<Seq<char>>) -> Option<Seq<char>> {
    match o {
        Some(s) => if s.len() > 0 {
            Some(s)
        } else {
            None
        },
        None => None,
    }
}

fn given_exec(o: &Option<String>) -> (r: Option<String>)
    ensures
        field_view(r) == given(field_view(*o)),
{
    match o {
        Some(s) => if s.as_str().unicode_len() > 0 {
            Some(s.clone())
        } else {
            None
        },
        None => None,
    }
}

/// The model that answers image prompts: the vision model when one is set, else the main
/// model.
pub fn ollama_vision_model(llm: &LlmConfig) -> (r: String)
    ensures
        r@ == match given(field_view(llm.vision_model)) {
            Some(v) => v,
            None => llm.ollama_model@,
        },
{
    match given_exec(&llm.vision_model) {
        Some(v) => v,
        None => llm.ollama_model.clone(),
    }
}

/// What an OpenAI-compatible client is built with.
#[derive(Debug, Clone)]
pub struct OpenAiSettings {
    /// The server's base URL without trailing `/`.
    pub base_url: String,
    pub api_key: String,
    pub model: String,
    /// Sampling temperature, in decimal notation.
    pub temperature: String,
    pub max_tokens: u32,
    pub disable_thinking: bool,
    pub timeout_secs: u64,
}

/// Why a client could not be built.
#[derive(Debug, Clone, Copy, PartialEq, Eq, Structural)]
pub enum LlmSetupError {
    /// `llm.openai_base_url` is missing or empty.
    MissingBaseUrl,
}

impl LlmSetupError {
    /// The message shown for the error.
    pub fn message(&self) -> (r: &'static str)
        ensures
            r@ == "llm.openai_base_url is required when llm.backend = \"openai\" (e.g. http://192.168.1.167:8000/v1 for vLLM)"@,
    {
        "llm.openai_base_url is required when llm.backend = \"openai\" (e.g. http://192.168.1.167:8000/v1 for vLLM)"
    }
}

/// The settings of an OpenAI-compatible client: the base URL is required; the model
/// falls back to the Ollama model and the key to `not-needed`; at most 4096 tokens.
pub fn openai_settings(llm: &LlmConfig) -> (r: Result<OpenAiSettings, LlmSetupError>)
    ensures
        given(field_view(llm.openai_base_url)) is None <==> r is Err,
        r matches Ok(s) ==> {
            &&& s.base_url@ == trim_end_char(given(field_view(llm.openai_base_url))->0, '/')
            &&& s.model@ == match given(field_view(llm.openai_model)) {
                Some(m) => m,
                None => llm.ollama_model@,
            }
            &&& s.api_key@ == match given(field_view(llm.openai_api_key)) {
                Some(k) => k,
                None => "not-needed"@,
            }
            &&& s.temperature@ == llm.temperature@
            &&& s.max_tokens == if llm.n_ctx < 4096 {
                llm.n_ctx
            } else {
                4096
            }
            &&& s.disable_thinking == llm.openai_disable_thinking
            &&& s.timeout_secs == llm.openai_timeout_secs
        },
{
    let base = match given_exec(&llm.openai_base_url) {
        Some(b) => b,
        None => return Err(LlmSetupError::MissingBaseUrl),
    };
    let model = match given_exec(&llm.openai_model) {
        Some(m) => m,
        None => llm.ollama_model.clone(),
    };
    let api_key = match given_exec(&llm.openai_api_key) {
        Some(k) => k,
        None => String::from_str("not-needed"),
    };
    let max_tokens: u32 = if llm.n_ctx < 4096 {
        llm.n_ctx
    } else {
        4096
    };
    Ok(
        OpenAiSettings {
            base_url: trim_end_char_string(base.as_str(), '/'),
            api_key,
            model,
            temperature: llm.temperature.clone(),
            max_tokens,
            disable_thinking: llm.openai_disable_thinking,
            timeout_secs: llm.openai_timeout_secs,
        },
    )
}

/// The text of an assistant message: its content when that is not blank, else its
/// reasoning (thinking models may leave the content empty).
pub open spec fn assistant_text_of(content: Option<Seq<char>>, reasoning: Option<Seq<char>>) -> Option<
    Seq<char>,
> {
    match content {
        Some(c) => if trim(c).len() > 0 {
            Some(c)
        } else {
            reasoning
        },
        None => reasoning,
    }
}

/// Picks the text of an assistant message from its `content` and `reasoning` fields.
pub fn assistant_text(content: Option<&str>, reasoning: Option<&str>) -> (r: Option<String>)
    ensures
        field_view(r) == assistant_text_of(
            crate::config::opt_view(content),
            crate::config::opt_view(reasoning),
        ),
{
    match content {
        Some(c) => {
            let t = trim_string(c);
            if t.as_str().unicode_len() > 0 {
                return Some(c.to_string());
            }
        },
        None => {},
    }
    match reasoning {
        Some(r) => Some(r.to_string()),
        None => None,
    }
}

/// The chat-completions endpoint of a server.
pub fn chat_completions_url(base_url: &str) -> (r: String)
    ensures
        r@ == base_url@ + "/chat/completions"@,
{
    let mut r = base_url.to_string();
    r.append("/chat/completions");
    r
}

} // verus!
