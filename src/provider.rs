//! Model choice per provider, and the single user turn of chat-style
//! backends.
use vstd::prelude::*;
use crate::assemble::{str_views, to_chars_all};
use crate::cli::Provider;
use crate::error::APIError;
use crate::lines::{join, join_exec};
use crate::text::{append_str, chars_of, string_of};

verus! {

/// The models that can be asked for on the command line.
#[derive(Clone, Copy, Debug, PartialEq, Eq, Structural)]
pub enum CliModel {
    Gemini25Flash,
    Gemini25Pro,
    Gemini25FlashLite,
    GptOss120b,
}

pub open spec fn model_id(m: CliModel) -> Seq<char> {
    match m {
        CliModel::Gemini25Flash => "gemini-2.5-flash"@,
        CliModel::Gemini25Pro => "gemini-2.5-pro"@,
        CliModel::Gemini25FlashLite => "gemini-2.5-flash-lite"@,
        CliModel::GptOss120b => "gpt-oss-120b"@,
    }
}

pub open spec fn provider_name(p: Provider) -> Seq<char> {
    match p {
        Provider::Gemini => "Gemini"@,
        Provider::Cerebras => "Cerebras"@,
    }
}

/// The provider serves the model.
pub open spec fn serves(p: Provider, m: CliModel) -> bool {
    match p {
        Provider::Gemini => m != CliModel::GptOss120b,
        Provider::Cerebras => m == CliModel::GptOss120b,
    }
}

pub open spec fn default_model(p: Provider) -> CliModel {
    match p {
        Provider::Gemini => CliModel::Gemini25Flash,
        Provider::Cerebras => CliModel::GptOss120b,
    }
}

impl CliModel {
    /// The identifier the provider knows the model by.
    pub fn id(&self) -> (r: &'static str)
        ensures
            r@ == model_id(*self),
    {
        match self {
            CliModel::Gemini25Flash => "gemini-2.5-flash",
            CliModel::Gemini25Pro => "gemini-2.5-pro",
            CliModel::Gemini25FlashLite => "gemini-2.5-flash-lite",
            CliModel::GptOss120b => "gpt-oss-120b",
        }
    }
}

impl Provider {
    pub fn name(&self) -> (r: &'static str)
        ensures
            r@ == provider_name(*self),
    {
        match self {
            Provider::Gemini => "Gemini",
            Provider::Cerebras => "Cerebras",
        }
    }
}

/// The model to use: the provider's default when none is asked for, the
/// one asked for when the provider serves it, an error naming both otherwise.
pub fn select_model(provider: Provider, model: Option<CliModel>) -> (r: Result<CliModel, APIError>)
    ensures
        match model {
            None => r == Ok::<CliModel, APIError>(default_model(provider)),
            Some(m) => if serves(provider, m) {
                r == Ok::<CliModel, APIError>(m)
            } else {
                r is Err && r->Err_0.name@ == provider_name(provider) && r->Err_0.message@
                    == "Model "@ + model_id(m) + " is not supported by "@ + provider_name(
                    provider,
                )
            },
        },
{
    match model {
        None => match provider {
            Provider::Gemini => Ok(CliModel::Gemini25Flash),
            Provider::Cerebras => Ok(CliModel::GptOss120b),
        },
        Some(m) => {
            let ok = match provider {
                Provider::Gemini => m != CliModel::GptOss120b,
                Provider::Cerebras => m == CliModel::GptOss120b,
            };
            if ok {
                Ok(m)
            } else {
                let mut msg = chars_of("Model ");
                append_str(&mut msg, m.id());
                append_str(&mut msg, " is not supported by ");
                append_str(&mut msg, provider.name());
                Err(APIError::new_msg(provider.name(), string_of(&msg).as_str()))
            }
        },
    }
}

/// The user turn of a chat-style backend: all messages, separated by a
/// blank line.
pub fn combined_user_message(messages: &Vec<String>) -> (r: String)
    ensures
        r@ == join(str_views(messages@), "\n\n"@),
{
    string_of(&join_exec(&to_chars_all(messages), &chars_of("\n\n")))
}

} // verus!
