//! The services that answer assessments, and the pinned model each one supports.

use vstd::prelude::*;

use crate::text::str_eq;

verus! {

broadcast use vstd::string::group_string_axioms;

/// Service receiving requests.
#[derive(Clone, Copy, Debug, PartialEq, Eq, Structural)]
pub enum Provider {
    OpenRouter,
    TypeSafe,
}

impl Default for Provider {
    fn default() -> (p: Provider)
        ensures
            p == Provider::OpenRouter,
    {
        Provider::OpenRouter
    }
}

/// The name a provider is given on the command line and in output.
pub open spec fn provider_name(p: Provider) -> Seq<char> {
    match p {
        Provider::OpenRouter => "openrouter"@,
        Provider::TypeSafe => "typesafe"@,
    }
}

/// The one model each provider supports, which is also its default.
pub open spec fn provider_model(p: Provider) -> Seq<char> {
    match p {
        Provider::OpenRouter => "typesafe/jev-1.13-20260917"@,
        Provider::TypeSafe => "jev-1.13.0"@,
    }
}

/// The provider a name selects, if any.
pub open spec fn provider_named(name: Seq<char>) -> Option<Provider> {
    if name == "openrouter"@ {
        Some(Provider::OpenRouter)
    } else if name == "typesafe"@ {
        Some(Provider::TypeSafe)
    } else {
        None
    }
}

/// Why a configuration was refused.
#[derive(Clone, Debug, PartialEq, Eq)]
pub enum ConfigError {
    /// The name is neither `openrouter` nor `typesafe`.
    UnknownProvider,
    /// The requested model is not the one the provider supports.
    UnsupportedModel { provider: Provider, model: String },
}

/// How `{:?}` writes a string: quoted, with escapes.
pub uninterp spec fn debug_text(s: Seq<char>) -> Seq<char>;

/// `<str as Debug>::fmt` from std, through `format!("{s:?}")`: the string quoted and escaped. The escaping
/// rules are named, not stated.
#[verifier::external_body]
fn debug_quoted(s: &str) -> (r: String)
    ensures
        r@ == debug_text(s@),
{
    format!("{s:?}")
}

pub open spec fn config_error_message(error: ConfigError) -> Seq<char> {
    match error {
        ConfigError::UnknownProvider => "provider must be openrouter or typesafe"@,
        ConfigError::UnsupportedModel { provider, model } => "unsupported model "@ + debug_text(model@)
            + " for "@ + provider_name(provider) + "; supported model: "@ + provider_model(provider),
    }
}

impl ConfigError {
    pub fn message(&self) -> (m: String)
        ensures
            m@ == config_error_message(*self),
    {
        proof {
            reveal_strlit("provider must be openrouter or typesafe");
            reveal_strlit("unsupported model ");
            reveal_strlit(" for ");
            reveal_strlit("; supported model: ");
        }
        match self {
            ConfigError::UnknownProvider => String::from_str("provider must be openrouter or typesafe"),
            ConfigError::UnsupportedModel { provider, model } => {
                let mut m = String::from_str("unsupported model ");
                let quoted = debug_quoted(model.as_str());
                m.append(quoted.as_str());
                m.append(" for ");
                m.append(provider.name());
                m.append("; supported model: ");
                m.append(provider.default_model());
                m
            },
        }
    }
}

impl Provider {
    pub fn endpoint(self) -> (url: &'static str)
        ensures
            url@ == (match self {
                Provider::OpenRouter => "https://openrouter.ai/api/alpha/decisions"@,
                Provider::TypeSafe => "https://api.typesafe.ai/v1/systemone"@,
            }),
    {
        match self {
            Provider::OpenRouter => "https://openrouter.ai/api/alpha/decisions",
            Provider::TypeSafe => "https://api.typesafe.ai/v1/systemone",
        }
    }

    pub fn default_model(self) -> (model: &'static str)
        ensures
            model@ == provider_model(self),
    {
        match self {
            Provider::OpenRouter => "typesafe/jev-1.13-20260917",
            Provider::TypeSafe => "jev-1.13.0",
        }
    }

    /// The environment variable that holds the provider's API key.
    pub fn key_variable(self) -> (name: &'static str)
        ensures
            name@ == (match self {
                Provider::OpenRouter => "OPENROUTER_API_KEY"@,
                Provider::TypeSafe => "TYPESAFE_API_KEY"@,
            }),
    {
        match self {
            Provider::OpenRouter => "OPENROUTER_API_KEY",
            Provider::TypeSafe => "TYPESAFE_API_KEY",
        }
    }

    /// The provider's name, as it is displayed and accepted.
    pub fn name(self) -> (name: &'static str)
        ensures
            name@ == provider_name(self),
    {
        match self {
            Provider::OpenRouter => "openrouter",
            Provider::TypeSafe => "typesafe",
        }
    }

    /// The provider a name selects: `openrouter` or `typesafe`.
    pub fn from_name(value: &str) -> (r: Result<Provider, ConfigError>)
        ensures
            match provider_named(value@) {
                Some(p) => r == Ok::<Provider, ConfigError>(p),
                None => r == Err::<Provider, ConfigError>(ConfigError::UnknownProvider),
            },
    {
        if str_eq(value, "openrouter") {
            Ok(Provider::OpenRouter)
        } else if str_eq(value, "typesafe") {
            Ok(Provider::TypeSafe)
        } else {
            Err(ConfigError::UnknownProvider)
        }
    }

    /// The model to request: the requested one when it is the provider's supported model, which is also the
    /// default when none is requested. Unsupported models fail before any request.
    pub fn model(self, requested: Option<&str>) -> (r: Result<String, ConfigError>)
        ensures
            match requested {
                None => r matches Ok(m) && m@ == provider_model(self),
                Some(q) => if q@ == provider_model(self) {
                    r matches Ok(m) && m@ == q@
                } else {
                    r matches Err(ConfigError::UnsupportedModel { provider, model }) && provider == self
                        && model@ == q@
                },
            },
    {
        let model = match requested {
            Some(q) => q,
            None => self.default_model(),
        };
        if !str_eq(model, self.default_model()) {
            return Err(ConfigError::UnsupportedModel { provider: self, model: model.to_owned() });
        }
        Ok(model.to_owned())
    }
}

impl std::str::FromStr for Provider {
    type Err = String;

    fn from_str(value: &str) -> (r: Result<Provider, String>)
        ensures
            match provider_named(value@) {
                Some(p) => r == Ok::<Provider, String>(p),
                None => r matches Err(m) && m@ == config_error_message(ConfigError::UnknownProvider),
            },
    {
        match Provider::from_name(value) {
            Ok(p) => Ok(p),
            Err(e) => Err(e.message()),
        }
    }
}

/// Every provider's name selects that provider again.
pub proof fn name_round_trip(p: Provider)
    ensures
        provider_named(provider_name(p)) == Some(p),
{
    reveal_strlit("openrouter");
    reveal_strlit("typesafe");
    assert("openrouter"@ != "typesafe"@) by {
        assert("openrouter"@[0] != "typesafe"@[0]);
    }
}

} // verus!
