//! Choice of the embedding provider and model from a model specification
//! such as `openai:text-embedding-ada-002`, `gemini:<model>:<task>` or
//! `local`.
use vstd::prelude::*;
use vstd::string::StringExecFns;
use crate::engine::types::GraphError;
use crate::utils::text::{chars_of, chars_start_with, find_char, push_str, string_from_chars};

verus! {

/// Where embeddings are computed.
pub enum EmbeddingProvider {
    OpenAI,
    Gemini { task_type: String },
    Local,
}

/// Whether `s` starts with `p`.
pub open spec fn has_prefix(s: Seq<char>, p: Seq<char>) -> bool {
    p.len() <= s.len() && s.subrange(0, p.len() as int) == p
}

/// The model and task type of a Gemini specification's text after
/// `gemini:`: split at its first `:`, with the task type
/// `RETRIEVAL_DOCUMENT` when there is none.
pub open spec fn gemini_parts(rest: Seq<char>) -> (Seq<char>, Seq<char>) {
    if exists|j: int| 0 <= j < rest.len() && rest[j] == ':' {
        let j = choose|j: int| 0 <= j < rest.len() && rest[j] == ':' && forall|k: int| 0 <= k < j ==> rest[k] != ':';
        (rest.take(j), rest.skip(j + 1))
    } else {
        (rest, "RETRIEVAL_DOCUMENT"@)
    }
}

/// The message for a model specification of no known provider.
pub open spec fn unknown_model_message(m: Seq<char>) -> Seq<char> {
    "Unknown embedding model '"@ + m + "'. Please use 'openai:', 'gemini:', or 'local' prefix"@
}

/// Splits a model specification into its provider and model name. A
/// specification starting with `gemini:` selects Gemini, one starting with
/// `openai:` selects OpenAI with the rest as model name, and `local`
/// selects the local service. A bare model name, one without `:`, is an
/// OpenAI model; a name with another prefix is refused, and so is none.
pub fn parse_provider_and_model(model: Option<&str>) -> (r: Result<(EmbeddingProvider, String), GraphError>)
    ensures
        match model {
            None => r matches Err(GraphError::New(msg)) && msg@ == "No embedding provider available"@,
            Some(m) => {
                if has_prefix(m@, "gemini:"@) {
                    let (name, task) = gemini_parts(m@.skip(7));
                    r matches Ok((EmbeddingProvider::Gemini { task_type }, model_name))
                        && task_type@ == task && model_name@ == name
                } else if has_prefix(m@, "openai:"@) {
                    r matches Ok((EmbeddingProvider::OpenAI, model_name)) && model_name@ == m@.skip(7)
                } else if m@ == "local"@ {
                    r matches Ok((EmbeddingProvider::Local, model_name)) && model_name@ == "local"@
                } else if !m@.contains(':') {
                    r matches Ok((EmbeddingProvider::OpenAI, model_name)) && model_name@ == m@
                } else {
                    r matches Err(GraphError::New(msg)) && msg@ == unknown_model_message(m@)
                }
            },
        },
{
    proof {
        reveal_strlit("gemini:");
        reveal_strlit("openai:");
    }
    match model {
        None => Err(GraphError::New(String::from_str("No embedding provider available"))),
        Some(m) => {
            let cm = chars_of(m);
            let gemini = chars_of("gemini:");
            let openai = chars_of("openai:");
            if chars_start_with(&cm, &gemini) {
                let len = cm.len();
                match find_char(&cm, ':', 7) {
                    Some(j) => {
                        let name = string_from_chars(&cm, 7, j);
                        let task = string_from_chars(&cm, j + 1, len);
                        proof {
                            let rest = m@.skip(7);
                            let jj = (j - 7) as int;
                            assert(rest[jj] == ':');
                            assert forall|k: int| 0 <= k < jj implies rest[k] != ':' by {
                                assert(rest[k] == m@[k + 7]);
                            }
                            let c = choose|c: int| 0 <= c < rest.len() && rest[c] == ':' && forall|k: int| 0 <= k < c ==> rest[k] != ':';
                            assert(c == jj) by {
                                if c < jj {
                                    assert(rest[c] != ':');
                                } else if c > jj {
                                    assert(rest[jj] != ':');
                                }
                            }
                            assert(name@ =~= rest.take(jj));
                            assert(task@ =~= rest.skip(jj + 1));
                        }
                        Ok((EmbeddingProvider::Gemini { task_type: task }, name))
                    },
                    None => {
                        let name = string_from_chars(&cm, 7, len);
                        proof {
                            let rest = m@.skip(7);
                            assert forall|k: int| 0 <= k < rest.len() implies rest[k] != ':' by {
                                assert(rest[k] == m@[k + 7]);
                            }
                            assert(name@ =~= rest);
                        }
                        Ok((EmbeddingProvider::Gemini { task_type: String::from_str("RETRIEVAL_DOCUMENT") }, name))
                    },
                }
            } else if chars_start_with(&cm, &openai) {
                let name = string_from_chars(&cm, 7, cm.len());
                assert(name@ =~= m@.skip(7));
                Ok((EmbeddingProvider::OpenAI, name))
            } else {
                let local = chars_of("local");
                if crate::utils::text::chars_equal(&cm, &local) {
                    Ok((EmbeddingProvider::Local, String::from_str("local")))
                } else if find_char(&cm, ':', 0).is_none() {
                    proof {
                        assert forall|k: int| 0 <= k < m@.len() implies m@[k] != ':' by {}
                    }
                    Ok((EmbeddingProvider::OpenAI, string_from_chars(&cm, 0, cm.len())))
                } else {
                    let mut msg = String::from_str("Unknown embedding model '");
                    push_str(&mut msg, m);
                    push_str(&mut msg, "'. Please use 'openai:', 'gemini:', or 'local' prefix");
                    Err(GraphError::New(msg))
                }
            }
        },
    }
}

/// Whether `url::Url::parse` accepts a text as an absolute URL.
pub uninterp spec fn url_accepts(s: Seq<char>) -> bool;

/// `url::Url::parse(s)`: `None` when the text parses as a URL, else the
/// text of the parse error. Which texts parse is named, not stated; the
/// error text is left unstated.
#[verifier::external_body]
fn url_parse_error(s: &str) -> (r: Option<String>)
    ensures
        r is None <==> url_accepts(s@),
{
    match url::Url::parse(s) {
        Ok(_) => None,
        Err(e) => Some(e.to_string()),
    }
}

/// The address of the local embedding service when none is given.
pub const DEFAULT_LOCAL_URL: &'static str = "http://localhost:8699/embed";

/// What is needed to ask a provider for embeddings.
pub struct EmbeddingSettings {
    pub provider: EmbeddingProvider,
    pub api_key: Option<String>,
    pub model: String,
    pub url: Option<String>,
}

/// Resolves the settings for a model specification: the provider and model
/// as `parse_provider_and_model` gives them; for OpenAI and Gemini the API
/// key given, else the one from the environment (`env_openai_key`,
/// `env_gemini_key`), failing without one; for the local service the URL
/// given, else the default one, failing when it does not parse.
pub fn resolve_embedding_settings(
    api_key: Option<&str>,
    env_openai_key: Option<&str>,
    env_gemini_key: Option<&str>,
    model: Option<&str>,
    url: Option<&str>,
) -> (r: Result<EmbeddingSettings, GraphError>)
    ensures
        match parse_provider_and_model_spec(model) {
            None => r is Err,
            Some((provider_kind, name)) => match r {
                Ok(settings) => {
                    &&& settings.model@ == name
                    &&& provider_kind == kind_of(settings.provider)
                    &&& match provider_kind {
                        ProviderKind::OpenAI => settings.url is None && settings.api_key is Some
                            && settings.api_key->0@ == (match api_key {
                                Some(k) => k@,
                                None => env_openai_key->0@,
                            }) && (api_key is Some || env_openai_key is Some),
                        ProviderKind::Gemini => settings.url is None && settings.api_key is Some
                            && settings.api_key->0@ == (match api_key {
                                Some(k) => k@,
                                None => env_gemini_key->0@,
                            }) && (api_key is Some || env_gemini_key is Some),
                        ProviderKind::Local => settings.api_key is None && settings.url is Some
                            && settings.url->0@ == (match url {
                                Some(u) => u@,
                                None => DEFAULT_LOCAL_URL@,
                            }) && url_accepts(settings.url->0@),
                    }
                },
                Err(GraphError::New(msg)) => match provider_kind {
                    ProviderKind::OpenAI => api_key is None && env_openai_key is None
                        && msg@ == "OPENAI_API_KEY not set"@,
                    ProviderKind::Gemini => api_key is None && env_gemini_key is None
                        && msg@ == "GEMINI_API_KEY not set"@,
                    ProviderKind::Local => !url_accepts(match url {
                        Some(u) => u@,
                        None => DEFAULT_LOCAL_URL@,
                    }),
                },
                Err(_) => false,
            },
        },
{
    let (provider, name) = match parse_provider_and_model(model) {
        Ok(p) => p,
        Err(e) => return Err(e),
    };
    match provider {
        EmbeddingProvider::OpenAI => {
            let key = match api_key {
                Some(k) => String::from_str(k),
                None => match env_openai_key {
                    Some(k) => String::from_str(k),
                    None => return Err(GraphError::New(String::from_str("OPENAI_API_KEY not set"))),
                },
            };
            Ok(EmbeddingSettings { provider: EmbeddingProvider::OpenAI, api_key: Some(key), model: name, url: None })
        },
        EmbeddingProvider::Gemini { task_type } => {
            let key = match api_key {
                Some(k) => String::from_str(k),
                None => match env_gemini_key {
                    Some(k) => String::from_str(k),
                    None => return Err(GraphError::New(String::from_str("GEMINI_API_KEY not set"))),
                },
            };
            Ok(EmbeddingSettings { provider: EmbeddingProvider::Gemini { task_type }, api_key: Some(key), model: name, url: None })
        },
        EmbeddingProvider::Local => {
            let u = match url {
                Some(u) => u,
                None => DEFAULT_LOCAL_URL,
            };
            match url_parse_error(u) {
                None => Ok(EmbeddingSettings { provider: EmbeddingProvider::Local, api_key: None, model: name, url: Some(String::from_str(u)) }),
                Some(e) => {
                    let mut msg = String::from_str("Invalid URL: ");
                    push_str(&mut msg, e.as_str());
                    Err(GraphError::New(msg))
                },
            }
        },
    }
}

/// The kind of a provider, without its parameters.
#[derive(PartialEq, Eq, Structural)]
pub enum ProviderKind {
    OpenAI,
    Gemini,
    Local,
}

/// The kind of a provider.
pub open spec fn kind_of(p: EmbeddingProvider) -> ProviderKind {
    match p {
        EmbeddingProvider::OpenAI => ProviderKind::OpenAI,
        EmbeddingProvider::Gemini { .. } => ProviderKind::Gemini,
        EmbeddingProvider::Local => ProviderKind::Local,
    }
}

/// The provider kind and model name a specification selects, if any.
pub open spec fn parse_provider_and_model_spec(model: Option<&str>) -> Option<(ProviderKind, Seq<char>)> {
    match model {
        None => None,
        Some(m) => if has_prefix(m@, "gemini:"@) {
            Some((ProviderKind::Gemini, gemini_parts(m@.skip(7)).0))
        } else if has_prefix(m@, "openai:"@) {
            Some((ProviderKind::OpenAI, m@.skip(7)))
        } else if m@ == "local"@ {
            Some((ProviderKind::Local, "local"@))
        } else if !m@.contains(':') {
            Some((ProviderKind::OpenAI, m@))
        } else {
            None
        },
    }
}

} // verus!
