//! Plain records exchanged with the store, the configuration and the caller.
use vstd::prelude::*;

verus! {

/// The final result of one completed request.
pub struct ChatResponse {
    pub response: String,
    pub created_at: String,
}

/// One stored exchange, with its timestamp rendered as text.
pub struct RawDatabaseChatEntry {
    pub session_id: String,
    pub question: String,
    pub answer: String,
    pub created_at: String,
}

/// A session identifier.
pub struct SessionId(pub String);

/// User configuration: the service credential and an optional default model.
pub struct Config {
    pub openai_api_key: String,
    pub default_model: Option<String>,
}

/// One persisted exchange as read back from the store. `created_at` counts
/// microseconds since the Unix epoch (UTC).
pub struct ChatHistory {
    pub id: i32,
    pub session_id: String,
    pub question: String,
    pub answer: String,
    pub created_at: i64,
}

/// An exchange that is about to be written to the store.
pub struct NewChatHistory {
    pub session_id: String,
    pub question: String,
    pub answer: String,
    pub created_at: i64,
}

pub open spec fn empty_key_message() -> Seq<char> {
    "API key cannot be empty"@
}

/// Replaces the credential held by `config`. An empty key is refused and
/// leaves `config` as it was.
pub fn set_openai_api_key(config: &mut Config, api_key: String) -> (r: Result<(), String>)
    ensures
        api_key@.len() == 0 <==> r.is_err(),
        match r {
            Ok(()) => final(config).openai_api_key@ == api_key@
                && final(config).default_model == old(config).default_model,
            Err(e) => e@ == empty_key_message() && *final(config) == *old(config),
        },
{
    if api_key.as_str().is_empty() {
        proof { reveal_strlit("API key cannot be empty"); }
        return Err("API key cannot be empty".to_owned());
    }
    config.openai_api_key = api_key;
    Ok(())
}

} // verus!
