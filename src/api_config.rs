//! How each directory-service method is called: by query string or by a
//! JSON or form body, and whether a user token is preferred.
use vstd::prelude::*;
use crate::text::str_eq;

verus! {

/// How a method's parameters travel.
#[derive(Debug, Clone, Copy, PartialEq, Eq, Structural)]
pub enum ApiMethod {
    /// GET with query parameters.
    Get,
    /// POST with a JSON body.
    PostJson,
    /// POST with form data.
    PostForm,
}

/// How one method is called.
#[derive(Debug, Clone, Copy, PartialEq, Eq, Structural)]
pub struct ApiConfig {
    pub method: ApiMethod,
    pub prefer_user_token: bool,
}

impl ApiConfig {
    pub fn new(method: ApiMethod, prefer_user_token: bool) -> (r: ApiConfig)
        ensures
            r.method == method,
            r.prefer_user_token == prefer_user_token,
    {
        ApiConfig { method, prefer_user_token }
    }
}

/// The known methods and how each is called; methods not listed are
/// unknown.
pub open spec fn api_config_of(m: Seq<char>) -> Option<ApiConfig> {
    if m == "conversations.history"@ || m == "conversations.replies"@ || m == "conversations.members"@
        || m == "conversations.list"@ {
        Some(ApiConfig { method: ApiMethod::Get, prefer_user_token: true })
    } else if m == "users.list"@ {
        Some(ApiConfig { method: ApiMethod::Get, prefer_user_token: false })
    } else if m == "chat.postMessage"@ || m == "chat.scheduleMessage"@ || m == "conversations.open"@
        || m == "reactions.add"@ || m == "reactions.remove"@ {
        Some(ApiConfig { method: ApiMethod::PostJson, prefer_user_token: false })
    } else if m == "users.profile.set"@ {
        Some(ApiConfig { method: ApiMethod::PostJson, prefer_user_token: true })
    } else if m == "search.messages"@ {
        Some(ApiConfig { method: ApiMethod::PostForm, prefer_user_token: true })
    } else {
        None
    }
}

/// How the method `method` is called, if it is known.
pub fn get_api_config(method: &str) -> (r: Option<ApiConfig>)
    ensures
        r == api_config_of(method@),
{
    if str_eq(method, "conversations.history") || str_eq(method, "conversations.replies") || str_eq(
        method,
        "conversations.members",
    ) || str_eq(method, "conversations.list") {
        Some(ApiConfig::new(ApiMethod::Get, true))
    } else if str_eq(method, "users.list") {
        Some(ApiConfig::new(ApiMethod::Get, false))
    } else if str_eq(method, "chat.postMessage") || str_eq(method, "chat.scheduleMessage") || str_eq(
        method,
        "conversations.open",
    ) || str_eq(method, "reactions.add") || str_eq(method, "reactions.remove") {
        Some(ApiConfig::new(ApiMethod::PostJson, false))
    } else if str_eq(method, "users.profile.set") {
        Some(ApiConfig::new(ApiMethod::PostJson, true))
    } else if str_eq(method, "search.messages") {
        Some(ApiConfig::new(ApiMethod::PostForm, true))
    } else {
        None
    }
}

} // verus!
