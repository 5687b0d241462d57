//! What the application's commands compute: the greeting, the state of
//! the stored API key, and the request made from a project-creation
//! payload. The key store and the user interface are reached around them.
use vstd::prelude::*;
use crate::models::{CreateProjectRequest, ProjectType};
use crate::text::{concat2, concat3, copy_string, to_owned_string};

verus! {

/// Whether an API key is configured.
#[derive(Debug)]
pub struct ApiKeyResult {
    pub configured: bool,
}

/// The user's input when creating a project.
#[derive(Debug)]
pub struct CreateProjectPayload {
    pub name: String,
    pub description: Option<String>,
    pub project_type: ProjectType,
}

impl CreateProjectPayload {
    /// The creation request made from this payload.
    pub fn into_request(self) -> (r: CreateProjectRequest)
        ensures
            r.name == self.name,
            r.description == self.description,
            r.project_type == self.project_type,
    {
        CreateProjectRequest {
            name: self.name,
            description: self.description,
            project_type: self.project_type,
        }
    }
}

/// The greeting for a name.
pub fn greet(name: &str) -> (s: String)
    ensures
        s@ == "Hello, "@ + name@ + "! You've been greeted from Rust!"@,
{
    concat3("Hello, ", name, "! You've been greeted from Rust!")
}

/// What reading the API key from the key store came to.
#[derive(Debug)]
pub enum KeyLookup {
    /// The store holds this password.
    Found(String),
    /// The store holds no entry.
    NoEntry,
    /// Reading failed; the reason as text.
    Failed(String),
}

/// The stored API key: a non-empty password, none when the password is
/// empty or missing, or the read failure.
pub fn stored_api_key(lookup: KeyLookup) -> (res: Result<Option<String>, String>)
    ensures
        match lookup {
            KeyLookup::Found(k) => if k@.len() > 0 {
                res matches Ok(Some(v)) && v@ == k@
            } else {
                res matches Ok(None)
            },
            KeyLookup::NoEntry => res matches Ok(None),
            KeyLookup::Failed(e) => res matches Err(m) && m@ == "读取钥匙串失败: "@ + e@,
        },
{
    match lookup {
        KeyLookup::Found(k) => {
            if k.as_str().is_empty() {
                Ok(None)
            } else {
                Ok(Some(k))
            }
        },
        KeyLookup::NoEntry => Ok(None),
        KeyLookup::Failed(e) => Err(concat2("读取钥匙串失败: ", e.as_str())),
    }
}

/// The API key a request to the model uses: the stored key, or, when none
/// is stored, the failure that stops the request before anything is
/// stored or sent.
pub fn require_api_key(stored: Option<String>) -> (res: Result<String, String>)
    ensures
        match stored {
            Some(k) => res matches Ok(v) && v@ == k@,
            None => res matches Err(m) && m@ == "未配置 DeepSeek API Key"@,
        },
{
    match stored {
        Some(k) => Ok(k),
        None => Err(to_owned_string("未配置 DeepSeek API Key")),
    }
}

/// Whether an API key is configured, from the stored key or the failure to
/// read it.
pub fn api_key_status(stored: Result<Option<String>, String>) -> (res: Result<ApiKeyResult, String>)
    ensures
        match stored {
            Ok(k) => res matches Ok(r) && r.configured == (k is Some),
            Err(e) => res matches Err(m) && m@ == "读取 API Key 失败: "@ + e@,
        },
{
    match stored {
        Ok(Some(_)) => Ok(ApiKeyResult { configured: true }),
        Ok(None) => Ok(ApiKeyResult { configured: false }),
        Err(e) => Err(concat2("读取 API Key 失败: ", e.as_str())),
    }
}

} // verus!
