//! Errors of the application and of the GitLab client, their messages, and
//! how an HTTP error response is classified.
use vstd::prelude::*;

use crate::ids::{PipelineId, ProjectId};
use crate::text::{decimal, push_decimal, push_str, string_from_chars};

verus! {

/// The kind of a JSON deserialization failure.
#[derive(Clone, Copy, Debug, PartialEq, Eq, Structural)]
pub enum JsonErrorCategory {
    Io,
    Syntax,
    Data,
    Eof,
}

/// Application-level errors, shown to the user as notices.
#[derive(Clone, Debug)]
pub enum GlimError {
    InvalidGitlabToken,
    ExpiredGitlabToken,
    ConfigError(String),
    GeneralError(String),
    JsonDeserializeError(JsonErrorCategory, String),
    GitlabGetJobsError(ProjectId, PipelineId, String),
    GitlabGetTriggerJobsError(ProjectId, PipelineId, String),
    GitlabGetPipelinesError(ProjectId, PipelineId, String),
}

/// A failed HTTP exchange, as the HTTP client reported it.
#[derive(Clone, Debug)]
pub struct HttpFailure {
    /// The client's description of the failure.
    pub message: String,
    /// The request timed out.
    pub is_timeout: bool,
    /// The connection could not be established.
    pub is_connect: bool,
    /// The request could not be built or sent.
    pub is_request: bool,
}

/// Errors of GitLab client operations.
#[derive(Clone, Debug)]
pub enum ClientError {
    /// HTTP request failed
    Http(HttpFailure),
    /// JSON parsing error with endpoint context
    JsonParse { endpoint: String, message: String, source: String },
    /// GitLab API returned an error response
    GitlabApi { message: String },
    /// Configuration is invalid
    Config(String),
    /// Configuration field validation failed
    ConfigValidation { field: String, message: String },
    /// Authentication failed
    Authentication,
    /// GitLab token is invalid
    InvalidToken,
    /// GitLab token has expired
    ExpiredToken,
    /// Network timeout
    Timeout,
    /// Invalid URL format
    InvalidUrl { url: String },
    /// Resource not found
    NotFound { resource: String },
    /// Rate limit exceeded; the delay, in whole seconds, after which to retry
    RateLimit { retry_after_secs: Option<u64> },
}

/// The fields of GitLab's `{"error": .., "error_description": ..}` error body.
#[derive(Clone, Debug)]
pub struct GitlabErrorBody {
    pub error: String,
    pub error_description: Option<String>,
}

/// Name of a JSON error category, as `Debug` prints it.
pub open spec fn category_text(c: JsonErrorCategory) -> Seq<char> {
    match c {
        JsonErrorCategory::Io => "Io"@,
        JsonErrorCategory::Syntax => "Syntax"@,
        JsonErrorCategory::Data => "Data"@,
        JsonErrorCategory::Eof => "Eof"@,
    }
}

/// `project_id=<p>/pipeline_id=<q>: <s>`
pub open spec fn located_text(p: ProjectId, q: PipelineId, s: Seq<char>) -> Seq<char> {
    "project_id="@ + decimal(p.0 as nat) + "/pipeline_id="@ + decimal(q.0 as nat) + ": "@ + s
}

/// The message of an application error.
pub open spec fn glim_error_text(e: GlimError) -> Seq<char> {
    match e {
        GlimError::InvalidGitlabToken => "The provided Gitlab token is invalid."@,
        GlimError::ExpiredGitlabToken => "The provided Gitlab token has expired."@,
        GlimError::ConfigError(s) => s@,
        GlimError::GeneralError(s) => s@,
        GlimError::JsonDeserializeError(c, s) => category_text(c) + " - JSON: "@ + s@,
        GlimError::GitlabGetJobsError(p, q, s) => located_text(p, q, s@),
        GlimError::GitlabGetTriggerJobsError(p, q, s) => located_text(p, q, s@),
        GlimError::GitlabGetPipelinesError(p, q, s) => located_text(p, q, s@),
    }
}

/// `Debug` text of an optional whole-second delay.
pub open spec fn retry_after_text(d: Option<u64>) -> Seq<char> {
    match d {
        None => "None"@,
        Some(s) => "Some("@ + decimal(s as nat) + "s)"@,
    }
}

/// The message of a client error.
pub open spec fn client_error_text(e: ClientError) -> Seq<char> {
    match e {
        ClientError::Http(h) => "HTTP request failed: "@ + h.message@,
        ClientError::JsonParse { endpoint, message, .. } => "Failed to parse JSON response from "@
            + endpoint@ + ": "@ + message@,
        ClientError::GitlabApi { message } => "GitLab API error: "@ + message@,
        ClientError::Config(s) => "Configuration error: "@ + s@,
        ClientError::ConfigValidation { field, message } => "Invalid "@ + field@ + ": "@
            + message@,
        ClientError::Authentication => "Authentication failed"@,
        ClientError::InvalidToken => "GitLab token is invalid"@,
        ClientError::ExpiredToken => "GitLab token has expired"@,
        ClientError::Timeout => "Request timeout"@,
        ClientError::InvalidUrl { url } => "Invalid URL: "@ + url@,
        ClientError::NotFound { resource } => "Resource not found: "@ + resource@,
        ClientError::RateLimit { retry_after_secs } => "Rate limit exceeded, retry after "@
            + retry_after_text(retry_after_secs),
    }
}

/// The message an application error carries for a client error.
pub open spec fn client_report_text(e: ClientError) -> Seq<char> {
    match e {
        ClientError::Http(h) => "HTTP error: "@ + h.message@,
        ClientError::JsonParse { message, .. } => message@,
        ClientError::GitlabApi { message } => message@,
        ClientError::Config(s) => s@,
        ClientError::Authentication => "Authentication failed"@,
        ClientError::Timeout => "Request timeout"@,
        ClientError::InvalidUrl { url } => "Invalid URL: "@ + url@,
        ClientError::NotFound { resource } => "Not found: "@ + resource@,
        ClientError::RateLimit { .. } => "Rate limit exceeded"@,
        _ => client_error_text(e),
    }
}

impl GlimError {
    /// The error's message.
    pub fn message(&self) -> (r: String)
        ensures
            r@ == glim_error_text(*self),
    {
        match self {
            GlimError::InvalidGitlabToken => String::from_str("The provided Gitlab token is invalid."),
            GlimError::ExpiredGitlabToken => String::from_str("The provided Gitlab token has expired."),
            GlimError::ConfigError(s) => s.clone(),
            GlimError::GeneralError(s) => s.clone(),
            GlimError::JsonDeserializeError(c, s) => {
                let mut v: Vec<char> = Vec::new();
                push_category(&mut v, *c);
                push_str(&mut v, " - JSON: ");
                push_str(&mut v, s.as_str());
                string_from_chars(&v)
            },
            GlimError::GitlabGetJobsError(p, q, s) => located_message(*p, *q, s),
            GlimError::GitlabGetTriggerJobsError(p, q, s) => located_message(*p, *q, s),
            GlimError::GitlabGetPipelinesError(p, q, s) => located_message(*p, *q, s),
        }
    }
}

fn push_category(v: &mut Vec<char>, c: JsonErrorCategory)
    ensures
        final(v)@ == old(v)@ + category_text(c),
{
    match c {
        JsonErrorCategory::Io => push_str(v, "Io"),
        JsonErrorCategory::Syntax => push_str(v, "Syntax"),
        JsonErrorCategory::Data => push_str(v, "Data"),
        JsonErrorCategory::Eof => push_str(v, "Eof"),
    }
}

fn located_message(p: ProjectId, q: PipelineId, s: &String) -> (r: String)
    ensures
        r@ == located_text(p, q, s@),
{
    let mut v: Vec<char> = Vec::new();
    push_str(&mut v, "project_id=");
    push_decimal(&mut v, p.0);
    push_str(&mut v, "/pipeline_id=");
    push_decimal(&mut v, q.0);
    push_str(&mut v, ": ");
    push_str(&mut v, s.as_str());
    assert(v@ == located_text(p, q, s@));
    string_from_chars(&v)
}

/// Concatenation of two texts.
fn join2(a: &str, b: &str) -> (r: String)
    ensures
        r@ == a@ + b@,
{
    let mut v: Vec<char> = Vec::new();
    push_str(&mut v, a);
    push_str(&mut v, b);
    assert(v@ == a@ + b@);
    string_from_chars(&v)
}

/// Concatenation of four texts.
fn join4(a: &str, b: &str, c: &str, d: &str) -> (r: String)
    ensures
        r@ == a@ + b@ + c@ + d@,
{
    let mut v: Vec<char> = Vec::new();
    push_str(&mut v, a);
    push_str(&mut v, b);
    push_str(&mut v, c);
    push_str(&mut v, d);
    string_from_chars(&v)
}

impl ClientError {
    /// Create a JSON parsing error with endpoint context
    pub fn json_parse(endpoint: String, message: String, source: String) -> (r: ClientError)
        ensures
            r == (ClientError::JsonParse { endpoint, message, source }),
    {
        ClientError::JsonParse { endpoint, message, source }
    }

    /// Create a GitLab API error
    pub fn gitlab_api(message: String) -> (r: ClientError)
        ensures
            r == (ClientError::GitlabApi { message }),
    {
        ClientError::GitlabApi { message }
    }

    /// Create a configuration error
    pub fn config(message: String) -> (r: ClientError)
        ensures
            r == ClientError::Config(message),
    {
        ClientError::Config(message)
    }

    /// Create a configuration field validation error
    pub fn config_validation(field: String, message: String) -> (r: ClientError)
        ensures
            r == (ClientError::ConfigValidation { field, message }),
    {
        ClientError::ConfigValidation { field, message }
    }

    /// Create an invalid URL error
    pub fn invalid_url(url: String) -> (r: ClientError)
        ensures
            r == (ClientError::InvalidUrl { url }),
    {
        ClientError::InvalidUrl { url }
    }

    /// Create a not found error
    pub fn not_found(resource: String) -> (r: ClientError)
        ensures
            r == (ClientError::NotFound { resource }),
    {
        ClientError::NotFound { resource }
    }

    /// Create a rate limit error
    pub fn rate_limit(retry_after_secs: Option<u64>) -> (r: ClientError)
        ensures
            r == (ClientError::RateLimit { retry_after_secs }),
    {
        ClientError::RateLimit { retry_after_secs }
    }

    /// A timeout, a failed connection or a rate limit may succeed when retried.
    pub fn is_retryable(&self) -> (r: bool)
        ensures
            r == match *self {
                ClientError::Http(h) => h.is_timeout || h.is_connect,
                ClientError::Timeout => true,
                ClientError::RateLimit { .. } => true,
                _ => false,
            },
    {
        match self {
            ClientError::Http(h) => h.is_timeout || h.is_connect,
            ClientError::Timeout => true,
            ClientError::RateLimit { .. } => true,
            _ => false,
        }
    }

    /// The error comes from a temporary network issue.
    pub fn is_network_error(&self) -> (r: bool)
        ensures
            r == match *self {
                ClientError::Http(h) => h.is_timeout || h.is_connect || h.is_request,
                ClientError::Timeout => true,
                _ => false,
            },
    {
        match self {
            ClientError::Http(h) => h.is_timeout || h.is_connect || h.is_request,
            ClientError::Timeout => true,
            _ => false,
        }
    }

    /// The error's message.
    pub fn message(&self) -> (r: String)
        ensures
            r@ == client_error_text(*self),
    {
        match self {
            ClientError::Http(h) => join2("HTTP request failed: ", h.message.as_str()),
            ClientError::JsonParse { endpoint, message, .. } => join4(
                "Failed to parse JSON response from ",
                endpoint.as_str(),
                ": ",
                message.as_str(),
            ),
            ClientError::GitlabApi { message } => join2("GitLab API error: ", message.as_str()),
            ClientError::Config(s) => join2("Configuration error: ", s.as_str()),
            ClientError::ConfigValidation { field, message } => join4(
                "Invalid ",
                field.as_str(),
                ": ",
                message.as_str(),
            ),
            ClientError::Authentication => String::from_str("Authentication failed"),
            ClientError::InvalidToken => String::from_str("GitLab token is invalid"),
            ClientError::ExpiredToken => String::from_str("GitLab token has expired"),
            ClientError::Timeout => String::from_str("Request timeout"),
            ClientError::InvalidUrl { url } => join2("Invalid URL: ", url.as_str()),
            ClientError::NotFound { resource } => join2("Resource not found: ", resource.as_str()),
            ClientError::RateLimit { retry_after_secs } => {
                let mut v: Vec<char> = Vec::new();
                push_str(&mut v, "Rate limit exceeded, retry after ");
                match retry_after_secs {
                    None => push_str(&mut v, "None"),
                    Some(s) => {
                        push_str(&mut v, "Some(");
                        push_decimal(&mut v, *s);
                        push_str(&mut v, "s)");
                    },
                }
                string_from_chars(&v)
            },
        }
    }
}

/// Reports a client error as an application error: a general error whose
/// message describes the failure.
pub fn glim_error_from_client(e: &ClientError) -> (r: GlimError)
    ensures
        r matches GlimError::GeneralError(s) && s@ == client_report_text(*e),
{
    let s = match e {
        ClientError::Http(h) => join2("HTTP error: ", h.message.as_str()),
        ClientError::JsonParse { message, .. } => message.clone(),
        ClientError::GitlabApi { message } => message.clone(),
        ClientError::Config(s) => s.clone(),
        ClientError::Authentication => String::from_str("Authentication failed"),
        ClientError::Timeout => String::from_str("Request timeout"),
        ClientError::InvalidUrl { url } => join2("Invalid URL: ", url.as_str()),
        ClientError::NotFound { resource } => join2("Not found: ", resource.as_str()),
        ClientError::RateLimit { .. } => String::from_str("Rate limit exceeded"),
        _ => e.message(),
    };
    GlimError::GeneralError(s)
}

/// `HTTP <status>: <rest>`
pub open spec fn http_status_text(status: u16, rest: Seq<char>) -> Seq<char> {
    "HTTP "@ + decimal(status as nat) + ": "@ + rest
}

/// The detail GitLab gave for an unsuccessful response: the fields of the
/// first error body format that parsed, else the raw body.
pub open spec fn error_detail_text(
    body: Seq<char>,
    api_error: Option<GitlabErrorBody>,
    api_message: Option<String>,
) -> Seq<char> {
    match api_error {
        Some(b) => b.error@ + " "@ + match b.error_description {
            Some(d) => d@,
            None => Seq::empty(),
        },
        None => match api_message {
            Some(m) => m@,
            None => body,
        },
    }
}

/// Classifies an unsuccessful GitLab response. `api_error` holds the body
/// parsed as `{"error", "error_description"}` and `api_message` the body
/// parsed as `{"message"}`, each when that parse succeeded.
pub fn classify_error_response(
    status: u16,
    body: &str,
    api_error: Option<GitlabErrorBody>,
    api_message: Option<String>,
) -> (r: ClientError)
    ensures
        status == 401 ==> r is Authentication,
        status == 404 ==> (r matches ClientError::NotFound { resource } && resource@ == "Resource"@),
        status == 429 ==> (r matches ClientError::RateLimit { retry_after_secs }
            && retry_after_secs is None),
        status != 401 && status != 404 && status != 429 ==> (r matches ClientError::GitlabApi {
            message,
        } && message@ == http_status_text(status, error_detail_text(body@, api_error, api_message))),
{
    if status == 401 {
        ClientError::Authentication
    } else if status == 404 {
        ClientError::not_found(String::from_str("Resource"))
    } else if status == 429 {
        ClientError::rate_limit(None)
    } else {
        let mut v: Vec<char> = Vec::new();
        push_str(&mut v, "HTTP ");
        push_decimal(&mut v, status as u64);
        push_str(&mut v, ": ");
        let ghost start = v@;
        match api_error {
            Some(b) => {
                push_str(&mut v, b.error.as_str());
                push_str(&mut v, " ");
                match b.error_description {
                    Some(d) => push_str(&mut v, d.as_str()),
                    None => {},
                }
            },
            None => match api_message {
                Some(m) => push_str(&mut v, m.as_str()),
                None => push_str(&mut v, body),
            },
        }
        assert(v@ == start + error_detail_text(body@, api_error, api_message));
        ClientError::gitlab_api(string_from_chars(&v))
    }
}

} // verus!
