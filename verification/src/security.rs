//! Security schemes of an OpenAPI description: API keys, HTTP authentication and
//! OpenID Connect.

use vstd::prelude::*;

verus! {

/// One specification extension: its name, which begins with `x-`, and its value as
/// JSON text.
#[derive(Debug)]
pub struct Extension {
    /// The name of the extension.
    pub name: String,
    /// The value, as JSON text.
    pub value: String,
}

/// The specification extensions of an object, in order.
#[derive(Debug)]
pub struct Extensions {
    /// The extensions.
    pub entries: Vec<Extension>,
}

/// Where an API key is sent.
#[derive(Debug)]
pub enum ApiKey {
    /// In an HTTP header.
    Header(ApiKeyValue),
    /// In a query parameter.
    Query(ApiKeyValue),
    /// In a cookie.
    Cookie(ApiKeyValue),
}

/// The name and description of an API key.
#[derive(Debug)]
pub struct ApiKeyValue {
    /// The name of the header, parameter or cookie.
    pub name: String,
    /// A description, in markdown.
    pub description: Option<String>,
    /// Optional extensions `x-something`.
    pub extensions: Option<Extensions>,
}

impl ApiKeyValue {
    /// An API key of `name` with no description.
    pub fn new(name: String) -> (r: Self)
        ensures
            r.name@ == name@,
            r.description is None,
            r.extensions is None,
    {
        ApiKeyValue { name, description: None, extensions: None }
    }

    /// An API key of `name` with a description.
    pub fn with_description(name: String, description: String) -> (r: Self)
        ensures
            r.name@ == name@,
            r.description matches Some(d) && d@ == description@,
            r.extensions is None,
    {
        ApiKeyValue { name, description: Some(description), extensions: None }
    }
}

/// The schemes of HTTP authentication (RFC 7235).
#[derive(Debug, Clone, Copy, PartialEq, Eq, Structural)]
pub enum HttpAuthScheme {
    Basic,
    Bearer,
    Digest,
    Hoba,
    Mutual,
    Negotiate,
    OAuth,
    ScramSha1,
    ScramSha256,
    Vapid,
}

impl Default for HttpAuthScheme {
    /// Basic authentication.
    fn default() -> (r: HttpAuthScheme)
        ensures
            r == HttpAuthScheme::Basic,
    {
        HttpAuthScheme::Basic
    }
}

/// HTTP authentication.
#[derive(Debug)]
pub struct Http {
    /// The scheme of the `Authorization` header.
    pub scheme: HttpAuthScheme,
    /// How a bearer token is formatted, for the bearer scheme.
    pub bearer_format: Option<String>,
    /// A description, in markdown.
    pub description: Option<String>,
    /// Optional extensions `x-something`.
    pub extensions: Option<Extensions>,
}

impl Http {
    /// HTTP authentication by `scheme`, with no bearer format and no description.
    pub fn new(scheme: HttpAuthScheme) -> (r: Self)
        ensures
            r.scheme == scheme,
            r.bearer_format is None,
            r.description is None,
            r.extensions is None,
    {
        Http { scheme, bearer_format: None, description: None, extensions: None }
    }
}

impl Default for Http {
    /// Basic authentication, with no bearer format and no description.
    fn default() -> (r: Http)
        ensures
            r.scheme == HttpAuthScheme::Basic,
            r.bearer_format is None,
            r.description is None,
            r.extensions is None,
    {
        Http::new(HttpAuthScheme::Basic)
    }
}

/// OpenID Connect discovery.
#[derive(Debug)]
pub struct OpenIdConnect {
    /// The URL from which the OAuth2 configuration is discovered.
    pub open_id_connect_url: String,
    /// A description, in markdown.
    pub description: Option<String>,
    /// Optional extensions `x-something`.
    pub extensions: Option<Extensions>,
}

impl OpenIdConnect {
    /// OpenID Connect at `open_id_connect_url`, with no description.
    pub fn new(open_id_connect_url: String) -> (r: Self)
        ensures
            r.open_id_connect_url@ == open_id_connect_url@,
            r.description is None,
            r.extensions is None,
    {
        OpenIdConnect { open_id_connect_url, description: None, extensions: None }
    }

    /// OpenID Connect at `open_id_connect_url`, with a description.
    pub fn with_description(open_id_connect_url: String, description: String) -> (r: Self)
        ensures
            r.open_id_connect_url@ == open_id_connect_url@,
            r.description matches Some(d) && d@ == description@,
            r.extensions is None,
    {
        OpenIdConnect { open_id_connect_url, description: Some(description), extensions: None }
    }
}

} // verus!
