//! Remote HTTP configuration source descriptor.

use crate::error::ConfigError;
use vstd::prelude::*;

verus! {

/// Authentication method for HTTP requests.
pub enum HttpAuth {
    /// No authentication.
    NoAuth,
    /// Bearer token authentication.
    Bearer(String),
    /// Basic authentication: user name and password.
    Basic(String, String),
}

/// Describes a remote HTTP source: an endpoint that serves a configuration
/// document. Performing the request is outside this library; the descriptor
/// carries what the merger needs.
pub struct HttpSource {
    /// The endpoint to fetch configuration from.
    pub url: String,
    /// How requests authenticate.
    pub auth: HttpAuth,
    /// Priority of this source.
    pub priority: i32,
    /// Request timeout, in milliseconds.
    pub timeout_ms: u64,
}

impl HttpSource {
    /// Create a new builder for constructing an HTTP source.
    pub fn builder() -> (r: HttpSourceBuilder)
        ensures
            r.url is None,
            r.auth is NoAuth,
            r.timeout_ms == 10000,
            r.priority == 250,
    {
        HttpSourceBuilder::new()
    }

    /// A human-readable name for this source.
    pub fn name(&self) -> (r: String)
        ensures
            r@ == "http:"@ + self.url@,
    {
        let mut s = String::from_str("http:");
        s.append(self.url.as_str());
        s
    }

    /// The priority of this source.
    pub fn priority(&self) -> (r: i32)
        ensures
            r == self.priority,
    {
        self.priority
    }
}

/// Builder for an [`HttpSource`].
pub struct HttpSourceBuilder {
    /// The endpoint to fetch configuration from; required.
    pub url: Option<String>,
    /// How requests authenticate.
    pub auth: HttpAuth,
    /// Request timeout, in milliseconds.
    pub timeout_ms: u64,
    /// Priority of this source.
    pub priority: i32,
}

impl HttpSourceBuilder {
    /// Create a builder with no URL, no authentication, a ten-second
    /// timeout, and a priority of 250 — above files, below environment
    /// variables.
    pub fn new() -> (r: Self)
        ensures
            r.url is None,
            r.auth is NoAuth,
            r.timeout_ms == 10000,
            r.priority == 250,
    {
        HttpSourceBuilder { url: None, auth: HttpAuth::NoAuth, timeout_ms: 10000, priority: 250 }
    }

    /// Set the URL to fetch configuration from.
    pub fn with_url(self, url: &str) -> (r: Self)
        ensures
            r.url matches Some(u) && u@ == url@,
            r.auth == self.auth,
            r.timeout_ms == self.timeout_ms,
            r.priority == self.priority,
    {
        HttpSourceBuilder { url: Some(url.to_owned()), ..self }
    }

    /// Use Bearer token authentication.
    pub fn with_auth_token(self, token: &str) -> (r: Self)
        ensures
            r.url == self.url,
            r.auth matches HttpAuth::Bearer(t) && t@ == token@,
            r.timeout_ms == self.timeout_ms,
            r.priority == self.priority,
    {
        HttpSourceBuilder { auth: HttpAuth::Bearer(token.to_owned()), ..self }
    }

    /// Use Basic authentication.
    pub fn with_basic_auth(self, username: &str, password: &str) -> (r: Self)
        ensures
            r.url == self.url,
            r.auth matches HttpAuth::Basic(u, p) && u@ == username@ && p@ == password@,
            r.timeout_ms == self.timeout_ms,
            r.priority == self.priority,
    {
        HttpSourceBuilder {
            auth: HttpAuth::Basic(username.to_owned(), password.to_owned()),
            ..self
        }
    }

    /// Set the request timeout, in milliseconds. The default is ten seconds.
    pub fn with_timeout(self, timeout_ms: u64) -> (r: Self)
        ensures
            r.url == self.url,
            r.auth == self.auth,
            r.timeout_ms == timeout_ms,
            r.priority == self.priority,
    {
        HttpSourceBuilder { timeout_ms, ..self }
    }

    /// Set the priority for this source.
    pub fn with_priority(self, priority: i32) -> (r: Self)
        ensures
            r.url == self.url,
            r.auth == self.auth,
            r.timeout_ms == self.timeout_ms,
            r.priority == priority,
    {
        HttpSourceBuilder { priority, ..self }
    }

    /// Build the HTTP source descriptor. Fails exactly when no URL was
    /// provided.
    pub fn build(self) -> (r: Result<HttpSource, ConfigError>)
        ensures
            r is Ok <==> self.url is Some,
            r matches Ok(s) ==> s.url == self.url->0 && s.auth == self.auth && s.timeout_ms
                == self.timeout_ms && s.priority == self.priority,
            r is Err ==> (r matches Err(ConfigError::LoadError(_))),
    {
        match self.url {
            None => Err(ConfigError::LoadError(String::from_str("URL is required"))),
            Some(url) => Ok(
                HttpSource {
                    url,
                    auth: self.auth,
                    priority: self.priority,
                    timeout_ms: self.timeout_ms,
                },
            ),
        }
    }
}

} // verus!
