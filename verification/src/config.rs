//! The immutable environment configuration: host, scheme, bearer token and
//! log level, fixed for the process's lifetime, and the URLs derived from
//! them. Discovering and reading the configuration file is the surrounding
//! binary's work; the library only holds the validated values.

use vstd::prelude::*;
use vstd::string::*;

verus! {

/// The environment the agent talks to.
pub struct Environment {
    host: String,
    https: bool,
    token: String,
    logging: String,
}

/// The control-channel URL of an environment: the `ws` scheme, secured when
/// the environment uses https, followed by the host.
pub open spec fn spec_ws_url(e: Environment) -> Seq<char> {
    if e.spec_https() {
        "wss://"@ + e.spec_host()
    } else {
        "ws://"@ + e.spec_host()
    }
}

/// The API URL of an environment: the `http` scheme, secured when the
/// environment uses https, the host, and the API prefix.
pub open spec fn spec_api_url(e: Environment) -> Seq<char> {
    if e.spec_https() {
        "https://"@ + e.spec_host() + "/api"@
    } else {
        "http://"@ + e.spec_host() + "/api"@
    }
}

impl Environment {
    pub closed spec fn spec_host(&self) -> Seq<char> {
        self.host@
    }

    pub closed spec fn spec_https(&self) -> bool {
        self.https
    }

    pub closed spec fn spec_token(&self) -> Seq<char> {
        self.token@
    }

    pub closed spec fn spec_logging(&self) -> Seq<char> {
        self.logging@
    }

    pub fn new(host: String, https: bool, token: String, logging: String) -> (environment:
        Environment)
        ensures
            environment.spec_host() == host@,
            environment.spec_https() == https,
            environment.spec_token() == token@,
            environment.spec_logging() == logging@,
    {
        Environment { host, https, token, logging }
    }

    pub fn host(&self) -> (host: &str)
        ensures
            host@ == self.spec_host(),
    {
        self.host.as_str()
    }

    pub fn https(&self) -> (https: bool)
        ensures
            https == self.spec_https(),
    {
        self.https
    }

    pub fn token(&self) -> (token: &String)
        ensures
            token@ == self.spec_token(),
    {
        &self.token
    }

    /// The bearer token, as an owned string.
    pub fn token_string(&self) -> (token: String)
        ensures
            token@ == self.spec_token(),
    {
        self.token.clone()
    }

    pub fn ws_url(&self) -> (url: String)
        ensures
            url@ == spec_ws_url(*self),
    {
        if self.https {
            String::from_str("wss://").concat(self.host.as_str())
        } else {
            String::from_str("ws://").concat(self.host.as_str())
        }
    }

    pub fn api_url(&self) -> (url: String)
        ensures
            url@ == spec_api_url(*self),
    {
        if self.https {
            String::from_str("https://").concat(self.host.as_str()).concat("/api")
        } else {
            String::from_str("http://").concat(self.host.as_str()).concat("/api")
        }
    }

    pub fn logging(&self) -> (logging: &str)
        ensures
            logging@ == self.spec_logging(),
    {
        self.logging.as_str()
    }
}

/// The whole configuration: one environment.
pub struct Configuration {
    environment: Environment,
}

impl Configuration {
    pub closed spec fn spec_environment(&self) -> Environment {
        self.environment
    }

    pub fn new(environment: Environment) -> (configuration: Configuration)
        ensures
            configuration.spec_environment() == environment,
    {
        Configuration { environment }
    }

    pub fn environment(&self) -> (environment: &Environment)
        ensures
            environment == self.spec_environment(),
    {
        &self.environment
    }
}

} // verus!
