//! Construction of the connection upgrade request: the control-channel URL
//! is validated and the request's headers are computed here, as plain
//! values; opening the socket itself is the surrounding binary's work.

use vstd::prelude::*;
use vstd::string::*;

use crate::error::{ApplicationError, ApplicationErrorKind};
use crate::http::user_agent;

verus! {

/// Whether a character may stand in a control-channel URL: printable ASCII
/// other than the space. This rejects spaces, control characters and
/// anything outside ASCII.
pub open spec fn is_uri_char(c: char) -> bool {
    33 <= c as u32 && c as u32 <= 126
}

/// What follows the `ws` or `wss` scheme, when the URL carries one.
pub open spec fn spec_after_scheme(url: Seq<char>) -> Option<Seq<char>> {
    if has_prefix(url, "ws://"@) {
        Some(url.skip(5))
    } else if has_prefix(url, "wss://"@) {
        Some(url.skip(6))
    } else {
        None
    }
}

/// A well-formed control-channel URL: the `ws` or `wss` scheme, a nonempty
/// host, and nothing but printable non-space ASCII anywhere.
pub open spec fn valid_ws_url(url: Seq<char>) -> bool {
    &&& (spec_after_scheme(url) matches Some(rest) && rest.len() > 0 && !(rest[0] == '/' || rest[0]
        == ':' || rest[0] == '?' || rest[0] == '#'))
    &&& (forall|k: int| 0 <= k < url.len() ==> is_uri_char(#[trigger] url[k]))
}

/// Whether one character sequence starts with another.
pub open spec fn has_prefix(s: Seq<char>, prefix: Seq<char>) -> bool {
    s.len() >= prefix.len() && s.take(prefix.len() as int) == prefix
}

/// Whether a string slice starts with the given prefix.
fn str_has_prefix(s: &str, prefix: &str) -> (r: bool)
    ensures
        r == has_prefix(s@, prefix@),
{
    let n = prefix.unicode_len();
    if s.unicode_len() < n {
        assert(!has_prefix(s@, prefix@));
        return false;
    }
    let mut k: usize = 0;
    while k < n
        invariant
            n == prefix@.len(),
            s@.len() >= n,
            k <= n,
            forall|j: int| 0 <= j < k ==> s@[j] == prefix@[j],
        decreases n - k,
    {
        if s.get_char(k) != prefix.get_char(k) {
            assert(s@.take(n as int)[k as int] != prefix@[k as int]);
            return false;
        }
        k = k + 1;
    }
    assert(s@.take(n as int) =~= prefix@);
    true
}

/// Checks a control-channel URL against `valid_ws_url`.
fn check_ws_url(url: &str) -> (r: bool)
    ensures
        r == valid_ws_url(url@),
{
    proof {
        reveal_strlit("ws://");
        reveal_strlit("wss://");
    }
    let n = url.unicode_len();
    let scheme_len: usize = if str_has_prefix(url, "ws://") {
        5
    } else if str_has_prefix(url, "wss://") {
        6
    } else {
        assert(spec_after_scheme(url@) is None);
        return false;
    };
    assert(spec_after_scheme(url@) == Some(url@.skip(scheme_len as int)));
    if n <= scheme_len {
        return false;
    }
    let first = url.get_char(scheme_len);
    assert(first == url@.skip(scheme_len as int)[0]);
    if first == '/' || first == ':' || first == '?' || first == '#' {
        return false;
    }
    let mut k: usize = 0;
    while k < n
        invariant
            n == url@.len(),
            k <= n,
            forall|j: int| 0 <= j < k ==> is_uri_char(#[trigger] url@[j]),
        decreases n - k,
    {
        let c = url.get_char(k);
        if (c as u32) < 33 || (c as u32) > 126 {
            assert(!is_uri_char(url@[k as int]));
            return false;
        }
        k = k + 1;
    }
    true
}

/// Header installers for an upgrade-request builder: the bearer token, the
/// user agent and the subprotocol.
pub trait RequestBuilderExt {
    fn auth(self, token: &str) -> Self;

    fn agent(self, agent: &str) -> Self;

    fn subprotocol(self, protocol: &str) -> Self;
}

/// The value of an `Authorization` header carrying a bearer token.
pub fn bearer(token: &str) -> (value: String)
    ensures
        value@ == "Bearer "@ + token@,
{
    String::from_str("Bearer ").concat(token)
}

/// The validated upgrade request for the control channel: the URL and the
/// three headers the protocol requires, all as plain strings.
pub struct WebSocketRequest {
    url: String,
    authorization: String,
    user_agent: String,
    subprotocol: String,
}

impl WebSocketRequest {
    pub closed spec fn spec_url(&self) -> Seq<char> {
        self.url@
    }

    pub closed spec fn spec_authorization(&self) -> Seq<char> {
        self.authorization@
    }

    pub closed spec fn spec_user_agent(&self) -> Seq<char> {
        self.user_agent@
    }

    pub closed spec fn spec_subprotocol(&self) -> Seq<char> {
        self.subprotocol@
    }

    /// Builds the upgrade request for the given URL, bearer token and
    /// product version. A malformed URL is rejected with a configuration
    /// error.
    pub fn new(url: &str, token: &str, version: &str) -> (request: Result<
        WebSocketRequest,
        ApplicationError,
    >)
        ensures
            request is Ok <==> valid_ws_url(url@),
            request matches Ok(r) ==> {
                &&& r.spec_url() == url@
                &&& r.spec_authorization() == "Bearer "@ + token@
                &&& r.spec_user_agent() == "tracer/"@ + version@
                &&& r.spec_subprotocol() == "tracer"@
            },
            request matches Err(e) ==> e.spec_kind() == ApplicationErrorKind::Configuration,
    {
        if check_ws_url(url) {
            Ok(
                WebSocketRequest {
                    url: url.to_owned(),
                    authorization: bearer(token),
                    user_agent: user_agent(version),
                    subprotocol: String::from_str("tracer"),
                },
            )
        } else {
            Err(ApplicationError::configuration("malformed control channel URL"))
        }
    }

    pub fn url(&self) -> (url: &str)
        ensures
            url@ == self.spec_url(),
    {
        self.url.as_str()
    }

    pub fn authorization(&self) -> (authorization: &str)
        ensures
            authorization@ == self.spec_authorization(),
    {
        self.authorization.as_str()
    }

    pub fn user_agent(&self) -> (agent: &str)
        ensures
            agent@ == self.spec_user_agent(),
    {
        self.user_agent.as_str()
    }

    pub fn subprotocol(&self) -> (subprotocol: &str)
        ensures
            subprotocol@ == self.spec_subprotocol(),
    {
        self.subprotocol.as_str()
    }
}

} // verus!
