//! The checks a request passes before anything is asked of the origin.

use vstd::prelude::*;
use vstd::std_specs::iter::IteratorSpec;
use vstd::string::StringExecFns;

use crate::http::{first_value, HeaderView, InboundRequest, Method, RequestView};

verus! {

broadcast use vstd::string::group_string_axioms;

/// The header in which a client says who it is.
pub const IDENTITY_HEADER: &'static str = "X-DEMO-CDN";

/// The header that carries the session token.
pub const TOKEN_HEADER: &'static str = "X-DEMO-LONG-TOKEN";

/// What the path of a playlist ends in.
pub const PLAYLIST_EXTENSION: &'static str = ".m3u8";

/// The two configured secrets: the value a client has to present, and the
/// value that is presented to the origin in its place.
#[derive(Clone, Debug, PartialEq, Eq)]
pub struct SecretConfig {
    pub expected_identity: String,
    pub origin_identity: String,
}

/// What a `SecretConfig` is to a contract.
pub struct SecretsView {
    pub expected_identity: Seq<char>,
    pub origin_identity: Seq<char>,
}

impl View for SecretConfig {
    type V = SecretsView;

    open spec fn view(&self) -> SecretsView {
        SecretsView {
            expected_identity: self.expected_identity@,
            origin_identity: self.origin_identity@,
        }
    }
}

/// What a store of secrets holds under a key: a key that it lacks reads as
/// the empty value, which stands for unset.
pub open spec fn looked_up(found: Option<String>) -> Seq<char> {
    match found {
        Some(value) => value@,
        None => Seq::empty(),
    }
}

impl SecretConfig {
    /// The configuration out of what the store of secrets answered for the
    /// two keys.
    pub fn from_lookups(expected: Option<String>, origin: Option<String>) -> (out: SecretConfig)
        ensures
            out@.expected_identity == looked_up(expected),
            out@.origin_identity == looked_up(origin),
    {
        SecretConfig {
            expected_identity: match expected {
                Some(value) => value,
                None => String::new(),
            },
            origin_identity: match origin {
                Some(value) => value,
                None => String::new(),
            },
        }
    }
}

/// Why a request is turned away.
#[derive(Clone, Copy, Debug, PartialEq, Eq, Structural)]
pub enum Rejection {
    /// No identity value is configured: the service cannot tell anyone.
    Misconfigured,
    /// The client did not present the configured identity value.
    Denied,
    /// The session token is absent or empty.
    MissingToken,
    /// The method is not GET.
    MethodNotAllowed,
    /// The path is not that of a playlist.
    BadPath,
}

impl Rejection {
    /// The status code of the response that turns the request away.
    pub open spec fn status_code(self) -> u16 {
        match self {
            Rejection::Misconfigured => 500,
            Rejection::Denied => 403,
            Rejection::MissingToken => 400,
            Rejection::MethodNotAllowed => 405,
            Rejection::BadPath => 400,
        }
    }

    /// The short text that the response carries; it says nothing of the
    /// inside of the service.
    pub open spec fn reason_text(self) -> Seq<char> {
        match self {
            Rejection::Misconfigured => "Service Configuration Invalid"@,
            Rejection::Denied => "Denied"@,
            Rejection::MissingToken => "Missing Token"@,
            Rejection::MethodNotAllowed => "This method is not allowed\n"@,
            Rejection::BadPath => "Bad Request"@,
        }
    }

    /// The methods that the response names as allowed, where it names any.
    pub open spec fn allowed_methods(self) -> Option<Seq<char>> {
        match self {
            Rejection::MethodNotAllowed => Some("GET, HEAD"@),
            _ => None,
        }
    }

    /// The status code of the response that turns the request away.
    pub fn status(self) -> (code: u16)
        ensures
            code == self.status_code(),
    {
        match self {
            Rejection::Misconfigured => 500,
            Rejection::Denied => 403,
            Rejection::MissingToken => 400,
            Rejection::MethodNotAllowed => 405,
            Rejection::BadPath => 400,
        }
    }

    /// The short text that the response carries.
    pub fn reason(self) -> (text: &'static str)
        ensures
            text@ == self.reason_text(),
    {
        match self {
            Rejection::Misconfigured => "Service Configuration Invalid",
            Rejection::Denied => "Denied",
            Rejection::MissingToken => "Missing Token",
            Rejection::MethodNotAllowed => "This method is not allowed\n",
            Rejection::BadPath => "Bad Request",
        }
    }

    /// The value of the `Allow` header of the response, if it has one.
    pub fn allow(self) -> (methods: Option<&'static str>)
        ensures
            match methods {
                Some(text) => self.allowed_methods() == Some(text@),
                None => self.allowed_methods() is None,
            },
    {
        match self {
            Rejection::MethodNotAllowed => Some("GET, HEAD"),
            _ => None,
        }
    }
}

/// What the checks say of a request.
#[derive(Clone, Copy, Debug, PartialEq, Eq, Structural)]
pub enum Outcome {
    Proceed,
    Rejected(Rejection),
}

/// The value a request presents under a name; an absent header reads as
/// the empty value.
pub open spec fn presented(headers: Seq<HeaderView>, name: Seq<char>) -> Seq<char> {
    match first_value(headers, name) {
        Some(value) => value,
        None => Seq::empty(),
    }
}

/// The two headers of a request that say whether it is trusted.
#[derive(Clone, Debug, PartialEq, Eq)]
pub struct TrustHeaders {
    /// What the client presents as its identity.
    pub identity: String,
    /// The session token. It is never looked into: it is only asked
    /// whether it is empty, and put in front of URIs.
    pub session_token: String,
}

impl TrustHeaders {
    /// Reads the two headers of a request; one that the request lacks reads
    /// as empty.
    pub fn of(request: &InboundRequest) -> (out: TrustHeaders)
        ensures
            out.identity@ == presented(request@.headers, IDENTITY_HEADER@),
            out.session_token@ == presented(request@.headers, TOKEN_HEADER@),
    {
        let identity = match request.headers.get(IDENTITY_HEADER) {
            Some(value) => String::from_str(value),
            None => String::new(),
        };
        let session_token = match request.headers.get(TOKEN_HEADER) {
            Some(value) => String::from_str(value),
            None => String::new(),
        };
        TrustHeaders { identity, session_token }
    }
}

/// The checks in their order; the first that fails decides. A missing
/// configuration is found before the client is blamed for anything.
pub open spec fn verdict(request: RequestView, secrets: SecretsView) -> Outcome {
    if secrets.expected_identity.len() == 0 {
        Outcome::Rejected(Rejection::Misconfigured)
    } else if presented(request.headers, IDENTITY_HEADER@) != secrets.expected_identity {
        Outcome::Rejected(Rejection::Denied)
    } else if presented(request.headers, TOKEN_HEADER@).len() == 0 {
        Outcome::Rejected(Rejection::MissingToken)
    } else if request.method != Method::Get {
        Outcome::Rejected(Rejection::MethodNotAllowed)
    } else if !PLAYLIST_EXTENSION@.is_suffix_of(request.path) {
        Outcome::Rejected(Rejection::BadPath)
    } else {
        Outcome::Proceed
    }
}

/// Whether a text ends in another.
pub fn ends_with(text: &str, ending: &str) -> (ends: bool)
    ensures
        ends == ending@.is_suffix_of(text@),
{
    let long = text.unicode_len();
    let short = ending.unicode_len();
    if short > long {
        return false;
    }
    let skipped = long - short;
    let mut tail = text.chars();
    let mut at: usize = 0;
    while at < skipped
        invariant
            at <= skipped,
            skipped <= text@.len(),
            tail.remaining() == text@.skip(at as int),
        decreases skipped - at,
    {
        let passed = tail.next();
        assert(text@.skip(at as int).drop_first() == text@.skip(at + 1));
        at += 1;
    }
    let mut rest = ending.chars();
    let ghost mut seen: int = 0;
    loop
        invariant
            skipped + short == long,
            long == text@.len(),
            short == ending@.len(),
            0 <= seen <= short,
            tail.remaining() == text@.skip(skipped + seen),
            rest.remaining() == ending@.skip(seen),
            ending@.take(seen) == text@.subrange(skipped as int, skipped + seen),
        decreases short - seen,
    {
        let x = tail.next();
        let y = rest.next();
        match (x, y) {
            (Some(p), Some(q)) => {
                assert(p == text@[skipped + seen] && q == ending@[seen]);
                if p != q {
                    assert(text@.subrange(skipped as int, long as int)[seen] != ending@[seen]);
                    return false;
                }
                proof {
                    assert(text@.skip(skipped + seen).drop_first() == text@.skip(skipped + seen + 1));
                    assert(ending@.skip(seen).drop_first() == ending@.skip(seen + 1));
                    assert(ending@.take(seen + 1) == ending@.take(seen).push(q));
                    assert(text@.subrange(skipped as int, skipped + seen + 1) == text@.subrange(
                        skipped as int,
                        skipped + seen,
                    ).push(p));
                    seen = seen + 1;
                }
            },
            _ => {
                assert(ending@.skip(seen).len() == short - seen);
                assert(text@.skip(skipped + seen).len() == short - seen);
                assert(seen == short);
                assert(ending@.take(seen) == ending@);
                return true;
            },
        }
    }
}

/// Runs the checks on a request.
pub fn validate(request: &InboundRequest, secrets: &SecretConfig) -> (out: Outcome)
    ensures
        out == verdict(request@, secrets@),
{
    if secrets.expected_identity.as_str().is_empty() {
        return Outcome::Rejected(Rejection::Misconfigured);
    }
    let trust = TrustHeaders::of(request);
    if !(trust.identity == secrets.expected_identity) {
        return Outcome::Rejected(Rejection::Denied);
    }
    if trust.session_token.as_str().is_empty() {
        return Outcome::Rejected(Rejection::MissingToken);
    }
    if request.method != Method::Get {
        return Outcome::Rejected(Rejection::MethodNotAllowed);
    }
    if !ends_with(request.path.as_str(), PLAYLIST_EXTENSION) {
        return Outcome::Rejected(Rejection::BadPath);
    }
    Outcome::Proceed
}

/// With no identity value configured every request is answered 500,
/// whatever it carries.
pub proof fn lemma_unset_secret_is_server_error(request: RequestView, secrets: SecretsView)
    requires
        secrets.expected_identity.len() == 0,
    ensures
        verdict(request, secrets) == Outcome::Rejected(Rejection::Misconfigured),
        Rejection::Misconfigured.status_code() == 500,
{
}

/// Under a configured identity value, a request that does not present it,
/// or presents another, is answered 403, whatever else it carries.
pub proof fn lemma_wrong_identity_is_forbidden(request: RequestView, secrets: SecretsView)
    requires
        secrets.expected_identity.len() > 0,
        presented(request.headers, IDENTITY_HEADER@) != secrets.expected_identity,
    ensures
        verdict(request, secrets) == Outcome::Rejected(Rejection::Denied),
        Rejection::Denied.status_code() == 403,
{
}

/// A request with the right identity and no token, or an empty one, is
/// answered 400.
pub proof fn lemma_empty_token_is_bad_request(request: RequestView, secrets: SecretsView)
    requires
        secrets.expected_identity.len() > 0,
        presented(request.headers, IDENTITY_HEADER@) == secrets.expected_identity,
        presented(request.headers, TOKEN_HEADER@).len() == 0,
    ensures
        verdict(request, secrets) == Outcome::Rejected(Rejection::MissingToken),
        Rejection::MissingToken.status_code() == 400,
{
}

/// A request with the right identity and a token whose method is not GET
/// is answered 405, and the answer names GET and HEAD as allowed.
pub proof fn lemma_other_method_is_not_allowed(request: RequestView, secrets: SecretsView)
    requires
        secrets.expected_identity.len() > 0,
        presented(request.headers, IDENTITY_HEADER@) == secrets.expected_identity,
        presented(request.headers, TOKEN_HEADER@).len() > 0,
        request.method != Method::Get,
    ensures
        verdict(request, secrets) == Outcome::Rejected(Rejection::MethodNotAllowed),
        Rejection::MethodNotAllowed.status_code() == 405,
        Rejection::MethodNotAllowed.allowed_methods() == Some("GET, HEAD"@),
{
}

/// A GET with the right identity whose path does not end in the playlist
/// extension is answered 400, with a token or without.
pub proof fn lemma_other_path_is_bad_request(request: RequestView, secrets: SecretsView)
    requires
        secrets.expected_identity.len() > 0,
        presented(request.headers, IDENTITY_HEADER@) == secrets.expected_identity,
        request.method == Method::Get,
        !PLAYLIST_EXTENSION@.is_suffix_of(request.path),
    ensures
        verdict(request, secrets) is Rejected,
        verdict(request, secrets)->Rejected_0.status_code() == 400,
        presented(request.headers, TOKEN_HEADER@).len() > 0 ==> verdict(request, secrets)
            == Outcome::Rejected(Rejection::BadPath),
{
}

/// A request proceeds exactly when it passes every check.
pub proof fn lemma_proceeds_when_all_checks_pass(request: RequestView, secrets: SecretsView)
    ensures
        verdict(request, secrets) == Outcome::Proceed <==> {
            &&& secrets.expected_identity.len() > 0
            &&& presented(request.headers, IDENTITY_HEADER@) == secrets.expected_identity
            &&& presented(request.headers, TOKEN_HEADER@).len() > 0
            &&& request.method == Method::Get
            &&& PLAYLIST_EXTENSION@.is_suffix_of(request.path)
        },
{
}

} // verus!
