//! The whole exchange: the checks, the request to the origin, and the
//! response to the client.

use vstd::prelude::*;
use vstd::string::{StrSliceExecFns, StringExecFns};

use crate::decimal::{decimal_string, decimal_text};
use crate::http::{
    first_value, same_name, with_field, Header, HeaderView, Headers, InboundRequest, Method,
    RequestView, Response, ResponseView,
};
use crate::playlist::{rewrite_body, rewritten_body, PlaylistError};
use crate::validate::{
    presented, validate, verdict, Outcome, Rejection, SecretConfig, SecretsView, TrustHeaders,
    IDENTITY_HEADER, PLAYLIST_EXTENSION, TOKEN_HEADER,
};

verus! {

/// The header that names the allowed methods.
pub const ALLOW_HEADER: &'static str = "Allow";

/// The header that names the kind of a body.
pub const CONTENT_TYPE_HEADER: &'static str = "Content-Type";

/// The kind of the body of a response that turns a request away.
pub const PLAIN_TEXT: &'static str = "text/plain; charset=utf-8";

/// The header that names the length of a body.
pub const CONTENT_LENGTH_HEADER: &'static str = "Content-Length";

/// The one status of the origin on which its body is rewritten.
pub const STATUS_OK: u16 = 200;

/// Why an exchange ends without a response. Neither is answered here: the
/// caller decides what the client is told.
#[derive(Clone, Debug, PartialEq, Eq)]
pub enum Failure<E> {
    /// The origin could not be reached; the transport's own error is inside.
    Transport(E),
    /// The origin answered 200, and its body could not be rewritten.
    Playlist(PlaylistError),
}

/// What is to be done with a request once it is checked.
#[derive(Clone, Debug, PartialEq, Eq)]
pub enum Step {
    /// The request is turned away with this response; nothing is fetched.
    Answer(Response),
    /// This request goes to the origin, and the response that comes back
    /// is finished with this token.
    Fetch { request: InboundRequest, token: String },
}

/// The response that turns a request away: the status, the reason as plain
/// text, and for a method that is not allowed the methods that are.
pub open spec fn rejection_view(why: Rejection) -> ResponseView {
    let kind = HeaderView { name: CONTENT_TYPE_HEADER@, value: PLAIN_TEXT@ };
    ResponseView {
        status: why.status_code(),
        headers: match why.allowed_methods() {
            Some(methods) => seq![HeaderView { name: ALLOW_HEADER@, value: methods }, kind],
            None => seq![kind],
        },
        body: vstd::utf8::encode_utf8(why.reason_text()),
    }
}

/// The request that goes to the origin: the one that came in, with the
/// identity header set to the origin's value. Whatever the client sent
/// under that name is gone.
pub open spec fn forwarded(request: RequestView, secrets: SecretsView) -> RequestView {
    RequestView {
        method: request.method,
        path: request.path,
        headers: with_field(request.headers, IDENTITY_HEADER@, secrets.origin_identity),
    }
}

/// A response with another body in place of its own. The status stays, and
/// so do the headers, but for the length: where the response names one, it
/// names the length of the new body.
pub open spec fn with_body(response: ResponseView, body: Seq<u8>) -> ResponseView {
    ResponseView {
        status: response.status,
        headers: if first_value(response.headers, CONTENT_LENGTH_HEADER@) is Some {
            with_field(response.headers, CONTENT_LENGTH_HEADER@, decimal_text(body.len()))
        } else {
            response.headers
        },
        body,
    }
}

/// The response to the client for a response of the origin. Any status but
/// 200 passes as it is. On 200 the body is the rewritten playlist.
pub open spec fn finished(origin: ResponseView, token: Seq<char>) -> Result<
    ResponseView,
    PlaylistError,
> {
    if origin.status != STATUS_OK {
        Ok(origin)
    } else {
        match rewritten_body(origin.body, token) {
            Ok(body) => Ok(with_body(origin, body)),
            Err(error) => Err(error),
        }
    }
}

/// How an exchange ends, given what the transport came back with.
pub open spec fn concluded<E>(
    origin: Result<Response, E>,
    token: Seq<char>,
    out: Result<Response, Failure<E>>,
) -> bool {
    match origin {
        Err(error) => out == Err::<Response, Failure<E>>(Failure::Transport(error)),
        Ok(response) => match finished(response@, token) {
            Ok(answer) => out is Ok && out->Ok_0@ == answer,
            Err(error) => out == Err::<Response, Failure<E>>(Failure::Playlist(error)),
        },
    }
}

/// What handling a request comes to. A request that fails a check is
/// answered with the response for the check it fails. For any other request
/// `fetch` was called with the request for the origin, and what it returned
/// decides: its error is handed on, and its response is finished with the
/// token that the request carried.
pub open spec fn answered<E, F: FnOnce(InboundRequest) -> Result<Response, E>>(
    request: RequestView,
    secrets: SecretsView,
    fetch: F,
    out: Result<Response, Failure<E>>,
) -> bool {
    match verdict(request, secrets) {
        Outcome::Rejected(why) => out is Ok && out->Ok_0@ == rejection_view(why),
        Outcome::Proceed => exists|sent: InboundRequest, origin: Result<Response, E>|
            {
                &&& sent@ == forwarded(request, secrets)
                &&& #[trigger] fetch.ensures((sent,), origin)
                &&& concluded(origin, presented(request.headers, TOKEN_HEADER@), out)
            },
    }
}

/// Builds the response that turns a request away.
pub fn reject(why: Rejection) -> (out: Response)
    ensures
        out@ == rejection_view(why),
{
    let mut fields: Vec<Header> = Vec::new();
    match why.allow() {
        Some(methods) => {
            fields.push(
                Header { name: String::from_str(ALLOW_HEADER), value: String::from_str(methods) },
            );
        },
        None => {},
    }
    fields.push(
        Header { name: String::from_str(CONTENT_TYPE_HEADER), value: String::from_str(PLAIN_TEXT) },
    );
    let out = Response {
        status: why.status(),
        headers: Headers { fields },
        body: why.reason().as_bytes_vec(),
    };
    assert(out@.headers =~= rejection_view(why).headers);
    out
}

/// Makes the request to the origin out of the request that came in.
pub fn forward(request: InboundRequest, secrets: &SecretConfig) -> (out: InboundRequest)
    ensures
        out@ == forwarded(request@, secrets@),
{
    let mut out = request;
    out.headers.set(IDENTITY_HEADER, secrets.origin_identity.as_str());
    out
}

/// Checks a request and says what is to be done with it: the response for
/// the first check it fails, or the request for the origin together with
/// the token that the request carried.
pub fn begin(request: InboundRequest, secrets: &SecretConfig) -> (step: Step)
    ensures
        match verdict(request@, secrets@) {
            Outcome::Rejected(why) => step is Answer && step->Answer_0@ == rejection_view(why),
            Outcome::Proceed => {
                &&& step is Fetch
                &&& step->request@ == forwarded(request@, secrets@)
                &&& step->token@ == presented(request@.headers, TOKEN_HEADER@)
            },
        },
{
    match validate(&request, secrets) {
        Outcome::Rejected(why) => Step::Answer(reject(why)),
        Outcome::Proceed => {
            let token = TrustHeaders::of(&request).session_token;
            Step::Fetch { request: forward(request, secrets), token }
        },
    }
}

/// Puts another body in a response, and sets the length that the response
/// names, if it names one.
pub fn replace_body(response: Response, body: Vec<u8>) -> (out: Response)
    ensures
        out@ == with_body(response@, body@),
{
    let mut headers = response.headers;
    let named = headers.get(CONTENT_LENGTH_HEADER).is_some();
    if named {
        headers.set(CONTENT_LENGTH_HEADER, decimal_string(body.len()).as_str());
    }
    Response { status: response.status, headers, body }
}

/// Makes the response to the client out of the response of the origin.
pub fn finish(origin: Response, token: &str) -> (out: Result<Response, PlaylistError>)
    ensures
        match out {
            Ok(answer) => finished(origin@, token@) == Ok::<ResponseView, PlaylistError>(answer@),
            Err(error) => finished(origin@, token@) == Err::<ResponseView, PlaylistError>(error),
        },
{
    if origin.status != STATUS_OK {
        return Ok(origin);
    }
    match rewrite_body(origin.body.as_slice(), token) {
        Ok(body) => Ok(replace_body(origin, body)),
        Err(error) => Err(error),
    }
}

/// Handles one request. The request is checked; a request that fails a
/// check is answered at once and nothing is fetched. Otherwise `fetch` is
/// called once, with the request for the origin, and what it returns
/// decides the rest: its error is handed on, a response with any status but
/// 200 is handed on as it is, and on 200 the body is rewritten with the
/// token that the request carried.
pub fn handle<E, F: FnOnce(InboundRequest) -> Result<Response, E>>(
    request: InboundRequest,
    secrets: &SecretConfig,
    fetch: F,
) -> (out: Result<Response, Failure<E>>)
    requires
        forall|sent: InboundRequest|
            sent@ == forwarded(request@, secrets@) ==> #[trigger] fetch.requires((sent,)),
    ensures
        answered(request@, secrets@, fetch, out),
{
    match begin(request, secrets) {
        Step::Answer(response) => Ok(response),
        Step::Fetch { request: sent, token } => {
            let ghost handed = sent;
            let origin = fetch(sent);
            let ghost came = origin;
            let out = match origin {
                Err(error) => Err(Failure::Transport(error)),
                Ok(response) => match finish(response, token.as_str()) {
                    Ok(answer) => Ok(answer),
                    Err(error) => Err(Failure::Playlist(error)),
                },
            };
            assert(fetch.ensures((handed,), came));
            assert(concluded(came, presented(request@.headers, TOKEN_HEADER@), out));
            out
        },
    }
}

/// However a request is handled, one that fails a check gets the status of
/// the first check it fails. With no identity value configured that is 500,
/// whatever the request carries. Under a configured value, the wrong
/// identity or none is 403. With the right identity, an empty token or none
/// is 400; with a token, a method that is not GET is 405 and the response
/// names GET and HEAD; and a GET for a path that is no playlist's is 400.
pub proof fn lemma_failed_check_decides_status<E, F: FnOnce(InboundRequest) -> Result<Response, E>>(
    request: RequestView,
    secrets: SecretsView,
    fetch: F,
    out: Result<Response, Failure<E>>,
)
    requires
        answered(request, secrets, fetch, out),
    ensures
        secrets.expected_identity.len() == 0 ==> out is Ok && out->Ok_0.status == 500,
        secrets.expected_identity.len() > 0 && presented(request.headers, IDENTITY_HEADER@)
            != secrets.expected_identity ==> out is Ok && out->Ok_0.status == 403,
        secrets.expected_identity.len() > 0 && presented(request.headers, IDENTITY_HEADER@)
            == secrets.expected_identity && presented(request.headers, TOKEN_HEADER@).len() == 0
            ==> out is Ok && out->Ok_0.status == 400,
        secrets.expected_identity.len() > 0 && presented(request.headers, IDENTITY_HEADER@)
            == secrets.expected_identity && presented(request.headers, TOKEN_HEADER@).len() > 0
            && request.method != Method::Get ==> out is Ok && out->Ok_0.status == 405
            && first_value(out->Ok_0.headers@, ALLOW_HEADER@) == Some("GET, HEAD"@),
        secrets.expected_identity.len() > 0 && presented(request.headers, IDENTITY_HEADER@)
            == secrets.expected_identity && request.method == Method::Get
            && !PLAYLIST_EXTENSION@.is_suffix_of(request.path) ==> out is Ok && out->Ok_0.status
            == 400,
{
    lemma_rejection_carries_status(Rejection::MethodNotAllowed);
}

/// The request to the origin has the method and the path of the request
/// that came in, and under the identity header the origin's value: what the
/// client presented there is never forwarded. Every other header reads as
/// it did.
pub proof fn lemma_origin_sees_origin_identity(
    request: RequestView,
    secrets: SecretsView,
    name: Seq<char>,
)
    ensures
        forwarded(request, secrets).method == request.method,
        forwarded(request, secrets).path == request.path,
        presented(forwarded(request, secrets).headers, IDENTITY_HEADER@) == secrets.origin_identity,
        !same_name(name, IDENTITY_HEADER@) ==> first_value(forwarded(request, secrets).headers, name)
            == first_value(request.headers, name),
{
    crate::http::lemma_set_name_reads_back(
        request.headers,
        IDENTITY_HEADER@,
        secrets.origin_identity,
    );
    if !same_name(name, IDENTITY_HEADER@) {
        crate::http::lemma_set_keeps_other_names(
            request.headers,
            IDENTITY_HEADER@,
            secrets.origin_identity,
            name,
        );
    }
}

/// A response of the origin with any status but 200 goes to the client as
/// it is, status, headers and body, whatever the body holds.
pub proof fn lemma_other_status_passes_unchanged(origin: ResponseView, token: Seq<char>)
    requires
        origin.status != 200,
    ensures
        finished(origin, token) == Ok::<ResponseView, PlaylistError>(origin),
{
}

/// A response of the origin with status 200 keeps its status and gets the
/// rewritten body, or no response is made of it. A header keeps what it
/// reads, but for the length: if the origin names one, the response names
/// the length of the new body.
pub proof fn lemma_ok_status_changes_body_only(
    origin: ResponseView,
    token: Seq<char>,
    name: Seq<char>,
)
    requires
        origin.status == 200,
    ensures
        match finished(origin, token) {
            Ok(answer) => {
                &&& answer.status == 200
                &&& rewritten_body(origin.body, token) == Ok::<Seq<u8>, PlaylistError>(answer.body)
                &&& !same_name(name, CONTENT_LENGTH_HEADER@) ==> first_value(answer.headers, name)
                    == first_value(origin.headers, name)
                &&& first_value(origin.headers, CONTENT_LENGTH_HEADER@) is None ==> answer.headers
                    == origin.headers
                &&& first_value(origin.headers, CONTENT_LENGTH_HEADER@) is Some ==> first_value(
                    answer.headers,
                    CONTENT_LENGTH_HEADER@,
                ) == Some(decimal_text(answer.body.len()))
            },
            Err(error) => rewritten_body(origin.body, token) == Err::<Seq<u8>, PlaylistError>(
                error,
            ),
        },
{
    if let Ok(answer) = finished(origin, token) {
        let length = decimal_text(answer.body.len());
        if !same_name(name, CONTENT_LENGTH_HEADER@) {
            crate::http::lemma_set_keeps_other_names(
                origin.headers,
                CONTENT_LENGTH_HEADER@,
                length,
                name,
            );
        }
        crate::http::lemma_set_name_reads_back(origin.headers, CONTENT_LENGTH_HEADER@, length);
    }
}

/// The response that turns a request away carries the status of the reason;
/// with no identity value configured that status is 500.
pub proof fn lemma_rejection_carries_status(why: Rejection)
    ensures
        rejection_view(why).status == why.status_code(),
        rejection_view(Rejection::Misconfigured).status == 500,
        why.allowed_methods() matches Some(methods) ==> first_value(
            rejection_view(why).headers,
            ALLOW_HEADER@,
        ) == Some(methods),
{
    crate::http::lemma_same_name_is_equivalence(ALLOW_HEADER@, ALLOW_HEADER@, ALLOW_HEADER@);
    if why.allowed_methods() is Some {
        let fields = rejection_view(why).headers;
        assert(fields[0].name == ALLOW_HEADER@);
    }
}

} // verus!
