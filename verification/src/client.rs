//! The HTTP client of the domains API, which carries the user's authorization on every request.

use reqwest::header::{HeaderMap, HeaderValue, InvalidHeaderValue};
use vstd::prelude::*;
use vstd::string::*;
use vstd::utf8::*;

verus! {

/// `reqwest::Client`, opaque to the verifier: [`client_headers`] says what it adds to a request.
#[verifier::external_type_specification]
#[verifier::external_body]
pub struct ExHttpClient(reqwest::Client);

/// `reqwest::Error`, opaque to the verifier.
#[verifier::external_type_specification]
#[verifier::external_body]
pub struct ExHttpError(reqwest::Error);

/// `reqwest::header::HeaderValue`, opaque to the verifier: [`value_bytes`] says what it holds.
#[verifier::external_type_specification]
#[verifier::external_body]
pub struct ExHeaderValue(reqwest::header::HeaderValue);

/// `reqwest::header::InvalidHeaderValue`, opaque to the verifier: it holds nothing.
#[verifier::external_type_specification]
#[verifier::external_body]
pub struct ExInvalidHeaderValue(reqwest::header::InvalidHeaderValue);

/// `reqwest::header::HeaderMap`, opaque to the verifier: [`header_entries`] says what it holds.
#[verifier::external_type_specification]
#[verifier::external_body]
#[verifier::reject_recursive_types(T)]
pub struct ExHeaderMap<T>(reqwest::header::HeaderMap<T>);

/// The bytes that a header value holds.
pub uninterp spec fn value_bytes(value: HeaderValue) -> Seq<u8>;

/// The header values that a header map holds, by their lower-case names, where each name has one.
pub uninterp spec fn header_entries(headers: HeaderMap<HeaderValue>) -> Map<Seq<char>, Seq<u8>>;

/// The headers that an HTTP client adds to every request that does not set them itself.
pub uninterp spec fn client_headers(client: reqwest::Client) -> Map<Seq<char>, Seq<u8>>;

/// How an error of the HTTP library describes itself.
pub uninterp spec fn http_error_description(error: reqwest::Error) -> Seq<char>;

/// Whether bytes may stand in a header value: no control character but the tab.
pub open spec fn header_safe(bytes: Seq<u8>) -> bool {
    forall|i: int|
        0 <= i < bytes.len() ==> #[trigger] bytes[i] == 9 || (bytes[i] >= 32 && bytes[i] != 127)
}

/// Whether a text is a plain header name: up to 64 lower-case letters, digits and hyphens.
pub open spec fn header_name(name: Seq<char>) -> bool {
    &&& 1 <= name.len() <= 64
    &&& forall|i: int|
        0 <= i < name.len() ==> 'a' <= #[trigger] name[i] <= 'z' || '0' <= name[i] <= '9' || name[i]
            == '-'
}

/// `HeaderValue::from_str`: a header value of the same bytes, if they may all stand in one.
#[verifier::external_body]
pub(crate) fn header_value(text: &str) -> (value: Result<HeaderValue, InvalidHeaderValue>)
    ensures
        value is Ok <==> header_safe(encode_utf8(text@)),
        value matches Ok(value) ==> value_bytes(value) == encode_utf8(text@),
{
    HeaderValue::from_str(text)
}

/// `HeaderMap::new`: a map without headers.
#[verifier::external_body]
pub(crate) fn no_headers() -> (headers: HeaderMap<HeaderValue>)
    ensures
        header_entries(headers) == (Map::<Seq<char>, Seq<u8>>::empty()),
{
    HeaderMap::new()
}

/// `HeaderMap::insert`: the header `name` holds `value` and nothing else afterwards, and the other
/// headers are as they were. A name that is none, or too many headers, would make it panic.
#[verifier::external_body]
pub(crate) fn set_header(
    headers: &mut HeaderMap<HeaderValue>,
    name: &'static str,
    value: HeaderValue,
)
    requires
        header_name(name@),
        header_entries(*old(headers)).dom().finite(),
        header_entries(*old(headers)).dom().len() < 1000,
    ensures
        header_entries(*final(headers)) == header_entries(*old(headers)).insert(
            name@,
            value_bytes(value),
        ),
{
    headers.insert(name, value);
}

/// The headers of an HTTP client made with a user agent and default headers: these, and besides
/// them the user agent and that any content type is accepted.
pub open spec fn built_headers(
    user_agent: Seq<char>,
    headers: Map<Seq<char>, Seq<u8>>,
) -> Map<Seq<char>, Seq<u8>> {
    map![
        "accept"@ => encode_utf8("*/*"@),
        "user-agent"@ => encode_utf8(user_agent),
    ].union_prefer_right(headers)
}

/// `reqwest::Client::builder` with `user_agent`, `default_headers` and `build`: fails if the user
/// agent may not stand in a header; a client that it makes has the headers of [`built_headers`],
/// and an error that it gives is one of the builder. That a client is made is not said, since it
/// depends on the machine (its TLS certificates).
#[verifier::external_body]
pub(crate) fn build_http(
    user_agent: &str,
    headers: HeaderMap<HeaderValue>,
) -> (built: Result<reqwest::Client, reqwest::Error>)
    requires
        header_entries(headers).dom().finite(),
        header_entries(headers).dom().len() < 1000,
    ensures
        !header_safe(encode_utf8(user_agent@)) ==> built is Err,
        built matches Ok(client) ==> client_headers(client) == built_headers(
            user_agent@,
            header_entries(headers),
        ),
        built matches Err(error) ==> http_error_description(error) == "builder error"@,
{
    reqwest::Client::builder().user_agent(user_agent).default_headers(headers).build()
}

/// `to_string` of an `InvalidHeaderValue`, which holds nothing and always reads the same.
#[verifier::external_body]
pub(crate) fn header_error_text(error: &InvalidHeaderValue) -> (text: String)
    ensures
        text@ == "failed to parse header value"@,
{
    error.to_string()
}

/// `to_string` of a `reqwest::Error`: the error's description of itself, which is made of what kind
/// of error it is and of the URL in it.
#[verifier::external_body]
pub(crate) fn http_error_text(error: &reqwest::Error) -> (text: String)
    ensures
        text@ == http_error_description(*error),
{
    error.to_string()
}

/// Error building the authenticated HTTP client.
#[derive(Debug)]
pub enum BuildError {
    Header(InvalidHeaderValue),
    Http(reqwest::Error),
}

impl From<InvalidHeaderValue> for BuildError {
    fn from(error: InvalidHeaderValue) -> (built: Self) {
        BuildError::Header(error)
    }
}

impl vstd::std_specs::convert::FromSpecImpl<InvalidHeaderValue> for BuildError {
    open spec fn obeys_from_spec() -> bool {
        true
    }

    open spec fn from_spec(error: InvalidHeaderValue) -> Self {
        BuildError::Header(error)
    }
}

impl From<reqwest::Error> for BuildError {
    fn from(error: reqwest::Error) -> (built: Self) {
        BuildError::Http(error)
    }
}

impl vstd::std_specs::convert::FromSpecImpl<reqwest::Error> for BuildError {
    open spec fn obeys_from_spec() -> bool {
        true
    }

    open spec fn from_spec(error: reqwest::Error) -> Self {
        BuildError::Http(error)
    }
}

/// The message of a client that could not be built, with the cause that the HTTP library gives.
pub fn http_failure_message(cause: &str) -> (message: String)
    ensures
        message@ == "failed to build HTTP client: "@ + cause@,
{
    let mut message = "failed to build HTTP client: ".to_owned();
    message.append(cause);
    message
}

impl BuildError {
    /// The error as a message. What follows the colon in that of a client that could not be built
    /// is the HTTP library's own description of it.
    pub fn message(&self) -> (message: String)
        ensures
            self is Header ==> message@ == "invalid header value: "@
                + "failed to parse header value"@,
            self matches BuildError::Http(error) ==> message@ == "failed to build HTTP client: "@
                + http_error_description(*error),
    {
        match self {
            BuildError::Header(error) => {
                let mut message = "invalid header value: ".to_owned();
                message.append(header_error_text(error).as_str());
                message
            },
            BuildError::Http(error) => {
                let cause = http_error_text(error);
                http_failure_message(cause.as_str())
            },
        }
    }
}

/// The client of the domains API: the base URL of the host, and the HTTP client that sends the
/// requests.
pub struct DomainsClient {
    pub baseurl: String,
    pub client: reqwest::Client,
}

impl DomainsClient {
    /// Makes a client of the API out of an HTTP client.
    pub fn new_with_client(baseurl: &str, client: reqwest::Client) -> (made: Self)
        ensures
            made.baseurl@ == baseurl@,
            made.client == client,
    {
        DomainsClient { baseurl: baseurl.to_owned(), client }
    }
}

/// The headers that carry the user's authorization and identify the request.
pub open spec fn auth_entries(
    authorization: Seq<char>,
    request_id: Seq<char>,
) -> Map<Seq<char>, Seq<u8>> {
    map![
        "authorization"@ => encode_utf8(authorization),
        "x-request-id"@ => encode_utf8(request_id),
    ]
}

/// Makes the headers that every request is to carry. It fails if either value holds what may not
/// stand in a header.
pub fn auth_headers(
    authorization: &str,
    request_id: &str,
) -> (headers: Result<HeaderMap<HeaderValue>, BuildError>)
    ensures
        headers is Ok <==> header_safe(encode_utf8(authorization@)) && header_safe(
            encode_utf8(request_id@),
        ),
        headers matches Ok(headers) ==> header_entries(headers) == auth_entries(
            authorization@,
            request_id@,
        ),
        headers matches Err(error) ==> error is Header,
{
    let authorization = match header_value(authorization) {
        Ok(value) => value,
        Err(error) => return Err(BuildError::from(error)),
    };
    let request_id = match header_value(request_id) {
        Ok(value) => value,
        Err(error) => return Err(BuildError::from(error)),
    };
    proof {
        reveal_strlit("authorization");
        reveal_strlit("x-request-id");
    }
    let mut headers = no_headers();
    set_header(&mut headers, "authorization", authorization);
    set_header(&mut headers, "x-request-id", request_id);
    Ok(headers)
}

/// Makes a client of the API out of what building the HTTP client came to.
pub fn client_from_build(
    base_url: &str,
    built: Result<reqwest::Client, reqwest::Error>,
) -> (client: Result<DomainsClient, BuildError>)
    ensures
        match built {
            Ok(http) => client matches Ok(client) && client.baseurl@ == base_url@ && client.client
                == http,
            Err(error) => client == Err::<DomainsClient, BuildError>(BuildError::Http(error)),
        },
{
    match built {
        Ok(http) => Ok(DomainsClient::new_with_client(base_url, http)),
        Err(error) => Err(BuildError::from(error)),
    }
}

/// Whether a client talks to the host at the base URL and adds the authorization, the user agent
/// and the request id to every request.
pub open spec fn made_with(
    client: DomainsClient,
    base_url: Seq<char>,
    authorization: Seq<char>,
    user_agent: Seq<char>,
    request_id: Seq<char>,
) -> bool {
    &&& client.baseurl@ == base_url
    &&& client_headers(client.client) == built_headers(
        user_agent,
        auth_entries(authorization, request_id),
    )
}

/// Builds a [`DomainsClient`] whose every request carries a pre-set `Authorization` header and
/// `x-request-id`.
///
/// `authorization` is the full header value that the domain endpoints expect, such as
/// `"Bearer <token>"`. Where all three values may stand in a header, whether there is a client
/// depends on the machine alone.
pub fn client_with_auth(
    base_url: &str,
    authorization: &str,
    user_agent: &str,
    request_id: &str,
) -> (client: Result<DomainsClient, BuildError>)
    ensures
        client matches Err(BuildError::Header(_)) <==> !(header_safe(encode_utf8(authorization@))
            && header_safe(encode_utf8(request_id@))),
        client matches Err(BuildError::Http(error)) ==> http_error_description(error)
            == "builder error"@,
        !header_safe(encode_utf8(user_agent@)) ==> client is Err,
        client matches Ok(client) ==> made_with(
            client,
            base_url@,
            authorization@,
            user_agent@,
            request_id@,
        ),
{
    match auth_headers(authorization, request_id) {
        Ok(headers) => {
            let built = build_http(user_agent, headers);
            client_from_build(base_url, built)
        },
        Err(error) => Err(error),
    }
}

/// Every request of a client made by [`client_with_auth`] carries the authorization and the
/// request id that it was made with, and the user agent.
pub proof fn law_requests_carry_auth(
    authorization: Seq<char>,
    user_agent: Seq<char>,
    request_id: Seq<char>,
)
    ensures
        ({
            let headers = built_headers(user_agent, auth_entries(authorization, request_id));
            &&& headers.contains_key("authorization"@)
            &&& headers["authorization"@] == encode_utf8(authorization)
            &&& headers.contains_key("x-request-id"@)
            &&& headers["x-request-id"@] == encode_utf8(request_id)
            &&& headers.contains_key("user-agent"@)
            &&& headers["user-agent"@] == encode_utf8(user_agent)
        }),
{
    reveal_strlit("authorization");
    reveal_strlit("x-request-id");
    reveal_strlit("user-agent");
    assert("authorization"@.len() != "x-request-id"@.len());
    assert("authorization"@.len() != "user-agent"@.len());
    assert("x-request-id"@.len() != "user-agent"@.len());
}

/// A value may stand in a header exactly if each of its bytes may, whatever the others are: a tab, or
/// any byte that is no control character.
pub proof fn law_header_values(bytes: Seq<u8>, byte: u8)
    ensures
        header_safe(Seq::empty()),
        header_safe(bytes.push(byte)) <==> header_safe(bytes) && (byte == 9 || 32 <= byte <= 126
            || byte >= 128),
{
    let more = bytes.push(byte);
    if header_safe(more) {
        assert(more[bytes.len() as int] == byte);
        assert forall|i: int| 0 <= i < bytes.len() implies #[trigger] bytes[i] == 9 || (bytes[i]
            >= 32 && bytes[i] != 127) by {
            assert(more[i] == bytes[i]);
        }
    }
}

} // verus!
