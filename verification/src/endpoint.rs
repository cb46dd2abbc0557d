//! Where on the host each operation of the API goes.

use vstd::prelude::*;
use vstd::string::*;
use vstd::utf8::*;

use crate::api::{ApiCall, CallView};
use crate::client::{client_headers, law_requests_carry_auth, made_with, DomainsClient};

verus! {

/// Whether a byte is escaped in a path segment: a control character, one outside ASCII, or one of
/// the characters that end or structure a segment.
pub open spec fn escaped_in_path(byte: u8) -> bool {
    ||| byte <= 0x20
    ||| byte >= 0x7f
    ||| byte == 0x22
    ||| byte == 0x23
    ||| byte == 0x25
    ||| byte == 0x2f
    ||| byte == 0x3c
    ||| byte == 0x3e
    ||| byte == 0x3f
    ||| byte == 0x60
    ||| byte == 0x7b
    ||| byte == 0x7d
}

/// The upper-case hexadecimal digit of a number below sixteen.
pub open spec fn hex_digit(n: int) -> char {
    if n < 10 {
        (48 + n) as char
    } else {
        (55 + n) as char
    }
}

/// A byte as it stands in a path segment.
pub open spec fn path_byte(byte: u8) -> Seq<char> {
    if escaped_in_path(byte) {
        seq!['%', hex_digit(byte as int / 16), hex_digit(byte as int % 16)]
    } else {
        seq![byte as char]
    }
}

/// Bytes as they stand in a path segment.
pub open spec fn path_segment(bytes: Seq<u8>) -> Seq<char>
    decreases bytes.len(),
{
    if bytes.len() == 0 {
        Seq::empty()
    } else {
        path_byte(bytes[0]) + path_segment(bytes.drop_first())
    }
}

/// `progenitor_client::encode_path`: the text as a path segment, each escaped byte of its UTF-8
/// encoding as a percent sign and two hexadecimal digits.
#[verifier::external_body]
pub(crate) fn encode_segment(text: &str) -> (segment: String)
    ensures
        segment@ == path_segment(encode_utf8(text@)),
{
    progenitor_client::encode_path(text)
}

/// The HTTP methods that the operations use.
#[derive(Debug, Clone, Copy, PartialEq, Eq, Structural)]
pub enum Method {
    Get,
    Post,
    Put,
    Delete,
}

/// The operations of the API, with the parameters that stand in their paths. Those of the newer
/// generation live under `/v3/domains`; the older one still serves the last two.
#[derive(Debug)]
pub enum Operation {
    SuggestDomains,
    GetDomainAvailability,
    CheckAvailability,
    QuoteDomainRegistration,
    RegisterDomain,
    GetOperation { operation_id: String },
    GetDomain { domain_name: String },
    UpdateNameservers { domain_name: String },
    ListDnsRecords { zone: String },
    CreateDnsRecord { zone: String },
    ReplaceDnsRecord { zone: String, record_id: String },
    DeleteDnsRecord { zone: String, record_id: String },
    List,
    Agreements,
}

/// The model of an [`Operation`].
pub enum OperationView {
    SuggestDomains,
    GetDomainAvailability,
    CheckAvailability,
    QuoteDomainRegistration,
    RegisterDomain,
    GetOperation { operation_id: Seq<char> },
    GetDomain { domain_name: Seq<char> },
    UpdateNameservers { domain_name: Seq<char> },
    ListDnsRecords { zone: Seq<char> },
    CreateDnsRecord { zone: Seq<char> },
    ReplaceDnsRecord { zone: Seq<char>, record_id: Seq<char> },
    DeleteDnsRecord { zone: Seq<char>, record_id: Seq<char> },
    List,
    Agreements,
}

impl DeepView for Operation {
    type V = OperationView;

    open spec fn deep_view(&self) -> OperationView {
        match self {
            Operation::SuggestDomains => OperationView::SuggestDomains,
            Operation::GetDomainAvailability => OperationView::GetDomainAvailability,
            Operation::CheckAvailability => OperationView::CheckAvailability,
            Operation::QuoteDomainRegistration => OperationView::QuoteDomainRegistration,
            Operation::RegisterDomain => OperationView::RegisterDomain,
            Operation::GetOperation { operation_id } => OperationView::GetOperation {
                operation_id: operation_id@,
            },
            Operation::GetDomain { domain_name } => OperationView::GetDomain {
                domain_name: domain_name@,
            },
            Operation::UpdateNameservers { domain_name } => OperationView::UpdateNameservers {
                domain_name: domain_name@,
            },
            Operation::ListDnsRecords { zone } => OperationView::ListDnsRecords { zone: zone@ },
            Operation::CreateDnsRecord { zone } => OperationView::CreateDnsRecord { zone: zone@ },
            Operation::ReplaceDnsRecord { zone, record_id } => OperationView::ReplaceDnsRecord {
                zone: zone@,
                record_id: record_id@,
            },
            Operation::DeleteDnsRecord { zone, record_id } => OperationView::DeleteDnsRecord {
                zone: zone@,
                record_id: record_id@,
            },
            Operation::List => OperationView::List,
            Operation::Agreements => OperationView::Agreements,
        }
    }
}

/// The method of an operation.
pub open spec fn operation_method(operation: OperationView) -> Method {
    match operation {
        OperationView::SuggestDomains => Method::Get,
        OperationView::GetDomainAvailability => Method::Get,
        OperationView::CheckAvailability => Method::Post,
        OperationView::QuoteDomainRegistration => Method::Post,
        OperationView::RegisterDomain => Method::Post,
        OperationView::GetOperation { .. } => Method::Get,
        OperationView::GetDomain { .. } => Method::Get,
        OperationView::UpdateNameservers { .. } => Method::Put,
        OperationView::ListDnsRecords { .. } => Method::Get,
        OperationView::CreateDnsRecord { .. } => Method::Post,
        OperationView::ReplaceDnsRecord { .. } => Method::Put,
        OperationView::DeleteDnsRecord { .. } => Method::Delete,
        OperationView::List => Method::Get,
        OperationView::Agreements => Method::Get,
    }
}

/// The status with which the API answers an operation that succeeded: a creation with that of a new
/// resource, work taken on for later with that of an accepted request, a deletion with that of an
/// answer without content, and everything else with the plain one.
pub open spec fn success_status(operation: OperationView) -> u16 {
    match operation {
        OperationView::CreateDnsRecord { .. } => 201,
        OperationView::RegisterDomain => 202,
        OperationView::UpdateNameservers { .. } => 202,
        OperationView::DeleteDnsRecord { .. } => 204,
        _ => 200,
    }
}

/// The path of a domain.
pub open spec fn domain_path(domain_name: Seq<char>) -> Seq<char> {
    "/v3/domains/domain-names/"@ + path_segment(encode_utf8(domain_name))
}

/// The path of the records of a zone.
pub open spec fn zone_path(zone: Seq<char>) -> Seq<char> {
    "/v3/domains/zones/"@ + path_segment(encode_utf8(zone)) + "/dns-records"@
}

/// The path of one record of a zone.
pub open spec fn record_path(zone: Seq<char>, record_id: Seq<char>) -> Seq<char> {
    zone_path(zone) + "/"@ + path_segment(encode_utf8(record_id))
}

/// The absolute path of an operation.
pub open spec fn operation_path(operation: OperationView) -> Seq<char> {
    match operation {
        OperationView::SuggestDomains => "/v3/domains/suggestions"@,
        OperationView::GetDomainAvailability => "/v3/domains/check-availability"@,
        OperationView::CheckAvailability => "/v3/domains/check-availability"@,
        OperationView::QuoteDomainRegistration => "/v3/domains/registration-quotes"@,
        OperationView::RegisterDomain => "/v3/domains/registrations"@,
        OperationView::GetOperation { operation_id } => "/v3/domains/operations/"@ + path_segment(
            encode_utf8(operation_id),
        ),
        OperationView::GetDomain { domain_name } => domain_path(domain_name),
        OperationView::UpdateNameservers { domain_name } => domain_path(domain_name)
            + "/nameservers"@,
        OperationView::ListDnsRecords { zone } => zone_path(zone),
        OperationView::CreateDnsRecord { zone } => zone_path(zone),
        OperationView::ReplaceDnsRecord { zone, record_id } => record_path(zone, record_id),
        OperationView::DeleteDnsRecord { zone, record_id } => record_path(zone, record_id),
        OperationView::List => "/v1/domains"@,
        OperationView::Agreements => "/v1/domains/agreements"@,
    }
}

/// The path of a domain, written out.
fn domain_path_text(domain_name: &str) -> (path: String)
    ensures
        path@ == domain_path(domain_name@),
{
    let mut path = "/v3/domains/domain-names/".to_owned();
    path.append(encode_segment(domain_name).as_str());
    path
}

/// The path of the records of a zone, written out.
fn zone_path_text(zone: &str) -> (path: String)
    ensures
        path@ == zone_path(zone@),
{
    let mut path = "/v3/domains/zones/".to_owned();
    path.append(encode_segment(zone).as_str());
    path.append("/dns-records");
    path
}

/// The path of one record of a zone, written out.
fn record_path_text(zone: &str, record_id: &str) -> (path: String)
    ensures
        path@ == record_path(zone@, record_id@),
{
    let mut path = zone_path_text(zone);
    path.append("/");
    path.append(encode_segment(record_id).as_str());
    path
}

impl Operation {
    /// The method of the operation.
    pub fn method(&self) -> (method: Method)
        ensures
            method == operation_method(self.deep_view()),
    {
        match self {
            Operation::SuggestDomains => Method::Get,
            Operation::GetDomainAvailability => Method::Get,
            Operation::CheckAvailability => Method::Post,
            Operation::QuoteDomainRegistration => Method::Post,
            Operation::RegisterDomain => Method::Post,
            Operation::GetOperation { .. } => Method::Get,
            Operation::GetDomain { .. } => Method::Get,
            Operation::UpdateNameservers { .. } => Method::Put,
            Operation::ListDnsRecords { .. } => Method::Get,
            Operation::CreateDnsRecord { .. } => Method::Post,
            Operation::ReplaceDnsRecord { .. } => Method::Put,
            Operation::DeleteDnsRecord { .. } => Method::Delete,
            Operation::List => Method::Get,
            Operation::Agreements => Method::Get,
        }
    }

    /// Whether a response with the given status says that the operation succeeded. Any other
    /// response, of whatever status, is not expected.
    pub fn succeeds_with(&self, status: u16) -> (succeeds: bool)
        ensures
            succeeds == (status == success_status(self.deep_view())),
    {
        let expected: u16 = match self {
            Operation::CreateDnsRecord { .. } => 201,
            Operation::RegisterDomain => 202,
            Operation::UpdateNameservers { .. } => 202,
            Operation::DeleteDnsRecord { .. } => 204,
            _ => 200,
        };
        status == expected
    }

    /// The absolute path of the operation.
    pub fn path(&self) -> (path: String)
        ensures
            path@ == operation_path(self.deep_view()),
    {
        match self {
            Operation::SuggestDomains => "/v3/domains/suggestions".to_owned(),
            Operation::GetDomainAvailability => "/v3/domains/check-availability".to_owned(),
            Operation::CheckAvailability => "/v3/domains/check-availability".to_owned(),
            Operation::QuoteDomainRegistration => "/v3/domains/registration-quotes".to_owned(),
            Operation::RegisterDomain => "/v3/domains/registrations".to_owned(),
            Operation::GetOperation { operation_id } => {
                let mut path = "/v3/domains/operations/".to_owned();
                path.append(encode_segment(operation_id.as_str()).as_str());
                path
            },
            Operation::GetDomain { domain_name } => domain_path_text(domain_name.as_str()),
            Operation::UpdateNameservers { domain_name } => {
                let mut path = domain_path_text(domain_name.as_str());
                path.append("/nameservers");
                path
            },
            Operation::ListDnsRecords { zone } => zone_path_text(zone.as_str()),
            Operation::CreateDnsRecord { zone } => zone_path_text(zone.as_str()),
            Operation::ReplaceDnsRecord { zone, record_id } => record_path_text(
                zone.as_str(),
                record_id.as_str(),
            ),
            Operation::DeleteDnsRecord { zone, record_id } => record_path_text(
                zone.as_str(),
                record_id.as_str(),
            ),
            Operation::List => "/v1/domains".to_owned(),
            Operation::Agreements => "/v1/domains/agreements".to_owned(),
        }
    }
}

/// The operation that a call is made with.
pub open spec fn call_operation(call: CallView) -> OperationView {
    match call {
        CallView::Create { zone, .. } => OperationView::CreateDnsRecord { zone },
        CallView::Replace { zone, record_id, .. } => OperationView::ReplaceDnsRecord {
            zone,
            record_id,
        },
        CallView::Delete { zone, record_id, .. } => OperationView::DeleteDnsRecord {
            zone,
            record_id,
        },
        CallView::ListName { zone, .. } => OperationView::ListDnsRecords { zone },
    }
}

impl ApiCall {
    /// The operation that the call is made with.
    pub fn operation(&self) -> (operation: Operation)
        ensures
            operation.deep_view() == call_operation(self.deep_view()),
    {
        match self {
            ApiCall::Create { zone, .. } => Operation::CreateDnsRecord { zone: zone.clone() },
            ApiCall::Replace { zone, record_id, .. } => Operation::ReplaceDnsRecord {
                zone: zone.clone(),
                record_id: record_id.clone(),
            },
            ApiCall::Delete { zone, record_id, .. } => Operation::DeleteDnsRecord {
                zone: zone.clone(),
                record_id: record_id.clone(),
            },
            ApiCall::ListName { zone, .. } => Operation::ListDnsRecords { zone: zone.clone() },
        }
    }
}

/// The URL of an operation: its path on the host that the client talks to.
pub open spec fn operation_url(client: DomainsClient, operation: OperationView) -> Seq<char> {
    client.baseurl@ + operation_path(operation)
}

impl DomainsClient {
    /// The URL of an operation: its path on the host that the client talks to.
    pub fn url(&self, operation: &Operation) -> (url: String)
        ensures
            url@ == operation_url(*self, operation.deep_view()),
    {
        let mut url = self.baseurl.clone();
        url.append(operation.path().as_str());
        url
    }
}

/// Whether an operation is one that the older generation of the API still serves.
pub open spec fn served_by_v1(operation: OperationView) -> bool {
    operation is List || operation is Agreements
}

/// The path of every operation is absolute and tells the generation of the API: one host serves
/// both.
pub proof fn law_operations_share_a_host(operation: OperationView)
    ensures
        served_by_v1(operation) ==> "/v1/domains"@.is_prefix_of(operation_path(operation)),
        !served_by_v1(operation) ==> "/v3/domains/"@.is_prefix_of(operation_path(operation)),
{
    reveal_strlit("/v1/domains");
    reveal_strlit("/v3/domains/");
    reveal_strlit("/v3/domains/suggestions");
    reveal_strlit("/v3/domains/check-availability");
    reveal_strlit("/v3/domains/registration-quotes");
    reveal_strlit("/v3/domains/registrations");
    reveal_strlit("/v3/domains/operations/");
    reveal_strlit("/v3/domains/domain-names/");
    reveal_strlit("/v3/domains/zones/");
    reveal_strlit("/v1/domains/agreements");
}

/// Every request of a client made by `client_with_auth`, whatever the operation, carries the
/// authorization as it was given, the request id and the user agent, and goes to the base URL
/// followed by the absolute path of the operation.
pub proof fn law_authenticated_requests(
    client: DomainsClient,
    base_url: Seq<char>,
    authorization: Seq<char>,
    user_agent: Seq<char>,
    request_id: Seq<char>,
    operation: OperationView,
)
    requires
        made_with(client, base_url, authorization, user_agent, request_id),
    ensures
        ({
            let headers = client_headers(client.client);
            &&& headers.contains_key("authorization"@)
            &&& headers["authorization"@] == encode_utf8(authorization)
            &&& headers.contains_key("x-request-id"@)
            &&& headers["x-request-id"@] == encode_utf8(request_id)
            &&& headers.contains_key("user-agent"@)
            &&& headers["user-agent"@] == encode_utf8(user_agent)
        }),
        operation_url(client, operation) == base_url + operation_path(operation),
        if served_by_v1(operation) {
            (base_url + "/v1/domains"@).is_prefix_of(operation_url(client, operation))
        } else {
            (base_url + "/v3/domains/"@).is_prefix_of(operation_url(client, operation))
        },
{
    law_requests_carry_auth(authorization, user_agent, request_id);
    law_operations_share_a_host(operation);
}

/// A zone or an id stays inside its segment of the path: none of its characters ends the segment
/// or the path.
pub proof fn law_segment_stays_in_place(bytes: Seq<u8>, i: int)
    requires
        0 <= i < path_segment(bytes).len(),
    ensures
        path_segment(bytes)[i] != '/',
        path_segment(bytes)[i] != '?',
        path_segment(bytes)[i] != '#',
    decreases bytes.len(),
{
    let first = path_byte(bytes[0]);
    let rest = bytes.drop_first();
    if i >= first.len() {
        law_segment_stays_in_place(rest, i - first.len());
        assert(path_segment(bytes)[i] == path_segment(rest)[i - first.len()]);
    } else {
        assert(path_segment(bytes)[i] == first[i]);
    }
}

/// The number of an upper-case hexadecimal digit.
pub open spec fn hex_number(digit: char) -> int {
    if digit as int >= 65 {
        digit as int - 55
    } else {
        digit as int - 48
    }
}

/// The bytes that a path segment stands for.
pub open spec fn segment_bytes(segment: Seq<char>) -> Seq<u8>
    decreases segment.len(),
{
    if segment.len() == 0 {
        Seq::empty()
    } else if segment[0] == '%' && segment.len() >= 3 {
        seq![(hex_number(segment[1]) * 16 + hex_number(segment[2])) as u8] + segment_bytes(
            segment.skip(3),
        )
    } else {
        seq![segment[0] as u8] + segment_bytes(segment.skip(1))
    }
}

/// A path segment tells which bytes it was made of.
pub proof fn law_segment_round_trip(bytes: Seq<u8>)
    ensures
        segment_bytes(path_segment(bytes)) == bytes,
    decreases bytes.len(),
{
    if bytes.len() > 0 {
        let first = path_byte(bytes[0]);
        let rest = path_segment(bytes.drop_first());
        let segment = path_segment(bytes);
        law_segment_round_trip(bytes.drop_first());
        assert(segment == first + rest);
        assert(segment[0] == first[0]);
        if escaped_in_path(bytes[0]) {
            assert(segment[1] == first[1]);
            assert(segment[2] == first[2]);
            assert(segment.skip(3) =~= rest);
        } else {
            assert(segment.skip(1) =~= rest);
        }
        assert(segment_bytes(segment) =~= bytes);
    }
}

/// Two records of a zone never share a path: the path of a call tells which record it is about.
pub proof fn law_records_have_their_own_paths(
    zone: Seq<char>,
    record_id: Seq<char>,
    other_id: Seq<char>,
)
    ensures
        record_path(zone, record_id) == record_path(zone, other_id) <==> record_id == other_id,
{
    if record_path(zone, record_id) == record_path(zone, other_id) {
        let start = zone_path(zone) + "/"@;
        let segment = path_segment(encode_utf8(record_id));
        let other = path_segment(encode_utf8(other_id));
        assert(segment =~= record_path(zone, record_id).skip(start.len() as int));
        assert(other =~= record_path(zone, other_id).skip(start.len() as int));
        law_segment_round_trip(encode_utf8(record_id));
        law_segment_round_trip(encode_utf8(other_id));
        encode_utf8_decode_utf8(record_id);
        encode_utf8_decode_utf8(other_id);
    }
}

} // verus!
