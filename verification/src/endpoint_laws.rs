//! What holds of the requests that calls and operations are made with.

use vstd::prelude::*;
use vstd::string::*;
use vstd::utf8::*;

use crate::api::{ApiCall, CallView, DraftView};
use crate::endpoint::{
    call_operation, law_segment_round_trip, law_segment_stays_in_place, operation_method,
    operation_path, path_segment, record_path, segment_bytes, success_status, zone_path, Method,
    Operation, OperationView,
};

verus! {

/// The method of the request that a call is made with.
pub open spec fn request_method(call: CallView) -> Method {
    operation_method(call_operation(call))
}

/// The path of the request that a call is made with.
pub open spec fn request_path(call: CallView) -> Seq<char> {
    operation_path(call_operation(call))
}

/// The status of the response to a request that succeeded.
pub open spec fn request_status(call: CallView) -> u16 {
    success_status(call_operation(call))
}

/// Each call reaches the record that it is about, by the method that does what it asks for,
/// whatever is written and whichever attempt it is. A creation posts to the records of the zone. A
/// replacement puts to the record with its id, a deletion deletes that record, conflicting or not,
/// and a listing gets the records of the zone.
pub proof fn law_calls_reach_their_records(
    zone: Seq<char>,
    record_id: Seq<char>,
    draft: DraftView,
    flag: bool,
)
    ensures
        ({
            let records = "/v3/domains/zones/"@ + path_segment(encode_utf8(zone))
                + "/dns-records"@;
            let record = records + "/"@ + path_segment(encode_utf8(record_id));
            let create = CallView::Create { zone, draft, retry: flag };
            let replace = CallView::Replace { zone, record_id, draft, retry: flag };
            let delete = CallView::Delete { zone, record_id, conflict: flag };
            let list = CallView::ListName { zone, draft };
            &&& request_method(create) == Method::Post
            &&& request_path(create) == records
            &&& request_status(create) == 201
            &&& request_method(replace) == Method::Put
            &&& request_path(replace) == record
            &&& request_status(replace) == 200
            &&& request_method(delete) == Method::Delete
            &&& request_path(delete) == record
            &&& request_status(delete) == 204
            &&& request_method(list) == Method::Get
            &&& request_path(list) == records
            &&& request_status(list) == 200
        }),
{
}

/// The operations on domains have these methods, paths and statuses.
pub proof fn law_domain_operations(text: Seq<char>)
    ensures
        ({
            let operation = OperationView::SuggestDomains;
            &&& operation_method(operation) == Method::Get
            &&& operation_path(operation) == "/v3/domains/suggestions"@
            &&& success_status(operation) == 200
        }),
        ({
            let operation = OperationView::GetDomainAvailability;
            &&& operation_method(operation) == Method::Get
            &&& operation_path(operation) == "/v3/domains/check-availability"@
            &&& success_status(operation) == 200
        }),
        ({
            let operation = OperationView::CheckAvailability;
            &&& operation_method(operation) == Method::Post
            &&& operation_path(operation) == "/v3/domains/check-availability"@
            &&& success_status(operation) == 200
        }),
        ({
            let operation = OperationView::QuoteDomainRegistration;
            &&& operation_method(operation) == Method::Post
            &&& operation_path(operation) == "/v3/domains/registration-quotes"@
            &&& success_status(operation) == 200
        }),
        ({
            let operation = OperationView::RegisterDomain;
            &&& operation_method(operation) == Method::Post
            &&& operation_path(operation) == "/v3/domains/registrations"@
            &&& success_status(operation) == 202
        }),
        ({
            let operation = OperationView::GetOperation { operation_id: text };
            &&& operation_method(operation) == Method::Get
            &&& operation_path(operation) == "/v3/domains/operations/"@ + path_segment(
                encode_utf8(text),
            )
            &&& success_status(operation) == 200
        }),
        ({
            let operation = OperationView::GetDomain { domain_name: text };
            &&& operation_method(operation) == Method::Get
            &&& operation_path(operation) == "/v3/domains/domain-names/"@ + path_segment(
                encode_utf8(text),
            )
            &&& success_status(operation) == 200
        }),
        ({
            let operation = OperationView::UpdateNameservers { domain_name: text };
            &&& operation_method(operation) == Method::Put
            &&& operation_path(operation) == "/v3/domains/domain-names/"@ + path_segment(
                encode_utf8(text),
            ) + "/nameservers"@
            &&& success_status(operation) == 202
        }),
        ({
            let operation = OperationView::List;
            &&& operation_method(operation) == Method::Get
            &&& operation_path(operation) == "/v1/domains"@
            &&& success_status(operation) == 200
        }),
        ({
            let operation = OperationView::Agreements;
            &&& operation_method(operation) == Method::Get
            &&& operation_path(operation) == "/v1/domains/agreements"@
            &&& success_status(operation) == 200
        }),
{
}

/// The path of the records of a zone tells the whole zone: what stands between its fixed parts
/// decodes to the bytes of the zone, all of them and nothing else.
pub proof fn law_zone_path_tells_the_zone(zone: Seq<char>)
    ensures
        ({
            let path = zone_path(zone);
            let end = path.len() - "/dns-records"@.len();
            let start = "/v3/domains/zones/"@.len() as int;
            &&& start <= end
            &&& path.take(start) == "/v3/domains/zones/"@
            &&& path.skip(end) == "/dns-records"@
            &&& segment_bytes(path.subrange(start, end)) == encode_utf8(zone)
        }),
{
    let path = zone_path(zone);
    let end = path.len() - "/dns-records"@.len();
    let start = "/v3/domains/zones/"@.len() as int;
    law_segment_round_trip(encode_utf8(zone));
    assert(path.take(start) =~= "/v3/domains/zones/"@);
    assert(path.skip(end) =~= "/dns-records"@);
    assert(path.subrange(start, end) =~= path_segment(encode_utf8(zone)));
}

/// The path of a record tells the whole zone and the whole id.
pub proof fn law_record_path_tells_the_record(zone: Seq<char>, record_id: Seq<char>)
    ensures
        ({
            let path = record_path(zone, record_id);
            let records = zone_path(zone) + "/"@;
            &&& records.is_prefix_of(path)
            &&& segment_bytes(path.skip(records.len() as int)) == encode_utf8(record_id)
        }),
{
    let path = record_path(zone, record_id);
    let records = zone_path(zone) + "/"@;
    law_segment_round_trip(encode_utf8(record_id));
    assert(path.skip(records.len() as int) =~= path_segment(encode_utf8(record_id)));
}

/// Different texts have different path segments.
proof fn lemma_segments_differ(left: Seq<char>, right: Seq<char>)
    ensures
        path_segment(encode_utf8(left)) == path_segment(encode_utf8(right)) <==> left == right,
{
    law_segment_round_trip(encode_utf8(left));
    law_segment_round_trip(encode_utf8(right));
    encode_utf8_decode_utf8(left);
    encode_utf8_decode_utf8(right);
}

/// Two texts that go on with a slash after a path segment are equal only if both parts are.
proof fn lemma_split_at_slash(
    left: Seq<u8>,
    left_rest: Seq<char>,
    right: Seq<u8>,
    right_rest: Seq<char>,
)
    requires
        path_segment(left) + left_rest == path_segment(right) + right_rest,
        left_rest.len() > 0 && left_rest[0] == '/',
        right_rest.len() > 0 && right_rest[0] == '/',
    ensures
        path_segment(left) == path_segment(right),
        left_rest == right_rest,
{
    let a = path_segment(left);
    let b = path_segment(right);
    let all = a + left_rest;
    assert(all == b + right_rest);
    assert(all[a.len() as int] == '/');
    assert(all[b.len() as int] == '/');
    if a.len() < b.len() {
        law_segment_stays_in_place(right, a.len() as int);
        assert(all[a.len() as int] == b[a.len() as int]);
    } else if b.len() < a.len() {
        law_segment_stays_in_place(left, b.len() as int);
        assert(all[b.len() as int] == a[b.len() as int]);
    }
    assert(a =~= all.take(a.len() as int));
    assert(b =~= all.take(a.len() as int));
    assert(left_rest =~= all.skip(a.len() as int));
    assert(right_rest =~= all.skip(a.len() as int));
}

/// Different zones have different paths for their records.
pub proof fn law_zones_have_their_own_paths(left: Seq<char>, right: Seq<char>)
    ensures
        zone_path(left) == zone_path(right) <==> left == right,
{
    law_zone_path_tells_the_zone(left);
    law_zone_path_tells_the_zone(right);
    encode_utf8_decode_utf8(left);
    encode_utf8_decode_utf8(right);
}

/// Two records share a path only if they have the same id in the same zone.
pub proof fn law_records_of_all_zones_have_their_own_paths(
    left_zone: Seq<char>,
    left_id: Seq<char>,
    right_zone: Seq<char>,
    right_id: Seq<char>,
)
    ensures
        record_path(left_zone, left_id) == record_path(right_zone, right_id) <==> left_zone
            == right_zone && left_id == right_id,
{
    if record_path(left_zone, left_id) == record_path(right_zone, right_id) {
        reveal_strlit("/dns-records");
        let start = "/v3/domains/zones/"@;
        let left = record_path(left_zone, left_id);
        let left_rest = "/dns-records"@ + "/"@ + path_segment(encode_utf8(left_id));
        let right_rest = "/dns-records"@ + "/"@ + path_segment(encode_utf8(right_id));
        assert(left.skip(start.len() as int) =~= path_segment(encode_utf8(left_zone)) + left_rest);
        assert(left.skip(start.len() as int) =~= path_segment(encode_utf8(right_zone))
            + right_rest);
        lemma_split_at_slash(
            encode_utf8(left_zone),
            left_rest,
            encode_utf8(right_zone),
            right_rest,
        );
        let fixed = ("/dns-records"@ + "/"@).len() as int;
        assert(left_rest.skip(fixed) =~= path_segment(encode_utf8(left_id)));
        assert(right_rest.skip(fixed) =~= path_segment(encode_utf8(right_id)));
        lemma_segments_differ(left_zone, right_zone);
        lemma_segments_differ(left_id, right_id);
    }
}

/// The model of a call is all of it.
pub proof fn law_call_model(call: ApiCall)
    ensures
        match call {
            ApiCall::Create { zone, draft, retry } => call.deep_view() == (CallView::Create {
                zone: zone@,
                draft: draft.deep_view(),
                retry,
            }),
            ApiCall::Replace { zone, record_id, draft, retry } => call.deep_view() == (
            CallView::Replace {
                zone: zone@,
                record_id: record_id@,
                draft: draft.deep_view(),
                retry,
            }),
            ApiCall::Delete { zone, record_id, conflict } => call.deep_view() == (
            CallView::Delete { zone: zone@, record_id: record_id@, conflict }),
            ApiCall::ListName { zone, draft } => call.deep_view() == (CallView::ListName {
                zone: zone@,
                draft: draft.deep_view(),
            }),
        },
{
}

/// What tells the paths of the operations apart: the character after the common start.
proof fn lemma_operation_mark(operation: OperationView)
    ensures
        ({
            let path = operation_path(operation);
            match operation {
                OperationView::SuggestDomains => path.len() > 12 && path[2] == '3' && path[12]
                    == 's',
                OperationView::GetDomainAvailability => path.len() > 12 && path[2] == '3'
                    && path[12] == 'c',
                OperationView::CheckAvailability => path.len() > 12 && path[2] == '3' && path[12]
                    == 'c',
                OperationView::QuoteDomainRegistration => path.len() == 31 && path[2] == '3'
                    && path[12] == 'r',
                OperationView::RegisterDomain => path.len() == 25 && path[2] == '3' && path[12]
                    == 'r',
                OperationView::GetOperation { .. } => path.len() > 12 && path[2] == '3' && path[12]
                    == 'o',
                OperationView::GetDomain { .. } => path.len() > 12 && path[2] == '3' && path[12]
                    == 'd',
                OperationView::UpdateNameservers { .. } => path.len() > 12 && path[2] == '3'
                    && path[12] == 'd',
                OperationView::ListDnsRecords { .. } => path.len() > 12 && path[2] == '3'
                    && path[12] == 'z',
                OperationView::CreateDnsRecord { .. } => path.len() > 12 && path[2] == '3'
                    && path[12] == 'z',
                OperationView::ReplaceDnsRecord { .. } => path.len() > 12 && path[2] == '3'
                    && path[12] == 'z',
                OperationView::DeleteDnsRecord { .. } => path.len() > 12 && path[2] == '3'
                    && path[12] == 'z',
                OperationView::List => path.len() == 11 && path[2] == '1',
                OperationView::Agreements => path.len() == 22 && path[2] == '1',
            }
        }),
{
    reveal_strlit("/v3/domains/suggestions");
    reveal_strlit("/v3/domains/check-availability");
    reveal_strlit("/v3/domains/registration-quotes");
    reveal_strlit("/v3/domains/registrations");
    reveal_strlit("/v3/domains/operations/");
    reveal_strlit("/v3/domains/domain-names/");
    reveal_strlit("/v3/domains/zones/");
    reveal_strlit("/v1/domains");
    reveal_strlit("/v1/domains/agreements");
}

/// No two operations make the same request: the method and the path together tell which operation
/// it is and on what, down to the last character.
pub proof fn law_requests_tell_operations_apart(left: OperationView, right: OperationView)
    ensures
        operation_method(left) == operation_method(right) && operation_path(left)
            == operation_path(right) <==> left == right,
{
    if operation_method(left) == operation_method(right) && operation_path(left) == operation_path(
        right,
    ) {
        let path = operation_path(left);
        lemma_operation_mark(left);
        lemma_operation_mark(right);
        match (left, right) {
            (
                OperationView::GetOperation { operation_id: a },
                OperationView::GetOperation { operation_id: b },
            ) => {
                let start = "/v3/domains/operations/"@.len() as int;
                assert(path.skip(start) =~= path_segment(encode_utf8(a)));
                assert(path.skip(start) =~= path_segment(encode_utf8(b)));
                lemma_segments_differ(a, b);
            },
            (
                OperationView::GetDomain { domain_name: a },
                OperationView::GetDomain { domain_name: b },
            ) => {
                let start = "/v3/domains/domain-names/"@.len() as int;
                assert(path.skip(start) =~= path_segment(encode_utf8(a)));
                assert(path.skip(start) =~= path_segment(encode_utf8(b)));
                lemma_segments_differ(a, b);
            },
            (
                OperationView::UpdateNameservers { domain_name: a },
                OperationView::UpdateNameservers { domain_name: b },
            ) => {
                let start = "/v3/domains/domain-names/"@.len() as int;
                let end = path.len() - "/nameservers"@.len();
                assert(path.subrange(start, end) =~= path_segment(encode_utf8(a)));
                assert(path.subrange(start, end) =~= path_segment(encode_utf8(b)));
                lemma_segments_differ(a, b);
            },
            (
                OperationView::ListDnsRecords { zone: a },
                OperationView::ListDnsRecords { zone: b },
            ) => {
                law_zones_have_their_own_paths(a, b);
            },
            (
                OperationView::CreateDnsRecord { zone: a },
                OperationView::CreateDnsRecord { zone: b },
            ) => {
                law_zones_have_their_own_paths(a, b);
            },
            (
                OperationView::ReplaceDnsRecord { zone: a, record_id: m },
                OperationView::ReplaceDnsRecord { zone: b, record_id: n },
            ) => {
                law_records_of_all_zones_have_their_own_paths(a, m, b, n);
            },
            (
                OperationView::DeleteDnsRecord { zone: a, record_id: m },
                OperationView::DeleteDnsRecord { zone: b, record_id: n },
            ) => {
                law_records_of_all_zones_have_their_own_paths(a, m, b, n);
            },
            _ => {},
        }
    }
}

/// The model of an operation is all of it.
pub proof fn law_operation_model(operation: Operation)
    ensures
        match operation {
            Operation::SuggestDomains => operation.deep_view() is SuggestDomains,
            Operation::GetDomainAvailability => operation.deep_view() is GetDomainAvailability,
            Operation::CheckAvailability => operation.deep_view() is CheckAvailability,
            Operation::QuoteDomainRegistration => operation.deep_view() is QuoteDomainRegistration,
            Operation::RegisterDomain => operation.deep_view() is RegisterDomain,
            Operation::GetOperation { operation_id } => operation.deep_view() == (
            OperationView::GetOperation { operation_id: operation_id@ }),
            Operation::GetDomain { domain_name } => operation.deep_view() == (
            OperationView::GetDomain { domain_name: domain_name@ }),
            Operation::UpdateNameservers { domain_name } => operation.deep_view() == (
            OperationView::UpdateNameservers { domain_name: domain_name@ }),
            Operation::ListDnsRecords { zone } => operation.deep_view() == (
            OperationView::ListDnsRecords { zone: zone@ }),
            Operation::CreateDnsRecord { zone } => operation.deep_view() == (
            OperationView::CreateDnsRecord { zone: zone@ }),
            Operation::ReplaceDnsRecord { zone, record_id } => operation.deep_view() == (
            OperationView::ReplaceDnsRecord { zone: zone@, record_id: record_id@ }),
            Operation::DeleteDnsRecord { zone, record_id } => operation.deep_view() == (
            OperationView::DeleteDnsRecord { zone: zone@, record_id: record_id@ }),
            Operation::List => operation.deep_view() is List,
            Operation::Agreements => operation.deep_view() is Agreements,
        },
{
}

} // verus!
