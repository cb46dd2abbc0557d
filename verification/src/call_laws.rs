//! What holds of every call of the library's functions, whatever they are called with: how the
//! result of a call relates to its arguments, and how the results of several calls relate.

use reqwest::header::{HeaderMap, HeaderValue};
use serde_json::Value;
use vstd::prelude::*;
use vstd::string::*;
use vstd::utf8::*;

use crate::api::{ApiCall, DnsRecord, RecordView, Reply};
use crate::client::{
    auth_headers, client_from_build, client_headers, client_with_auth, header_entries, header_safe,
    http_error_description, http_failure_message, law_requests_carry_auth, BuildError,
    DomainsClient,
};
use crate::delete::{
    delete_failure_text, delete_success, failed_deletions, summarize_delete_outcomes, DeleteRun,
    DeleteRunView,
};
use crate::endpoint::{path_segment, Method, Operation};
use crate::json::{json_of, Json};
use crate::list::{all_rows_serialized, list_result, row_failure_text};
use crate::outcome::{
    failure_count, set_failure_text, set_success, summarize_set_outcomes, OutcomeView, SetOutcome,
};
use crate::plan::{plan_set, SetAction};
use crate::report_laws::{
    law_delete_failure_line_by_line, law_delete_result_counts_every_record,
    law_failed_deletions_are_counted, law_failures_are_counted, law_set_failure_line_by_line,
    law_set_result_counts_each_success, number_in, text_in,
};
use crate::run_laws::law_plan_takes_both_sides_in_order;
use crate::set::{existing_ids, SetRun, SetRunView};
use crate::text::{decimal, decimal_text, join_lines, joined, same_text};
use crate::text_laws::{law_decimal_reads_back, law_joined, numeral_value};
use crate::write::{
    conflicting_records, next_write_call, send_write, write_after, write_of, write_pending,
    write_with_conflict_handling, WriteCall, WriteRequest, WriteState,
};
use crate::write_laws::law_conflicts_keep_their_order;

verus! {

/// Whatever a call of the API is about, the request that it is made with goes to the host of the
/// client, by the method and to the path that its record has: a creation posts to the records of
/// the zone, a replacement puts to the record, a deletion deletes the record, and a listing gets
/// the records of the zone. Which attempt it is and why a record is deleted do not matter.
pub proof fn law_requests_of_calls(
    client: &DomainsClient,
    call: &ApiCall,
    operation: Operation,
    method: Method,
    url: String,
    path: String,
)
    requires
        call_ensures(ApiCall::operation, (call,), operation),
        call_ensures(Operation::method, (&operation,), method),
        call_ensures(Operation::path, (&operation,), path),
        call_ensures(DomainsClient::url, (client, &operation), url),
    ensures
        url@ == client.baseurl@ + path@,
        match call {
            ApiCall::Create { zone, .. } => {
                &&& method == Method::Post
                &&& path@ == "/v3/domains/zones/"@ + path_segment(encode_utf8(zone@))
                    + "/dns-records"@
            },
            ApiCall::Replace { zone, record_id, .. } => {
                &&& method == Method::Put
                &&& path@ == "/v3/domains/zones/"@ + path_segment(encode_utf8(zone@))
                    + "/dns-records"@ + "/"@ + path_segment(encode_utf8(record_id@))
            },
            ApiCall::Delete { zone, record_id, .. } => {
                &&& method == Method::Delete
                &&& path@ == "/v3/domains/zones/"@ + path_segment(encode_utf8(zone@))
                    + "/dns-records"@ + "/"@ + path_segment(encode_utf8(record_id@))
            },
            ApiCall::ListName { zone, .. } => {
                &&& method == Method::Get
                &&& path@ == "/v3/domains/zones/"@ + path_segment(encode_utf8(zone@))
                    + "/dns-records"@
            },
        },
{
}

/// A response says that an operation succeeded exactly if it has the one status that the operation
/// succeeds with.
pub proof fn law_success_of_calls(
    call: &ApiCall,
    operation: Operation,
    status: u16,
    succeeds: bool,
)
    requires
        call_ensures(ApiCall::operation, (call,), operation),
        call_ensures(Operation::succeeds_with, (&operation, status), succeeds),
    ensures
        call is Create ==> (succeeds <==> status == 201),
        call is Replace ==> (succeeds <==> status == 200),
        call is Delete ==> (succeeds <==> status == 204),
        call is ListName ==> (succeeds <==> status == 200),
{
}

/// The requests of the operations, each with its own method, path and status.
pub proof fn law_requests_of_operations(
    operation: &Operation,
    method: Method,
    path: String,
    status: u16,
    succeeds: bool,
)
    requires
        call_ensures(Operation::method, (operation,), method),
        call_ensures(Operation::path, (operation,), path),
        call_ensures(Operation::succeeds_with, (operation, status), succeeds),
    ensures
        match operation {
            Operation::SuggestDomains => method == Method::Get && path@
                == "/v3/domains/suggestions"@ && (succeeds <==> status == 200),
            Operation::GetDomainAvailability => method == Method::Get && path@
                == "/v3/domains/check-availability"@ && (succeeds <==> status == 200),
            Operation::CheckAvailability => method == Method::Post && path@
                == "/v3/domains/check-availability"@ && (succeeds <==> status == 200),
            Operation::QuoteDomainRegistration => method == Method::Post && path@
                == "/v3/domains/registration-quotes"@ && (succeeds <==> status == 200),
            Operation::RegisterDomain => method == Method::Post && path@
                == "/v3/domains/registrations"@ && (succeeds <==> status == 202),
            Operation::GetOperation { operation_id } => method == Method::Get && path@
                == "/v3/domains/operations/"@ + path_segment(encode_utf8(operation_id@)) && (
            succeeds <==> status == 200),
            Operation::GetDomain { domain_name } => method == Method::Get && path@
                == "/v3/domains/domain-names/"@ + path_segment(encode_utf8(domain_name@)) && (
            succeeds <==> status == 200),
            Operation::UpdateNameservers { domain_name } => method == Method::Put && path@
                == "/v3/domains/domain-names/"@ + path_segment(encode_utf8(domain_name@))
                + "/nameservers"@ && (succeeds <==> status == 202),
            Operation::List => method == Method::Get && path@ == "/v1/domains"@ && (succeeds
                <==> status == 200),
            Operation::Agreements => method == Method::Get && path@ == "/v1/domains/agreements"@
                && (succeeds <==> status == 200),
            Operation::ListDnsRecords { zone } => method == Method::Get && path@
                == "/v3/domains/zones/"@ + path_segment(encode_utf8(zone@)) + "/dns-records"@ && (
            succeeds <==> status == 200),
            Operation::CreateDnsRecord { zone } => method == Method::Post && path@
                == "/v3/domains/zones/"@ + path_segment(encode_utf8(zone@)) + "/dns-records"@ && (
            succeeds <==> status == 201),
            Operation::ReplaceDnsRecord { zone, record_id } => method == Method::Put && path@
                == "/v3/domains/zones/"@ + path_segment(encode_utf8(zone@)) + "/dns-records"@
                + "/"@ + path_segment(encode_utf8(record_id@)) && (succeeds <==> status == 200),
            Operation::DeleteDnsRecord { zone, record_id } => method == Method::Delete && path@
                == "/v3/domains/zones/"@ + path_segment(encode_utf8(zone@)) + "/dns-records"@
                + "/"@ + path_segment(encode_utf8(record_id@)) && (succeeds <==> status == 204),
        },
{
}

/// A client made with authorization talks to the host that it was given, adds what it was given to
/// every request, and is refused for a header exactly if the authorization or the request id may
/// not stand in one.
pub proof fn law_clients_with_auth(
    base_url: &str,
    authorization: &str,
    user_agent: &str,
    request_id: &str,
    client: Result<DomainsClient, BuildError>,
)
    requires
        call_ensures(
            client_with_auth,
            (base_url, authorization, user_agent, request_id),
            client,
        ),
    ensures
        client matches Err(BuildError::Header(_)) <==> !(header_safe(encode_utf8(authorization@))
            && header_safe(encode_utf8(request_id@))),
        !header_safe(encode_utf8(user_agent@)) ==> client is Err,
        client matches Err(BuildError::Http(error)) ==> http_error_description(error)
            == "builder error"@,
        client matches Ok(client) ==> {
            let headers = client_headers(client.client);
            &&& client.baseurl@ == base_url@
            &&& headers.contains_key("authorization"@) && headers["authorization"@] == encode_utf8(
                authorization@,
            )
            &&& headers.contains_key("x-request-id"@) && headers["x-request-id"@] == encode_utf8(
                request_id@,
            )
            &&& headers.contains_key("user-agent"@) && headers["user-agent"@] == encode_utf8(
                user_agent@,
            )
        },
{
    law_requests_carry_auth(authorization@, user_agent@, request_id@);
}

/// The headers of a client are the authorization and the request id, each under its own name, and
/// there are none exactly if one of the two may not stand in a header.
pub proof fn law_auth_headers(
    authorization: &str,
    request_id: &str,
    headers: Result<HeaderMap<HeaderValue>, BuildError>,
)
    requires
        call_ensures(auth_headers, (authorization, request_id), headers),
    ensures
        headers is Ok <==> header_safe(encode_utf8(authorization@)) && header_safe(
            encode_utf8(request_id@),
        ),
        headers is Err ==> headers->Err_0 is Header,
        headers matches Ok(headers) ==> {
            let entries = header_entries(headers);
            &&& entries.dom() == set!["authorization"@, "x-request-id"@]
            &&& entries["authorization"@] == encode_utf8(authorization@)
            &&& entries["x-request-id"@] == encode_utf8(request_id@)
        },
{
    reveal_strlit("authorization");
    reveal_strlit("x-request-id");
    assert("authorization"@.len() != "x-request-id"@.len());
    if let Ok(headers) = headers {
        assert(header_entries(headers).dom() =~= set!["authorization"@, "x-request-id"@]);
    }
}

/// What building the HTTP client came to is passed on: the client under the base URL, or the error.
pub proof fn law_built_clients(
    base_url: &str,
    built: Result<reqwest::Client, reqwest::Error>,
    client: Result<DomainsClient, BuildError>,
)
    requires
        call_ensures(client_from_build, (base_url, built), client),
    ensures
        built matches Ok(http) ==> client is Ok && client->Ok_0.client == http
            && client->Ok_0.baseurl@ == base_url@,
        built matches Err(error) ==> client == Err::<DomainsClient, BuildError>(
            BuildError::Http(error),
        ),
{
}

/// The messages of a client that could not be built.
pub proof fn law_build_error_messages(
    error: &BuildError,
    message: String,
    cause: &str,
    text: String,
)
    requires
        call_ensures(BuildError::message, (error,), message),
        call_ensures(http_failure_message, (cause,), text),
    ensures
        error is Header ==> message@ == "invalid header value: failed to parse header value"@,
        error matches BuildError::Http(error) ==> message@ == "failed to build HTTP client: "@
            + http_error_description(*error),
        text@ == "failed to build HTTP client: "@ + cause@,
{
    reveal_strlit("invalid header value: ");
    reveal_strlit("failed to parse header value");
    reveal_strlit("invalid header value: failed to parse header value");
    assert("invalid header value: "@ + "failed to parse header value"@
        =~= "invalid header value: failed to parse header value"@);
}

/// A client of the API has the base URL and the HTTP client that it was made with.
pub proof fn law_new_clients(baseurl: &str, client: reqwest::Client, made: DomainsClient)
    requires
        call_ensures(DomainsClient::new_with_client, (baseurl, client), made),
    ensures
        made.baseurl@ == baseurl@,
        made.client == client,
{
}

/// The records at a name that stand in the way of a type: exactly those of which, and of the type
/// that is set, one is a CNAME and the other is not.
pub proof fn law_conflicts_found(
    record_type: &str,
    at_name: Vec<DnsRecord>,
    conflicts: Vec<DnsRecord>,
    record: RecordView,
)
    requires
        call_ensures(conflicting_records, (record_type, at_name), conflicts),
    ensures
        conflicts.deep_view().contains(record) <==> at_name.deep_view().contains(record) && (
        record_type@ == "CNAME"@ && record.type_ != "CNAME"@ || record_type@ != "CNAME"@
            && record.type_ == "CNAME"@),
{
}

/// One more record at a name adds that record to those in the way, at the end, if one of the two
/// types is a CNAME and the other is not, and changes nothing else.
pub proof fn law_conflicts_of_one_record_more(
    record_type: &str,
    at_name: Vec<DnsRecord>,
    more: Vec<DnsRecord>,
    conflicts: Vec<DnsRecord>,
    more_conflicts: Vec<DnsRecord>,
)
    requires
        call_ensures(conflicting_records, (record_type, at_name), conflicts),
        call_ensures(conflicting_records, (record_type, more), more_conflicts),
        more.len() > 0,
        more@.drop_last() == at_name@,
    ensures
        (record_type@ == "CNAME"@) != (more@.last().type_@ == "CNAME"@)
            ==> more_conflicts.deep_view() == conflicts.deep_view().push(
            more@.last().deep_view(),
        ),
        (record_type@ == "CNAME"@) == (more@.last().type_@ == "CNAME"@)
            ==> more_conflicts.deep_view() == conflicts.deep_view(),
{
    assert(more.deep_view() =~= at_name.deep_view().push(more@.last().deep_view()));
    law_conflicts_keep_their_order(
        record_type@,
        at_name.deep_view(),
        more@.last().deep_view(),
    );
}

/// A write sends its value under its name and type to the zone of its domain: over the record that
/// it replaces, or as a new one.
pub proof fn law_writes_sent(
    req: &WriteRequest<'_>,
    call: &WriteCall<'_>,
    retry: bool,
    sent: ApiCall,
)
    requires
        call_ensures(send_write, (req, call, retry), sent),
    ensures
        match sent {
            ApiCall::Create { zone, draft, retry: again } => {
                &&& call is Create
                &&& zone@ == req.domain@
                &&& draft.name@ == req.name@
                &&& draft.record_type@ == req.record_type@
                &&& draft.data@ == req.value@
                &&& again == retry
            },
            ApiCall::Replace { zone, record_id, draft, retry: again } => {
                &&& call matches WriteCall::Replace { record_id: replaced } && replaced@
                    == record_id@
                &&& zone@ == req.domain@
                &&& draft.name@ == req.name@
                &&& draft.record_type@ == req.record_type@
                &&& draft.data@ == req.value@
                &&& again == retry
            },
            _ => false,
        },
{
}

/// A write goes from state to state, and asks in each for a call, as the laws on whole writes say.
pub proof fn law_steps_of_writes(
    req: &WriteRequest<'_>,
    call: &WriteCall<'_>,
    state: WriteState,
    reply: Reply,
    next: WriteState,
    pending: Option<ApiCall>,
)
    requires
        call_ensures(write_with_conflict_handling, (req, call, state, reply), next),
        call_ensures(next_write_call, (req, call, &state), pending),
    ensures
        next.deep_view() == write_after(
            write_of(req, call),
            state.deep_view(),
            reply.deep_view(),
        ),
        pending.deep_view() == write_pending(write_of(req, call), state.deep_view()),
{
}

/// The error in a reply is its message, if it is a rejection or another failure.
pub proof fn law_errors_of_replies(reply: Reply, error: Option<String>)
    requires
        call_ensures(Reply::into_error, (reply,), error),
    ensures
        match reply {
            Reply::Succeeded => error is None,
            Reply::Listed { .. } => error is None,
            Reply::Rejected { message, .. } => error is Some && error->0@ == message@,
            Reply::Failed { message } => error is Some && error->0@ == message@,
        },
{
}

/// The words for a call, and whether an error response to it is looked into.
pub proof fn law_words_of_calls(call: &ApiCall, label: Option<&'static str>, inspects: bool)
    requires
        call_ensures(ApiCall::label, (call,), label),
        call_ensures(ApiCall::inspects_rejection, (call,), inspects),
    ensures
        match call {
            ApiCall::Create { retry, .. } => label is Some && label->0@ == "creating DNS record"@
                && inspects == !*retry,
            ApiCall::Replace { retry, .. } => label is Some && label->0@
                == "replacing DNS record"@ && inspects == !*retry,
            ApiCall::Delete { conflict, .. } => label is Some && label->0@ == if *conflict {
                "deleting conflicting DNS record"@
            } else {
                "deleting DNS record"@
            } && !inspects,
            ApiCall::ListName { .. } => label is None && !inspects,
        },
{
}

/// The ids of the existing records come out exactly if none of the records lacks one, each at its
/// place; otherwise the message says so.
pub proof fn law_ids_found(
    domain: &str,
    record_type: &str,
    name: &str,
    existing: &[DnsRecord],
    ids: Result<Vec<String>, String>,
)
    requires
        call_ensures(existing_ids, (domain, record_type, name, existing), ids),
    ensures
        ids is Err <==> exists|i: int|
            #![trigger existing@[i]]
            0 <= i < existing.len() && existing@[i].record_id is None,
        ids matches Ok(ids) ==> {
            &&& ids.len() == existing.len()
            &&& forall|i: int|
                #![trigger existing@[i]]
                0 <= i < existing.len() ==> (existing@[i].record_id matches Some(id) && id@
                    == ids@[i]@)
        },
        ids matches Err(message) ==> message@ == "some existing "@ + record_type@
            + " records for "@ + name@
            + " were returned without a recordId, so `set` can't safely replace the full set. Re-run `gddy dns list "@
            + domain@ + " --type "@ + record_type@ + " --name "@ + name@
            + "` and adjust in the control panel if this persists."@,
{
}

/// The plan has one action for each place, in order.
pub proof fn law_plans_made(
    existing_ids: &[String],
    desired: &[String],
    actions: Vec<SetAction>,
    i: int,
)
    requires
        call_ensures(plan_set, (existing_ids, desired), actions),
        0 <= i < actions.len(),
    ensures
        actions.len() == existing_ids.len() || actions.len() == desired.len(),
        existing_ids.len() <= actions.len() && desired.len() <= actions.len(),
        match actions@[i] {
            SetAction::Replace { record_id, data } => i < existing_ids.len() && i < desired.len()
                && record_id@ == existing_ids@[i]@ && data@ == desired@[i]@,
            SetAction::Delete { record_id } => desired.len() <= i < existing_ids.len()
                && record_id@ == existing_ids@[i]@,
            SetAction::Create { data } => existing_ids.len() <= i < desired.len() && data@
                == desired@[i]@,
        },
{
    law_plan_takes_both_sides_in_order(existing_ids.deep_view(), desired.deep_view(), i);
    assert(actions.deep_view()[i] == actions@[i].deep_view());
}

/// An outcome is what it was made of.
pub proof fn law_new_outcomes(
    kind: &'static str,
    detail: String,
    error: Option<String>,
    outcome: SetOutcome,
)
    requires
        call_ensures(SetOutcome::new, (kind, detail, error), outcome),
    ensures
        outcome.kind@ == kind@,
        outcome.detail@ == detail@,
        outcome.error == error,
{
}

/// A set is reported as a success exactly if no action holds an error. Then the result names the
/// domain, the type and the name under these fields.
pub proof fn law_sets_summarized(
    domain: &str,
    record_type: &str,
    name: &str,
    outcomes: &[SetOutcome],
    result: Result<Value, String>,
)
    requires
        call_ensures(summarize_set_outcomes, (domain, record_type, name, outcomes), result),
    ensures
        result is Ok <==> forall|i: int|
            #![trigger outcomes@[i]]
            0 <= i < outcomes.len() ==> outcomes@[i].error is None,
        result matches Ok(value) ==> {
            &&& json_of(value) is Object
            &&& text_in(json_of(value), "domain"@) == Some(domain@)
            &&& text_in(json_of(value), "type"@) == Some(record_type@)
            &&& text_in(json_of(value), "name"@) == Some(name@)
            &&& text_in(json_of(value), "action"@) == Some("set"@)
            &&& number_in(json_of(value), "replaced"@) is Some
            &&& number_in(json_of(value), "created"@) is Some
            &&& number_in(json_of(value), "deleted"@) is Some
            &&& outcomes.len() == 0 ==> number_in(json_of(value), "replaced"@) == Some(0int)
                && number_in(json_of(value), "created"@) == Some(0int) && number_in(
                json_of(value),
                "deleted"@,
            ) == Some(0int)
        },
{
    let views = outcomes.deep_view();
    let any = OutcomeView { kind: ""@, detail: ""@, error: None };
    law_failures_are_counted(views, any);
    law_set_result_counts_each_success(domain@, record_type@, name@, views, any);
    assert(forall|i: int|
        #![trigger outcomes@[i]]
        0 <= i < outcomes.len() ==> views[i] == outcomes@[i].deep_view());
    if forall|i: int|
        #![trigger outcomes@[i]]
        0 <= i < outcomes.len() ==> outcomes@[i].error is None {
        assert forall|i: int|
            #![trigger views[i]]
            0 <= i < views.len() implies views[i].error is None by {
            assert(outcomes@[i].error is None);
        }
    }
    if outcomes.len() == 0 {
        assert(views =~= Seq::empty());
    }
    if result is Ok {
        let after = set_success(domain@, record_type@, name@, views.push(any));
        assert(number_in(after, "replaced"@) is Some);
        assert(number_in(after, "created"@) is Some);
        assert(number_in(after, "deleted"@) is Some);
    }
}

/// One more success counts once, under its own kind and under no other.
pub proof fn law_sets_summarized_with_one_more(
    domain: &str,
    record_type: &str,
    name: &str,
    outcomes: &[SetOutcome],
    more: &[SetOutcome],
    before: Result<Value, String>,
    after: Result<Value, String>,
    kind: Seq<char>,
)
    requires
        call_ensures(summarize_set_outcomes, (domain, record_type, name, outcomes), before),
        call_ensures(summarize_set_outcomes, (domain, record_type, name, more), after),
        more.len() > 0,
        more@.drop_last() == outcomes@,
        after is Ok,
        kind == "replaced"@ || kind == "created"@ || kind == "deleted"@,
    ensures
        before is Ok,
        number_in(json_of(before->Ok_0), kind) is Some,
        number_in(json_of(after->Ok_0), kind) == Some(
            number_in(json_of(before->Ok_0), kind)->0 + if more@.last().kind@ == kind {
                1int
            } else {
                0
            },
        ),
{
    let last = more@.last();
    law_sets_summarized(domain, record_type, name, outcomes, before);
    law_sets_summarized(domain, record_type, name, more, after);
    assert(more.deep_view() =~= outcomes.deep_view().push(last.deep_view()));
    assert(more@[more.len() - 1].error is None);
    assert forall|i: int| #![trigger outcomes@[i]] 0 <= i < outcomes.len() implies outcomes@[
        i
    ].error is None by {
        assert(more@[i] == outcomes@[i]);
    }
    law_set_result_counts_each_success(
        domain@,
        record_type@,
        name@,
        outcomes.deep_view(),
        last.deep_view(),
    );
    let result = set_success(
        domain@,
        record_type@,
        name@,
        outcomes.deep_view().push(last.deep_view()),
    );
    assert(number_in(result, kind) is Some);
}

/// The message of a set that failed in part, line by line.
pub proof fn law_failed_sets_summarized(
    domain: &str,
    record_type: &str,
    name: &str,
    outcomes: &[SetOutcome],
    result: Result<Value, String>,
    failed: nat,
    lines: Seq<Seq<char>>,
)
    requires
        call_ensures(summarize_set_outcomes, (domain, record_type, name, outcomes), result),
        result is Err,
        failed == outcomes@.filter(|outcome: SetOutcome| outcome.error is Some).len(),
        lines.len() == outcomes.len(),
        forall|i: int|
            #![trigger lines[i]]
            0 <= i < lines.len() ==> lines[i] == match outcomes@[i].error {
                Some(error) => "  ✗ "@ + outcomes@[i].kind@ + " "@ + outcomes@[i].detail@ + " — "@
                    + error@,
                None => "  ✓ "@ + outcomes@[i].kind@ + " "@ + outcomes@[i].detail@,
            },
    ensures
        result->Err_0@ == joined(
            seq![
                "set for "@ + name@ + " ("@ + record_type@ + ") partially failed — "@ + decimal(
                    failed,
                ) + " of "@ + decimal(outcomes@.len()) + " action(s):"@,
            ] + lines + seq![
                ""@,
                "Re-run the original `gddy dns set` command, or `gddy dns list "@ + domain@
                    + " --type "@ + record_type@ + " --name "@ + name@
                    + "` to review the current state."@,
            ],
            "\n"@,
        ),
{
    let views = outcomes.deep_view();
    lemma_failures_of_outcomes(outcomes@, views);
    if outcomes.len() == 0 {
        law_failures_are_counted(views, OutcomeView { kind: ""@, detail: ""@, error: None });
    } else {
        law_set_failure_line_by_line(domain@, record_type@, name@, views);
        assert(lines =~= Seq::new(
            views.len(),
            |i: int|
                if views[i].error is Some {
                    "  ✗ "@ + views[i].kind + " "@ + views[i].detail + " — "@ + views[i].error->0
                } else {
                    "  ✓ "@ + views[i].kind + " "@ + views[i].detail
                },
        )) by {
            assert forall|i: int| 0 <= i < views.len() implies #[trigger] views[i]
                == outcomes@[i].deep_view() by {}
        }
    }
}

/// As many outcomes failed as their models say.
proof fn lemma_failures_of_outcomes(outcomes: Seq<SetOutcome>, views: Seq<OutcomeView>)
    requires
        views.len() == outcomes.len(),
        forall|i: int|
            #![trigger views[i]]
            0 <= i < views.len() ==> views[i] == outcomes[i].deep_view(),
    ensures
        outcomes.filter(|outcome: SetOutcome| outcome.error is Some).len() == failure_count(views),
    decreases outcomes.len(),
{
    reveal(Seq::filter);
    if outcomes.len() > 0 {
        let rest = views.drop_last();
        assert forall|i: int| #![trigger rest[i]] 0 <= i < rest.len() implies rest[i]
            == outcomes.drop_last()[i].deep_view() by {
            assert(rest[i] == views[i]);
        }
        lemma_failures_of_outcomes(outcomes.drop_last(), rest);
        assert(views[views.len() - 1] == outcomes[outcomes.len() - 1].deep_view());
    }
}

/// A deletion is reported as a success exactly if no outcome holds an error. Then the result names
/// the domain, the type and the name under these fields, and counts every record.
pub proof fn law_deletions_summarized(
    domain: &str,
    record_type: &str,
    name: &str,
    outcomes: &[(String, Option<String>)],
    result: Result<Value, String>,
)
    requires
        call_ensures(summarize_delete_outcomes, (domain, record_type, name, outcomes), result),
    ensures
        result is Ok <==> forall|i: int|
            #![trigger outcomes@[i]]
            0 <= i < outcomes.len() ==> outcomes@[i].1 is None,
        result matches Ok(value) ==> json_of(value) == Json::Object(
            map![
                "domain"@ => Json::Text(domain@),
                "type"@ => Json::Text(record_type@),
                "name"@ => Json::Text(name@),
                "deleted"@ => Json::Number(outcomes.len() as int),
                "failed"@ => Json::Number(0),
                "action"@ => Json::Text("delete"@),
            ],
        ) && number_in(json_of(value), "deleted"@) == Some(outcomes.len() as int) && number_in(
            json_of(value),
            "failed"@,
        ) == Some(0int) && text_in(json_of(value), "domain"@) == Some(domain@) && text_in(
            json_of(value),
            "type"@,
        ) == Some(record_type@) && text_in(json_of(value), "name"@) == Some(name@) && text_in(
            json_of(value),
            "action"@,
        ) == Some("delete"@),
{
    let views = outcomes.deep_view();
    law_failed_deletions_are_counted(views, (""@, None));
    law_delete_result_counts_every_record(domain@, record_type@, name@, views);
    assert(forall|i: int|
        #![trigger outcomes@[i]]
        0 <= i < outcomes.len() ==> views[i] == outcomes@[i].deep_view());
    if forall|i: int|
        #![trigger outcomes@[i]]
        0 <= i < outcomes.len() ==> outcomes@[i].1 is None {
        assert forall|i: int|
            #![trigger views[i]]
            0 <= i < views.len() implies views[i].1 is None by {
            assert(outcomes@[i].1 is None);
        }
    }
}

/// As many deletions failed as their models say.
proof fn lemma_failures_of_deletions(
    outcomes: Seq<(String, Option<String>)>,
    views: Seq<(Seq<char>, Option<Seq<char>>)>,
)
    requires
        views.len() == outcomes.len(),
        forall|i: int|
            #![trigger views[i]]
            0 <= i < views.len() ==> views[i] == outcomes[i].deep_view(),
    ensures
        outcomes.filter(|outcome: (String, Option<String>)| outcome.1 is Some).len()
            == failed_deletions(views),
        outcomes.filter(|outcome: (String, Option<String>)| outcome.1 is Some).len()
            <= outcomes.len(),
    decreases outcomes.len(),
{
    reveal(Seq::filter);
    if outcomes.len() > 0 {
        let rest = views.drop_last();
        assert forall|i: int| #![trigger rest[i]] 0 <= i < rest.len() implies rest[i]
            == outcomes.drop_last()[i].deep_view() by {
            assert(rest[i] == views[i]);
        }
        lemma_failures_of_deletions(outcomes.drop_last(), rest);
        assert(views[views.len() - 1] == outcomes[outcomes.len() - 1].deep_view());
    }
}

/// The message of a deletion that failed in part, line by line.
pub proof fn law_failed_deletions_summarized(
    domain: &str,
    record_type: &str,
    name: &str,
    outcomes: &[(String, Option<String>)],
    result: Result<Value, String>,
    failed: nat,
    lines: Seq<Seq<char>>,
)
    requires
        call_ensures(summarize_delete_outcomes, (domain, record_type, name, outcomes), result),
        result is Err,
        failed == outcomes@.filter(|outcome: (String, Option<String>)| outcome.1 is Some).len(),
        lines.len() == outcomes.len(),
        forall|i: int|
            #![trigger lines[i]]
            0 <= i < lines.len() ==> lines[i] == match outcomes@[i].1 {
                Some(error) => "  ✗ "@ + outcomes@[i].0@ + " — "@ + error@,
                None => "  ✓ "@ + outcomes@[i].0@ + " — deleted"@,
            },
    ensures
        result->Err_0@ == joined(
            seq![
                "deleted "@ + decimal((outcomes.len() - failed) as nat) + " of "@ + decimal(
                    outcomes@.len(),
                ) + " record(s) for "@ + name@ + " ("@ + record_type@ + "); "@ + decimal(failed)
                    + " failed:"@,
            ] + lines + seq![
                ""@,
                "Re-run `gddy dns delete "@ + domain@ + " --type "@ + record_type@ + " --name "@
                    + name@ + "`, or `gddy dns list "@ + domain@ + " --type "@ + record_type@
                    + " --name "@ + name@ + "` to review the current state."@,
            ],
            "\n"@,
        ),
{
    let views = outcomes.deep_view();
    lemma_failures_of_deletions(outcomes@, views);
    if outcomes.len() == 0 {
        law_failed_deletions_are_counted(views, (""@, None));
    } else {
        law_delete_failure_line_by_line(
            domain@,
            record_type@,
            name@,
            views,
            (outcomes.len() - failed) as nat,
        );
        assert(lines =~= Seq::new(
            views.len(),
            |i: int|
                if views[i].1 is Some {
                    "  ✗ "@ + views[i].0 + " — "@ + views[i].1->0
                } else {
                    "  ✓ "@ + views[i].0 + " — deleted"@
                },
        )) by {
            assert forall|i: int| 0 <= i < views.len() implies #[trigger] views[i]
                == outcomes@[i].deep_view() by {}
        }
    }
}

/// The rows of a list come out as one array, each at its place, exactly if none of them failed;
/// otherwise the message holds the cause of the first that did.
pub proof fn law_lists_made(rows: Vec<Result<Value, String>>, result: Result<Value, String>)
    requires
        call_ensures(list_result, (rows,), result),
    ensures
        result is Err <==> exists|i: int|
            #![trigger rows@[i]]
            0 <= i < rows.len() && rows@[i] is Err,
        result matches Ok(value) ==> (json_of(value) matches Json::Array(items) && items.len()
            == rows.len() && forall|i: int|
            #![trigger rows@[i]]
            0 <= i < rows.len() ==> rows@[i] is Ok && items[i] == json_of(rows@[i]->Ok_0)),
        result matches Err(message) ==> exists|i: int|
            #![trigger rows@[i]]
            0 <= i < rows.len() && rows@[i] is Err && message@
                == "failed to serialize DNS records: "@ + rows@[i]->Err_0@ && (forall|j: int|
                #![trigger rows@.take(i)[j]]
                0 <= j < i ==> rows@.take(i)[j] is Ok),
{
    if result is Err {
        let i = choose|i: int|
            #![trigger rows@[i]]
            0 <= i < rows.len() && all_rows_serialized(rows@.take(i)) && (
            rows@[i] matches Err(cause) && result->Err_0@ == row_failure_text(cause@));
        assert(rows@[i] is Err);
    }
}

/// A number is written as a numeral that reads back as it.
pub proof fn law_numbers_written(n: usize, text: String)
    requires
        call_ensures(decimal_text, (n,), text),
    ensures
        numeral_value(text@) == n,
        text@.len() > 0,
        forall|i: int| 0 <= i < text@.len() ==> '0' <= #[trigger] text@[i] <= '9',
        text@.len() > 1 ==> text@[0] != '0',
{
    law_decimal_reads_back(n as nat);
}

/// Two groups of lines joined are the one and the other with one line break between, and one line
/// is joined to itself.
pub proof fn law_lines_joined(
    left: &Vec<String>,
    right: &Vec<String>,
    all: &Vec<String>,
    left_text: String,
    right_text: String,
    text: String,
)
    requires
        call_ensures(join_lines, (left,), left_text),
        call_ensures(join_lines, (right,), right_text),
        call_ensures(join_lines, (all,), text),
        all@ == left@ + right@,
    ensures
        all.len() == 0 ==> text@.len() == 0,
        left.len() == 1 ==> left_text@ == left@[0]@,
        left.len() > 0 && right.len() > 0 ==> text@ == left_text@ + seq!['\n'] + right_text@,
{
    reveal_strlit("\n");
    assert("\n"@ =~= seq!['\n']);
    assert(all.deep_view() =~= left.deep_view() + right.deep_view());
    law_joined(left.deep_view(), right.deep_view(), "\n"@);
    if all.len() == 0 {
        assert(all.deep_view() =~= Seq::empty());
    }
}

/// Two texts are the same exactly if they hold the same characters.
pub proof fn law_texts_compared(left: &str, right: &str, same: bool)
    requires
        call_ensures(same_text, (left, right), same),
    ensures
        same <==> left@ == right@,
{
}

/// A run of `dns set` starts exactly if no existing record lacks an id, with what it was asked for.
pub proof fn law_set_runs_started(
    domain: String,
    record_type: String,
    name: String,
    data: &[String],
    replace_conflicting: bool,
    existing: Vec<DnsRecord>,
    run: Result<SetRun, String>,
)
    requires
        call_ensures(
            SetRun::begin,
            (domain, record_type, name, data, replace_conflicting, existing),
            run,
        ),
    ensures
        run is Err <==> exists|i: int|
            #![trigger existing@[i]]
            0 <= i < existing.len() && existing@[i].record_id is None,
        run matches Ok(run) ==> run.deep_view() == SetRunView::started(
            domain@,
            record_type@,
            name@,
            data.deep_view(),
            replace_conflicting,
            existing.deep_view(),
        ),
        run matches Err(message) ==> message@ == "some existing "@ + record_type@
            + " records for "@ + name@
            + " were returned without a recordId, so `set` can't safely replace the full set. Re-run `gddy dns list "@
            + domain@ + " --type "@ + record_type@ + " --name "@ + name@
            + "` and adjust in the control panel if this persists."@,
{
}

/// A run of `dns set` asks for calls and takes replies as the laws on whole runs say, and its
/// result is the summary of its outcomes.
pub proof fn law_steps_of_set_runs(
    run: &SetRun,
    call: Option<ApiCall>,
    result: Result<Value, String>,
    outcomes: &[SetOutcome],
)
    requires
        call_ensures(SetRun::next_call, (run,), call),
        call_ensures(SetRun::result, (run,), result),
        outcomes.deep_view() == run.outcomes.deep_view(),
    ensures
        call.deep_view() == run.deep_view().pending(),
        result is Ok <==> failure_count(outcomes.deep_view()) == 0,
        result matches Ok(value) ==> json_of(value) == set_success(
            run.domain@,
            run.record_type@,
            run.name@,
            outcomes.deep_view(),
        ),
        result matches Err(message) ==> message@ == set_failure_text(
            run.domain@,
            run.record_type@,
            run.name@,
            outcomes.deep_view(),
        ),
        forall|now: &mut SetRun, reply: Reply| #[trigger]
            call_ensures(SetRun::take_reply, (now, reply), ()) ==> final(now).deep_view()
                == now.deep_view().after(reply.deep_view()),
{
}

/// A run of `dns delete` starts with what it was asked for, asks for calls and takes replies as the
/// laws on whole runs say, and its result is the summary of its outcomes.
pub proof fn law_steps_of_delete_runs(
    domain: String,
    record_type: String,
    name: String,
    records: Vec<DnsRecord>,
    started: DeleteRun,
    run: &DeleteRun,
    call: Option<ApiCall>,
    result: Result<Value, String>,
)
    requires
        call_ensures(DeleteRun::begin, (domain, record_type, name, records), started),
        call_ensures(DeleteRun::next_call, (run,), call),
        call_ensures(DeleteRun::result, (run,), result),
    ensures
        started.deep_view() == DeleteRunView::started(
            domain@,
            record_type@,
            name@,
            records.deep_view(),
        ),
        call.deep_view() == run.deep_view().pending(),
        result is Ok <==> failed_deletions(run.outcomes.deep_view()) == 0,
        result matches Ok(value) ==> json_of(value) == delete_success(
            run.domain@,
            run.record_type@,
            run.name@,
            run.outcomes.deep_view().len(),
        ),
        result matches Err(message) ==> message@ == delete_failure_text(
            run.domain@,
            run.record_type@,
            run.name@,
            run.outcomes.deep_view(),
        ),
        forall|now: &mut DeleteRun, reply: Reply| #[trigger]
            call_ensures(DeleteRun::take_reply, (now, reply), ()) ==> final(now).deep_view()
                == now.deep_view().after(reply.deep_view()),
{
}

} // verus!
