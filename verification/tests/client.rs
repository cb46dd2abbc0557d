use domains_dns::api::{ApiCall, RecordDraft};
use domains_dns::client::{
    auth_headers, client_from_build, client_with_auth, http_failure_message, BuildError,
    DomainsClient,
};
use domains_dns::endpoint::{Method, Operation};

fn client_for(base_url: &str) -> DomainsClient {
    client_with_auth(base_url, "Bearer tok", "godaddy-cli/test", "req-1").expect("build client")
}

fn http_method(method: Method) -> reqwest::Method {
    match method {
        Method::Get => reqwest::Method::GET,
        Method::Post => reqwest::Method::POST,
        Method::Put => reqwest::Method::PUT,
        Method::Delete => reqwest::Method::DELETE,
    }
}

/// The request of an operation, as the HTTP client makes it.
fn request(client: &DomainsClient, operation: &Operation) -> reqwest::Request {
    client
        .client
        .request(http_method(operation.method()), client.url(operation))
        .build()
        .expect("a request")
}

fn draft() -> RecordDraft {
    RecordDraft {
        name: "www".to_string(),
        record_type: "A".to_string(),
        data: "1.2.3.4".to_string(),
    }
}

fn delete(zone: &str, record_id: &str) -> ApiCall {
    ApiCall::Delete {
        zone: zone.to_string(),
        record_id: record_id.to_string(),
        conflict: false,
    }
}

#[test]
fn every_request_carries_the_authorization() {
    let client = client_for("https://api.example.net");
    // The description of an HTTP client shows the headers that it adds to its requests.
    let shown = format!("{:?}", client.client);
    assert!(shown.contains("\"authorization\": \"Bearer tok\""), "{shown}");
    assert!(shown.contains("\"x-request-id\": \"req-1\""), "{shown}");
    assert!(
        shown.contains("\"user-agent\": \"godaddy-cli/test\""),
        "{shown}"
    );
    assert!(shown.contains("\"accept\": \"*/*\""), "{shown}");
}

#[test]
fn calls_go_to_their_endpoints() {
    let client = client_for("https://api.example.net");
    let create = ApiCall::Create {
        zone: "example.com".to_string(),
        draft: draft(),
        retry: false,
    };
    let replace = ApiCall::Replace {
        zone: "example.com".to_string(),
        record_id: "rec-1".to_string(),
        draft: draft(),
        retry: true,
    };
    let list = ApiCall::ListName {
        zone: "example.com".to_string(),
        draft: draft(),
    };
    let expected = [
        (create, "POST", "/v3/domains/zones/example.com/dns-records"),
        (replace, "PUT", "/v3/domains/zones/example.com/dns-records/rec-1"),
        (
            delete("example.com", "rec-1"),
            "DELETE",
            "/v3/domains/zones/example.com/dns-records/rec-1",
        ),
        (list, "GET", "/v3/domains/zones/example.com/dns-records"),
    ];
    for (call, method, path) in expected {
        let request = request(&client, &call.operation());
        assert_eq!(request.method().as_str(), method);
        assert_eq!(request.url().host_str(), Some("api.example.net"));
        assert_eq!(request.url().path(), path);
        assert_eq!(request.url().query(), None);
    }
}

#[test]
fn operations_go_to_their_endpoints() {
    let client = client_for("https://api.example.net");
    let name = || "example.com".to_string();
    let expected = [
        (Operation::SuggestDomains, "GET", "/v3/domains/suggestions"),
        (
            Operation::GetDomainAvailability,
            "GET",
            "/v3/domains/check-availability",
        ),
        (
            Operation::CheckAvailability,
            "POST",
            "/v3/domains/check-availability",
        ),
        (
            Operation::QuoteDomainRegistration,
            "POST",
            "/v3/domains/registration-quotes",
        ),
        (
            Operation::RegisterDomain,
            "POST",
            "/v3/domains/registrations",
        ),
        (
            Operation::GetOperation {
                operation_id: "op-1".to_string(),
            },
            "GET",
            "/v3/domains/operations/op-1",
        ),
        (
            Operation::GetDomain {
                domain_name: name(),
            },
            "GET",
            "/v3/domains/domain-names/example.com",
        ),
        (
            Operation::UpdateNameservers {
                domain_name: name(),
            },
            "PUT",
            "/v3/domains/domain-names/example.com/nameservers",
        ),
        (Operation::List, "GET", "/v1/domains"),
        (Operation::Agreements, "GET", "/v1/domains/agreements"),
    ];
    for (operation, method, path) in expected {
        let request = request(&client, &operation);
        assert_eq!(request.method().as_str(), method);
        assert_eq!(request.url().host_str(), Some("api.example.net"));
        assert_eq!(request.url().path(), path);
        assert_eq!(operation.path(), path);
    }
}

#[test]
fn operations_succeed_with_one_status() {
    let text = || "x".to_string();
    let expected = [
        (Operation::SuggestDomains, 200),
        (Operation::GetDomainAvailability, 200),
        (Operation::CheckAvailability, 200),
        (Operation::QuoteDomainRegistration, 200),
        (Operation::RegisterDomain, 202),
        (
            Operation::GetOperation {
                operation_id: text(),
            },
            200,
        ),
        (
            Operation::GetDomain {
                domain_name: text(),
            },
            200,
        ),
        (
            Operation::UpdateNameservers {
                domain_name: text(),
            },
            202,
        ),
        (Operation::ListDnsRecords { zone: text() }, 200),
        (Operation::CreateDnsRecord { zone: text() }, 201),
        (
            Operation::ReplaceDnsRecord {
                zone: text(),
                record_id: text(),
            },
            200,
        ),
        (
            Operation::DeleteDnsRecord {
                zone: text(),
                record_id: text(),
            },
            204,
        ),
        (Operation::List, 200),
        (Operation::Agreements, 200),
    ];
    for (operation, status) in expected {
        for other in 100..600u16 {
            assert_eq!(operation.succeeds_with(other), other == status);
        }
    }
}

#[test]
fn ids_stay_in_their_segment() {
    let client = client_for("https://api.example.net");
    let request = request(&client, &delete("example.com", "a/b?c#d").operation());
    let segments: Vec<&str> = request.url().path().split('/').collect();
    assert_eq!(
        segments,
        vec!["", "v3", "domains", "zones", "example.com", "dns-records", "a%2Fb%3Fc%23d"]
    );
    assert_eq!(request.url().query(), None);
    assert_eq!(request.url().fragment(), None);
}

#[test]
fn urls_escape_what_would_end_a_segment() {
    let client = client_for("https://api.example.net");
    assert_eq!(
        client.url(&delete("example.com", "rec-1").operation()),
        "https://api.example.net/v3/domains/zones/example.com/dns-records/rec-1"
    );
    assert_eq!(
        client.url(&delete("a/b c", "100%?#\"<>`{}").operation()),
        "https://api.example.net/v3/domains/zones/a%2Fb%20c/dns-records/100%25%3F%23%22%3C%3E%60%7B%7D"
    );
    assert_eq!(
        client.url(&delete("münchen.de", "a\u{7f}~!'()*+,;=:@&$.-_").operation()),
        "https://api.example.net/v3/domains/zones/m%C3%BCnchen.de/dns-records/a%7F~!'()*+,;=:@&$.-_"
    );
}

#[test]
fn different_ids_have_different_urls() {
    let client = client_for("https://api.example.net");
    let ids = ["a/b", "a%2Fb", "a%252Fb", "a", "b", ""];
    for (i, left) in ids.iter().enumerate() {
        for (j, right) in ids.iter().enumerate() {
            let left = client.url(&delete("example.com", left).operation());
            let right = client.url(&delete("example.com", right).operation());
            assert_eq!(left == right, i == j);
        }
    }
}

#[test]
fn client_keeps_its_base_url() {
    let client = client_for("https://api.example.net");
    assert_eq!(client.baseurl, "https://api.example.net");
}

#[test]
fn header_values_without_control_characters_are_accepted() {
    let headers = auth_headers("Bearer\ttök", "").expect("valid values");
    assert_eq!(headers.len(), 2);
    assert_eq!(headers["authorization"].as_bytes(), "Bearer\ttök".as_bytes());
    assert_eq!(headers["x-request-id"].as_bytes(), b"");
}

#[test]
fn header_values_with_control_characters_are_refused() {
    for value in ["a\nb", "a\rb", "\u{0}", "\u{1f}", "a\u{7f}"] {
        let refused = client_with_auth("https://api.example.net", value, "agent", "req-1");
        assert!(matches!(refused, Err(BuildError::Header(_))));
        let refused = client_with_auth("https://api.example.net", "Bearer tok", "agent", value);
        assert!(matches!(refused, Err(BuildError::Header(_))));
    }
    let error = client_with_auth("https://api.example.net", "a\nb", "agent", "req-1")
        .err()
        .expect("a refused value");
    assert_eq!(
        error.message(),
        "invalid header value: failed to parse header value"
    );
}

#[test]
fn user_agent_with_control_characters_is_refused() {
    let error = client_with_auth("https://api.example.net", "Bearer tok", "a\nb", "req-1")
        .err()
        .expect("a refused user agent");
    assert!(matches!(error, BuildError::Http(_)));
    assert_eq!(
        error.message(),
        "failed to build HTTP client: builder error"
    );
}

#[test]
fn header_errors_come_before_those_of_the_client() {
    let error = client_with_auth("https://api.example.net", "a\nb", "a\nb", "req-1")
        .err()
        .expect("refused values");
    assert!(matches!(error, BuildError::Header(_)));
}

#[test]
fn failed_build_becomes_an_http_error() {
    let built = reqwest::Client::builder().user_agent("a\nb").build();
    let error = client_from_build("https://api.example.net", built)
        .err()
        .expect("a failed build");
    assert!(matches!(error, BuildError::Http(_)));
    assert_eq!(
        http_failure_message("no certificates"),
        "failed to build HTTP client: no certificates"
    );
}
