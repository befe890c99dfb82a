use domain_checker::lookup::{FetchOutcome, RdapClient};

#[test]
fn start_lookup_builds_the_request_url() {
    let client = RdapClient::new(5);
    let prep = client.start_lookup("Example.COM").unwrap();
    assert_eq!(prep.domain, "example.com".to_string());
    assert_eq!(prep.url, "https://rdap.verisign.com/domain/example.com".to_string());
}

#[test]
fn start_lookup_rejects_an_empty_domain() {
    let client = RdapClient::new(5);
    assert_eq!(client.start_lookup("").unwrap_err(), "Domain cannot be empty".to_string());
}

#[test]
fn start_lookup_rejects_a_malformed_domain() {
    let client = RdapClient::new(5);
    assert_eq!(
        client.start_lookup("bad domain").unwrap_err(),
        "Invalid domain format".to_string()
    );
}

#[test]
fn start_lookup_reports_an_unrouted_tld() {
    let client = RdapClient::new(5);
    assert_eq!(
        client.start_lookup("example.zz").unwrap_err(),
        "No RDAP server found for TLD: zz".to_string()
    );
}

#[test]
fn a_valid_body_yields_a_successful_result() {
    let client = RdapClient::new(5);
    let body = "{\"events\":[{\"eventAction\":\"registration\",\"eventDate\":\"2020-01-01T00:00:00Z\"}],\"status\":[\"active\"],\"nameservers\":[{\"ldhName\":\"NS1.Example.COM\"}]}";
    let r = client.finish_lookup(
        "example.com",
        "example.com",
        FetchOutcome::Body(body.to_string()),
        123,
    );
    assert!(r.success);
    assert_eq!(r.error, None);
    assert_eq!(r.domain, "example.com".to_string());
    assert_eq!(r.method, "rdap".to_string());
    assert_eq!(r.lookup_time_ms, 123);
    let info = r.data.expect("record expected");
    assert_eq!(info.creation_date, Some(1577836800));
    assert_eq!(info.status, vec!["active".to_string()]);
    assert_eq!(info.name_servers, vec!["ns1.example.com".to_string()]);
    assert_eq!(info.raw_data, Some(body.to_string()));
}

#[test]
fn an_unparsable_body_is_a_decode_failure() {
    let client = RdapClient::new(5);
    let r = client.finish_lookup(
        "example.com",
        "example.com",
        FetchOutcome::Body("not json".to_string()),
        7,
    );
    assert!(!r.success);
    assert!(r.data.is_none());
    assert_eq!(r.error, Some("Invalid JSON in RDAP response".to_string()));
}

#[test]
fn a_timeout_is_reported_as_timed_out() {
    let client = RdapClient::new(1);
    let r = client.finish_lookup("example.com", "example.com", FetchOutcome::TimedOut, 1000);
    assert!(!r.success);
    assert!(r.data.is_none());
    let message = r.error.expect("error expected");
    assert!(message.contains("timed out"));
    assert_eq!(r.lookup_time_ms, 1000);
}

#[test]
fn a_transport_failure_carries_its_message() {
    let client = RdapClient::new(5);
    let r = client.finish_lookup(
        "example.com",
        "example.com",
        FetchOutcome::Transport("connection reset".to_string()),
        3,
    );
    assert!(!r.success);
    assert_eq!(r.error, Some("connection reset".to_string()));
}

#[test]
fn a_bad_status_code_is_rendered_in_decimal() {
    let client = RdapClient::new(5);
    let r = client.finish_lookup("example.com", "example.com", FetchOutcome::HttpStatus(404), 9);
    assert!(!r.success);
    assert_eq!(r.error, Some("HTTP error: 404".to_string()));
    let r5 = client.finish_lookup("example.com", "example.com", FetchOutcome::HttpStatus(500), 9);
    assert_eq!(r5.error, Some("HTTP error: 500".to_string()));
}

#[test]
fn failure_result_fills_the_envelope() {
    let client = RdapClient::new(5);
    let r = client.failure_result("example.com", "some message", 42);
    assert!(!r.success);
    assert_eq!(r.domain, "example.com".to_string());
    assert_eq!(r.error, Some("some message".to_string()));
    assert!(r.data.is_none());
    assert_eq!(r.lookup_time_ms, 42);
    assert_eq!(r.method, "rdap".to_string());
}
