use domain_checker::lookup::RdapClient;
use domain_checker::registry::resolve;

#[test]
fn known_tld_resolves() {
    assert_eq!(resolve("com"), Some("https://rdap.verisign.com/".to_string()));
    assert_eq!(resolve("de"), Some("https://rdap.denic.de/".to_string()));
    assert_eq!(resolve("org"), Some("https://rdap.publicinterestregistry.net/".to_string()));
}

#[test]
fn resolution_is_case_insensitive() {
    assert_eq!(resolve("COM"), resolve("com"));
    assert_eq!(resolve("Co"), resolve("co"));
    assert!(resolve("COM").is_some());
}

#[test]
fn unknown_tld_is_not_found() {
    assert_eq!(resolve("zz"), None);
    assert_eq!(resolve(""), None);
}

#[test]
fn client_resolve_matches_registry() {
    let client = RdapClient::new(5);
    assert_eq!(client.resolve("NET"), Some("https://rdap.verisign.com/".to_string()));
    assert_eq!(client.resolve("zz"), None);
}

#[test]
fn extract_tld_takes_the_last_label_lowered() {
    let client = RdapClient::new(5);
    assert_eq!(client.extract_tld("example.com"), "com".to_string());
    assert_eq!(client.extract_tld("a.b.C.ORG"), "org".to_string());
    assert_eq!(client.extract_tld("nodot"), "nodot".to_string());
    assert_eq!(client.extract_tld("trailing."), "".to_string());
}

#[test]
fn client_keeps_its_timeout() {
    let client = RdapClient::new(7);
    assert_eq!(client.timeout_secs, 7);
}
