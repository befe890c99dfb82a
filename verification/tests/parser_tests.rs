use domain_checker::json::Json;
use domain_checker::lookup::RdapClient;

fn s(text: &str) -> Json {
    Json::Str(text.to_string())
}

fn obj(fields: Vec<(&str, Json)>) -> Json {
    Json::Obj(fields.into_iter().map(|(k, v)| (k.to_string(), v)).collect())
}

fn event(action: &str, date: &str) -> Json {
    obj(vec![("eventAction", s(action)), ("eventDate", s(date))])
}

fn vcard_entity(roles: Vec<&str>, props: Vec<Json>) -> Json {
    obj(vec![
        ("roles", Json::Arr(roles.into_iter().map(s).collect())),
        ("vcardArray", Json::Arr(vec![s("vcard"), Json::Arr(vec![]), Json::Arr(props)])),
    ])
}

fn prop(name: &str, value: &str) -> Json {
    Json::Arr(vec![s(name), obj(vec![]), s("text"), s(value)])
}

#[test]
fn registration_event_sets_the_creation_date() {
    let doc = obj(vec![(
        "events",
        Json::Arr(vec![event("registration", "2020-01-01T00:00:00Z")]),
    )]);
    let info = RdapClient::new(5).parse_rdap_data("example.com", &doc, "{}");
    assert_eq!(info.creation_date, Some(1577836800));
    assert_eq!(info.expiration_date, None);
    assert_eq!(info.updated_date, None);
}

#[test]
fn event_actions_are_matched_case_insensitively() {
    let doc = obj(vec![(
        "events",
        Json::Arr(vec![
            event("Expiration", "2030-06-15T12:00:00Z"),
            event("LAST CHANGED", "2021-02-03T04:05:06Z"),
        ]),
    )]);
    let info = RdapClient::new(5).parse_rdap_data("example.com", &doc, "{}");
    assert!(info.expiration_date.is_some());
    assert!(info.updated_date.is_some());
    assert_eq!(info.creation_date, None);
}

#[test]
fn later_events_overwrite_earlier_ones() {
    let doc = obj(vec![(
        "events",
        Json::Arr(vec![
            event("registration", "2019-01-01T00:00:00Z"),
            event("registration", "2020-01-01T00:00:00Z"),
        ]),
    )]);
    let info = RdapClient::new(5).parse_rdap_data("example.com", &doc, "{}");
    assert_eq!(info.creation_date, Some(1577836800));
}

#[test]
fn malformed_dates_are_skipped() {
    let doc = obj(vec![(
        "events",
        Json::Arr(vec![event("registration", "not-a-date")]),
    )]);
    let info = RdapClient::new(5).parse_rdap_data("example.com", &doc, "{}");
    assert_eq!(info.creation_date, None);
}

#[test]
fn status_strings_and_descriptions_are_collected_in_order() {
    let doc = obj(vec![(
        "status",
        Json::Arr(vec![
            s("active"),
            obj(vec![("description", s("client transfer prohibited"))]),
            Json::Num("42".to_string()),
            obj(vec![("other", s("ignored"))]),
            s("active"),
        ]),
    )]);
    let info = RdapClient::new(5).parse_rdap_data("example.com", &doc, "{}");
    assert_eq!(
        info.status,
        vec![
            "active".to_string(),
            "client transfer prohibited".to_string(),
            "active".to_string()
        ]
    );
}

#[test]
fn name_servers_are_lowered_and_kept_in_order() {
    let doc = obj(vec![(
        "nameservers",
        Json::Arr(vec![
            obj(vec![("ldhName", s("NS1.Example.COM"))]),
            obj(vec![("unrelated", s("x"))]),
            obj(vec![("ldhName", s("ns2.example.com"))]),
        ]),
    )]);
    let info = RdapClient::new(5).parse_rdap_data("example.com", &doc, "{}");
    assert_eq!(
        info.name_servers,
        vec!["ns1.example.com".to_string(), "ns2.example.com".to_string()]
    );
}

#[test]
fn registrant_vcard_yields_the_name_field() {
    let doc = obj(vec![(
        "entities",
        Json::Arr(vec![vcard_entity(vec!["registrant"], vec![prop("fn", "Jane Doe")])]),
    )]);
    let info = RdapClient::new(5).parse_rdap_data("example.com", &doc, "{}");
    let contact = info.registrant.expect("registrant expected");
    assert_eq!(contact.name, Some("Jane Doe".to_string()));
    assert_eq!(contact.organization, None);
    assert_eq!(contact.email, None);
    assert_eq!(contact.phone, None);
    assert_eq!(contact.address, None);
}

#[test]
fn all_five_vcard_fields_are_recognized() {
    let doc = obj(vec![(
        "entities",
        Json::Arr(vec![vcard_entity(
            vec!["technical"],
            vec![
                prop("fn", "Tech Person"),
                prop("org", "Example Org"),
                prop("email", "tech@example.com"),
                prop("tel", "+1.5551234"),
                prop("adr", "1 Main St"),
            ],
        )]),
    )]);
    let info = RdapClient::new(5).parse_rdap_data("example.com", &doc, "{}");
    let contact = info.tech_contact.expect("tech contact expected");
    assert_eq!(contact.name, Some("Tech Person".to_string()));
    assert_eq!(contact.organization, Some("Example Org".to_string()));
    assert_eq!(contact.email, Some("tech@example.com".to_string()));
    assert_eq!(contact.phone, Some("+1.5551234".to_string()));
    assert_eq!(contact.address, Some("1 Main St".to_string()));
}

#[test]
fn short_or_non_string_vcard_properties_are_skipped() {
    let doc = obj(vec![(
        "entities",
        Json::Arr(vec![vcard_entity(
            vec!["registrant"],
            vec![
                Json::Arr(vec![s("fn"), obj(vec![]), s("text")]),
                Json::Arr(vec![Json::Num("1".to_string()), obj(vec![]), s("text"), s("x")]),
                Json::Arr(vec![s("fn"), obj(vec![]), s("text"), Json::Null]),
            ],
        )]),
    )]);
    let info = RdapClient::new(5).parse_rdap_data("example.com", &doc, "{}");
    assert!(info.registrant.is_none());
}

#[test]
fn registrar_name_is_first_wins() {
    let e1 = obj(vec![
        ("roles", Json::Arr(vec![s("registrar")])),
        ("name", s("First Registrar")),
    ]);
    let e2 = obj(vec![
        ("roles", Json::Arr(vec![s("registrar")])),
        ("name", s("Second Registrar")),
    ]);
    let doc = obj(vec![("entities", Json::Arr(vec![e1, e2]))]);
    let info = RdapClient::new(5).parse_rdap_data("example.com", &doc, "{}");
    assert_eq!(info.registrar, Some("First Registrar".to_string()));
}

#[test]
fn admin_contact_is_last_wins() {
    let e1 = vcard_entity(vec!["administrative"], vec![prop("fn", "First Admin")]);
    let e2 = vcard_entity(vec!["administrative"], vec![prop("fn", "Second Admin")]);
    let doc = obj(vec![("entities", Json::Arr(vec![e1, e2]))]);
    let info = RdapClient::new(5).parse_rdap_data("example.com", &doc, "{}");
    let contact = info.admin_contact.expect("admin contact expected");
    assert_eq!(contact.name, Some("Second Admin".to_string()));
}

#[test]
fn registrar_name_falls_back_to_the_vcard() {
    let entity = vcard_entity(vec!["registrar"], vec![prop("fn", "Vcard Registrar")]);
    let doc = obj(vec![("entities", Json::Arr(vec![entity]))]);
    let info = RdapClient::new(5).parse_rdap_data("example.com", &doc, "{}");
    assert_eq!(info.registrar, Some("Vcard Registrar".to_string()));
}

#[test]
fn parse_vcard_and_extract_name_work_standalone() {
    let client = RdapClient::new(5);
    let entity = vcard_entity(vec!["registrant"], vec![prop("fn", "Someone")]);
    let contact = client.parse_vcard(&entity).expect("contact expected");
    assert_eq!(contact.name, Some("Someone".to_string()));
    assert_eq!(client.extract_name_from_vcard(&entity), Some("Someone".to_string()));
    let named = obj(vec![("name", s("Direct Name"))]);
    assert_eq!(client.extract_name_from_vcard(&named), Some("Direct Name".to_string()));
    assert!(client.parse_vcard(&named).is_none());
}

#[test]
fn missing_sections_leave_the_record_empty() {
    let doc = obj(vec![]);
    let info = RdapClient::new(5).parse_rdap_data("example.com", &doc, "raw text");
    assert_eq!(info.domain, "example.com".to_string());
    assert_eq!(info.registrar, None);
    assert_eq!(info.creation_date, None);
    assert!(info.status.is_empty());
    assert!(info.name_servers.is_empty());
    assert!(info.registrant.is_none());
    assert_eq!(info.raw_data, Some("raw text".to_string()));
    assert_eq!(info.source, "rdap".to_string());
}
