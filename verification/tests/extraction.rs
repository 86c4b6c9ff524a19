use mobileconf::aggregate::partition_results;
use mobileconf::document::{Dictionary, DocumentError, DocumentNode, NodeKind};
use mobileconf::extract::{extract, extract_outcomes, parse_entry, ExtractionResult, PayloadRecord};
use mobileconf::record::{RecordError, TlsCertificateProfile, WifiProfile};

fn text(value: &str) -> DocumentNode {
    DocumentNode::String(value.to_string())
}

fn dictionary(entries: Vec<(&str, DocumentNode)>) -> Dictionary {
    let mut dict = Dictionary::new();
    for (key, value) in entries {
        dict.insert(key.to_string(), value);
    }
    dict
}

fn wifi_fields(ssid: &str) -> Vec<(&'static str, DocumentNode)> {
    let eap = dictionary(vec![
        ("PayloadCertificateAnchorUUID", DocumentNode::Array(vec![text("U1")])),
        ("UserName", text("bob")),
        ("UserPassword", text("pw")),
        ("TTLSInnerAuthentication", text("PAP")),
    ]);
    vec![("EAPClientConfiguration", DocumentNode::Dictionary(eap)), ("SSID_STR", text(ssid))]
}

fn wifi_entry(ssid: &str) -> DocumentNode {
    let mut fields = wifi_fields(ssid);
    fields.push(("PayloadType", text("com.apple.wifi.managed")));
    DocumentNode::Dictionary(dictionary(fields))
}

fn untyped_wifi_entry(ssid: &str) -> DocumentNode {
    DocumentNode::Dictionary(dictionary(wifi_fields(ssid)))
}

fn certificate_entry(uuid: &str, content: &[u8]) -> DocumentNode {
    DocumentNode::Dictionary(dictionary(vec![
        ("PayloadType", text("com.apple.security.root")),
        ("PayloadUUID", text(uuid)),
        ("PayloadContent", DocumentNode::Data(content.to_vec())),
    ]))
}

fn foreign_entry(payload_type: &str) -> DocumentNode {
    DocumentNode::Dictionary(dictionary(vec![
        ("PayloadType", text(payload_type)),
        ("PayloadUUID", text("X")),
    ]))
}

fn document(entries: Vec<DocumentNode>) -> DocumentNode {
    DocumentNode::Dictionary(dictionary(vec![
        ("PayloadDisplayName", text("Profile")),
        ("PayloadContent", DocumentNode::Array(entries)),
    ]))
}

fn wifi(ssid: &str) -> PayloadRecord {
    PayloadRecord::Wifi(WifiProfile {
        certificate_anchor_uuids: vec!["U1".to_string()],
        trusted_server_names: vec![],
        user_name: "bob".to_string(),
        user_password: "pw".to_string(),
        ssid: ssid.to_string(),
        inner_auth_method: "PAP".to_string(),
    })
}

fn certificate(uuid: &str, content_base64: &str) -> PayloadRecord {
    PayloadRecord::TlsCertificate(TlsCertificateProfile {
        uuid: uuid.to_string(),
        content_base64: content_base64.to_string(),
    })
}

fn entry_of(node: DocumentNode) -> Dictionary {
    match node {
        DocumentNode::Dictionary(dict) => dict,
        _ => unreachable!(),
    }
}

#[test]
fn partition_keeps_the_order_within_each_list() {
    let outcomes: Vec<Result<u32, &str>> =
        vec![Ok(1), Err("a"), Err("b"), Ok(2), Ok(3), Err("c"), Ok(4)];
    assert_eq!(partition_results(outcomes), (vec![1, 2, 3, 4], vec!["a", "b", "c"]));
}

#[test]
fn partition_of_nothing_is_two_empty_lists() {
    let outcomes: Vec<Result<u8, u8>> = vec![];
    assert_eq!(partition_results(outcomes), (vec![], vec![]));
}

#[test]
fn partition_of_one_kind_leaves_the_other_list_empty() {
    let successes: Vec<Result<u8, u8>> = vec![Ok(3), Ok(1), Ok(2)];
    assert_eq!(partition_results(successes), (vec![3, 1, 2], vec![]));
    let failures: Vec<Result<u8, u8>> = vec![Err(3), Err(1)];
    assert_eq!(partition_results(failures), (vec![], vec![3, 1]));
}

#[test]
fn partition_drops_and_doubles_nothing() {
    let outcomes: Vec<Result<usize, usize>> =
        (0..50).map(|i| if i % 3 == 0 { Err(i) } else { Ok(i) }).collect();
    let (oks, errs) = partition_results(outcomes);
    assert_eq!(oks.len() + errs.len(), 50);
    assert_eq!(errs, (0..50).filter(|i| i % 3 == 0).collect::<Vec<usize>>());
    assert_eq!(oks, (0..50).filter(|i| i % 3 != 0).collect::<Vec<usize>>());
}

#[test]
fn entry_is_read_by_the_first_parser_that_takes_it() {
    assert_eq!(parse_entry(&entry_of(wifi_entry("A"))), Ok(wifi("A")));
    assert_eq!(
        parse_entry(&entry_of(certificate_entry("C1", b"foo"))),
        Ok(certificate("C1", "Zm9v"))
    );
}

#[test]
fn entry_without_payload_type_that_fits_the_wifi_schema_is_a_wifi_profile() {
    assert_eq!(parse_entry(&entry_of(untyped_wifi_entry("A"))), Ok(wifi("A")));
}

#[test]
fn entry_without_payload_type_that_fits_only_the_certificate_schema_is_a_certificate() {
    let entry = dictionary(vec![
        ("PayloadUUID", text("C9")),
        ("PayloadContent", DocumentNode::Data(b"fo".to_vec())),
    ]);
    assert_eq!(parse_entry(&entry), Ok(certificate("C9", "Zm8=")));
}

#[test]
fn entry_of_a_foreign_type_is_not_applicable() {
    assert_eq!(
        parse_entry(&entry_of(foreign_entry("com.apple.vpn.managed"))),
        Err(RecordError::NotApplicable)
    );
}

#[test]
fn entry_whose_payload_type_is_no_string_is_not_applicable() {
    let mut fields = wifi_fields("A");
    fields.push(("PayloadType", DocumentNode::Other));
    assert_eq!(parse_entry(&dictionary(fields)), Err(RecordError::NotApplicable));
    let entry = dictionary(vec![
        ("PayloadType", DocumentNode::Data(vec![1])),
        ("PayloadUUID", text("C1")),
        ("PayloadContent", DocumentNode::Data(b"foo".to_vec())),
    ]);
    assert_eq!(parse_entry(&entry), Err(RecordError::NotApplicable));
}

#[test]
fn entries_whose_payload_type_is_no_string_count_among_the_foreign_ones() {
    let mut mistyped = wifi_fields("hidden");
    mistyped.push(("PayloadType", DocumentNode::Array(vec![])));
    let doc = document(vec![
        DocumentNode::Dictionary(dictionary(mistyped)),
        wifi_entry("A"),
        foreign_entry("com.apple.vpn.managed"),
    ]);
    assert_eq!(
        extract(&doc),
        Ok(ExtractionResult {
            records: vec![wifi("A")],
            errors: vec![RecordError::NotApplicable, RecordError::NotApplicable],
        })
    );
}

#[test]
fn entry_keeps_the_first_error_that_is_not_not_applicable() {
    // Untyped and empty: both parsers go on, and both fail; the Wi-Fi parser's
    // error comes first.
    assert_eq!(
        parse_entry(&Dictionary::new()),
        Err(RecordError::MissingField("EAPClientConfiguration".to_string()))
    );
    // A Wi-Fi entry with a flaw: the certificate parser does not apply.
    let mut fields = wifi_fields("A");
    fields.push(("PayloadType", text("com.apple.wifi.managed")));
    fields.retain(|(name, _)| *name != "SSID_STR");
    assert_eq!(
        parse_entry(&dictionary(fields)),
        Err(RecordError::MissingField("SSID_STR".to_string()))
    );
    // A certificate entry with a flaw: the Wi-Fi parser does not apply.
    let entry = dictionary(vec![
        ("PayloadType", text("com.apple.security.pem")),
        ("PayloadUUID", text("C1")),
        ("PayloadContent", text("not data")),
    ]);
    assert_eq!(
        parse_entry(&entry),
        Err(RecordError::TypeMismatch("PayloadContent".to_string(), NodeKind::Data))
    );
}

#[test]
fn document_that_is_no_dictionary_has_an_unexpected_shape() {
    assert_eq!(extract(&text("x")), Err(DocumentError::UnexpectedShape));
    assert_eq!(extract(&DocumentNode::Array(vec![])), Err(DocumentError::UnexpectedShape));
    assert_eq!(extract(&DocumentNode::Other), Err(DocumentError::UnexpectedShape));
}

#[test]
fn document_without_payload_content_has_an_unexpected_shape() {
    let doc = DocumentNode::Dictionary(dictionary(vec![("PayloadType", text("Configuration"))]));
    assert_eq!(extract(&doc), Err(DocumentError::UnexpectedShape));
    assert_eq!(extract(&DocumentNode::Dictionary(Dictionary::new())), Err(DocumentError::UnexpectedShape));
}

#[test]
fn document_whose_payload_content_is_no_array_has_an_unexpected_shape() {
    let doc = DocumentNode::Dictionary(dictionary(vec![("PayloadContent", text("x"))]));
    assert_eq!(extract(&doc), Err(DocumentError::UnexpectedShape));
    let doc = DocumentNode::Dictionary(dictionary(vec![(
        "PayloadContent",
        DocumentNode::Dictionary(Dictionary::new()),
    )]));
    assert_eq!(extract(&doc), Err(DocumentError::UnexpectedShape));
}

#[test]
fn document_with_an_entry_that_is_no_dictionary_has_an_unexpected_shape() {
    let doc = document(vec![wifi_entry("A"), text("stray"), wifi_entry("B")]);
    assert_eq!(extract(&doc), Err(DocumentError::UnexpectedShape));
    assert_eq!(extract_outcomes(&doc), Err(DocumentError::UnexpectedShape));
}

#[test]
fn document_without_entries_gives_two_empty_lists() {
    assert_eq!(
        extract(&document(vec![])),
        Ok(ExtractionResult { records: vec![], errors: vec![] })
    );
}

#[test]
fn every_entry_has_one_outcome_in_the_entries_order() {
    let doc = document(vec![
        foreign_entry("a.b.c"),
        wifi_entry("A"),
        certificate_entry("C1", b"f"),
        DocumentNode::Dictionary(Dictionary::new()),
    ]);
    assert_eq!(
        extract_outcomes(&doc),
        Ok(vec![
            Err(RecordError::NotApplicable),
            Ok(wifi("A")),
            Ok(certificate("C1", "Zg==")),
            Err(RecordError::MissingField("EAPClientConfiguration".to_string())),
        ])
    );
}

#[test]
fn wifi_entries_among_foreign_ones_give_as_many_records_and_errors() {
    let doc = document(vec![
        wifi_entry("first"),
        foreign_entry("com.apple.vpn.managed"),
        wifi_entry("second"),
        foreign_entry("com.apple.mail.managed"),
        foreign_entry("com.example.unknown"),
        wifi_entry("third"),
    ]);
    assert_eq!(
        extract(&doc),
        Ok(ExtractionResult {
            records: vec![wifi("first"), wifi("second"), wifi("third")],
            errors: vec![
                RecordError::NotApplicable,
                RecordError::NotApplicable,
                RecordError::NotApplicable,
            ],
        })
    );
}

#[test]
fn a_failing_entry_does_not_keep_the_others_from_being_read() {
    let broken = DocumentNode::Dictionary(dictionary(vec![
        ("PayloadType", text("com.apple.wifi.managed")),
        ("SSID_STR", text("broken")),
    ]));
    let doc = document(vec![
        broken,
        certificate_entry("C1", b"foobar"),
        untyped_wifi_entry("late"),
    ]);
    assert_eq!(
        extract(&doc),
        Ok(ExtractionResult {
            records: vec![certificate("C1", "Zm9vYmFy"), wifi("late")],
            errors: vec![RecordError::MissingField("EAPClientConfiguration".to_string())],
        })
    );
}

#[test]
fn later_payload_content_shadows_an_earlier_one() {
    let mut root = Dictionary::new();
    root.insert("PayloadContent".to_string(), text("not an array"));
    root.insert("PayloadContent".to_string(), DocumentNode::Array(vec![wifi_entry("A")]));
    assert_eq!(
        extract(&DocumentNode::Dictionary(root)),
        Ok(ExtractionResult { records: vec![wifi("A")], errors: vec![] })
    );
}
