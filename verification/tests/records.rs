use qkd::catalog::parse_protocol_tag;
use qkd::catalog::Protocol;
use qkd::protocol::PublicDiscussionResult;
use qkd::protocol::QExecutionResult;

#[test]
fn new_keeps_every_component() {
    let record = QExecutionResult::new(true, 2, false, 1, Some(true), Some(0));
    assert_eq!(record.alice_value, true);
    assert_eq!(record.alice_basis, 2);
    assert_eq!(record.bob_value, false);
    assert_eq!(record.bob_basis, 1);
    assert_eq!(record.eve_value, Some(true));
    assert_eq!(record.eve_basis, Some(0));
}

#[test]
fn new_without_eavesdropper() {
    let record = QExecutionResult::new(false, 0, true, 5, None, None);
    assert_eq!(
        record,
        QExecutionResult {
            alice_value: false,
            alice_basis: 0,
            bob_value: true,
            bob_basis: 5,
            eve_value: None,
            eve_basis: None,
        }
    );
}

#[test]
fn well_formed_outcome_is_recognised() {
    let outcome = PublicDiscussionResult {
        alice_public_values: vec![true, false],
        bob_public_values: vec![true, true],
        indexes_to_key: vec![0, 2],
        results: vec![QExecutionResult::new(true, 0, true, 0, None, None); 3],
    };
    assert!(outcome.is_key_in_range());
    assert!(outcome.is_well_formed());
}

#[test]
fn key_index_past_the_records_is_not_in_range() {
    let outcome = PublicDiscussionResult {
        alice_public_values: vec![],
        bob_public_values: vec![],
        indexes_to_key: vec![0, 3],
        results: vec![QExecutionResult::new(true, 0, true, 0, None, None); 3],
    };
    assert!(!outcome.is_key_in_range());
    assert!(!outcome.is_well_formed());
}

#[test]
fn unpaired_public_values_are_not_well_formed() {
    let outcome = PublicDiscussionResult {
        alice_public_values: vec![true],
        bob_public_values: vec![],
        indexes_to_key: vec![],
        results: vec![],
    };
    assert!(outcome.is_key_in_range());
    assert!(!outcome.is_well_formed());
}

#[test]
fn every_tag_names_its_protocol() {
    assert_eq!(parse_protocol_tag("BB84"), Ok(Protocol::BB84));
    assert_eq!(parse_protocol_tag("SixState"), Ok(Protocol::SixState));
    assert_eq!(parse_protocol_tag("B92"), Ok(Protocol::B92));
}

#[test]
fn tag_round_trip() {
    for protocol in [Protocol::BB84, Protocol::SixState, Protocol::B92] {
        assert_eq!(parse_protocol_tag(protocol.tag()), Ok(protocol));
    }
}

#[test]
fn unknown_tag_is_handed_back() {
    assert_eq!(parse_protocol_tag("bb84"), Err("bb84".to_string()));
    assert_eq!(parse_protocol_tag(""), Err(String::new()));
    assert_eq!(parse_protocol_tag("B92 "), Err("B92 ".to_string()));
}
