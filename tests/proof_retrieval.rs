use proof_generation::stark_proof::{generate_proof_of_secret, get_proof, respond};
use proof_generation::store::{ProofError, ProofStore};

const STORE: &str = "{\"abc\": {\"v\":1}}";

#[test]
fn present_identifier_returns_document() {
    assert_eq!(get_proof("abc", Some(STORE)), Ok("{\"v\":1}".to_string()));
}

#[test]
fn absent_identifier_is_not_found() {
    assert_eq!(get_proof("xyz", Some(STORE)), Err(ProofError::NotFound));
}

#[test]
fn missing_resource_is_unavailable_for_every_identifier() {
    assert_eq!(get_proof("abc", None), Err(ProofError::StoreUnavailable));
    assert_eq!(get_proof("xyz", None), Err(ProofError::StoreUnavailable));
    assert_eq!(get_proof("", None), Err(ProofError::StoreUnavailable));
}

#[test]
fn malformed_resource_is_corrupt_for_every_identifier() {
    assert_eq!(get_proof("abc", Some("{\"abc\": ")), Err(ProofError::StoreCorrupt));
    assert_eq!(get_proof("xyz", Some("not json")), Err(ProofError::StoreCorrupt));
    assert_eq!(get_proof("abc", Some("")), Err(ProofError::StoreCorrupt));
}

#[test]
fn repeated_requests_agree() {
    let first = get_proof("abc", Some(STORE));
    let second = get_proof("abc", Some(STORE));
    assert_eq!(first, second);
    assert_eq!(first, Ok("{\"v\":1}".to_string()));
}

#[test]
fn present_and_absent_requests_do_not_interfere() {
    let store = "{\"abc\": {\"v\":1}, \"def\": [1, 2]}";
    let a = get_proof("abc", Some(store));
    let b = get_proof("xyz", Some(store));
    let c = get_proof("def", Some(store));
    assert_eq!(a, Ok("{\"v\":1}".to_string()));
    assert_eq!(b, Err(ProofError::NotFound));
    assert_eq!(c, Ok("[1,2]".to_string()));
}

#[test]
fn document_is_written_back_compactly() {
    let store = "{ \"abc\" : { \"v\" : 1 ,\n \"w\": \"x y\" } }";
    assert_eq!(get_proof("abc", Some(store)), Ok("{\"v\":1,\"w\":\"x y\"}".to_string()));
}

#[test]
fn lookup_is_exact_string_match() {
    let store = "{\"Abc\": 1, \"\": true, \"a\\\"b\": null}";
    assert_eq!(get_proof("abc", Some(store)), Err(ProofError::NotFound));
    assert_eq!(get_proof(" Abc", Some(store)), Err(ProofError::NotFound));
    assert_eq!(get_proof("Abc", Some(store)), Ok("1".to_string()));
    assert_eq!(get_proof("", Some(store)), Ok("true".to_string()));
    assert_eq!(get_proof("a\"b", Some(store)), Ok("null".to_string()));
}

#[test]
fn repeated_key_keeps_last_value() {
    let store = "{\"k\": 1, \"k\": 2}";
    assert_eq!(get_proof("k", Some(store)), Ok("2".to_string()));
}

#[test]
fn json_that_is_not_an_object_holds_nothing() {
    assert_eq!(get_proof("abc", Some("[\"abc\"]")), Err(ProofError::NotFound));
    assert_eq!(get_proof("0", Some("42")), Err(ProofError::NotFound));
    assert_eq!(get_proof("abc", Some("{}")), Err(ProofError::NotFound));
}

#[test]
fn generate_reports_failure_messages() {
    assert_eq!(generate_proof_of_secret("abc", Some(STORE)), Ok("{\"v\":1}".to_string()));
    assert_eq!(
        generate_proof_of_secret("xyz", Some(STORE)),
        Err("Proof not found for the given secret".to_string())
    );
    assert_eq!(
        generate_proof_of_secret("abc", None),
        Err("Failed to read the proof file".to_string())
    );
    assert_eq!(
        generate_proof_of_secret("abc", Some("{")),
        Err("Failed to parse the proof file as valid JSON".to_string())
    );
}

#[test]
fn error_messages() {
    assert_eq!(ProofError::NotFound.message(), "Proof not found for the given secret");
    assert_eq!(ProofError::StoreUnavailable.message(), "Failed to read the proof file");
    assert_eq!(
        ProofError::StoreCorrupt.message(),
        "Failed to parse the proof file as valid JSON"
    );
}

#[test]
fn success_response_encodes_document_as_json_string() {
    let response = respond(&Ok("{\"v\":1}".to_string()));
    assert_eq!(response.status, 200);
    assert_eq!(response.body, "\"{\\\"v\\\":1}\"");
}

#[test]
fn failure_response_carries_message() {
    let response = respond(&Err("Failed to read the proof file".to_string()));
    assert_eq!(response.status, 500);
    assert_eq!(response.body, "Error generating proof: Failed to read the proof file");
}

#[test]
fn scenario_response_for_each_identifier() {
    let found = respond(&generate_proof_of_secret("abc", Some(STORE)));
    assert_eq!(found.status, 200);
    assert_eq!(found.body, "\"{\\\"v\\\":1}\"");
    let missing = respond(&generate_proof_of_secret("xyz", Some(STORE)));
    assert_eq!(missing.status, 500);
    assert_eq!(missing.body, "Error generating proof: Proof not found for the given secret");
}

#[test]
fn store_insert_replaces_and_adds() {
    let mut store = ProofStore::new();
    assert!(!store.contains("a"));
    assert_eq!(store.lookup("a"), Err(ProofError::NotFound));
    store.insert("a".to_string(), "1".to_string());
    store.insert("b".to_string(), "2".to_string());
    store.insert("a".to_string(), "3".to_string());
    assert!(store.contains("a"));
    assert!(store.contains("b"));
    assert!(!store.contains("c"));
    assert_eq!(store.lookup("a"), Ok("3".to_string()));
    assert_eq!(store.lookup("b"), Ok("2".to_string()));
}

#[test]
fn store_from_pairs_later_pair_wins() {
    let store = ProofStore::from_pairs(vec![
        ("x".to_string(), "1".to_string()),
        ("y".to_string(), "2".to_string()),
        ("x".to_string(), "3".to_string()),
    ]);
    assert_eq!(store.lookup("x"), Ok("3".to_string()));
    assert_eq!(store.lookup("y"), Ok("2".to_string()));
    assert_eq!(store.lookup("z"), Err(ProofError::NotFound));
}

#[test]
fn store_load_classifies_resources() {
    assert!(matches!(ProofStore::load(None), Err(ProofError::StoreUnavailable)));
    assert!(matches!(ProofStore::load(Some("{")), Err(ProofError::StoreCorrupt)));
    let store = ProofStore::from_json(STORE).ok().unwrap();
    assert_eq!(store.lookup("abc"), Ok("{\"v\":1}".to_string()));
    let loaded = ProofStore::load(Some(STORE)).ok().unwrap();
    assert!(loaded.contains("abc"));
    assert!(!loaded.contains("xyz"));
}
