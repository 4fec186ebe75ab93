use tally::challenge::{generate_challenge_hash, ChallengeResult};
use tally::respond::{assemble, generate_response, random_fallback, respond_to_chunk};
use tally::store::ClaimStore;
use tally::util::extract_paths;

/// The lowercase hex SHA-1 digest of `content:identifier`, computed
/// independently of the library.
fn expected_digest(content: &str, identifier: &str) -> String {
    let plaintext = format!("{}:{}", content, identifier);
    let digest = <sha1::Sha1 as sha1::Digest>::digest(plaintext.as_bytes());
    let mut hex = String::new();
    for byte in digest.iter() {
        hex.push_str(&format!("{:02x}", byte));
    }
    hex
}

fn is_fallback(s: &str) -> bool {
    s.len() == 16 && s.chars().all(|c| c.is_ascii_alphanumeric())
}

#[test]
fn extract_paths_splits_on_semicolon() {
    let parts = extract_paths(&String::from("a;b;c"));
    assert_eq!(parts, vec!["a".to_string(), "b".to_string(), "c".to_string()]);
}

#[test]
fn extract_paths_empty_request_gives_one_empty_token() {
    let parts = extract_paths(&String::from(""));
    assert_eq!(parts, vec![String::new()]);
}

#[test]
fn extract_paths_lone_delimiter_gives_two_empty_tokens() {
    let parts = extract_paths(&String::from(";"));
    assert_eq!(parts, vec![String::new(), String::new()]);
}

#[test]
fn hash_is_sha1_of_content_and_identifier() {
    let mut store = ClaimStore::new();
    store.insert(String::from("foo.txt"), String::from("secret"));
    match generate_challenge_hash(&store, &String::from("foo.txt")) {
        ChallengeResult::Digest(d) => {
            assert_eq!(d, expected_digest("secret", "foo.txt"));
            assert_eq!(d.len(), 40);
        }
        ChallengeResult::Missing => panic!("resolvable identifier must hash"),
    }
}

#[test]
fn hash_of_unknown_identifier_is_missing() {
    let store = ClaimStore::new();
    match generate_challenge_hash(&store, &String::from("nope.txt")) {
        ChallengeResult::Missing => {}
        ChallengeResult::Digest(_) => panic!("unknown identifier must be Missing"),
    }
}

#[test]
fn hash_of_empty_content_is_missing() {
    let mut store = ClaimStore::new();
    store.insert(String::from("empty.txt"), String::new());
    match generate_challenge_hash(&store, &String::from("empty.txt")) {
        ChallengeResult::Missing => {}
        ChallengeResult::Digest(_) => panic!("empty content must be Missing"),
    }
}

#[test]
fn assemble_single_missing_identifier_falls_back() {
    let store = ClaimStore::new();
    let response = assemble(&store, &vec![String::from("nope.txt")]);
    assert!(is_fallback(&response));
    assert!(!response.contains(';'));
}

#[test]
fn assemble_empty_list_falls_back() {
    let store = ClaimStore::new();
    let response = assemble(&store, &Vec::new());
    assert!(is_fallback(&response));
}

#[test]
fn assemble_two_resolvable_identifiers_joins_in_order() {
    let mut store = ClaimStore::new();
    store.insert(String::from("one.txt"), String::from("alpha"));
    store.insert(String::from("two.txt"), String::from("beta"));
    let response = assemble(
        &store,
        &vec![String::from("one.txt"), String::from("two.txt")],
    );
    let expected = format!(
        "{};{}",
        expected_digest("alpha", "one.txt"),
        expected_digest("beta", "two.txt")
    );
    assert_eq!(response, expected);
    assert_eq!(response.matches(';').count(), 1);
}

#[test]
fn assemble_is_deterministic_on_success() {
    let mut store = ClaimStore::new();
    store.insert(String::from("one.txt"), String::from("alpha"));
    let paths = vec![String::from("one.txt")];
    let first = assemble(&store, &paths);
    let second = assemble(&store, &paths);
    assert_eq!(first, second);
}

#[test]
fn assemble_fallbacks_share_only_their_shape() {
    let store = ClaimStore::new();
    let paths = vec![String::from("nope.txt")];
    let first = assemble(&store, &paths);
    let second = assemble(&store, &paths);
    assert!(is_fallback(&first));
    assert!(is_fallback(&second));
}

#[test]
fn random_fallback_has_fixed_shape() {
    let s = random_fallback();
    assert!(is_fallback(&s));
}

#[test]
fn response_with_one_missing_resource_is_bare_fallback() {
    let mut store = ClaimStore::new();
    store.insert(String::from("a.txt"), String::from("x"));
    let response = generate_response(String::from("a.txt;b.txt"), &store);
    assert!(is_fallback(&response));
    assert!(!response.contains(expected_digest("x", "a.txt").as_str()));
}

#[test]
fn response_with_all_resources_present_joins_digests() {
    let mut store = ClaimStore::new();
    store.insert(String::from("a.txt"), String::from("x"));
    store.insert(String::from("b.txt"), String::from("y"));
    let response = generate_response(String::from("a.txt;b.txt"), &store);
    let expected = format!(
        "{};{}",
        expected_digest("x", "a.txt"),
        expected_digest("y", "b.txt")
    );
    assert_eq!(response, expected);
}

#[test]
fn response_to_empty_request_is_fallback() {
    let store = ClaimStore::new();
    let response = generate_response(String::new(), &store);
    assert!(is_fallback(&response));
}

#[test]
fn chunk_is_trimmed_before_extraction() {
    let mut store = ClaimStore::new();
    store.insert(String::from("a.txt"), String::from("x"));
    let response = respond_to_chunk(b"  a.txt\r\n", &store);
    assert_eq!(response, expected_digest("x", "a.txt"));
}

#[test]
fn malformed_chunk_still_gets_a_fallback_response() {
    let store = ClaimStore::new();
    let response = respond_to_chunk(&[0x61, 0xff, 0xfe], &store);
    assert!(is_fallback(&response));
}

#[test]
fn duplicate_store_entries_resolve_to_the_earliest() {
    let mut store = ClaimStore::new();
    store.insert(String::from("a.txt"), String::from("first"));
    store.insert(String::from("a.txt"), String::from("second"));
    match generate_challenge_hash(&store, &String::from("a.txt")) {
        ChallengeResult::Digest(d) => assert_eq!(d, expected_digest("first", "a.txt")),
        ChallengeResult::Missing => panic!("readable identifier must hash"),
    }
}
