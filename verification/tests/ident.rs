use link_store::config::ID_LENGTH;
use link_store::entry::{Entry, Flags};
use link_store::error::Error;
use link_store::ident::{decide, generate, Outcome};
use link_store::store::Store;

fn url_safe(c: char) -> bool {
    c.is_ascii_alphanumeric() || c == '_' || c == '-'
}

fn store_holding(id: &str, expires_at: u128) -> Store {
    let mut store = Store::new();
    store.insert(
        id.to_string(),
        Entry { payload: "p".to_string(), expires_at, flags: Flags::default() },
    );
    store
}

#[test]
fn identifiers_have_five_characters() {
    assert_eq!(ID_LENGTH, 5);
}

#[test]
fn generated_identifier_has_the_length_and_the_alphabet() {
    let store = Store::new();
    for _ in 0..200 {
        let id = generate(&store).unwrap();
        assert_eq!(id.chars().count(), ID_LENGTH);
        assert_eq!(id.len(), ID_LENGTH);
        assert!(id.chars().all(url_safe));
    }
}

#[test]
fn generated_identifiers_vary() {
    let store = Store::new();
    let first = generate(&store).unwrap();
    let mut differs = false;
    for _ in 0..50 {
        if generate(&store).unwrap() != first {
            differs = true;
        }
    }
    assert!(differs);
}

#[test]
fn generated_identifiers_use_more_than_one_character() {
    let store = Store::new();
    let mut seen = std::collections::BTreeSet::new();
    for _ in 0..200 {
        seen.extend(generate(&store).unwrap().chars());
    }
    assert!(seen.len() > 32);
}

#[test]
fn generated_identifier_is_not_held_by_the_store() {
    let mut store = Store::new();
    for _ in 0..500 {
        let id = generate(&store).unwrap();
        assert!(!store.contains(&id));
        store.insert(id, Entry { payload: String::new(), expires_at: 1, flags: Flags::default() });
    }
    assert_eq!(store.len(), 500);
}

#[test]
fn decide_accepts_a_candidate_that_is_not_held() {
    let store = store_holding("taken", 1);
    assert_eq!(decide(&store, Some("fresh".to_string())), Outcome::Accepted("fresh".to_string()));
    assert_eq!(decide(&store, Some("Taken".to_string())), Outcome::Accepted("Taken".to_string()));
    assert_eq!(decide(&store, Some("take".to_string())), Outcome::Accepted("take".to_string()));
    assert_eq!(
        decide(&Store::new(), Some("taken".to_string())),
        Outcome::Accepted("taken".to_string())
    );
}

#[test]
fn decide_draws_again_for_a_held_candidate_every_time() {
    let store = store_holding("taken", 1);
    for _ in 0..1_000 {
        assert_eq!(decide(&store, Some("taken".to_string())), Outcome::Retry);
    }
}

#[test]
fn decide_fails_only_when_the_source_gave_nothing() {
    let store = store_holding("taken", 1);
    assert_eq!(decide(&store, None), Outcome::Failed(Error::EntropyUnavailable));
    assert_eq!(decide(&Store::new(), None), Outcome::Failed(Error::EntropyUnavailable));
}

#[test]
fn decide_counts_an_expired_entry_as_held_until_it_is_swept() {
    let mut store = store_holding("taken", 1);
    assert_eq!(store.get("taken", 2), None);
    assert_eq!(decide(&store, Some("taken".to_string())), Outcome::Retry);
    store.sweep(2);
    assert_eq!(
        decide(&store, Some("taken".to_string())),
        Outcome::Accepted("taken".to_string())
    );
}

#[test]
fn generate_finds_the_free_identifiers_of_a_crowded_store() {
    let mut store = Store::new();
    for _ in 0..3_000 {
        let id = generate(&store).unwrap();
        assert_eq!(decide(&store, Some(id.clone())), Outcome::Accepted(id.clone()));
        store.insert(id.clone(), Entry { payload: String::new(), expires_at: 1, flags: Flags::default() });
        assert_eq!(decide(&store, Some(id)), Outcome::Retry);
    }
    assert_eq!(store.len(), 3_000);
}
