use bob::candidate::WatchCandidate;
use bob::store::{is_newer, StateStore};

fn s(x: &str) -> String {
    x.to_string()
}

fn cand(owner: &str, name: &str, commit: &str) -> WatchCandidate {
    WatchCandidate::new(s(owner), s(name), s(commit), format!("{}/{}:{}", owner, name, commit))
}

#[test]
fn unrecorded_candidate_is_newer() {
    let store = StateStore::new();
    assert!(store.is_newer_than_stored(&cand("a", "b", "c1")));
    assert!(store.stored(&s("a"), &s("b")).is_none());
}

#[test]
fn recorded_candidate_is_not_newer() {
    let mut store = StateStore::new();
    let c = cand("a", "b", "c1");
    store.record_success(&c.owner, &c.name, &c.latest_commit_id);
    assert!(!store.is_newer_than_stored(&c));
    assert!(store.is_newer_than_stored(&cand("a", "b", "c2")));
    assert!(store.is_newer_than_stored(&cand("a", "x", "c1")));
    assert!(store.is_newer_than_stored(&cand("x", "b", "c1")));
}

#[test]
fn record_twice_is_record_once() {
    let mut once = StateStore::new();
    once.record_success(&s("a"), &s("b"), &s("c1"));
    let mut twice = StateStore::new();
    twice.record_success(&s("a"), &s("b"), &s("c1"));
    twice.record_success(&s("a"), &s("b"), &s("c1"));
    assert_eq!(once.records().len(), 1);
    assert_eq!(twice.records().len(), 1);
    assert_eq!(twice.stored(&s("a"), &s("b")).cloned(), Some(s("c1")));
}

#[test]
fn record_overwrites_older_commit() {
    let mut store = StateStore::new();
    store.record_success(&s("a"), &s("b"), &s("c1"));
    store.record_success(&s("a"), &s("d"), &s("x"));
    store.record_success(&s("a"), &s("b"), &s("c2"));
    assert_eq!(store.records().len(), 2);
    assert_eq!(store.stored(&s("a"), &s("b")).cloned(), Some(s("c2")));
    assert_eq!(store.stored(&s("a"), &s("d")).cloned(), Some(s("x")));
}

#[test]
fn newer_predicate_on_its_own() {
    let c = cand("a", "b", "c1");
    assert!(is_newer(None, &c));
    assert!(!is_newer(Some(&s("c1")), &c));
    assert!(is_newer(Some(&s("c0")), &c));
    assert!(is_newer(Some(&s("")), &c));
}
