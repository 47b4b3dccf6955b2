use rust_jobs::store::{SeenStore, StoreError};

fn strings(items: &[&str]) -> Vec<String> {
    items.iter().map(|s| s.to_string()).collect()
}

#[test]
fn filter_twice_returns_all_then_nothing() {
    let mut store = SeenStore::temporary().unwrap();
    let candidates = strings(&["https://s/1", "https://s/2", "https://s/3"]);
    assert_eq!(store.filter_new(&candidates), Ok(candidates.clone()));
    assert_eq!(store.filter_new(&candidates), Ok(Vec::new()));
}

#[test]
fn filter_drops_seen_and_keeps_order() {
    let mut store = SeenStore::temporary().unwrap();
    assert_eq!(store.filter_new(&strings(&["b"])), Ok(strings(&["b"])));
    assert_eq!(store.filter_new(&strings(&["a", "b", "c"])), Ok(strings(&["a", "c"])));
}

#[test]
fn filter_reports_a_repeated_candidate_once() {
    let mut store = SeenStore::temporary().unwrap();
    assert_eq!(store.filter_new(&strings(&["a", "b", "a"])), Ok(strings(&["a", "b"])));
}

#[test]
fn filter_of_no_candidates_is_empty() {
    let mut store = SeenStore::temporary().unwrap();
    assert_eq!(store.filter_new(&Vec::new()), Ok(Vec::new()));
}

#[test]
fn contains_answers_after_commit() {
    let mut store = SeenStore::temporary().unwrap();
    assert_eq!(store.contains("https://s/x"), Ok(false));
    store.filter_new(&strings(&["https://s/x"])).unwrap();
    assert_eq!(store.contains("https://s/x"), Ok(true));
    assert_eq!(store.contains("https://s/y"), Ok(false));
}

#[test]
fn reopened_store_remembers_earlier_links() {
    let stamp = std::time::SystemTime::now()
        .duration_since(std::time::UNIX_EPOCH)
        .unwrap()
        .as_nanos();
    let link = format!("https://site.test/listing-{stamp}");
    let path = "/tmp/rust_jobs_seen_store_reopen";
    {
        let mut store = SeenStore::open(path).unwrap();
        assert_eq!(store.filter_new(&vec![link.clone()]), Ok(vec![link.clone()]));
    }
    let store = SeenStore::open(path).unwrap();
    assert_eq!(store.contains(&link), Ok(true));
}

#[test]
fn store_error_is_comparable() {
    assert_eq!(StoreError::Unavailable, StoreError::Unavailable);
}

#[test]
fn open_on_unusable_path_fails() {
    assert!(matches!(SeenStore::open("/dev/null/seen"), Err(StoreError::Unavailable)));
}
