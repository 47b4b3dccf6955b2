use rust_jobs::cycle::{conclude_cycle, run_cycle, CycleError, CycleOutcome, FetchError};
use rust_jobs::message::create_message;
use rust_jobs::store::{SeenStore, StoreError};

const BASE: &str = "https://site.test";

fn page(hrefs: &[&str]) -> Result<Vec<Option<String>>, FetchError> {
    Ok(hrefs.iter().map(|h| Some(h.to_string())).collect())
}

fn links(paths: &[&str]) -> Vec<String> {
    paths.iter().map(|p| format!("{BASE}{p}")).collect()
}

fn expect_notify(outcome: CycleOutcome, expected: Vec<String>) {
    match outcome {
        CycleOutcome::Notify { batch, message } => {
            assert_eq!(message, create_message(&expected));
            assert_eq!(batch, expected);
        }
        other => panic!("expected a notification, got {other:?}"),
    }
}

#[test]
fn two_cycles_announce_only_new_listings() {
    let mut store = SeenStore::temporary().unwrap();
    expect_notify(run_cycle(&mut store, BASE, page(&["/a", "/b"])), links(&["/a", "/b"]));
    assert_eq!(store.contains("https://site.test/a"), Ok(true));
    assert_eq!(store.contains("https://site.test/b"), Ok(true));
    expect_notify(run_cycle(&mut store, BASE, page(&["/a", "/b", "/c"])), links(&["/c"]));
}

#[test]
fn page_without_listings_sends_nothing() {
    let mut store = SeenStore::temporary().unwrap();
    assert!(matches!(run_cycle(&mut store, BASE, page(&[])), CycleOutcome::Quiet));
    assert!(matches!(run_cycle(&mut store, BASE, Ok(vec![None, None])), CycleOutcome::Quiet));
}

#[test]
fn page_with_only_seen_listings_sends_nothing() {
    let mut store = SeenStore::temporary().unwrap();
    expect_notify(run_cycle(&mut store, BASE, page(&["/a"])), links(&["/a"]));
    assert!(matches!(run_cycle(&mut store, BASE, page(&["/a"])), CycleOutcome::Quiet));
}

#[test]
fn failed_fetch_leaves_store_and_next_cycle_intact() {
    let mut store = SeenStore::temporary().unwrap();
    expect_notify(run_cycle(&mut store, BASE, page(&["/a"])), links(&["/a"]));
    assert!(matches!(
        run_cycle(&mut store, BASE, Err(FetchError::Navigation)),
        CycleOutcome::Failed(CycleError::Fetch(FetchError::Navigation))
    ));
    assert_eq!(store.contains("https://site.test/b"), Ok(false));
    expect_notify(run_cycle(&mut store, BASE, page(&["/a", "/b"])), links(&["/b"]));
}

#[test]
fn failed_session_is_reported() {
    let mut store = SeenStore::temporary().unwrap();
    assert!(matches!(
        run_cycle(&mut store, BASE, Err(FetchError::Session)),
        CycleOutcome::Failed(CycleError::Fetch(FetchError::Session))
    ));
    expect_notify(run_cycle(&mut store, BASE, page(&["/a"])), links(&["/a"]));
}

#[test]
fn store_failure_stops_the_cycle() {
    assert!(matches!(
        conclude_cycle(Err(StoreError::Unavailable)),
        CycleOutcome::Failed(CycleError::Store(StoreError::Unavailable))
    ));
}

#[test]
fn empty_batch_concludes_quietly() {
    assert!(matches!(conclude_cycle(Ok(Vec::new())), CycleOutcome::Quiet));
}

#[test]
fn nonempty_batch_is_announced() {
    expect_notify(conclude_cycle(Ok(links(&["/q"]))), links(&["/q"]));
}
