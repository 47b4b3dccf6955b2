use vstd::prelude::*;
use crate::extract::{extract_links, extracted, href_views};
use crate::message::{create_message, message_text, string_views};
use crate::store::{new_links, SeenStore, StoreError};

verus! {

/// The page could not be obtained.
#[derive(Debug, Clone, Copy, PartialEq, Eq, Structural)]
pub enum FetchError {
    /// The rendering session could not be started.
    Session,
    /// Navigation, rendering or reading the page failed.
    Navigation,
}

/// Why a cycle stopped before its end.
#[derive(Debug, Clone, Copy, PartialEq, Eq, Structural)]
pub enum CycleError {
    Fetch(FetchError),
    Store(StoreError),
}

/// What one poll cycle leaves to do.
#[derive(Debug)]
pub enum CycleOutcome {
    /// Nothing new was found: no notification is sent.
    Quiet,
    /// The links in `batch` were new and are now committed; `message`
    /// announces them.
    Notify { batch: Vec<String>, message: String },
    /// The cycle stopped; the next one runs after the usual interval.
    Failed(CycleError),
}

/// The listing links of a fetched page; none when the fetch failed.
pub open spec fn candidates_of(
    base: Seq<char>,
    fetched: Result<Vec<Option<String>>, FetchError>,
) -> Seq<Seq<char>> {
    match fetched {
        Ok(hrefs) => extracted(base, href_views(hrefs@)),
        Err(_) => Seq::empty(),
    }
}

/// Runs the decisions of one cycle on what the page source returned: the link
/// targets of the featured listings on site `base`, or the fetch failure.
/// New links are committed before they are announced, so a failed delivery
/// loses the notice and never repeats it.
pub fn run_cycle(
    store: &mut SeenStore,
    base: &str,
    fetched: Result<Vec<Option<String>>, FetchError>,
) -> (r: CycleOutcome)
    ensures
        fetched matches Err(e) ==> (r == CycleOutcome::Failed(CycleError::Fetch(e))
            && final(store)@ == old(store)@),
        fetched is Ok && !(r is Failed) ==> final(store)@ == old(store)@.union(
            candidates_of(base@, fetched).to_set(),
        ),
        fetched is Ok && !(r is Failed) ==> (r is Quiet <==> new_links(
            candidates_of(base@, fetched),
            old(store)@,
        ).len() == 0),
        r matches CycleOutcome::Notify { batch, message } ==> (string_views(batch@) == new_links(
            candidates_of(base@, fetched),
            old(store)@,
        ) && message@ == message_text(string_views(batch@))),
        fetched is Ok && candidates_of(base@, fetched).len() == 0 ==> (r is Quiet && final(store)@
            == old(store)@),
        fetched is Ok && r is Failed ==> (r == CycleOutcome::Failed(
            CycleError::Store(StoreError::Unavailable),
        ) && exists|k: int|
            0 <= k <= candidates_of(base@, fetched).len() && final(store)@ == old(store)@.union(
                #[trigger] candidates_of(base@, fetched).take(k).to_set(),
            )),
{
    let hrefs = match fetched {
        Ok(hrefs) => hrefs,
        Err(e) => {
            return CycleOutcome::Failed(CycleError::Fetch(e));
        },
    };
    let links = extract_links(base, &hrefs);
    let filtered = store.filter_new(&links);
    proof {
        if filtered is Ok {
            if string_views(links@).len() == 0 {
                assert(string_views(links@).to_set() =~= Set::<Seq<char>>::empty());
                assert(store@ =~= old(store)@);
            }
        }
    }
    conclude_cycle(filtered)
}

/// Turns the store's answer for a page into the cycle's outcome: a storage
/// failure stops the cycle, an empty batch sends nothing, and any other batch
/// is announced.
pub fn conclude_cycle(filtered: Result<Vec<String>, StoreError>) -> (r: CycleOutcome)
    ensures
        filtered matches Err(e) ==> r == CycleOutcome::Failed(CycleError::Store(e)),
        filtered matches Ok(b) ==> (b@.len() == 0 <==> r is Quiet),
        filtered matches Ok(b) && b@.len() > 0 ==> r is Notify,
        r matches CycleOutcome::Notify { batch, message } ==> (filtered is Ok && batch@
            == filtered->Ok_0@ && message@ == message_text(string_views(batch@))),
{
    match filtered {
        Err(e) => CycleOutcome::Failed(CycleError::Store(e)),
        Ok(batch) => {
            if batch.len() == 0 {
                CycleOutcome::Quiet
            } else {
                let message = create_message(&batch);
                CycleOutcome::Notify { batch, message }
            }
        },
    }
}

} // verus!
