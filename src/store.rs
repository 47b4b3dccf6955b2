use vstd::prelude::*;
use crate::message::string_views;

verus! {

#[verifier::external_type_specification]
#[verifier::external_body]
pub struct ExDb(sled::Db);

#[verifier::external_type_specification]
#[verifier::external_body]
pub struct ExSledError(sled::Error);

/// The links whose UTF-8 bytes are keys of the database.
pub uninterp spec fn stored_links(db: sled::Db) -> Set<Seq<char>>;

/// Relies on sled::open: opens (or creates) the database at `path`; what it
/// holds is whatever earlier runs stored there.
#[verifier::external_body]
fn open_db(path: &str) -> (r: Result<sled::Db, sled::Error>) {
    sled::open(path)
}

/// Relies on sled::Config::open with `temporary(true)`: a database at a fresh
/// path of its own, removed on drop, so it starts empty.
#[verifier::external_body]
fn open_temporary_db() -> (r: Result<sled::Db, sled::Error>)
    ensures
        r matches Ok(db) ==> stored_links(db) == Set::<Seq<char>>::empty(),
{
    sled::Config::new().temporary(true).open()
}

/// Relies on sled::Tree::get: `Some` exactly when the key is present.
#[verifier::external_body]
fn db_contains(db: &sled::Db, link: &str) -> (r: Result<bool, sled::Error>)
    ensures
        r matches Ok(b) ==> b == stored_links(*db).contains(link@),
{
    db.get(link).map(|v| v.is_some())
}

/// Relies on sled::Tree::insert: on success the key is present afterwards and
/// nothing else changed; on failure the key may or may not have been written.
#[verifier::external_body]
fn db_insert(db: &mut sled::Db, link: &str) -> (r: Result<(), sled::Error>)
    ensures
        r is Ok ==> stored_links(*final(db)) == stored_links(*old(db)).insert(link@),
        r is Err ==> stored_links(*final(db)) == stored_links(*old(db)) || stored_links(*final(db))
            == stored_links(*old(db)).insert(link@),
{
    db.insert(link, link.as_bytes()).map(|_| ())
}

/// The storage could not be opened, read or written.
#[derive(Debug, Clone, Copy, PartialEq, Eq, Structural)]
pub enum StoreError {
    Unavailable,
}

/// The candidates that are new, in input order: those not in `seen` and not
/// equal to an earlier candidate.
pub open spec fn new_links(candidates: Seq<Seq<char>>, seen: Set<Seq<char>>) -> Seq<Seq<char>>
    decreases candidates.len(),
{
    if candidates.len() == 0 {
        Seq::empty()
    } else {
        let earlier = candidates.drop_last();
        let rest = new_links(earlier, seen);
        if seen.union(earlier.to_set()).contains(candidates.last()) {
            rest
        } else {
            rest.push(candidates.last())
        }
    }
}

/// Candidates that are all seen already yield nothing new.
pub proof fn lemma_all_seen_yields_nothing(candidates: Seq<Seq<char>>, seen: Set<Seq<char>>)
    requires
        candidates.to_set().subset_of(seen),
    ensures
        new_links(candidates, seen) == Seq::<Seq<char>>::empty(),
    decreases candidates.len(),
{
    if candidates.len() > 0 {
        let earlier = candidates.drop_last();
        assert(earlier.to_set().subset_of(seen)) by {
            assert forall|x| earlier.to_set().contains(x) implies seen.contains(x) by {
                let j = choose|j: int| 0 <= j < earlier.len() && earlier[j] == x;
                assert(candidates[j] == x);
            }
        }
        lemma_all_seen_yields_nothing(earlier, seen);
        assert(candidates.to_set().contains(candidates.last()));
    }
}

/// Distinct candidates none of which was seen are all new, in their order.
pub proof fn lemma_fresh_candidates_all_new(candidates: Seq<Seq<char>>, seen: Set<Seq<char>>)
    requires
        candidates.no_duplicates(),
        forall|i: int| 0 <= i < candidates.len() ==> !seen.contains(#[trigger] candidates[i]),
    ensures
        new_links(candidates, seen) == candidates,
    decreases candidates.len(),
{
    if candidates.len() > 0 {
        let earlier = candidates.drop_last();
        lemma_fresh_candidates_all_new(earlier, seen);
        let n = candidates.len() - 1;
        assert(!earlier.to_set().contains(candidates.last())) by {
            if earlier.to_set().contains(candidates.last()) {
                let j = choose|j: int| 0 <= j < earlier.len() && earlier[j] == candidates.last();
                assert(candidates[j] == candidates[n]);
            }
        }
        assert(earlier.push(candidates.last()) =~= candidates);
    }
}

/// Filtering the same distinct, unseen candidates twice, the second time
/// against the store the first run left, yields all of them the first time
/// and nothing the second time.
pub proof fn lemma_filter_twice(candidates: Seq<Seq<char>>, seen: Set<Seq<char>>)
    requires
        candidates.no_duplicates(),
        forall|i: int| 0 <= i < candidates.len() ==> !seen.contains(#[trigger] candidates[i]),
    ensures
        new_links(candidates, seen) == candidates,
        new_links(candidates, seen.union(candidates.to_set())) == Seq::<Seq<char>>::empty(),
{
    lemma_fresh_candidates_all_new(candidates, seen);
    lemma_all_seen_yields_nothing(candidates, seen.union(candidates.to_set()));
}

/// Filtering any candidates a second time, against the store the first run
/// left, yields nothing.
pub proof fn lemma_second_filter_is_empty(candidates: Seq<Seq<char>>, seen: Set<Seq<char>>)
    ensures
        new_links(candidates, seen.union(candidates.to_set())) == Seq::<Seq<char>>::empty(),
{
    lemma_all_seen_yields_nothing(candidates, seen.union(candidates.to_set()));
}

/// A seen candidate between two new ones is dropped, and the other two keep
/// their relative order.
pub proof fn lemma_filter_keeps_order(
    a: Seq<char>,
    b: Seq<char>,
    c: Seq<char>,
    seen: Set<Seq<char>>,
)
    requires
        !seen.contains(a),
        seen.contains(b),
        !seen.contains(c),
        a != c,
    ensures
        new_links(seq![a, b, c], seen) == seq![a, c],
{
    let s = seq![a, b, c];
    assert(s.drop_last() =~= seq![a, b]);
    assert(seq![a, b].drop_last() =~= seq![a]);
    assert(seq![a].drop_last() =~= Seq::<Seq<char>>::empty());
    assert(!seen.union(seq![a, b].to_set()).contains(c)) by {
        if seq![a, b].to_set().contains(c) {
            let j = choose|j: int| 0 <= j < 2 && seq![a, b][j] == c;
            assert(j == 1);
        }
    }
    assert(!seen.union(Seq::<Seq<char>>::empty().to_set()).contains(a));
    assert(new_links(Seq::<Seq<char>>::empty(), seen) == Seq::<Seq<char>>::empty());
    assert(seq![a].last() == a);
    assert(Seq::<Seq<char>>::empty().push(a) =~= seq![a]);
    assert(new_links(seq![a], seen) =~= seq![a]);
    assert(seq![a].to_set().contains(a)) by {
        assert(seq![a][0] == a);
    }
    assert(seq![a].push(c) =~= seq![a, c]);
    assert(new_links(seq![a, b], seen) =~= seq![a]);
}

/// The durable set of every listing link ever announced.
pub struct SeenStore {
    db: sled::Db,
}

impl View for SeenStore {
    type V = Set<Seq<char>>;

    closed spec fn view(&self) -> Set<Seq<char>> {
        stored_links(self.db)
    }
}

impl SeenStore {
    /// Opens the store kept at `path`, with everything committed there before.
    pub fn open(path: &str) -> (r: Result<SeenStore, StoreError>) {
        match open_db(path) {
            Ok(db) => Ok(SeenStore { db }),
            Err(_) => Err(StoreError::Unavailable),
        }
    }

    /// Opens an empty store that lives until it is dropped.
    pub fn temporary() -> (r: Result<SeenStore, StoreError>)
        ensures
            r matches Ok(s) ==> s@ == Set::<Seq<char>>::empty(),
    {
        match open_temporary_db() {
            Ok(db) => Ok(SeenStore { db }),
            Err(_) => Err(StoreError::Unavailable),
        }
    }

    /// Whether `link` was committed before.
    pub fn contains(&self, link: &str) -> (r: Result<bool, StoreError>)
        ensures
            r matches Ok(b) ==> b == self@.contains(link@),
    {
        match db_contains(&self.db, link) {
            Ok(b) => Ok(b),
            Err(_) => Err(StoreError::Unavailable),
        }
    }

    /// Commits the candidates that were not seen before and returns them, in
    /// input order. On a storage failure it stops: the candidates handled
    /// before it stay committed, none after it is.
    pub fn filter_new(&mut self, links: &Vec<String>) -> (r: Result<Vec<String>, StoreError>)
        ensures
            r matches Ok(added) ==> string_views(added@) == new_links(
                string_views(links@),
                old(self)@,
            ),
            r is Ok ==> final(self)@ == old(self)@.union(string_views(links@).to_set()),
            links@.len() == 0 ==> (r matches Ok(added) && added@.len() == 0),
            r is Err ==> exists|k: int|
                0 <= k <= links@.len() && final(self)@ == old(self)@.union(
                    #[trigger] string_views(links@).take(k).to_set(),
                ),
    {
        let ghost seen = self@;
        let ghost views = string_views(links@);
        let mut added: Vec<String> = Vec::new();
        for i in 0..links.len()
            invariant
                views == string_views(links@),
                seen == old(self)@,
                self@ == seen.union(views.take(i as int).to_set()),
                string_views(added@) == new_links(views.take(i as int), seen),
        {
            let ghost before = views.take(i as int);
            proof {
                assert(views.take(i + 1) =~= before.push(views[i as int]));
                before.lemma_push_to_set_commute(views[i as int]);
                assert(views.take(i + 1).drop_last() =~= before);
                assert(views.take(i + 1).to_set() =~= before.to_set().insert(views[i as int]));
                assert(seen.union(views.take(i + 1).to_set()) =~= self@.insert(views[i as int]));
            }
            let link = links[i].as_str();
            match db_contains(&self.db, link) {
                Err(_) => {
                    return Err(StoreError::Unavailable);
                },
                Ok(true) => {
                    proof {
                        assert(self@.insert(views[i as int]) =~= self@);
                    }
                },
                Ok(false) => {
                    match db_insert(&mut self.db, link) {
                        Err(_) => {
                            proof {
                                if self@ != seen.union(before.to_set()) {
                                    assert(self@ == seen.union(views.take(i + 1).to_set()));
                                }
                            }
                            return Err(StoreError::Unavailable);
                        },
                        Ok(()) => {},
                    }
                    added.push(links[i].clone());
                    proof {
                        assert(string_views(added@) =~= new_links(before, seen).push(
                            views[i as int],
                        ));
                    }
                },
            }
        }
        proof {
            assert(views.take(links.len() as int) =~= views);
        }
        Ok(added)
    }
}

} // verus!
