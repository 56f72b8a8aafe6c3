//! The follower snapshot: who followed the owner at one moment.
//!
//! A snapshot associates each account id with one canonical handle. It is
//! kept as a list of entries in which no id occurs twice, in the order in
//! which the ids first arrived. Its view is the finite map from id to handle.

use vstd::prelude::*;

verus! {

/// One association of an id (first) with a handle (second).
pub type Pair = (Seq<char>, Seq<char>);

/// Whether no id occurs twice in `pairs`.
pub open spec fn distinct_ids(pairs: Seq<Pair>) -> bool {
    forall|i: int, j: int| 0 <= i < j < pairs.len() ==> pairs[i].0 != pairs[j].0
}

/// Whether some entry of `pairs` has the id `id`.
pub open spec fn has_id(pairs: Seq<Pair>, id: Seq<char>) -> bool {
    exists|i: int| 0 <= i < pairs.len() && #[trigger] pairs[i].0 == id
}

/// The position of the first entry of `pairs` with the id `id`.
pub open spec fn position(pairs: Seq<Pair>, id: Seq<char>) -> Option<int>
    decreases pairs.len(),
{
    if pairs.len() == 0 {
        None
    } else {
        match position(pairs.drop_last(), id) {
            Some(i) => Some(i),
            None => if pairs.last().0 == id {
                Some(pairs.len() - 1)
            } else {
                None
            },
        }
    }
}

/// The map that results from inserting the entries of `pairs` one after the
/// other: where an id occurs more than once, its last entry decides.
pub open spec fn folded(pairs: Seq<Pair>) -> Map<Seq<char>, Seq<char>>
    decreases pairs.len(),
{
    if pairs.len() == 0 {
        Map::empty()
    } else {
        folded(pairs.drop_last()).insert(pairs.last().0, pairs.last().1)
    }
}

/// `pairs` after `id` was associated with `handle`: the entry of `id` is
/// replaced where it stands, or a new entry is added at the end.
pub open spec fn put(pairs: Seq<Pair>, id: Seq<char>, handle: Seq<char>) -> Seq<Pair> {
    match position(pairs, id) {
        Some(i) => pairs.update(i, (id, handle)),
        None => pairs.push((id, handle)),
    }
}

/// `position` finds the first entry with the id, and finds none only where
/// there is none.
pub proof fn lemma_position(pairs: Seq<Pair>, id: Seq<char>)
    ensures
        match position(pairs, id) {
            Some(i) => 0 <= i < pairs.len() && pairs[i].0 == id && forall|j: int|
                0 <= j < i ==> pairs[j].0 != id,
            None => !has_id(pairs, id),
        },
    decreases pairs.len(),
{
    if pairs.len() > 0 {
        let front = pairs.drop_last();
        lemma_position(front, id);
        assert forall|j: int| 0 <= j < front.len() implies front[j] == pairs[j] by {}
    }
}

/// The ids of the folded map are the ids of the entries.
pub proof fn lemma_folded_ids(pairs: Seq<Pair>)
    ensures
        folded(pairs).dom().finite(),
        forall|id: Seq<char>| folded(pairs).contains_key(id) <==> has_id(pairs, id),
    decreases pairs.len(),
{
    if pairs.len() > 0 {
        let front = pairs.drop_last();
        lemma_folded_ids(front);
        assert forall|id: Seq<char>| folded(pairs).contains_key(id) <==> has_id(pairs, id) by {
            if has_id(pairs, id) {
                let i = choose|i: int| 0 <= i < pairs.len() && #[trigger] pairs[i].0 == id;
                if i < pairs.len() - 1 {
                    assert(front[i].0 == id);
                    assert(has_id(front, id));
                }
            }
            if folded(pairs).contains_key(id) && id != pairs.last().0 {
                assert(has_id(front, id));
            }
        }
    }
}

/// The folded map gives each id the handle of its last entry.
pub proof fn lemma_folded_last_wins(pairs: Seq<Pair>, i: int)
    requires
        0 <= i < pairs.len(),
        forall|j: int| i < j < pairs.len() ==> pairs[j].0 != pairs[i].0,
    ensures
        folded(pairs).contains_key(pairs[i].0),
        folded(pairs)[pairs[i].0] == pairs[i].1,
    decreases pairs.len(),
{
    if i < pairs.len() - 1 {
        lemma_folded_last_wins(pairs.drop_last(), i);
    }
}

/// Where no id occurs twice, the folded map gives each id the handle of its
/// one entry.
pub proof fn lemma_folded_entry(pairs: Seq<Pair>, i: int)
    requires
        distinct_ids(pairs),
        0 <= i < pairs.len(),
    ensures
        folded(pairs).contains_key(pairs[i].0),
        folded(pairs)[pairs[i].0] == pairs[i].1,
{
    lemma_folded_last_wins(pairs, i);
}

/// Replacing the handle of one entry changes the folded map at that id only,
/// where no id occurs twice.
proof fn lemma_folded_update(pairs: Seq<Pair>, i: int, handle: Seq<char>)
    requires
        distinct_ids(pairs),
        0 <= i < pairs.len(),
    ensures
        folded(pairs.update(i, (pairs[i].0, handle))) == folded(pairs).insert(pairs[i].0, handle),
    decreases pairs.len(),
{
    let id = pairs[i].0;
    let after = pairs.update(i, (id, handle));
    let front = pairs.drop_last();
    if i == pairs.len() - 1 {
        assert(after.drop_last() == front);
    } else {
        lemma_folded_update(front, i, handle);
        assert(after.drop_last() == front.update(i, (id, handle)));
    }
}

/// `put` keeps the ids distinct and inserts into the folded map.
pub proof fn lemma_put(pairs: Seq<Pair>, id: Seq<char>, handle: Seq<char>)
    requires
        distinct_ids(pairs),
    ensures
        distinct_ids(put(pairs, id, handle)),
        folded(put(pairs, id, handle)) == folded(pairs).insert(id, handle),
{
    lemma_position(pairs, id);
    let after = put(pairs, id, handle);
    match position(pairs, id) {
        Some(i) => {
            lemma_folded_update(pairs, i, handle);
        },
        None => {
            assert(after.drop_last() == pairs);
        },
    }
}

/// One follower: an account id and the canonical handle stored for it.
#[derive(Debug, Clone, PartialEq, Eq)]
pub struct Follower {
    pub id: String,
    pub handle: String,
}

impl Follower {
    /// The id and the handle as character sequences.
    pub open spec fn pair(self) -> Pair {
        (self.id@, self.handle@)
    }
}

/// The ids and handles of `entries`.
pub open spec fn pairs_of(entries: Seq<Follower>) -> Seq<Pair> {
    entries.map_values(|f: Follower| f.pair())
}

/// The position of the entry of `id` in `entries`.
fn find(entries: &Vec<Follower>, id: &String) -> (at: Option<usize>)
    ensures
        match at {
            Some(i) => i < entries.len() && position(pairs_of(entries@), id@) == Some(i as int),
            None => position(pairs_of(entries@), id@) is None,
        },
{
    let ghost pairs = pairs_of(entries@);
    let mut i: usize = 0;
    while i < entries.len()
        invariant
            i <= entries.len(),
            pairs == pairs_of(entries@),
            forall|j: int| 0 <= j < i ==> pairs[j].0 != id@,
        decreases entries.len() - i,
    {
        if entries[i].id == *id {
            proof {
                lemma_position(pairs, id@);
                assert(pairs[i as int].0 == id@);
            }
            return Some(i);
        }
        i += 1;
    }
    proof {
        lemma_position(pairs, id@);
    }
    None
}

/// A follower snapshot.
#[derive(Debug, PartialEq, Eq)]
pub struct Snapshot {
    entries: Vec<Follower>,
}

impl View for Snapshot {
    type V = Map<Seq<char>, Seq<char>>;

    /// The map from id to handle.
    open spec fn view(&self) -> Map<Seq<char>, Seq<char>> {
        folded(self.pairs())
    }
}

impl Snapshot {
    /// The entries, in the order in which their ids first arrived.
    pub closed spec fn pairs(&self) -> Seq<Pair> {
        pairs_of(self.entries@)
    }

    /// No id occurs twice. This holds of every snapshot that exists at run
    /// time.
    #[verifier::type_invariant]
    pub open spec fn well_formed(&self) -> bool {
        distinct_ids(self.pairs())
    }

    /// The snapshot without entries.
    pub fn new() -> (out: Snapshot)
        ensures
            out.pairs() == Seq::<Pair>::empty(),
            out@ == Map::<Seq<char>, Seq<char>>::empty(),
            out.well_formed(),
    {
        Snapshot { entries: Vec::new() }
    }

    /// The number of entries.
    pub fn len(&self) -> (n: usize)
        ensures
            n == self.pairs().len(),
            n == self@.dom().len(),
            self.well_formed(),
    {
        proof {
            use_type_invariant(self);
            lemma_distinct_len(self.pairs());
        }
        self.entries.len()
    }

    /// The entry at position `i`, if there is one.
    pub fn get(&self, i: usize) -> (entry: Option<&Follower>)
        ensures
            match entry {
                Some(follower) => i < self.pairs().len() && follower.pair() == self.pairs()[i as int],
                None => i >= self.pairs().len(),
            },
    {
        if i < self.entries.len() {
            Some(&self.entries[i])
        } else {
            None
        }
    }

    /// Whether the snapshot holds `id`.
    pub fn contains_id(&self, id: &String) -> (found: bool)
        ensures
            found == self@.contains_key(id@),
    {
        let at = find(&self.entries, id);
        proof {
            lemma_position(self.pairs(), id@);
            lemma_folded_ids(self.pairs());
            assert(has_id(self.pairs(), id@) == self@.contains_key(id@));
        }
        at.is_some()
    }

    /// The handle stored for `id`.
    pub fn handle_of(&self, id: &String) -> (found: Option<&String>)
        ensures
            match found {
                Some(handle) => self@.contains_key(id@) && self@[id@] == handle@,
                None => !self@.contains_key(id@),
            },
    {
        proof {
            use_type_invariant(self);
            lemma_position(self.pairs(), id@);
            lemma_folded_ids(self.pairs());
        }
        match find(&self.entries, id) {
            Some(i) => {
                proof {
                    lemma_folded_entry(self.pairs(), i as int);
                }
                Some(&self.entries[i].handle)
            },
            None => None,
        }
    }

    /// Associates `id` with `handle`, in place of the handle that `id` had.
    pub fn insert(&mut self, id: String, handle: String)
        ensures
            final(self).pairs() == put(old(self).pairs(), id@, handle@),
            final(self)@ == old(self)@.insert(id@, handle@),
            final(self).well_formed(),
    {
        proof {
            use_type_invariant(&*self);
            lemma_put(self.pairs(), id@, handle@);
        }
        let ghost before = self.pairs();
        let mut entries: Vec<Follower> = Vec::new();
        core::mem::swap(&mut self.entries, &mut entries);
        match find(&entries, &id) {
            Some(i) => {
                entries.set(i, Follower { id, handle });
                assert(pairs_of(entries@) == before.update(i as int, (id@, handle@)));
            },
            None => {
                entries.push(Follower { id, handle });
                assert(pairs_of(entries@) == before.push((id@, handle@)));
            },
        }
        self.entries = entries;
    }
}

/// A list without a repeated id has as many entries as its folded map has
/// ids.
pub proof fn lemma_distinct_len(pairs: Seq<Pair>)
    requires
        distinct_ids(pairs),
    ensures
        folded(pairs).dom().finite(),
        folded(pairs).dom().len() == pairs.len(),
    decreases pairs.len(),
{
    lemma_folded_ids(pairs);
    if pairs.len() > 0 {
        let front = pairs.drop_last();
        lemma_distinct_len(front);
        lemma_folded_ids(front);
        assert(!has_id(front, pairs.last().0)) by {
            assert forall|i: int| 0 <= i < front.len() implies front[i].0 != pairs.last().0 by {
                assert(front[i] == pairs[i]);
            }
        }
    }
}

} // verus!
