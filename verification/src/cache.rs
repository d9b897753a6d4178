//! The result cache: the runs of the texts highlighted last, by exact text.
//!
//! The entries live in a `cached::SizedCache`, which holds a fixed number of
//! them and drops the one that was looked up longest ago when a new text
//! would exceed that number.

use vstd::prelude::*;
use crate::keyed::{distinct_keys, lemma_position_of, position_of};
use crate::style::StyledRun;
use cached::{Cached, SizedCache};

verus! {

/// The least-recently-used store of the `cached` crate. Opaque here: its
/// contents are spoken of through `store_entries`.
#[verifier::external_type_specification]
#[verifier::external_body]
#[verifier::reject_recursive_types(K)]
#[verifier::reject_recursive_types(V)]
pub struct ExSizedCache<K, V>(SizedCache<K, V>);

/// The texts in a store with their runs, the one used last first.
pub uninterp spec fn store_entries(store: SizedCache<String, Vec<StyledRun>>) -> Seq<
    (Seq<char>, Seq<StyledRun>),
>;

/// The number of entries that a store was made to hold.
pub uninterp spec fn store_limit(store: SizedCache<String, Vec<StyledRun>>) -> nat;

/// The lookups that found their text, as a store counts them.
pub uninterp spec fn store_hits(store: SizedCache<String, Vec<StyledRun>>) -> u64;

/// The lookups that did not find their text, as a store counts them.
pub uninterp spec fn store_misses(store: SizedCache<String, Vec<StyledRun>>) -> u64;

/// The entries after a lookup of `text`: a text that is found moves to the
/// front, and nothing else changes.
pub open spec fn entries_after_lookup(
    entries: Seq<(Seq<char>, Seq<StyledRun>)>,
    text: Seq<char>,
) -> Seq<(Seq<char>, Seq<StyledRun>)> {
    match position_of(entries, text) {
        Some(i) => seq![entries[i]] + entries.remove(i),
        None => entries,
    }
}

/// The entries after `runs` are stored for `text`: a text that is there
/// gets the new runs in its place; a new text goes to the front, and the
/// last entry leaves where the limit would be exceeded.
pub open spec fn entries_after_store(
    entries: Seq<(Seq<char>, Seq<StyledRun>)>,
    limit: nat,
    text: Seq<char>,
    runs: Seq<StyledRun>,
) -> Seq<(Seq<char>, Seq<StyledRun>)> {
    match position_of(entries, text) {
        Some(i) => entries.update(i, (text, runs)),
        None => {
            let grown = seq![(text, runs)] + entries;
            if grown.len() > limit {
                grown.drop_last()
            } else {
                grown
            }
        },
    }
}

/// The largest number of entries that a cache can be made to hold. A store
/// reserves room for all its entries when it is made, and the tables for
/// more entries than this cannot be addressed.
pub const MAX_LIMIT: usize = usize::MAX / 256;

/// Makes an empty store with `SizedCache::with_size`.
///
/// Trusted: the store is empty, holds up to `limit` entries and has counted
/// no lookup. The call panics on a limit of zero, and on one whose tables,
/// which it reserves at once, are larger than the address space; `requires`
/// leaves both out.
#[verifier::external_body]
fn new_store(limit: usize) -> (store: SizedCache<String, Vec<StyledRun>>)
    requires
        0 < limit <= MAX_LIMIT,
    ensures
        store_entries(store) == Seq::<(Seq<char>, Seq<StyledRun>)>::empty(),
        store_limit(store) == limit,
        store_hits(store) == 0,
        store_misses(store) == 0,
{
    SizedCache::with_size(limit)
}

/// Looks `text` up with `Cached::cache_get` and copies what is found.
///
/// Trusted: the runs stored for `text` come back, and that entry moves to
/// the front; the store counts a hit where it found the text and a miss
/// where it did not. It counts in 64 bits, so `requires` keeps both counts
/// below the largest such number.
#[verifier::external_body]
fn lookup_store(store: &mut SizedCache<String, Vec<StyledRun>>, text: &String) -> (found: Option<
    Vec<StyledRun>,
>)
    requires
        store_hits(*old(store)) < u64::MAX,
        store_misses(*old(store)) < u64::MAX,
    ensures
        match position_of(store_entries(*old(store)), text@) {
            Some(i) => {
                &&& found matches Some(runs) && runs@ == store_entries(*old(store))[i].1
                &&& store_hits(*final(store)) == store_hits(*old(store)) + 1
                &&& store_misses(*final(store)) == store_misses(*old(store))
            },
            None => {
                &&& found is None
                &&& store_hits(*final(store)) == store_hits(*old(store))
                &&& store_misses(*final(store)) == store_misses(*old(store)) + 1
            },
        },
        store_entries(*final(store)) == entries_after_lookup(store_entries(*old(store)), text@),
        store_limit(*final(store)) == store_limit(*old(store)),
{
    store.cache_get(text).cloned()
}

/// Stores `runs` for `text` with `Cached::cache_set`.
///
/// Trusted: the entries change as `entries_after_store` says, and the limit
/// and the counts of lookups stay.
#[verifier::external_body]
fn fill_store(store: &mut SizedCache<String, Vec<StyledRun>>, text: String, runs: Vec<StyledRun>)
    ensures
        store_entries(*final(store)) == entries_after_store(
            store_entries(*old(store)),
            store_limit(*old(store)),
            text@,
            runs@,
        ),
        store_limit(*final(store)) == store_limit(*old(store)),
        store_hits(*final(store)) == store_hits(*old(store)),
        store_misses(*final(store)) == store_misses(*old(store)),
{
    store.cache_set(text, runs);
}

/// Sets the store's counters to zero with `Cached::cache_reset_metrics`.
///
/// Trusted: both counts are zero afterwards, and the entries and the limit
/// stay.
#[verifier::external_body]
fn clear_store_counters(store: &mut SizedCache<String, Vec<StyledRun>>)
    ensures
        store_entries(*final(store)) == store_entries(*old(store)),
        store_limit(*final(store)) == store_limit(*old(store)),
        store_hits(*final(store)) == 0,
        store_misses(*final(store)) == 0,
{
    store.cache_reset_metrics();
}

/// Counts the entries with `Cached::cache_size`.
///
/// Trusted: the result is the number of entries.
#[verifier::external_body]
fn store_size(store: &SizedCache<String, Vec<StyledRun>>) -> (n: usize)
    ensures
        n == store_entries(*store).len(),
{
    store.cache_size()
}

/// Reads the count of hits with `Cached::cache_hits`.
///
/// Trusted: this store keeps a count of hits, and the result is that count.
#[verifier::external_body]
fn store_hit_count(store: &SizedCache<String, Vec<StyledRun>>) -> (n: Option<u64>)
    ensures
        n == Some(store_hits(*store)),
{
    store.cache_hits()
}

/// Reads the count of misses with `Cached::cache_misses`.
///
/// Trusted: this store keeps a count of misses, and the result is that
/// count.
#[verifier::external_body]
fn store_miss_count(store: &SizedCache<String, Vec<StyledRun>>) -> (n: Option<u64>)
    ensures
        n == Some(store_misses(*store)),
{
    store.cache_misses()
}

/// The runs that `entries` hold for `text`.
pub open spec fn cached_runs(entries: Seq<(Seq<char>, Seq<StyledRun>)>, text: Seq<char>) -> Option<
    Seq<StyledRun>,
> {
    match position_of(entries, text) {
        Some(i) => Some(entries[i].1),
        None => None,
    }
}

/// The counts of hits and misses that the next lookup starts from: the
/// counts so far, or zero for both once either has reached the largest
/// 64-bit number.
pub open spec fn counts_before_lookup(hits: u64, misses: u64) -> (u64, u64) {
    if hits == u64::MAX || misses == u64::MAX {
        (0, 0)
    } else {
        (hits, misses)
    }
}

/// A bounded cache from exact text to the runs computed for it.
pub struct RunCache {
    store: SizedCache<String, Vec<StyledRun>>,
}

impl View for RunCache {
    type V = Seq<(Seq<char>, Seq<StyledRun>)>;

    /// The cached texts with their runs, the one used last first.
    closed spec fn view(&self) -> Seq<(Seq<char>, Seq<StyledRun>)> {
        store_entries(self.store)
    }
}

impl RunCache {
    /// The number of entries that the cache holds at most.
    pub closed spec fn limit(&self) -> nat {
        store_limit(self.store)
    }

    /// How many lookups found their text.
    pub closed spec fn hit_count(&self) -> u64 {
        store_hits(self.store)
    }

    /// How many lookups did not find their text.
    pub closed spec fn miss_count(&self) -> u64 {
        store_misses(self.store)
    }

    /// The cache's invariant: it holds at most `limit` entries and no text
    /// twice.
    pub closed spec fn wf(&self) -> bool {
        &&& 0 < store_limit(self.store) <= MAX_LIMIT
        &&& store_entries(self.store).len() <= store_limit(self.store)
        &&& distinct_keys(store_entries(self.store))
    }

    /// What `wf` says of the entries.
    pub proof fn lemma_wf_entries(&self)
        requires
            self.wf(),
        ensures
            0 < self.limit() <= MAX_LIMIT,
            self@.len() <= self.limit(),
            distinct_keys(self@),
    {
    }

    /// An empty cache for up to `limit` texts. There is none for a limit of
    /// zero or above `MAX_LIMIT`.
    pub fn new(limit: usize) -> (cache: Option<RunCache>)
        ensures
            cache is Some <==> 0 < limit <= MAX_LIMIT,
            cache matches Some(c) ==> {
                &&& c.wf()
                &&& c@ == Seq::<(Seq<char>, Seq<StyledRun>)>::empty()
                &&& c.limit() == limit
                &&& c.hit_count() == 0
                &&& c.miss_count() == 0
            },
    {
        if limit == 0 || limit > MAX_LIMIT {
            None
        } else {
            Some(RunCache { store: new_store(limit) })
        }
    }

    /// The number of cached texts.
    pub fn len(&self) -> (n: usize)
        ensures
            n == self@.len(),
    {
        store_size(&self.store)
    }

    /// The number of lookups that found their text.
    pub fn hits(&self) -> (n: u64)
        ensures
            n == self.hit_count(),
    {
        match store_hit_count(&self.store) {
            Some(n) => n,
            None => 0,
        }
    }

    /// The number of lookups that did not find their text.
    pub fn misses(&self) -> (n: u64)
        ensures
            n == self.miss_count(),
    {
        match store_miss_count(&self.store) {
            Some(n) => n,
            None => 0,
        }
    }

    /// Sets the counts of hits and misses to zero.
    pub fn reset_counts(&mut self)
        requires
            old(self).wf(),
        ensures
            final(self).wf(),
            final(self)@ == old(self)@,
            final(self).limit() == old(self).limit(),
            final(self).hit_count() == 0,
            final(self).miss_count() == 0,
    {
        clear_store_counters(&mut self.store);
    }

    /// Looks `text` up. A text that is found becomes the one used last. The
    /// lookup is counted as a hit or as a miss; once either count has
    /// reached the largest 64-bit number, both start again from zero.
    pub(crate) fn get(&mut self, text: &String) -> (found: Option<Vec<StyledRun>>)
        requires
            old(self).wf(),
        ensures
            final(self).wf(),
            final(self).limit() == old(self).limit(),
            match cached_runs(old(self)@, text@) {
                Some(runs) => found matches Some(f) && f@ == runs,
                None => found is None,
            },
            final(self)@ == entries_after_lookup(old(self)@, text@),
            counted(
                old(self).hit_count(),
                old(self).miss_count(),
                found is Some,
                final(self).hit_count(),
                final(self).miss_count(),
            ),
    {
        if self.hits() == u64::MAX || self.misses() == u64::MAX {
            clear_store_counters(&mut self.store);
        }
        proof {
            lemma_lookup_keeps_order(self@, text@);
        }
        lookup_store(&mut self.store, text)
    }

    /// Stores `runs` for `text`.
    pub(crate) fn insert(&mut self, text: String, runs: Vec<StyledRun>)
        requires
            old(self).wf(),
        ensures
            final(self).wf(),
            final(self).limit() == old(self).limit(),
            final(self)@ == entries_after_store(old(self)@, old(self).limit(), text@, runs@),
            final(self).hit_count() == old(self).hit_count(),
            final(self).miss_count() == old(self).miss_count(),
    {
        proof {
            lemma_store_keeps_order(self@, self.limit(), text@, runs@);
        }
        fill_store(&mut self.store, text, runs);
    }
}

/// Whether `hits_after` and `misses_after` are the counts after one more
/// lookup that found its text or not.
pub open spec fn counted(
    hits: u64,
    misses: u64,
    found: bool,
    hits_after: u64,
    misses_after: u64,
) -> bool {
    let base = counts_before_lookup(hits, misses);
    if found {
        hits_after == base.0 + 1 && misses_after == base.1
    } else {
        hits_after == base.0 && misses_after == base.1 + 1
    }
}

/// A lookup keeps the number of entries and leaves no text twice.
proof fn lemma_lookup_keeps_order(entries: Seq<(Seq<char>, Seq<StyledRun>)>, text: Seq<char>)
    requires
        distinct_keys(entries),
    ensures
        distinct_keys(entries_after_lookup(entries, text)),
        entries_after_lookup(entries, text).len() == entries.len(),
{
    lemma_position_of(entries, text);
    match position_of(entries, text) {
        Some(p) => {
            let after = entries_after_lookup(entries, text);
            let rest = entries.remove(p);
            assert forall|i: int, j: int| 0 <= i < j < after.len() implies (#[trigger] after[i]).0
                != (#[trigger] after[j]).0 by {
                let bj = j - 1;
                let src_j = if bj < p { bj } else { bj + 1 };
                assert(after[j] == rest[bj]);
                assert(rest[bj] == entries[src_j]);
                if i == 0 {
                    assert(after[0] == entries[p]);
                } else {
                    let bi = i - 1;
                    let src_i = if bi < p { bi } else { bi + 1 };
                    assert(after[i] == rest[bi]);
                    assert(rest[bi] == entries[src_i]);
                }
            }
        },
        None => {},
    }
}

/// Storing keeps the entries within the limit and leaves no text twice.
proof fn lemma_store_keeps_order(
    entries: Seq<(Seq<char>, Seq<StyledRun>)>,
    limit: nat,
    text: Seq<char>,
    runs: Seq<StyledRun>,
)
    requires
        distinct_keys(entries),
        entries.len() <= limit,
        limit > 0,
    ensures
        distinct_keys(entries_after_store(entries, limit, text, runs)),
        entries_after_store(entries, limit, text, runs).len() <= limit,
{
    lemma_position_of(entries, text);
    let after = entries_after_store(entries, limit, text, runs);
    match position_of(entries, text) {
        Some(p) => {
            assert forall|i: int, j: int| 0 <= i < j < after.len() implies (#[trigger] after[i]).0
                != (#[trigger] after[j]).0 by {
                assert(after[i].0 == entries[i].0);
                assert(after[j].0 == entries[j].0);
            }
        },
        None => {
            let grown = seq![(text, runs)] + entries;
            assert forall|i: int, j: int| 0 <= i < j < after.len() implies (#[trigger] after[i]).0
                != (#[trigger] after[j]).0 by {
                assert(after[j] == grown[j]);
                assert(after[i] == grown[i]);
                assert(grown[j] == entries[j - 1]);
                if i > 0 {
                    assert(grown[i] == entries[i - 1]);
                }
            }
        },
    }
}

} // verus!
