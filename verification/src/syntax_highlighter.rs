//! Highlighting a text: tokenize it, map the events to styled runs, and
//! remember the runs so that the same text is not tokenized again.

use vstd::prelude::*;
use vstd::utf8::encode_utf8;
use crate::cache::{
    cached_runs, counted, entries_after_lookup, entries_after_store, RunCache, MAX_LIMIT,
};
use crate::keyed::{lemma_position_of, position_of};
use crate::grammar::{Registry, SourceLanguage};
use crate::style::{
    lemma_styled_runs_tile, lemma_tiles_render_source, rendered_text, style_runs, styled_runs,
    tiles, StyledRun,
};
use crate::tokenizer::{tokenize, tokenized};

verus! {

/// The runs that highlighting `text` afresh gives: its UTF-8 bytes are
/// tokenized as JavaScript and the events mapped with the registry's palette.
pub open spec fn fresh_runs(registry: Registry, text: Seq<char>) -> Seq<StyledRun> {
    let source = encode_utf8(text);
    styled_runs(
        registry.palette_view().colors,
        registry.palette_view().fallback,
        source.len() as usize,
        tokenized(registry.grammar(SourceLanguage::JavaScript), source),
    )
}

/// Whether every entry holds the runs that highlighting its text afresh
/// with `registry` gives.
pub open spec fn holds_fresh_runs(
    registry: Registry,
    entries: Seq<(Seq<char>, Seq<StyledRun>)>,
) -> bool {
    forall|i: int|
        0 <= i < entries.len() ==> (#[trigger] entries[i]).1 == fresh_runs(registry, entries[i].0)
}

/// What one call of `highlight` does to the cache of a highlighter for
/// `registry`: `runs` are what it returns for `text`, `before` and `after`
/// the cache around the call.
pub open spec fn highlight_effect(
    registry: Registry,
    before: RunCache,
    text: Seq<char>,
    after: RunCache,
    runs: Seq<StyledRun>,
) -> bool {
    &&& after.wf()
    &&& holds_fresh_runs(registry, after@)
    &&& after.limit() == before.limit()
    &&& runs == fresh_runs(registry, text)
    &&& match cached_runs(before@, text) {
        Some(cached) => {
            &&& runs == cached
            &&& after@ == entries_after_lookup(before@, text)
        },
        None => after@ == entries_after_store(before@, before.limit(), text, runs),
    }
    &&& counted(
        before.hit_count(),
        before.miss_count(),
        cached_runs(before@, text) is Some,
        after.hit_count(),
        after.miss_count(),
    )
}

/// Coverage and round trip: fresh runs tile the text's bytes, and their
/// slices, joined in order, are those bytes.
pub proof fn lemma_fresh_runs_tile(registry: Registry, text: Seq<char>)
    requires
        encode_utf8(text).len() <= usize::MAX,
    ensures
        tiles(fresh_runs(registry, text), encode_utf8(text).len() as usize),
        rendered_text(encode_utf8(text), fresh_runs(registry, text)) == encode_utf8(text),
        encode_utf8(text).len() > 0 ==> fresh_runs(registry, text).len() > 0,
{
    let source = encode_utf8(text);
    lemma_styled_runs_tile(
        registry.palette_view().colors,
        registry.palette_view().fallback,
        source.len() as usize,
        tokenized(registry.grammar(SourceLanguage::JavaScript), source),
    );
    lemma_tiles_render_source(source, fresh_runs(registry, text));
}

/// Highlights `code` without a cache.
pub fn highlight_fresh(registry: &Registry, code: &str) -> (runs: Vec<StyledRun>)
    ensures
        runs@ == fresh_runs(*registry, code@),
        tiles(runs@, encode_utf8(code@).len() as usize),
        rendered_text(encode_utf8(code@), runs@) == encode_utf8(code@),
        encode_utf8(code@).len() > 0 ==> runs@.len() > 0,
{
    let source = code.as_bytes();
    let len = source.len();
    let events = tokenize(registry.grammar_of(SourceLanguage::JavaScript), source);
    proof {
        lemma_fresh_runs_tile(*registry, code@);
    }
    style_runs(registry.palette(), len, &events)
}

/// A copy of `runs`.
fn copy_runs(runs: &Vec<StyledRun>) -> (copy: Vec<StyledRun>)
    ensures
        copy@ == runs@,
{
    let mut copy: Vec<StyledRun> = Vec::new();
    let mut i: usize = 0;
    while i < runs.len()
        invariant
            i <= runs.len(),
            copy@ == runs@.subrange(0, i as int),
        decreases runs.len() - i,
    {
        copy.push(runs[i]);
        i += 1;
        assert(copy@ =~= runs@.subrange(0, i as int));
    }
    assert(runs@.subrange(0, runs.len() as int) =~= runs@);
    copy
}

/// Looks `code` up in `cache`, and highlights and stores it where it is
/// not there.
fn highlight_cached(registry: &Registry, cache: &mut RunCache, code: String) -> (runs: Vec<
    StyledRun,
>)
    requires
        old(cache).wf(),
        holds_fresh_runs(*registry, old(cache)@),
    ensures
        highlight_effect(*registry, *old(cache), code@, *final(cache), runs@),
{
    proof {
        lemma_position_of(cache@, code@);
        lemma_lookup_keeps_fresh_runs(*registry, cache@, code@);
    }
    match cache.get(&code) {
        Some(runs) => runs,
        None => {
            let runs = highlight_fresh(registry, code.as_str());
            let copy = copy_runs(&runs);
            proof {
                lemma_store_keeps_fresh_runs(*registry, cache@, cache.limit(), code@, runs@);
            }
            cache.insert(code, copy);
            runs
        },
    }
}

/// A registry with the cache of its results: what the editor keeps to
/// highlight the text on screen frame after frame.
pub struct SyntaxHighlighter {
    registry: Registry,
    cache: RunCache,
}

impl SyntaxHighlighter {
    /// The registry.
    pub closed spec fn registry_of(&self) -> Registry {
        self.registry
    }

    /// The cache.
    pub closed spec fn cache_of(&self) -> RunCache {
        self.cache
    }

    /// The highlighter's invariant: the cache is well formed, and it holds
    /// for each text the runs that the registry gives for it.
    pub closed spec fn wf(&self) -> bool {
        self.cache.wf() && holds_fresh_runs(self.registry, self.cache@)
    }

    /// What `wf` says of the cache.
    pub proof fn lemma_wf_cache(&self)
        requires
            self.wf(),
        ensures
            self.cache_of().wf(),
            holds_fresh_runs(self.registry_of(), self.cache_of()@),
    {
    }

    /// A highlighter for `registry` that remembers up to `limit` texts.
    /// There is none for a limit of zero or above `MAX_LIMIT`.
    pub fn new(registry: Registry, limit: usize) -> (highlighter: Option<SyntaxHighlighter>)
        ensures
            highlighter is Some <==> 0 < limit <= MAX_LIMIT,
            highlighter matches Some(h) ==> {
                &&& h.wf()
                &&& h.registry_of() == registry
                &&& h.cache_of()@ == Seq::<(Seq<char>, Seq<StyledRun>)>::empty()
                &&& h.cache_of().limit() == limit
                &&& h.cache_of().hit_count() == 0
                &&& h.cache_of().miss_count() == 0
            },
    {
        match RunCache::new(limit) {
            Some(cache) => Some(SyntaxHighlighter { registry, cache }),
            None => None,
        }
    }

    /// The registry.
    pub fn registry(&self) -> (registry: &Registry)
        ensures
            *registry == self.registry_of(),
    {
        &self.registry
    }

    /// The cache, to read its size and its counts.
    pub fn cache(&self) -> (cache: &RunCache)
        ensures
            *cache == self.cache_of(),
    {
        &self.cache
    }

    /// Sets the cache's counts of hits and misses to zero.
    pub fn reset_counts(&mut self)
        requires
            old(self).wf(),
        ensures
            final(self).wf(),
            final(self).registry_of() == old(self).registry_of(),
            final(self).cache_of()@ == old(self).cache_of()@,
            final(self).cache_of().limit() == old(self).cache_of().limit(),
            final(self).cache_of().hit_count() == 0,
            final(self).cache_of().miss_count() == 0,
    {
        self.cache.reset_counts();
    }
}

/// Highlights `code` as JavaScript.
///
/// The runs tile the text and spell it out again, whatever the text holds:
/// text that does not parse is highlighted as far as the tokenizer recovers,
/// and the rest comes in the fallback colour. A text that the cache holds is
/// not tokenized again: its runs come from the cache, and they are the runs
/// that a fresh pass would give.
pub fn highlight(highlighter: &mut SyntaxHighlighter, code: String) -> (runs: Vec<StyledRun>)
    requires
        old(highlighter).wf(),
    ensures
        final(highlighter).wf(),
        final(highlighter).registry_of() == old(highlighter).registry_of(),
        highlight_effect(
            old(highlighter).registry_of(),
            old(highlighter).cache_of(),
            code@,
            final(highlighter).cache_of(),
            runs@,
        ),
        tiles(runs@, encode_utf8(code@).len() as usize),
        rendered_text(encode_utf8(code@), runs@) == encode_utf8(code@),
        encode_utf8(code@).len() > 0 ==> runs@.len() > 0,
{
    // Taking the length shows that the text's bytes can be counted in a `usize`.
    let _ = code.as_str().as_bytes().len();
    proof {
        lemma_fresh_runs_tile(highlighter.registry, code@);
    }
    highlight_cached(&highlighter.registry, &mut highlighter.cache, code)
}

/// A lookup leaves every entry with the runs of its text.
proof fn lemma_lookup_keeps_fresh_runs(
    registry: Registry,
    entries: Seq<(Seq<char>, Seq<StyledRun>)>,
    text: Seq<char>,
)
    requires
        holds_fresh_runs(registry, entries),
    ensures
        holds_fresh_runs(registry, entries_after_lookup(entries, text)),
{
    lemma_position_of(entries, text);
    match position_of(entries, text) {
        Some(p) => {
            let after = entries_after_lookup(entries, text);
            let rest = entries.remove(p);
            assert forall|i: int| 0 <= i < after.len() implies (#[trigger] after[i]).1
                == fresh_runs(registry, after[i].0) by {
                if i == 0 {
                    assert(after[0] == entries[p]);
                } else {
                    let k = i - 1;
                    let src = if k < p { k } else { k + 1 };
                    assert(after[i] == rest[k]);
                    assert(rest[k] == entries[src]);
                }
            }
        },
        None => {},
    }
}

/// Storing the fresh runs of a text leaves every entry with the runs of
/// its text.
proof fn lemma_store_keeps_fresh_runs(
    registry: Registry,
    entries: Seq<(Seq<char>, Seq<StyledRun>)>,
    limit: nat,
    text: Seq<char>,
    runs: Seq<StyledRun>,
)
    requires
        holds_fresh_runs(registry, entries),
        runs == fresh_runs(registry, text),
    ensures
        holds_fresh_runs(registry, entries_after_store(entries, limit, text, runs)),
{
    lemma_position_of(entries, text);
    let after = entries_after_store(entries, limit, text, runs);
    match position_of(entries, text) {
        Some(p) => {
            assert forall|i: int| 0 <= i < after.len() implies (#[trigger] after[i]).1
                == fresh_runs(registry, after[i].0) by {
                if i != p {
                    assert(after[i] == entries[i]);
                }
            }
        },
        None => {
            let grown = seq![(text, runs)] + entries;
            assert forall|i: int| 0 <= i < after.len() implies (#[trigger] after[i]).1
                == fresh_runs(registry, after[i].0) by {
                assert(after[i] == grown[i]);
                if i > 0 {
                    assert(grown[i] == entries[i - 1]);
                }
            }
        },
    }
}

/// After a call for `text` the cache holds the call's runs for it, in front.
pub proof fn lemma_highlight_caches(
    registry: Registry,
    before: RunCache,
    text: Seq<char>,
    after: RunCache,
    runs: Seq<StyledRun>,
)
    requires
        before.wf(),
        highlight_effect(registry, before, text, after, runs),
    ensures
        after@.len() > 0,
        after@[0] == (text, runs),
        position_of(after@, text) == Some(0int),
        cached_runs(after@, text) == Some(runs),
{
    before.lemma_wf_entries();
    lemma_position_of(before@, text);
    match position_of(before@, text) {
        Some(p) => {
            assert(after@[0] == before@[p]);
        },
        None => {
            let grown = seq![(text, runs)] + before@;
            assert(after@[0] == grown[0]);
        },
    }
}

/// Idempotence: highlighting the same text twice in succession gives equal
/// runs, and the second call takes them from the cache: it is counted as a
/// hit, and leaves the entries as they were.
pub proof fn lemma_highlight_again(
    registry: Registry,
    c0: RunCache,
    c1: RunCache,
    c2: RunCache,
    text: Seq<char>,
    first: Seq<StyledRun>,
    second: Seq<StyledRun>,
)
    requires
        c0.wf(),
        highlight_effect(registry, c0, text, c1, first),
        highlight_effect(registry, c1, text, c2, second),
    ensures
        second == first,
        cached_runs(c1@, text) == Some(first),
        counted(c1.hit_count(), c1.miss_count(), true, c2.hit_count(), c2.miss_count()),
        c2@ == c1@,
{
    lemma_highlight_caches(registry, c0, text, c1, first);
    assert(c1@.remove(0) =~= c1@.drop_first());
    assert(seq![c1@[0]] + c1@.drop_first() =~= c1@);
}

/// Distinct texts have distinct entries: no text is cached twice, and after
/// two different texts were highlighted in succession, a cache with room for
/// two holds each with its own runs.
pub proof fn lemma_distinct_texts_distinct_entries(
    registry: Registry,
    c0: RunCache,
    c1: RunCache,
    c2: RunCache,
    text1: Seq<char>,
    text2: Seq<char>,
    runs1: Seq<StyledRun>,
    runs2: Seq<StyledRun>,
)
    requires
        c0.wf(),
        c0.limit() >= 2,
        text1 != text2,
        highlight_effect(registry, c0, text1, c1, runs1),
        highlight_effect(registry, c1, text2, c2, runs2),
    ensures
        cached_runs(c2@, text1) == Some(runs1),
        cached_runs(c2@, text2) == Some(runs2),
        position_of(c2@, text1) != position_of(c2@, text2),
        forall|i: int, j: int|
            0 <= i < j < c2@.len() ==> (#[trigger] c2@[i]).0 != (#[trigger] c2@[j]).0,
{
    lemma_highlight_caches(registry, c0, text1, c1, runs1);
    lemma_highlight_caches(registry, c1, text2, c2, runs2);
    c2.lemma_wf_entries();
    c1.lemma_wf_entries();
    lemma_position_of(c1@, text2);
    lemma_position_of(c2@, text1);
    match position_of(c1@, text2) {
        Some(p) => {
            let rest = c1@.remove(p);
            assert(p > 0);
            assert(c2@[1] == rest[0]);
            assert(rest[0] == c1@[0]);
        },
        None => {
            let grown = seq![(text2, runs2)] + c1@;
            assert(grown[1] == c1@[0]);
            assert(c2@[1] == grown[1]);
        },
    }
    assert(c2@[1].0 == text1);
    assert(position_of(c2@, text1) == Some(1int));
}

} // verus!
