//! Highlight events: what a tokenizer reports about a source text.

use vstd::prelude::*;

verus! {

/// One signal of a tokenizer: a stretch of source bytes, or the start or end
/// of a category. `index` is a place in the palette.
#[derive(Clone, Copy, Debug, PartialEq, Eq, Structural)]
pub enum HighlightEvent {
    SourceRange { start: usize, end: usize },
    CategoryStart { index: usize },
    CategoryEnd,
}

/// Whether the stretches that the first `n` events report are non-empty and
/// follow one another without gap or overlap, the first starting at `from`
/// and the last ending at `to`.
pub open spec fn ranges_chain(events: Seq<HighlightEvent>, n: nat, from: usize, to: usize) -> bool
    decreases n,
{
    if n == 0 || n > events.len() {
        from == to
    } else {
        match events[n - 1] {
            HighlightEvent::SourceRange { start, end } => {
                &&& start < end
                &&& end == to
                &&& ranges_chain(events, (n - 1) as nat, from, start)
            },
            _ => ranges_chain(events, (n - 1) as nat, from, to),
        }
    }
}

/// Whether the events report every byte of a text of `len` bytes exactly
/// once and in order.
pub open spec fn covers_source(events: Seq<HighlightEvent>, len: usize) -> bool {
    ranges_chain(events, events.len(), 0, len)
}

} // verus!
