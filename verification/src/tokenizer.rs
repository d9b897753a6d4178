//! The tokenizer: tree-sitter parses the source and reports highlight events.

use vstd::prelude::*;
use crate::event::HighlightEvent;
use crate::grammar::Grammar;
use tree_sitter_highlight::{HighlightConfiguration, Highlighter};

verus! {

/// The events that tree-sitter reports for `source` under `configuration`,
/// or `None` where it gives up. It stands for the outcome of
/// `Highlighter::highlight` on a fresh highlighter, run to its end without a
/// cancellation flag and without injected languages.
pub uninterp spec fn highlight_events(
    configuration: HighlightConfiguration,
    source: Seq<u8>,
) -> Option<Seq<HighlightEvent>>;

/// The longest source that is handed to tree-sitter, which counts bytes in
/// 32 bits.
pub const MAX_SOURCE_LEN: usize = 0xffff_ffff;

/// Runs `Highlighter::highlight` of a fresh highlighter over `source` and
/// collects what it yields.
///
/// Trusted: the outcome depends on the configuration and the source bytes
/// alone, so it is `highlight_events` of the two. `None` where the call, or
/// one of the items that it yields, is an error. `requires` keeps the
/// source within what tree-sitter can count.
#[verifier::external_body]
fn run_highlighter(configuration: &HighlightConfiguration, source: &[u8]) -> (events: Option<
    Vec<HighlightEvent>,
>)
    requires
        source@.len() <= MAX_SOURCE_LEN,
    ensures
        events matches Some(v) ==> highlight_events(*configuration, source@) == Some(v@),
        events is None ==> highlight_events(*configuration, source@) is None,
{
    let mut highlighter = Highlighter::new();
    let events = highlighter.highlight(configuration, source, None, |_| None).ok()?;
    events.map(|event| match event {
        Ok(tree_sitter_highlight::HighlightEvent::Source { start, end }) => Some(
            HighlightEvent::SourceRange { start, end },
        ),
        Ok(tree_sitter_highlight::HighlightEvent::HighlightStart(h)) => Some(
            HighlightEvent::CategoryStart { index: h.0 },
        ),
        Ok(tree_sitter_highlight::HighlightEvent::HighlightEnd) => Some(HighlightEvent::CategoryEnd),
        Err(_) => None,
    }).collect()
}

/// The events of `source` in the language of `grammar`. There are none where
/// the grammar has no configuration, the source is longer than
/// `MAX_SOURCE_LEN`, or tree-sitter gives up: the text then stays unstyled.
pub open spec fn tokenized(grammar: Grammar, source: Seq<u8>) -> Seq<HighlightEvent> {
    match grammar.configuration {
        Some(configuration) => if source.len() <= MAX_SOURCE_LEN {
            match highlight_events(configuration, source) {
                Some(events) => events,
                None => Seq::empty(),
            }
        } else {
            Seq::empty()
        },
        None => Seq::empty(),
    }
}

/// Tokenizes `source` in the language of `grammar`. It never fails: text
/// that does not parse still gets events, as far as tree-sitter recovers.
pub fn tokenize(grammar: &Grammar, source: &[u8]) -> (events: Vec<HighlightEvent>)
    ensures
        events@ == tokenized(*grammar, source@),
{
    match &grammar.configuration {
        Some(configuration) => {
            if source.len() <= MAX_SOURCE_LEN {
                match run_highlighter(configuration, source) {
                    Some(events) => events,
                    None => Vec::new(),
                }
            } else {
                Vec::new()
            }
        },
        None => Vec::new(),
    }
}

} // verus!
