//! The style mapper: from highlight events to styled runs.
//!
//! Categories nest. A start pushes its palette index, an end pops, and a
//! stretch of source takes the colour of the innermost open category. The
//! runs that come out always tile the whole text: bytes that the events skip
//! or never reach are emitted in the fallback colour, and a stretch that
//! reaches back before the cursor or beyond the text is cut to fit.

use vstd::prelude::*;
use crate::color::Rgba;
use crate::event::{covers_source, ranges_chain, HighlightEvent};
use crate::palette::{slot_color, Palette};

verus! {

/// The font that a run is drawn with.
#[derive(Clone, Copy, Debug, PartialEq, Eq, Structural)]
pub enum FontFamily {
    Monospace,
    Proportional,
}

/// A stretch of the source text, by byte offsets, with its resolved style.
#[derive(Clone, Copy, Debug, PartialEq, Eq, Structural)]
pub struct StyledRun {
    pub start: usize,
    pub end: usize,
    pub color: Rgba,
    pub font: FontFamily,
}

/// What the mapper holds between two events: how far the runs reach, the
/// open categories from outermost to innermost, and the runs so far.
pub struct Progress {
    pub cursor: usize,
    pub open: Seq<usize>,
    pub runs: Seq<StyledRun>,
}

/// The run of code text from `start` to `end`.
pub open spec fn code_run(start: usize, end: usize, color: Rgba) -> StyledRun {
    StyledRun { start, end, color, font: FontFamily::Monospace }
}

/// `runs`, and after them the run from `start` to `end` unless it is empty.
pub open spec fn with_run(runs: Seq<StyledRun>, start: usize, end: usize, color: Rgba) -> Seq<
    StyledRun,
> {
    if start < end {
        runs.push(code_run(start, end, color))
    } else {
        runs
    }
}

/// `x`, moved into `lo ..= hi`.
pub open spec fn clamp(x: usize, lo: usize, hi: usize) -> usize {
    if x < lo {
        lo
    } else if x > hi {
        hi
    } else {
        x
    }
}

/// The colour in force: that of the innermost open category.
pub open spec fn active_color(colors: Seq<Rgba>, fallback: Rgba, open: Seq<usize>) -> Rgba {
    if open.len() == 0 {
        fallback
    } else {
        slot_color(colors, fallback, open.last())
    }
}

/// The state before any event.
pub open spec fn start_progress() -> Progress {
    Progress { cursor: 0, open: Seq::empty(), runs: Seq::empty() }
}

/// The state after one more event.
pub open spec fn step(
    colors: Seq<Rgba>,
    fallback: Rgba,
    len: usize,
    p: Progress,
    event: HighlightEvent,
) -> Progress {
    match event {
        HighlightEvent::SourceRange { start, end } => {
            let from = clamp(start, p.cursor, len);
            let to = clamp(end, from, len);
            let skipped = with_run(p.runs, p.cursor, from, fallback);
            Progress {
                cursor: to,
                open: p.open,
                runs: with_run(skipped, from, to, active_color(colors, fallback, p.open)),
            }
        },
        HighlightEvent::CategoryStart { index } => Progress {
            cursor: p.cursor,
            open: p.open.push(index),
            runs: p.runs,
        },
        HighlightEvent::CategoryEnd => Progress {
            cursor: p.cursor,
            open: if p.open.len() > 0 {
                p.open.drop_last()
            } else {
                p.open
            },
            runs: p.runs,
        },
    }
}

/// The state after the first `n` events.
pub open spec fn progress_after(
    colors: Seq<Rgba>,
    fallback: Rgba,
    len: usize,
    events: Seq<HighlightEvent>,
    n: nat,
) -> Progress
    decreases n,
{
    if n == 0 || n > events.len() {
        start_progress()
    } else {
        step(
            colors,
            fallback,
            len,
            progress_after(colors, fallback, len, events, (n - 1) as nat),
            events[n - 1],
        )
    }
}

/// The runs for a text of `len` bytes whose tokenizer reported `events`.
pub open spec fn styled_runs(
    colors: Seq<Rgba>,
    fallback: Rgba,
    len: usize,
    events: Seq<HighlightEvent>,
) -> Seq<StyledRun> {
    let p = progress_after(colors, fallback, len, events, events.len());
    with_run(p.runs, p.cursor, len, fallback)
}

/// Whether `runs` tile `0 .. len`: none is empty, the first starts at 0, each
/// next one starts where the one before ended, and the last ends at `len`.
pub open spec fn tiles(runs: Seq<StyledRun>, len: usize) -> bool {
    &&& forall|i: int| 0 <= i < runs.len() ==> (#[trigger] runs[i]).start < runs[i].end
    &&& forall|i: int, j: int|
        0 <= i && j == i + 1 && j < runs.len() ==> (#[trigger] runs[i]).end == (
        #[trigger] runs[j]).start
    &&& runs.len() == 0 ==> len == 0
    &&& runs.len() > 0 ==> runs[0].start == 0 && runs.last().end == len
}

/// The slices of `source` that the first `n` runs name, joined in order.
pub open spec fn joined_slices(source: Seq<u8>, runs: Seq<StyledRun>, n: nat) -> Seq<u8>
    decreases n,
{
    if n == 0 || n > runs.len() {
        Seq::empty()
    } else {
        joined_slices(source, runs, (n - 1) as nat) + source.subrange(
            runs[n - 1].start as int,
            runs[n - 1].end as int,
        )
    }
}

/// The text that `runs` spell out over `source`.
pub open spec fn rendered_text(source: Seq<u8>, runs: Seq<StyledRun>) -> Seq<u8> {
    joined_slices(source, runs, runs.len())
}

/// Appending a run that starts where the tiling ends extends the tiling.
proof fn lemma_with_run_tiles(runs: Seq<StyledRun>, at: usize, to: usize, color: Rgba)
    requires
        tiles(runs, at),
        at <= to,
    ensures
        tiles(with_run(runs, at, to, color), to),
{
    if at < to {
        let next = runs.push(code_run(at, to, color));
        assert forall|i: int, j: int| 0 <= i && j == i + 1 && j < next.len() implies (
        #[trigger] next[i]).end == (#[trigger] next[j]).start by {
            if j < runs.len() {
                assert(next[i] == runs[i]);
                assert(next[j] == runs[j]);
            } else {
                assert(next[i] == runs[i]);
                assert(runs[i] == runs.last());
            }
        }
        assert forall|i: int| 0 <= i < next.len() implies (#[trigger] next[i]).start
            < next[i].end by {
            if i < runs.len() {
                assert(next[i] == runs[i]);
            }
        }
        if runs.len() > 0 {
            assert(next[0] == runs[0]);
        }
    }
}

/// Every prefix of the events leaves runs that tile the text up to the cursor.
pub proof fn lemma_progress_tiles(
    colors: Seq<Rgba>,
    fallback: Rgba,
    len: usize,
    events: Seq<HighlightEvent>,
    n: nat,
)
    requires
        n <= events.len(),
    ensures
        progress_after(colors, fallback, len, events, n).cursor <= len,
        tiles(
            progress_after(colors, fallback, len, events, n).runs,
            progress_after(colors, fallback, len, events, n).cursor,
        ),
    decreases n,
{
    if n > 0 {
        lemma_progress_tiles(colors, fallback, len, events, (n - 1) as nat);
        let p = progress_after(colors, fallback, len, events, (n - 1) as nat);
        match events[n - 1] {
            HighlightEvent::SourceRange { start, end } => {
                let from = clamp(start, p.cursor, len);
                let to = clamp(end, from, len);
                lemma_with_run_tiles(p.runs, p.cursor, from, fallback);
                lemma_with_run_tiles(
                    with_run(p.runs, p.cursor, from, fallback),
                    from,
                    to,
                    active_color(colors, fallback, p.open),
                );
            },
            _ => {},
        }
    }
}

/// Coverage: the runs of any event sequence tile the whole text.
pub proof fn lemma_styled_runs_tile(
    colors: Seq<Rgba>,
    fallback: Rgba,
    len: usize,
    events: Seq<HighlightEvent>,
)
    ensures
        tiles(styled_runs(colors, fallback, len, events), len),
{
    lemma_progress_tiles(colors, fallback, len, events, events.len());
    let p = progress_after(colors, fallback, len, events, events.len());
    lemma_with_run_tiles(p.runs, p.cursor, len, fallback);
}

/// The first `n` runs of a tiling spell out the source up to where they end.
proof fn lemma_joined_prefix(source: Seq<u8>, runs: Seq<StyledRun>, len: usize, n: nat)
    requires
        tiles(runs, len),
        len <= source.len(),
        n <= runs.len(),
    ensures
        n == 0 ==> joined_slices(source, runs, n) == Seq::<u8>::empty(),
        n > 0 ==> runs[n - 1].end <= len && joined_slices(source, runs, n) == source.subrange(
            0,
            runs[n - 1].end as int,
        ),
    decreases n,
{
    if n > 0 {
        lemma_joined_prefix(source, runs, len, (n - 1) as nat);
        lemma_run_ends_within(runs, len, n - 1);
        let last = runs[n - 1];
        if n == 1 {
            assert(joined_slices(source, runs, 1) =~= source.subrange(0, last.end as int));
        } else {
            let before = runs[n - 2];
            assert(before.end == last.start);
            assert(source.subrange(0, before.end as int) + source.subrange(
                last.start as int,
                last.end as int,
            ) =~= source.subrange(0, last.end as int));
        }
    }
}

/// In a tiling every run ends at or before the end of the text.
proof fn lemma_run_ends_within(runs: Seq<StyledRun>, len: usize, i: int)
    requires
        tiles(runs, len),
        0 <= i < runs.len(),
    ensures
        runs[i].end <= len,
    decreases runs.len() - i,
{
    if i + 1 < runs.len() {
        lemma_run_ends_within(runs, len, i + 1);
        assert(runs[i].end == runs[i + 1].start);
    } else {
        assert(runs[i] == runs.last());
    }
}

/// Round trip: runs that tile a text spell out exactly that text.
pub proof fn lemma_tiles_render_source(source: Seq<u8>, runs: Seq<StyledRun>)
    requires
        source.len() <= usize::MAX,
        tiles(runs, source.len() as usize),
    ensures
        rendered_text(source, runs) == source,
{
    lemma_joined_prefix(source, runs, source.len() as usize, runs.len());
    if runs.len() > 0 {
        assert(source.subrange(0, source.len() as int) =~= source);
    } else {
        assert(source =~= Seq::<u8>::empty());
    }
}

/// The categories that are open after the first `n` events, outermost first.
pub open spec fn open_after(events: Seq<HighlightEvent>, n: nat) -> Seq<usize>
    decreases n,
{
    if n == 0 || n > events.len() {
        Seq::empty()
    } else {
        let before = open_after(events, (n - 1) as nat);
        match events[n - 1] {
            HighlightEvent::SourceRange { .. } => before,
            HighlightEvent::CategoryStart { index } => before.push(index),
            HighlightEvent::CategoryEnd => if before.len() > 0 {
                before.drop_last()
            } else {
                before
            },
        }
    }
}

/// One run for each stretch among the first `n` events, with the very
/// offsets that the event reports and the colour in force at that event.
pub open spec fn direct_runs(
    colors: Seq<Rgba>,
    fallback: Rgba,
    events: Seq<HighlightEvent>,
    n: nat,
) -> Seq<StyledRun>
    decreases n,
{
    if n == 0 || n > events.len() {
        Seq::empty()
    } else {
        let before = direct_runs(colors, fallback, events, (n - 1) as nat);
        match events[n - 1] {
            HighlightEvent::SourceRange { start, end } => before.push(
                code_run(
                    start,
                    end,
                    active_color(colors, fallback, open_after(events, (n - 1) as nat)),
                ),
            ),
            _ => before,
        }
    }
}

/// While the stretches follow one another from 0, nothing is cut or filled.
proof fn lemma_chain_progress(
    colors: Seq<Rgba>,
    fallback: Rgba,
    len: usize,
    events: Seq<HighlightEvent>,
    n: nat,
    to: usize,
)
    requires
        n <= events.len(),
        to <= len,
        ranges_chain(events, n, 0, to),
    ensures
        progress_after(colors, fallback, len, events, n) == (Progress {
            cursor: to,
            open: open_after(events, n),
            runs: direct_runs(colors, fallback, events, n),
        }),
    decreases n,
{
    if n > 0 {
        match events[n - 1] {
            HighlightEvent::SourceRange { start, end } => {
                lemma_chain_progress(colors, fallback, len, events, (n - 1) as nat, start);
            },
            _ => {
                lemma_chain_progress(colors, fallback, len, events, (n - 1) as nat, to);
            },
        }
    }
}

/// Where the events report every byte once and in order, the runs are the
/// reported stretches themselves, each in the colour of the innermost
/// category open around it.
pub proof fn lemma_covering_events_map_directly(
    colors: Seq<Rgba>,
    fallback: Rgba,
    len: usize,
    events: Seq<HighlightEvent>,
)
    requires
        covers_source(events, len),
    ensures
        styled_runs(colors, fallback, len, events) == direct_runs(
            colors,
            fallback,
            events,
            events.len(),
        ),
{
    lemma_chain_progress(colors, fallback, len, events, events.len(), len);
}

/// Turns highlight events into styled runs.
///
/// `len` is the length of the source text in bytes. Whatever the events
/// hold, the runs tile `0 .. len`, and so spell out again every text of
/// that length.
pub fn style_runs(palette: &Palette, len: usize, events: &Vec<HighlightEvent>) -> (runs: Vec<
    StyledRun,
>)
    ensures
        runs@ == styled_runs(palette@.colors, palette@.fallback, len, events@),
        tiles(runs@, len),
        forall|source: Seq<u8>|
            source.len() == len ==> #[trigger] rendered_text(source, runs@) == source,
{
    let fallback = palette.fallback();
    let mut runs: Vec<StyledRun> = Vec::new();
    let mut open: Vec<usize> = Vec::new();
    let mut cursor: usize = 0;
    let mut i: usize = 0;
    while i < events.len()
        invariant
            i <= events.len(),
            fallback == palette@.fallback,
            cursor <= len,
            (Progress { cursor, open: open@, runs: runs@ }) == progress_after(
                palette@.colors,
                palette@.fallback,
                len,
                events@,
                i as nat,
            ),
        decreases events.len() - i,
    {
        match events[i] {
            HighlightEvent::SourceRange { start, end } => {
                let from = if start < cursor {
                    cursor
                } else if start > len {
                    len
                } else {
                    start
                };
                let to = if end < from {
                    from
                } else if end > len {
                    len
                } else {
                    end
                };
                if cursor < from {
                    runs.push(
                        StyledRun {
                            start: cursor,
                            end: from,
                            color: fallback,
                            font: FontFamily::Monospace,
                        },
                    );
                }
                if from < to {
                    let color = if open.len() == 0 {
                        fallback
                    } else {
                        palette.color_at(open[open.len() - 1])
                    };
                    runs.push(StyledRun { start: from, end: to, color, font: FontFamily::Monospace });
                }
                cursor = to;
            },
            HighlightEvent::CategoryStart { index } => {
                open.push(index);
            },
            HighlightEvent::CategoryEnd => {
                if open.len() > 0 {
                    open.pop();
                }
            },
        }
        i += 1;
        proof {
            assert(open@ =~= step(
                palette@.colors,
                palette@.fallback,
                len,
                progress_after(palette@.colors, palette@.fallback, len, events@, (i - 1) as nat),
                events@[i - 1],
            ).open);
        }
    }
    if cursor < len {
        runs.push(StyledRun { start: cursor, end: len, color: fallback, font: FontFamily::Monospace });
    }
    proof {
        lemma_styled_runs_tile(palette@.colors, palette@.fallback, len, events@);
        assert forall|source: Seq<u8>| source.len() == len implies #[trigger] rendered_text(
            source,
            runs@,
        ) == source by {
            lemma_tiles_render_source(source, runs@);
        }
    }
    runs
}

} // verus!
