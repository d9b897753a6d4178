//! The text of a run: the bytes that it names, read as UTF-8.
//!
//! Runs are cut at byte offsets. Where a cut falls inside a character the
//! bytes around it are not valid UTF-8; the text then holds a replacement
//! character in their place.

use vstd::prelude::*;
use vstd::slice::slice_subrange;
use vstd::utf8::{
    decode_utf8, decode_utf8_split, encode_utf8, encode_utf8_decode_utf8, encode_utf8_valid_utf8,
    is_char_boundary, is_char_boundary_iff_not_is_continuation_byte,
    is_char_boundary_start_end_of_seq, valid_utf8, valid_utf8_split,
};
use crate::style::{tiles, StyledRun};

verus! {

/// The text that bytes which are not valid UTF-8 are read as: every
/// sequence that encodes no character gives U+FFFD.
pub uninterp spec fn lossy_text(bytes: Seq<u8>) -> Seq<char>;

/// The text of `bytes`: decoded where they are valid UTF-8, read with
/// replacement characters where they are not.
pub open spec fn lenient_text(bytes: Seq<u8>) -> Seq<char> {
    if valid_utf8(bytes) {
        decode_utf8(bytes)
    } else {
        lossy_text(bytes)
    }
}

/// Reads bytes as text with `String::from_utf8_lossy`.
///
/// Trusted: valid UTF-8 comes back as the text that it encodes; of other
/// bytes the result is `lossy_text`.
#[verifier::external_body]
fn read_lossy(bytes: &[u8]) -> (text: String)
    ensures
        valid_utf8(bytes@) ==> text@ == decode_utf8(bytes@),
        !valid_utf8(bytes@) ==> text@ == lossy_text(bytes@),
{
    String::from_utf8_lossy(bytes).into_owned()
}

/// The bytes of `source` that `run` names. A run that reaches beyond the
/// source is cut at its end, and one that ends before it starts is empty.
pub open spec fn run_bytes(source: Seq<u8>, run: StyledRun) -> Seq<u8> {
    let end = if run.end <= source.len() {
        run.end as int
    } else {
        source.len() as int
    };
    let start = if run.start <= end {
        run.start as int
    } else {
        end
    };
    source.subrange(start, end)
}

/// The text of `run` in `code`.
pub open spec fn run_text_of(code: Seq<char>, run: StyledRun) -> Seq<char> {
    lenient_text(run_bytes(encode_utf8(code), run))
}

/// The text of `run` in `code`. It never fails: bytes that form no
/// character come out as U+FFFD.
pub fn run_text(code: &str, run: &StyledRun) -> (text: String)
    ensures
        text@ == run_text_of(code@, *run),
{
    let source = code.as_bytes();
    let end = if run.end <= source.len() {
        run.end
    } else {
        source.len()
    };
    let start = if run.start <= end {
        run.start
    } else {
        end
    };
    read_lossy(slice_subrange(source, start, end))
}

/// Whether every run starts at the first byte of a character.
pub open spec fn starts_on_char_boundaries(source: Seq<u8>, runs: Seq<StyledRun>) -> bool {
    forall|i: int| 0 <= i < runs.len() ==> is_char_boundary(source, (#[trigger] runs[i]).start as int)
}

/// The texts of the first `n` runs, joined in order.
pub open spec fn joined_texts(code: Seq<char>, runs: Seq<StyledRun>, n: nat) -> Seq<char>
    decreases n,
{
    if n == 0 || n > runs.len() {
        Seq::empty()
    } else {
        joined_texts(code, runs, (n - 1) as nat) + run_text_of(code, runs[n - 1])
    }
}

/// A character boundary of a text is one of each prefix that reaches it.
proof fn lemma_boundary_in_prefix(bytes: Seq<u8>, at: int, end: int)
    requires
        valid_utf8(bytes),
        0 <= at <= end <= bytes.len(),
        is_char_boundary(bytes, at),
        is_char_boundary(bytes, end),
    ensures
        valid_utf8(bytes.subrange(0, end)),
        is_char_boundary(bytes.subrange(0, end), at),
{
    valid_utf8_split(bytes, end);
    let prefix = bytes.subrange(0, end);
    if at == end {
        is_char_boundary_start_end_of_seq(prefix);
    } else {
        is_char_boundary_iff_not_is_continuation_byte(bytes, at);
        is_char_boundary_iff_not_is_continuation_byte(prefix, at);
    }
}

/// Between two character boundaries the bytes are valid UTF-8, and the text
/// up to the second is the text up to the first and then the text between.
proof fn lemma_text_between_boundaries(bytes: Seq<u8>, at: int, end: int)
    requires
        valid_utf8(bytes),
        0 <= at <= end <= bytes.len(),
        is_char_boundary(bytes, at),
        is_char_boundary(bytes, end),
    ensures
        valid_utf8(bytes.subrange(0, at)),
        valid_utf8(bytes.subrange(at, end)),
        valid_utf8(bytes.subrange(0, end)),
        decode_utf8(bytes.subrange(0, end)) == decode_utf8(bytes.subrange(0, at)) + decode_utf8(
            bytes.subrange(at, end),
        ),
{
    lemma_boundary_in_prefix(bytes, at, end);
    let prefix = bytes.subrange(0, end);
    valid_utf8_split(prefix, at);
    decode_utf8_split(prefix, at);
    assert(prefix.subrange(0, at) =~= bytes.subrange(0, at));
    assert(prefix.subrange(at, prefix.len() as int) =~= bytes.subrange(at, end));
}

/// In a tiling every run ends where the next starts or the text ends.
proof fn lemma_run_bounds(runs: Seq<StyledRun>, len: usize, i: int)
    requires
        tiles(runs, len),
        0 <= i < runs.len(),
    ensures
        runs[i].start < runs[i].end <= len,
        i == 0 ==> runs[i].start == 0,
        i > 0 ==> runs[i].start == runs[i - 1].end,
        i == runs.len() - 1 ==> runs[i].end == len,
    decreases runs.len() - i,
{
    if i + 1 < runs.len() {
        lemma_run_bounds(runs, len, i + 1);
        assert(runs[i].end == runs[i + 1].start);
    } else {
        assert(runs[i] == runs.last());
    }
    if i > 0 {
        assert(runs[i - 1].end == runs[i].start);
    }
}

/// The texts of the first `n` runs spell the code up to where they end.
proof fn lemma_joined_texts_prefix(code: Seq<char>, runs: Seq<StyledRun>, n: nat)
    requires
        encode_utf8(code).len() <= usize::MAX,
        tiles(runs, encode_utf8(code).len() as usize),
        starts_on_char_boundaries(encode_utf8(code), runs),
        n <= runs.len(),
    ensures
        n == 0 ==> joined_texts(code, runs, n) == Seq::<char>::empty(),
        n > 0 ==> joined_texts(code, runs, n) == decode_utf8(
            encode_utf8(code).subrange(0, runs[n - 1].end as int),
        ),
    decreases n,
{
    if n > 0 {
        let source = encode_utf8(code);
        let len = source.len() as usize;
        encode_utf8_valid_utf8(code);
        lemma_joined_texts_prefix(code, runs, (n - 1) as nat);
        lemma_run_bounds(runs, len, n - 1);
        let run = runs[n - 1];
        assert(is_char_boundary(source, run.end as int)) by {
            if n < runs.len() {
                lemma_run_bounds(runs, len, n as int);
            } else {
                is_char_boundary_start_end_of_seq(source);
            }
        }
        lemma_text_between_boundaries(source, run.start as int, run.end as int);
        assert(run_bytes(source, run) == source.subrange(run.start as int, run.end as int));
        if n == 1 {
            assert(source.subrange(0, 0) =~= Seq::<u8>::empty());
            assert(decode_utf8(Seq::<u8>::empty()) =~= Seq::<char>::empty());
        }
    }
}

/// Round trip in text: where every run starts at the first byte of a
/// character, the texts of runs that tile the code, joined in order, are
/// the code.
pub proof fn lemma_texts_spell_code(code: Seq<char>, runs: Seq<StyledRun>)
    requires
        encode_utf8(code).len() <= usize::MAX,
        tiles(runs, encode_utf8(code).len() as usize),
        starts_on_char_boundaries(encode_utf8(code), runs),
    ensures
        joined_texts(code, runs, runs.len()) == code,
{
    let source = encode_utf8(code);
    lemma_joined_texts_prefix(code, runs, runs.len());
    encode_utf8_decode_utf8(code);
    if runs.len() > 0 {
        assert(source.subrange(0, source.len() as int) =~= source);
    } else {
        assert(source =~= Seq::<u8>::empty());
        assert(code.len() == 0) by {
            if code.len() > 0 {
                assert(decode_utf8(source).len() == 0);
            }
        }
        assert(code =~= Seq::<char>::empty());
    }
}

} // verus!
