//! The detailed report: a line-level comparison of a diff's original and
//! rewritten text, and the removed lines numbered as they stand in the
//! original. The comparison itself is delegated to the `difference` crate;
//! the numbering walk over its chunks is verified.

use vstd::prelude::*;
use crate::text;

verus! {

/// One piece of a line-level comparison of two texts.
#[derive(Debug)]
pub enum DiffChunk {
    /// Lines present in both texts.
    Same(String),
    /// Lines present only in the new text.
    Add(String),
    /// Lines present only in the original text.
    Rem(String),
}

/// A plain encoding of a chunk: a tag for its kind, and its text. Common
/// lines are tagged 0, added lines 1, removed lines 2.
pub open spec fn chunk_model(c: DiffChunk) -> (int, Seq<char>) {
    match c {
        DiffChunk::Same(s) => (0, s@),
        DiffChunk::Add(s) => (1, s@),
        DiffChunk::Rem(s) => (2, s@),
    }
}

/// The plain encoding of a chunk list, in order.
pub open spec fn chunks_model(cs: Seq<DiffChunk>) -> Seq<(int, Seq<char>)> {
    cs.map_values(|c: DiffChunk| chunk_model(c))
}

/// What `difference::Changeset::new` computes for two texts and a
/// separator: the ordered chunks of their comparison, encoded as
/// [`chunk_model`] does. A deterministic function of its three arguments.
pub uninterp spec fn line_diff_of(orig: Seq<char>, edit: Seq<char>, sep: Seq<char>) -> Seq<
    (int, Seq<char>),
>;

/// Relies on `difference::Changeset::new`: its `diffs` field holds the
/// comparison's chunks in order, a pure function of the two texts and the
/// separator. The library's chunk enum mirrors the crate's `Difference`
/// variants one to one.
#[verifier::external_body]
fn line_diff(orig: &str, edit: &str, sep: &str) -> (r: Vec<DiffChunk>)
    ensures
        chunks_model(r@) == line_diff_of(orig@, edit@, sep@),
{
    difference::Changeset::new(orig, edit, sep)
        .diffs
        .into_iter()
        .map(
            |d|
                match d {
                    difference::Difference::Same(s) => DiffChunk::Same(s),
                    difference::Difference::Add(s) => DiffChunk::Add(s),
                    difference::Difference::Rem(s) => DiffChunk::Rem(s),
                },
        )
        .collect()
}

/// Relies on `bytecount::count`: the number of occurrences of the newline
/// byte in the string's UTF-8 bytes. That equals the number of newline
/// characters, since no multi-byte UTF-8 sequence holds a byte under 128.
#[verifier::external_body]
fn count_newlines(s: &str) -> (r: usize)
    ensures
        r == text::count_char(s@, '\n'),
{
    bytecount::count(s.as_bytes(), b'\n')
}

/// `a + b`, capped at the largest line number reported.
pub open spec fn sat_add(a: int, b: int) -> int {
    if a + b > u64::MAX {
        u64::MAX as int
    } else {
        a + b
    }
}

/// The removed lines of a chunk list, each with its line number, counting
/// from `line`: a run of common lines advances the counter by its line
/// count, a removed line is reported and advances it by one, and an added
/// line belongs to the new text only and does not advance it. Line
/// numbers saturate rather than wrap.
pub open spec fn removed_lines_spec(cs: Seq<(int, Seq<char>)>, line: int) -> Seq<(int, Seq<char>)>
    decreases cs.len(),
{
    if cs.len() == 0 {
        Seq::empty()
    } else if cs[0].0 == 0 {
        removed_lines_spec(cs.skip(1), sat_add(line, text::count_char(cs[0].1, '\n') + 1 as int))
    } else if cs[0].0 == 2 {
        seq![(line, cs[0].1)] + removed_lines_spec(cs.skip(1), sat_add(line, 1))
    } else {
        removed_lines_spec(cs.skip(1), line)
    }
}

/// The plain encoding of a numbered-line list.
pub open spec fn removed_model(rs: Seq<(u64, String)>) -> Seq<(int, Seq<char>)> {
    rs.map_values(|p: (u64, String)| (p.0 as int, p.1@))
}

proof fn lemma_removed_model_push(rs: Seq<(u64, String)>, p: (u64, String))
    ensures
        removed_model(rs.push(p)) == removed_model(rs) + seq![(p.0 as int, p.1@)],
{
    assert(removed_model(rs.push(p)) =~= removed_model(rs) + seq![(p.0 as int, p.1@)]);
}

/// `a + b`, saturating instead of overflowing.
fn sat_add_u64(a: u64, b: u64) -> (r: u64)
    ensures
        r as int == sat_add(a as int, b as int),
{
    if a <= u64::MAX - b {
        a + b
    } else {
        u64::MAX
    }
}

/// The removed lines of the given chunks with their 1-based line numbers
/// in the original text, exactly as [`removed_lines_spec`] counts them.
pub fn numbered_removed(chunks: &Vec<DiffChunk>) -> (r: Vec<(u64, String)>)
    ensures
        removed_model(r@) == removed_lines_spec(chunks_model(chunks@), 1),
{
    let ghost cm = chunks_model(chunks@);
    let mut out: Vec<(u64, String)> = Vec::new();
    let mut line: u64 = 1;
    let n: usize = chunks.len();
    let mut i: usize = 0;
    proof {
        assert(cm.skip(0) =~= cm);
        assert(removed_model(out@) =~= Seq::<(int, Seq<char>)>::empty());
        assert(Seq::<(int, Seq<char>)>::empty() + removed_lines_spec(cm, 1) =~= removed_lines_spec(
            cm,
            1,
        ));
    }
    while i < n
        invariant
            n == chunks@.len(),
            i <= n,
            cm == chunks_model(chunks@),
            cm.len() == n,
            1 <= line,
            removed_lines_spec(cm, 1) == removed_model(out@) + removed_lines_spec(
                cm.skip(i as int),
                line as int,
            ),
        decreases n - i,
    {
        let ghost suffix = cm.skip(i as int);
        let ghost line0 = line as int;
        proof {
            assert(suffix[0] == cm[i as int]);
            assert(cm[i as int] == chunk_model(chunks@[i as int]));
            assert(suffix.skip(1) =~= cm.skip(i + 1));
        }
        match &chunks[i] {
            DiffChunk::Same(s) => {
                let c = count_newlines(s.as_str());
                let c64: u64 = c as u64;
                let inc = sat_add_u64(c64, 1);
                line = sat_add_u64(line, inc);
                proof {
                    assert(line as int == sat_add(line0, text::count_char(s@, '\n') + 1 as int));
                    assert(removed_lines_spec(suffix, line0) == removed_lines_spec(
                        cm.skip(i + 1),
                        line as int,
                    ));
                }
            },
            DiffChunk::Add(_) => {
                assert(removed_lines_spec(suffix, line0) == removed_lines_spec(
                    cm.skip(i + 1),
                    line0,
                ));
            },
            DiffChunk::Rem(s) => {
                let ghost out0 = out@;
                let entry = (line, s.clone());
                out.push(entry);
                line = sat_add_u64(line, 1);
                proof {
                    lemma_removed_model_push(out0, entry);
                    assert(removed_lines_spec(suffix, line0) == seq![(line0, s@)]
                        + removed_lines_spec(cm.skip(i + 1), sat_add(line0, 1)));
                    assert((removed_model(out0) + seq![(line0, s@)]) + removed_lines_spec(
                        cm.skip(i + 1),
                        line as int,
                    ) =~= removed_model(out0) + (seq![(line0, s@)] + removed_lines_spec(
                        cm.skip(i + 1),
                        line as int,
                    )));
                }
            },
        }
        i += 1;
    }
    proof {
        assert(cm.skip(n as int) =~= Seq::<(int, Seq<char>)>::empty());
        assert(removed_model(out@) + Seq::<(int, Seq<char>)>::empty() =~= removed_model(out@));
    }
    out
}

/// The removed lines between a diff's original and rewritten text, split
/// at newlines, each with its 1-based line number in the original: the
/// body of the detailed report.
pub fn removed_lines(content: &str, replaced: &str) -> (r: Vec<(u64, String)>)
    ensures
        removed_model(r@) == removed_lines_spec(line_diff_of(content@, replaced@, "\n"@), 1),
{
    let chunks = line_diff(content, replaced, "\n");
    numbered_removed(&chunks)
}

} // verus!
