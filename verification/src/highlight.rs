//! Highlight analysis: chunking of the normalized transcript into bounded,
//! overlapping batches, the versioned skills, the run fingerprint and the
//! decisions of the resumable batch workflow.

use vstd::prelude::*;

use crate::digest::{
    hex_encode, push_bytes, push_le_u64, push_slice, sha256, spec_hex, spec_le_bytes, spec_sha256,
};
use crate::domain::AiHighlightRunStatus;
use crate::llm::LlmError;
use crate::projection::{
    AiTranscriptInputProjection, AiTranscriptProjection, AiTranscriptSegmentProjection,
};
use crate::text::{
    spec_lex_order, eq_ignore_ascii_case, from_chars, join, push_char, push_string, spec_eq_ignore_ascii_case,
    spec_join, str_eq, strings_view, to_chars,
};
use vstd::utf8::encode_utf8;

verus! {

/// One normalized transcript segment as the analysis sees it.
#[derive(Debug, Clone, PartialEq, Eq)]
pub struct AnalysisSegment {
    pub stable_id: String,
    pub input_id: i64,
    pub start_ms: u64,
    pub end_ms: u64,
    pub text: String,
}

impl AnalysisSegment {
    pub fn duplicate(&self) -> (r: AnalysisSegment)
        ensures
            r == *self,
    {
        AnalysisSegment {
            stable_id: self.stable_id.clone(),
            input_id: self.input_id,
            start_ms: self.start_ms,
            end_ms: self.end_ms,
            text: self.text.clone(),
        }
    }
}

/// One batch sent to the candidate agent: its own segments preceded by a few
/// context segments of the same source.
#[derive(Debug, Clone, PartialEq, Eq)]
pub struct AnalysisChunk {
    pub ordinal: i64,
    pub input_id: i64,
    pub segment_ids: Vec<String>,
    pub context_segment_ids: Vec<String>,
    pub segments: Vec<AnalysisSegment>,
}

/// The smallest character budget a chunk is ever given.
pub const MIN_CHUNK_CHARS: usize = 256;

pub open spec fn spec_saturate(n: nat) -> nat {
    if n > usize::MAX {
        usize::MAX as nat
    } else {
        n
    }
}

/// Where the chunk opened at `cursor` ends: segments of the cursor's source are
/// taken while the (saturated) character count stays within `maximum`, the
/// first one always.
pub open spec fn spec_chunk_end(
    segments: Seq<AnalysisSegment>,
    cursor: int,
    end: int,
    chars: nat,
    maximum: nat,
) -> int
    decreases segments.len() - end,
{
    if 0 <= cursor && cursor <= end && end < segments.len() && segments[end].input_id
        == segments[cursor].input_id {
        let next = spec_saturate(chars + segments[end].text@.len());
        if end > cursor && next > maximum {
            end
        } else {
            spec_chunk_end(segments, cursor, end + 1, next, maximum)
        }
    } else {
        end
    }
}

/// The first index of the run of segments of source `input_id` that ends just before `k`.
pub open spec fn spec_source_start(segments: Seq<AnalysisSegment>, input_id: i64, k: int) -> int
    decreases k,
{
    if k <= 0 {
        0
    } else if segments[k - 1].input_id != input_id {
        k
    } else {
        spec_source_start(segments, input_id, k - 1)
    }
}

/// The first segment of the chunk opened at `cursor`, context included: at most
/// `overlap` segments back, never before the start of the cursor's source.
pub open spec fn spec_chunk_start(segments: Seq<AnalysisSegment>, cursor: int, overlap: nat) -> int {
    let back = if cursor >= overlap {
        cursor - overlap
    } else {
        0
    };
    let source = spec_source_start(segments, segments[cursor].input_id, cursor);
    if back >= source {
        back
    } else {
        source
    }
}

/// The chunks from `cursor` on, each as (first segment, first own segment, end).
pub open spec fn spec_chunk_bounds(
    segments: Seq<AnalysisSegment>,
    cursor: int,
    maximum: nat,
    overlap: nat,
) -> Seq<(int, int, int)>
    decreases segments.len() - cursor,
{
    if 0 <= cursor && cursor < segments.len() {
        let found = spec_chunk_end(segments, cursor, cursor, 0, maximum);
        let end = if found == cursor {
            cursor + 1
        } else {
            found
        };
        if cursor < end <= segments.len() {
            seq![(spec_chunk_start(segments, cursor, overlap), cursor, end)] + spec_chunk_bounds(
                segments,
                end,
                maximum,
                overlap,
            )
        } else {
            Seq::empty()
        }
    } else {
        Seq::empty()
    }
}

/// The budget actually used: `max_chars`, but never below the minimum.
pub open spec fn spec_budget(max_chars: usize) -> nat {
    if max_chars >= MIN_CHUNK_CHARS {
        max_chars as nat
    } else {
        MIN_CHUNK_CHARS as nat
    }
}

pub open spec fn spec_ids(segments: Seq<AnalysisSegment>) -> Seq<String> {
    segments.map_values(|s: AnalysisSegment| s.stable_id)
}

/// The chunk described by `bounds` at position `ordinal`.
pub open spec fn spec_chunk_is(
    chunk: AnalysisChunk,
    segments: Seq<AnalysisSegment>,
    bounds: (int, int, int),
    ordinal: int,
) -> bool {
    let (start, cursor, end) = bounds;
    &&& chunk.ordinal == ordinal
    &&& chunk.input_id == segments[cursor].input_id
    &&& chunk.segments@ == segments.subrange(start, end)
    &&& chunk.segment_ids@ == spec_ids(segments.subrange(start, end))
    &&& chunk.context_segment_ids@ == spec_ids(segments.subrange(start, cursor))
}

proof fn lemma_chunk_end_bounds(
    segments: Seq<AnalysisSegment>,
    cursor: int,
    end: int,
    chars: nat,
    maximum: nat,
)
    requires
        0 <= cursor <= end <= segments.len(),
    ensures
        end <= spec_chunk_end(segments, cursor, end, chars, maximum) <= segments.len(),
        end == cursor && cursor < segments.len() ==> spec_chunk_end(
            segments,
            cursor,
            end,
            chars,
            maximum,
        ) > cursor,
        forall|j: int|
            end <= j < spec_chunk_end(segments, cursor, end, chars, maximum) ==> (
            #[trigger] segments[j]).input_id == segments[cursor].input_id,
    decreases segments.len() - end,
{
    if end < segments.len() && segments[end].input_id == segments[cursor].input_id {
        let next = spec_saturate(chars + segments[end].text@.len());
        if !(end > cursor && next > maximum) {
            lemma_chunk_end_bounds(segments, cursor, end + 1, next, maximum);
        }
    }
}

proof fn lemma_source_start(segments: Seq<AnalysisSegment>, input_id: i64, k: int)
    requires
        0 <= k <= segments.len(),
    ensures
        0 <= spec_source_start(segments, input_id, k) <= k,
        forall|j: int|
            spec_source_start(segments, input_id, k) <= j < k ==> (#[trigger] segments[j]).input_id
                == input_id,
    decreases k,
{
    if k > 0 && segments[k - 1].input_id == input_id {
        lemma_source_start(segments, input_id, k - 1);
    }
}

/// The number of characters of the segments' texts.
pub open spec fn spec_text_chars(segments: Seq<AnalysisSegment>) -> nat
    decreases segments.len(),
{
    if segments.len() == 0 {
        0
    } else {
        spec_text_chars(segments.drop_last()) + segments.last().text@.len()
    }
}

proof fn lemma_chunk_end_budget(
    segments: Seq<AnalysisSegment>,
    cursor: int,
    end: int,
    chars: nat,
    maximum: nat,
)
    requires
        0 <= cursor <= end <= segments.len(),
        cursor < segments.len(),
        chars == spec_saturate(spec_text_chars(segments.subrange(cursor, end))),
        end > cursor + 1 ==> chars <= maximum,
        forall|j: int| cursor <= j < end ==> (#[trigger] segments[j]).input_id == segments[cursor].input_id,
    ensures
        ({
            let e = spec_chunk_end(segments, cursor, end, chars, maximum);
            e == cursor + 1 || spec_saturate(spec_text_chars(segments.subrange(cursor, e)))
                <= maximum
        }),
    decreases segments.len() - end,
{
    if end < segments.len() && segments[end].input_id == segments[cursor].input_id {
        let next = spec_saturate(chars + segments[end].text@.len());
        if !(end > cursor && next > maximum) {
            assert(segments.subrange(cursor, end + 1).drop_last() =~= segments.subrange(cursor, end));
            assert(next == spec_saturate(spec_text_chars(segments.subrange(cursor, end + 1))));
            lemma_chunk_end_budget(segments, cursor, end + 1, next, maximum);
        }
    } else {
        if end == cursor {
            assert(false);
        }
    }
}

/// The shape of the chunks opened from `cursor` on.
proof fn lemma_chunk_bounds_shape(segments: Seq<AnalysisSegment>, cursor: int, maximum: nat, overlap: nat)
    requires
        0 <= cursor <= segments.len(),
    ensures
        ({
            let b = spec_chunk_bounds(segments, cursor, maximum, overlap);
            &&& (b.len() == 0 <==> cursor == segments.len())
            &&& b.len() > 0 ==> b[0].1 == cursor && b[b.len() - 1].2 == segments.len()
            &&& forall|k: int| 0 <= k < b.len() - 1 ==> (#[trigger] b[k]).2 == b[k + 1].1
            &&& forall|k: int|
                0 <= k < b.len() ==> {
                    &&& cursor <= (#[trigger] b[k]).1 < b[k].2 <= segments.len()
                    &&& 0 <= b[k].0 <= b[k].1
                    &&& b[k].1 - b[k].0 <= overlap
                    &&& forall|j: int|
                        b[k].0 <= j < b[k].2 ==> (#[trigger] segments[j]).input_id
                            == segments[b[k].1].input_id
                    &&& (b[k].2 == b[k].1 + 1 || spec_saturate(
                        spec_text_chars(segments.subrange(b[k].1, b[k].2)),
                    ) <= maximum)
                }
        }),
    decreases segments.len() - cursor,
{
    if cursor < segments.len() {
        lemma_chunk_end_bounds(segments, cursor, cursor, 0, maximum);
        assert(segments.subrange(cursor, cursor) =~= Seq::<AnalysisSegment>::empty());
        lemma_chunk_end_budget(segments, cursor, cursor, 0, maximum);
        let end = spec_chunk_end(segments, cursor, cursor, 0, maximum);
        lemma_chunk_bounds_shape(segments, end, maximum, overlap);
        lemma_source_start(segments, segments[cursor].input_id, cursor);
        let b = spec_chunk_bounds(segments, cursor, maximum, overlap);
        let rest = spec_chunk_bounds(segments, end, maximum, overlap);
        assert(b == seq![(spec_chunk_start(segments, cursor, overlap), cursor, end)] + rest);
        assert forall|k: int| 0 <= k < b.len() - 1 implies (#[trigger] b[k]).2 == b[k + 1].1 by {
            if k > 0 {
                assert(b[k] == rest[k - 1]);
                assert(b[k + 1] == rest[k]);
            }
        }
        assert forall|k: int| 0 <= k < b.len() implies {
            &&& cursor <= (#[trigger] b[k]).1 < b[k].2 <= segments.len()
            &&& 0 <= b[k].0 <= b[k].1
            &&& b[k].1 - b[k].0 <= overlap
            &&& forall|j: int|
                b[k].0 <= j < b[k].2 ==> (#[trigger] segments[j]).input_id
                    == segments[b[k].1].input_id
            &&& (b[k].2 == b[k].1 + 1 || spec_saturate(
                spec_text_chars(segments.subrange(b[k].1, b[k].2)),
            ) <= maximum)
        } by {
            if k > 0 {
                assert(b[k] == rest[k - 1]);
            } else {
                let st = spec_chunk_start(segments, cursor, overlap);
                assert forall|j: int| st <= j < end implies (#[trigger] segments[j]).input_id
                    == segments[cursor].input_id by {
                    if j < cursor {
                    }
                }
            }
        }
    }
}

/// Chunking partitions the transcript: the chunks' own segments, taken in
/// order, are every segment exactly once; each chunk keeps to one source,
/// carries at most `overlap` context segments of that source before its own,
/// and holds more than one own segment only within the character budget.
pub proof fn lemma_chunks_partition_transcript(
    segments: Seq<AnalysisSegment>,
    max_chars: usize,
    overlap: usize,
)
    ensures
        ({
            let b = spec_chunk_bounds(segments, 0, spec_budget(max_chars), overlap as nat);
            &&& (b.len() == 0 <==> segments.len() == 0)
            &&& b.len() > 0 ==> b[0].1 == 0 && b[b.len() - 1].2 == segments.len()
            &&& forall|k: int| 0 <= k < b.len() - 1 ==> (#[trigger] b[k]).2 == b[k + 1].1
            &&& forall|k: int|
                0 <= k < b.len() ==> {
                    &&& 0 <= (#[trigger] b[k]).0 <= b[k].1 < b[k].2 <= segments.len()
                    &&& b[k].1 - b[k].0 <= overlap
                    &&& forall|j: int|
                        b[k].0 <= j < b[k].2 ==> (#[trigger] segments[j]).input_id
                            == segments[b[k].1].input_id
                    &&& (b[k].2 == b[k].1 + 1 || spec_saturate(
                        spec_text_chars(segments.subrange(b[k].1, b[k].2)),
                    ) <= spec_budget(max_chars))
                }
        }),
{
    lemma_chunk_bounds_shape(segments, 0, spec_budget(max_chars), overlap as nat);
}

/// The segment ids that the chunks own (those after their context), chunk after chunk.
pub open spec fn spec_own_ids(chunks: Seq<AnalysisChunk>) -> Seq<String>
    decreases chunks.len(),
{
    if chunks.len() == 0 {
        Seq::empty()
    } else {
        spec_own_ids(chunks.drop_last()) + chunks.last().segment_ids@.skip(
            chunks.last().context_segment_ids@.len() as int,
        )
    }
}

proof fn lemma_own_ids_prefix(
    segments: Seq<AnalysisSegment>,
    b: Seq<(int, int, int)>,
    chunks: Seq<AnalysisChunk>,
    k: int,
)
    requires
        0 <= k <= b.len(),
        chunks.len() == b.len(),
        b.len() > 0 ==> b[0].1 == 0,
        forall|i: int| 0 <= i < b.len() - 1 ==> (#[trigger] b[i]).2 == b[i + 1].1,
        forall|i: int| 0 <= i < b.len() ==> 0 <= (#[trigger] b[i]).0 <= b[i].1 < b[i].2 <= segments.len(),
        forall|i: int| 0 <= i < chunks.len() ==> spec_chunk_is(#[trigger] chunks[i], segments, b[i], i),
    ensures
        spec_own_ids(chunks.take(k)) == spec_ids(
            segments.subrange(
                0,
                if k == 0 {
                    0
                } else {
                    b[k - 1].2
                },
            ),
        ),
    decreases k,
{
    if k == 0 {
        assert(spec_ids(segments.subrange(0, 0)) =~= Seq::<String>::empty());
    } else {
        lemma_own_ids_prefix(segments, b, chunks, k - 1);
        assert(chunks.take(k).drop_last() =~= chunks.take(k - 1));
        let c = chunks[k - 1];
        assert(chunks.take(k).last() == c);
        assert(spec_chunk_is(c, segments, b[k - 1], k - 1));
        let (st, cu, en) = b[k - 1];
        let from = if k - 1 == 0 {
            0
        } else {
            b[k - 2].2
        };
        assert(from == cu) by {
            if k - 1 > 0 {
                assert(b[k - 2].2 == b[k - 1].1);
            }
        }
        assert(c.context_segment_ids@.len() == cu - st);
        assert(c.segment_ids@.skip(cu - st) =~= spec_ids(segments.subrange(cu, en)));
        assert(spec_ids(segments.subrange(0, cu)) + spec_ids(segments.subrange(cu, en)) =~= spec_ids(
            segments.subrange(0, en),
        ));
    }
}

/// The chunks' own segment ids, taken chunk after chunk, are the ids of the
/// whole transcript in order: no segment is analysed twice or left out.
pub proof fn lemma_chunk_ids_cover_transcript(
    segments: Seq<AnalysisSegment>,
    max_chars: usize,
    overlap: usize,
    chunks: Seq<AnalysisChunk>,
)
    requires
        chunks.len() == spec_chunk_bounds(segments, 0, spec_budget(max_chars), overlap as nat).len(),
        forall|k: int|
            0 <= k < chunks.len() ==> spec_chunk_is(
                #[trigger] chunks[k],
                segments,
                spec_chunk_bounds(segments, 0, spec_budget(max_chars), overlap as nat)[k],
                k,
            ),
    ensures
        spec_own_ids(chunks) == spec_ids(segments),
{
    lemma_chunks_partition_transcript(segments, max_chars, overlap);
    let b = spec_chunk_bounds(segments, 0, spec_budget(max_chars), overlap as nat);
    lemma_own_ids_prefix(segments, b, chunks, b.len() as int);
    assert(chunks.take(chunks.len() as int) =~= chunks);
    assert(segments.subrange(0, segments.len() as int) =~= segments);
    if b.len() == 0 {
        assert(segments.len() == 0);
        assert(spec_ids(segments) =~= Seq::<String>::empty());
    }
}

/// The chunk end, found by scanning the cursor's source.
fn chunk_end(segments: &[AnalysisSegment], cursor: usize, maximum: usize) -> (end: usize)
    requires
        cursor < segments@.len(),
    ensures
        end as int == spec_chunk_end(segments@, cursor as int, cursor as int, 0, maximum as nat),
        cursor < end <= segments@.len(),
{
    let ghost segs = segments@;
    let ghost m = maximum as nat;
    proof {
        lemma_chunk_end_bounds(segs, cursor as int, cursor as int, 0, m);
    }
    let input_id = segments[cursor].input_id;
    let mut end = cursor;
    let mut chars: usize = 0;
    let mut stop = false;
    while !stop && end < segments.len()
        invariant
            segs == segments@,
            m == maximum as nat,
            cursor < segs.len(),
            input_id == segs[cursor as int].input_id,
            cursor <= end <= segs.len(),
            stop ==> end > cursor,
            spec_chunk_end(segs, cursor as int, cursor as int, 0, m) == if stop {
                end as int
            } else {
                spec_chunk_end(segs, cursor as int, end as int, chars as nat, m)
            },
            (!stop && end == cursor) ==> chars == 0,
        decreases segs.len() - end + if stop {
            0int
        } else {
            1int
        },
    {
        if segments[end].input_id != input_id {
            stop = true;
            proof {
                assert(end > cursor);
            }
        } else {
            let length = segments[end].text.unicode_len();
            let next = chars.saturating_add(length);
            if end > cursor && next > maximum {
                stop = true;
            } else {
                chars = next;
                end += 1;
            }
        }
    }
    end
}

/// The start of the source run that contains `cursor`.
fn source_start(segments: &[AnalysisSegment], cursor: usize) -> (start: usize)
    requires
        cursor < segments@.len(),
    ensures
        start as int == spec_source_start(segments@, segments@[cursor as int].input_id, cursor as int),
{
    let input_id = segments[cursor].input_id;
    let mut k = cursor;
    let mut found = false;
    while !found && k > 0
        invariant
            cursor < segments@.len(),
            input_id == segments@[cursor as int].input_id,
            k <= cursor,
            spec_source_start(segments@, input_id, cursor as int) == if found {
                k as int
            } else {
                spec_source_start(segments@, input_id, k as int)
            },
        decreases k + if found {
            0int
        } else {
            1int
        },
    {
        if segments[k - 1].input_id != input_id {
            found = true;
        } else {
            k -= 1;
        }
    }
    k
}

/// Copies of `segments[from..to]`.
fn copy_segments(segments: &[AnalysisSegment], from: usize, to: usize) -> (r: Vec<AnalysisSegment>)
    requires
        from <= to <= segments@.len(),
    ensures
        r@ == segments@.subrange(from as int, to as int),
{
    let mut r: Vec<AnalysisSegment> = Vec::new();
    let mut i = from;
    while i < to
        invariant
            from <= i <= to <= segments@.len(),
            r@ == segments@.subrange(from as int, i as int),
        decreases to - i,
    {
        r.push(segments[i].duplicate());
        proof {
            assert(segments@.subrange(from as int, i + 1) =~= segments@.subrange(from as int, i as int).push(segments@[i as int]));
        }
        i += 1;
    }
    r
}

/// The stable ids of `segments[from..to]`.
fn ids_of(segments: &[AnalysisSegment], from: usize, to: usize) -> (r: Vec<String>)
    requires
        from <= to <= segments@.len(),
    ensures
        r@ == spec_ids(segments@.subrange(from as int, to as int)),
{
    let mut r: Vec<String> = Vec::new();
    let mut i = from;
    while i < to
        invariant
            from <= i <= to <= segments@.len(),
            r@ == spec_ids(segments@.subrange(from as int, i as int)),
        decreases to - i,
    {
        r.push(segments[i].stable_id.clone());
        proof {
            assert(spec_ids(segments@.subrange(from as int, i + 1)) =~= spec_ids(segments@.subrange(from as int, i as int)).push(segments@[i as int].stable_id));
        }
        i += 1;
    }
    r
}

/// The chunk opened at `cursor`, and where the next one opens.
fn make_chunk(
    segments: &[AnalysisSegment],
    cursor: usize,
    maximum: usize,
    overlap: usize,
    ordinal: i64,
) -> (r: (AnalysisChunk, usize))
    requires
        cursor < segments@.len(),
    ensures
        ({
            let bounds = spec_chunk_bounds(segments@, cursor as int, maximum as nat, overlap as nat);
            &&& bounds.len() > 0
            &&& spec_chunk_is(r.0, segments@, bounds[0], ordinal as int)
            &&& bounds.subrange(1, bounds.len() as int) == spec_chunk_bounds(
                segments@,
                r.1 as int,
                maximum as nat,
                overlap as nat,
            )
            &&& cursor < r.1 <= segments@.len()
        }),
{
    let end = chunk_end(segments, cursor, maximum);
    let source = source_start(segments, cursor);
    proof {
        lemma_source_start(segments@, segments@[cursor as int].input_id, cursor as int);
    }
    let back = cursor.saturating_sub(overlap);
    let start = if back >= source {
        back
    } else {
        source
    };
    let current = copy_segments(segments, start, end);
    let segment_ids = ids_of(segments, start, end);
    let context_segment_ids = ids_of(segments, start, cursor);
    let input_id = segments[cursor].input_id;
    let ghost bounds = spec_chunk_bounds(segments@, cursor as int, maximum as nat, overlap as nat);
    proof {
        let s = spec_chunk_start(segments@, cursor as int, overlap as nat);
        assert(s == start as int);
        assert(bounds == seq![(s, cursor as int, end as int)] + spec_chunk_bounds(
            segments@,
            end as int,
            maximum as nat,
            overlap as nat,
        ));
        assert(bounds.subrange(1, bounds.len() as int) =~= spec_chunk_bounds(
            segments@,
            end as int,
            maximum as nat,
            overlap as nat,
        ));
    }
    (
        AnalysisChunk {
            ordinal,
            input_id,
            segment_ids,
            context_segment_ids,
            segments: current,
        },
        end,
    )
}

/// Splits the transcript at segment boundaries into chunks of at most
/// `max(max_chars, 256)` characters of their own, each preceded by at most
/// `overlap` context segments, and none crossing from one source video to another.
pub fn chunk_segments(segments: &[AnalysisSegment], max_chars: usize, overlap: usize) -> (r: Vec<
    AnalysisChunk,
>)
    requires
        segments@.len() <= i64::MAX,
    ensures
        ({
            let bounds = spec_chunk_bounds(segments@, 0, spec_budget(max_chars), overlap as nat);
            &&& r@.len() == bounds.len()
            &&& forall|k: int|
                0 <= k < r@.len() ==> spec_chunk_is(#[trigger] r@[k], segments@, bounds[k], k)
        }),
{
    let maximum = if max_chars >= MIN_CHUNK_CHARS {
        max_chars
    } else {
        MIN_CHUNK_CHARS
    };
    let ghost all = spec_chunk_bounds(segments@, 0, maximum as nat, overlap as nat);
    let mut chunks: Vec<AnalysisChunk> = Vec::new();
    let mut ordinal: i64 = 0;
    let mut cursor: usize = 0;
    proof {
        assert(all.subrange(0, all.len() as int) =~= all);
    }
    while cursor < segments.len()
        invariant
            segments@.len() <= i64::MAX,
            cursor <= segments@.len(),
            ordinal as int == chunks@.len(),
            ordinal <= cursor,
            all == spec_chunk_bounds(segments@, 0, maximum as nat, overlap as nat),
            chunks@.len() <= all.len(),
            spec_chunk_bounds(segments@, cursor as int, maximum as nat, overlap as nat) == all.subrange(
                chunks@.len() as int,
                all.len() as int,
            ),
            forall|k: int|
                0 <= k < chunks@.len() ==> spec_chunk_is(#[trigger] chunks@[k], segments@, all[k], k),
        decreases segments.len() - cursor,
    {
        let (chunk, end) = make_chunk(segments, cursor, maximum, overlap, ordinal);
        let ghost done: int = chunks@.len() as int;
        proof {
            let rest = all.subrange(done, all.len() as int);
            assert(rest[0] == all[done]);
            assert(rest.subrange(1, rest.len() as int) =~= all.subrange(done + 1, all.len() as int));
        }
        chunks.push(chunk);
        ordinal += 1;
        cursor = end;
    }
    proof {
        assert(spec_chunk_bounds(segments@, cursor as int, maximum as nat, overlap as nat).len() == 0);
    }
    chunks
}

/// The version of the result policy, part of every run fingerprint.
pub const RESULT_POLICY_VERSION: &'static str = "top-10-resumable-batches-v3";

pub const MAX_CANDIDATES_PER_CHUNK: usize = 5;

pub const MAX_RANKING_CANDIDATES: usize = 60;

pub const MAX_CHUNK_ATTEMPTS: usize = 2;

pub const MAX_CONSECUTIVE_CHUNK_FAILURES: usize = 3;

/// The versioned analysis skills. Their scoring weights stay with the application.
#[derive(Debug, Clone, Copy, PartialEq, Eq)]
pub enum HighlightSkillKind {
    GenericHook,
    EcommerceConversion,
    ComedyPayoff,
    KnowledgeDensity,
    StoryEmotion,
}

impl HighlightSkillKind {
    pub open spec fn spec_id(self) -> Seq<char> {
        match self {
            HighlightSkillKind::GenericHook => "generic-hook"@,
            HighlightSkillKind::EcommerceConversion => "ecommerce-conversion"@,
            HighlightSkillKind::ComedyPayoff => "comedy-payoff"@,
            HighlightSkillKind::KnowledgeDensity => "knowledge-density"@,
            HighlightSkillKind::StoryEmotion => "story-emotion"@,
        }
    }

    pub fn id(&self) -> (r: &'static str)
        ensures
            r@ == self.spec_id(),
    {
        match self {
            HighlightSkillKind::GenericHook => "generic-hook",
            HighlightSkillKind::EcommerceConversion => "ecommerce-conversion",
            HighlightSkillKind::ComedyPayoff => "comedy-payoff",
            HighlightSkillKind::KnowledgeDensity => "knowledge-density",
            HighlightSkillKind::StoryEmotion => "story-emotion",
        }
    }

    pub open spec fn spec_version(self) -> Seq<char> {
        "1.0.0"@
    }

    pub fn version(&self) -> (r: &'static str)
        ensures
            r@ == self.spec_version(),
    {
        "1.0.0"
    }

    /// The project tags that call for the skill.
    pub open spec fn spec_labels(self) -> Seq<Seq<char>> {
        match self {
            HighlightSkillKind::GenericHook => Seq::empty(),
            HighlightSkillKind::EcommerceConversion => seq!["带货"@, "电商"@, "商品"@],
            HighlightSkillKind::ComedyPayoff => seq!["搞笑"@, "喜剧"@, "段子"@],
            HighlightSkillKind::KnowledgeDensity => seq!["知识"@, "科普"@, "教育"@],
            HighlightSkillKind::StoryEmotion => seq!["故事"@, "情感"@, "情绪"@],
        }
    }

    pub open spec fn spec_guidance(self) -> Seq<char> {
        match self {
            HighlightSkillKind::GenericHook => "优先识别开场抓人、信息完整、能独立理解的片段。"@,
            HighlightSkillKind::EcommerceConversion => "重点识别卖点、对比、价格、优惠、转化理由和明确行动号召。"@,
            HighlightSkillKind::ComedyPayoff => "重点识别铺垫、反转、包袱和可脱离上下文传播的笑点。"@,
            HighlightSkillKind::KnowledgeDensity => "重点识别事实、步骤、结论和高信息密度的可复述内容。"@,
            HighlightSkillKind::StoryEmotion => "重点识别冲突、转折、情绪峰值和完整叙事收束。"@,
        }
    }

    pub fn guidance(&self) -> (r: &'static str)
        ensures
            r@ == self.spec_guidance(),
    {
        match self {
            HighlightSkillKind::GenericHook => "优先识别开场抓人、信息完整、能独立理解的片段。",
            HighlightSkillKind::EcommerceConversion => "重点识别卖点、对比、价格、优惠、转化理由和明确行动号召。",
            HighlightSkillKind::ComedyPayoff => "重点识别铺垫、反转、包袱和可脱离上下文传播的笑点。",
            HighlightSkillKind::KnowledgeDensity => "重点识别事实、步骤、结论和高信息密度的可复述内容。",
            HighlightSkillKind::StoryEmotion => "重点识别冲突、转折、情绪峰值和完整叙事收束。",
        }
    }

    /// Whether `tag` names the skill, ignoring ASCII case.
    pub fn has_label(&self, tag: &str) -> (r: bool)
        ensures
            r == exists|j: int|
                0 <= j < self.spec_labels().len() && spec_eq_ignore_ascii_case(
                    tag@,
                    #[trigger] self.spec_labels()[j],
                ),
    {
        let (a, b, c) = match self {
            HighlightSkillKind::GenericHook => {
                return false;
            },
            HighlightSkillKind::EcommerceConversion => ("带货", "电商", "商品"),
            HighlightSkillKind::ComedyPayoff => ("搞笑", "喜剧", "段子"),
            HighlightSkillKind::KnowledgeDensity => ("知识", "科普", "教育"),
            HighlightSkillKind::StoryEmotion => ("故事", "情感", "情绪"),
        };
        let ghost labels = self.spec_labels();
        assert(labels[0] == a@ && labels[1] == b@ && labels[2] == c@);
        eq_ignore_ascii_case(tag, a) || eq_ignore_ascii_case(tag, b) || eq_ignore_ascii_case(tag, c)
    }
}

/// Some tag names the skill.
pub open spec fn spec_tags_call_for(tags: Seq<String>, skill: HighlightSkillKind) -> bool {
    exists|i: int, j: int|
        0 <= i < tags.len() && 0 <= j < skill.spec_labels().len() && spec_eq_ignore_ascii_case(
            #[trigger] tags[i]@,
            #[trigger] skill.spec_labels()[j],
        )
}

/// The optional skills, in the order in which they are considered.
pub open spec fn spec_supported(i: int) -> HighlightSkillKind {
    if i == 0 {
        HighlightSkillKind::EcommerceConversion
    } else if i == 1 {
        HighlightSkillKind::ComedyPayoff
    } else if i == 2 {
        HighlightSkillKind::KnowledgeDensity
    } else {
        HighlightSkillKind::StoryEmotion
    }
}

/// Selection from the optional skill `i` on, given the skills chosen so far:
/// each skill some tag calls for is added while fewer than four are chosen.
pub open spec fn spec_select_from(tags: Seq<String>, i: int, chosen: Seq<HighlightSkillKind>) -> Seq<
    HighlightSkillKind,
>
    decreases 4 - i,
{
    if i >= 4 || chosen.len() >= 4 {
        chosen
    } else {
        let next = if spec_tags_call_for(tags, spec_supported(i)) {
            chosen.push(spec_supported(i))
        } else {
            chosen
        };
        spec_select_from(tags, i + 1, next)
    }
}

pub open spec fn spec_select_skills(tags: Seq<String>) -> Seq<HighlightSkillKind> {
    spec_select_from(tags, 0, seq![HighlightSkillKind::GenericHook])
}

/// The documented label table: each optional skill and the three tags that name it.
pub open spec fn spec_documented_label(skill: HighlightSkillKind, label: Seq<char>) -> bool {
    match skill {
        HighlightSkillKind::EcommerceConversion => label == "带货"@ || label == "电商"@ || label
            == "商品"@,
        HighlightSkillKind::ComedyPayoff => label == "搞笑"@ || label == "喜剧"@ || label == "段子"@,
        HighlightSkillKind::KnowledgeDensity => label == "知识"@ || label == "科普"@ || label
            == "教育"@,
        HighlightSkillKind::StoryEmotion => label == "故事"@ || label == "情感"@ || label == "情绪"@,
        HighlightSkillKind::GenericHook => false,
    }
}

proof fn lemma_label_calls_for(label: Seq<char>, skill: HighlightSkillKind, other: HighlightSkillKind)
    requires
        spec_documented_label(skill, label),
    ensures
        (exists|j: int|
            0 <= j < other.spec_labels().len() && spec_eq_ignore_ascii_case(
                label,
                #[trigger] other.spec_labels()[j],
            )) <==> other == skill,
{
    reveal_strlit("带货");
    reveal_strlit("电商");
    reveal_strlit("商品");
    reveal_strlit("搞笑");
    reveal_strlit("喜剧");
    reveal_strlit("段子");
    reveal_strlit("知识");
    reveal_strlit("科普");
    reveal_strlit("教育");
    reveal_strlit("故事");
    reveal_strlit("情感");
    reveal_strlit("情绪");
    let labels = other.spec_labels();
    if other == skill {
        let j: int = if label == labels[0] {
            0
        } else if label == labels[1] {
            1
        } else {
            2
        };
        assert(labels[j] == label);
        assert(spec_eq_ignore_ascii_case(label, labels[j]));
    } else {
        assert forall|j: int| 0 <= j < labels.len() implies !spec_eq_ignore_ascii_case(
            label,
            #[trigger] labels[j],
        ) by {
            assert(crate::text::spec_ascii_lower(label[0]) != crate::text::spec_ascii_lower(labels[j][0]));
        }
    }
}

/// Each documented label, given alone as a tag, selects exactly the generic
/// skill followed by the skill it names.
pub proof fn lemma_documented_labels_select_their_skill(
    tags: Seq<String>,
    skill: HighlightSkillKind,
)
    requires
        tags.len() == 1,
        spec_documented_label(skill, tags[0]@),
    ensures
        spec_select_skills(tags) == seq![HighlightSkillKind::GenericHook, skill],
{
    let label = tags[0]@;
    assert forall|k: int| 0 <= k < 4 implies (spec_tags_call_for(tags, #[trigger] spec_supported(k))
        <==> spec_supported(k) == skill) by {
        lemma_label_calls_for(label, skill, spec_supported(k));
        if spec_tags_call_for(tags, spec_supported(k)) {
            let (i, j) = choose|i: int, j: int|
                0 <= i < tags.len() && 0 <= j < spec_supported(k).spec_labels().len()
                    && spec_eq_ignore_ascii_case(
                    #[trigger] tags[i]@,
                    #[trigger] spec_supported(k).spec_labels()[j],
                );
            assert(i == 0);
        }
        if spec_supported(k) == skill {
            let j = choose|j: int|
                0 <= j < spec_supported(k).spec_labels().len() && spec_eq_ignore_ascii_case(
                    label,
                    #[trigger] spec_supported(k).spec_labels()[j],
                );
            assert(spec_eq_ignore_ascii_case(tags[0]@, spec_supported(k).spec_labels()[j]));
        }
    }
    let g = seq![HighlightSkillKind::GenericHook];
    assert(spec_tags_call_for(tags, spec_supported(0)) <==> spec_supported(0) == skill);
    assert(spec_tags_call_for(tags, spec_supported(1)) <==> spec_supported(1) == skill);
    assert(spec_tags_call_for(tags, spec_supported(2)) <==> spec_supported(2) == skill);
    assert(spec_tags_call_for(tags, spec_supported(3)) <==> spec_supported(3) == skill);
    reveal_with_fuel(spec_select_from, 5);
    assert(g.push(skill) =~= seq![HighlightSkillKind::GenericHook, skill]);
}

fn tags_call_for(tags: &[String], skill: HighlightSkillKind) -> (r: bool)
    ensures
        r == spec_tags_call_for(tags@, skill),
{
    let mut i: usize = 0;
    while i < tags.len()
        invariant
            i <= tags@.len(),
            forall|k: int, j: int|
                0 <= k < i && 0 <= j < skill.spec_labels().len() ==> !spec_eq_ignore_ascii_case(
                    #[trigger] tags@[k]@,
                    #[trigger] skill.spec_labels()[j],
                ),
        decreases tags.len() - i,
    {
        if skill.has_label(tags[i].as_str()) {
            return true;
        }
        i += 1;
    }
    false
}

/// The generic skill, then each optional skill a tag calls for, at most four in all.
pub fn select_skills(tags: &[String]) -> (r: Vec<HighlightSkillKind>)
    ensures
        r@ == spec_select_skills(tags@),
{
    let mut selected: Vec<HighlightSkillKind> = Vec::new();
    selected.push(HighlightSkillKind::GenericHook);
    let supported = [
        HighlightSkillKind::EcommerceConversion,
        HighlightSkillKind::ComedyPayoff,
        HighlightSkillKind::KnowledgeDensity,
        HighlightSkillKind::StoryEmotion,
    ];
    let mut i: usize = 0;
    while i < 4
        invariant
            i <= 4,
            supported@ == seq![spec_supported(0), spec_supported(1), spec_supported(2), spec_supported(3)],
            spec_select_skills(tags@) == spec_select_from(tags@, i as int, selected@),
            selected@.len() <= 4,
        ensures
            i >= 4 || selected@.len() >= 4,
            spec_select_skills(tags@) == spec_select_from(tags@, i as int, selected@),
        decreases 4 - i,
    {
        if selected.len() >= 4 {
            break;
        }
        let skill = supported[i];
        if tags_call_for(tags, skill) {
            selected.push(skill);
        }
        i += 1;
    }
    selected
}

/// The skill named by a snapshot entry `id@version`.
pub open spec fn spec_skill_named(id: Seq<char>) -> Option<HighlightSkillKind> {
    if id == "generic-hook"@ {
        Some(HighlightSkillKind::GenericHook)
    } else if id == "ecommerce-conversion"@ {
        Some(HighlightSkillKind::EcommerceConversion)
    } else if id == "comedy-payoff"@ {
        Some(HighlightSkillKind::ComedyPayoff)
    } else if id == "knowledge-density"@ {
        Some(HighlightSkillKind::KnowledgeDensity)
    } else if id == "story-emotion"@ {
        Some(HighlightSkillKind::StoryEmotion)
    } else {
        None
    }
}

/// The characters before the first `c`, or all of them.
pub open spec fn spec_before(s: Seq<char>, c: char) -> Seq<char>
    decreases s.len(),
{
    if s.len() == 0 {
        s
    } else if s[0] == c {
        Seq::empty()
    } else {
        seq![s[0]] + spec_before(s.drop_first(), c)
    }
}

/// The known skills of a snapshot, in order; the generic skill alone when none is known.
pub open spec fn spec_skills_from_snapshot(snapshot: Seq<String>) -> Seq<HighlightSkillKind> {
    let known = spec_known_skills(snapshot);
    if known.len() == 0 {
        seq![HighlightSkillKind::GenericHook]
    } else {
        known
    }
}

pub open spec fn spec_known_skills(snapshot: Seq<String>) -> Seq<HighlightSkillKind>
    decreases snapshot.len(),
{
    if snapshot.len() == 0 {
        Seq::empty()
    } else {
        let rest = spec_known_skills(snapshot.drop_last());
        match spec_skill_named(spec_before(snapshot.last()@, '@')) {
            Some(skill) => rest.push(skill),
            None => rest,
        }
    }
}

fn before_at(s: &str) -> (r: String)
    ensures
        r@ == spec_before(s@, '@'),
{
    let chars = to_chars(s);
    let mut k: usize = 0;
    assert(s@.skip(0) =~= s@);
    assert(s@.take(0) + spec_before(s@, '@') =~= spec_before(s@, '@'));
    while k < chars.len() && chars[k] != '@'
        invariant
            k <= chars@.len(),
            chars@ == s@,
            spec_before(s@, '@') == s@.take(k as int) + spec_before(s@.skip(k as int), '@'),
        decreases chars.len() - k,
    {
        assert(s@.skip(k as int).drop_first() =~= s@.skip(k + 1));
        assert(s@.take(k + 1) =~= s@.take(k as int) + seq![s@[k as int]]);
        k += 1;
    }
    assert(spec_before(s@.skip(k as int), '@') =~= Seq::<char>::empty()) by {
        if k < chars.len() {
            assert(s@.skip(k as int)[0] == '@');
        } else {
            assert(s@.skip(k as int).len() == 0);
        }
    }
    from_chars(&chars.as_slice()[0..k])
}

fn skill_named(id: &str) -> (r: Option<HighlightSkillKind>)
    ensures
        r == spec_skill_named(id@),
{
    if str_eq(id, "generic-hook") {
        Some(HighlightSkillKind::GenericHook)
    } else if str_eq(id, "ecommerce-conversion") {
        Some(HighlightSkillKind::EcommerceConversion)
    } else if str_eq(id, "comedy-payoff") {
        Some(HighlightSkillKind::ComedyPayoff)
    } else if str_eq(id, "knowledge-density") {
        Some(HighlightSkillKind::KnowledgeDensity)
    } else if str_eq(id, "story-emotion") {
        Some(HighlightSkillKind::StoryEmotion)
    } else {
        None
    }
}

/// The skills recorded in a run's snapshot (`id@version` entries).
pub fn skills_from_snapshot(snapshot: &[String]) -> (r: Vec<HighlightSkillKind>)
    ensures
        r@ == spec_skills_from_snapshot(snapshot@),
{
    let mut skills: Vec<HighlightSkillKind> = Vec::new();
    let mut i: usize = 0;
    while i < snapshot.len()
        invariant
            i <= snapshot@.len(),
            skills@ == spec_known_skills(snapshot@.take(i as int)),
        decreases snapshot.len() - i,
    {
        assert(snapshot@.take(i + 1).drop_last() =~= snapshot@.take(i as int));
        let id = before_at(snapshot[i].as_str());
        match skill_named(id.as_str()) {
            Some(skill) => skills.push(skill),
            None => {},
        }
        i += 1;
    }
    assert(snapshot@.take(snapshot@.len() as int) =~= snapshot@);
    if skills.len() == 0 {
        skills.push(HighlightSkillKind::GenericHook);
    }
    skills
}

/// The entry a run's snapshot records for a skill: `id@version`.
pub fn skill_snapshot_entry(skill: HighlightSkillKind) -> (r: String)
    ensures
        r@ == skill.spec_id() + seq!['@'] + skill.spec_version(),
{
    let mut r = String::new();
    r.append(skill.id());
    push_char(&mut r, '@');
    r.append(skill.version());
    r
}

/// What `serde_json::to_vec` gives for a list of strings: always the UTF-8 bytes of their JSON array.
pub open spec fn spec_json_string_list(items: Seq<Seq<char>>) -> Option<Seq<u8>> {
    Some(encode_utf8(crate::json::spec_json_list(items)))
}

pub open spec fn opt_bytes(o: Option<Vec<u8>>) -> Option<Seq<u8>> {
    match o {
        Some(v) => Some(v@),
        None => None,
    }
}

/// Calls `serde_json::to_vec` on a list of strings. Its contract claims that
/// the call succeeds (a string never fails to serialize and writing to a `Vec`
/// never fails) and gives the UTF-8 bytes of the compact JSON array that
/// `spec_json_list` describes, as `serde_json`'s serializer, compact
/// formatter and escape table write it.
#[verifier::external_body]
fn json_string_list(items: &[String]) -> (r: Option<Vec<u8>>)
    ensures
        opt_bytes(r) == spec_json_string_list(strings_view(items@)),
{
    serde_json::to_vec(items).ok()
}

/// `id|version` of each skill, joined with `|`.
pub open spec fn spec_skill_line(skills: Seq<HighlightSkillKind>) -> Seq<char> {
    spec_join(
        Seq::new(
            2 * skills.len(),
            |k: int|
                if k % 2 == 0 {
                    skills[k / 2].spec_id()
                } else {
                    skills[k / 2].spec_version()
                },
        ),
        "|"@,
    )
}

fn skill_line(skills: &[HighlightSkillKind]) -> (r: String)
    requires
        2 * skills@.len() <= usize::MAX,
    ensures
        r@ == spec_skill_line(skills@),
{
    let mut parts: Vec<String> = Vec::new();
    let mut i: usize = 0;
    while i < skills.len()
        invariant
            i <= skills@.len(),
            2 * skills@.len() <= usize::MAX,
            strings_view(parts@) == Seq::new(
                2 * i as nat,
                |k: int|
                    if k % 2 == 0 {
                        skills@[k / 2].spec_id()
                    } else {
                        skills@[k / 2].spec_version()
                    },
            ),
        decreases skills.len() - i,
    {
        let ghost before = strings_view(parts@);
        push_string(&mut parts, String::from_str(skills[i].id()));
        push_string(&mut parts, String::from_str(skills[i].version()));
        assert(strings_view(parts@) =~= Seq::new(
            2 * (i + 1) as nat,
            |k: int|
                if k % 2 == 0 {
                    skills@[k / 2].spec_id()
                } else {
                    skills@[k / 2].spec_version()
                },
        ));
        i += 1;
    }
    join(&parts, "|")
}

pub open spec fn spec_opt_chars(o: Option<Seq<char>>) -> Seq<char> {
    match o {
        Some(s) => s,
        None => Seq::empty(),
    }
}

pub open spec fn spec_opt_or_empty(o: Option<Seq<u8>>) -> Seq<u8> {
    match o {
        Some(s) => s,
        None => Seq::empty(),
    }
}

/// The bytes a run fingerprint hashes: the project id (little endian), the
/// serialized segments, the serialized tags, the skill line, the model, the
/// prompt version, the goal and the result policy version.
pub open spec fn spec_analysis_input(
    project_id: i64,
    segments_json: Seq<u8>,
    tags: Seq<String>,
    skills: Seq<HighlightSkillKind>,
    model_id: Seq<char>,
    prompt_version: Seq<char>,
    goal: Option<Seq<char>>,
) -> Seq<u8> {
    spec_le_bytes((project_id as u64) as nat, 8) + segments_json + spec_opt_or_empty(
        spec_json_string_list(strings_view(tags)),
    ) + encode_utf8(spec_skill_line(skills)) + encode_utf8(model_id) + encode_utf8(prompt_version)
        + encode_utf8(spec_opt_chars(goal)) + encode_utf8("top-10-resumable-batches-v3"@)
}

/// The hex SHA-256 that identifies an analysis run, so that an unchanged
/// project is not analyzed twice. `segments_json` is the JSON of the segments.
pub fn analysis_fingerprint(
    project_id: i64,
    segments_json: &[u8],
    tags: &[String],
    skills: &[HighlightSkillKind],
    model_id: &str,
    prompt_version: &str,
    goal: Option<&str>,
) -> (r: String)
    requires
        2 * skills@.len() <= usize::MAX,
    ensures
        r@ == spec_hex(
            spec_sha256(
                spec_analysis_input(
                    project_id,
                    segments_json@,
                    tags@,
                    skills@,
                    model_id@,
                    prompt_version@,
                    match goal {
                        Some(g) => Some(g@),
                        None => None,
                    },
                ),
            ),
        ),
{
    let mut bytes: Vec<u8> = Vec::new();
    push_le_u64(&mut bytes, project_id as u64);
    push_slice(&mut bytes, segments_json);
    match json_string_list(tags) {
        Some(json) => push_slice(&mut bytes, json.as_slice()),
        None => {},
    }
    let line = skill_line(skills);
    push_bytes(&mut bytes, line.as_str());
    push_bytes(&mut bytes, model_id);
    push_bytes(&mut bytes, prompt_version);
    match goal {
        Some(g) => push_bytes(&mut bytes, g),
        None => {
            assert(encode_utf8(Seq::<char>::empty()) =~= Seq::<u8>::empty());
            assert(bytes@ + encode_utf8(Seq::<char>::empty()) =~= bytes@);
        },
    }
    push_bytes(&mut bytes, RESULT_POLICY_VERSION);
    let digest = sha256(bytes.as_slice());
    hex_encode(digest.as_slice())
}

/// Errors worth another attempt at the same chunk.
pub open spec fn spec_retryable(error: LlmError) -> bool {
    error is Temporary || error is Provider || error is InvalidResponse
}

pub fn retryable(error: &LlmError) -> (r: bool)
    ensures
        r == spec_retryable(*error),
{
    match error {
        LlmError::Temporary | LlmError::Provider | LlmError::InvalidResponse => true,
        _ => false,
    }
}

/// The code under which a failed chunk or run is recorded.
pub open spec fn spec_llm_error_code(error: LlmError) -> Seq<char> {
    match error {
        LlmError::InvalidConfiguration(_) => "highlight_invalid_configuration"@,
        LlmError::Credential => "highlight_credential_unavailable"@,
        LlmError::Temporary => "highlight_provider_timeout"@,
        LlmError::InvalidResponse => "highlight_invalid_response"@,
        LlmError::Cancelled => "highlight_cancelled"@,
        LlmError::Provider => "highlight_provider_failed"@,
        LlmError::Repository(_) => "highlight_repository_failed"@,
    }
}

pub fn llm_error_code(error: &LlmError) -> (r: &'static str)
    ensures
        r@ == spec_llm_error_code(*error),
{
    match error {
        LlmError::InvalidConfiguration(_) => "highlight_invalid_configuration",
        LlmError::Credential => "highlight_credential_unavailable",
        LlmError::Temporary => "highlight_provider_timeout",
        LlmError::InvalidResponse => "highlight_invalid_response",
        LlmError::Cancelled => "highlight_cancelled",
        LlmError::Provider => "highlight_provider_failed",
        LlmError::Repository(_) => "highlight_repository_failed",
    }
}

/// What the workflow does with a stored chunk before any request is made.
#[derive(Debug, Clone, PartialEq, Eq)]
pub enum ChunkStep {
    /// Already completed in an earlier execution.
    Skip,
    /// Recorded as failed without a request.
    Fail { code: &'static str, message: &'static str },
    /// Sent to the candidate agent.
    Analyze,
}

/// A completed chunk is skipped; after three consecutive failed chunks the
/// circuit is open and the remaining chunks fail at once; a chunk whose
/// segments can no longer all be resolved fails; any other chunk is analyzed.
pub fn plan_chunk(
    status: &str,
    consecutive_failures: usize,
    resolved_segments: usize,
    referenced_segments: usize,
) -> (r: ChunkStep)
    ensures
        status@ == "completed"@ ==> r == ChunkStep::Skip,
        status@ != "completed"@ && consecutive_failures >= MAX_CONSECUTIVE_CHUNK_FAILURES ==> (r matches ChunkStep::Fail {
            code,
            message,
        } && code@ == "highlight_provider_circuit_open"@ && message@
            == "Provider 连续多批不可用，剩余批次已暂停，可稍后重试"@),
        status@ != "completed"@ && consecutive_failures < MAX_CONSECUTIVE_CHUNK_FAILURES
            && resolved_segments != referenced_segments ==> (r matches ChunkStep::Fail {
            code,
            message,
        } && code@ == "highlight_segments_missing"@ && message@ == "批次引用的 ASR 句段已经不可用"@),
        status@ != "completed"@ && consecutive_failures < MAX_CONSECUTIVE_CHUNK_FAILURES
            && resolved_segments == referenced_segments ==> r == ChunkStep::Analyze,
{
    if str_eq(status, "completed") {
        ChunkStep::Skip
    } else if consecutive_failures >= MAX_CONSECUTIVE_CHUNK_FAILURES {
        ChunkStep::Fail {
            code: "highlight_provider_circuit_open",
            message: "Provider 连续多批不可用，剩余批次已暂停，可稍后重试",
        }
    } else if resolved_segments != referenced_segments {
        ChunkStep::Fail {
            code: "highlight_segments_missing",
            message: "批次引用的 ASR 句段已经不可用",
        }
    } else {
        ChunkStep::Analyze
    }
}

/// Whether a failed request for a chunk is tried again: while attempts remain
/// and the error is retryable.
pub fn retry_after(attempt: usize, error: &LlmError) -> (r: bool)
    ensures
        r == (attempt + 1 < MAX_CHUNK_ATTEMPTS && spec_retryable(*error)),
{
    attempt < MAX_CHUNK_ATTEMPTS - 1 && retryable(error)
}

/// How a chunk ends once its attempts are over.
#[derive(Debug, Clone, PartialEq, Eq)]
pub enum ChunkSettlement {
    /// Its candidates were stored.
    Completed,
    /// Recorded as failed with this code and message.
    Failed { code: &'static str, message: String },
    /// The whole execution stops with this error.
    Abort(LlmError),
}

/// Settles a chunk given the error of its last attempt, if any, and keeps the
/// count of consecutive failed chunks: reset by a success, raised by a failure,
/// untouched by a cancellation, which aborts the execution.
pub fn settle_chunk(consecutive_failures: &mut usize, final_error: Option<LlmError>) -> (r:
    ChunkSettlement)
    requires
        *old(consecutive_failures) < usize::MAX,
    ensures
        final_error is None ==> r == ChunkSettlement::Completed && *final(consecutive_failures)
            == 0,
        final_error == Some(LlmError::Cancelled) ==> r == ChunkSettlement::Abort(LlmError::Cancelled)
            && *final(consecutive_failures) == *old(consecutive_failures),
        (final_error matches Some(e) && !(e is Cancelled)) ==> (r matches ChunkSettlement::Failed {
            code,
            message,
        } && code@ == spec_llm_error_code(final_error->0) && message@ == final_error->0.spec_message()
            && *final(consecutive_failures) == *old(consecutive_failures) + 1),
{
    match final_error {
        None => {
            *consecutive_failures = 0;
            ChunkSettlement::Completed
        },
        Some(error) => {
            if let LlmError::Cancelled = error {
                ChunkSettlement::Abort(error)
            } else {
                let code = llm_error_code(&error);
                let message = error.message();
                *consecutive_failures = *consecutive_failures + 1;
                ChunkSettlement::Failed { code, message }
            }
        },
    }
}

/// The status of a run that produced no candidate: failed when every batch
/// failed, partial when some did, completed otherwise; with an error record
/// whenever a batch failed.
pub fn status_without_candidates(failed_batches: u64, total_batches: u64) -> (r: (
    AiHighlightRunStatus,
    Option<(&'static str, &'static str)>,
))
    ensures
        failed_batches == total_batches ==> r.0 == AiHighlightRunStatus::Failed,
        failed_batches != total_batches && failed_batches > 0 ==> r.0
            == AiHighlightRunStatus::Partial,
        failed_batches != total_batches && failed_batches == 0 ==> r.0
            == AiHighlightRunStatus::Completed,
        failed_batches > 0 ==> (r.1 matches Some((code, message)) && code@
            == "highlight_batches_failed"@ && message@ == "部分批次分析失败，且没有生成可用候选"@),
        failed_batches == 0 ==> r.1 is None,
{
    let status = if failed_batches == total_batches {
        AiHighlightRunStatus::Failed
    } else if failed_batches > 0 {
        AiHighlightRunStatus::Partial
    } else {
        AiHighlightRunStatus::Completed
    };
    let error = if failed_batches > 0 {
        Some(("highlight_batches_failed", "部分批次分析失败，且没有生成可用候选"))
    } else {
        None
    };
    (status, error)
}

/// The status of a run whose results were published: partial when a batch or
/// the ranking failed, completed otherwise. A failed ranking is reported
/// before failed batches.
pub fn status_with_results(failed_batches: u64, ranking_failed: bool) -> (r: (
    AiHighlightRunStatus,
    Option<(&'static str, &'static str)>,
))
    ensures
        r.0 == (if failed_batches > 0 || ranking_failed {
            AiHighlightRunStatus::Partial
        } else {
            AiHighlightRunStatus::Completed
        }),
        ranking_failed ==> (r.1 matches Some((code, message)) && code@
            == "highlight_ranking_failed"@ && message@ == "统一评分失败，已按候选分项分数发布备用排序"@),
        !ranking_failed && failed_batches > 0 ==> (r.1 matches Some((code, message)) && code@
            == "highlight_batches_failed"@ && message@ == "部分批次分析失败，已发布其余批次的候选"@),
        !ranking_failed && failed_batches == 0 ==> r.1 is None,
{
    let status = if failed_batches > 0 || ranking_failed {
        AiHighlightRunStatus::Partial
    } else {
        AiHighlightRunStatus::Completed
    };
    let error = if ranking_failed {
        Some(("highlight_ranking_failed", "统一评分失败，已按候选分项分数发布备用排序"))
    } else if failed_batches > 0 {
        Some(("highlight_batches_failed", "部分批次分析失败，已发布其余批次的候选"))
    } else {
        None
    };
    (status, error)
}

/// The status recorded when an execution stops on an error: cancelled for a
/// cancellation, failed otherwise.
pub fn fatal_status(error: &LlmError) -> (r: AiHighlightRunStatus)
    ensures
        r == (if *error is Cancelled {
            AiHighlightRunStatus::Cancelled
        } else {
            AiHighlightRunStatus::Failed
        }),
{
    match error {
        LlmError::Cancelled => AiHighlightRunStatus::Cancelled,
        _ => AiHighlightRunStatus::Failed,
    }
}

/// A candidate proposed by the candidate agent. Its six scores (hook,
/// information, emotion, tag relevance, completeness, shareability) are held
/// as the bit patterns of their IEEE-754 single-precision values.
#[derive(Debug, Clone, PartialEq, Eq)]
pub struct HighlightCandidateDraft {
    pub candidate_key: String,
    pub title: String,
    pub input_id: i64,
    pub segment_ids: Vec<String>,
    pub start_ms: u64,
    pub end_ms: u64,
    pub score_bits: [u32; 6],
    pub reason: String,
    pub matched_tags: Vec<String>,
}

/// The score whose bit pattern is `bits` is a finite number from 0 to 100:
/// a non-negative value up to the pattern of 100.0, or negative zero.
pub open spec fn spec_score_ok(bits: u32) -> bool {
    bits <= 0x42C8_0000 || bits == 0x8000_0000
}

/// The shortest and longest a highlight may last.
pub const MIN_HIGHLIGHT_MS: u64 = 15_000;
pub const MAX_HIGHLIGHT_MS: u64 = 90_000;

/// Index of the first segment with stable id `id`, or -1.
pub open spec fn spec_find_segment(segs: Seq<AnalysisSegment>, id: Seq<char>) -> int
    decreases segs.len(),
{
    if segs.len() == 0 {
        -1
    } else {
        let rest = spec_find_segment(segs.drop_first(), id);
        if segs[0].stable_id@ == id {
            0
        } else if rest < 0 {
            -1
        } else {
            rest + 1
        }
    }
}

/// The earliest start among the segments the ids refer to.
pub open spec fn spec_referenced_start(segs: Seq<AnalysisSegment>, ids: Seq<String>) -> u64
    decreases ids.len(),
{
    if ids.len() <= 1 {
        segs[spec_find_segment(segs, ids[0]@)].start_ms
    } else {
        let rest = spec_referenced_start(segs, ids.drop_last());
        let last = segs[spec_find_segment(segs, ids.last()@)].start_ms;
        if last < rest {
            last
        } else {
            rest
        }
    }
}

/// The latest end among the segments the ids refer to.
pub open spec fn spec_referenced_end(segs: Seq<AnalysisSegment>, ids: Seq<String>) -> u64
    decreases ids.len(),
{
    if ids.len() <= 1 {
        segs[spec_find_segment(segs, ids[0]@)].end_ms
    } else {
        let rest = spec_referenced_end(segs, ids.drop_last());
        let last = segs[spec_find_segment(segs, ids.last()@)].end_ms;
        if last > rest {
            last
        } else {
            rest
        }
    }
}

/// A candidate is acceptable for a chunk when it belongs to the chunk's
/// source, lasts from 15 to 90 seconds, all its scores are finite and within
/// 0..=100, it cites at least one segment and only segments of the chunk,
/// and it lies within the segments it cites.
pub open spec fn spec_candidate_ok(c: HighlightCandidateDraft, chunk: AnalysisChunk) -> bool {
    let segs = chunk.segments@;
    let ids = c.segment_ids@;
    &&& c.input_id == chunk.input_id
    &&& c.end_ms > c.start_ms
    &&& MIN_HIGHLIGHT_MS <= c.end_ms - c.start_ms <= MAX_HIGHLIGHT_MS
    &&& forall|k: int| 0 <= k < 6 ==> spec_score_ok(#[trigger] c.score_bits@[k])
    &&& ids.len() > 0
    &&& forall|k: int| 0 <= k < ids.len() ==> spec_find_segment(segs, #[trigger] ids[k]@) >= 0
    &&& c.start_ms >= spec_referenced_start(segs, ids)
    &&& c.end_ms <= spec_referenced_end(segs, ids)
}

pub open spec fn spec_keys(cands: Seq<HighlightCandidateDraft>) -> Seq<Seq<char>> {
    cands.map_values(|c: HighlightCandidateDraft| c.candidate_key@)
}

/// The candidates kept, in order: the acceptable ones whose key no earlier
/// kept candidate has.
pub open spec fn spec_kept_candidates(
    cands: Seq<HighlightCandidateDraft>,
    chunk: AnalysisChunk,
) -> Seq<HighlightCandidateDraft>
    decreases cands.len(),
{
    if cands.len() == 0 {
        Seq::empty()
    } else {
        let prev = spec_kept_candidates(cands.drop_last(), chunk);
        let c = cands.last();
        if spec_candidate_ok(c, chunk) && !spec_keys(prev).contains(c.candidate_key@) {
            prev.push(c)
        } else {
            prev
        }
    }
}

proof fn lemma_find_segment_range(segs: Seq<AnalysisSegment>, id: Seq<char>)
    ensures
        -1 <= spec_find_segment(segs, id) < segs.len(),
        spec_find_segment(segs, id) >= 0 ==> segs[spec_find_segment(segs, id)].stable_id@ == id,
        spec_find_segment(segs, id) >= 0 ==> forall|q: int|
            0 <= q < spec_find_segment(segs, id) ==> segs[q].stable_id@ != id,
        spec_find_segment(segs, id) < 0 ==> forall|q: int| 0 <= q < segs.len() ==> segs[q].stable_id@ != id,
    decreases segs.len(),
{
    if segs.len() > 0 {
        let d = segs.drop_first();
        lemma_find_segment_range(d, id);
        assert forall|q: int| 1 <= q < segs.len() implies segs[q] == d[q - 1] by {}
    }
}

fn find_segment(segs: &[AnalysisSegment], id: &str) -> (r: Option<usize>)
    ensures
        match r {
            Some(k) => k as int == spec_find_segment(segs@, id@),
            None => spec_find_segment(segs@, id@) == -1,
        },
{
    let mut i: usize = 0;
    proof {
        lemma_find_segment_range(segs@, id@);
    }
    while i < segs.len()
        invariant
            i <= segs@.len(),
            forall|q: int| 0 <= q < i ==> segs@[q].stable_id@ != id@,
            -1 <= spec_find_segment(segs@, id@) < segs@.len(),
            spec_find_segment(segs@, id@) >= 0 ==> segs@[spec_find_segment(segs@, id@)].stable_id@ == id@,
            spec_find_segment(segs@, id@) >= 0 ==> forall|q: int|
                0 <= q < spec_find_segment(segs@, id@) ==> segs@[q].stable_id@ != id@,
            spec_find_segment(segs@, id@) < 0 ==> forall|q: int|
                0 <= q < segs@.len() ==> segs@[q].stable_id@ != id@,
        decreases segs.len() - i,
    {
        if str_eq(segs[i].stable_id.as_str(), id) {
            return Some(i);
        }
        i += 1;
    }
    None
}

fn score_ok(bits: u32) -> (r: bool)
    ensures
        r == spec_score_ok(bits),
{
    bits <= 0x42C8_0000 || bits == 0x8000_0000
}

/// Whether a candidate is acceptable for the chunk.
fn candidate_ok(c: &HighlightCandidateDraft, chunk: &AnalysisChunk) -> (r: bool)
    ensures
        r == spec_candidate_ok(*c, *chunk),
{
    if c.input_id != chunk.input_id || c.end_ms <= c.start_ms {
        return false;
    }
    let length = c.end_ms - c.start_ms;
    if length < MIN_HIGHLIGHT_MS || length > MAX_HIGHLIGHT_MS {
        return false;
    }
    let mut k: usize = 0;
    while k < 6
        invariant
            k <= 6,
            forall|q: int| 0 <= q < k ==> spec_score_ok(#[trigger] c.score_bits@[q]),
        decreases 6 - k,
    {
        if !score_ok(c.score_bits[k]) {
            assert(!spec_score_ok(c.score_bits@[k as int]));
            return false;
        }
        k += 1;
    }
    if c.segment_ids.len() == 0 {
        return false;
    }
    let segs = chunk.segments.as_slice();
    let ghost ids = c.segment_ids@;
    let mut earliest: u64 = 0;
    let mut latest: u64 = 0;
    let mut i: usize = 0;
    while i < c.segment_ids.len()
        invariant
            ids == c.segment_ids@,
            segs@ == chunk.segments@,
            ids.len() > 0,
            i <= ids.len(),
            forall|q: int| 0 <= q < i ==> spec_find_segment(segs@, #[trigger] ids[q]@) >= 0,
            i > 0 ==> earliest == spec_referenced_start(segs@, ids.take(i as int)),
            i > 0 ==> latest == spec_referenced_end(segs@, ids.take(i as int)),
        decreases ids.len() - i,
    {
        let found = find_segment(segs, c.segment_ids[i].as_str());
        proof {
            lemma_find_segment_range(segs@, ids[i as int]@);
        }
        match found {
            None => {
                assert(spec_find_segment(segs@, ids[i as int]@) < 0);
                return false;
            },
            Some(at) => {
                let start = segs[at].start_ms;
                let end = segs[at].end_ms;
                proof {
                    let t = ids.take(i + 1);
                    assert(t.drop_last() =~= ids.take(i as int));
                    assert(t.last() == ids[i as int]);
                    if i == 0 {
                        assert(t[0] == ids[0]);
                    }
                }
                if i == 0 || start < earliest {
                    earliest = start;
                }
                if i == 0 || end > latest {
                    latest = end;
                }
            },
        }
        i += 1;
    }
    assert(ids.take(ids.len() as int) =~= ids);
    c.start_ms >= earliest && c.end_ms <= latest
}

fn keys_contain(keys: &Vec<String>, key: &str) -> (r: bool)
    ensures
        r == strings_view(keys@).contains(key@),
{
    let mut i: usize = 0;
    while i < keys.len()
        invariant
            i <= keys@.len(),
            forall|q: int| 0 <= q < i ==> keys@[q]@ != key@,
        decreases keys.len() - i,
    {
        if str_eq(keys[i].as_str(), key) {
            assert(strings_view(keys@)[i as int] == key@);
            return true;
        }
        i += 1;
    }
    assert forall|q: int| 0 <= q < strings_view(keys@).len() implies strings_view(keys@)[q] != key@ by {
        assert(strings_view(keys@)[q] == keys@[q]@);
    }
    false
}

/// Keeps the candidates acceptable for the chunk, dropping any whose key an
/// earlier kept candidate already has.
pub fn validate_candidates(
    candidates: Vec<HighlightCandidateDraft>,
    chunk: &AnalysisChunk,
) -> (r: Vec<HighlightCandidateDraft>)
    ensures
        r@ == spec_kept_candidates(candidates@, *chunk),
{
    let ghost all = candidates@;
    let mut rest = candidates;
    let mut kept: Vec<HighlightCandidateDraft> = Vec::new();
    let mut keys: Vec<String> = Vec::new();
    let ghost mut i: int = 0;
    while rest.len() > 0
        invariant
            0 <= i <= all.len(),
            rest@ == all.skip(i),
            kept@ == spec_kept_candidates(all.take(i), *chunk),
            strings_view(keys@) == spec_keys(kept@),
        decreases rest.len(),
    {
        let c = rest.remove(0);
        proof {
            assert(c == all[i]);
            assert(all.take(i + 1).drop_last() =~= all.take(i));
            assert(all.take(i + 1).last() == all[i]);
            assert(rest@ =~= all.skip(i + 1));
        }
        if candidate_ok(&c, chunk) && !keys_contain(&keys, c.candidate_key.as_str()) {
            let ghost before_keys = keys@;
            let ghost before_kept = kept@;
            keys.push(c.candidate_key.clone());
            kept.push(c);
            assert(strings_view(keys@) =~= strings_view(before_keys).push(all[i].candidate_key@));
            assert(spec_keys(kept@) =~= spec_keys(before_kept).push(all[i].candidate_key@));
        }
        proof {
            i = i + 1;
        }
    }
    assert(all.take(i) =~= all);
    kept
}

/// Every kept candidate is acceptable for the chunk, and no two kept
/// candidates share a key.
pub proof fn lemma_kept_candidates_are_acceptable_and_distinct(
    cands: Seq<HighlightCandidateDraft>,
    chunk: AnalysisChunk,
)
    ensures
        forall|k: int|
            0 <= k < spec_kept_candidates(cands, chunk).len() ==> spec_candidate_ok(
                #[trigger] spec_kept_candidates(cands, chunk)[k],
                chunk,
            ),
        forall|a: int, b: int|
            0 <= a < b < spec_kept_candidates(cands, chunk).len() ==> (#[trigger] spec_kept_candidates(
                cands,
                chunk,
            )[a]).candidate_key@ != (#[trigger] spec_kept_candidates(cands, chunk)[b]).candidate_key@,
    decreases cands.len(),
{
    if cands.len() > 0 {
        lemma_kept_candidates_are_acceptable_and_distinct(cands.drop_last(), chunk);
        let prev = spec_kept_candidates(cands.drop_last(), chunk);
        let all = spec_kept_candidates(cands, chunk);
        let c = cands.last();
        if spec_candidate_ok(c, chunk) && !spec_keys(prev).contains(c.candidate_key@) {
            assert forall|k: int| 0 <= k < all.len() implies spec_candidate_ok(#[trigger] all[k], chunk) by {
                if k < prev.len() {
                    assert(all[k] == prev[k]);
                }
            }
            assert forall|a: int, b: int| 0 <= a < b < all.len() implies (#[trigger] all[a]).candidate_key@
                != (#[trigger] all[b]).candidate_key@ by {
                assert(all[a] == prev[a]);
                if b < prev.len() {
                    assert(all[b] == prev[b]);
                } else {
                    assert(spec_keys(prev)[a] == prev[a].candidate_key@);
                }
            }
        }
    }
}

/// Analysis needs the user's consent to send the normalized transcript to
/// the provider.
pub fn require_transcript_consent(confirmed: bool) -> (r: Result<(), LlmError>)
    ensures
        r is Ok <==> confirmed,
        r matches Err(e) ==> (e matches LlmError::InvalidConfiguration(m) && m@
            == "必须确认将规范化转写发送给 DeepSeek"@),
{
    if !confirmed {
        return Err(LlmError::InvalidConfiguration(String::from_str("必须确认将规范化转写发送给 DeepSeek")));
    }
    Ok(())
}

/// The analysis segment a projected transcript segment becomes.
pub open spec fn spec_analysis_segment(s: AiTranscriptSegmentProjection) -> AnalysisSegment {
    AnalysisSegment {
        stable_id: s.stable_segment_id,
        input_id: s.input_id,
        start_ms: s.source_start_ms,
        end_ms: s.source_end_ms,
        text: s.normalized_text,
    }
}

/// The segments of the inputs, input after input, each in its order.
pub open spec fn spec_analysis_segments(inputs: Seq<AiTranscriptInputProjection>) -> Seq<AnalysisSegment>
    decreases inputs.len(),
{
    if inputs.len() == 0 {
        Seq::empty()
    } else {
        spec_analysis_segments(inputs.drop_last()) + inputs.last().segments@.map_values(
            |s: AiTranscriptSegmentProjection| spec_analysis_segment(s),
        )
    }
}

/// The normalized transcript of a project, as the analysis reads it.
pub fn analysis_segments(projection: &AiTranscriptProjection) -> (r: Vec<AnalysisSegment>)
    ensures
        r@ == spec_analysis_segments(projection.inputs@),
{
    let inputs = projection.inputs.as_slice();
    let mut out: Vec<AnalysisSegment> = Vec::new();
    let mut i: usize = 0;
    while i < inputs.len()
        invariant
            i <= inputs@.len(),
            out@ == spec_analysis_segments(inputs@.take(i as int)),
        decreases inputs.len() - i,
    {
        let segs = inputs[i].segments.as_slice();
        let ghost base = out@;
        let mut j: usize = 0;
        while j < segs.len()
            invariant
                j <= segs@.len(),
                out@ == base + segs@.take(j as int).map_values(
                    |s: AiTranscriptSegmentProjection| spec_analysis_segment(s),
                ),
            decreases segs.len() - j,
        {
            let s = &segs[j];
            out.push(
                AnalysisSegment {
                    stable_id: s.stable_segment_id.clone(),
                    input_id: s.input_id,
                    start_ms: s.source_start_ms,
                    end_ms: s.source_end_ms,
                    text: s.normalized_text.clone(),
                },
            );
            assert(segs@.take(j + 1).map_values(|s: AiTranscriptSegmentProjection| spec_analysis_segment(s))
                =~= segs@.take(j as int).map_values(
                |s: AiTranscriptSegmentProjection| spec_analysis_segment(s),
            ).push(spec_analysis_segment(segs@[j as int])));
            j += 1;
        }
        assert(segs@.take(segs@.len() as int) =~= segs@);
        assert(inputs@.take(i + 1).drop_last() =~= inputs@.take(i as int));
        i += 1;
    }
    assert(inputs@.take(inputs@.len() as int) =~= inputs@);
    out
}

/// The ranking agent's score of a candidate. Its seven scores (total, hook,
/// information, emotion, tag relevance, completeness, shareability) are held
/// as the bit patterns of their IEEE-754 single-precision values.
#[derive(Debug, Clone, PartialEq, Eq)]
pub struct HighlightCandidateScore {
    pub candidate_key: String,
    pub score_bits: [u32; 7],
    pub rank: u32,
    pub reason: String,
}

/// A score the selection keeps: of a candidate of this run, ranked, with
/// every score finite and within 0..=100.
pub open spec fn spec_score_usable(s: HighlightCandidateScore, keys: Seq<Seq<char>>) -> bool {
    &&& keys.contains(s.candidate_key@)
    &&& s.rank > 0
    &&& forall|k: int| 0 <= k < 7 ==> spec_score_ok(#[trigger] s.score_bits@[k])
}

pub open spec fn spec_score_keys(scores: Seq<HighlightCandidateScore>) -> Seq<Seq<char>> {
    scores.map_values(|s: HighlightCandidateScore| s.candidate_key@)
}

/// The usable scores in order, each candidate's first one only.
pub open spec fn spec_usable_scores(
    scores: Seq<HighlightCandidateScore>,
    keys: Seq<Seq<char>>,
) -> Seq<HighlightCandidateScore>
    decreases scores.len(),
{
    if scores.len() == 0 {
        Seq::empty()
    } else {
        let prev = spec_usable_scores(scores.drop_last(), keys);
        let s = scores.last();
        if spec_score_usable(s, keys) && !spec_score_keys(prev).contains(s.candidate_key@) {
            prev.push(s)
        } else {
            prev
        }
    }
}

/// The order of a usable total score: its value, negative zero counting as zero.
pub open spec fn spec_total_rank(bits: u32) -> u32 {
    if bits == 0x8000_0000 {
        0
    } else {
        bits
    }
}

/// `a` comes before `b`: a higher total score, then a better rank, then the
/// smaller candidate key.
pub open spec fn spec_score_before(a: HighlightCandidateScore, b: HighlightCandidateScore) -> bool {
    let ta = spec_total_rank(a.score_bits@[0]);
    let tb = spec_total_rank(b.score_bits@[0]);
    ta > tb || (ta == tb && (a.rank < b.rank || (a.rank == b.rank && spec_lex_order(
        a.candidate_key@,
        b.candidate_key@,
    ) < 0)))
}

pub open spec fn spec_score_position(sorted: Seq<HighlightCandidateScore>, s: HighlightCandidateScore) -> int
    decreases sorted.len(),
{
    if sorted.len() == 0 {
        0
    } else if spec_score_before(s, sorted[0]) {
        0
    } else {
        1 + spec_score_position(sorted.drop_first(), s)
    }
}

pub open spec fn spec_sort_scores(scores: Seq<HighlightCandidateScore>) -> Seq<HighlightCandidateScore>
    decreases scores.len(),
{
    if scores.len() == 0 {
        Seq::empty()
    } else {
        let s = spec_sort_scores(scores.drop_last());
        s.insert(spec_score_position(s, scores.last()), scores.last())
    }
}

/// The ten best usable scores, best first.
pub open spec fn spec_top_scores(
    scores: Seq<HighlightCandidateScore>,
    keys: Seq<Seq<char>>,
) -> Seq<HighlightCandidateScore> {
    let sorted = spec_sort_scores(spec_usable_scores(scores, keys));
    if sorted.len() > 10 {
        sorted.take(10)
    } else {
        sorted
    }
}

fn score_before(a: &HighlightCandidateScore, b: &HighlightCandidateScore) -> (r: bool)
    ensures
        r == spec_score_before(*a, *b),
{
    let ta = if a.score_bits[0] == 0x8000_0000 {
        0
    } else {
        a.score_bits[0]
    };
    let tb = if b.score_bits[0] == 0x8000_0000 {
        0
    } else {
        b.score_bits[0]
    };
    if ta != tb {
        return ta > tb;
    }
    if a.rank != b.rank {
        return a.rank < b.rank;
    }
    crate::text::lex_order(a.candidate_key.as_str(), b.candidate_key.as_str()) < 0
}

proof fn lemma_score_position(sorted: Seq<HighlightCandidateScore>, s: HighlightCandidateScore, p: int)
    requires
        0 <= p <= sorted.len(),
        forall|q: int| 0 <= q < p ==> !spec_score_before(s, #[trigger] sorted[q]),
        p == sorted.len() || spec_score_before(s, sorted[p]),
    ensures
        spec_score_position(sorted, s) == p,
    decreases sorted.len(),
{
    if sorted.len() > 0 && p > 0 {
        let d = sorted.drop_first();
        assert forall|q: int| 0 <= q < p - 1 implies !spec_score_before(s, #[trigger] d[q]) by {
            assert(d[q] == sorted[q + 1]);
        }
        if p < sorted.len() {
            assert(d[p - 1] == sorted[p]);
        }
        assert(!spec_score_before(s, sorted[0]));
        lemma_score_position(d, s, p - 1);
    }
}

fn insert_score(sorted: &mut Vec<HighlightCandidateScore>, s: HighlightCandidateScore)
    ensures
        final(sorted)@ == old(sorted)@.insert(spec_score_position(old(sorted)@, s), s),
{
    let mut p: usize = 0;
    let mut found = false;
    while !found && p < sorted.len()
        invariant
            p <= sorted@.len(),
            sorted@ == old(sorted)@,
            forall|q: int| 0 <= q < p ==> !spec_score_before(s, #[trigger] sorted@[q]),
            found ==> p < sorted@.len() && spec_score_before(s, sorted@[p as int]),
        decreases sorted.len() - p + if found {
            0int
        } else {
            1int
        },
    {
        if score_before(&s, &sorted[p]) {
            found = true;
        } else {
            p += 1;
        }
    }
    proof {
        lemma_score_position(sorted@, s, p as int);
    }
    sorted.insert(p, s);
}

fn score_usable(s: &HighlightCandidateScore, keys: &[String]) -> (r: bool)
    ensures
        r == spec_score_usable(*s, strings_view(keys@)),
{
    if s.rank == 0 {
        return false;
    }
    let mut k: usize = 0;
    while k < 7
        invariant
            k <= 7,
            forall|q: int| 0 <= q < k ==> spec_score_ok(#[trigger] s.score_bits@[q]),
        decreases 7 - k,
    {
        if !score_ok(s.score_bits[k]) {
            assert(!spec_score_ok(s.score_bits@[k as int]));
            return false;
        }
        k += 1;
    }
    let mut i: usize = 0;
    while i < keys.len()
        invariant
            i <= keys@.len(),
            s.rank > 0,
            forall|q: int| 0 <= q < 7 ==> spec_score_ok(#[trigger] s.score_bits@[q]),
            forall|q: int| 0 <= q < i ==> keys@[q]@ != s.candidate_key@,
        decreases keys.len() - i,
    {
        if str_eq(keys[i].as_str(), s.candidate_key.as_str()) {
            assert(strings_view(keys@)[i as int] == s.candidate_key@);
            return true;
        }
        i += 1;
    }
    assert forall|q: int| 0 <= q < strings_view(keys@).len() implies strings_view(keys@)[q]
        != s.candidate_key@ by {
        assert(strings_view(keys@)[q] == keys@[q]@);
    }
    false
}

/// The ten best scores of the run's candidates: a score is kept when its
/// candidate belongs to the run, it is ranked and its scores are finite and
/// within 0..=100, and no earlier kept score is of the same candidate; the
/// kept ones go best total first, then by rank, then by key.
pub fn select_top_scores(
    scores: Vec<HighlightCandidateScore>,
    candidate_keys: &[String],
) -> (r: Vec<HighlightCandidateScore>)
    ensures
        r@ == spec_top_scores(scores@, strings_view(candidate_keys@)),
{
    let ghost keys = strings_view(candidate_keys@);
    let ghost all = scores@;
    let mut rest = scores;
    let mut kept: Vec<HighlightCandidateScore> = Vec::new();
    let mut kept_keys: Vec<String> = Vec::new();
    let ghost mut i: int = 0;
    while rest.len() > 0
        invariant
            0 <= i <= all.len(),
            keys == strings_view(candidate_keys@),
            rest@ == all.skip(i),
            kept@ == spec_usable_scores(all.take(i), keys),
            strings_view(kept_keys@) == spec_score_keys(kept@),
        decreases rest.len(),
    {
        let s = rest.remove(0);
        proof {
            assert(s == all[i]);
            assert(all.take(i + 1).drop_last() =~= all.take(i));
            assert(all.take(i + 1).last() == all[i]);
            assert(rest@ =~= all.skip(i + 1));
        }
        if score_usable(&s, candidate_keys) && !keys_contain(&kept_keys, s.candidate_key.as_str()) {
            let ghost before_keys = kept_keys@;
            let ghost before_kept = kept@;
            kept_keys.push(s.candidate_key.clone());
            kept.push(s);
            assert(strings_view(kept_keys@) =~= strings_view(before_keys).push(all[i].candidate_key@));
            assert(spec_score_keys(kept@) =~= spec_score_keys(before_kept).push(all[i].candidate_key@));
        }
        proof {
            i = i + 1;
        }
    }
    assert(all.take(i) =~= all);
    let ghost usable = kept@;
    let mut sorted: Vec<HighlightCandidateScore> = Vec::new();
    let mut pending = kept;
    let ghost mut j: int = 0;
    while pending.len() > 0
        invariant
            0 <= j <= usable.len(),
            pending@ == usable.skip(j),
            sorted@ == spec_sort_scores(usable.take(j)),
        decreases pending.len(),
    {
        let s = pending.remove(0);
        proof {
            assert(s == usable[j]);
            assert(usable.take(j + 1).drop_last() =~= usable.take(j));
            assert(usable.take(j + 1).last() == usable[j]);
            assert(pending@ =~= usable.skip(j + 1));
        }
        insert_score(&mut sorted, s);
        proof {
            j = j + 1;
        }
    }
    assert(usable.take(j) =~= usable);
    sorted.truncate(10);
    sorted
}

/// No two scores are of the same candidate.
pub open spec fn spec_distinct_score_keys(s: Seq<HighlightCandidateScore>) -> bool {
    forall|a: int, b: int|
        0 <= a < b < s.len() ==> (#[trigger] s[a]).candidate_key@ != (#[trigger] s[b]).candidate_key@
}

/// No later score comes strictly before an earlier one.
pub open spec fn spec_scores_in_order(s: Seq<HighlightCandidateScore>) -> bool {
    forall|a: int, b: int| 0 <= a < b < s.len() ==> !spec_score_before(#[trigger] s[b], #[trigger] s[a])
}

proof fn lemma_score_before_transitive(
    a: HighlightCandidateScore,
    b: HighlightCandidateScore,
    c: HighlightCandidateScore,
)
    requires
        spec_score_before(a, b),
        spec_score_before(b, c),
    ensures
        spec_score_before(a, c),
{
    if spec_total_rank(a.score_bits@[0]) == spec_total_rank(b.score_bits@[0]) && spec_total_rank(
        b.score_bits@[0],
    ) == spec_total_rank(c.score_bits@[0]) && a.rank == b.rank && b.rank == c.rank {
        crate::text::lemma_lex_order_transitive(a.candidate_key@, b.candidate_key@, c.candidate_key@);
    }
}

proof fn lemma_score_position_props(s: Seq<HighlightCandidateScore>, t: HighlightCandidateScore)
    ensures
        0 <= spec_score_position(s, t) <= s.len(),
        forall|q: int| 0 <= q < spec_score_position(s, t) ==> !spec_score_before(t, #[trigger] s[q]),
        spec_score_position(s, t) < s.len() ==> spec_score_before(t, s[spec_score_position(s, t)]),
    decreases s.len(),
{
    if s.len() > 0 && !spec_score_before(t, s[0]) {
        let d = s.drop_first();
        lemma_score_position_props(d, t);
        assert forall|q: int| 0 <= q < spec_score_position(s, t) implies !spec_score_before(
            t,
            #[trigger] s[q],
        ) by {
            if q > 0 {
                assert(s[q] == d[q - 1]);
            }
        }
        if spec_score_position(s, t) < s.len() {
            assert(s[spec_score_position(s, t)] == d[spec_score_position(d, t)]);
        }
    }
}

proof fn lemma_sorted_scores(u: Seq<HighlightCandidateScore>)
    requires
        spec_distinct_score_keys(u),
    ensures
        spec_sort_scores(u).len() == u.len(),
        forall|x: HighlightCandidateScore|
            #![trigger spec_sort_scores(u).contains(x)]
            #![trigger u.contains(x)]
            spec_sort_scores(u).contains(x) <==> u.contains(x),
        spec_distinct_score_keys(spec_sort_scores(u)),
        spec_scores_in_order(spec_sort_scores(u)),
    decreases u.len(),
{
    if u.len() > 0 {
        let u2 = u.drop_last();
        assert forall|a: int, b: int| 0 <= a < b < u2.len() implies (#[trigger] u2[a]).candidate_key@
            != (#[trigger] u2[b]).candidate_key@ by {
            assert(u2[a] == u[a] && u2[b] == u[b]);
        }
        lemma_sorted_scores(u2);
        let prev = spec_sort_scores(u2);
        let t = u.last();
        let p = spec_score_position(prev, t);
        lemma_score_position_props(prev, t);
        let next = prev.insert(p, t);
        assert(spec_sort_scores(u) == next);
        assert forall|x: HighlightCandidateScore|
            #![trigger next.contains(x)]
            #![trigger u.contains(x)]
            next.contains(x) <==> u.contains(x) by {
            if next.contains(x) {
                let k = choose|k: int| 0 <= k < next.len() && next[k] == x;
                if k == p {
                    assert(u[u.len() - 1] == x);
                } else {
                    let j = if k < p {
                        k
                    } else {
                        k - 1
                    };
                    assert(prev[j] == x);
                    assert(prev.contains(x));
                    let m = choose|m: int| 0 <= m < u2.len() && u2[m] == x;
                    assert(u[m] == x);
                }
            }
            if u.contains(x) {
                let k = choose|k: int| 0 <= k < u.len() && u[k] == x;
                if k == u.len() - 1 {
                    assert(next[p] == x);
                } else {
                    assert(u2[k] == x);
                    assert(u2.contains(x));
                    let m = choose|m: int| 0 <= m < prev.len() && prev[m] == x;
                    if m < p {
                        assert(next[m] == x);
                    } else {
                        assert(next[m + 1] == x);
                    }
                }
            }
        }
        assert forall|a: int, b: int| 0 <= a < b < next.len() implies (#[trigger] next[a]).candidate_key@
            != (#[trigger] next[b]).candidate_key@ by {
            if a == p || b == p {
                let o = if a == p {
                    b
                } else {
                    a
                };
                let j = if o < p {
                    o
                } else {
                    o - 1
                };
                assert(next[o] == prev[j]);
                assert(prev.contains(prev[j]));
                assert(u2.contains(prev[j]));
                let m = choose|m: int| 0 <= m < u2.len() && u2[m] == prev[j];
                assert(u[m] == prev[j]);
                assert(u[u.len() - 1] == t);
            } else {
                let ja = if a < p {
                    a
                } else {
                    a - 1
                };
                let jb = if b < p {
                    b
                } else {
                    b - 1
                };
                assert(next[a] == prev[ja]);
                assert(next[b] == prev[jb]);
            }
        }
        assert forall|i: int, j: int| 0 <= i < j < next.len() implies !spec_score_before(
            #[trigger] next[j],
            #[trigger] next[i],
        ) by {
            if j == p {
                assert(next[i] == prev[i]);
                assert(next[j] == t);
            } else if i == p {
                assert(next[i] == t);
                assert(next[j] == prev[j - 1]);
                if spec_score_before(prev[j - 1], t) {
                    assert(spec_score_before(t, prev[p]));
                    lemma_score_before_transitive(prev[j - 1], t, prev[p]);
                    if j - 1 > p {
                        assert(!spec_score_before(prev[j - 1], prev[p]));
                    } else {
                        crate::text::lemma_lex_order_antisymmetric(prev[p].candidate_key@, prev[p].candidate_key@);
                    }
                }
            } else if i < p && j > p {
                assert(next[i] == prev[i]);
                assert(next[j] == prev[j - 1]);
            } else if j < p {
                assert(next[i] == prev[i]);
                assert(next[j] == prev[j]);
            } else {
                assert(next[i] == prev[i - 1]);
                assert(next[j] == prev[j - 1]);
            }
        }
    } else {
        assert(spec_sort_scores(u) =~= u);
    }
}

proof fn lemma_usable_scores(scores: Seq<HighlightCandidateScore>, keys: Seq<Seq<char>>)
    ensures
        spec_distinct_score_keys(spec_usable_scores(scores, keys)),
        forall|k: int|
            0 <= k < spec_usable_scores(scores, keys).len() ==> spec_score_usable(
                #[trigger] spec_usable_scores(scores, keys)[k],
                keys,
            ),
    decreases scores.len(),
{
    if scores.len() > 0 {
        lemma_usable_scores(scores.drop_last(), keys);
        let prev = spec_usable_scores(scores.drop_last(), keys);
        let all = spec_usable_scores(scores, keys);
        let s = scores.last();
        if spec_score_usable(s, keys) && !spec_score_keys(prev).contains(s.candidate_key@) {
            assert forall|k: int| 0 <= k < all.len() implies spec_score_usable(#[trigger] all[k], keys) by {
                if k < prev.len() {
                    assert(all[k] == prev[k]);
                }
            }
            assert forall|a: int, b: int| 0 <= a < b < all.len() implies (#[trigger] all[a]).candidate_key@
                != (#[trigger] all[b]).candidate_key@ by {
                assert(all[a] == prev[a]);
                if b < prev.len() {
                    assert(all[b] == prev[b]);
                } else {
                    assert(spec_score_keys(prev)[a] == prev[a].candidate_key@);
                }
            }
        }
    }
}

/// The selection gives at most ten scores, each usable, one per candidate,
/// best first.
pub proof fn lemma_top_scores_are_usable_distinct_and_ordered(
    scores: Seq<HighlightCandidateScore>,
    keys: Seq<Seq<char>>,
)
    ensures
        spec_top_scores(scores, keys).len() <= 10,
        forall|k: int|
            0 <= k < spec_top_scores(scores, keys).len() ==> spec_score_usable(
                #[trigger] spec_top_scores(scores, keys)[k],
                keys,
            ),
        spec_distinct_score_keys(spec_top_scores(scores, keys)),
        spec_scores_in_order(spec_top_scores(scores, keys)),
{
    lemma_usable_scores(scores, keys);
    let u = spec_usable_scores(scores, keys);
    lemma_sorted_scores(u);
    let sorted = spec_sort_scores(u);
    let top = spec_top_scores(scores, keys);
    assert forall|k: int| 0 <= k < top.len() implies spec_score_usable(#[trigger] top[k], keys) by {
        assert(top[k] == sorted[k]);
        assert(sorted.contains(sorted[k]));
        assert(u.contains(sorted[k]));
        let m = choose|m: int| 0 <= m < u.len() && u[m] == sorted[k];
        assert(spec_score_usable(u[m], keys));
    }
    assert forall|a: int, b: int| 0 <= a < b < top.len() implies (#[trigger] top[a]).candidate_key@
        != (#[trigger] top[b]).candidate_key@ by {
        assert(top[a] == sorted[a] && top[b] == sorted[b]);
    }
    assert forall|a: int, b: int| 0 <= a < b < top.len() implies !spec_score_before(
        #[trigger] top[b],
        #[trigger] top[a],
    ) by {
        assert(top[a] == sorted[a] && top[b] == sorted[b]);
    }
}

} // verus!
