//! The first subtitles of a clip project: each clip segment takes the
//! transcript segments of its input that overlap it, in transcript order,
//! clipped to the segment and placed on the project timeline.

use std::collections::HashMap;

use vstd::prelude::*;

use crate::domain::{AiClipSegment, AiClipSubtitle, TranscriptSegment};
use crate::text::{lex_order, spec_lex_order, spec_trim, trim};

verus! {

broadcast use vstd::std_specs::hash::group_hash_axioms;

impl TranscriptSegment {
    pub fn duplicate(&self) -> (r: TranscriptSegment)
        ensures
            r == *self,
    {
        TranscriptSegment {
            id: self.id.clone(),
            artifact_id: self.artifact_id,
            ordinal: self.ordinal,
            source_start_ms: self.source_start_ms,
            source_end_ms: self.source_end_ms,
            raw_text: self.raw_text.clone(),
            normalized_text: self.normalized_text.clone(),
            confidence_bits: self.confidence_bits,
        }
    }
}

/// A transcript segment shows in a clip when its text is not blank and it
/// overlaps the clip's source range.
pub open spec fn spec_shows_in(t: TranscriptSegment, clip: AiClipSegment) -> bool {
    spec_trim(t.normalized_text@).len() > 0 && t.source_start_ms < clip.source_end_ms
        && t.source_end_ms > clip.source_start_ms
}

pub open spec fn spec_showing(ts: Seq<TranscriptSegment>, clip: AiClipSegment) -> Seq<TranscriptSegment>
    decreases ts.len(),
{
    if ts.len() == 0 {
        Seq::empty()
    } else {
        let rest = spec_showing(ts.drop_last(), clip);
        if spec_shows_in(ts.last(), clip) {
            rest.push(ts.last())
        } else {
            rest
        }
    }
}

/// Transcript order: by source start, then ordinal, then id.
pub open spec fn spec_transcript_before(a: TranscriptSegment, b: TranscriptSegment) -> bool {
    a.source_start_ms < b.source_start_ms || (a.source_start_ms == b.source_start_ms && (a.ordinal
        < b.ordinal || (a.ordinal == b.ordinal && spec_lex_order(a.id@, b.id@) < 0)))
}

/// Where `t` goes in a sorted list: before the first entry it precedes.
pub open spec fn spec_insert_position(sorted: Seq<TranscriptSegment>, t: TranscriptSegment) -> int
    decreases sorted.len(),
{
    if sorted.len() == 0 {
        0
    } else if spec_transcript_before(t, sorted[0]) {
        0
    } else {
        1 + spec_insert_position(sorted.drop_first(), t)
    }
}

/// The segments in transcript order, equal ones in their given order.
pub open spec fn spec_sort_transcripts(ts: Seq<TranscriptSegment>) -> Seq<TranscriptSegment>
    decreases ts.len(),
{
    if ts.len() == 0 {
        Seq::empty()
    } else {
        let s = spec_sort_transcripts(ts.drop_last());
        s.insert(spec_insert_position(s, ts.last()), ts.last())
    }
}

pub open spec fn spec_clip_start(t: TranscriptSegment, clip: AiClipSegment) -> u64 {
    if t.source_start_ms > clip.source_start_ms {
        t.source_start_ms
    } else {
        clip.source_start_ms
    }
}

pub open spec fn spec_clip_end(t: TranscriptSegment, clip: AiClipSegment) -> u64 {
    if t.source_end_ms < clip.source_end_ms {
        t.source_end_ms
    } else {
        clip.source_end_ms
    }
}

/// The sorted segments that keep a non-empty range once clipped.
pub open spec fn spec_nonempty_clipped(sorted: Seq<TranscriptSegment>, clip: AiClipSegment) -> Seq<
    TranscriptSegment,
>
    decreases sorted.len(),
{
    if sorted.len() == 0 {
        Seq::empty()
    } else {
        let rest = spec_nonempty_clipped(sorted.drop_last(), clip);
        if spec_clip_end(sorted.last(), clip) > spec_clip_start(sorted.last(), clip) {
            rest.push(sorted.last())
        } else {
            rest
        }
    }
}

/// The transcript segments that become subtitles of `clip`, in order.
pub open spec fn spec_emitted(clip: AiClipSegment, ts: Seq<TranscriptSegment>) -> Seq<TranscriptSegment> {
    spec_nonempty_clipped(spec_sort_transcripts(spec_showing(ts, clip)), clip)
}

/// The transcripts recorded for an input, none when it has no entry.
pub open spec fn spec_transcripts_of(m: Map<i64, Vec<TranscriptSegment>>, input_id: i64) -> Seq<
    TranscriptSegment,
> {
    if m.contains_key(input_id) {
        m[input_id]@
    } else {
        Seq::empty()
    }
}

pub open spec fn spec_sat_add(a: u64, b: int) -> u64 {
    if a + b > u64::MAX {
        u64::MAX
    } else {
        (a + b) as u64
    }
}

/// Where each clip starts on the project timeline: the (saturated) sum of the
/// lengths of the clips before it.
pub open spec fn spec_cursor(clips: Seq<AiClipSegment>) -> u64
    decreases clips.len(),
{
    if clips.len() == 0 {
        0
    } else {
        let c = clips.last();
        spec_sat_add(
            spec_cursor(clips.drop_last()),
            if c.source_end_ms >= c.source_start_ms {
                c.source_end_ms - c.source_start_ms
            } else {
                0
            },
        )
    }
}

/// Every subtitle to create, as (index of its clip, its transcript segment).
pub open spec fn spec_all_emitted(clips: Seq<AiClipSegment>, m: Map<i64, Vec<TranscriptSegment>>) -> Seq<
    (int, TranscriptSegment),
>
    decreases clips.len(),
{
    if clips.len() == 0 {
        Seq::empty()
    } else {
        let k = clips.len() - 1;
        spec_all_emitted(clips.drop_last(), m) + spec_emitted(
            clips.last(),
            spec_transcripts_of(m, clips.last().input_id),
        ).map_values(|t: TranscriptSegment| (k, t))
    }
}

/// The subtitle made of `t` in `clip`, which starts at `cursor` on the project timeline.
pub open spec fn spec_subtitle_is(
    s: AiClipSubtitle,
    clip: AiClipSegment,
    t: TranscriptSegment,
    cursor: u64,
) -> bool {
    let start = spec_clip_start(t, clip);
    let end = spec_clip_end(t, clip);
    &&& s.id == 0
    &&& s.clip_project_id == clip.clip_project_id
    &&& s.stable_segment_id == t.id
    &&& s.clip_segment_id == clip.id
    &&& s.input_id == clip.input_id
    &&& s.original_text@ == spec_trim(t.normalized_text@)
    &&& s.text@ == spec_trim(t.normalized_text@)
    &&& !s.hidden
    &&& s.source_start_ms == start
    &&& s.source_end_ms == end
    &&& s.project_start_ms == spec_sat_add(cursor, start - clip.source_start_ms)
    &&& s.project_end_ms == spec_sat_add(cursor, end - clip.source_start_ms)
}

fn transcript_before(a: &TranscriptSegment, b: &TranscriptSegment) -> (r: bool)
    ensures
        r == spec_transcript_before(*a, *b),
{
    if a.source_start_ms != b.source_start_ms {
        return a.source_start_ms < b.source_start_ms;
    }
    if a.ordinal != b.ordinal {
        return a.ordinal < b.ordinal;
    }
    lex_order(a.id.as_str(), b.id.as_str()) < 0
}

proof fn lemma_insert_position(sorted: Seq<TranscriptSegment>, t: TranscriptSegment, p: int)
    requires
        0 <= p <= sorted.len(),
        forall|q: int| 0 <= q < p ==> !spec_transcript_before(t, #[trigger] sorted[q]),
        p == sorted.len() || spec_transcript_before(t, sorted[p]),
    ensures
        spec_insert_position(sorted, t) == p,
    decreases sorted.len(),
{
    if sorted.len() > 0 && p > 0 {
        let d = sorted.drop_first();
        assert forall|q: int| 0 <= q < p - 1 implies !spec_transcript_before(t, #[trigger] d[q]) by {
            assert(d[q] == sorted[q + 1]);
        }
        if p < sorted.len() {
            assert(d[p - 1] == sorted[p]);
        }
        assert(!spec_transcript_before(t, sorted[0]));
        lemma_insert_position(d, t, p - 1);
    }
}

/// Inserts `t` before the first entry it precedes.
fn insert_in_order(sorted: &mut Vec<TranscriptSegment>, t: TranscriptSegment)
    ensures
        final(sorted)@ == old(sorted)@.insert(spec_insert_position(old(sorted)@, t), t),
{
    let mut p: usize = 0;
    let mut found = false;
    while !found && p < sorted.len()
        invariant
            p <= sorted@.len(),
            sorted@ == old(sorted)@,
            forall|q: int| 0 <= q < p ==> !spec_transcript_before(t, #[trigger] sorted@[q]),
            found ==> p < sorted@.len() && spec_transcript_before(t, sorted@[p as int]),
        decreases sorted.len() - p + if found {
            0int
        } else {
            1int
        },
    {
        if transcript_before(&t, &sorted[p]) {
            found = true;
        } else {
            p += 1;
        }
    }
    proof {
        lemma_insert_position(sorted@, t, p as int);
    }
    sorted.insert(p, t);
}

fn shows_in(t: &TranscriptSegment, clip: &AiClipSegment) -> (r: bool)
    ensures
        r == spec_shows_in(*t, *clip),
{
    let text = trim(t.normalized_text.as_str());
    text.unicode_len() > 0 && t.source_start_ms < clip.source_end_ms && t.source_end_ms
        > clip.source_start_ms
}

/// The segments that show in `clip`, in transcript order.
fn showing_in_order(ts: &[TranscriptSegment], clip: &AiClipSegment) -> (r: Vec<TranscriptSegment>)
    ensures
        r@ == spec_sort_transcripts(spec_showing(ts@, *clip)),
{
    let mut out: Vec<TranscriptSegment> = Vec::new();
    let mut i: usize = 0;
    while i < ts.len()
        invariant
            i <= ts@.len(),
            out@ == spec_sort_transcripts(spec_showing(ts@.take(i as int), *clip)),
        decreases ts.len() - i,
    {
        assert(ts@.take(i + 1).drop_last() =~= ts@.take(i as int));
        if shows_in(&ts[i], clip) {
            let t = ts[i].duplicate();
            proof {
                let shown = spec_showing(ts@.take(i + 1), *clip);
                assert(shown == spec_showing(ts@.take(i as int), *clip).push(ts@[i as int]));
                assert(shown.drop_last() =~= spec_showing(ts@.take(i as int), *clip));
            }
            insert_in_order(&mut out, t);
        }
        i += 1;
    }
    assert(ts@.take(ts@.len() as int) =~= ts@);
    out
}

/// Appends the subtitles of `clip`, which starts at `cursor`, made of its sorted segments.
fn push_clip_subtitles(
    out: &mut Vec<AiClipSubtitle>,
    clip: &AiClipSegment,
    sorted: &Vec<TranscriptSegment>,
    cursor: u64,
) -> (count: usize)
    ensures
        final(out)@.len() == old(out)@.len() + spec_nonempty_clipped(sorted@, *clip).len(),
        count == spec_nonempty_clipped(sorted@, *clip).len(),
        forall|k: int| 0 <= k < old(out)@.len() ==> #[trigger] final(out)@[k] == old(out)@[k],
        forall|k: int|
            0 <= k < spec_nonempty_clipped(sorted@, *clip).len() ==> spec_subtitle_is(
                #[trigger] final(out)@[old(out)@.len() + k],
                *clip,
                spec_nonempty_clipped(sorted@, *clip)[k],
                cursor,
            ),
{
    let ghost start_len = out@.len();
    let ghost before = out@;
    let mut count: usize = 0;
    let mut j: usize = 0;
    while j < sorted.len()
        invariant
            j <= sorted@.len(),
            start_len == before.len(),
            count == spec_nonempty_clipped(sorted@.take(j as int), *clip).len(),
            count <= j,
            out@.len() == start_len + count,
            forall|k: int| 0 <= k < start_len ==> #[trigger] out@[k] == before[k],
            forall|k: int|
                0 <= k < count ==> spec_subtitle_is(
                    #[trigger] out@[start_len + k],
                    *clip,
                    spec_nonempty_clipped(sorted@.take(j as int), *clip)[k],
                    cursor,
                ),
        decreases sorted.len() - j,
    {
        let ghost prev = spec_nonempty_clipped(sorted@.take(j as int), *clip);
        assert(sorted@.take(j + 1).drop_last() =~= sorted@.take(j as int));
        let t = &sorted[j];
        let source_start_ms = if t.source_start_ms > clip.source_start_ms {
            t.source_start_ms
        } else {
            clip.source_start_ms
        };
        let source_end_ms = if t.source_end_ms < clip.source_end_ms {
            t.source_end_ms
        } else {
            clip.source_end_ms
        };
        if source_end_ms > source_start_ms {
            let text = trim(t.normalized_text.as_str());
            let subtitle = AiClipSubtitle {
                id: 0,
                clip_project_id: clip.clip_project_id,
                stable_segment_id: t.id.clone(),
                clip_segment_id: clip.id,
                input_id: clip.input_id,
                original_text: text.clone(),
                text,
                hidden: false,
                source_start_ms,
                source_end_ms,
                project_start_ms: cursor.saturating_add(source_start_ms - clip.source_start_ms),
                project_end_ms: cursor.saturating_add(source_end_ms - clip.source_start_ms),
            };
            out.push(subtitle);
            proof {
                let next = spec_nonempty_clipped(sorted@.take(j + 1), *clip);
                assert(next == prev.push(sorted@[j as int]));
                assert forall|k: int| 0 <= k < count + 1 implies spec_subtitle_is(
                    #[trigger] out@[start_len + k],
                    *clip,
                    next[k],
                    cursor,
                ) by {
                    if k < count {
                        assert(next[k] == prev[k]);
                    }
                }
            }
            count += 1;
        } else {
            proof {
                let next = spec_nonempty_clipped(sorted@.take(j + 1), *clip);
                assert(next == prev);
            }
        }
        j += 1;
    }
    assert(sorted@.take(sorted@.len() as int) =~= sorted@);
    count
}

/// The subtitles of a clip project before any edit, and whether every clip
/// got at least one. Each clip takes its input's transcript segments that
/// have text and overlap it, in transcript order, clipped to the clip and
/// placed after the clips before it.
pub fn project_clip_subtitles(
    clip_segments: &[AiClipSegment],
    transcripts_by_input: &HashMap<i64, Vec<TranscriptSegment>>,
) -> (r: (Vec<AiClipSubtitle>, bool))
    ensures
        ({
            let all = spec_all_emitted(clip_segments@, transcripts_by_input@);
            &&& r.0@.len() == all.len()
            &&& forall|k: int|
                0 <= k < all.len() ==> spec_subtitle_is(
                    #[trigger] r.0@[k],
                    clip_segments@[all[k].0],
                    all[k].1,
                    spec_cursor(clip_segments@.take(all[k].0)),
                )
            &&& r.1 == (clip_segments@.len() > 0 && forall|i: int|
                0 <= i < clip_segments@.len() ==> spec_emitted(
                    #[trigger] clip_segments@[i],
                    spec_transcripts_of(transcripts_by_input@, clip_segments@[i].input_id),
                ).len() > 0)
        }),
{
    let ghost clips = clip_segments@;
    let ghost m = transcripts_by_input@;
    let mut subtitles: Vec<AiClipSubtitle> = Vec::new();
    let mut complete = clip_segments.len() > 0;
    let mut cursor: u64 = 0;
    let mut i: usize = 0;
    let empty: Vec<TranscriptSegment> = Vec::new();
    while i < clip_segments.len()
        invariant
            i <= clips.len(),
            clips == clip_segments@,
            m == transcripts_by_input@,
            empty@.len() == 0,
            cursor == spec_cursor(clips.take(i as int)),
            subtitles@.len() == spec_all_emitted(clips.take(i as int), m).len(),
            forall|k: int|
                0 <= k < subtitles@.len() ==> spec_subtitle_is(
                    #[trigger] subtitles@[k],
                    clips[spec_all_emitted(clips.take(i as int), m)[k].0],
                    spec_all_emitted(clips.take(i as int), m)[k].1,
                    spec_cursor(clips.take(spec_all_emitted(clips.take(i as int), m)[k].0)),
                ),
            forall|k: int|
                0 <= k < spec_all_emitted(clips.take(i as int), m).len() ==> 0
                    <= #[trigger] spec_all_emitted(clips.take(i as int), m)[k].0 < i,
            complete == (clips.len() > 0 && forall|q: int|
                0 <= q < i ==> spec_emitted(
                    #[trigger] clips[q],
                    spec_transcripts_of(m, clips[q].input_id),
                ).len() > 0),
        decreases clip_segments.len() - i,
    {
        let clip = &clip_segments[i];
        let transcripts = match transcripts_by_input.get(&clip.input_id) {
            Some(v) => v,
            None => &empty,
        };
        proof {
            assert(transcripts@ == spec_transcripts_of(m, clip.input_id));
        }
        let sorted = showing_in_order(transcripts.as_slice(), clip);
        let ghost before = subtitles@;
        let ghost prev_all = spec_all_emitted(clips.take(i as int), m);
        let count = push_clip_subtitles(&mut subtitles, clip, &sorted, cursor);
        proof {
            let take1 = clips.take(i + 1);
            assert(take1.drop_last() =~= clips.take(i as int));
            assert(take1.last() == clips[i as int]);
            let emitted = spec_emitted(clips[i as int], spec_transcripts_of(m, clips[i as int].input_id));
            let next_all = spec_all_emitted(take1, m);
            assert(next_all == prev_all + emitted.map_values(|t: TranscriptSegment| (i as int, t)));
            assert forall|k: int| 0 <= k < subtitles@.len() implies spec_subtitle_is(
                #[trigger] subtitles@[k],
                clips[next_all[k].0],
                next_all[k].1,
                spec_cursor(clips.take(next_all[k].0)),
            ) by {
                if k < before.len() {
                    assert(next_all[k] == prev_all[k]);
                    assert(subtitles@[k] == before[k]);
                } else {
                    let q = k - before.len();
                    assert(next_all[k] == (i as int, emitted[q]));
                    assert(subtitles@[before.len() + q] == subtitles@[k]);
                }
            }
            assert forall|k: int| 0 <= k < next_all.len() implies 0 <= #[trigger] next_all[k].0 < i
                + 1 by {
                if k < prev_all.len() {
                    assert(next_all[k] == prev_all[k]);
                } else {
                    assert(next_all[k] == (i as int, emitted[k - prev_all.len()]));
                }
            }
        }
        if count == 0 {
            complete = false;
        }
        let length = if clip.source_end_ms >= clip.source_start_ms {
            clip.source_end_ms - clip.source_start_ms
        } else {
            0
        };
        cursor = cursor.saturating_add(length);
        i += 1;
    }
    proof {
        assert(clips.take(clips.len() as int) =~= clips);
    }
    (subtitles, complete)
}

/// Every later segment is not before an earlier one.
pub open spec fn spec_in_transcript_order(s: Seq<TranscriptSegment>) -> bool {
    forall|i: int, j: int|
        0 <= i < j < s.len() ==> !spec_transcript_before(#[trigger] s[j], #[trigger] s[i])
}

proof fn lemma_before_transitive(a: TranscriptSegment, b: TranscriptSegment, c: TranscriptSegment)
    requires
        spec_transcript_before(a, b),
        spec_transcript_before(b, c),
    ensures
        spec_transcript_before(a, c),
{
    if a.source_start_ms == b.source_start_ms && b.source_start_ms == c.source_start_ms
        && a.ordinal == b.ordinal && b.ordinal == c.ordinal {
        crate::text::lemma_lex_order_transitive(a.id@, b.id@, c.id@);
    }
}

proof fn lemma_position_props(s: Seq<TranscriptSegment>, t: TranscriptSegment)
    ensures
        0 <= spec_insert_position(s, t) <= s.len(),
        forall|q: int|
            0 <= q < spec_insert_position(s, t) ==> !spec_transcript_before(t, #[trigger] s[q]),
        spec_insert_position(s, t) < s.len() ==> spec_transcript_before(
            t,
            s[spec_insert_position(s, t)],
        ),
    decreases s.len(),
{
    if s.len() > 0 && !spec_transcript_before(t, s[0]) {
        let d = s.drop_first();
        lemma_position_props(d, t);
        assert forall|q: int| 0 <= q < spec_insert_position(s, t) implies !spec_transcript_before(
            t,
            #[trigger] s[q],
        ) by {
            if q > 0 {
                assert(s[q] == d[q - 1]);
            }
        }
        if spec_insert_position(s, t) < s.len() {
            assert(s[spec_insert_position(s, t)] == d[spec_insert_position(d, t)]);
        }
    }
}

/// Sorting keeps every transcript segment exactly as often as it came and
/// puts them in transcript order.
pub proof fn lemma_sorted_transcripts_are_an_ordered_permutation(ts: Seq<TranscriptSegment>)
    ensures
        spec_in_transcript_order(spec_sort_transcripts(ts)),
        spec_sort_transcripts(ts).to_multiset() == ts.to_multiset(),
    decreases ts.len(),
{
    if ts.len() > 0 {
        let prev = spec_sort_transcripts(ts.drop_last());
        lemma_sorted_transcripts_are_an_ordered_permutation(ts.drop_last());
        let t = ts.last();
        let p = spec_insert_position(prev, t);
        lemma_position_props(prev, t);
        let next = prev.insert(p, t);
        assert forall|i: int, j: int| 0 <= i < j < next.len() implies !spec_transcript_before(
            #[trigger] next[j],
            #[trigger] next[i],
        ) by {
            if j == p {
                assert(next[i] == prev[i]);
                assert(next[j] == t);
                assert(!spec_transcript_before(t, prev[i]));
            } else if i == p {
                assert(next[i] == t);
                assert(next[j] == prev[j - 1]);
                if spec_transcript_before(prev[j - 1], t) {
                    assert(spec_transcript_before(t, prev[p]));
                    lemma_before_transitive(prev[j - 1], t, prev[p]);
                    if j - 1 > p {
                        assert(!spec_transcript_before(prev[j - 1], prev[p]));
                    } else {
                        crate::text::lemma_lex_order_antisymmetric(prev[p].id@, prev[p].id@);
                    }
                }
            } else if i < p && j > p {
                assert(next[i] == prev[i]);
                assert(next[j] == prev[j - 1]);
            } else if j < p {
                assert(next[i] == prev[i]);
                assert(next[j] == prev[j]);
            } else {
                assert(next[i] == prev[i - 1]);
                assert(next[j] == prev[j - 1]);
            }
        }
        vstd::seq_lib::to_multiset_insert(prev, p, t);
        vstd::seq_lib::to_multiset_build(ts.drop_last(), t);
        assert(ts.drop_last().push(t) =~= ts);
        assert(spec_sort_transcripts(ts) == next);
    } else {
        assert(ts =~= Seq::<TranscriptSegment>::empty());
    }
}

proof fn lemma_nonempty_clipped_bounds(sorted: Seq<TranscriptSegment>, clip: AiClipSegment)
    ensures
        forall|k: int|
            0 <= k < spec_nonempty_clipped(sorted, clip).len() ==> {
                let t = #[trigger] spec_nonempty_clipped(sorted, clip)[k];
                clip.source_start_ms <= spec_clip_start(t, clip) < spec_clip_end(t, clip)
                    <= clip.source_end_ms
            },
    decreases sorted.len(),
{
    if sorted.len() > 0 {
        lemma_nonempty_clipped_bounds(sorted.drop_last(), clip);
        let rest = spec_nonempty_clipped(sorted.drop_last(), clip);
        let all = spec_nonempty_clipped(sorted, clip);
        assert forall|k: int| 0 <= k < all.len() implies {
            let t = #[trigger] all[k];
            clip.source_start_ms <= spec_clip_start(t, clip) < spec_clip_end(t, clip)
                <= clip.source_end_ms
        } by {
            if k < rest.len() {
                assert(all[k] == rest[k]);
            }
        }
    }
}

/// Every subtitle projected into a clip lies inside the clip's source range
/// and covers a non-empty part of it.
pub proof fn lemma_projected_subtitles_lie_inside_their_clip(
    clip: AiClipSegment,
    ts: Seq<TranscriptSegment>,
)
    ensures
        forall|k: int|
            0 <= k < spec_emitted(clip, ts).len() ==> {
                let t = #[trigger] spec_emitted(clip, ts)[k];
                clip.source_start_ms <= spec_clip_start(t, clip) < spec_clip_end(t, clip)
                    <= clip.source_end_ms
            },
{
    lemma_nonempty_clipped_bounds(spec_sort_transcripts(spec_showing(ts, clip)), clip);
}

} // verus!
