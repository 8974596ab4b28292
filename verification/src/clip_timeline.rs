//! The project timeline of a clip project: its segments laid end to end, with
//! a transition bridge between two adjacent segments wherever one is ready,
//! and the subtitles placed on it through the segment they belong to.

use vstd::prelude::*;

use crate::clip_projection::spec_sat_add;
use crate::domain::{AiClipSegment, AiClipSubtitle, AiClipTimelineUnit, AiClipTimelineUnitKind};
use crate::repository::AiRepositoryError;
use crate::text::{concat_str, decimal_int, spec_decimal_int};

verus! {

/// A transition boundary between two clip segments, as the timeline reads it.
#[derive(Debug, Clone, PartialEq, Eq)]
pub struct ClipTransitionBoundary {
    pub id: i64,
    pub left_stable_id: i64,
    pub right_stable_id: i64,
    pub active: bool,
    pub stale: bool,
    pub asset_key: Option<String>,
    pub asset_version: Option<i64>,
}

impl ClipTransitionBoundary {
    /// An active, current boundary with a chosen material plays a bridge.
    pub open spec fn spec_plays_bridge(&self) -> bool {
        self.active && !self.stale && self.asset_key is Some && self.asset_version is Some
    }

    pub fn plays_bridge(&self) -> (r: bool)
        ensures
            r == self.spec_plays_bridge(),
    {
        self.active && !self.stale && self.asset_key.is_some() && self.asset_version.is_some()
    }
}

/// The material of a bridge between the segments `left_segment_id` and
/// `right_segment_id`, with the download states of its source and preview.
#[derive(Debug, Clone, PartialEq, Eq)]
pub struct ClipBridgeMaterial {
    pub boundary_id: i64,
    pub left_segment_id: i64,
    pub right_segment_id: i64,
    pub title: String,
    pub asset_key: String,
    pub asset_version: i64,
    pub duration_ms: u64,
    pub source_status: String,
    pub preview_status: String,
}

/// The laid-out timeline.
#[derive(Debug, Clone)]
pub struct ClipTimelineLayout {
    pub units: Vec<AiClipTimelineUnit>,
    pub project_duration_ms: u64,
}

/// Length of a segment on the timeline (zero for an inverted range).
pub open spec fn spec_seg_len(s: AiClipSegment) -> int {
    if s.source_end_ms >= s.source_start_ms {
        s.source_end_ms - s.source_start_ms
    } else {
        0
    }
}

/// Index of the bridge material between `left` and `right`, the last one
/// listed when several are, or -1 when there is none.
pub open spec fn spec_bridge_index(bridges: Seq<ClipBridgeMaterial>, left: i64, right: i64) -> int
    decreases bridges.len(),
{
    if bridges.len() == 0 {
        -1
    } else if bridges.last().left_segment_id == left && bridges.last().right_segment_id == right {
        bridges.len() - 1
    } else {
        spec_bridge_index(bridges.drop_last(), left, right)
    }
}

/// Index of the bridge played after segment `i`, or -1.
pub open spec fn spec_bridge_after(
    segs: Seq<AiClipSegment>,
    bridges: Seq<ClipBridgeMaterial>,
    i: int,
) -> int {
    if 0 <= i && i + 1 < segs.len() {
        spec_bridge_index(bridges, segs[i].id, segs[i + 1].id)
    } else {
        -1
    }
}

pub open spec fn spec_bridge_len(
    segs: Seq<AiClipSegment>,
    bridges: Seq<ClipBridgeMaterial>,
    i: int,
) -> int {
    let k = spec_bridge_after(segs, bridges, i);
    if k >= 0 {
        bridges[k].duration_ms as int
    } else {
        0
    }
}

/// Where segment `i` starts on the project timeline; for `i` equal to the
/// number of segments, the project's duration.
pub open spec fn spec_segment_start(
    segs: Seq<AiClipSegment>,
    bridges: Seq<ClipBridgeMaterial>,
    i: nat,
) -> u64
    decreases i, 0nat,
{
    if i == 0 {
        0
    } else {
        spec_sat_add(
            spec_segment_end(segs, bridges, (i - 1) as nat),
            spec_bridge_len(segs, bridges, i - 1),
        )
    }
}

pub open spec fn spec_segment_end(
    segs: Seq<AiClipSegment>,
    bridges: Seq<ClipBridgeMaterial>,
    i: nat,
) -> u64
    decreases i, 1nat,
{
    spec_sat_add(spec_segment_start(segs, bridges, i), spec_seg_len(segs[i as int]))
}

/// Number of timeline units of the first `n` segments.
pub open spec fn spec_unit_count(
    segs: Seq<AiClipSegment>,
    bridges: Seq<ClipBridgeMaterial>,
    n: nat,
) -> nat
    decreases n,
{
    if n == 0 {
        0
    } else {
        spec_unit_count(segs, bridges, (n - 1) as nat) + 1 + if spec_bridge_after(
            segs,
            bridges,
            n - 1,
        ) >= 0 {
            1nat
        } else {
            0nat
        }
    }
}

pub open spec fn spec_segment_unit(
    u: AiClipTimelineUnit,
    s: AiClipSegment,
    start: u64,
    end: u64,
) -> bool {
    &&& u.key@ == "segment:"@ + spec_decimal_int(s.id as int)
    &&& u.kind == AiClipTimelineUnitKind::Segment
    &&& u.project_start_ms == start
    &&& u.project_end_ms == end
    &&& u.clip_segment_id == Some(s.id)
    &&& u.boundary_id is None
    &&& u.title == s.title
    &&& u.asset_key is None
    &&& u.asset_version is None
    &&& u.source_status is None
    &&& u.preview_status is None
}

pub open spec fn spec_bridge_unit(
    u: AiClipTimelineUnit,
    b: ClipBridgeMaterial,
    start: u64,
    end: u64,
) -> bool {
    &&& u.key@ == "bridge:"@ + spec_decimal_int(b.boundary_id as int)
    &&& u.kind == AiClipTimelineUnitKind::Bridge
    &&& u.project_start_ms == start
    &&& u.project_end_ms == end
    &&& u.clip_segment_id is None
    &&& u.boundary_id == Some(b.boundary_id)
    &&& u.title == b.title
    &&& u.asset_key == Some(b.asset_key)
    &&& u.asset_version == Some(b.asset_version)
    &&& u.source_status == Some(b.source_status)
    &&& u.preview_status == Some(b.preview_status)
}

/// `units` are the timeline units of the first `n` segments: for each segment
/// its own unit, followed by the unit of the bridge after it where one plays.
pub open spec fn spec_layout(
    units: Seq<AiClipTimelineUnit>,
    segs: Seq<AiClipSegment>,
    bridges: Seq<ClipBridgeMaterial>,
    n: nat,
) -> bool {
    &&& n <= segs.len()
    &&& units.len() == spec_unit_count(segs, bridges, n)
    &&& forall|i: int|
        #![trigger spec_unit_count(segs, bridges, i as nat)]
        0 <= i < n ==> {
            let k = spec_unit_count(segs, bridges, i as nat) as int;
            let b = spec_bridge_after(segs, bridges, i);
            &&& spec_segment_unit(
                units[k],
                segs[i],
                spec_segment_start(segs, bridges, i as nat),
                spec_segment_end(segs, bridges, i as nat),
            )
            &&& (b >= 0 ==> spec_bridge_unit(
                units[k + 1],
                bridges[b],
                spec_segment_end(segs, bridges, i as nat),
                spec_segment_start(segs, bridges, (i + 1) as nat),
            ))
        }
}

proof fn lemma_bridge_index_range(bridges: Seq<ClipBridgeMaterial>, left: i64, right: i64)
    ensures
        -1 <= spec_bridge_index(bridges, left, right) < bridges.len(),
        spec_bridge_index(bridges, left, right) >= 0 ==> {
            let k = spec_bridge_index(bridges, left, right);
            bridges[k].left_segment_id == left && bridges[k].right_segment_id == right
        },
    decreases bridges.len(),
{
    if bridges.len() > 0 {
        lemma_bridge_index_range(bridges.drop_last(), left, right);
    }
}

fn saturating_add(a: u64, b: u64) -> (r: u64)
    ensures
        r == spec_sat_add(a, b as int),
{
    if a > u64::MAX - b {
        u64::MAX
    } else {
        a + b
    }
}

fn segment_length(s: &AiClipSegment) -> (r: u64)
    ensures
        r == spec_seg_len(*s),
{
    if s.source_end_ms >= s.source_start_ms {
        s.source_end_ms - s.source_start_ms
    } else {
        0
    }
}

/// The bridge material between `left` and `right`, the last one listed.
fn find_bridge(bridges: &[ClipBridgeMaterial], left: i64, right: i64) -> (r: Option<usize>)
    ensures
        match r {
            Some(k) => k as int == spec_bridge_index(bridges@, left, right),
            None => spec_bridge_index(bridges@, left, right) == -1,
        },
{
    let mut j: usize = bridges.len();
    assert(bridges@.take(j as int) =~= bridges@);
    while j > 0
        invariant
            j <= bridges.len(),
            spec_bridge_index(bridges@, left, right) == spec_bridge_index(
                bridges@.take(j as int),
                left,
                right,
            ),
        decreases j,
    {
        let b = &bridges[j - 1];
        assert(bridges@.take(j as int).last() == bridges@[j - 1]);
        assert(bridges@.take(j as int).drop_last() =~= bridges@.take(j - 1));
        if b.left_segment_id == left && b.right_segment_id == right {
            return Some(j - 1);
        }
        j -= 1;
    }
    assert(bridges@.take(0) =~= Seq::<ClipBridgeMaterial>::empty());
    None
}

fn segment_unit(s: &AiClipSegment, start: u64, end: u64) -> (u: AiClipTimelineUnit)
    ensures
        spec_segment_unit(u, *s, start, end),
{
    let id = decimal_int(s.id);
    AiClipTimelineUnit {
        key: concat_str("segment:", id.as_str()),
        kind: AiClipTimelineUnitKind::Segment,
        project_start_ms: start,
        project_end_ms: end,
        clip_segment_id: Some(s.id),
        boundary_id: None,
        title: s.title.clone(),
        asset_key: None,
        asset_version: None,
        source_status: None,
        preview_status: None,
    }
}

fn bridge_unit(b: &ClipBridgeMaterial, start: u64, end: u64) -> (u: AiClipTimelineUnit)
    ensures
        spec_bridge_unit(u, *b, start, end),
{
    let id = decimal_int(b.boundary_id);
    AiClipTimelineUnit {
        key: concat_str("bridge:", id.as_str()),
        kind: AiClipTimelineUnitKind::Bridge,
        project_start_ms: start,
        project_end_ms: end,
        clip_segment_id: None,
        boundary_id: Some(b.boundary_id),
        title: b.title.clone(),
        asset_key: Some(b.asset_key.clone()),
        asset_version: Some(b.asset_version),
        source_status: Some(b.source_status.clone()),
        preview_status: Some(b.preview_status.clone()),
    }
}

/// Lays the segments end to end from zero, each followed by the bridge
/// between it and the next segment where one plays; positions saturate at
/// `u64::MAX`.
pub fn layout_clip_timeline(
    segments: &[AiClipSegment],
    bridges: &[ClipBridgeMaterial],
) -> (r: ClipTimelineLayout)
    ensures
        spec_layout(r.units@, segments@, bridges@, segments@.len()),
        r.project_duration_ms == spec_segment_start(segments@, bridges@, segments@.len()),
{
    let ghost segs = segments@;
    let ghost bs = bridges@;
    let mut units: Vec<AiClipTimelineUnit> = Vec::new();
    let mut cursor: u64 = 0;
    let mut i: usize = 0;
    while i < segments.len()
        invariant
            segs == segments@,
            bs == bridges@,
            i <= segs.len(),
            cursor == spec_segment_start(segs, bs, i as nat),
            spec_layout(units@, segs, bs, i as nat),
        decreases segs.len() - i,
    {
        let s = &segments[i];
        let start = cursor;
        let end = saturating_add(start, segment_length(s));
        assert(end == spec_segment_end(segs, bs, i as nat));
        let ghost before = units@;
        units.push(segment_unit(s, start, end));
        cursor = end;
        let mut bridge_len: u64 = 0;
        if i + 1 < segments.len() {
            let found = find_bridge(bridges, s.id, segments[i + 1].id);
            proof {
                lemma_bridge_index_range(bs, segs[i as int].id, segs[i + 1].id);
            }
            match found {
                Some(k) => {
                    let b = &bridges[k];
                    bridge_len = b.duration_ms;
                    let next = saturating_add(end, b.duration_ms);
                    units.push(bridge_unit(b, end, next));
                    cursor = next;
                },
                None => {},
            }
        }
        proof {
            assert(bridge_len == spec_bridge_len(segs, bs, i as int));
            assert(cursor == spec_sat_add(end, bridge_len as int));
            assert(cursor == spec_segment_start(segs, bs, (i + 1) as nat));
            assert(spec_unit_count(segs, bs, (i + 1) as nat) == spec_unit_count(segs, bs, i as nat)
                + 1 + if spec_bridge_after(segs, bs, i as int) >= 0 {
                1nat
            } else {
                0nat
            });
            assert forall|j: int|
                #![trigger spec_unit_count(segs, bs, j as nat)]
                0 <= j < i + 1 implies {
                    let k = spec_unit_count(segs, bs, j as nat) as int;
                    let b = spec_bridge_after(segs, bs, j);
                    &&& spec_segment_unit(
                        units@[k],
                        segs[j],
                        spec_segment_start(segs, bs, j as nat),
                        spec_segment_end(segs, bs, j as nat),
                    )
                    &&& (b >= 0 ==> spec_bridge_unit(
                        units@[k + 1],
                        bs[b],
                        spec_segment_end(segs, bs, j as nat),
                        spec_segment_start(segs, bs, (j + 1) as nat),
                    ))
                } by {
                if j < i {
                    lemma_unit_count_monotone(segs, bs, (j + 1) as nat, i as nat);
                    let k = spec_unit_count(segs, bs, j as nat) as int;
                    assert(k + 1 < before.len() || spec_bridge_after(segs, bs, j) < 0);
                    assert(units@[k] == before[k]);
                    if spec_bridge_after(segs, bs, j) >= 0 {
                        assert(units@[k + 1] == before[k + 1]);
                    }
                }
            }
        }
        i += 1;
    }
    ClipTimelineLayout { units, project_duration_ms: cursor }
}

proof fn lemma_unit_count_monotone(
    segs: Seq<AiClipSegment>,
    bridges: Seq<ClipBridgeMaterial>,
    a: nat,
    b: nat,
)
    requires
        a <= b,
    ensures
        spec_unit_count(segs, bridges, a) <= spec_unit_count(segs, bridges, b),
        a < b ==> spec_unit_count(segs, bridges, a) < spec_unit_count(segs, bridges, b),
    decreases b - a,
{
    if a < b {
        lemma_unit_count_monotone(segs, bridges, a, (b - 1) as nat);
    }
}

/// Which segment unit a timeline index belongs to.
proof fn lemma_unit_owner(
    segs: Seq<AiClipSegment>,
    bridges: Seq<ClipBridgeMaterial>,
    n: nat,
    k: int,
) -> (i: int)
    requires
        0 <= k < spec_unit_count(segs, bridges, n),
    ensures
        0 <= i < n,
        spec_unit_count(segs, bridges, i as nat) <= k < spec_unit_count(segs, bridges, (i + 1) as nat),
    decreases n,
{
    if k >= spec_unit_count(segs, bridges, (n - 1) as nat) {
        (n - 1) as int
    } else {
        lemma_unit_owner(segs, bridges, (n - 1) as nat, k)
    }
}

/// Where the units of segment `i` lie: the segment's own unit, then the
/// bridge after it where one plays.
pub open spec fn spec_spans(
    units: Seq<AiClipTimelineUnit>,
    segs: Seq<AiClipSegment>,
    bridges: Seq<ClipBridgeMaterial>,
    i: int,
) -> bool {
    let k = spec_unit_count(segs, bridges, i as nat) as int;
    &&& units[k].project_start_ms == spec_segment_start(segs, bridges, i as nat)
    &&& units[k].project_end_ms == spec_segment_end(segs, bridges, i as nat)
    &&& spec_bridge_after(segs, bridges, i) >= 0 ==> {
        &&& units[k + 1].project_start_ms == spec_segment_end(segs, bridges, i as nat)
        &&& units[k + 1].project_end_ms == spec_segment_start(segs, bridges, (i + 1) as nat)
    }
}

proof fn lemma_layout_spans(
    units: Seq<AiClipTimelineUnit>,
    segs: Seq<AiClipSegment>,
    bridges: Seq<ClipBridgeMaterial>,
)
    requires
        spec_layout(units, segs, bridges, segs.len()),
    ensures
        forall|i: int| 0 <= i < segs.len() ==> #[trigger] spec_spans(units, segs, bridges, i),
{
    assert forall|i: int| 0 <= i < segs.len() implies #[trigger] spec_spans(units, segs, bridges, i) by {
        assert(spec_unit_count(segs, bridges, i as nat) >= 0);
    }
}

/// The timeline has neither gaps nor overlaps: its first unit starts at zero,
/// each unit starts where the one before it ends, and the last one ends at the
/// project's duration. There is a unit exactly when there is a segment.
pub proof fn lemma_timeline_units_tile_the_project(
    units: Seq<AiClipTimelineUnit>,
    segs: Seq<AiClipSegment>,
    bridges: Seq<ClipBridgeMaterial>,
)
    requires
        spec_layout(units, segs, bridges, segs.len()),
    ensures
        units.len() == 0 <==> segs.len() == 0,
        units.len() > 0 ==> units[0].project_start_ms == 0,
        units.len() > 0 ==> units.last().project_end_ms == spec_segment_start(
            segs,
            bridges,
            segs.len(),
        ),
        forall|k: int|
            #![trigger units[k]]
            0 <= k < units.len() - 1 ==> units[k].project_end_ms == units[k + 1].project_start_ms,
{
    lemma_layout_spans(units, segs, bridges);
    lemma_spans_tile(units, segs, bridges);
}

#[verifier::spinoff_prover]
proof fn lemma_spans_tile(
    units: Seq<AiClipTimelineUnit>,
    segs: Seq<AiClipSegment>,
    bridges: Seq<ClipBridgeMaterial>,
)
    requires
        units.len() == spec_unit_count(segs, bridges, segs.len()),
        forall|i: int| 0 <= i < segs.len() ==> #[trigger] spec_spans(units, segs, bridges, i),
    ensures
        units.len() == 0 <==> segs.len() == 0,
        units.len() > 0 ==> units[0].project_start_ms == 0,
        units.len() > 0 ==> units.last().project_end_ms == spec_segment_start(
            segs,
            bridges,
            segs.len(),
        ),
        forall|k: int|
            #![trigger units[k]]
            0 <= k < units.len() - 1 ==> units[k].project_end_ms == units[k + 1].project_start_ms,
{
    let n = segs.len();
    if n > 0 {
        lemma_unit_count_monotone(segs, bridges, 1, n);
        let i0 = lemma_unit_owner(segs, bridges, n, 0);
        if i0 > 0 {
            lemma_unit_count_monotone(segs, bridges, 1, i0 as nat);
        }
        assert(i0 == 0);
        assert(spec_spans(units, segs, bridges, 0));
        let last = units.len() - 1;
        let il = lemma_unit_owner(segs, bridges, n, last);
        if il < n - 1 {
            lemma_unit_count_monotone(segs, bridges, (il + 1) as nat, (n - 1) as nat);
        }
        assert(il == n - 1);
        assert(spec_bridge_after(segs, bridges, n - 1) == -1);
        assert(spec_spans(units, segs, bridges, n - 1));
    }
    assert forall|k: int|
        #![trigger units[k]]
        0 <= k < units.len() - 1 implies units[k].project_end_ms == units[k + 1].project_start_ms by {
        let i = lemma_unit_owner(segs, bridges, n, k);
        assert(spec_spans(units, segs, bridges, i));
        if i + 1 == n {
            assert(spec_unit_count(segs, bridges, (i + 1) as nat) == units.len());
            assert(spec_bridge_after(segs, bridges, i) == -1);
        } else {
            assert(spec_spans(units, segs, bridges, i + 1));
        }
    }
}

/// Index of the segment whose placement applies to the segment id `id`: the
/// last segment with that id, or -1.
pub open spec fn spec_segment_index(segs: Seq<AiClipSegment>, id: i64) -> int
    decreases segs.len(),
{
    if segs.len() == 0 {
        -1
    } else if segs.last().id == id {
        segs.len() - 1
    } else {
        spec_segment_index(segs.drop_last(), id)
    }
}

proof fn lemma_segment_index_range(segs: Seq<AiClipSegment>, id: i64)
    ensures
        -1 <= spec_segment_index(segs, id) < segs.len(),
        spec_segment_index(segs, id) >= 0 ==> segs[spec_segment_index(segs, id)].id == id,
        spec_segment_index(segs, id) < 0 ==> forall|i: int| 0 <= i < segs.len() ==> segs[i].id != id,
    decreases segs.len(),
{
    if segs.len() > 0 {
        lemma_segment_index_range(segs.drop_last(), id);
        if segs.last().id != id {
            assert forall|i: int| 0 <= i < segs.len() - 1 implies segs[i] == segs.drop_last()[i] by {}
        }
    }
}

pub open spec fn spec_sat_sub(a: u64, b: u64) -> int {
    if a >= b {
        a - b
    } else {
        0
    }
}

/// `out` is `sub` placed on the timeline through segment `i`, which starts at `start`.
pub open spec fn spec_placed_subtitle(
    out: AiClipSubtitle,
    sub: AiClipSubtitle,
    seg: AiClipSegment,
    start: u64,
) -> bool {
    &&& out.id == sub.id
    &&& out.clip_project_id == sub.clip_project_id
    &&& out.stable_segment_id == sub.stable_segment_id
    &&& out.clip_segment_id == sub.clip_segment_id
    &&& out.input_id == sub.input_id
    &&& out.original_text == sub.original_text
    &&& out.text == sub.text
    &&& out.hidden == sub.hidden
    &&& out.source_start_ms == sub.source_start_ms
    &&& out.source_end_ms == sub.source_end_ms
    &&& out.project_start_ms == spec_sat_add(start, spec_sat_sub(sub.source_start_ms, seg.source_start_ms))
    &&& out.project_end_ms == spec_sat_add(start, spec_sat_sub(sub.source_end_ms, seg.source_start_ms))
}

/// A subtitle refers to a segment that is not in the project.
pub open spec fn spec_has_orphan_subtitle(
    subs: Seq<AiClipSubtitle>,
    segs: Seq<AiClipSegment>,
) -> bool {
    exists|j: int| 0 <= j < subs.len() && spec_segment_index(segs, #[trigger] subs[j].clip_segment_id) < 0
}

fn segment_starts(segments: &[AiClipSegment], bridges: &[ClipBridgeMaterial]) -> (v: Vec<u64>)
    ensures
        v.len() == segments.len(),
        forall|i: int| 0 <= i < v.len() ==> v[i] == spec_segment_start(segments@, bridges@, i as nat),
{
    let mut v: Vec<u64> = Vec::new();
    let mut cursor: u64 = 0;
    let mut i: usize = 0;
    while i < segments.len()
        invariant
            i <= segments.len(),
            v.len() == i,
            cursor == spec_segment_start(segments@, bridges@, i as nat),
            forall|j: int| 0 <= j < i ==> v[j] == spec_segment_start(segments@, bridges@, j as nat),
        decreases segments.len() - i,
    {
        v.push(cursor);
        let s = &segments[i];
        let end = saturating_add(cursor, segment_length(s));
        let mut next = end;
        if i + 1 < segments.len() {
            proof {
                lemma_bridge_index_range(bridges@, segments@[i as int].id, segments@[i + 1].id);
            }
            match find_bridge(bridges, s.id, segments[i + 1].id) {
                Some(k) => {
                    next = saturating_add(end, bridges[k].duration_ms);
                },
                None => {},
            }
        }
        assert(next == spec_segment_start(segments@, bridges@, (i + 1) as nat));
        cursor = next;
        i += 1;
    }
    v
}

fn find_segment(segments: &[AiClipSegment], id: i64) -> (r: Option<usize>)
    ensures
        match r {
            Some(k) => k as int == spec_segment_index(segments@, id),
            None => spec_segment_index(segments@, id) == -1,
        },
{
    let mut j: usize = segments.len();
    assert(segments@.take(j as int) =~= segments@);
    while j > 0
        invariant
            j <= segments.len(),
            spec_segment_index(segments@, id) == spec_segment_index(segments@.take(j as int), id),
        decreases j,
    {
        assert(segments@.take(j as int).last() == segments@[j - 1]);
        assert(segments@.take(j as int).drop_last() =~= segments@.take(j - 1));
        if segments[j - 1].id == id {
            return Some(j - 1);
        }
        j -= 1;
    }
    assert(segments@.take(0) =~= Seq::<AiClipSegment>::empty());
    None
}

/// The `j`-th subtitle of `out` is the `j`-th of `subs` placed through its segment.
pub open spec fn spec_placed_at(
    out: Seq<AiClipSubtitle>,
    subs: Seq<AiClipSubtitle>,
    segs: Seq<AiClipSegment>,
    bridges: Seq<ClipBridgeMaterial>,
    j: int,
) -> bool {
    let i = spec_segment_index(segs, subs[j].clip_segment_id);
    &&& 0 <= i < segs.len()
    &&& spec_placed_subtitle(out[j], subs[j], segs[i], spec_segment_start(segs, bridges, i as nat))
}

/// Places each subtitle on the project timeline through the segment it
/// belongs to: its offset inside the segment's source range is added to
/// where that segment starts. A subtitle of a segment that is not in the
/// project is an integrity error.
pub fn place_subtitles(
    subtitles: &[AiClipSubtitle],
    segments: &[AiClipSegment],
    bridges: &[ClipBridgeMaterial],
) -> (r: Result<Vec<AiClipSubtitle>, AiRepositoryError>)
    ensures
        r is Err <==> spec_has_orphan_subtitle(subtitles@, segments@),
        r matches Err(e) ==> (e matches AiRepositoryError::Integrity(m) && m@ == "工程字幕引用的片段不存在"@),
        r matches Ok(v) ==> {
            &&& v.len() == subtitles.len()
            &&& forall|j: int|
                0 <= j < v.len() ==> #[trigger] spec_placed_at(v@, subtitles@, segments@, bridges@, j)
        },
{
    let starts = segment_starts(segments, bridges);
    let mut out: Vec<AiClipSubtitle> = Vec::new();
    let mut j: usize = 0;
    while j < subtitles.len()
        invariant
            j <= subtitles.len(),
            out.len() == j,
            starts.len() == segments.len(),
            forall|i: int| 0 <= i < starts.len() ==> starts[i] == spec_segment_start(segments@, bridges@, i as nat),
            forall|q: int| 0 <= q < j ==> #[trigger] spec_placed_at(out@, subtitles@, segments@, bridges@, q),
        decreases subtitles.len() - j,
    {
        let sub = &subtitles[j];
        proof {
            lemma_segment_index_range(segments@, sub.clip_segment_id);
        }
        let k = match find_segment(segments, sub.clip_segment_id) {
            Some(k) => k,
            None => {
                assert(spec_has_orphan_subtitle(subtitles@, segments@)) by {
                    assert(spec_segment_index(segments@, subtitles@[j as int].clip_segment_id) < 0);
                }
                return Err(AiRepositoryError::Integrity(String::from_str("工程字幕引用的片段不存在")));
            },
        };
        let seg = &segments[k];
        let start = starts[k];
        let from_start: u64 = if sub.source_start_ms >= seg.source_start_ms {
            sub.source_start_ms - seg.source_start_ms
        } else {
            0
        };
        let from_end: u64 = if sub.source_end_ms >= seg.source_start_ms {
            sub.source_end_ms - seg.source_start_ms
        } else {
            0
        };
        let placed = AiClipSubtitle {
            id: sub.id,
            clip_project_id: sub.clip_project_id,
            stable_segment_id: sub.stable_segment_id.clone(),
            clip_segment_id: sub.clip_segment_id,
            input_id: sub.input_id,
            original_text: sub.original_text.clone(),
            text: sub.text.clone(),
            hidden: sub.hidden,
            source_start_ms: sub.source_start_ms,
            source_end_ms: sub.source_end_ms,
            project_start_ms: saturating_add(start, from_start),
            project_end_ms: saturating_add(start, from_end),
        };
        let ghost old_out = out@;
        out.push(placed);
        assert forall|q: int| 0 <= q < j + 1 implies #[trigger] spec_placed_at(
            out@,
            subtitles@,
            segments@,
            bridges@,
            q,
        ) by {
            if q < j {
                assert(spec_placed_at(old_out, subtitles@, segments@, bridges@, q));
                assert(out@[q] == old_out[q]);
            } else {
                assert(out@[q] == placed);
                assert(k as int == spec_segment_index(segments@, subtitles@[q].clip_segment_id));
            }
        }
        j += 1;
    }
    proof {
        if spec_has_orphan_subtitle(subtitles@, segments@) {
            let q = choose|q: int|
                0 <= q < subtitles.len() && spec_segment_index(
                    segments@,
                    #[trigger] subtitles@[q].clip_segment_id,
                ) < 0;
            assert(spec_placed_at(out@, subtitles@, segments@, bridges@, q));
        }
    }
    Ok(out)
}

/// A subtitle whose source range lies inside the source range of its segment
/// lies, once placed, inside that segment's stretch of the timeline.
pub proof fn lemma_placed_subtitle_lies_inside_its_segment(
    out: AiClipSubtitle,
    sub: AiClipSubtitle,
    segs: Seq<AiClipSegment>,
    bridges: Seq<ClipBridgeMaterial>,
    i: int,
)
    requires
        0 <= i < segs.len(),
        spec_placed_subtitle(out, sub, segs[i], spec_segment_start(segs, bridges, i as nat)),
        segs[i].source_start_ms <= sub.source_start_ms,
        sub.source_start_ms <= sub.source_end_ms,
        sub.source_end_ms <= segs[i].source_end_ms,
    ensures
        spec_segment_start(segs, bridges, i as nat) <= out.project_start_ms,
        out.project_start_ms <= out.project_end_ms,
        out.project_end_ms <= spec_segment_end(segs, bridges, i as nat),
{
}

/// Some subtitle belongs to the segment `id`.
pub open spec fn spec_has_subtitle(subs: Seq<AiClipSubtitle>, id: i64) -> bool {
    exists|q: int| 0 <= q < subs.len() && #[trigger] subs[q].clip_segment_id == id
}

/// Every segment has at least one subtitle, and there is a segment.
pub open spec fn spec_subtitles_complete(
    segs: Seq<AiClipSegment>,
    subs: Seq<AiClipSubtitle>,
) -> bool {
    &&& segs.len() > 0
    &&& forall|i: int| 0 <= i < segs.len() ==> spec_has_subtitle(subs, #[trigger] segs[i].id)
}

/// Segment `i` is referenced by some subtitle.
pub open spec fn spec_segment_referenced(segs: Seq<AiClipSegment>, subs: Seq<AiClipSubtitle>, i: int) -> bool {
    exists|q: int| 0 <= q < subs.len() && #[trigger] subs[q].clip_segment_id == segs[i].id
}

/// A project's subtitles are complete exactly when it has a segment and every
/// segment, wherever it stands, is referenced by some subtitle: one segment
/// without a subtitle makes the whole project incomplete.
pub proof fn lemma_completeness_needs_every_segment(
    segs: Seq<AiClipSegment>,
    subs: Seq<AiClipSubtitle>,
)
    ensures
        spec_subtitles_complete(segs, subs) <==> (segs.len() > 0 && forall|i: int|
            0 <= i < segs.len() ==> #[trigger] spec_segment_referenced(segs, subs, i)),
        forall|i: int|
            0 <= i < segs.len() && !#[trigger] spec_segment_referenced(segs, subs, i)
                ==> !spec_subtitles_complete(segs, subs),
{
    if spec_subtitles_complete(segs, subs) {
        assert forall|i: int| 0 <= i < segs.len() implies #[trigger] spec_segment_referenced(segs, subs, i) by {
            assert(spec_has_subtitle(subs, segs[i].id));
        }
    }
    if segs.len() > 0 && forall|i: int| 0 <= i < segs.len() ==> #[trigger] spec_segment_referenced(segs, subs, i) {
        assert forall|i: int| 0 <= i < segs.len() implies spec_has_subtitle(subs, #[trigger] segs[i].id) by {
            assert(spec_segment_referenced(segs, subs, i));
        }
    }
}

pub fn subtitles_complete(segments: &[AiClipSegment], subtitles: &[AiClipSubtitle]) -> (r: bool)
    ensures
        r == spec_subtitles_complete(segments@, subtitles@),
{
    if segments.len() == 0 {
        return false;
    }
    let mut i: usize = 0;
    while i < segments.len()
        invariant
            i <= segments@.len(),
            segments@.len() > 0,
            forall|a: int| 0 <= a < i ==> spec_has_subtitle(subtitles@, #[trigger] segments@[a].id),
        decreases segments.len() - i,
    {
        let id = segments[i].id;
        let mut found = false;
        let mut j: usize = 0;
        while j < subtitles.len() && !found
            invariant
                j <= subtitles@.len(),
                found ==> spec_has_subtitle(subtitles@, id),
                !found ==> forall|q: int| 0 <= q < j ==> #[trigger] subtitles@[q].clip_segment_id != id,
            decreases subtitles.len() - j,
        {
            if subtitles[j].clip_segment_id == id {
                found = true;
            }
            j += 1;
        }
        if !found {
            assert(!spec_has_subtitle(subtitles@, segments@[i as int].id));
            return false;
        }
        i += 1;
    }
    true
}

} // verus!
