//! What holds of every resolved subtitle timeline: each frame shows a
//! non-empty leading part of its page and hides the rest, the frames follow
//! one another without overlap and are fully merged, hidden subtitles change
//! nothing, and an empty timeline or an all-hidden list gives no frames.

use vstd::prelude::*;

use crate::clip_subtitle::{
    page_view, pages_view, spec_candidates, spec_display_units, spec_is_attached_punctuation,
    spec_units_state, unit_view, spec_compose, spec_covers, spec_is_boundaries,
    spec_is_endpoint, spec_key_le, spec_mergeable, spec_page_frames, spec_pages_frames,
    spec_plan_subtitle, spec_resolve, spec_resolved, spec_select, spec_units_count, FrameView,
    PageUnit, PlannedView, RevealTiming, SubtitlePage,
};
use crate::domain::AiClipSubtitle;
use crate::timeline::spec_strictly_increasing;

verus! {

/// The visible part followed by the hidden part is the page, and something is visible.
pub open spec fn spec_frame_text_ok(f: FrameView) -> bool {
    f.visible_text + f.hidden_text == f.page_text && f.visible_text.len() > 0
}

/// Every unit of a page has some text.
pub open spec fn spec_units_nonempty(units: Seq<(Seq<char>, bool)>) -> bool {
    forall|k: int| 0 <= k < units.len() ==> (#[trigger] units[k]).0.len() > 0
}

/// Every page laid out for a shown subtitle among the first `n` has units with text.
pub open spec fn spec_layouts_nonempty(
    subs: Seq<AiClipSubtitle>,
    layouts: Seq<Seq<SubtitlePage>>,
    n: int,
) -> bool {
    forall|i: int, p: int|
        0 <= i < n && !subs[i].hidden && 0 <= p < layouts[i].len() ==> spec_units_nonempty(
            #[trigger] page_view(layouts[i][p]),
        )
}

/// The shown subtitles, with their layouts, in their order.
pub open spec fn spec_shown(subs: Seq<AiClipSubtitle>, layouts: Seq<Seq<SubtitlePage>>) -> (
    Seq<AiClipSubtitle>,
    Seq<Seq<SubtitlePage>>,
)
    decreases subs.len(),
{
    if subs.len() == 0 {
        (Seq::empty(), Seq::empty())
    } else {
        let n = subs.len() - 1;
        let (s, l) = spec_shown(subs.drop_last(), layouts);
        if subs[n].hidden {
            (s, l)
        } else {
            (s.push(subs[n]), l.push(layouts[n]))
        }
    }
}

/// The ordering of a resolved timeline: each frame has a positive length and
/// starts no earlier than `lo`, ends no later than `hi`, ends before the next
/// starts, and no two neighbours show the same thing.
pub open spec fn spec_frames_ordered(frames: Seq<FrameView>, lo: u64, hi: u64) -> bool {
    &&& forall|j: int|
        0 <= j < frames.len() ==> lo <= (#[trigger] frames[j]).project_start_ms
            < frames[j].project_end_ms <= hi
    &&& forall|j: int|
        0 <= j < frames.len() - 1 ==> (#[trigger] frames[j]).project_end_ms <= frames[j
            + 1].project_start_ms && !spec_mergeable(frames[j], frames[j + 1])
}

proof fn lemma_compose_split(u: Seq<(Seq<char>, bool)>, v: int, n: int)
    requires
        0 <= v <= n <= u.len(),
    ensures
        spec_compose(u, 0, v) + spec_compose(u, v, n) == spec_compose(u, 0, n),
    decreases n - v,
{
    if n == v {
        assert(spec_compose(u, 0, v) + spec_compose(u, v, n) =~= spec_compose(u, 0, n));
    } else {
        lemma_compose_split(u, v, n - 1);
        let piece = (if u[n - 1].1 {
            seq!['\n']
        } else {
            Seq::empty()
        }) + u[n - 1].0;
        assert(spec_compose(u, v, n) == spec_compose(u, v, n - 1) + (if u[n - 1].1 {
            seq!['\n']
        } else {
            Seq::empty()
        }) + u[n - 1].0);
        assert(spec_compose(u, 0, n) == spec_compose(u, 0, n - 1) + (if u[n - 1].1 {
            seq!['\n']
        } else {
            Seq::empty()
        }) + u[n - 1].0);
        assert(spec_compose(u, 0, v) + spec_compose(u, v, n) =~= spec_compose(u, 0, n));
    }
}

proof fn lemma_compose_nonempty(u: Seq<(Seq<char>, bool)>, v: int)
    requires
        1 <= v <= u.len(),
        spec_units_nonempty(u),
    ensures
        spec_compose(u, 0, v).len() > 0,
{
    assert(u[v - 1].0.len() > 0);
    assert(spec_compose(u, 0, v) == spec_compose(u, 0, v - 1) + (if u[v - 1].1 {
        seq!['\n']
    } else {
        Seq::empty()
    }) + u[v - 1].0);
}

proof fn lemma_page_frames_ok(
    sub: AiClipSubtitle,
    units: Seq<(Seq<char>, bool)>,
    first_index: nat,
    visible: nat,
    t: RevealTiming,
)
    requires
        visible <= units.len(),
        spec_units_nonempty(units),
    ensures
        forall|j: int|
            0 <= j < spec_page_frames(sub, units, first_index, visible, t).len()
                ==> spec_frame_text_ok(
                #[trigger] spec_page_frames(sub, units, first_index, visible, t)[j].frame,
            ),
    decreases visible,
{
    if visible > 0 {
        lemma_page_frames_ok(sub, units, first_index, (visible - 1) as nat, t);
        lemma_compose_split(units, visible as int, units.len() as int);
        lemma_compose_nonempty(units, visible as int);
        let before = spec_page_frames(sub, units, first_index, (visible - 1) as nat, t);
        let r = spec_page_frames(sub, units, first_index, visible, t);
        assert forall|j: int| 0 <= j < r.len() implies spec_frame_text_ok(#[trigger] r[j].frame) by {
            if j < before.len() {
                assert(r[j] == before[j]);
            } else {
                assert(r[j].frame.visible_text == spec_compose(units, 0, visible as int));
                assert(r[j].frame.hidden_text == spec_compose(
                    units,
                    visible as int,
                    units.len() as int,
                ));
                assert(r[j].frame.page_text == spec_compose(units, 0, units.len() as int));
            }
        }
    }
}

proof fn lemma_pages_frames_ok(sub: AiClipSubtitle, pages: Seq<Seq<(Seq<char>, bool)>>, t: RevealTiming)
    requires
        forall|p: int| 0 <= p < pages.len() ==> spec_units_nonempty(#[trigger] pages[p]),
    ensures
        forall|j: int|
            0 <= j < spec_pages_frames(sub, pages, t).len() ==> spec_frame_text_ok(
                #[trigger] spec_pages_frames(sub, pages, t)[j].frame,
            ),
    decreases pages.len(),
{
    if pages.len() > 0 {
        let last = pages.last();
        assert(spec_units_nonempty(pages[pages.len() - 1]));
        lemma_pages_frames_ok(sub, pages.drop_last(), t);
        lemma_page_frames_ok(sub, last, spec_units_count(pages.drop_last()), last.len(), t);
        let a = spec_pages_frames(sub, pages.drop_last(), t);
        let c = spec_page_frames(sub, last, spec_units_count(pages.drop_last()), last.len(), t);
        assert forall|j: int|
            0 <= j < spec_pages_frames(sub, pages, t).len() implies spec_frame_text_ok(
            #[trigger] spec_pages_frames(sub, pages, t)[j].frame,
        ) by {
            assert(spec_pages_frames(sub, pages, t) == a + c);
            if j < a.len() {
                assert(spec_frame_text_ok(a[j].frame));
            } else {
                assert(spec_frame_text_ok(c[j - a.len()].frame));
            }
        }
    }
}

proof fn lemma_candidates_ok(subs: Seq<AiClipSubtitle>, layouts: Seq<Seq<SubtitlePage>>, total_ms: u64)
    requires
        subs.len() <= layouts.len(),
        spec_layouts_nonempty(subs, layouts, subs.len() as int),
    ensures
        forall|j: int|
            0 <= j < spec_candidates(subs, layouts, total_ms).len() ==> spec_frame_text_ok(
                #[trigger] spec_candidates(subs, layouts, total_ms)[j].frame,
            ),
    decreases subs.len(),
{
    if subs.len() > 0 {
        let n = subs.len() - 1;
        assert forall|i: int, p: int|
            0 <= i < n && !subs.drop_last()[i].hidden && 0 <= p < layouts[i].len()
                implies spec_units_nonempty(#[trigger] page_view(layouts[i][p])) by {
            assert(subs.drop_last()[i] == subs[i]);
        }
        lemma_candidates_ok(subs.drop_last(), layouts, total_ms);
        let pv = pages_view(layouts[n]);
        if !subs[n].hidden {
            assert forall|p: int| 0 <= p < pv.len() implies spec_units_nonempty(#[trigger] pv[p]) by {
                assert(pv[p] == page_view(layouts[n][p]));
            }
            let t = crate::clip_subtitle::spec_timing(subs[n], pv, total_ms);
            lemma_pages_frames_ok(subs[n], pv, t);
        }
        let a = spec_candidates(subs.drop_last(), layouts, total_ms);
        let c = if subs[n].hidden {
            Seq::empty()
        } else {
            spec_plan_subtitle(subs[n], pv, total_ms)
        };
        assert forall|j: int|
            0 <= j < spec_candidates(subs, layouts, total_ms).len() implies spec_frame_text_ok(
            #[trigger] spec_candidates(subs, layouts, total_ms)[j].frame,
        ) by {
            assert(spec_candidates(subs, layouts, total_ms) == a + c);
            if j < a.len() {
                assert(spec_frame_text_ok(a[j].frame));
            } else {
                assert(spec_frame_text_ok(c[j - a.len()].frame));
            }
        }
    }
}

proof fn lemma_select_is_a_candidate(cands: Seq<PlannedView>, at: u64)
    ensures
        spec_select(cands, at) matches Some(c) ==> exists|i: int|
            0 <= i < cands.len() && #[trigger] cands[i] == c,
    decreases cands.len(),
{
    if cands.len() > 0 {
        lemma_select_is_a_candidate(cands.drop_last(), at);
        if let Some(b) = spec_select(cands.drop_last(), at) {
            let i = choose|i: int| 0 <= i < cands.drop_last().len() && cands.drop_last()[i] == b;
            assert(cands[i] == b);
        }
        assert(cands[cands.len() - 1] == cands.last());
    }
}

proof fn lemma_resolve_ok(cands: Seq<PlannedView>, b: Seq<u64>, k: nat)
    requires
        forall|j: int| 0 <= j < cands.len() ==> spec_frame_text_ok(#[trigger] cands[j].frame),
    ensures
        forall|j: int|
            0 <= j < spec_resolve(cands, b, k).len() ==> spec_frame_text_ok(
                #[trigger] spec_resolve(cands, b, k)[j],
            ),
    decreases k,
{
    if k > 0 && k < b.len() {
        lemma_resolve_ok(cands, b, (k - 1) as nat);
        let start = b[k - 1];
        lemma_select_is_a_candidate(cands, start);
        let prev = spec_resolve(cands, b, (k - 1) as nat);
        let r = spec_resolve(cands, b, k);
        if let Some(c) = spec_select(cands, start) {
            let i = choose|i: int| 0 <= i < cands.len() && cands[i] == c;
            assert(spec_frame_text_ok(cands[i].frame));
            assert forall|j: int| 0 <= j < r.len() implies spec_frame_text_ok(#[trigger] r[j]) by {
                if j < prev.len() {
                    assert(spec_frame_text_ok(prev[j]));
                }
            }
        }
    }
}

proof fn lemma_resolve_ordered(cands: Seq<PlannedView>, b: Seq<u64>, k: nat)
    requires
        spec_strictly_increasing(b),
        k < b.len(),
    ensures
        spec_frames_ordered(spec_resolve(cands, b, k), b[0], b[k as int]),
    decreases k,
{
    if k > 0 {
        lemma_resolve_ordered(cands, b, (k - 1) as nat);
        let prev = spec_resolve(cands, b, (k - 1) as nat);
        let start = b[k - 1];
        let end = b[k as int];
        assert(start < end);
        assert(b[0] <= start);
        if let Some(c) = spec_select(cands, start) {
            let f = FrameView { project_start_ms: start, project_end_ms: end, ..c.frame };
            if prev.len() > 0 && spec_mergeable(prev.last(), f) {
                let last = prev.len() - 1;
                let next = prev.update(last, FrameView { project_end_ms: end, ..prev.last() });
                assert(spec_resolve(cands, b, k) == next);
                assert forall|j: int| 0 <= j < next.len() - 1 implies (#[trigger] next[j]).project_end_ms
                    <= next[j + 1].project_start_ms && !spec_mergeable(next[j], next[j + 1]) by {
                    assert(prev[j].project_end_ms <= prev[j + 1].project_start_ms);
                    assert(!spec_mergeable(prev[j], prev[j + 1]));
                }
                assert forall|j: int| 0 <= j < next.len() implies b[0] <= (
                #[trigger] next[j]).project_start_ms < next[j].project_end_ms <= end by {
                    assert(b[0] <= prev[j].project_start_ms < prev[j].project_end_ms);
                }
            } else {
                let next = prev.push(f);
                assert(spec_resolve(cands, b, k) == next);
                assert forall|j: int| 0 <= j < next.len() - 1 implies (#[trigger] next[j]).project_end_ms
                    <= next[j + 1].project_start_ms && !spec_mergeable(next[j], next[j + 1]) by {
                    if j < prev.len() - 1 {
                        assert(prev[j].project_end_ms <= prev[j + 1].project_start_ms);
                        assert(!spec_mergeable(prev[j], prev[j + 1]));
                    } else {
                        assert(next[j] == prev.last());
                        assert(prev[j].project_end_ms <= start);
                    }
                }
                assert forall|j: int| 0 <= j < next.len() implies b[0] <= (
                #[trigger] next[j]).project_start_ms < next[j].project_end_ms <= end by {
                    if j < prev.len() {
                        assert(b[0] <= prev[j].project_start_ms < prev[j].project_end_ms);
                    }
                }
            }
        } else {
            assert forall|j: int| 0 <= j < prev.len() implies b[0] <= (
            #[trigger] prev[j]).project_start_ms < prev[j].project_end_ms <= end by {
                assert(prev[j].project_end_ms <= start);
            }
        }
    }
}

/// Every frame of the resolved timeline shows a non-empty leading part of its
/// page, and that part followed by the hidden part is the page text; this
/// holds whenever every unit laid out for a subtitle has some text.
pub proof fn lemma_frames_split_their_page(
    subs: Seq<AiClipSubtitle>,
    layouts: Seq<Seq<SubtitlePage>>,
    total_ms: u64,
    b: Seq<u64>,
)
    requires
        subs.len() <= layouts.len(),
        spec_layouts_nonempty(subs, layouts, subs.len() as int),
    ensures
        forall|j: int|
            0 <= j < spec_resolved(spec_candidates(subs, layouts, total_ms), b).len()
                ==> spec_frame_text_ok(
                #[trigger] spec_resolved(spec_candidates(subs, layouts, total_ms), b)[j],
            ),
{
    let cands = spec_candidates(subs, layouts, total_ms);
    lemma_candidates_ok(subs, layouts, total_ms);
    if b.len() >= 2 {
        lemma_resolve_ok(cands, b, (b.len() - 1) as nat);
    }
}

/// The texts of a layout's units, page after page.
pub open spec fn spec_layout_texts(pages: Seq<SubtitlePage>) -> Seq<Seq<char>>
    decreases pages.len(),
{
    if pages.len() == 0 {
        Seq::empty()
    } else {
        spec_layout_texts(pages.drop_last()) + pages.last().units@.map_values(
            |u: PageUnit| u.text@,
        )
    }
}

proof fn lemma_units_state_nonempty(gs: Seq<Seq<char>>)
    ensures
        forall|k: int|
            0 <= k < spec_units_state(gs).0.len() ==> (#[trigger] spec_units_state(gs).0[k]).len()
                > 0,
    decreases gs.len(),
{
    if gs.len() > 0 {
        lemma_units_state_nonempty(gs.drop_last());
        let (units, leading) = spec_units_state(gs.drop_last());
        let g = gs.last();
        if spec_is_attached_punctuation(g) {
            if units.len() > 0 {
                let nu = units.update(units.len() - 1, units.last() + g);
                assert forall|k: int| 0 <= k < nu.len() implies (#[trigger] nu[k]).len() > 0 by {
                    if k < units.len() - 1 {
                        assert(nu[k] == units[k]);
                    } else {
                        assert(units[units.len() - 1].len() > 0);
                    }
                }
            }
        } else {
            assert(g.len() > 0);
            let nu = units.push(leading + g);
            assert forall|k: int| 0 <= k < nu.len() implies (#[trigger] nu[k]).len() > 0 by {
                if k < units.len() {
                    assert(nu[k] == units[k]);
                }
            }
        }
    }
}

/// Every display unit has some text.
pub proof fn lemma_display_units_nonempty(text: Seq<char>)
    ensures
        forall|k: int|
            0 <= k < spec_display_units(text).len() ==> (#[trigger] spec_display_units(text)[k]).len()
                > 0,
{
    let gs = crate::text::spec_graphemes(text);
    lemma_units_state_nonempty(gs);
    let (units, leading) = spec_units_state(gs);
    if leading.len() > 0 && units.len() > 0 {
        let nu = units.update(units.len() - 1, units.last() + leading);
        assert forall|k: int| 0 <= k < nu.len() implies (#[trigger] nu[k]).len() > 0 by {
            if k < units.len() - 1 {
                assert(nu[k] == units[k]);
            } else {
                assert(units[units.len() - 1].len() > 0);
            }
        }
    }
}

proof fn lemma_layout_texts_hold_every_unit(pages: Seq<SubtitlePage>, p: int, k: int)
    requires
        0 <= p < pages.len(),
        0 <= k < pages[p].units@.len(),
    ensures
        exists|j: int|
            0 <= j < spec_layout_texts(pages).len() && #[trigger] spec_layout_texts(pages)[j]
                == pages[p].units@[k].text@,
    decreases pages.len(),
{
    let rest = pages.drop_last();
    let last = pages.last().units@.map_values(|u: PageUnit| u.text@);
    assert(spec_layout_texts(pages) == spec_layout_texts(rest) + last);
    if p == pages.len() - 1 {
        let j = spec_layout_texts(rest).len() + k;
        assert(spec_layout_texts(pages)[j] == last[k]);
    } else {
        assert(rest[p] == pages[p]);
        lemma_layout_texts_hold_every_unit(rest, p, k);
        let j = choose|j: int|
            0 <= j < spec_layout_texts(rest).len() && #[trigger] spec_layout_texts(rest)[j]
                == rest[p].units@[k].text@;
        assert(spec_layout_texts(pages)[j] == spec_layout_texts(rest)[j]);
    }
}

/// When each shown subtitle is laid out on pages that hold its display units
/// in order, as the application paginates them, every frame of the resolved
/// timeline shows a non-empty leading part of its page, and that part
/// followed by the hidden part is the page text.
pub proof fn lemma_paginated_frames_split_their_page(
    subs: Seq<AiClipSubtitle>,
    layouts: Seq<Seq<SubtitlePage>>,
    total_ms: u64,
    b: Seq<u64>,
)
    requires
        subs.len() <= layouts.len(),
        forall|i: int|
            0 <= i < subs.len() && !(#[trigger] subs[i]).hidden ==> spec_layout_texts(layouts[i])
                == spec_display_units(subs[i].text@),
    ensures
        forall|j: int|
            0 <= j < spec_resolved(spec_candidates(subs, layouts, total_ms), b).len()
                ==> spec_frame_text_ok(
                #[trigger] spec_resolved(spec_candidates(subs, layouts, total_ms), b)[j],
            ),
{
    assert forall|i: int, p: int|
        0 <= i < subs.len() && !subs[i].hidden && 0 <= p < layouts[i].len()
            implies spec_units_nonempty(#[trigger] page_view(layouts[i][p])) by {
        let u = page_view(layouts[i][p]);
        assert forall|k: int| 0 <= k < u.len() implies (#[trigger] u[k]).0.len() > 0 by {
            assert(u[k] == unit_view(layouts[i][p].units@[k]));
            lemma_layout_texts_hold_every_unit(layouts[i], p, k);
            lemma_display_units_nonempty(subs[i].text@);
            let j = choose|j: int|
                0 <= j < spec_layout_texts(layouts[i]).len() && #[trigger] spec_layout_texts(
                    layouts[i],
                )[j] == layouts[i][p].units@[k].text@;
            assert(spec_display_units(subs[i].text@)[j].len() > 0);
        }
    }
    lemma_frames_split_their_page(subs, layouts, total_ms, b);
}

/// A time held within the timeline `0..=total_ms`.
pub open spec fn spec_within(t: u64, total_ms: u64) -> u64 {
    if t < total_ms {
        t
    } else {
        total_ms
    }
}

/// The reveal span of a subtitle lasting `duration` ms: 85% of it, in whole
/// milliseconds (a duration too long to multiply is held at the largest span).
pub open spec fn spec_reveal_span(duration: int) -> int {
    if duration * 85 <= u64::MAX {
        duration * 85 / 100
    } else {
        u64::MAX as int / 100
    }
}

proof fn lemma_first_of_page(
    sub: AiClipSubtitle,
    units: Seq<(Seq<char>, bool)>,
    first_index: nat,
    visible: nat,
    t: RevealTiming,
)
    requires
        visible >= 1,
        spec_page_frames(sub, units, first_index, 1, t).len() > 0,
    ensures
        spec_page_frames(sub, units, first_index, visible, t).len() > 0,
        spec_page_frames(sub, units, first_index, visible, t)[0] == spec_page_frames(
            sub,
            units,
            first_index,
            1,
            t,
        )[0],
    decreases visible,
{
    if visible > 1 {
        lemma_first_of_page(sub, units, first_index, (visible - 1) as nat, t);
    }
}

proof fn lemma_first_of_pages(sub: AiClipSubtitle, pages: Seq<Seq<(Seq<char>, bool)>>, t: RevealTiming)
    requires
        pages.len() >= 1,
        spec_page_frames(sub, pages[0], 0, pages[0].len(), t).len() > 0,
    ensures
        spec_pages_frames(sub, pages, t).len() > 0,
        spec_pages_frames(sub, pages, t)[0] == spec_page_frames(sub, pages[0], 0, pages[0].len(), t)[0],
    decreases pages.len(),
{
    let rest = pages.drop_last();
    if pages.len() == 1 {
        assert(rest.len() == 0);
        assert(spec_units_count(rest) == 0);
        assert(spec_pages_frames(sub, rest, t) =~= Seq::<PlannedView>::empty());
        assert(pages.last() == pages[0]);
        assert(spec_pages_frames(sub, pages, t) =~= spec_page_frames(sub, pages[0], 0, pages[0].len(), t));
    } else {
        assert(rest[0] == pages[0]);
        lemma_first_of_pages(sub, rest, t);
    }
}

/// A subtitle is revealed unit by unit: when its clamped time span is long
/// enough that the first two of its `n >= 2` reveal steps start apart, its
/// first frame shows exactly the first unit of its first page, from the
/// subtitle's start until the second step, which starts
/// `floor(floor(85% of the span) / (n - 1))` ms later.
pub proof fn lemma_reveal_starts_with_the_first_unit(
    sub: AiClipSubtitle,
    pages: Seq<Seq<(Seq<char>, bool)>>,
    total_ms: u64,
)
    requires
        spec_within(sub.project_end_ms, total_ms) > spec_within(sub.project_start_ms, total_ms),
        spec_units_count(pages) >= 2,
        pages.len() >= 1,
        pages[0].len() >= 1,
        spec_reveal_span(
            spec_within(sub.project_end_ms, total_ms) - spec_within(sub.project_start_ms, total_ms),
        ) >= spec_units_count(pages) - 1,
    ensures
        ({
            let frames = spec_plan_subtitle(sub, pages, total_ms);
            let start = spec_within(sub.project_start_ms, total_ms);
            let span = spec_reveal_span(spec_within(sub.project_end_ms, total_ms) - start);
            &&& frames.len() > 0
            &&& frames[0].frame.visible_text == spec_compose(pages[0], 0, 1)
            &&& frames[0].frame.page_text == spec_compose(pages[0], 0, pages[0].len() as int)
            &&& frames[0].frame.project_start_ms == start
            &&& frames[0].frame.project_end_ms == start + span / (spec_units_count(pages) - 1)
        }),
{
    let t = crate::clip_subtitle::spec_timing(sub, pages, total_ms);
    let s = spec_within(sub.project_start_ms, total_ms);
    let e = spec_within(sub.project_end_ms, total_ms);
    let n = spec_units_count(pages);
    let span = spec_reveal_span(e - s);
    assert(t.start_ms == s && t.end_ms == e && t.steps == n);
    assert(t.reveal_ms == span);
    assert(span <= e - s);
    assert(crate::text::spec_saturating_mul_u64(t.reveal_ms, 0) == 0);
    assert(crate::text::spec_saturating_mul_u64(t.reveal_ms, 1) == t.reveal_ms);
    assert(crate::clip_subtitle::spec_step_start(t, 0) == s);
    assert(span / (n - 1) <= span) by (nonlinear_arith)
        requires
            span >= 0,
            n >= 2,
    ;
    assert(span / (n - 1) >= 1) by (nonlinear_arith)
        requires
            span >= n - 1,
            n >= 2,
    ;
    assert(crate::clip_subtitle::spec_step_start(t, 1) == s + span / (n - 1));
    assert(crate::clip_subtitle::spec_step_end(t, 0) == crate::clip_subtitle::spec_step_start(t, 1));
    let pf1 = spec_page_frames(sub, pages[0], 0, 1, t);
    assert(spec_page_frames(sub, pages[0], 0, 0, t) =~= Seq::<PlannedView>::empty());
    assert(pf1.len() == 1);
    assert(pf1[0].frame.visible_text == spec_compose(pages[0], 0, 1));
    assert(pf1[0].frame.project_start_ms == s);
    assert(pf1[0].frame.project_end_ms == s + span / (n - 1));
    lemma_first_of_page(sub, pages[0], 0, pages[0].len(), t);
    lemma_first_of_pages(sub, pages, t);
    assert(spec_plan_subtitle(sub, pages, total_ms) == spec_pages_frames(sub, pages, t));
}

proof fn lemma_step_gap(a: int, span: int, q: int)
    requires
        a >= 0,
        q >= 1,
        span >= q,
    ensures
        (a + span) / q >= a / q + 1,
{
    assert((a + span) / q >= (a + q) / q) by (nonlinear_arith)
        requires
            a >= 0,
            q >= 1,
            span >= q,
    {
        vstd::arithmetic::div_mod::lemma_div_is_ordered(a + q, a + span, q);
    }
    vstd::arithmetic::div_mod::lemma_div_plus_one(a, q);
}

proof fn lemma_step_start_formula(t: RevealTiming, k: nat)
    requires
        t.steps >= 2,
        k < t.steps,
        t.reveal_ms >= 1,
        t.reveal_ms * (t.steps - 1) <= u64::MAX,
        t.start_ms + t.reveal_ms <= u64::MAX,
    ensures
        crate::clip_subtitle::spec_step_start(t, k) == t.start_ms + t.reveal_ms * k / (t.steps - 1),
        t.reveal_ms * k / (t.steps - 1) <= t.reveal_ms,
{
    let q = (t.steps - 1) as int;
    let r = t.reveal_ms as int;
    assert(q <= r * q) by (nonlinear_arith)
        requires
            r >= 1,
            q >= 1,
    ;
    assert(k as u64 == k);
    assert((t.steps - 1) as u64 == q);
    assert(r * k <= r * q) by (nonlinear_arith)
        requires
            r >= 0,
            0 <= k <= q,
    ;
    assert(crate::text::spec_saturating_mul_u64(t.reveal_ms, k as u64) == r * k);
    assert(r * k / q <= r) by (nonlinear_arith)
        requires
            r >= 0,
            0 <= k <= q,
            q >= 1,
    {
        vstd::arithmetic::div_mod::lemma_div_is_ordered(r * k, r * q, q);
        vstd::arithmetic::div_mod::lemma_div_multiples_vanish(r, q);
    }
}

proof fn lemma_first_page_frames(
    sub: AiClipSubtitle,
    units: Seq<(Seq<char>, bool)>,
    visible: nat,
    t: RevealTiming,
)
    requires
        t.steps >= 2,
        visible <= units.len(),
        units.len() <= t.steps,
        t.reveal_ms >= t.steps - 1,
        t.reveal_ms * (t.steps - 1) <= u64::MAX,
        t.start_ms + t.reveal_ms < t.end_ms,
    ensures
        ({
            let frames = spec_page_frames(sub, units, 0, visible, t);
            &&& frames.len() == visible
            &&& forall|j: int|
                0 <= j < visible ==> {
                    &&& (#[trigger] frames[j]).frame.visible_text == spec_compose(units, 0, j + 1)
                    &&& frames[j].frame.hidden_text == spec_compose(units, j + 1, units.len() as int)
                    &&& frames[j].frame.project_start_ms == t.start_ms + t.reveal_ms * j / (t.steps
                        - 1)
                    &&& frames[j].frame.project_end_ms == if j + 1 < t.steps {
                        t.start_ms + t.reveal_ms * (j + 1) / (t.steps - 1)
                    } else {
                        t.end_ms as int
                    }
                }
        }),
    decreases visible,
{
    if visible > 0 {
        let k = (visible - 1) as nat;
        lemma_first_page_frames(sub, units, k, t);
        lemma_step_start_formula(t, k);
        if k + 1 < t.steps {
            lemma_step_start_formula(t, k + 1);
            lemma_step_gap(t.reveal_ms * k, t.reveal_ms as int, (t.steps - 1) as int);
            assert(t.reveal_ms * k + t.reveal_ms == t.reveal_ms * (k + 1)) by (nonlinear_arith);
        }
        let before = spec_page_frames(sub, units, 0, k, t);
        let frames = spec_page_frames(sub, units, 0, visible, t);
        assert forall|j: int| 0 <= j < visible implies {
            &&& (#[trigger] frames[j]).frame.visible_text == spec_compose(units, 0, j + 1)
            &&& frames[j].frame.hidden_text == spec_compose(units, j + 1, units.len() as int)
            &&& frames[j].frame.project_start_ms == t.start_ms + t.reveal_ms * j / (t.steps - 1)
            &&& frames[j].frame.project_end_ms == if j + 1 < t.steps {
                t.start_ms + t.reveal_ms * (j + 1) / (t.steps - 1)
            } else {
                t.end_ms as int
            }
        } by {
            if j < k {
                assert(frames[j] == before[j]);
            }
        }
    }
}

proof fn lemma_pages_frames_prefix(sub: AiClipSubtitle, pages: Seq<Seq<(Seq<char>, bool)>>, t: RevealTiming)
    requires
        pages.len() >= 1,
    ensures
        ({
            let first = spec_page_frames(sub, pages[0], 0, pages[0].len(), t);
            let all = spec_pages_frames(sub, pages, t);
            &&& first.len() <= all.len()
            &&& forall|j: int| 0 <= j < first.len() ==> #[trigger] all[j] == first[j]
        }),
    decreases pages.len(),
{
    let rest = pages.drop_last();
    if pages.len() == 1 {
        assert(spec_units_count(rest) == 0);
        assert(spec_pages_frames(sub, rest, t) =~= Seq::<PlannedView>::empty());
        assert(pages.last() == pages[0]);
        assert(spec_pages_frames(sub, pages, t) =~= spec_page_frames(sub, pages[0], 0, pages[0].len(), t));
    } else {
        assert(rest[0] == pages[0]);
        lemma_pages_frames_prefix(sub, rest, t);
    }
}

/// A subtitle is revealed unit by unit. When its clamped time span `D` is
/// long enough that its `n >= 2` reveal steps start apart (85% of `D`,
/// floored, is at least `n - 1`), the frames of its first page come first:
/// frame `j` shows the first `j + 1` units of that page, starts
/// `floor(floor(85% of D) * j / (n - 1))` ms after the subtitle's start, and
/// lasts until the next step starts, or until the subtitle ends after the last step.
pub proof fn lemma_reveal_steps_through_the_first_page(
    sub: AiClipSubtitle,
    pages: Seq<Seq<(Seq<char>, bool)>>,
    total_ms: u64,
)
    requires
        spec_within(sub.project_end_ms, total_ms) > spec_within(sub.project_start_ms, total_ms),
        spec_units_count(pages) >= 2,
        pages.len() >= 1,
        spec_reveal_span(
            spec_within(sub.project_end_ms, total_ms) - spec_within(sub.project_start_ms, total_ms),
        ) >= spec_units_count(pages) - 1,
        spec_reveal_span(
            spec_within(sub.project_end_ms, total_ms) - spec_within(sub.project_start_ms, total_ms),
        ) * (spec_units_count(pages) - 1) <= u64::MAX,
    ensures
        ({
            let frames = spec_plan_subtitle(sub, pages, total_ms);
            let start = spec_within(sub.project_start_ms, total_ms);
            let end = spec_within(sub.project_end_ms, total_ms);
            let span = spec_reveal_span(end - start);
            let n = spec_units_count(pages);
            &&& frames.len() >= pages[0].len()
            &&& forall|j: int|
                0 <= j < pages[0].len() ==> {
                    &&& (#[trigger] frames[j]).frame.visible_text == spec_compose(pages[0], 0, j + 1)
                    &&& frames[j].frame.hidden_text == spec_compose(
                        pages[0],
                        j + 1,
                        pages[0].len() as int,
                    )
                    &&& frames[j].frame.project_start_ms == start + span * j / (n - 1)
                    &&& frames[j].frame.project_end_ms == if j + 1 < n {
                        start + span * (j + 1) / (n - 1)
                    } else {
                        end as int
                    }
                }
        }),
{
    let t = crate::clip_subtitle::spec_timing(sub, pages, total_ms);
    let s = spec_within(sub.project_start_ms, total_ms);
    let e = spec_within(sub.project_end_ms, total_ms);
    let n = spec_units_count(pages);
    let span = spec_reveal_span(e - s);
    assert(t.start_ms == s && t.end_ms == e && t.steps == n);
    assert(t.reveal_ms == span);
    assert(span < e - s);
    lemma_units_count_first_page(pages);
    lemma_first_page_frames(sub, pages[0], pages[0].len(), t);
    lemma_pages_frames_prefix(sub, pages, t);
    assert(spec_plan_subtitle(sub, pages, total_ms) == spec_pages_frames(sub, pages, t));
}

proof fn lemma_units_count_first_page(pages: Seq<Seq<(Seq<char>, bool)>>)
    requires
        pages.len() >= 1,
    ensures
        pages[0].len() <= spec_units_count(pages),
    decreases pages.len(),
{
    if pages.len() > 1 {
        assert(pages.drop_last()[0] == pages[0]);
        lemma_units_count_first_page(pages.drop_last());
    }
}

/// The resolved frames lie between the first and last boundary, follow one
/// another without overlap, and no two neighbours could have been merged.
pub proof fn lemma_frames_are_ordered_and_merged(cands: Seq<PlannedView>, b: Seq<u64>)
    requires
        spec_is_boundaries(cands, b),
        b.len() >= 2,
    ensures
        spec_frames_ordered(spec_resolved(cands, b), b[0], b[b.len() - 1]),
{
    lemma_resolve_ordered(cands, b, (b.len() - 1) as nat);
}

proof fn lemma_candidates_use_layout_prefix(
    subs: Seq<AiClipSubtitle>,
    l1: Seq<Seq<SubtitlePage>>,
    l2: Seq<Seq<SubtitlePage>>,
    total_ms: u64,
)
    requires
        forall|i: int| 0 <= i < subs.len() ==> #[trigger] l1[i] == l2[i],
    ensures
        spec_candidates(subs, l1, total_ms) == spec_candidates(subs, l2, total_ms),
    decreases subs.len(),
{
    if subs.len() > 0 {
        let n = subs.len() - 1;
        assert(l1[n] == l2[n]);
        lemma_candidates_use_layout_prefix(subs.drop_last(), l1, l2, total_ms);
    }
}

proof fn lemma_shown_lengths(subs: Seq<AiClipSubtitle>, layouts: Seq<Seq<SubtitlePage>>)
    ensures
        spec_shown(subs, layouts).0.len() == spec_shown(subs, layouts).1.len(),
    decreases subs.len(),
{
    if subs.len() > 0 {
        lemma_shown_lengths(subs.drop_last(), layouts);
    }
}

/// Hidden subtitles change nothing: the candidates, and so the resolved
/// frames and their boundaries, are those of the shown subtitles alone.
pub proof fn lemma_hidden_subtitles_change_nothing(
    subs: Seq<AiClipSubtitle>,
    layouts: Seq<Seq<SubtitlePage>>,
    total_ms: u64,
)
    ensures
        spec_candidates(subs, layouts, total_ms) == spec_candidates(
            spec_shown(subs, layouts).0,
            spec_shown(subs, layouts).1,
            total_ms,
        ),
    decreases subs.len(),
{
    if subs.len() > 0 {
        let n = subs.len() - 1;
        let rest = subs.drop_last();
        lemma_hidden_subtitles_change_nothing(rest, layouts, total_ms);
        let (s, l) = spec_shown(rest, layouts);
        lemma_shown_lengths(rest, layouts);
        if subs[n].hidden {
            assert(spec_candidates(subs, layouts, total_ms) =~= spec_candidates(rest, layouts, total_ms));
        } else {
            let s2 = s.push(subs[n]);
            let l2 = l.push(layouts[n]);
            assert(s2.drop_last() =~= s);
            assert(s2[s2.len() - 1] == subs[n]);
            assert(l2[s.len() as int] == layouts[n]);
            lemma_candidates_use_layout_prefix(s, l2, l, total_ms);
            assert(spec_candidates(s2, l2, total_ms) == spec_candidates(s, l2, total_ms)
                + spec_plan_subtitle(subs[n], pages_view(layouts[n]), total_ms));
        }
    }
}

proof fn lemma_no_candidates_when_empty(subs: Seq<AiClipSubtitle>, layouts: Seq<Seq<SubtitlePage>>, total_ms: u64)
    requires
        total_ms == 0 || forall|i: int| 0 <= i < subs.len() ==> (#[trigger] subs[i]).hidden,
    ensures
        spec_candidates(subs, layouts, total_ms) == Seq::<PlannedView>::empty(),
    decreases subs.len(),
{
    if subs.len() > 0 {
        let n = subs.len() - 1;
        assert forall|i: int| 0 <= i < subs.drop_last().len() && total_ms != 0 implies (
        #[trigger] subs.drop_last()[i]).hidden by {
            assert(subs.drop_last()[i] == subs[i]);
        }
        lemma_no_candidates_when_empty(subs.drop_last(), layouts, total_ms);
        assert(subs[n].hidden || total_ms == 0);
        assert(spec_candidates(subs, layouts, total_ms) =~= Seq::<PlannedView>::empty());
    }
}

/// An empty timeline, or a list in which every subtitle is hidden, has no frames.
pub proof fn lemma_no_frames_when_nothing_shows(
    subs: Seq<AiClipSubtitle>,
    layouts: Seq<Seq<SubtitlePage>>,
    total_ms: u64,
    b: Seq<u64>,
)
    requires
        total_ms == 0 || forall|i: int| 0 <= i < subs.len() ==> (#[trigger] subs[i]).hidden,
        spec_is_boundaries(spec_candidates(subs, layouts, total_ms), b),
    ensures
        spec_resolved(spec_candidates(subs, layouts, total_ms), b) == Seq::<FrameView>::empty(),
{
    lemma_no_candidates_when_empty(subs, layouts, total_ms);
    let cands = spec_candidates(subs, layouts, total_ms);
    if b.len() > 0 {
        assert(b.contains(b[0]));
        assert(spec_is_endpoint(cands, b[0]));
    }
}

} // verus!
