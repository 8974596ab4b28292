//! Word-by-word subtitle planning shared by the preview and the export: texts
//! become display units, pages become reveal steps, and overlapping subtitles
//! are resolved into one timeline of frames.

use vstd::prelude::*;

use crate::domain::{AiClipSubtitle, AiClipSubtitleFrame};
use crate::text::{
    graphemes, is_whitespace, push_char, spec_flatten, spec_graphemes, spec_is_whitespace, to_chars,
};

verus! {

/// ASCII punctuation, as `char::is_ascii_punctuation` tests it.
pub open spec fn spec_is_ascii_punctuation(c: char) -> bool {
    let v = c as u32;
    (0x21 <= v && v <= 0x2f) || (0x3a <= v && v <= 0x40) || (0x5b <= v && v <= 0x60) || (0x7b <= v
        && v <= 0x7e)
}

pub fn is_ascii_punctuation(c: char) -> (r: bool)
    ensures
        r == spec_is_ascii_punctuation(c),
{
    let v = c as u32;
    (0x21 <= v && v <= 0x2f) || (0x3a <= v && v <= 0x40) || (0x5b <= v && v <= 0x60) || (0x7b <= v
        && v <= 0x7e)
}

/// The punctuation that attaches to the neighbouring character instead of taking a reveal step of its own.
pub open spec fn spec_attached_marks() -> Seq<char> {
    "，。！？；：、,.!?;:()[]{}（）【】《》〈〉“”‘’…—-~·"@
}

pub open spec fn spec_is_attached_char(c: char) -> bool {
    spec_is_whitespace(c) || spec_is_ascii_punctuation(c) || spec_attached_marks().contains(c)
}

/// A grapheme attaches when every character in it is whitespace or punctuation.
pub open spec fn spec_is_attached_punctuation(grapheme: Seq<char>) -> bool {
    forall|i: int| 0 <= i < grapheme.len() ==> spec_is_attached_char(#[trigger] grapheme[i])
}

fn is_attached_char(c: char, marks: &Vec<char>) -> (r: bool)
    requires
        marks@ == spec_attached_marks(),
    ensures
        r == spec_is_attached_char(c),
{
    if is_whitespace(c) || is_ascii_punctuation(c) {
        return true;
    }
    let mut i: usize = 0;
    while i < marks.len()
        invariant
            i <= marks@.len(),
            marks@ == spec_attached_marks(),
            forall|k: int| 0 <= k < i ==> marks@[k] != c,
        decreases marks.len() - i,
    {
        if marks[i] == c {
            return true;
        }
        i += 1;
    }
    false
}

pub fn is_attached_punctuation(grapheme: &str) -> (r: bool)
    ensures
        r == spec_is_attached_punctuation(grapheme@),
{
    let marks = to_chars("，。！？；：、,.!?;:()[]{}（）【】《》〈〉“”‘’…—-~·");
    let chars = to_chars(grapheme);
    let mut i: usize = 0;
    while i < chars.len()
        invariant
            i <= chars@.len(),
            chars@ == grapheme@,
            marks@ == spec_attached_marks(),
            forall|k: int| 0 <= k < i ==> spec_is_attached_char(#[trigger] grapheme@[k]),
        decreases chars.len() - i,
    {
        if !is_attached_char(chars[i], &marks) {
            return false;
        }
        i += 1;
    }
    true
}

/// Grouping graphemes left to right: the units so far and the attached marks
/// waiting for a unit when no unit exists yet.
pub open spec fn spec_units_state(gs: Seq<Seq<char>>) -> (Seq<Seq<char>>, Seq<char>)
    decreases gs.len(),
{
    if gs.len() == 0 {
        (Seq::empty(), Seq::empty())
    } else {
        let (units, leading) = spec_units_state(gs.drop_last());
        let g = gs.last();
        if spec_is_attached_punctuation(g) {
            if units.len() > 0 {
                (units.update(units.len() - 1, units.last() + g), leading)
            } else {
                (units, leading + g)
            }
        } else {
            (units.push(leading + g), Seq::empty())
        }
    }
}

/// The display units of a text: each grapheme that is not punctuation opens a
/// unit, and punctuation sticks to the unit before it (or, at the very
/// start, to the first unit).
pub open spec fn spec_display_units(text: Seq<char>) -> Seq<Seq<char>> {
    let (units, leading) = spec_units_state(spec_graphemes(text));
    if leading.len() > 0 && units.len() > 0 {
        units.update(units.len() - 1, units.last() + leading)
    } else {
        units
    }
}

proof fn lemma_flatten_update_last(units: Seq<Seq<char>>, extra: Seq<char>)
    requires
        units.len() > 0,
    ensures
        spec_flatten(units.update(units.len() - 1, units.last() + extra)) == spec_flatten(units)
            + extra,
{
    assert(units.update(units.len() - 1, units.last() + extra).drop_last() =~= units.drop_last());
    assert(spec_flatten(units) == spec_flatten(units.drop_last()) + units.last());
}

proof fn lemma_flatten_push(units: Seq<Seq<char>>, unit: Seq<char>)
    ensures
        spec_flatten(units.push(unit)) == spec_flatten(units) + unit,
{
    assert(units.push(unit).drop_last() =~= units);
}

/// Processing a prefix of the graphemes keeps every character: the units and the pending marks spell the prefix.
proof fn lemma_units_state_keeps_text(gs: Seq<Seq<char>>)
    ensures
        spec_flatten(spec_units_state(gs).0) + spec_units_state(gs).1 == spec_flatten(gs),
        spec_units_state(gs).0.len() > 0 ==> spec_units_state(gs).1.len() == 0,
    decreases gs.len(),
{
    if gs.len() > 0 {
        lemma_units_state_keeps_text(gs.drop_last());
        let (units, leading) = spec_units_state(gs.drop_last());
        let g = gs.last();
        if spec_is_attached_punctuation(g) {
            if units.len() > 0 {
                lemma_flatten_update_last(units, g);
                assert(leading =~= Seq::<char>::empty());
                assert(spec_flatten(units) + leading =~= spec_flatten(units));
            } else {
                assert(spec_flatten(units) + (leading + g) =~= (spec_flatten(units) + leading) + g);
            }
        } else {
            lemma_flatten_push(units, leading + g);
            assert(spec_flatten(units.push(leading + g)) + Seq::<char>::empty() =~= (spec_flatten(
                units,
            ) + leading) + g);
        }
    }
}

/// Display units never lose or reorder a character: joined back together they
/// spell the text, unless the text holds nothing but punctuation and whitespace.
pub proof fn lemma_display_units_keep_text(text: Seq<char>)
    requires
        spec_flatten(spec_graphemes(text)) == text,
    ensures
        spec_display_units(text).len() > 0 ==> spec_flatten(spec_display_units(text)) == text,
{
    let gs = spec_graphemes(text);
    lemma_units_state_keeps_text(gs);
    let (units, leading) = spec_units_state(gs);
    if leading.len() > 0 && units.len() > 0 {
        lemma_flatten_update_last(units, leading);
    } else if units.len() > 0 {
        assert(spec_flatten(units) + leading =~= spec_flatten(units));
    }
}

pub open spec fn strings_view(v: Seq<String>) -> Seq<Seq<char>> {
    crate::text::strings_view(v)
}

fn append_string(s: &mut String, t: &String)
    ensures
        final(s)@ == old(s)@ + t@,
{
    s.append(t.as_str());
}

pub fn build_display_units(text: &str) -> (r: Vec<String>)
    ensures
        strings_view(r@) == spec_display_units(text@),
{
    let gs = graphemes(text);
    let ghost gview = spec_graphemes(text@);
    let mut units: Vec<String> = Vec::new();
    let mut leading = String::new();
    let mut i: usize = 0;
    assert(gview.take(0) =~= Seq::<Seq<char>>::empty());
    assert(strings_view(units@) =~= Seq::<Seq<char>>::empty());
    while i < gs.len()
        invariant
            i <= gs@.len(),
            crate::text::strings_view(gs@) == gview,
            (strings_view(units@), leading@) == spec_units_state(gview.take(i as int)),
        decreases gs.len() - i,
    {
        assert(gview.take(i + 1).drop_last() =~= gview.take(i as int));
        assert(gview.take(i + 1).last() == gs@[i as int]@);
        let grapheme = &gs[i];
        if is_attached_punctuation(grapheme.as_str()) {
            if units.len() > 0 {
                let last = units.len() - 1;
                let mut unit = units[last].clone();
                append_string(&mut unit, grapheme);
                let ghost before = units@;
                units.set(last, unit);
                assert(strings_view(units@) =~= strings_view(before).update(
                    last as int,
                    strings_view(before).last() + grapheme@,
                ));
            } else {
                append_string(&mut leading, grapheme);
            }
        } else {
            let mut unit = leading;
            leading = String::new();
            append_string(&mut unit, grapheme);
            crate::text::push_string(&mut units, unit);
            assert(leading@ =~= Seq::<char>::empty());
        }
        i += 1;
    }
    assert(gview.take(gs@.len() as int) =~= gview);
    if leading.unicode_len() > 0 && units.len() > 0 {
        let last = units.len() - 1;
        let mut unit = units[last].clone();
        append_string(&mut unit, &leading);
        let ghost before = units@;
        units.set(last, unit);
        assert(strings_view(units@) =~= strings_view(before).update(
            last as int,
            strings_view(before).last() + leading@,
        ));
    }
    units
}

} // verus!

verus! {

/// A display unit placed on a page, possibly starting the page's second line.
#[derive(Debug, Clone, PartialEq, Eq)]
pub struct PageUnit {
    pub text: String,
    pub line_break_before: bool,
}

/// What fits on screen at once: at most two lines of units.
#[derive(Debug, Clone, PartialEq, Eq)]
pub struct SubtitlePage {
    pub units: Vec<PageUnit>,
}

pub open spec fn unit_view(u: PageUnit) -> (Seq<char>, bool) {
    (u.text@, u.line_break_before)
}

pub open spec fn page_view(p: SubtitlePage) -> Seq<(Seq<char>, bool)> {
    p.units@.map_values(|u: PageUnit| unit_view(u))
}

pub open spec fn pages_view(pages: Seq<SubtitlePage>) -> Seq<Seq<(Seq<char>, bool)>> {
    pages.map_values(|p: SubtitlePage| page_view(p))
}

/// The text of units `start..end` of a page, a line break before each unit that opens a line.
pub open spec fn spec_compose(units: Seq<(Seq<char>, bool)>, start: int, end: int) -> Seq<char>
    decreases end - start,
{
    if end <= start {
        Seq::empty()
    } else {
        spec_compose(units, start, end - 1) + (if units[end - 1].1 {
            seq!['\n']
        } else {
            Seq::empty()
        }) + units[end - 1].0
    }
}

pub fn compose_page_text(units: &[PageUnit], start: usize, end: usize) -> (r: String)
    requires
        start <= end <= units@.len(),
    ensures
        r@ == spec_compose(units@.map_values(|u: PageUnit| unit_view(u)), start as int, end as int),
{
    let ghost uv = units@.map_values(|u: PageUnit| unit_view(u));
    let mut text = String::new();
    let mut k: usize = start;
    assert(text@ =~= spec_compose(uv, start as int, start as int));
    while k < end
        invariant
            start <= k <= end <= units@.len(),
            uv == units@.map_values(|u: PageUnit| unit_view(u)),
            text@ == spec_compose(uv, start as int, k as int),
        decreases end - k,
    {
        let ghost before = text@;
        if units[k].line_break_before {
            push_char(&mut text, '\n');
        }
        text.append(units[k].text.as_str());
        assert(uv[k as int] == unit_view(units@[k as int]));
        assert(text@ =~= before + (if uv[k as int].1 {
            seq!['\n']
        } else {
            Seq::empty()
        }) + uv[k as int].0);
        k += 1;
    }
    text
}

/// The number of units over all pages.
pub open spec fn spec_units_count(pages: Seq<Seq<(Seq<char>, bool)>>) -> nat
    decreases pages.len(),
{
    if pages.len() == 0 {
        0
    } else {
        spec_units_count(pages.drop_last()) + pages.last().len()
    }
}

/// A subtitle frame with its texts taken by value.
pub struct FrameView {
    pub subtitle_id: i64,
    pub clip_segment_id: i64,
    pub project_start_ms: u64,
    pub project_end_ms: u64,
    pub page_text: Seq<char>,
    pub visible_text: Seq<char>,
    pub hidden_text: Seq<char>,
}

pub open spec fn frame_view(f: AiClipSubtitleFrame) -> FrameView {
    FrameView {
        subtitle_id: f.subtitle_id,
        clip_segment_id: f.clip_segment_id,
        project_start_ms: f.project_start_ms,
        project_end_ms: f.project_end_ms,
        page_text: f.page_text@,
        visible_text: f.visible_text@,
        hidden_text: f.hidden_text@,
    }
}

/// A candidate frame of one subtitle, with what decides between overlapping candidates.
#[derive(Debug, Clone, PartialEq, Eq)]
pub struct PlannedFrame {
    pub frame: AiClipSubtitleFrame,
    pub subtitle_start_ms: u64,
    pub stable_segment_id: String,
    pub reveal_index: usize,
}

pub struct PlannedView {
    pub frame: FrameView,
    pub subtitle_start_ms: u64,
    pub stable_segment_id: Seq<char>,
    pub reveal_index: nat,
}

pub open spec fn planned_view(p: PlannedFrame) -> PlannedView {
    PlannedView {
        frame: frame_view(p.frame),
        subtitle_start_ms: p.subtitle_start_ms,
        stable_segment_id: p.stable_segment_id@,
        reveal_index: p.reveal_index as nat,
    }
}

pub open spec fn planned_views(v: Seq<PlannedFrame>) -> Seq<PlannedView> {
    v.map_values(|p: PlannedFrame| planned_view(p))
}

/// The timing of one subtitle's reveal: its clamped start and end, the
/// reveal span (85% of its duration) and the number of reveal steps.
pub struct RevealTiming {
    pub start_ms: u64,
    pub end_ms: u64,
    pub reveal_ms: u64,
    pub steps: nat,
}

/// When reveal step `index` begins: steps are spread evenly over the reveal span.
pub open spec fn spec_step_start(t: RevealTiming, index: nat) -> u64 {
    if t.steps <= 1 {
        t.start_ms
    } else {
        let offset = crate::text::spec_saturating_mul_u64(t.reveal_ms, index as u64) / ((t.steps - 1) as u64);
        if t.start_ms + offset > u64::MAX {
            u64::MAX
        } else {
            (t.start_ms + offset) as u64
        }
    }
}

/// When reveal step `index` ends: at the next step, or at the subtitle's end for the last one.
pub open spec fn spec_step_end(t: RevealTiming, index: nat) -> u64 {
    if index + 1 < t.steps {
        spec_step_start(t, index + 1)
    } else {
        t.end_ms
    }
}

/// The frames of one page, for visible counts `1..=visible`; steps of zero length are left out.
pub open spec fn spec_page_frames(
    sub: AiClipSubtitle,
    units: Seq<(Seq<char>, bool)>,
    first_index: nat,
    visible: nat,
    t: RevealTiming,
) -> Seq<PlannedView>
    decreases visible,
{
    if visible == 0 {
        Seq::empty()
    } else {
        let before = spec_page_frames(sub, units, first_index, (visible - 1) as nat, t);
        let index = (first_index + visible - 1) as nat;
        let start = spec_step_start(t, index);
        let end = spec_step_end(t, index);
        if end > start {
            before.push(
                PlannedView {
                    frame: FrameView {
                        subtitle_id: sub.id,
                        clip_segment_id: sub.clip_segment_id,
                        project_start_ms: start,
                        project_end_ms: end,
                        page_text: spec_compose(units, 0, units.len() as int),
                        visible_text: spec_compose(units, 0, visible as int),
                        hidden_text: spec_compose(units, visible as int, units.len() as int),
                    },
                    subtitle_start_ms: t.start_ms,
                    stable_segment_id: sub.stable_segment_id@,
                    reveal_index: index,
                },
            )
        } else {
            before
        }
    }
}

/// The frames of all pages, page after page.
pub open spec fn spec_pages_frames(
    sub: AiClipSubtitle,
    pages: Seq<Seq<(Seq<char>, bool)>>,
    t: RevealTiming,
) -> Seq<PlannedView>
    decreases pages.len(),
{
    if pages.len() == 0 {
        Seq::empty()
    } else {
        let last = pages.last();
        spec_pages_frames(sub, pages.drop_last(), t) + spec_page_frames(
            sub,
            last,
            spec_units_count(pages.drop_last()),
            last.len(),
            t,
        )
    }
}

/// The timing of a subtitle on a timeline of `total_ms`.
pub open spec fn spec_timing(sub: AiClipSubtitle, pages: Seq<Seq<(Seq<char>, bool)>>, total_ms: u64) -> RevealTiming {
    let start = if sub.project_start_ms < total_ms {
        sub.project_start_ms
    } else {
        total_ms
    };
    let end = if sub.project_end_ms < total_ms {
        sub.project_end_ms
    } else {
        total_ms
    };
    let duration = if end >= start {
        (end - start) as u64
    } else {
        0u64
    };
    RevealTiming {
        start_ms: start,
        end_ms: end,
        reveal_ms: crate::text::spec_saturating_mul_u64(duration, 85) / 100,
        steps: spec_units_count(pages),
    }
}

/// The candidate frames of one subtitle laid out on `pages`: none when the
/// subtitle is empty or lies outside the timeline.
pub open spec fn spec_plan_subtitle(sub: AiClipSubtitle, pages: Seq<Seq<(Seq<char>, bool)>>, total_ms: u64) -> Seq<
    PlannedView,
> {
    let t = spec_timing(sub, pages, total_ms);
    if t.end_ms <= t.start_ms || t.steps == 0 {
        Seq::empty()
    } else {
        spec_pages_frames(sub, pages, t)
    }
}

} // verus!

verus! {

proof fn lemma_units_count_prefix(pages: Seq<Seq<(Seq<char>, bool)>>, k: int)
    requires
        0 <= k <= pages.len(),
    ensures
        spec_units_count(pages.take(k)) <= spec_units_count(pages),
        k < pages.len() ==> spec_units_count(pages.take(k + 1)) == spec_units_count(pages.take(k))
            + pages[k].len(),
    decreases pages.len() - k,
{
    if k < pages.len() {
        assert(pages.take(k + 1).drop_last() =~= pages.take(k));
        lemma_units_count_prefix(pages, k + 1);
    } else {
        assert(pages.take(k) =~= pages);
    }
}

fn units_count(pages: &[SubtitlePage]) -> (r: usize)
    requires
        spec_units_count(pages_view(pages@)) <= usize::MAX,
    ensures
        r == spec_units_count(pages_view(pages@)),
{
    let ghost pv = pages_view(pages@);
    let mut count: usize = 0;
    let mut p: usize = 0;
    assert(pv.take(0) =~= Seq::<Seq<(Seq<char>, bool)>>::empty());
    while p < pages.len()
        invariant
            p <= pages@.len(),
            pv == pages_view(pages@),
            spec_units_count(pv) <= usize::MAX,
            count == spec_units_count(pv.take(p as int)),
        decreases pages.len() - p,
    {
        proof {
            lemma_units_count_prefix(pv, p as int);
            lemma_units_count_prefix(pv, p + 1);
        }
        assert(pv[p as int].len() == pages@[p as int].units@.len());
        count = count + pages[p].units.len();
        p += 1;
    }
    assert(pv.take(pages@.len() as int) =~= pv);
    count
}

fn step_start(start_ms: u64, reveal_ms: u64, steps: usize, index: usize) -> (r: u64)
    requires
        index < steps,
    ensures
        r == spec_step_start(
            RevealTiming { start_ms, end_ms: 0, reveal_ms, steps: steps as nat },
            index as nat,
        ),
{
    if steps <= 1 {
        start_ms
    } else {
        let offset = crate::text::saturating_mul_u64(reveal_ms, index as u64) / (steps as u64 - 1);
        start_ms.saturating_add(offset)
    }
}

proof fn lemma_step_start_ignores_end(t: RevealTiming, end: u64, index: nat)
    ensures
        spec_step_start(t, index) == spec_step_start(RevealTiming { end_ms: end, ..t }, index),
{
}

fn clone_frame(f: &AiClipSubtitleFrame) -> (r: AiClipSubtitleFrame)
    ensures
        frame_view(r) == frame_view(*f),
{
    AiClipSubtitleFrame {
        subtitle_id: f.subtitle_id,
        clip_segment_id: f.clip_segment_id,
        project_start_ms: f.project_start_ms,
        project_end_ms: f.project_end_ms,
        page_text: f.page_text.clone(),
        visible_text: f.visible_text.clone(),
        hidden_text: f.hidden_text.clone(),
    }
}

/// The frames of one page starting at reveal step `first_index`, appended to `result`.
fn plan_page(
    subtitle: &AiClipSubtitle,
    page: &SubtitlePage,
    first_index: usize,
    start_ms: u64,
    end_ms: u64,
    reveal_ms: u64,
    steps: usize,
    result: &mut Vec<PlannedFrame>,
)
    requires
        first_index + page.units@.len() <= steps,
    ensures
        planned_views(final(result)@) == planned_views(old(result)@) + spec_page_frames(
            *subtitle,
            page_view(*page),
            first_index as nat,
            page.units@.len(),
            RevealTiming { start_ms, end_ms, reveal_ms, steps: steps as nat },
        ),
{
    let ghost t = RevealTiming { start_ms, end_ms, reveal_ms, steps: steps as nat };
    let ghost u = page_view(*page);
    let len = page.units.len();
    let page_text = compose_page_text(page.units.as_slice(), 0, len);
    let ghost start_view = planned_views(result@);
    let mut done: usize = 0;
    assert(planned_views(result@) =~= start_view + spec_page_frames(
        *subtitle,
        u,
        first_index as nat,
        0,
        t,
    ));
    while done < len
        invariant
            done <= len,
            len == page.units@.len(),
            u == page_view(*page),
            u.len() == len,
            steps == t.steps,
            t == (RevealTiming { start_ms, end_ms, reveal_ms, steps: steps as nat }),
            first_index + len <= steps,
            page_text@ == spec_compose(u, 0, len as int),
            planned_views(result@) == start_view + spec_page_frames(
                *subtitle,
                u,
                first_index as nat,
                done as nat,
                t,
            ),
        decreases len - done,
    {
        let visible = done + 1;
        let index = first_index + done;
        let frame_start_ms = step_start(start_ms, reveal_ms, steps, index);
        proof {
            lemma_step_start_ignores_end(t, 0, index as nat);
        }
        let frame_end_ms = if index + 1 < steps {
            let e = step_start(start_ms, reveal_ms, steps, index + 1);
            proof {
                lemma_step_start_ignores_end(t, 0, (index + 1) as nat);
            }
            e
        } else {
            end_ms
        };
        if frame_end_ms > frame_start_ms {
            let visible_text = compose_page_text(page.units.as_slice(), 0, visible);
            let hidden_text = compose_page_text(page.units.as_slice(), visible, len);
            let ghost before = result@;
            result.push(
                PlannedFrame {
                    frame: AiClipSubtitleFrame {
                        subtitle_id: subtitle.id,
                        clip_segment_id: subtitle.clip_segment_id,
                        project_start_ms: frame_start_ms,
                        project_end_ms: frame_end_ms,
                        page_text: page_text.clone(),
                        visible_text,
                        hidden_text,
                    },
                    subtitle_start_ms: start_ms,
                    stable_segment_id: subtitle.stable_segment_id.clone(),
                    reveal_index: index,
                },
            );
            assert(planned_views(result@) =~= planned_views(before).push(planned_view(result@.last())));
        }
        done += 1;
    }
}

} // verus!

verus! {

/// The candidate frames of one subtitle laid out on `pages` (the pagination of its display units).
pub fn plan_subtitle(subtitle: &AiClipSubtitle, pages: &[SubtitlePage], total_duration_ms: u64) -> (r:
    Vec<PlannedFrame>)
    requires
        spec_units_count(pages_view(pages@)) <= usize::MAX,
    ensures
        planned_views(r@) == spec_plan_subtitle(*subtitle, pages_view(pages@), total_duration_ms),
{
    let ghost pv = pages_view(pages@);
    let start_ms = if subtitle.project_start_ms < total_duration_ms {
        subtitle.project_start_ms
    } else {
        total_duration_ms
    };
    let end_ms = if subtitle.project_end_ms < total_duration_ms {
        subtitle.project_end_ms
    } else {
        total_duration_ms
    };
    let mut result: Vec<PlannedFrame> = Vec::new();
    if end_ms <= start_ms {
        assert(planned_views(result@) =~= Seq::<PlannedView>::empty());
        return result;
    }
    let total_units = units_count(pages);
    if total_units == 0 {
        assert(planned_views(result@) =~= Seq::<PlannedView>::empty());
        return result;
    }
    let duration_ms = end_ms - start_ms;
    let reveal_ms = crate::text::saturating_mul_u64(duration_ms, 85) / 100;
    let ghost t = RevealTiming { start_ms, end_ms, reveal_ms, steps: total_units as nat };
    assert(t == spec_timing(*subtitle, pv, total_duration_ms));
    let mut global_index: usize = 0;
    let mut p: usize = 0;
    assert(pv.take(0) =~= Seq::<Seq<(Seq<char>, bool)>>::empty());
    assert(planned_views(result@) =~= Seq::<PlannedView>::empty());
    while p < pages.len()
        invariant
            p <= pages@.len(),
            pv == pages_view(pages@),
            total_units == spec_units_count(pv),
            t == (RevealTiming { start_ms, end_ms, reveal_ms, steps: total_units as nat }),
            global_index == spec_units_count(pv.take(p as int)),
            planned_views(result@) == spec_pages_frames(*subtitle, pv.take(p as int), t),
        decreases pages.len() - p,
    {
        proof {
            lemma_units_count_prefix(pv, p as int);
            lemma_units_count_prefix(pv, p + 1);
            assert(pv.take(p + 1).drop_last() =~= pv.take(p as int));
            assert(pv.take(p + 1).last() == page_view(pages@[p as int]));
        }
        plan_page(
            subtitle,
            &pages[p],
            global_index,
            start_ms,
            end_ms,
            reveal_ms,
            total_units,
            &mut result,
        );
        global_index = global_index + pages[p].units.len();
        p += 1;
    }
    assert(pv.take(pages@.len() as int) =~= pv);
    result
}

} // verus!

verus! {

/// The candidates of all shown subtitles, subtitle after subtitle.
pub open spec fn spec_candidates(
    subs: Seq<AiClipSubtitle>,
    layouts: Seq<Seq<SubtitlePage>>,
    total_ms: u64,
) -> Seq<PlannedView>
    decreases subs.len(),
{
    if subs.len() == 0 {
        Seq::empty()
    } else {
        let n = subs.len() - 1;
        spec_candidates(subs.drop_last(), layouts, total_ms) + if subs[n].hidden {
            Seq::empty()
        } else {
            spec_plan_subtitle(subs[n], pages_view(layouts[n]), total_ms)
        }
    }
}

/// `y` is where some candidate starts or ends.
pub open spec fn spec_is_endpoint(cands: Seq<PlannedView>, y: u64) -> bool {
    exists|i: int|
        0 <= i < cands.len() && (#[trigger] cands[i].frame.project_start_ms == y
            || cands[i].frame.project_end_ms == y)
}

/// The timeline boundaries: every endpoint once, in increasing order.
pub open spec fn spec_is_boundaries(cands: Seq<PlannedView>, b: Seq<u64>) -> bool {
    crate::timeline::spec_strictly_increasing(b) && forall|y: u64|
        b.contains(y) <==> spec_is_endpoint(cands, y)
}

pub open spec fn spec_covers(c: PlannedView, at: u64) -> bool {
    c.frame.project_start_ms <= at && c.frame.project_end_ms > at
}

/// The order that decides between overlapping candidates: the later subtitle,
/// then the larger stable segment id, then the later reveal step.
pub open spec fn spec_key_le(a: PlannedView, b: PlannedView) -> bool {
    a.subtitle_start_ms < b.subtitle_start_ms || (a.subtitle_start_ms == b.subtitle_start_ms && (
    crate::text::spec_lex_order(a.stable_segment_id, b.stable_segment_id) < 0 || (
    crate::text::spec_lex_order(a.stable_segment_id, b.stable_segment_id) == 0 && a.reveal_index
        <= b.reveal_index)))
}

/// The greatest candidate covering `at` (the last one among equals, as `max_by` picks it).
pub open spec fn spec_select(cands: Seq<PlannedView>, at: u64) -> Option<PlannedView>
    decreases cands.len(),
{
    if cands.len() == 0 {
        None
    } else {
        let best = spec_select(cands.drop_last(), at);
        let c = cands.last();
        if spec_covers(c, at) {
            match best {
                Some(b) => if spec_key_le(b, c) {
                    Some(c)
                } else {
                    Some(b)
                },
                None => Some(c),
            }
        } else {
            best
        }
    }
}

/// Two consecutive frames showing the same thing are one frame.
pub open spec fn spec_mergeable(prev: FrameView, f: FrameView) -> bool {
    prev.project_end_ms == f.project_start_ms && prev.subtitle_id == f.subtitle_id
        && prev.clip_segment_id == f.clip_segment_id && prev.page_text == f.page_text
        && prev.visible_text == f.visible_text && prev.hidden_text == f.hidden_text
}

/// The frames of the first `k` windows between consecutive boundaries.
pub open spec fn spec_resolve(cands: Seq<PlannedView>, b: Seq<u64>, k: nat) -> Seq<FrameView>
    decreases k,
{
    if k == 0 || k >= b.len() {
        Seq::empty()
    } else {
        let prev = spec_resolve(cands, b, (k - 1) as nat);
        let start = b[k - 1];
        let end = b[k as int];
        if end <= start {
            prev
        } else {
            match spec_select(cands, start) {
                None => prev,
                Some(c) => {
                    let f = FrameView { project_start_ms: start, project_end_ms: end, ..c.frame };
                    if prev.len() > 0 && spec_mergeable(prev.last(), f) {
                        prev.update(
                            prev.len() - 1,
                            FrameView { project_end_ms: end, ..prev.last() },
                        )
                    } else {
                        prev.push(f)
                    }
                },
            }
        }
    }
}

/// The resolved timeline for the boundaries `b`.
pub open spec fn spec_resolved(cands: Seq<PlannedView>, b: Seq<u64>) -> Seq<FrameView> {
    if b.len() < 2 {
        Seq::empty()
    } else {
        spec_resolve(cands, b, (b.len() - 1) as nat)
    }
}

pub open spec fn frame_views(v: Seq<AiClipSubtitleFrame>) -> Seq<FrameView> {
    v.map_values(|f: AiClipSubtitleFrame| frame_view(f))
}

fn key_le(a: &PlannedFrame, b: &PlannedFrame) -> (r: bool)
    ensures
        r == spec_key_le(planned_view(*a), planned_view(*b)),
{
    if a.subtitle_start_ms != b.subtitle_start_ms {
        return a.subtitle_start_ms < b.subtitle_start_ms;
    }
    let order = crate::text::lex_order(a.stable_segment_id.as_str(), b.stable_segment_id.as_str());
    if order != 0 {
        return order < 0;
    }
    a.reveal_index <= b.reveal_index
}

fn select(cands: &Vec<PlannedFrame>, at: u64) -> (r: Option<usize>)
    ensures
        match (r, spec_select(planned_views(cands@), at)) {
            (Some(i), Some(c)) => i < cands@.len() && planned_view(cands@[i as int]) == c,
            (None, None) => true,
            _ => false,
        },
{
    let ghost all = planned_views(cands@);
    let mut best: Option<usize> = None;
    let mut i: usize = 0;
    assert(all.take(0) =~= Seq::<PlannedView>::empty());
    while i < cands.len()
        invariant
            i <= cands@.len(),
            all == planned_views(cands@),
            match (best, spec_select(all.take(i as int), at)) {
                (Some(k), Some(c)) => k < cands@.len() && planned_view(cands@[k as int]) == c,
                (None, None) => true,
                _ => false,
            },
        decreases cands.len() - i,
    {
        assert(all.take(i + 1).drop_last() =~= all.take(i as int));
        assert(all.take(i + 1).last() == planned_view(cands@[i as int]));
        let c = &cands[i];
        if c.frame.project_start_ms <= at && c.frame.project_end_ms > at {
            match best {
                Some(k) => {
                    if key_le(&cands[k], c) {
                        best = Some(i);
                    }
                },
                None => {
                    best = Some(i);
                },
            }
        }
        i += 1;
    }
    assert(all.take(cands@.len() as int) =~= all);
    best
}

} // verus!

verus! {

pub open spec fn layouts_view(layouts: Seq<Vec<SubtitlePage>>) -> Seq<Seq<SubtitlePage>> {
    layouts.map_values(|l: Vec<SubtitlePage>| l@)
}

proof fn lemma_endpoint_step(all: Seq<PlannedView>, i: int)
    requires
        0 <= i < all.len(),
    ensures
        forall|y: u64|
            #![trigger spec_is_endpoint(all.take(i + 1), y)]
            spec_is_endpoint(all.take(i + 1), y) <==> (spec_is_endpoint(all.take(i), y)
                || all[i].frame.project_start_ms == y || all[i].frame.project_end_ms == y),
{
    assert forall|y: u64|
        #![trigger spec_is_endpoint(all.take(i + 1), y)]
        spec_is_endpoint(all.take(i + 1), y) <==> (spec_is_endpoint(all.take(i), y)
            || all[i].frame.project_start_ms == y || all[i].frame.project_end_ms == y) by {
        let t = all.take(i + 1);
        let p = all.take(i);
        if spec_is_endpoint(t, y) {
            let k = choose|k: int|
                0 <= k < t.len() && (#[trigger] t[k].frame.project_start_ms == y
                    || t[k].frame.project_end_ms == y);
            if k < i {
                assert(p[k] == t[k]);
                assert(p[k].frame.project_start_ms == y || p[k].frame.project_end_ms == y);
            } else {
                assert(t[k] == all[i]);
            }
        }
        if spec_is_endpoint(p, y) {
            let k = choose|k: int|
                0 <= k < p.len() && (#[trigger] p[k].frame.project_start_ms == y
                    || p[k].frame.project_end_ms == y);
            assert(t[k] == p[k]);
            assert(t[k].frame.project_start_ms == y || t[k].frame.project_end_ms == y);
        }
        if all[i].frame.project_start_ms == y || all[i].frame.project_end_ms == y {
            assert(t[i] == all[i]);
            assert(t[i].frame.project_start_ms == y || t[i].frame.project_end_ms == y);
        }
    }
}

fn collect_boundaries(cands: &Vec<PlannedFrame>) -> (b: Vec<u64>)
    ensures
        spec_is_boundaries(planned_views(cands@), b@),
{
    let ghost all = planned_views(cands@);
    let mut b: Vec<u64> = Vec::new();
    let mut i: usize = 0;
    while i < cands.len()
        invariant
            i <= cands@.len(),
            all == planned_views(cands@),
            crate::timeline::spec_strictly_increasing(b@),
            forall|y: u64| b@.contains(y) <==> spec_is_endpoint(all.take(i as int), y),
        decreases cands.len() - i,
    {
        let ghost before = b@;
        crate::timeline::insert_boundary(&mut b, cands[i].frame.project_start_ms);
        crate::timeline::insert_boundary(&mut b, cands[i].frame.project_end_ms);
        proof {
            lemma_endpoint_step(all, i as int);
        }
        assert(all[i as int] == planned_view(cands@[i as int]));
        i += 1;
    }
    assert(all.take(cands@.len() as int) =~= all);
    b
}

/// The authoritative word-by-word display plan shared by the preview and the
/// export. `layouts[i]` holds the pages of subtitle `i`'s display units.
pub fn build_clip_subtitle_frames(
    subtitles: &[AiClipSubtitle],
    layouts: &[Vec<SubtitlePage>],
    total_duration_ms: u64,
) -> (r: Vec<AiClipSubtitleFrame>)
    requires
        layouts@.len() == subtitles@.len(),
        forall|i: int|
            0 <= i < layouts@.len() ==> spec_units_count(pages_view(#[trigger] layouts@[i]@))
                <= usize::MAX,
    ensures
        exists|b: Seq<u64>|
            #[trigger] spec_is_boundaries(
                spec_candidates(subtitles@, layouts_view(layouts@), total_duration_ms),
                b,
            ) && frame_views(r@) == spec_resolved(
                spec_candidates(subtitles@, layouts_view(layouts@), total_duration_ms),
                b,
            ),
{
    let ghost lv = layouts_view(layouts@);
    let mut candidates: Vec<PlannedFrame> = Vec::new();
    let mut i: usize = 0;
    assert(subtitles@.take(0) =~= Seq::<AiClipSubtitle>::empty());
    assert(planned_views(candidates@) =~= Seq::<PlannedView>::empty());
    while i < subtitles.len()
        invariant
            i <= subtitles@.len(),
            layouts@.len() == subtitles@.len(),
            lv == layouts_view(layouts@),
            forall|k: int|
                0 <= k < layouts@.len() ==> spec_units_count(pages_view(#[trigger] layouts@[k]@))
                    <= usize::MAX,
            planned_views(candidates@) == spec_candidates(
                subtitles@.take(i as int),
                lv,
                total_duration_ms,
            ),
        decreases subtitles.len() - i,
    {
        assert(subtitles@.take(i + 1).drop_last() =~= subtitles@.take(i as int));
        assert(subtitles@.take(i + 1)[i as int] == subtitles@[i as int]);
        assert(lv[i as int] == layouts@[i as int]@);
        if !subtitles[i].hidden {
            let planned = plan_subtitle(&subtitles[i], layouts[i].as_slice(), total_duration_ms);
            let ghost before = candidates@;
            let mut k: usize = 0;
            while k < planned.len()
                invariant
                    k <= planned@.len(),
                    planned_views(candidates@) == planned_views(before) + planned_views(
                        planned@,
                    ).take(k as int),
                decreases planned.len() - k,
            {
                let ghost c0 = candidates@;
                candidates.push(planned[k].clone_planned());
                assert(planned_views(candidates@) =~= planned_views(c0).push(
                    planned_view(planned@[k as int]),
                ));
                k += 1;
                assert(planned_views(candidates@) =~= planned_views(before) + planned_views(
                    planned@,
                ).take(k as int));
            }
            assert(planned_views(planned@).take(planned@.len() as int) =~= planned_views(planned@));
        } else {
            assert(planned_views(candidates@) =~= planned_views(candidates@) + Seq::<PlannedView>::empty());
        }
        i += 1;
    }
    assert(subtitles@.take(subtitles@.len() as int) =~= subtitles@);
    let ghost cands = planned_views(candidates@);
    let boundaries = collect_boundaries(&candidates);
    let mut resolved: Vec<AiClipSubtitleFrame> = Vec::new();
    if boundaries.len() < 2 {
        assert(frame_views(resolved@) =~= Seq::<FrameView>::empty());
        return resolved;
    }
    let mut k: usize = 1;
    assert(frame_views(resolved@) =~= spec_resolve(cands, boundaries@, 0));
    while k < boundaries.len()
        invariant
            1 <= k <= boundaries@.len(),
            cands == planned_views(candidates@),
            frame_views(resolved@) == spec_resolve(cands, boundaries@, (k - 1) as nat),
        decreases boundaries.len() - k,
    {
        let start_ms = boundaries[k - 1];
        let end_ms = boundaries[k];
        if end_ms > start_ms {
            match select(&candidates, start_ms) {
                None => {},
                Some(selected) => {
                    let mut frame = clone_frame(&candidates[selected].frame);
                    frame.project_start_ms = start_ms;
                    frame.project_end_ms = end_ms;
                    let n = resolved.len();
                    let merge = n > 0 && resolved[n - 1].project_end_ms == start_ms
                        && resolved[n - 1].subtitle_id == frame.subtitle_id
                        && resolved[n - 1].clip_segment_id == frame.clip_segment_id
                        && crate::text::str_eq(
                        resolved[n - 1].page_text.as_str(),
                        frame.page_text.as_str(),
                    ) && crate::text::str_eq(
                        resolved[n - 1].visible_text.as_str(),
                        frame.visible_text.as_str(),
                    ) && crate::text::str_eq(
                        resolved[n - 1].hidden_text.as_str(),
                        frame.hidden_text.as_str(),
                    );
                    let ghost before = resolved@;
                    if merge {
                        let mut previous = clone_frame(&resolved[n - 1]);
                        previous.project_end_ms = end_ms;
                        resolved.set(n - 1, previous);
                        assert(frame_views(resolved@) =~= frame_views(before).update(
                            n - 1,
                            FrameView { project_end_ms: end_ms, ..frame_views(before).last() },
                        ));
                    } else {
                        resolved.push(frame);
                        assert(frame_views(resolved@) =~= frame_views(before).push(
                            frame_view(resolved@.last()),
                        ));
                    }
                },
            }
        }
        k += 1;
    }
    resolved
}

impl PlannedFrame {
    /// A copy holding the same values.
    pub fn clone_planned(&self) -> (r: PlannedFrame)
        ensures
            planned_view(r) == planned_view(*self),
    {
        PlannedFrame {
            frame: clone_frame(&self.frame),
            subtitle_start_ms: self.subtitle_start_ms,
            stable_segment_id: self.stable_segment_id.clone(),
            reveal_index: self.reveal_index,
        }
    }
}

} // verus!

verus! {

/// One still image of the burned-in subtitle track: the page shown (if any)
/// and how many of its UTF-8 bytes are revealed.
#[derive(Debug, Clone, PartialEq, Eq)]
pub struct RenderFrame {
    pub start_ms: u64,
    pub end_ms: u64,
    pub page_text: Option<String>,
    pub visible_bytes: usize,
}

pub struct RenderView {
    pub start_ms: u64,
    pub end_ms: u64,
    pub page_text: Option<Seq<char>>,
    pub visible_bytes: nat,
}

pub open spec fn render_view(f: RenderFrame) -> RenderView {
    RenderView {
        start_ms: f.start_ms,
        end_ms: f.end_ms,
        page_text: crate::text::opt_view(f.page_text),
        visible_bytes: f.visible_bytes as nat,
    }
}

pub open spec fn render_views(v: Seq<RenderFrame>) -> Seq<RenderView> {
    v.map_values(|f: RenderFrame| render_view(f))
}

pub open spec fn spec_clamp(x: u64, total: u64) -> u64 {
    if x < total {
        x
    } else {
        total
    }
}

/// `y` is zero, the total duration, or a (clamped) endpoint of a display frame.
pub open spec fn spec_is_render_endpoint(frames: Seq<FrameView>, total: u64, y: u64) -> bool {
    y == 0 || y == total || exists|i: int|
        0 <= i < frames.len() && (spec_clamp(#[trigger] frames[i].project_start_ms, total) == y
            || spec_clamp(frames[i].project_end_ms, total) == y)
}

/// The first display frame covering `at`.
pub open spec fn spec_find_first(frames: Seq<FrameView>, at: u64) -> Option<FrameView>
    decreases frames.len(),
{
    if frames.len() == 0 {
        None
    } else {
        let f = frames[0];
        if f.project_start_ms <= at && f.project_end_ms > at {
            Some(f)
        } else {
            spec_find_first(frames.drop_first(), at)
        }
    }
}

/// The render frames of the first `k` windows between consecutive boundaries;
/// windows without subtitle become transparent frames.
pub open spec fn spec_render(frames: Seq<FrameView>, b: Seq<u64>, k: nat) -> Seq<RenderView>
    decreases k,
{
    if k == 0 || k >= b.len() {
        Seq::empty()
    } else {
        let prev = spec_render(frames, b, (k - 1) as nat);
        let start = b[k - 1];
        let end = b[k as int];
        if end <= start {
            prev
        } else {
            let selected = spec_find_first(frames, start);
            let page = match selected {
                Some(f) => Some(f.page_text),
                None => None,
            };
            let bytes = match selected {
                Some(f) => (crate::text::spec_byte_len(f.visible_text) as usize) as nat,
                None => 0,
            };
            if prev.len() > 0 && prev.last().end_ms == start && prev.last().page_text == page
                && prev.last().visible_bytes == bytes {
                prev.update(prev.len() - 1, RenderView { end_ms: end, ..prev.last() })
            } else {
                prev.push(RenderView { start_ms: start, end_ms: end, page_text: page, visible_bytes: bytes })
            }
        }
    }
}

proof fn lemma_render_endpoint_step(frames: Seq<FrameView>, total: u64, i: int)
    requires
        0 <= i < frames.len(),
    ensures
        forall|y: u64|
            #![trigger spec_is_render_endpoint(frames.take(i + 1), total, y)]
            spec_is_render_endpoint(frames.take(i + 1), total, y) <==> (spec_is_render_endpoint(
                frames.take(i),
                total,
                y,
            ) || spec_clamp(frames[i].project_start_ms, total) == y || spec_clamp(
                frames[i].project_end_ms,
                total,
            ) == y),
{
    assert forall|y: u64|
        #![trigger spec_is_render_endpoint(frames.take(i + 1), total, y)]
        spec_is_render_endpoint(frames.take(i + 1), total, y) <==> (spec_is_render_endpoint(
            frames.take(i),
            total,
            y,
        ) || spec_clamp(frames[i].project_start_ms, total) == y || spec_clamp(
            frames[i].project_end_ms,
            total,
        ) == y) by {
        let t = frames.take(i + 1);
        let p = frames.take(i);
        if y != 0 && y != total {
            if spec_is_render_endpoint(t, total, y) {
                let k = choose|k: int|
                    0 <= k < t.len() && (spec_clamp(#[trigger] t[k].project_start_ms, total) == y
                        || spec_clamp(t[k].project_end_ms, total) == y);
                assert(0 <= k <= i);
                if k < i {
                    assert(t[k] == frames[k]);
                    assert(p[k] == frames[k]);
                    assert(spec_clamp(p[k].project_start_ms, total) == y || spec_clamp(
                        p[k].project_end_ms,
                        total,
                    ) == y);
                } else {
                    assert(t[k] == frames[i]);
                }
            }
            if spec_is_render_endpoint(p, total, y) {
                let k = choose|k: int|
                    0 <= k < p.len() && (spec_clamp(#[trigger] p[k].project_start_ms, total) == y
                        || spec_clamp(p[k].project_end_ms, total) == y);
                assert(0 <= k < i);
                assert(t[k] == frames[k]);
                assert(p[k] == frames[k]);
                assert(spec_clamp(t[k].project_start_ms, total) == y || spec_clamp(
                    t[k].project_end_ms,
                    total,
                ) == y);
            }
            if spec_clamp(frames[i].project_start_ms, total) == y || spec_clamp(
                frames[i].project_end_ms,
                total,
            ) == y {
                assert(t[i] == frames[i]);
                assert(spec_clamp(t[i].project_start_ms, total) == y || spec_clamp(
                    t[i].project_end_ms,
                    total,
                ) == y);
            }
        }
    }
}

fn find_first(frames: &[AiClipSubtitleFrame], at: u64) -> (r: Option<usize>)
    ensures
        match (r, spec_find_first(frame_views(frames@), at)) {
            (Some(i), Some(f)) => i < frames@.len() && frame_view(frames@[i as int]) == f,
            (None, None) => true,
            _ => false,
        },
{
    let ghost all = frame_views(frames@);
    let mut i: usize = 0;
    assert(all.skip(0) =~= all);
    while i < frames.len()
        invariant
            i <= frames@.len(),
            all == frame_views(frames@),
            spec_find_first(all, at) == spec_find_first(all.skip(i as int), at),
        decreases frames.len() - i,
    {
        assert(all.skip(i as int)[0] == frame_view(frames@[i as int]));
        if frames[i].project_start_ms <= at && frames[i].project_end_ms > at {
            return Some(i);
        }
        assert(all.skip(i as int).drop_first() =~= all.skip(i + 1));
        i += 1;
    }
    None
}

/// Splits the timeline `0..total` into the still images to render, a
/// transparent image wherever no subtitle is shown.
pub fn build_render_frames(display_frames: &[AiClipSubtitleFrame], total_duration_ms: u64) -> (r: Vec<
    RenderFrame,
>)
    ensures
        exists|b: Seq<u64>|
            #[trigger] crate::timeline::spec_strictly_increasing(b) && (forall|y: u64|
                b.contains(y) <==> spec_is_render_endpoint(
                    frame_views(display_frames@),
                    total_duration_ms,
                    y,
                )) && render_views(r@) == if b.len() < 2 {
                Seq::empty()
            } else {
                spec_render(frame_views(display_frames@), b, (b.len() - 1) as nat)
            },
{
    let ghost all = frame_views(display_frames@);
    let mut boundaries: Vec<u64> = Vec::new();
    crate::timeline::insert_boundary(&mut boundaries, 0);
    crate::timeline::insert_boundary(&mut boundaries, total_duration_ms);
    let mut i: usize = 0;
    assert(all.take(0) =~= Seq::<FrameView>::empty());
    while i < display_frames.len()
        invariant
            i <= display_frames@.len(),
            all == frame_views(display_frames@),
            crate::timeline::spec_strictly_increasing(boundaries@),
            forall|y: u64|
                boundaries@.contains(y) <==> spec_is_render_endpoint(
                    all.take(i as int),
                    total_duration_ms,
                    y,
                ),
        decreases display_frames.len() - i,
    {
        let frame = &display_frames[i];
        let start = if frame.project_start_ms < total_duration_ms {
            frame.project_start_ms
        } else {
            total_duration_ms
        };
        let end = if frame.project_end_ms < total_duration_ms {
            frame.project_end_ms
        } else {
            total_duration_ms
        };
        crate::timeline::insert_boundary(&mut boundaries, start);
        crate::timeline::insert_boundary(&mut boundaries, end);
        proof {
            lemma_render_endpoint_step(all, total_duration_ms, i as int);
        }
        assert(all[i as int] == frame_view(display_frames@[i as int]));
        i += 1;
    }
    assert(all.take(display_frames@.len() as int) =~= all);
    let mut frames: Vec<RenderFrame> = Vec::new();
    if boundaries.len() < 2 {
        assert(render_views(frames@) =~= Seq::<RenderView>::empty());
        return frames;
    }
    let mut k: usize = 1;
    assert(render_views(frames@) =~= spec_render(all, boundaries@, 0));
    while k < boundaries.len()
        invariant
            1 <= k <= boundaries@.len(),
            all == frame_views(display_frames@),
            render_views(frames@) == spec_render(all, boundaries@, (k - 1) as nat),
        decreases boundaries.len() - k,
    {
        let start_ms = boundaries[k - 1];
        let end_ms = boundaries[k];
        if end_ms > start_ms {
            let selected = find_first(display_frames, start_ms);
            let page_text = match selected {
                Some(s) => Some(display_frames[s].page_text.clone()),
                None => None,
            };
            let visible_bytes = match selected {
                Some(s) => crate::text::byte_len(display_frames[s].visible_text.as_str()),
                None => 0,
            };
            let n = frames.len();
            let same_page = n > 0 && match (&frames[n - 1].page_text, &page_text) {
                (Some(a), Some(b)) => crate::text::str_eq(a.as_str(), b.as_str()),
                (None, None) => true,
                _ => false,
            };
            let ghost before = frames@;
            if n > 0 && frames[n - 1].end_ms == start_ms && same_page && frames[n - 1].visible_bytes
                == visible_bytes {
                let previous = RenderFrame {
                    start_ms: frames[n - 1].start_ms,
                    end_ms: end_ms,
                    page_text: crate::text::clone_opt(&frames[n - 1].page_text),
                    visible_bytes: frames[n - 1].visible_bytes,
                };
                frames.set(n - 1, previous);
                assert(render_views(frames@) =~= render_views(before).update(
                    n - 1,
                    RenderView { end_ms: end_ms, ..render_views(before).last() },
                ));
            } else {
                frames.push(RenderFrame { start_ms, end_ms, page_text, visible_bytes });
                assert(render_views(frames@) =~= render_views(before).push(
                    render_view(frames@.last()),
                ));
            }
        }
        k += 1;
    }
    frames
}

} // verus!

verus! {

/// The file name of the `index`-th rendered image.
pub open spec fn spec_frame_file_name(index: nat) -> Seq<char> {
    "frame-"@ + crate::text::spec_decimal_padded(index, 6) + ".png"@
}

pub fn frame_file_name(index: usize) -> (r: String)
    ensures
        r@ == spec_frame_file_name(index as nat),
{
    let mut name = String::from_str("frame-");
    let digits = crate::text::decimal_padded(index as u64, 6);
    name.append(digits.as_str());
    name.append(".png");
    name
}

/// One manifest entry per rendered image: its file and how long it shows.
pub open spec fn spec_manifest_entries(frames: Seq<RenderFrame>) -> Seq<char>
    decreases frames.len(),
{
    if frames.len() == 0 {
        Seq::empty()
    } else {
        let f = frames.last();
        spec_manifest_entries(frames.drop_last()) + "file '"@ + spec_frame_file_name(
            (frames.len() - 1) as nat,
        ) + "'\nduration "@ + crate::clip_export::spec_seconds(
            if f.end_ms >= f.start_ms {
                (f.end_ms - f.start_ms) as nat
            } else {
                0
            },
        ) + "\n"@
    }
}

/// The concat manifest of the rendered images. The last file is listed once
/// more, since the concat demuxer only honours a final duration that way. It
/// names files only: no subtitle text and no directory.
pub open spec fn spec_manifest(frames: Seq<RenderFrame>) -> Seq<char> {
    "ffconcat version 1.0\n"@ + spec_manifest_entries(frames) + if frames.len() > 0 {
        "file '"@ + spec_frame_file_name((frames.len() - 1) as nat) + "'\n"@
    } else {
        Seq::empty()
    }
}

pub fn subtitle_manifest(frames: &[RenderFrame]) -> (r: String)
    ensures
        r@ == spec_manifest(frames@),
{
    let mut manifest = String::from_str("ffconcat version 1.0\n");
    let ghost head = manifest@;
    let mut i: usize = 0;
    assert(frames@.take(0) =~= Seq::<RenderFrame>::empty());
    while i < frames.len()
        invariant
            i <= frames@.len(),
            head == "ffconcat version 1.0\n"@,
            manifest@ == head + spec_manifest_entries(frames@.take(i as int)),
        decreases frames.len() - i,
    {
        assert(frames@.take(i + 1).drop_last() =~= frames@.take(i as int));
        assert(frames@.take(i + 1).last() == frames@[i as int]);
        let frame = &frames[i];
        let name = frame_file_name(i);
        let length = frame.end_ms.saturating_sub(frame.start_ms);
        let seconds = crate::clip_export::format_seconds(length);
        manifest.append("file '");
        manifest.append(name.as_str());
        manifest.append("'\nduration ");
        manifest.append(seconds.as_str());
        manifest.append("\n");
        i += 1;
        assert(manifest@ =~= head + spec_manifest_entries(frames@.take(i as int)));
    }
    assert(frames@.take(frames@.len() as int) =~= frames@);
    if frames.len() > 0 {
        let name = frame_file_name(frames.len() - 1);
        manifest.append("file '");
        manifest.append(name.as_str());
        manifest.append("'\n");
    } else {
        assert(manifest@ =~= spec_manifest(frames@));
    }
    manifest
}

/// Rendering needs a positive project length and at least one subtitle.
pub fn check_render_request(subtitle_count: usize, total_duration_ms: u64) -> (r: Result<(), crate::clip_export::ClipExportFailure>)
    ensures
        total_duration_ms == 0 ==> (r matches Err(f) && f.code@ == "invalid_segment"@ && f.message@
            == "剪辑工程总时长无效"@),
        total_duration_ms > 0 && subtitle_count == 0 ==> (r matches Err(f) && f.code@
            == "subtitles_incomplete"@ && f.message@ == "剪辑片段缺少 ASR 字幕，请先完成识别或移除该片段"@),
        total_duration_ms > 0 && subtitle_count > 0 ==> r is Ok,
{
    if total_duration_ms == 0 {
        return Err(crate::clip_export::failure("invalid_segment", String::from_str("剪辑工程总时长无效")));
    }
    if subtitle_count == 0 {
        return Err(
            crate::clip_export::failure(
                "subtitles_incomplete",
                String::from_str("剪辑片段缺少 ASR 字幕，请先完成识别或移除该片段"),
            ),
        );
    }
    Ok(())
}

} // verus!
