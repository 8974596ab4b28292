//! Checks and orderings of clip projects: the request that assembles a
//! project automatically, the guards on later edits, and the order in which
//! segments and sources are renumbered after an automatic append. The
//! transactions that read and write the rows live with the application.

use vstd::prelude::*;

use crate::repository::AiRepositoryError;
use crate::text::{concat_str, spec_trim, str_eq, trim};

verus! {

/// One source of an automatically assembled clip project: a highlight run
/// and the workflow batch that produced it.
#[derive(Debug, Clone, Copy, PartialEq, Eq, Structural)]
pub struct AiSmartClipSourceInput {
    pub highlight_run_id: i64,
    pub workflow_batch_id: i64,
}

/// `e` is an invalid-state error with message `m`.
pub open spec fn spec_invalid_state(e: AiRepositoryError, m: Seq<char>) -> bool {
    e matches AiRepositoryError::InvalidState(s) && s@ == m
}

/// `e` is an integrity error with message `m`.
pub open spec fn spec_integrity(e: AiRepositoryError, m: Seq<char>) -> bool {
    e matches AiRepositoryError::Integrity(s) && s@ == m
}

/// Some value occurs twice.
pub open spec fn spec_has_duplicate(ids: Seq<i64>) -> bool {
    exists|i: int, j: int| 0 <= i < j < ids.len() && #[trigger] ids[i] == #[trigger] ids[j]
}

pub fn has_duplicate(ids: &[i64]) -> (r: bool)
    ensures
        r == spec_has_duplicate(ids@),
{
    let mut i: usize = 0;
    while i < ids.len()
        invariant
            i <= ids@.len(),
            forall|a: int, b: int|
                0 <= a < i && a < b < ids@.len() ==> #[trigger] ids@[a] != #[trigger] ids@[b],
        decreases ids.len() - i,
    {
        let mut j: usize = i + 1;
        while j < ids.len()
            invariant
                i < ids@.len(),
                i + 1 <= j <= ids@.len(),
                forall|a: int, b: int|
                    0 <= a < i && a < b < ids@.len() ==> #[trigger] ids@[a] != #[trigger] ids@[b],
                forall|b: int| i < b < j ==> ids@[i as int] != #[trigger] ids@[b],
            decreases ids.len() - j,
        {
            if ids[i] == ids[j] {
                assert(ids@[i as int] == ids@[j as int]);
                return true;
            }
            j += 1;
        }
        i += 1;
    }
    false
}

pub open spec fn spec_run_ids(sources: Seq<AiSmartClipSourceInput>) -> Seq<i64> {
    sources.map_values(|s: AiSmartClipSourceInput| s.highlight_run_id)
}

fn run_ids(sources: &[AiSmartClipSourceInput]) -> (r: Vec<i64>)
    ensures
        r@ == spec_run_ids(sources@),
{
    let mut r: Vec<i64> = Vec::new();
    let mut i: usize = 0;
    while i < sources.len()
        invariant
            i <= sources@.len(),
            r@ == spec_run_ids(sources@.take(i as int)),
        decreases sources.len() - i,
    {
        r.push(sources[i].highlight_run_id);
        assert(spec_run_ids(sources@.take(i + 1)) =~= spec_run_ids(sources@.take(i as int)).push(
            sources@[i as int].highlight_run_id,
        ));
        i += 1;
    }
    assert(sources@.take(sources@.len() as int) =~= sources@);
    r
}

/// Checks a request to assemble a clip project automatically and gives its
/// trimmed name: every part must be there, the name must not be blank, and
/// no source run or candidate may be listed twice.
pub fn check_smart_clip_request(
    generation: u32,
    name: &str,
    sources: &[AiSmartClipSourceInput],
    candidate_ids: &[i64],
) -> (r: Result<String, AiRepositoryError>)
    ensures
        (generation == 0 || sources.len() == 0 || candidate_ids.len() == 0) ==> (r matches Err(e)
            && spec_invalid_state(e, "智能合辑必须包含来源和入选候选"@)),
        !(generation == 0 || sources.len() == 0 || candidate_ids.len() == 0) && spec_trim(name@).len()
            == 0 ==> (r matches Err(e) && spec_invalid_state(e, "智能合辑名称不能为空"@)),
        !(generation == 0 || sources.len() == 0 || candidate_ids.len() == 0) && spec_trim(name@).len()
            > 0 && (spec_has_duplicate(spec_run_ids(sources@)) || spec_has_duplicate(candidate_ids@))
            ==> (r matches Err(e) && spec_integrity(e, "智能合辑来源或候选不能重复"@)),
        r is Ok <==> !(generation == 0 || sources.len() == 0 || candidate_ids.len() == 0)
            && spec_trim(name@).len() > 0 && !spec_has_duplicate(spec_run_ids(sources@))
            && !spec_has_duplicate(candidate_ids@),
        r matches Ok(t) ==> t@ == spec_trim(name@),
{
    if generation == 0 || sources.len() == 0 || candidate_ids.len() == 0 {
        return Err(AiRepositoryError::InvalidState(String::from_str("智能合辑必须包含来源和入选候选")));
    }
    let trimmed = trim(name);
    if trimmed.unicode_len() == 0 {
        return Err(AiRepositoryError::InvalidState(String::from_str("智能合辑名称不能为空")));
    }
    let runs = run_ids(sources);
    if has_duplicate(runs.as_slice()) || has_duplicate(candidate_ids) {
        return Err(AiRepositoryError::Integrity(String::from_str("智能合辑来源或候选不能重复")));
    }
    Ok(trimmed)
}

/// Checks that a workflow can take a new draft generation: the workflow must
/// exist and not have ended, and the generation must be free.
pub fn check_smart_draft_slot(workflow_status: Option<&str>, generation_taken: bool) -> (r: Result<
    (),
    AiRepositoryError,
>)
    ensures
        workflow_status is None ==> (r matches Err(e) && e matches AiRepositoryError::NotFound(m)
            && m@ == "智能成片任务"@),
        workflow_status matches Some(s) && (s@ == "completed"@ || s@ == "cancelled"@) ==> (r matches Err(e)
            && spec_invalid_state(e, "已结束智能任务不能创建草稿"@)),
        workflow_status matches Some(s) && !(s@ == "completed"@ || s@ == "cancelled"@) && generation_taken
            ==> (r matches Err(e) && spec_invalid_state(e, "该智能草稿代次已经存在"@)),
        r is Ok <==> (workflow_status matches Some(s) && !(s@ == "completed"@ || s@ == "cancelled"@)
            && !generation_taken),
{
    match workflow_status {
        None => Err(AiRepositoryError::NotFound(String::from_str("智能成片任务"))),
        Some(status) => {
            if str_eq(status, "completed") || str_eq(status, "cancelled") {
                Err(AiRepositoryError::InvalidState(String::from_str("已结束智能任务不能创建草稿")))
            } else if generation_taken {
                Err(AiRepositoryError::InvalidState(String::from_str("该智能草稿代次已经存在")))
            } else {
                Ok(())
            }
        },
    }
}

/// What the guards of a clip project read of its row.
#[derive(Debug, Clone, PartialEq, Eq)]
pub struct ClipProjectEditState {
    pub version: i64,
    pub ownership: String,
    pub smart_workflow_id: Option<i64>,
    pub draft_generation: Option<i64>,
    pub export_status: String,
}

/// A project still owned by its automation, at the expected version.
pub open spec fn spec_automation_current(state: ClipProjectEditState, expected_version: u32) -> bool {
    state.version == expected_version as int && state.ownership@ == "automation"@
}

/// Guards an automatic append of candidates to an automatically assembled
/// draft: it must be at the expected version, still owned by the automation
/// and belong to a workflow draft; and it must not be exporting.
pub fn check_automation_append(state: &ClipProjectEditState, expected_version: u32) -> (r: Result<
    (),
    AiRepositoryError,
>)
    ensures
        !(spec_automation_current(*state, expected_version) && state.smart_workflow_id is Some
            && state.draft_generation is Some) ==> r == Err::<(), AiRepositoryError>(
            AiRepositoryError::ClipVersionConflict,
        ),
        spec_automation_current(*state, expected_version) && state.smart_workflow_id is Some
            && state.draft_generation is Some ==> (r is Ok <==> state.export_status@ == "idle"@),
        r is Err && spec_automation_current(*state, expected_version) && state.smart_workflow_id is Some
            && state.draft_generation is Some ==> r == Err::<(), AiRepositoryError>(
            AiRepositoryError::ClipExportInProgress,
        ),
{
    if state.version != expected_version as i64 || !str_eq(state.ownership.as_str(), "automation")
        || state.smart_workflow_id.is_none() || state.draft_generation.is_none() {
        return Err(AiRepositoryError::ClipVersionConflict);
    }
    if !str_eq(state.export_status.as_str(), "idle") {
        return Err(AiRepositoryError::ClipExportInProgress);
    }
    Ok(())
}

/// Guards an increment of sources and candidates to a workflow draft: the
/// project must belong to a workflow, be at the expected version and still
/// owned by the automation, and not be exporting. Gives the workflow.
pub fn check_automation_increment(state: &ClipProjectEditState, expected_version: u32) -> (r: Result<
    i64,
    AiRepositoryError,
>)
    ensures
        state.smart_workflow_id is None ==> (r matches Err(e) && spec_invalid_state(
            e,
            "普通工程不能接受智能任务增量"@,
        )),
        state.smart_workflow_id is Some && !spec_automation_current(*state, expected_version) ==> r
            == Err::<i64, AiRepositoryError>(AiRepositoryError::ClipVersionConflict),
        state.smart_workflow_id is Some && spec_automation_current(*state, expected_version)
            && state.export_status@ != "idle"@ ==> r == Err::<i64, AiRepositoryError>(
            AiRepositoryError::ClipExportInProgress,
        ),
        r is Ok <==> (state.smart_workflow_id is Some && spec_automation_current(*state, expected_version)
            && state.export_status@ == "idle"@),
        r matches Ok(w) ==> state.smart_workflow_id == Some(w),
{
    let workflow_id = match state.smart_workflow_id {
        Some(w) => w,
        None => {
            return Err(AiRepositoryError::InvalidState(String::from_str("普通工程不能接受智能任务增量")));
        },
    };
    if state.version != expected_version as i64 || !str_eq(state.ownership.as_str(), "automation") {
        return Err(AiRepositoryError::ClipVersionConflict);
    }
    if !str_eq(state.export_status.as_str(), "idle") {
        return Err(AiRepositoryError::ClipExportInProgress);
    }
    Ok(workflow_id)
}

/// Checks an increment's request: it must carry sources and candidates, and
/// no candidate twice.
pub fn check_increment_request(
    sources: &[AiSmartClipSourceInput],
    candidate_ids: &[i64],
) -> (r: Result<(), AiRepositoryError>)
    ensures
        (sources.len() == 0 || candidate_ids.len() == 0) ==> (r matches Err(e) && spec_invalid_state(
            e,
            "智能草稿增量必须包含来源和候选"@,
        )),
        sources.len() > 0 && candidate_ids.len() > 0 && spec_has_duplicate(candidate_ids@) ==> (r matches Err(
            e,
        ) && spec_integrity(e, "智能草稿增量候选不能重复"@)),
        r is Ok <==> sources.len() > 0 && candidate_ids.len() > 0 && !spec_has_duplicate(candidate_ids@),
{
    if sources.len() == 0 || candidate_ids.len() == 0 {
        return Err(AiRepositoryError::InvalidState(String::from_str("智能草稿增量必须包含来源和候选")));
    }
    if has_duplicate(candidate_ids) {
        return Err(AiRepositoryError::Integrity(String::from_str("智能草稿增量候选不能重复")));
    }
    Ok(())
}

/// Checks that a highlight run can open a clip project, and gives the name
/// of the new project: the analysis must be complete or partial and at least
/// one candidate selected.
pub fn check_clip_project_source(
    run_status: &str,
    selected_count: i64,
    project_name: &str,
) -> (r: Result<String, AiRepositoryError>)
    ensures
        !(run_status@ == "completed"@ || run_status@ == "partial"@) ==> (r matches Err(e)
            && spec_invalid_state(e, "高光分析尚未完成，暂时不能创建剪辑工程"@)),
        (run_status@ == "completed"@ || run_status@ == "partial"@) && selected_count == 0 ==> (r matches Err(
            e,
        ) && spec_invalid_state(e, "请至少选择一个高光候选后再编辑视频"@)),
        r is Ok <==> (run_status@ == "completed"@ || run_status@ == "partial"@) && selected_count != 0,
        r matches Ok(n) ==> n@ == project_name@ + " - 高光剪辑"@,
{
    if !(str_eq(run_status, "completed") || str_eq(run_status, "partial")) {
        return Err(
            AiRepositoryError::InvalidState(
                String::from_str("高光分析尚未完成，暂时不能创建剪辑工程"),
            ),
        );
    }
    if selected_count == 0 {
        return Err(
            AiRepositoryError::InvalidState(String::from_str("请至少选择一个高光候选后再编辑视频")),
        );
    }
    Ok(concat_str(project_name, " - 高光剪辑"))
}

/// Checks that a clip project can be edited, and gives its version: it must
/// exist, not be exporting, and its stored version must fit.
pub fn check_clip_project_editable(row: Option<(&str, i64)>) -> (r: Result<u32, AiRepositoryError>)
    ensures
        row is None ==> (r matches Err(e) && e matches AiRepositoryError::NotFound(m) && m@ == "剪辑工程"@),
        row matches Some((s, v)) && s@ == "exporting"@ ==> r == Err::<u32, AiRepositoryError>(
            AiRepositoryError::ClipExportInProgress,
        ),
        row matches Some((s, v)) && s@ != "exporting"@ && !(0 <= v <= u32::MAX) ==> (r matches Err(e)
            && spec_integrity(e, "剪辑工程版本无效"@)),
        r is Ok <==> (row matches Some((s, v)) && s@ != "exporting"@ && 0 <= v <= u32::MAX),
        r matches Ok(version) ==> (row matches Some((s, v)) && version == v),
{
    match row {
        None => Err(AiRepositoryError::NotFound(String::from_str("剪辑工程"))),
        Some((status, version)) => {
            if str_eq(status, "exporting") {
                Err(AiRepositoryError::ClipExportInProgress)
            } else if version < 0 || version > u32::MAX as i64 {
                Err(AiRepositoryError::Integrity(String::from_str("剪辑工程版本无效")))
            } else {
                Ok(version as u32)
            }
        },
    }
}

/// Guards a subtitle edit: the project must not be exporting and must be at
/// the version the editor saw.
pub fn check_subtitle_edit(export_status: &str, version: i64, expected_version: u32) -> (r: Result<
    (),
    AiRepositoryError,
>)
    ensures
        export_status@ == "exporting"@ ==> r == Err::<(), AiRepositoryError>(
            AiRepositoryError::ClipExportInProgress,
        ),
        export_status@ != "exporting"@ && version != expected_version as int ==> r == Err::<
            (),
            AiRepositoryError,
        >(AiRepositoryError::ClipVersionConflict),
        r is Ok <==> export_status@ != "exporting"@ && version == expected_version as int,
{
    if str_eq(export_status, "exporting") {
        return Err(AiRepositoryError::ClipExportInProgress);
    }
    if version != expected_version as i64 {
        return Err(AiRepositoryError::ClipVersionConflict);
    }
    Ok(())
}

/// A segment's volume must lie between 0% and 200%.
pub fn check_segment_volume(volume_percent: u16) -> (r: Result<(), AiRepositoryError>)
    ensures
        r is Ok <==> volume_percent <= 200,
        r matches Err(e) ==> spec_integrity(e, "片段音量必须在 0% 到 200% 之间"@),
{
    if volume_percent > 200 {
        return Err(AiRepositoryError::Integrity(String::from_str("片段音量必须在 0% 到 200% 之间")));
    }
    Ok(())
}

/// A reordering must name every segment of the project and no other: as
/// many ids as there are segments, and the same ids.
pub open spec fn spec_same_ids(existing: Seq<i64>, ordered: Seq<i64>) -> bool {
    existing.len() == ordered.len() && forall|x: i64| existing.contains(x) <==> ordered.contains(x)
}

fn contains_id(ids: &[i64], x: i64) -> (r: bool)
    ensures
        r == ids@.contains(x),
{
    let mut i: usize = 0;
    while i < ids.len()
        invariant
            i <= ids@.len(),
            forall|k: int| 0 <= k < i ==> ids@[k] != x,
        decreases ids.len() - i,
    {
        if ids[i] == x {
            assert(ids@[i as int] == x);
            return true;
        }
        i += 1;
    }
    false
}

fn reorder_refused() -> (e: AiRepositoryError)
    ensures
        spec_integrity(e, "重排必须包含工程中的全部片段且不能重复"@),
{
    AiRepositoryError::Integrity(String::from_str("重排必须包含工程中的全部片段且不能重复"))
}

/// Checks a reordering of a project's segments against the segments it has.
pub fn check_clip_reorder(existing: &[i64], ordered: &[i64]) -> (r: Result<(), AiRepositoryError>)
    ensures
        r is Ok <==> spec_same_ids(existing@, ordered@),
        r matches Err(e) ==> spec_integrity(e, "重排必须包含工程中的全部片段且不能重复"@),
{
    if existing.len() != ordered.len() {
        return Err(reorder_refused());
    }
    let mut i: usize = 0;
    while i < existing.len()
        invariant
            i <= existing@.len(),
            forall|k: int| 0 <= k < i ==> ordered@.contains(#[trigger] existing@[k]),
        decreases existing.len() - i,
    {
        if !contains_id(ordered, existing[i]) {
            assert(existing@.contains(existing@[i as int]));
            return Err(reorder_refused());
        }
        i += 1;
    }
    let mut j: usize = 0;
    while j < ordered.len()
        invariant
            j <= ordered@.len(),
            forall|k: int| 0 <= k < existing@.len() ==> ordered@.contains(#[trigger] existing@[k]),
            forall|k: int| 0 <= k < j ==> existing@.contains(#[trigger] ordered@[k]),
        decreases ordered.len() - j,
    {
        if !contains_id(existing, ordered[j]) {
            assert(ordered@.contains(ordered@[j as int]));
            return Err(reorder_refused());
        }
        j += 1;
    }
    assert forall|x: i64| existing@.contains(x) <==> ordered@.contains(x) by {
        if existing@.contains(x) {
            let k = choose|k: int| 0 <= k < existing@.len() && existing@[k] == x;
            assert(ordered@.contains(existing@[k]));
        }
        if ordered@.contains(x) {
            let k = choose|k: int| 0 <= k < ordered@.len() && ordered@[k] == x;
            assert(existing@.contains(ordered@[k]));
        }
    }
    Ok(())
}

/// Checks an insertion of a candidate into the timeline: the place must be
/// within the timeline, the candidate one of the project's selected ones,
/// and not already in the timeline.
pub fn check_clip_insert(
    insert_index: u32,
    segment_count: i64,
    candidate_found: bool,
    already_in_timeline: bool,
) -> (r: Result<(), AiRepositoryError>)
    ensures
        insert_index > segment_count ==> (r matches Err(e) && spec_integrity(e, "视频素材插入位置超出时间轴范围"@)),
        insert_index <= segment_count && !candidate_found ==> (r matches Err(e) && spec_integrity(
            e,
            "只能追加当前工程来源集合中已进入待切片的视频"@,
        )),
        insert_index <= segment_count && candidate_found && already_in_timeline ==> (r matches Err(e)
            && spec_integrity(e, "该视频片段已经在时间轴中"@)),
        r is Ok <==> insert_index <= segment_count && candidate_found && !already_in_timeline,
{
    if insert_index as i64 > segment_count {
        return Err(AiRepositoryError::Integrity(String::from_str("视频素材插入位置超出时间轴范围")));
    }
    if !candidate_found {
        return Err(
            AiRepositoryError::Integrity(
                String::from_str("只能追加当前工程来源集合中已进入待切片的视频"),
            ),
        );
    }
    if already_in_timeline {
        return Err(AiRepositoryError::Integrity(String::from_str("该视频片段已经在时间轴中")));
    }
    Ok(())
}

/// A project keeps at least one segment: a removal that would leave none is refused.
pub fn check_segments_remaining(remaining: i64) -> (r: Result<(), AiRepositoryError>)
    ensures
        r is Ok <==> remaining != 0,
        r matches Err(e) ==> spec_invalid_state(e, "剪辑工程至少需要保留一个片段"@),
{
    if remaining == 0 {
        return Err(AiRepositoryError::InvalidState(String::from_str("剪辑工程至少需要保留一个片段")));
    }
    Ok(())
}

/// The step that looked its candidates up: assembling a new project, an
/// automatic append, or an increment of sources and candidates.
#[derive(Debug, Clone, Copy, PartialEq, Eq, Structural)]
pub enum CandidateBatch {
    NewProject,
    Append,
    Increment,
}

pub open spec fn spec_missing_candidates_message(batch: CandidateBatch) -> Seq<char> {
    match batch {
        CandidateBatch::NewProject => "智能合辑包含未入选或来源集合外候选"@,
        CandidateBatch::Append => "自动追加包含重复、未入选或来源集合外候选"@,
        CandidateBatch::Increment => "智能草稿增量包含未入选或来源集合外候选"@,
    }
}

/// How many already present candidates an increment counts: a negative
/// count reads as none.
pub open spec fn spec_present_count(batch: CandidateBatch, already_present: i64) -> int {
    if batch == CandidateBatch::Increment && already_present > 0 {
        already_present as int
    } else {
        0
    }
}

/// Every requested candidate must have been found among the selected
/// candidates of the project's sources; an increment also counts those the
/// project already holds.
pub fn check_candidates_found(
    batch: CandidateBatch,
    found: usize,
    already_present: i64,
    requested: usize,
) -> (r: Result<(), AiRepositoryError>)
    ensures
        r is Ok <==> found + spec_present_count(batch, already_present) == requested,
        r matches Err(e) ==> spec_integrity(e, spec_missing_candidates_message(batch)),
{
    let present: u128 = match batch {
        CandidateBatch::Increment => if already_present > 0 {
            already_present as u128
        } else {
            0
        },
        _ => 0,
    };
    if found as u128 + present == requested as u128 {
        return Ok(());
    }
    let message = match batch {
        CandidateBatch::NewProject => String::from_str("智能合辑包含未入选或来源集合外候选"),
        CandidateBatch::Append => String::from_str("自动追加包含重复、未入选或来源集合外候选"),
        CandidateBatch::Increment => String::from_str("智能草稿增量包含未入选或来源集合外候选"),
    };
    Err(AiRepositoryError::Integrity(message))
}

/// A row to renumber, with the keys it is ordered by: the first key, then the
/// second, and so on, then the id. Keys a renumbering does not use are zero.
#[derive(Debug, Clone, Copy, PartialEq, Eq, Structural)]
pub struct ClipOrderRow {
    pub id: i64,
    pub first: i64,
    pub second: i64,
    pub third: i64,
    pub fourth: i64,
}

/// `a` comes strictly before `b`.
pub open spec fn spec_row_before(a: ClipOrderRow, b: ClipOrderRow) -> bool {
    if a.first != b.first {
        a.first < b.first
    } else if a.second != b.second {
        a.second < b.second
    } else if a.third != b.third {
        a.third < b.third
    } else if a.fourth != b.fourth {
        a.fourth < b.fourth
    } else {
        a.id < b.id
    }
}

fn row_before(a: &ClipOrderRow, b: &ClipOrderRow) -> (r: bool)
    ensures
        r == spec_row_before(*a, *b),
{
    if a.first != b.first {
        a.first < b.first
    } else if a.second != b.second {
        a.second < b.second
    } else if a.third != b.third {
        a.third < b.third
    } else if a.fourth != b.fourth {
        a.fourth < b.fourth
    } else {
        a.id < b.id
    }
}

/// Where `row` goes in a sorted list: before the first entry it precedes.
pub open spec fn spec_row_position(sorted: Seq<ClipOrderRow>, row: ClipOrderRow) -> int
    decreases sorted.len(),
{
    if sorted.len() == 0 {
        0
    } else if spec_row_before(row, sorted[0]) {
        0
    } else {
        1 + spec_row_position(sorted.drop_first(), row)
    }
}

/// The rows in key order.
pub open spec fn spec_sort_rows(rows: Seq<ClipOrderRow>) -> Seq<ClipOrderRow>
    decreases rows.len(),
{
    if rows.len() == 0 {
        Seq::empty()
    } else {
        let s = spec_sort_rows(rows.drop_last());
        s.insert(spec_row_position(s, rows.last()), rows.last())
    }
}

pub open spec fn spec_row_ids(rows: Seq<ClipOrderRow>) -> Seq<i64> {
    rows.map_values(|r: ClipOrderRow| r.id)
}

proof fn lemma_row_position(sorted: Seq<ClipOrderRow>, row: ClipOrderRow, p: int)
    requires
        0 <= p <= sorted.len(),
        forall|q: int| 0 <= q < p ==> !spec_row_before(row, #[trigger] sorted[q]),
        p == sorted.len() || spec_row_before(row, sorted[p]),
    ensures
        spec_row_position(sorted, row) == p,
    decreases sorted.len(),
{
    if sorted.len() > 0 && p > 0 {
        let d = sorted.drop_first();
        assert forall|q: int| 0 <= q < p - 1 implies !spec_row_before(row, #[trigger] d[q]) by {
            assert(d[q] == sorted[q + 1]);
        }
        if p < sorted.len() {
            assert(d[p - 1] == sorted[p]);
        }
        assert(!spec_row_before(row, sorted[0]));
        lemma_row_position(d, row, p - 1);
    }
}

fn insert_row(sorted: &mut Vec<ClipOrderRow>, row: ClipOrderRow)
    ensures
        final(sorted)@ == old(sorted)@.insert(spec_row_position(old(sorted)@, row), row),
{
    let mut p: usize = 0;
    let mut found = false;
    while !found && p < sorted.len()
        invariant
            p <= sorted@.len(),
            sorted@ == old(sorted)@,
            forall|q: int| 0 <= q < p ==> !spec_row_before(row, #[trigger] sorted@[q]),
            found ==> p < sorted@.len() && spec_row_before(row, sorted@[p as int]),
        decreases sorted.len() - p + if found {
            0int
        } else {
            1int
        },
    {
        if row_before(&row, &sorted[p]) {
            found = true;
        } else {
            p += 1;
        }
    }
    proof {
        lemma_row_position(sorted@, row, p as int);
    }
    sorted.insert(p, row);
}

/// The ids of the rows in the order they are renumbered in: by their keys in
/// turn, then by id.
pub fn renumbering_order(rows: &[ClipOrderRow]) -> (r: Vec<i64>)
    ensures
        r@ == spec_row_ids(spec_sort_rows(rows@)),
{
    let mut sorted: Vec<ClipOrderRow> = Vec::new();
    let mut i: usize = 0;
    while i < rows.len()
        invariant
            i <= rows@.len(),
            sorted@ == spec_sort_rows(rows@.take(i as int)),
        decreases rows.len() - i,
    {
        assert(rows@.take(i + 1).drop_last() =~= rows@.take(i as int));
        insert_row(&mut sorted, rows[i]);
        i += 1;
    }
    assert(rows@.take(rows@.len() as int) =~= rows@);
    let mut ids: Vec<i64> = Vec::new();
    let mut k: usize = 0;
    while k < sorted.len()
        invariant
            k <= sorted@.len(),
            sorted@ == spec_sort_rows(rows@),
            ids@ == spec_row_ids(sorted@.take(k as int)),
        decreases sorted.len() - k,
    {
        ids.push(sorted[k].id);
        assert(spec_row_ids(sorted@.take(k + 1)) =~= spec_row_ids(sorted@.take(k as int)).push(
            sorted@[k as int].id,
        ));
        k += 1;
    }
    assert(sorted@.take(sorted@.len() as int) =~= sorted@);
    ids
}

/// No later row comes strictly before an earlier one.
pub open spec fn spec_rows_in_order(s: Seq<ClipOrderRow>) -> bool {
    forall|i: int, j: int| 0 <= i < j < s.len() ==> !spec_row_before(#[trigger] s[j], #[trigger] s[i])
}

proof fn lemma_row_position_props(s: Seq<ClipOrderRow>, row: ClipOrderRow)
    ensures
        0 <= spec_row_position(s, row) <= s.len(),
        forall|q: int| 0 <= q < spec_row_position(s, row) ==> !spec_row_before(row, #[trigger] s[q]),
        spec_row_position(s, row) < s.len() ==> spec_row_before(row, s[spec_row_position(s, row)]),
    decreases s.len(),
{
    if s.len() > 0 && !spec_row_before(row, s[0]) {
        let d = s.drop_first();
        lemma_row_position_props(d, row);
        assert forall|q: int| 0 <= q < spec_row_position(s, row) implies !spec_row_before(
            row,
            #[trigger] s[q],
        ) by {
            if q > 0 {
                assert(s[q] == d[q - 1]);
            }
        }
        if spec_row_position(s, row) < s.len() {
            assert(s[spec_row_position(s, row)] == d[spec_row_position(d, row)]);
        }
    }
}

/// Renumbering keeps every row exactly as often as it came and puts the rows
/// in key order.
pub proof fn lemma_renumbering_is_an_ordered_permutation(rows: Seq<ClipOrderRow>)
    ensures
        spec_rows_in_order(spec_sort_rows(rows)),
        spec_sort_rows(rows).to_multiset() == rows.to_multiset(),
    decreases rows.len(),
{
    if rows.len() > 0 {
        let prev = spec_sort_rows(rows.drop_last());
        lemma_renumbering_is_an_ordered_permutation(rows.drop_last());
        let t = rows.last();
        let p = spec_row_position(prev, t);
        lemma_row_position_props(prev, t);
        let next = prev.insert(p, t);
        assert forall|i: int, j: int| 0 <= i < j < next.len() implies !spec_row_before(
            #[trigger] next[j],
            #[trigger] next[i],
        ) by {
            if j == p {
                assert(next[i] == prev[i]);
                assert(next[j] == t);
            } else if i == p {
                assert(next[i] == t);
                assert(next[j] == prev[j - 1]);
                if j - 1 > p {
                    assert(!spec_row_before(prev[j - 1], prev[p]));
                }
            } else if i < p && j > p {
                assert(next[i] == prev[i]);
                assert(next[j] == prev[j - 1]);
            } else if j < p {
                assert(next[i] == prev[i]);
                assert(next[j] == prev[j]);
            } else {
                assert(next[i] == prev[i - 1]);
                assert(next[j] == prev[j - 1]);
            }
        }
        vstd::seq_lib::to_multiset_insert(prev, p, t);
        vstd::seq_lib::to_multiset_build(rows.drop_last(), t);
        assert(rows.drop_last().push(t) =~= rows);
        assert(spec_sort_rows(rows) == next);
    } else {
        assert(rows =~= Seq::<ClipOrderRow>::empty());
    }
}

} // verus!
