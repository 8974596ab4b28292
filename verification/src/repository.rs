//! Errors of the AI repository and the pure checks it applies before writing.
//! The SQLite transactions themselves live with the application.

use vstd::prelude::*;

use crate::domain::{AiInputStatus, AiProjectStatus};
use crate::text::{
    collapse_whitespace, concat_str, graphemes, spec_collapse_whitespace, spec_graphemes, spec_is_control,
    spec_is_whitespace, spec_trim, to_chars,
};

verus! {

#[derive(Debug, Clone, PartialEq, Eq)]
pub enum AiRepositoryError {
    Database(String),
    Sqlite(String),
    NotFound(String),
    ProjectNotDraft,
    EmptyProject,
    DuplicateInput,
    InvalidState(String),
    Integrity(String),
    Serialization(String),
    ClipVersionConflict,
    ClipExportInProgress,
    InvalidClipSubtitle(String),
}

impl AiRepositoryError {
    /// The message shown for the error.
    pub open spec fn spec_message(&self) -> Seq<char> {
        match self {
            AiRepositoryError::Database(m) => m@,
            AiRepositoryError::Sqlite(m) => "数据库错误："@ + m@,
            AiRepositoryError::NotFound(m) => "找不到记录："@ + m@,
            AiRepositoryError::ProjectNotDraft => "当前项目不是可修改的草稿状态"@,
            AiRepositoryError::EmptyProject => "项目至少需要一个有效视频输入"@,
            AiRepositoryError::DuplicateInput => "输入文件已存在于当前项目"@,
            AiRepositoryError::InvalidState(m) => "状态转换无效："@ + m@,
            AiRepositoryError::Integrity(m) => "数据完整性错误："@ + m@,
            AiRepositoryError::Serialization(m) => "序列化错误："@ + m@,
            AiRepositoryError::ClipVersionConflict => "剪辑工程版本已更新，请重新加载后再编辑字幕"@,
            AiRepositoryError::ClipExportInProgress => "剪辑工程正在导出，暂时不能修改字幕"@,
            AiRepositoryError::InvalidClipSubtitle(m) => "字幕内容无效："@ + m@,
        }
    }

    pub fn message(&self) -> (r: String)
        ensures
            r@ == self.spec_message(),
    {
        match self {
            AiRepositoryError::Database(m) => m.clone(),
            AiRepositoryError::Sqlite(m) => concat_str("数据库错误：", m.as_str()),
            AiRepositoryError::NotFound(m) => concat_str("找不到记录：", m.as_str()),
            AiRepositoryError::ProjectNotDraft => String::from_str("当前项目不是可修改的草稿状态"),
            AiRepositoryError::EmptyProject => String::from_str("项目至少需要一个有效视频输入"),
            AiRepositoryError::DuplicateInput => String::from_str("输入文件已存在于当前项目"),
            AiRepositoryError::InvalidState(m) => concat_str("状态转换无效：", m.as_str()),
            AiRepositoryError::Integrity(m) => concat_str("数据完整性错误：", m.as_str()),
            AiRepositoryError::Serialization(m) => concat_str("序列化错误：", m.as_str()),
            AiRepositoryError::ClipVersionConflict => String::from_str(
                "剪辑工程版本已更新，请重新加载后再编辑字幕",
            ),
            AiRepositoryError::ClipExportInProgress => String::from_str(
                "剪辑工程正在导出，暂时不能修改字幕",
            ),
            AiRepositoryError::InvalidClipSubtitle(m) => concat_str("字幕内容无效：", m.as_str()),
        }
    }
}

/// Some character is a control character that is not whitespace.
pub open spec fn spec_has_bare_control(s: Seq<char>) -> bool {
    exists|i: int| 0 <= i < s.len() && spec_is_control(#[trigger] s[i]) && !spec_is_whitespace(s[i])
}

pub fn has_bare_control(s: &str) -> (r: bool)
    ensures
        r == spec_has_bare_control(s@),
{
    let chars = to_chars(s);
    let mut i: usize = 0;
    while i < chars.len()
        invariant
            i <= chars@.len(),
            chars@ == s@,
            forall|k: int| 0 <= k < i ==> !(spec_is_control(#[trigger] s@[k]) && !spec_is_whitespace(s@[k])),
        decreases chars.len() - i,
    {
        if crate::text::is_control(chars[i]) && !crate::text::is_whitespace(chars[i]) {
            return true;
        }
        i += 1;
    }
    false
}

/// The longest subtitle, in extended grapheme clusters.
pub const MAX_SUBTITLE_GRAPHEMES: usize = 500;

/// A subtitle text is kept with its whitespace runs collapsed to single spaces; it
/// must hold no bare control character, must not be empty and must not exceed 500 graphemes.
pub fn normalize_clip_subtitle_text(value: &str) -> (r: Result<String, AiRepositoryError>)
    ensures
        spec_has_bare_control(value@) ==> (r matches Err(AiRepositoryError::InvalidClipSubtitle(m))
            && m@ == "不能包含控制字符"@),
        !spec_has_bare_control(value@) && spec_collapse_whitespace(value@).len() == 0 ==> (r matches Err(
            AiRepositoryError::InvalidClipSubtitle(m),
        ) && m@ == "文本不能为空；不需要显示时请使用隐藏字幕"@),
        !spec_has_bare_control(value@) && spec_collapse_whitespace(value@).len() > 0 && spec_graphemes(
            spec_collapse_whitespace(value@),
        ).len() > 500 ==> (r matches Err(AiRepositoryError::InvalidClipSubtitle(m)) && m@
            == "文本不能超过 500 个字符"@),
        r matches Ok(t) ==> !spec_has_bare_control(value@) && t@ == spec_collapse_whitespace(value@)
            && t@.len() > 0 && spec_graphemes(t@).len() <= 500,
        !spec_has_bare_control(value@) && spec_collapse_whitespace(value@).len() > 0 && spec_graphemes(
            spec_collapse_whitespace(value@),
        ).len() <= 500 ==> r is Ok,
{
    if has_bare_control(value) {
        return Err(AiRepositoryError::InvalidClipSubtitle(String::from_str("不能包含控制字符")));
    }
    let normalized = collapse_whitespace(value);
    if normalized.unicode_len() == 0 {
        return Err(
            AiRepositoryError::InvalidClipSubtitle(
                String::from_str("文本不能为空；不需要显示时请使用隐藏字幕"),
            ),
        );
    }
    let clusters = graphemes(normalized.as_str());
    if clusters.len() > MAX_SUBTITLE_GRAPHEMES {
        return Err(AiRepositoryError::InvalidClipSubtitle(String::from_str("文本不能超过 500 个字符")));
    }
    Ok(normalized)
}

/// A highlight candidate must carry a non-blank key, reference segments and last 15 to 90 seconds.
pub open spec fn spec_candidate_draft_ok(segment_count: nat, start_ms: u64, end_ms: u64, key: Seq<char>) -> bool {
    crate::text::spec_trim(key).len() > 0 && segment_count > 0 && end_ms > start_ms && end_ms
        - start_ms >= 15000 && end_ms - start_ms <= 90000
}

pub fn validate_candidate_draft(segment_ids: &[String], start_ms: u64, end_ms: u64, key: &str) -> (r:
    Result<(), AiRepositoryError>)
    ensures
        r is Ok <==> spec_candidate_draft_ok(segment_ids@.len(), start_ms, end_ms, key@),
        r matches Err(e) ==> (e matches AiRepositoryError::Integrity(m) && m@
            == "高光候选必须引用句段且时长在 15 到 90 秒之间"@),
{
    let trimmed = crate::text::trim(key);
    if trimmed.unicode_len() == 0 || segment_ids.len() == 0 || end_ms <= start_ms || end_ms - start_ms
        < 15000 || end_ms - start_ms > 90000 {
        return Err(
            AiRepositoryError::Integrity(
                String::from_str("高光候选必须引用句段且时长在 15 到 90 秒之间"),
            ),
        );
    }
    Ok(())
}

} // verus!

verus! {

/// A subtitle that the one-click correction may rewrite.
#[derive(Debug, Clone, PartialEq, Eq)]
pub struct ClipTextCorrectionTarget {
    pub subtitle_id: i64,
    pub text: String,
}

impl ClipTextCorrectionTarget {
    pub fn duplicate(&self) -> (r: ClipTextCorrectionTarget)
        ensures
            r == *self,
    {
        ClipTextCorrectionTarget { subtitle_id: self.subtitle_id, text: self.text.clone() }
    }
}

#[derive(Debug, Clone, PartialEq, Eq)]
pub struct ClipTextCorrectionPlan {
    pub project_version: u32,
    pub targets: Vec<ClipTextCorrectionTarget>,
    pub skipped_manual: usize,
    pub skipped_hidden: usize,
}

#[derive(Debug, Clone, PartialEq, Eq)]
pub struct ClipTextCorrectionUpdate {
    pub subtitle_id: i64,
    pub expected_text: String,
    pub corrected_text: String,
}

/// The bytes identifying a stored segment: artifact id, ordinal, start and end
/// (each as 8 little-endian bytes), then the raw text.
pub open spec fn spec_segment_identity(
    artifact_id: i64,
    ordinal: usize,
    draft: crate::domain::TranscriptSegmentDraft,
) -> Seq<u8> {
    crate::digest::spec_le_bytes((artifact_id as u64) as nat, 8) + crate::digest::spec_le_bytes(
        (ordinal as u64) as nat,
        8,
    ) + crate::digest::spec_le_bytes(draft.source_start_ms as nat, 8) + crate::digest::spec_le_bytes(
        draft.source_end_ms as nat,
        8,
    ) + vstd::utf8::encode_utf8(draft.raw_text@)
}

/// The stable id of the segment at `ordinal` of an artifact: `seg_` and the
/// first 32 hex digits of the SHA-256 of its identifying bytes.
pub fn stable_segment_id(
    artifact_id: i64,
    ordinal: usize,
    draft: &crate::domain::TranscriptSegmentDraft,
) -> (r: String)
    ensures
        r@ == "seg_"@ + crate::digest::spec_hex(
            crate::digest::spec_sha256(spec_segment_identity(artifact_id, ordinal, *draft)),
        ).take(32),
{
    let mut bytes: Vec<u8> = Vec::new();
    crate::digest::push_le_u64(&mut bytes, artifact_id as u64);
    crate::digest::push_le_u64(&mut bytes, ordinal as u64);
    crate::digest::push_le_u64(&mut bytes, draft.source_start_ms);
    crate::digest::push_le_u64(&mut bytes, draft.source_end_ms);
    crate::digest::push_bytes(&mut bytes, draft.raw_text.as_str());
    let digest = crate::digest::sha256(bytes.as_slice());
    let hex = crate::digest::hex_encode(digest.as_slice());
    proof {
        crate::digest::lemma_hex_len(digest@);
    }
    let chars = to_chars(hex.as_str());
    let short = crate::text::from_chars(&chars.as_slice()[0..32]);
    assert(chars@.subrange(0, 32) =~= hex@.take(32));
    concat_str("seg_", short.as_str())
}

/// A finished input: completed, skipped, cancelled or failed.
pub open spec fn spec_input_finished(s: AiInputStatus) -> bool {
    s is Completed || s is Skipped || s is Cancelled || s is Failed
}

/// A successful input: completed or skipped.
pub open spec fn spec_input_successful(s: AiInputStatus) -> bool {
    s is Completed || s is Skipped
}

/// What a project's inputs add up to: their progress in total, how many
/// succeeded, failed and were cancelled, and whether all are finished.
pub open spec fn spec_input_tally(inputs: Seq<AiInputStatus>) -> (nat, nat, nat, nat, bool)
    decreases inputs.len(),
{
    if inputs.len() == 0 {
        (0, 0, 0, 0, true)
    } else {
        let t = spec_input_tally(inputs.drop_last());
        let s = inputs.last();
        (
            t.0 + s.spec_progress_percent() as nat,
            t.1 + if spec_input_successful(s) {
                1nat
            } else {
                0nat
            },
            t.2 + if s is Failed {
                1nat
            } else {
                0nat
            },
            t.3 + if s is Cancelled {
                1nat
            } else {
                0nat
            },
            t.4 && spec_input_finished(s),
        )
    }
}

/// The status a project takes from its inputs: a running project whose
/// inputs are all finished completes (with errors when some succeeded and
/// some failed or were cancelled), is cancelled when every input was, and
/// fails otherwise; any other project keeps its status.
pub open spec fn spec_rollup_status(current: AiProjectStatus, inputs: Seq<AiInputStatus>) -> AiProjectStatus {
    let t = spec_input_tally(inputs);
    if t.4 && current is Running {
        if t.1 > 0 && t.2 + t.3 > 0 {
            AiProjectStatus::CompletedWithErrors
        } else if t.1 > 0 {
            AiProjectStatus::Completed
        } else if t.3 == inputs.len() {
            AiProjectStatus::Cancelled
        } else {
            AiProjectStatus::Failed
        }
    } else {
        current
    }
}

proof fn lemma_tally_bounds(inputs: Seq<AiInputStatus>)
    ensures
        spec_input_tally(inputs).0 <= 100 * inputs.len(),
        spec_input_tally(inputs).1 + spec_input_tally(inputs).2 + spec_input_tally(inputs).3 <= inputs.len(),
        spec_input_tally(inputs).4 ==> spec_input_tally(inputs).1 + spec_input_tally(inputs).2
            + spec_input_tally(inputs).3 == inputs.len(),
    decreases inputs.len(),
{
    if inputs.len() > 0 {
        lemma_tally_bounds(inputs.drop_last());
    }
}

/// A project's progress and status from its inputs' statuses, in order;
/// nothing when it has no input. The progress is the average of the inputs'.
pub fn project_rollup(current: AiProjectStatus, inputs: &[AiInputStatus]) -> (r: Option<(u8, AiProjectStatus)>)
    ensures
        inputs@.len() == 0 ==> r is None,
        inputs@.len() > 0 ==> r == Some(
            (
                (spec_input_tally(inputs@).0 / inputs@.len()) as u8,
                spec_rollup_status(current, inputs@),
            ),
        ),
        r matches Some((p, _)) ==> p <= 100,
{
    if inputs.len() == 0 {
        return None;
    }
    let mut total: u128 = 0;
    let mut successful: usize = 0;
    let mut failed: usize = 0;
    let mut cancelled: usize = 0;
    let mut finished = true;
    let mut i: usize = 0;
    while i < inputs.len()
        invariant
            i <= inputs@.len(),
            (total as nat, successful as nat, failed as nat, cancelled as nat, finished) == spec_input_tally(
                inputs@.take(i as int),
            ),
        decreases inputs.len() - i,
    {
        proof {
            assert(inputs@.take(i + 1).drop_last() =~= inputs@.take(i as int));
            lemma_tally_bounds(inputs@.take(i as int));
        }
        let s = inputs[i];
        total = total + s.progress_percent() as u128;
        match s {
            AiInputStatus::Completed | AiInputStatus::Skipped => {
                successful = successful + 1;
            },
            AiInputStatus::Failed => {
                failed = failed + 1;
            },
            AiInputStatus::Cancelled => {
                cancelled = cancelled + 1;
            },
            _ => {},
        }
        let done = match s {
            AiInputStatus::Completed | AiInputStatus::Skipped | AiInputStatus::Cancelled
            | AiInputStatus::Failed => true,
            _ => false,
        };
        finished = finished && done;
        i += 1;
    }
    assert(inputs@.take(inputs@.len() as int) =~= inputs@);
    proof {
        lemma_tally_bounds(inputs@);
    }
    let n = inputs.len() as u128;
    let progress = total / n;
    assert(progress <= 100) by (nonlinear_arith)
        requires
            total <= 100 * n,
            n > 0,
            progress == total / n,
    ;
    let running = match current {
        AiProjectStatus::Running => true,
        _ => false,
    };
    let next = if finished && running {
        if successful > 0 && failed + cancelled > 0 {
            AiProjectStatus::CompletedWithErrors
        } else if successful > 0 {
            AiProjectStatus::Completed
        } else if cancelled == inputs.len() {
            AiProjectStatus::Cancelled
        } else {
            AiProjectStatus::Failed
        }
    } else {
        current
    };
    Some((progress as u8, next))
}

/// The roll-up moves only a running project, and only once every input is
/// finished; it then reaches a final state that the project's transition
/// rules allow from running. All inputs successful means completed.
pub proof fn lemma_rollup_finishes_only_running_projects(
    current: AiProjectStatus,
    inputs: Seq<AiInputStatus>,
)
    ensures
        spec_rollup_status(current, inputs) != current ==> current is Running && spec_input_tally(
            inputs,
        ).4,
        current is Running && spec_input_tally(inputs).4 ==> {
            let next = spec_rollup_status(current, inputs);
            &&& (next is Completed || next is CompletedWithErrors || next is Cancelled || next is Failed)
            &&& current.spec_can_transition_to(next)
        },
        current is Running && inputs.len() > 0 && (forall|i: int|
            0 <= i < inputs.len() ==> spec_input_successful(#[trigger] inputs[i]))
            ==> spec_rollup_status(current, inputs) is Completed,
{
    lemma_all_successful_tally(inputs);
}

proof fn lemma_all_successful_tally(inputs: Seq<AiInputStatus>)
    ensures
        (forall|i: int| 0 <= i < inputs.len() ==> spec_input_successful(#[trigger] inputs[i])) ==> {
            let t = spec_input_tally(inputs);
            &&& t.1 == inputs.len()
            &&& t.2 == 0
            &&& t.3 == 0
            &&& t.4
        },
    decreases inputs.len(),
{
    if inputs.len() > 0 {
        lemma_all_successful_tally(inputs.drop_last());
        if forall|i: int| 0 <= i < inputs.len() ==> spec_input_successful(#[trigger] inputs[i]) {
            assert forall|i: int| 0 <= i < inputs.drop_last().len() implies spec_input_successful(
                #[trigger] inputs.drop_last()[i],
            ) by {
                assert(inputs.drop_last()[i] == inputs[i]);
            }
            assert(spec_input_successful(inputs[inputs.len() - 1]));
        }
    }
}

/// A subtitle of a clip project as the correction reads it, in project order.
#[derive(Debug, Clone, PartialEq, Eq)]
pub struct CorrectionSubtitleRow {
    pub subtitle_id: i64,
    pub original_text: String,
    pub text: String,
    pub hidden: bool,
}

/// What a correction does with each subtitle: hidden ones and ones the user
/// edited are left alone and counted; the others become targets, in order.
pub open spec fn spec_correction_plan(rows: Seq<CorrectionSubtitleRow>) -> (
    Seq<(i64, Seq<char>)>,
    nat,
    nat,
)
    decreases rows.len(),
{
    if rows.len() == 0 {
        (Seq::empty(), 0, 0)
    } else {
        let p = spec_correction_plan(rows.drop_last());
        let row = rows.last();
        if row.hidden {
            (p.0, p.1, p.2 + 1)
        } else if row.text@ != row.original_text@ {
            (p.0, p.1 + 1, p.2)
        } else {
            (p.0.push((row.subtitle_id, row.text@)), p.1, p.2)
        }
    }
}

pub open spec fn spec_target_views(targets: Seq<ClipTextCorrectionTarget>) -> Seq<(i64, Seq<char>)> {
    targets.map_values(|t: ClipTextCorrectionTarget| (t.subtitle_id, t.text@))
}

proof fn lemma_plan_counts(rows: Seq<CorrectionSubtitleRow>)
    ensures
        spec_correction_plan(rows).0.len() + spec_correction_plan(rows).1 + spec_correction_plan(rows).2
            == rows.len(),
    decreases rows.len(),
{
    if rows.len() > 0 {
        lemma_plan_counts(rows.drop_last());
    }
}

/// The plan of a one-click correction of a project at `version`, from its
/// subtitles in project order; a stored version that does not fit is an
/// integrity error.
pub fn plan_clip_text_correction(version: i64, rows: Vec<CorrectionSubtitleRow>) -> (r: Result<
    ClipTextCorrectionPlan,
    AiRepositoryError,
>)
    ensures
        !(0 <= version <= u32::MAX) ==> (r matches Err(AiRepositoryError::Integrity(m)) && m@
            == "剪辑工程版本无效"@),
        r is Ok <==> 0 <= version <= u32::MAX,
        r matches Ok(p) ==> {
            &&& p.project_version == version
            &&& spec_target_views(p.targets@) == spec_correction_plan(rows@).0
            &&& p.skipped_manual == spec_correction_plan(rows@).1
            &&& p.skipped_hidden == spec_correction_plan(rows@).2
        },
{
    let ghost all = rows@;
    let mut rest = rows;
    let mut targets: Vec<ClipTextCorrectionTarget> = Vec::new();
    let mut skipped_manual: usize = 0;
    let mut skipped_hidden: usize = 0;
    let ghost mut i: int = 0;
    let count: usize = rest.len();
    assert(all.len() == count);
    while rest.len() > 0
        invariant
            0 <= i <= all.len(),
            all.len() <= usize::MAX,
            rest@ == all.skip(i),
            spec_target_views(targets@) == spec_correction_plan(all.take(i)).0,
            skipped_manual == spec_correction_plan(all.take(i)).1,
            skipped_hidden == spec_correction_plan(all.take(i)).2,
        decreases rest.len(),
    {
        proof {
            lemma_plan_counts(all.take(i));
            assert(all.take(i + 1).drop_last() =~= all.take(i));
            assert(all.take(i + 1).last() == all[i]);
        }
        let row = rest.remove(0);
        assert(row == all[i]);
        assert(rest@ =~= all.skip(i + 1));
        if row.hidden {
            skipped_hidden = skipped_hidden + 1;
        } else if !crate::text::str_eq(row.text.as_str(), row.original_text.as_str()) {
            skipped_manual = skipped_manual + 1;
        } else {
            let ghost before = targets@;
            let subtitle_id = row.subtitle_id;
            let ghost text_view = row.text@;
            targets.push(ClipTextCorrectionTarget { subtitle_id, text: row.text });
            assert(spec_target_views(targets@) =~= spec_target_views(before).push((subtitle_id, text_view)));
        }
        proof {
            i = i + 1;
        }
    }
    assert(all.take(i) =~= all);
    if version < 0 || version > u32::MAX as i64 {
        return Err(AiRepositoryError::Integrity(String::from_str("剪辑工程版本无效")));
    }
    Ok(ClipTextCorrectionPlan {
        project_version: version as u32,
        targets,
        skipped_manual,
        skipped_hidden,
    })
}

/// Whether a correction changes a subtitle, given the subtitle as stored now
/// (original text, text, hidden) and the corrected text: the subtitle must
/// exist, be visible, unedited and still read what the correction expected.
pub fn correction_changes(
    current: Option<(&str, &str, bool)>,
    expected_text: &str,
    corrected_text: &str,
) -> (r: Result<bool, AiRepositoryError>)
    ensures
        current is None ==> (r matches Err(AiRepositoryError::NotFound(m)) && m@ == "工程字幕"@),
        current matches Some((original, text, hidden)) ==> (if hidden || original@ != text@ || text@
            != expected_text@ {
            r == Err::<bool, AiRepositoryError>(AiRepositoryError::ClipVersionConflict)
        } else {
            r == Ok::<bool, AiRepositoryError>(corrected_text@ != text@)
        }),
{
    match current {
        None => Err(AiRepositoryError::NotFound(String::from_str("工程字幕"))),
        Some((original, text, hidden)) => {
            if hidden || !crate::text::str_eq(original, text) || !crate::text::str_eq(text, expected_text) {
                Err(AiRepositoryError::ClipVersionConflict)
            } else {
                Ok(!crate::text::str_eq(corrected_text, text))
            }
        },
    }
}

/// Where each input of a project starts on its timeline when the project is
/// frozen: the first at zero, each next one after the known durations before
/// it (saturating); after an input of unknown duration, unknown.
pub open spec fn spec_input_offsets(durations: Seq<Option<u64>>) -> Seq<Option<u64>>
    decreases durations.len(),
{
    if durations.len() == 0 {
        Seq::empty()
    } else {
        let prev = spec_input_offsets(durations.drop_last());
        let next = if durations.len() == 1 {
            Some(0u64)
        } else {
            match (prev.last(), durations[durations.len() - 2]) {
                (Some(o), Some(d)) => Some(crate::text::spec_saturating_add_u64(o, d)),
                _ => None,
            }
        };
        prev.push(next)
    }
}

proof fn lemma_input_offsets_len(durations: Seq<Option<u64>>)
    ensures
        spec_input_offsets(durations).len() == durations.len(),
    decreases durations.len(),
{
    if durations.len() > 0 {
        lemma_input_offsets_len(durations.drop_last());
    }
}

/// The offsets a project's inputs get when it is frozen; a project without
/// inputs cannot be frozen.
pub fn input_offsets(durations: &[Option<u64>]) -> (r: Result<Vec<Option<u64>>, AiRepositoryError>)
    ensures
        durations@.len() == 0 ==> r == Err::<Vec<Option<u64>>, AiRepositoryError>(
            AiRepositoryError::EmptyProject,
        ),
        durations@.len() > 0 ==> (r matches Ok(v) && v@ == spec_input_offsets(durations@)),
{
    if durations.len() == 0 {
        return Err(AiRepositoryError::EmptyProject);
    }
    let mut out: Vec<Option<u64>> = Vec::new();
    let mut offset: Option<u64> = Some(0);
    let mut i: usize = 0;
    while i < durations.len()
        invariant
            i <= durations@.len(),
            out@ == spec_input_offsets(durations@.take(i as int)),
            i == 0 ==> offset == Some(0u64),
            i > 0 ==> offset == (match (out@.last(), durations@[i - 1]) {
                (Some(o), Some(d)) => Some(crate::text::spec_saturating_add_u64(o, d)),
                _ => None,
            }),
        decreases durations.len() - i,
    {
        proof {
            lemma_input_offsets_len(durations@.take(i as int));
            assert(durations@.take(i + 1).drop_last() =~= durations@.take(i as int));
            if i > 0 {
                assert(durations@.take(i + 1)[i - 1] == durations@[i - 1]);
            }
        }
        out.push(offset);
        offset = match (offset, durations[i]) {
            (Some(current), Some(duration)) => Some(current.saturating_add(duration)),
            _ => None,
        };
        i += 1;
    }
    assert(durations@.take(durations@.len() as int) =~= durations@);
    Ok(out)
}

/// Once an input's duration is unknown, every later input's offset is unknown too.
pub proof fn lemma_unknown_duration_hides_later_offsets(durations: Seq<Option<u64>>, k: int, j: int)
    requires
        0 <= k < j < durations.len(),
        durations[k] is None,
    ensures
        spec_input_offsets(durations)[j] is None,
    decreases durations.len(),
{
    lemma_input_offsets_len(durations);
    lemma_input_offsets_len(durations.drop_last());
    if j < durations.len() - 1 {
        lemma_unknown_duration_hides_later_offsets(durations.drop_last(), k, j);
        assert(spec_input_offsets(durations)[j] == spec_input_offsets(durations.drop_last())[j]);
    } else if k == j - 1 {
        assert(durations[durations.len() - 2] is None);
    } else {
        lemma_unknown_duration_hides_later_offsets(durations.drop_last(), k, j - 1);
        assert(spec_input_offsets(durations.drop_last()).last() is None);
    }
}

/// Checks a request for a highlight run against the project it analyzes:
/// the user must have authorized it, the project's recognition must have
/// completed, the fingerprint must not be blank, and the thresholds must lie
/// within 0..=100 with the excellent one not below the qualified one.
pub fn check_new_highlight_run(
    run: &crate::domain::NewAiHighlightRun,
    project_status: AiProjectStatus,
) -> (r: Result<(), AiRepositoryError>)
    ensures
        !run.user_authorized ==> (r matches Err(AiRepositoryError::InvalidState(m)) && m@
            == "高光分析必须由用户显式授权"@),
        run.user_authorized && !(project_status is Completed || project_status is CompletedWithErrors)
            ==> (r matches Err(AiRepositoryError::InvalidState(m)) && m@ == "只有 ASR 完成的项目可以进行高光分析"@),
        run.user_authorized && (project_status is Completed || project_status is CompletedWithErrors)
            && spec_trim(run.analysis_fingerprint@).len() == 0 ==> (r matches Err(
            AiRepositoryError::Integrity(m),
        ) && m@ == "分析指纹不能为空"@),
        r is Ok <==> run.user_authorized && (project_status is Completed
            || project_status is CompletedWithErrors) && spec_trim(run.analysis_fingerprint@).len() > 0
            && run.qualified_score <= 100 && run.excellent_score <= 100 && run.excellent_score
            >= run.qualified_score,
        spec_trim(run.analysis_fingerprint@).len() > 0 ==> (r matches Err(AiRepositoryError::Integrity(m))
            ==> m@ == "高光运行阈值必须在 0 到 100 之间，且优秀阈值不能低于合格阈值"@),
{
    if !run.user_authorized {
        return Err(AiRepositoryError::InvalidState(String::from_str("高光分析必须由用户显式授权")));
    }
    let finished = match project_status {
        AiProjectStatus::Completed | AiProjectStatus::CompletedWithErrors => true,
        _ => false,
    };
    if !finished {
        return Err(AiRepositoryError::InvalidState(String::from_str("只有 ASR 完成的项目可以进行高光分析")));
    }
    let trimmed = crate::text::trim(run.analysis_fingerprint.as_str());
    if trimmed.unicode_len() == 0 {
        return Err(AiRepositoryError::Integrity(String::from_str("分析指纹不能为空")));
    }
    if run.qualified_score > 100 || run.excellent_score > 100 || run.excellent_score < run.qualified_score {
        return Err(
            AiRepositoryError::Integrity(
                String::from_str("高光运行阈值必须在 0 到 100 之间，且优秀阈值不能低于合格阈值"),
            ),
        );
    }
    Ok(())
}

} // verus!
