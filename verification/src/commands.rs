//! The typed application commands' pure part: their error shape, the views
//! that leave source paths out, hotword normalization, and the store of file
//! grants that the system file picker issues.

use vstd::prelude::*;

use crate::domain::{
    AiHighlightRunStatus, AiInputSourceKind, AiInputStatus, AiProject, AiProjectDetail,
    AiProjectInput, AiProjectStatus,
};
use crate::llm::LlmError;
use crate::repository::AiRepositoryError;
use crate::service::{
    ImportBatchResult, ImportRejection, ServiceError, SessionImportResult, TrustedLocalFile,
};
use crate::text::{
    sort_dedup, spec_strictly_sorted, spec_trimmed_words, strings_view, trimmed_words,
};

verus! {

/// The error every command reports: a stable code, a message for the user,
/// and whether trying again may help.
#[derive(Debug, Clone, PartialEq, Eq)]
pub struct AiCommandError {
    pub code: String,
    pub message: String,
    pub retryable: bool,
}

impl AiCommandError {
    pub fn new(code: &str, message: &str, retryable: bool) -> (r: AiCommandError)
        ensures
            r.code@ == code@,
            r.message@ == message@,
            r.retryable == retryable,
    {
        AiCommandError {
            code: String::from_str(code),
            message: String::from_str(message),
            retryable,
        }
    }
}

#[derive(Debug, Clone, PartialEq, Eq)]
pub struct AiCreateProjectRequest {
    pub name: String,
    pub hotwords: Vec<String>,
}

#[derive(Debug, Clone, PartialEq, Eq)]
pub struct AiTrustedFileGrant {
    pub grant_id: String,
    pub display_name: String,
}

#[derive(Debug, Clone, PartialEq, Eq)]
pub struct AiProjectDetailView {
    pub project: AiProject,
    pub inputs: Vec<AiProjectInputView>,
}

/// An input as the front end sees it: no source path, no fingerprint.
#[derive(Debug, Clone, PartialEq, Eq)]
pub struct AiProjectInputView {
    pub id: i64,
    pub project_id: i64,
    pub position: i64,
    pub source_kind: AiInputSourceKind,
    pub video_id: Option<i64>,
    pub display_name: String,
    pub duration_ms: Option<u64>,
    pub audio_present: Option<bool>,
    pub project_offset_ms: Option<u64>,
    pub status: AiInputStatus,
    pub progress_percent: u8,
    pub artifact_id: Option<i64>,
    pub last_error_code: Option<String>,
    pub last_error_message: Option<String>,
}

#[derive(Debug, Clone, PartialEq, Eq)]
pub struct AiImportBatchView {
    pub added: Vec<AiProjectInputView>,
    pub rejected: Vec<ImportRejection>,
}

#[derive(Debug, Clone, PartialEq, Eq)]
pub struct AiSessionImportView {
    pub detail: AiProjectDetailView,
    pub added_count: usize,
    pub duplicate_count: usize,
    pub unavailable_count: usize,
}

#[derive(Debug, Clone, PartialEq, Eq)]
pub struct AiEnvironmentDiagnostic {
    pub ready: bool,
    pub platform: String,
    pub engine_id: String,
    pub engine_version: String,
    pub model_id: String,
    pub model_version: String,
    pub checks: Vec<AiEnvironmentCheckView>,
    pub message: String,
    pub runtime: Option<AiRuntimeResourceDiagnostic>,
}

#[derive(Debug, Clone, PartialEq, Eq)]
pub struct AiRuntimeResourceDiagnostic {
    pub bundle_version: String,
    pub manifest_sha256: String,
    pub signature_valid: bool,
    pub components: Vec<AiRuntimeComponentDiagnostic>,
}

#[derive(Debug, Clone, PartialEq, Eq)]
pub struct AiRuntimeComponentDiagnostic {
    pub id: String,
    pub version: String,
    pub required: bool,
    pub file_count: usize,
    pub size_bytes: u64,
}

#[derive(Debug, Clone, PartialEq, Eq)]
pub struct AiEnvironmentCheckView {
    pub code: String,
    pub passed: bool,
    pub message: String,
}

/// The most hotwords a project keeps.
pub const MAX_HOTWORDS: usize = 100;

/// The first hundred non-blank hotwords, trimmed.
pub open spec fn spec_kept_hotwords(hotwords: Seq<Seq<char>>) -> Seq<Seq<char>> {
    let t = spec_trimmed_words(hotwords);
    t.take(
        if t.len() < MAX_HOTWORDS {
            t.len() as int
        } else {
            MAX_HOTWORDS as int
        },
    )
}

/// The hotwords trimmed, without blanks, at most a hundred, sorted and without repeats.
pub fn normalize_hotwords(hotwords: Vec<String>) -> (r: Vec<String>)
    ensures
        spec_normalized_hotwords(strings_view(hotwords@), strings_view(r@)),
{
    let kept = trimmed_words(hotwords.as_slice(), MAX_HOTWORDS);
    sort_dedup(kept)
}

/// The view of an input: every field but the source path and fingerprints.
pub open spec fn spec_input_view_is(v: AiProjectInputView, input: AiProjectInput) -> bool {
    &&& v.id == input.id
    &&& v.project_id == input.project_id
    &&& v.position == input.position
    &&& v.source_kind == input.source_kind
    &&& v.video_id == input.video_id
    &&& v.display_name == input.display_name
    &&& v.duration_ms == input.duration_ms
    &&& v.audio_present == input.audio_present
    &&& v.project_offset_ms == input.project_offset_ms
    &&& v.status == input.status
    &&& v.progress_percent == input.progress_percent
    &&& v.artifact_id == input.artifact_id
    &&& v.last_error_code == input.last_error_code
    &&& v.last_error_message == input.last_error_message
}

pub fn sanitize_project_input(input: AiProjectInput) -> (r: AiProjectInputView)
    ensures
        spec_input_view_is(r, input),
{
    AiProjectInputView {
        id: input.id,
        project_id: input.project_id,
        position: input.position,
        source_kind: input.source_kind,
        video_id: input.video_id,
        display_name: input.display_name,
        duration_ms: input.duration_ms,
        audio_present: input.audio_present,
        project_offset_ms: input.project_offset_ms,
        status: input.status,
        progress_percent: input.progress_percent,
        artifact_id: input.artifact_id,
        last_error_code: input.last_error_code,
        last_error_message: input.last_error_message,
    }
}

fn sanitize_inputs(inputs: Vec<AiProjectInput>) -> (r: Vec<AiProjectInputView>)
    ensures
        r@.len() == inputs@.len(),
        forall|k: int| 0 <= k < inputs@.len() ==> spec_input_view_is(#[trigger] r@[k], inputs@[k]),
{
    let ghost all = inputs@;
    let mut rest = inputs;
    let mut reversed: Vec<AiProjectInputView> = Vec::new();
    while rest.len() > 0
        invariant
            reversed@.len() + rest@.len() == all.len(),
            rest@ == all.take(rest@.len() as int),
            forall|j: int|
                0 <= j < reversed@.len() ==> spec_input_view_is(
                    #[trigger] reversed@[j],
                    all[all.len() - 1 - j],
                ),
        decreases rest.len(),
    {
        let input = rest.pop().unwrap();
        assert(rest@ =~= all.take(rest@.len() as int));
        reversed.push(sanitize_project_input(input));
    }
    let mut views: Vec<AiProjectInputView> = Vec::new();
    while reversed.len() > 0
        invariant
            views@.len() + reversed@.len() == all.len(),
            forall|j: int|
                0 <= j < reversed@.len() ==> spec_input_view_is(
                    #[trigger] reversed@[j],
                    all[all.len() - 1 - j],
                ),
            forall|k: int| 0 <= k < views@.len() ==> spec_input_view_is(#[trigger] views@[k], all[k]),
        decreases reversed.len(),
    {
        let view = reversed.pop().unwrap();
        views.push(view);
    }
    views
}

/// A project as the front end sees it.
pub fn sanitize_project_detail(detail: AiProjectDetail) -> (r: AiProjectDetailView)
    ensures
        r.project == detail.project,
        r.inputs@.len() == detail.inputs@.len(),
        forall|k: int|
            0 <= k < detail.inputs@.len() ==> spec_input_view_is(
                #[trigger] r.inputs@[k],
                detail.inputs@[k],
            ),
{
    AiProjectDetailView { project: detail.project, inputs: sanitize_inputs(detail.inputs) }
}

pub fn sanitize_import_batch(batch: ImportBatchResult) -> (r: AiImportBatchView)
    ensures
        r.rejected == batch.rejected,
        r.added@.len() == batch.added@.len(),
        forall|k: int|
            0 <= k < batch.added@.len() ==> spec_input_view_is(
                #[trigger] r.added@[k],
                batch.added@[k],
            ),
{
    AiImportBatchView { added: sanitize_inputs(batch.added), rejected: batch.rejected }
}

pub fn sanitize_session_import(result: SessionImportResult, detail: AiProjectDetailView) -> (r:
    AiSessionImportView)
    ensures
        r.detail == detail,
        r.added_count == result.added_count,
        r.duplicate_count == result.duplicate_count,
        r.unavailable_count == result.unavailable_count,
{
    AiSessionImportView {
        detail,
        added_count: result.added_count,
        duplicate_count: result.duplicate_count,
        unavailable_count: result.unavailable_count,
    }
}

/// The code a service error is reported under.
pub open spec fn spec_service_error_code(error: ServiceError) -> Seq<char> {
    match error {
        ServiceError::SessionStillRecording => "session_still_recording"@,
        ServiceError::NoValidInput => "no_valid_ai_input"@,
        ServiceError::Preflight(_) => "asr_environment_not_ready"@,
        ServiceError::Media(_) => "media_inspection_failed"@,
        ServiceError::Repository(_) => "ai_repository_error"@,
        ServiceError::Database(_) => "ai_database_error"@,
    }
}

/// A service error as a retryable command error with its own message.
pub fn service_error(error: ServiceError) -> (r: AiCommandError)
    ensures
        r.code@ == spec_service_error_code(error),
        r.message@ == error.spec_message(),
        r.retryable,
{
    let code = match &error {
        ServiceError::SessionStillRecording => "session_still_recording",
        ServiceError::NoValidInput => "no_valid_ai_input",
        ServiceError::Preflight(_) => "asr_environment_not_ready",
        ServiceError::Media(_) => "media_inspection_failed",
        ServiceError::Repository(_) => "ai_repository_error",
        ServiceError::Database(_) => "ai_database_error",
    };
    let message = error.message();
    AiCommandError::new(code, message.as_str(), true)
}

/// The code a repository error is reported under.
pub open spec fn spec_repository_error_code(error: AiRepositoryError) -> Seq<char> {
    match error {
        AiRepositoryError::ClipVersionConflict => "clip_version_conflict"@,
        AiRepositoryError::ClipExportInProgress => "clip_export_in_progress"@,
        AiRepositoryError::InvalidClipSubtitle(_) => "invalid_clip_subtitle"@,
        _ => "ai_repository_error"@,
    }
}

/// A repository error as a retryable command error with its own message.
pub fn repository_error(error: AiRepositoryError) -> (r: AiCommandError)
    ensures
        r.code@ == spec_repository_error_code(error),
        r.message@ == error.spec_message(),
        r.retryable,
{
    let code = match &error {
        AiRepositoryError::ClipVersionConflict => "clip_version_conflict",
        AiRepositoryError::ClipExportInProgress => "clip_export_in_progress",
        AiRepositoryError::InvalidClipSubtitle(_) => "invalid_clip_subtitle",
        _ => "ai_repository_error",
    };
    let message = error.message();
    AiCommandError::new(code, message.as_str(), true)
}

/// The grant store could not be used; the user should pick the files again.
pub fn grant_store_error() -> (r: AiCommandError)
    ensures
        r.code@ == "file_grant_store_unavailable"@,
        r.message@ == "本地文件授权状态不可用，请重新选择视频"@,
        r.retryable,
{
    AiCommandError::new("file_grant_store_unavailable", "本地文件授权状态不可用，请重新选择视频", true)
}

/// A grant that the store did not issue, or no longer holds.
pub fn untrusted_grant_error() -> (r: AiCommandError)
    ensures
        r.code@ == "untrusted_file_grant"@,
        r.message@ == "本地视频必须通过系统文件选择器添加"@,
        !r.retryable,
{
    AiCommandError::new("untrusted_file_grant", "本地视频必须通过系统文件选择器添加", false)
}

/// The answer of a job controller that cannot move inputs in its queue.
pub fn scheduler_control_unavailable() -> (r: AiCommandError)
    ensures
        r.code@ == "scheduler_control_unavailable"@,
        r.message@ == "当前运行时不支持调整队列"@,
        r.retryable,
{
    AiCommandError::new("scheduler_control_unavailable", "当前运行时不支持调整队列", true)
}

/// The answer of such a controller to an immediate switch: unconfirmed, the
/// switch asks for confirmation first; confirmed, it is unavailable.
pub fn preempt_without_queue_control(confirmed: bool) -> (r: AiCommandError)
    ensures
        !confirmed ==> r.code@ == "confirmation_required"@ && r.message@ == "立即切换必须二次确认"@
            && !r.retryable,
        confirmed ==> r.code@ == "scheduler_control_unavailable"@ && r.message@
            == "当前运行时不支持调整队列"@ && r.retryable,
{
    if !confirmed {
        return AiCommandError::new("confirmation_required", "立即切换必须二次确认", false);
    }
    scheduler_control_unavailable()
}

/// The answer when no highlight provider is configured.
pub fn llm_provider_unavailable() -> (r: AiCommandError)
    ensures
        r.code@ == "llm_provider_unavailable"@,
        r.message@ == "高光分析 Provider 尚未配置"@,
        r.retryable,
{
    AiCommandError::new("llm_provider_unavailable", "高光分析 Provider 尚未配置", true)
}

/// A run the user never authorized is not resumed automatically.
pub fn highlight_authorization_required() -> (r: AiCommandError)
    ensures
        r.code@ == "highlight_authorization_required"@,
        r.message@ == "该高光运行没有用户授权，不能自动恢复"@,
        !r.retryable,
{
    AiCommandError::new("highlight_authorization_required", "该高光运行没有用户授权，不能自动恢复", false)
}

/// The state of running highlight tasks could not be read.
pub fn highlight_task_state_unavailable() -> (r: AiCommandError)
    ensures
        r.code@ == "highlight_task_state_unavailable"@,
        r.message@ == "高光分析任务状态不可用"@,
        r.retryable,
{
    AiCommandError::new("highlight_task_state_unavailable", "高光分析任务状态不可用", true)
}

/// Preparing a highlight run failed.
pub fn highlight_analysis_failed(error: &LlmError) -> (r: AiCommandError)
    ensures
        r.code@ == "highlight_analysis_failed"@,
        r.message@ == error.spec_message(),
        r.retryable,
{
    let message = error.message();
    AiCommandError::new("highlight_analysis_failed", message.as_str(), true)
}

/// Diagnosing the provider failed; only a temporary or provider failure is
/// worth trying again.
pub fn llm_diagnosis_failed(error: &LlmError) -> (r: AiCommandError)
    ensures
        r.code@ == "llm_diagnosis_failed"@,
        r.message@ == error.spec_message(),
        r.retryable == (*error is Temporary || *error is Provider),
{
    let retryable = match error {
        LlmError::Temporary | LlmError::Provider => true,
        _ => false,
    };
    let message = error.message();
    AiCommandError::new("llm_diagnosis_failed", message.as_str(), retryable)
}

/// After preparing or loading a run, its analysis task is started unless the
/// run is already complete.
pub fn highlight_task_needed(status: AiHighlightRunStatus) -> (r: bool)
    ensures
        r == !(status is Completed),
{
    match status {
        AiHighlightRunStatus::Completed => false,
        _ => true,
    }
}

/// A queued or running project is marked as being deleted and cancelled
/// before it is removed; any other project is removed at once.
pub fn deletion_needs_cancellation(status: AiProjectStatus) -> (r: bool)
    ensures
        r == (status is Queued || status is Running),
{
    match status {
        AiProjectStatus::Queued | AiProjectStatus::Running => true,
        _ => false,
    }
}

/// How long a file grant stays valid: fifteen minutes.
pub const GRANT_TTL_MS: u64 = 900_000;

/// The most files one call registers or consumes.
pub const MAX_GRANTS_PER_CALL: usize = 100;

/// A file the system picker returned, as the application found it on disk.
#[derive(Debug, Clone, PartialEq, Eq)]
pub enum FileSelection {
    /// It could not be resolved to a canonical path.
    Unavailable,
    /// It is not a regular file.
    NotRegular,
    /// A regular file: its canonical path, the bytes of that path, and its file name.
    File { canonical_path: String, path_bytes: Vec<u8>, file_name: Option<String> },
}

#[derive(Debug)]
struct GrantEntry {
    grant_id: String,
    path: String,
    expires_at_ms: u64,
}

/// The grants the system file picker issued and that have not been used yet.
/// Its time is a monotonic clock in milliseconds that the caller reads.
#[derive(Debug)]
pub struct TrustedFileGrantStore {
    next_id: u64,
    entries: Vec<GrantEntry>,
}

spec fn entry_value(e: GrantEntry) -> (Seq<char>, u64) {
    (e.path@, e.expires_at_ms)
}

spec fn entries_unique(entries: Seq<GrantEntry>) -> bool {
    forall|i: int, j: int|
        0 <= i < j < entries.len() ==> (#[trigger] entries[i]).grant_id@ != (
        #[trigger] entries[j]).grant_id@
}

spec fn entries_map(entries: Seq<GrantEntry>) -> Map<Seq<char>, (Seq<char>, u64)>
    decreases entries.len(),
{
    if entries.len() == 0 {
        Map::empty()
    } else {
        entries_map(entries.drop_last()).insert(
            entries.last().grant_id@,
            entry_value(entries.last()),
        )
    }
}

proof fn lemma_entries_map_lookup(entries: Seq<GrantEntry>)
    requires
        entries_unique(entries),
    ensures
        forall|i: int|
            0 <= i < entries.len() ==> entries_map(entries).dom().contains(
                (#[trigger] entries[i]).grant_id@,
            ) && entries_map(entries)[entries[i].grant_id@] == entry_value(entries[i]),
        forall|k: Seq<char>|
            entries_map(entries).dom().contains(k) ==> exists|i: int|
                0 <= i < entries.len() && (#[trigger] entries[i]).grant_id@ == k,
    decreases entries.len(),
{
    if entries.len() > 0 {
        let d = entries.drop_last();
        assert(entries_unique(d)) by {
            assert forall|i: int, j: int| 0 <= i < j < d.len() implies (#[trigger] d[i]).grant_id@
                != (#[trigger] d[j]).grant_id@ by {
                assert(d[i] == entries[i] && d[j] == entries[j]);
            }
        }
        lemma_entries_map_lookup(d);
        let last = entries.last();
        assert forall|i: int| 0 <= i < entries.len() implies entries_map(entries).dom().contains(
            (#[trigger] entries[i]).grant_id@,
        ) && entries_map(entries)[entries[i].grant_id@] == entry_value(entries[i]) by {
            if i < entries.len() - 1 {
                assert(entries[i] == d[i]);
                assert(entries[i].grant_id@ != last.grant_id@);
            }
        }
        assert forall|k: Seq<char>| entries_map(entries).dom().contains(k) implies exists|i: int|
            0 <= i < entries.len() && (#[trigger] entries[i]).grant_id@ == k by {
            if k != last.grant_id@ {
                assert(entries_map(d).dom().contains(k));
                let i = choose|i: int| 0 <= i < d.len() && (#[trigger] d[i]).grant_id@ == k;
                assert(entries[i] == d[i]);
            } else {
                assert(entries[entries.len() - 1] == last);
            }
        }
    }
}

/// A unique list of entries whose ids and values are those of `m` is `m`.
proof fn lemma_entries_map_is(entries: Seq<GrantEntry>, m: Map<Seq<char>, (Seq<char>, u64)>)
    requires
        entries_unique(entries),
        forall|i: int|
            0 <= i < entries.len() ==> m.dom().contains((#[trigger] entries[i]).grant_id@)
                && m[entries[i].grant_id@] == entry_value(entries[i]),
        forall|k: Seq<char>|
            m.dom().contains(k) ==> exists|i: int|
                0 <= i < entries.len() && (#[trigger] entries[i]).grant_id@ == k,
    ensures
        entries_map(entries) == m,
{
    lemma_entries_map_lookup(entries);
    let e = entries_map(entries);
    assert forall|k: Seq<char>| e.dom().contains(k) <==> m.dom().contains(k) by {
        if e.dom().contains(k) {
            let i = choose|i: int| 0 <= i < entries.len() && (#[trigger] entries[i]).grant_id@ == k;
        }
        if m.dom().contains(k) {
            let i = choose|i: int| 0 <= i < entries.len() && (#[trigger] entries[i]).grant_id@ == k;
        }
    }
    assert forall|k: Seq<char>| e.dom().contains(k) implies e[k] == m[k] by {
        let i = choose|i: int| 0 <= i < entries.len() && (#[trigger] entries[i]).grant_id@ == k;
    }
    assert(e =~= m);
}

/// The grants still valid at `now`.
pub open spec fn spec_unexpired(m: Map<Seq<char>, (Seq<char>, u64)>, now: u64) -> Map<
    Seq<char>,
    (Seq<char>, u64),
> {
    Map::new(|k: Seq<char>| m.dom().contains(k) && m[k].1 > now, |k: Seq<char>| m[k])
}

/// The `width` low hexadecimal digits of `n`, most significant first, as `{:0width$x}` writes them.
pub open spec fn spec_hex_fixed(n: nat, width: nat) -> Seq<char>
    decreases width,
{
    if width == 0 {
        Seq::empty()
    } else {
        spec_hex_fixed(n / 16, (width - 1) as nat).push(crate::digest::spec_hex_digit((n % 16) as u8))
    }
}

fn hex_digit(v: u8) -> (r: char)
    requires
        v < 16,
    ensures
        r == crate::digest::spec_hex_digit(v),
{
    if v < 10 {
        ((v + 48) as u8) as char
    } else {
        ((v + 87) as u8) as char
    }
}

fn hex_fixed(n: u64, width: usize) -> (r: String)
    ensures
        r@ == spec_hex_fixed(n as nat, width as nat),
    decreases width,
{
    if width == 0 {
        String::new()
    } else {
        let mut s = hex_fixed(n / 16, width - 1);
        crate::text::push_char(&mut s, hex_digit((n % 16) as u8));
        s
    }
}

/// The id of the grant issued as number `counter` for the path `path_bytes`:
/// `ai-file-`, the counter in 16 hex digits, `-`, and the first 12 hex digits
/// of the path's SHA-256.
pub open spec fn spec_issued_grant_id(counter: u64, path_bytes: Seq<u8>) -> Seq<char> {
    "ai-file-"@ + spec_hex_fixed(counter as nat, 16) + "-"@ + crate::digest::spec_hex(
        crate::digest::spec_sha256(path_bytes),
    ).take(12)
}

/// The name shown for a granted file.
pub open spec fn spec_grant_display_name(file_name: Option<Seq<char>>) -> Seq<char> {
    match file_name {
        Some(n) => n,
        None => "未命名视频"@,
    }.map_values(|c: char| crate::projection::spec_flatten_line_break(c))
}

pub open spec fn spec_next_counter(n: u64) -> u64 {
    if n == u64::MAX {
        0
    } else {
        (n + 1) as u64
    }
}

/// Registration from the selection `sels` on: the grants, the next counter,
/// the (id, display name) of each grant issued, and the selection that
/// stopped it, if one did. A canonical path already granted in the same
/// call is passed over.
pub open spec fn spec_register(
    grants: Map<Seq<char>, (Seq<char>, u64)>,
    next: u64,
    seen: Set<Seq<char>>,
    sels: Seq<FileSelection>,
    expires_at: u64,
) -> (Map<Seq<char>, (Seq<char>, u64)>, u64, Seq<(Seq<char>, Seq<char>)>, Option<FileSelection>)
    decreases sels.len(),
{
    if sels.len() == 0 {
        (grants, next, Seq::empty(), None)
    } else {
        match sels[0] {
            FileSelection::Unavailable => (grants, next, Seq::empty(), Some(FileSelection::Unavailable)),
            FileSelection::NotRegular => (grants, next, Seq::empty(), Some(FileSelection::NotRegular)),
            FileSelection::File { canonical_path, path_bytes, file_name } => {
                if seen.contains(canonical_path@) {
                    spec_register(grants, next, seen, sels.drop_first(), expires_at)
                } else {
                    let id = spec_issued_grant_id(next, path_bytes@);
                    let (g, n, out, err) = spec_register(
                        grants.insert(id, (canonical_path@, expires_at)),
                        spec_next_counter(next),
                        seen.insert(canonical_path@),
                        sels.drop_first(),
                        expires_at,
                    );
                    (g, n, seq![(id, spec_grant_display_name(crate::text::opt_view(file_name)))] + out, err)
                }
            },
        }
    }
}

/// The code and message of the error a selection stops registration with.
pub open spec fn spec_selection_error(sel: FileSelection) -> (Seq<char>, Seq<char>) {
    match sel {
        FileSelection::Unavailable => ("selected_file_unavailable"@, "选择的视频不存在或不可访问"@),
        _ => ("selected_file_not_regular"@, "选择的视频必须是普通文件"@),
    }
}

proof fn lemma_push_to_set(s: Seq<Seq<char>>, x: Seq<char>)
    ensures
        s.push(x).to_set() == s.to_set().insert(x),
{
    let a = s.push(x);
    assert forall|y: Seq<char>| a.contains(y) <==> s.contains(y) || y == x by {
        if a.contains(y) {
            let q = choose|q: int| 0 <= q < a.len() && a[q] == y;
            if q < s.len() {
                assert(s[q] == y);
            }
        }
        if s.contains(y) {
            let q = choose|q: int| 0 <= q < s.len() && s[q] == y;
            assert(a[q] == y);
        }
        if y == x {
            assert(a[s.len() as int] == y);
        }
    }
    assert(a.to_set() =~= s.to_set().insert(x));
}

proof fn lemma_take_push_set(s: Seq<Seq<char>>, k: int)
    requires
        0 <= k < s.len(),
    ensures
        s.take(k + 1).to_set() == s.take(k).to_set().insert(s[k]),
{
    let a = s.take(k + 1);
    let b = s.take(k);
    assert forall|x: Seq<char>| a.contains(x) <==> b.contains(x) || x == s[k] by {
        if a.contains(x) {
            let q = choose|q: int| 0 <= q < a.len() && a[q] == x;
            if q < k {
                assert(b[q] == x);
            }
        }
        if b.contains(x) {
            let q = choose|q: int| 0 <= q < b.len() && b[q] == x;
            assert(a[q] == x);
        }
        if x == s[k] {
            assert(a[k] == x);
        }
    }
    assert(a.to_set() =~= b.to_set().insert(s[k]));
}

impl TrustedFileGrantStore {
    #[verifier::type_invariant]
    spec fn unique_ids(&self) -> bool {
        entries_unique(self.entries@)
    }

    /// The grants held: id to (canonical path, expiry).
    pub closed spec fn grants(&self) -> Map<Seq<char>, (Seq<char>, u64)> {
        entries_map(self.entries@)
    }

    /// The number the next grant is issued under.
    pub closed spec fn next_counter(&self) -> u64 {
        self.next_id
    }

    /// An empty store whose first grant is number 1.
    pub fn new() -> (r: TrustedFileGrantStore)
        ensures
            r.grants() == Map::<Seq<char>, (Seq<char>, u64)>::empty(),
            r.next_counter() == 1,
    {
        TrustedFileGrantStore { next_id: 1, entries: Vec::new() }
    }

    fn find(&self, grant_id: &str) -> (r: Option<usize>)
        ensures
            match r {
                Some(i) => i < self.entries@.len() && self.entries@[i as int].grant_id@ == grant_id@,
                None => forall|i: int|
                    0 <= i < self.entries@.len() ==> (#[trigger] self.entries@[i]).grant_id@
                        != grant_id@,
            },
    {
        let mut i: usize = 0;
        while i < self.entries.len()
            invariant
                i <= self.entries@.len(),
                forall|j: int| 0 <= j < i ==> (#[trigger] self.entries@[j]).grant_id@ != grant_id@,
            decreases self.entries.len() - i,
        {
            if crate::text::str_eq(self.entries[i].grant_id.as_str(), grant_id) {
                return Some(i);
            }
            i += 1;
        }
        None
    }

    /// Drops every grant that has expired at `now`.
    fn retain_unexpired(&mut self, now: u64)
        ensures
            final(self).grants() == spec_unexpired(old(self).grants(), now),
            final(self).next_counter() == old(self).next_counter(),
    {
        proof {
            use_type_invariant(&*self);
            lemma_entries_map_lookup(self.entries@);
        }
        let ghost orig = self.entries@;
        let ghost before = self.grants();
        let mut rest: Vec<GrantEntry> = Vec::new();
        std::mem::swap(&mut rest, &mut self.entries);
        let mut kept: Vec<GrantEntry> = Vec::new();
        let ghost mut pos: Seq<int> = Seq::empty();
        while rest.len() > 0
            invariant
                entries_unique(orig),
                rest@.len() <= orig.len(),
                rest@ == orig.take(rest@.len() as int),
                pos.len() == kept@.len(),
                forall|j: int|
                    0 <= j < kept@.len() ==> rest@.len() <= #[trigger] pos[j] < orig.len() && kept@[j]
                        == orig[pos[j]] && orig[pos[j]].expires_at_ms > now,
                forall|j1: int, j2: int| 0 <= j1 < j2 < kept@.len() ==> pos[j1] > pos[j2],
                forall|i: int|
                    rest@.len() <= i < orig.len() && (#[trigger] orig[i]).expires_at_ms > now
                        ==> exists|j: int| 0 <= j < kept@.len() && pos[j] == i,
            decreases rest.len(),
        {
            let ghost before_pop = rest@;
            let e = rest.pop().unwrap();
            let ghost p = rest@.len() as int;
            assert(before_pop[p] == orig[p]);
            assert(e == orig[p]);
            assert(rest@ =~= orig.take(rest@.len() as int));
            let ghost old_pos = pos;
            let ghost old_kept_len = kept@.len();
            if e.expires_at_ms > now {
                kept.push(e);
                proof {
                    pos = pos.push(p);
                    assert(kept@[kept@.len() - 1] == orig[p]);
                }
            }
            proof {
                assert forall|i: int|
                    rest@.len() <= i < orig.len() && (#[trigger] orig[i]).expires_at_ms > now implies exists|j: int|
                        0 <= j < kept@.len() && pos[j] == i by {
                    if i == p {
                        assert(pos[old_kept_len as int] == i);
                    } else {
                        let j = choose|j: int| 0 <= j < old_kept_len && old_pos[j] == i;
                        assert(pos[j] == i);
                    }
                }
            }
        }
        proof {
            assert(entries_unique(kept@)) by {
                assert forall|j1: int, j2: int| 0 <= j1 < j2 < kept@.len() implies (
                #[trigger] kept@[j1]).grant_id@ != (#[trigger] kept@[j2]).grant_id@ by {
                    assert(pos[j1] > pos[j2]);
                    assert(orig[pos[j2]].grant_id@ != orig[pos[j1]].grant_id@);
                }
            }
            let target = spec_unexpired(before, now);
            assert forall|j: int| 0 <= j < kept@.len() implies target.dom().contains(
                (#[trigger] kept@[j]).grant_id@,
            ) && target[kept@[j].grant_id@] == entry_value(kept@[j]) by {
                assert(kept@[j] == orig[pos[j]]);
                assert(before.dom().contains(orig[pos[j]].grant_id@));
            }
            assert forall|k: Seq<char>| target.dom().contains(k) implies exists|j: int|
                0 <= j < kept@.len() && (#[trigger] kept@[j]).grant_id@ == k by {
                let i = choose|i: int| 0 <= i < orig.len() && (#[trigger] orig[i]).grant_id@ == k;
                assert(before[k] == entry_value(orig[i]));
                let j = choose|j: int| 0 <= j < kept@.len() && pos[j] == i;
                assert(kept@[j] == orig[i]);
            }
            lemma_entries_map_is(kept@, target);
        }
        self.entries = kept;
    }

    /// Adds or replaces the grant `grant_id`.
    fn insert(&mut self, grant_id: String, path: String, expires_at_ms: u64)
        ensures
            final(self).grants() == old(self).grants().insert(grant_id@, (path@, expires_at_ms)),
            final(self).next_counter() == old(self).next_counter(),
    {
        proof {
            use_type_invariant(&*self);
            lemma_entries_map_lookup(self.entries@);
        }
        let ghost before = self.grants();
        let ghost old_entries = self.entries@;
        let entry = GrantEntry { grant_id, path, expires_at_ms };
        let ghost ev = entry_value(entry);
        let ghost id = entry.grant_id@;
        match self.find(entry.grant_id.as_str()) {
            Some(i) => {
                let mut rest: Vec<GrantEntry> = Vec::new();
                std::mem::swap(&mut rest, &mut self.entries);
                rest.set(i, entry);
                proof {
                    let target = before.insert(id, ev);
                    assert(entries_unique(rest@)) by {
                        assert forall|a: int, b: int| 0 <= a < b < rest@.len() implies (
                        #[trigger] rest@[a]).grant_id@ != (#[trigger] rest@[b]).grant_id@ by {
                            if a != i && b != i {
                                assert(rest@[a] == old_entries[a] && rest@[b] == old_entries[b]);
                            } else if a == i {
                                assert(rest@[b] == old_entries[b]);
                                assert(old_entries[i as int].grant_id@ == id);
                            } else {
                                assert(rest@[a] == old_entries[a]);
                                assert(old_entries[i as int].grant_id@ == id);
                            }
                        }
                    }
                    assert forall|j: int| 0 <= j < rest@.len() implies target.dom().contains(
                        (#[trigger] rest@[j]).grant_id@,
                    ) && target[rest@[j].grant_id@] == entry_value(rest@[j]) by {
                        if j != i {
                            assert(rest@[j] == old_entries[j]);
                            assert(old_entries[j].grant_id@ != old_entries[i as int].grant_id@);
                        }
                    }
                    assert forall|k: Seq<char>| target.dom().contains(k) implies exists|j: int|
                        0 <= j < rest@.len() && (#[trigger] rest@[j]).grant_id@ == k by {
                        if k == id {
                            assert(rest@[i as int].grant_id@ == k);
                        } else {
                            let j = choose|j: int|
                                0 <= j < old_entries.len() && (#[trigger] old_entries[j]).grant_id@
                                    == k;
                            assert(j != i);
                            assert(rest@[j] == old_entries[j]);
                        }
                    }
                    lemma_entries_map_is(rest@, target);
                }
                self.entries = rest;
            },
            None => {
                let mut rest: Vec<GrantEntry> = Vec::new();
                std::mem::swap(&mut rest, &mut self.entries);
                rest.push(entry);
                proof {
                    assert(rest@.drop_last() =~= old_entries);
                    assert(entries_unique(rest@)) by {
                        assert forall|a: int, b: int| 0 <= a < b < rest@.len() implies (
                        #[trigger] rest@[a]).grant_id@ != (#[trigger] rest@[b]).grant_id@ by {
                            assert(rest@[a] == old_entries[a]);
                            if b < old_entries.len() {
                                assert(rest@[b] == old_entries[b]);
                            }
                        }
                    }
                }
                self.entries = rest;
            },
        }
    }

    /// Takes the grant `grant_id` out of the store, giving back its path.
    fn take(&mut self, grant_id: &str) -> (r: Option<String>)
        ensures
            old(self).grants().dom().contains(grant_id@) ==> (r matches Some(p) && p@ == old(
                self,
            ).grants()[grant_id@].0),
            !old(self).grants().dom().contains(grant_id@) ==> r is None,
            final(self).grants() == old(self).grants().remove(grant_id@),
            final(self).next_counter() == old(self).next_counter(),
    {
        proof {
            use_type_invariant(&*self);
            lemma_entries_map_lookup(self.entries@);
        }
        let ghost before = self.grants();
        let ghost old_entries = self.entries@;
        match self.find(grant_id) {
            Some(i) => {
                let mut rest: Vec<GrantEntry> = Vec::new();
                std::mem::swap(&mut rest, &mut self.entries);
                let entry = rest.remove(i);
                proof {
                    let target = before.remove(grant_id@);
                    assert(entries_unique(rest@)) by {
                        assert forall|a: int, b: int| 0 <= a < b < rest@.len() implies (
                        #[trigger] rest@[a]).grant_id@ != (#[trigger] rest@[b]).grant_id@ by {
                            let oa = if a < i { a } else { a + 1 };
                            let ob = if b < i { b } else { b + 1 };
                            assert(rest@[a] == old_entries[oa]);
                            assert(rest@[b] == old_entries[ob]);
                        }
                    }
                    assert forall|j: int| 0 <= j < rest@.len() implies target.dom().contains(
                        (#[trigger] rest@[j]).grant_id@,
                    ) && target[rest@[j].grant_id@] == entry_value(rest@[j]) by {
                        let oj = if j < i { j } else { j + 1 };
                        assert(rest@[j] == old_entries[oj]);
                        assert(old_entries[oj].grant_id@ != old_entries[i as int].grant_id@);
                    }
                    assert forall|k: Seq<char>| target.dom().contains(k) implies exists|j: int|
                        0 <= j < rest@.len() && (#[trigger] rest@[j]).grant_id@ == k by {
                        let o = choose|o: int|
                            0 <= o < old_entries.len() && (#[trigger] old_entries[o]).grant_id@ == k;
                        assert(o != i);
                        let j = if o < i { o } else { o - 1 };
                        assert(rest@[j] == old_entries[o]);
                    }
                    lemma_entries_map_is(rest@, target);
                }
                self.entries = rest;
                Some(entry.path)
            },
            None => {
                proof {
                    assert(before.remove(grant_id@) =~= before);
                }
                None
            },
        }
    }

    /// Issues the next grant for a canonical path, valid until `expires_at`.
    fn issue(
        &mut self,
        canonical_path: &String,
        path_bytes: &[u8],
        file_name: &Option<String>,
        expires_at: u64,
    ) -> (r: AiTrustedFileGrant)
        ensures
            r.grant_id@ == spec_issued_grant_id(old(self).next_counter(), path_bytes@),
            r.display_name@ == spec_grant_display_name(crate::text::opt_view(*file_name)),
            final(self).grants() == old(self).grants().insert(
                r.grant_id@,
                (canonical_path@, expires_at),
            ),
            final(self).next_counter() == spec_next_counter(old(self).next_counter()),
    {
        let counter = self.next_id;
        let digest = crate::digest::sha256(path_bytes);
        let hex = crate::digest::hex_encode(digest.as_slice());
        proof {
            crate::digest::lemma_hex_len(digest@);
        }
        let hex_chars = crate::text::to_chars(hex.as_str());
        let short = crate::text::from_chars(&hex_chars.as_slice()[0..12]);
        assert(hex_chars@.subrange(0, 12) =~= hex@.take(12));
        let mut id = String::from_str("ai-file-");
        let counter_hex = hex_fixed(counter, 16);
        id.append(counter_hex.as_str());
        id.append("-");
        id.append(short.as_str());
        let name = match file_name {
            Some(n) => crate::projection::flatten_line_breaks(n.as_str()),
            None => crate::projection::flatten_line_breaks("未命名视频"),
        };
        self.insert(id.clone(), canonical_path.clone(), expires_at);
        proof {
            use_type_invariant(&*self);
        }
        self.next_id = if counter == u64::MAX {
            0
        } else {
            counter + 1
        };
        AiTrustedFileGrant { grant_id: id, display_name: name }
    }

    /// Registers the files the picker returned, at most a hundred, after
    /// dropping the expired grants: each regular file not seen before in the
    /// call gets a new grant valid for fifteen minutes. The first file that
    /// could not be resolved, or is not a regular file, stops the call with an
    /// error; the grants issued before it stay.
    pub fn register(&mut self, selections: &[FileSelection], now_ms: u64) -> (r: Result<
        Vec<AiTrustedFileGrant>,
        AiCommandError,
    >)
        requires
            now_ms <= u64::MAX - GRANT_TTL_MS,
        ensures
            ({
                let taken = selections@.take(
                    if selections@.len() < MAX_GRANTS_PER_CALL {
                        selections@.len() as int
                    } else {
                        MAX_GRANTS_PER_CALL as int
                    },
                );
                let (g, n, out, err) = spec_register(
                    spec_unexpired(old(self).grants(), now_ms),
                    old(self).next_counter(),
                    Set::empty(),
                    taken,
                    (now_ms + GRANT_TTL_MS) as u64,
                );
                &&& final(self).grants() == g
                &&& final(self).next_counter() == n
                &&& err is None ==> (r matches Ok(v) && v@.len() == out.len() && forall|k: int|
                    0 <= k < out.len() ==> (#[trigger] v@[k]).grant_id@ == out[k].0
                        && v@[k].display_name@ == out[k].1)
                &&& (err matches Some(sel) ==> (r matches Err(e) && e.code@ == spec_selection_error(
                    sel,
                ).0 && e.message@ == spec_selection_error(sel).1 && !e.retryable))
            }),
    {
        self.retain_unexpired(now_ms);
        let expires_at = now_ms + GRANT_TTL_MS;
        let limit = if selections.len() < MAX_GRANTS_PER_CALL {
            selections.len()
        } else {
            MAX_GRANTS_PER_CALL
        };
        let ghost taken = selections@.take(limit as int);
        let ghost total = spec_register(self.grants(), self.next_counter(), Set::empty(), taken, expires_at);
        let mut seen: Vec<String> = Vec::new();
        let mut result: Vec<AiTrustedFileGrant> = Vec::new();
        let mut i: usize = 0;
        assert(taken.skip(0) =~= taken);
        assert(strings_view(seen@).to_set() =~= Set::<Seq<char>>::empty());
        while i < limit
            invariant
                limit <= selections@.len(),
                limit == (if selections@.len() < MAX_GRANTS_PER_CALL {
                    selections@.len()
                } else {
                    MAX_GRANTS_PER_CALL as nat
                }),
                taken == selections@.take(limit as int),
                expires_at == now_ms + GRANT_TTL_MS,
                total == spec_register(
                    spec_unexpired(old(self).grants(), now_ms),
                    old(self).next_counter(),
                    Set::empty(),
                    taken,
                    expires_at,
                ),
                i <= limit,
                ({
                    let (g, n, out, err) = spec_register(
                        self.grants(),
                        self.next_counter(),
                        strings_view(seen@).to_set(),
                        taken.skip(i as int),
                        expires_at,
                    );
                    &&& total.0 == g
                    &&& total.1 == n
                    &&& total.3 == err
                    &&& total.2.len() == result@.len() + out.len()
                    &&& forall|k: int|
                        0 <= k < result@.len() ==> (#[trigger] result@[k]).grant_id@ == total.2[k].0
                            && result@[k].display_name@ == total.2[k].1
                    &&& forall|k: int|
                        0 <= k < out.len() ==> #[trigger] total.2[result@.len() + k] == out[k]
                }),
            decreases limit - i,
        {
            let ghost rest = taken.skip(i as int);
            assert(rest[0] == selections@[i as int]);
            assert(rest.drop_first() =~= taken.skip(i + 1));
            let ghost state = spec_register(
                self.grants(),
                self.next_counter(),
                strings_view(seen@).to_set(),
                rest,
                expires_at,
            );
            match &selections[i] {
                FileSelection::Unavailable => {
                    assert(state == (self.grants(), self.next_counter(), Seq::<(Seq<char>, Seq<char>)>::empty(), Some(FileSelection::Unavailable)));
                    return Err(AiCommandError::new(
                        "selected_file_unavailable",
                        "选择的视频不存在或不可访问",
                        false,
                    ));
                },
                FileSelection::NotRegular => {
                    assert(state == (self.grants(), self.next_counter(), Seq::<(Seq<char>, Seq<char>)>::empty(), Some(FileSelection::NotRegular)));
                    return Err(AiCommandError::new(
                        "selected_file_not_regular",
                        "选择的视频必须是普通文件",
                        false,
                    ));
                },
                FileSelection::File { canonical_path, path_bytes, file_name } => {
                    let mut already = false;
                    let mut s: usize = 0;
                    while s < seen.len()
                        invariant
                            s <= seen@.len(),
                            already <==> exists|q: int| 0 <= q < s && (#[trigger] seen@[q])@ == canonical_path@,
                        decreases seen.len() - s,
                    {
                        if crate::text::str_eq(seen[s].as_str(), canonical_path.as_str()) {
                            already = true;
                        }
                        s += 1;
                    }
                    proof {
                        let sv = strings_view(seen@);
                        if already {
                            let q = choose|q: int| 0 <= q < seen@.len() && (#[trigger] seen@[q])@ == canonical_path@;
                            assert(sv[q] == canonical_path@);
                            assert(sv.to_set().contains(canonical_path@));
                        } else {
                            assert(!sv.contains(canonical_path@)) by {
                                if sv.contains(canonical_path@) {
                                    let q = choose|q: int| 0 <= q < sv.len() && sv[q] == canonical_path@;
                                    assert(seen@[q]@ == canonical_path@);
                                }
                            }
                        }
                    }
                    let ghost g0 = self.grants();
                    let ghost n0 = self.next_counter();
                    let ghost s0 = strings_view(seen@).to_set();
                    let ghost r0 = result@.len();
                    if !already {
                        let grant = self.issue(canonical_path, path_bytes.as_slice(), file_name, expires_at);
                        let ghost before_seen = strings_view(seen@);
                        crate::text::push_string(&mut seen, canonical_path.clone());
                        proof {
                            lemma_push_to_set(before_seen, canonical_path@);
                        }
                        let ghost item = (grant.grant_id@, grant.display_name@);
                        result.push(grant);
                        proof {
                            let (g1, n1, o1, e1) = spec_register(
                                self.grants(),
                                self.next_counter(),
                                strings_view(seen@).to_set(),
                                taken.skip(i + 1),
                                expires_at,
                            );
                            assert(state == (g1, n1, seq![item] + o1, e1));
                            assert(result@[r0 as int].grant_id@ == item.0);
                            let out0 = seq![item] + o1;
                            assert forall|k: int| 0 <= k < o1.len() implies #[trigger] total.2[result@.len() + k] == o1[k] by {
                                assert(out0[k + 1] == o1[k]);
                                assert(total.2[r0 + (k + 1)] == out0[k + 1]);
                                assert(r0 + (k + 1) == result@.len() + k);
                            }
                            let z: int = 0;
                            assert(total.2[r0 + z] == out0[z]);
                            assert(out0[z] == item);
                        }
                    } else {
                        proof {
                            assert(state == spec_register(g0, n0, s0, taken.skip(i + 1), expires_at));
                        }
                    }
                },
            }
            i += 1;
        }
        assert(taken.skip(limit as int) =~= Seq::<FileSelection>::empty());
        Ok(result)
    }

    /// Uses up the grants with these ids, after dropping the expired ones. The
    /// call is refused, and nothing taken, unless there are between one and a
    /// hundred ids, all different and all still held.
    pub fn consume(&mut self, grant_ids: &[String], now_ms: u64) -> (r: Result<
        Vec<TrustedLocalFile>,
        AiCommandError,
    >)
        ensures
            final(self).next_counter() == old(self).next_counter(),
            ({
                let ids = strings_view(grant_ids@);
                let live = spec_unexpired(old(self).grants(), now_ms);
                let shape_ok = 0 < ids.len() <= MAX_GRANTS_PER_CALL && ids.no_duplicates();
                let held = forall|k: int| 0 <= k < ids.len() ==> live.dom().contains(#[trigger] ids[k]);
                &&& !shape_ok ==> final(self).grants() == old(self).grants()
                &&& shape_ok ==> (held <==> r is Ok)
                &&& !(shape_ok && held) ==> (r matches Err(e) && e.code@ == "untrusted_file_grant"@
                    && e.message@ == "本地视频必须通过系统文件选择器添加"@ && !e.retryable)
                &&& shape_ok && !held ==> final(self).grants() == live
                &&& shape_ok && held ==> final(self).grants() == live.remove_keys(ids.to_set())
                &&& (r matches Ok(files) ==> files@.len() == ids.len() && forall|k: int|
                    0 <= k < ids.len() ==> (#[trigger] files@[k]).spec_grant_id() == ids[k]
                        && files@[k].spec_path() == live[ids[k]].0)
            }),
    {
        let ghost ids = strings_view(grant_ids@);
        if grant_ids.len() == 0 || grant_ids.len() > MAX_GRANTS_PER_CALL {
            return Err(untrusted_grant_error());
        }
        let mut a: usize = 0;
        while a < grant_ids.len()
            invariant
                a <= grant_ids@.len(),
                ids == strings_view(grant_ids@),
                forall|x: int, y: int| 0 <= x < a && x < y < ids.len() ==> #[trigger] ids[x] != #[trigger] ids[y],
            decreases grant_ids.len() - a,
        {
            let mut b: usize = a + 1;
            while b < grant_ids.len()
                invariant
                    a < b <= grant_ids@.len(),
                    ids == strings_view(grant_ids@),
                    forall|y: int| a < y < b ==> ids[a as int] != #[trigger] ids[y],
                decreases grant_ids.len() - b,
            {
                if crate::text::str_eq(grant_ids[a].as_str(), grant_ids[b].as_str()) {
                    proof {
                        assert(ids[a as int] == ids[b as int]);
                        assert(!ids.no_duplicates());
                    }
                    return Err(untrusted_grant_error());
                }
                b += 1;
            }
            a += 1;
        }
        proof {
            assert(ids.no_duplicates()) by {
                assert forall|x: int, y: int| 0 <= x < ids.len() && 0 <= y < ids.len() && x != y implies ids[x] != ids[y] by {
                    if x < y {
                    } else {
                    }
                }
            }
        }
        self.retain_unexpired(now_ms);
        let ghost live = self.grants();
        let mut c: usize = 0;
        while c < grant_ids.len()
            invariant
                c <= grant_ids@.len(),
                ids == strings_view(grant_ids@),
                live == self.grants(),
                live == spec_unexpired(old(self).grants(), now_ms),
                self.next_counter() == old(self).next_counter(),
                ids.no_duplicates(),
                0 < ids.len() <= MAX_GRANTS_PER_CALL,
                forall|k: int| 0 <= k < c ==> live.dom().contains(#[trigger] ids[k]),
            decreases grant_ids.len() - c,
        {
            if self.find_key(grant_ids[c].as_str()).is_none() {
                proof {
                    assert(ids[c as int] == grant_ids@[c as int]@);
                    assert(!live.dom().contains(ids[c as int]));
                }
                return Err(untrusted_grant_error());
            }
            c += 1;
        }
        let mut files: Vec<TrustedLocalFile> = Vec::new();
        let mut k: usize = 0;
        while k < grant_ids.len()
            invariant
                k <= grant_ids@.len(),
                ids == strings_view(grant_ids@),
                ids.no_duplicates(),
                forall|q: int| 0 <= q < ids.len() ==> live.dom().contains(#[trigger] ids[q]),
                self.grants() == live.remove_keys(ids.take(k as int).to_set()),
                self.next_counter() == old(self).next_counter(),
                files@.len() == k,
                forall|q: int|
                    0 <= q < k ==> (#[trigger] files@[q]).spec_grant_id() == ids[q]
                        && files@[q].spec_path() == live[ids[q]].0,
            decreases grant_ids.len() - k,
        {
            let ghost cur = self.grants();
            proof {
                assert(!ids.take(k as int).contains(ids[k as int])) by {
                    if ids.take(k as int).contains(ids[k as int]) {
                        let q = choose|q: int| 0 <= q < k && ids.take(k as int)[q] == ids[k as int];
                        assert(ids[q] == ids[k as int]);
                    }
                }
                assert(cur.dom().contains(ids[k as int]));
            }
            let path = self.take(grant_ids[k].as_str());
            match path {
                Some(p) => {
                    files.push(TrustedLocalFile::new(grant_ids[k].clone(), p));
                },
                None => {
                    proof {
                        assert(false);
                    }
                },
            }
            proof {
                lemma_take_push_set(ids, k as int);
                assert(self.grants() =~= live.remove_keys(ids.take(k + 1).to_set()));
            }
            k += 1;
        }
        proof {
            assert(ids.take(ids.len() as int) =~= ids);
        }
        Ok(files)
    }

    fn find_key(&self, grant_id: &str) -> (r: Option<usize>)
        ensures
            r is Some <==> self.grants().dom().contains(grant_id@),
    {
        proof {
            use_type_invariant(self);
            lemma_entries_map_lookup(self.entries@);
        }
        let found = self.find(grant_id);
        proof {
            if self.grants().dom().contains(grant_id@) {
                let i = choose|i: int| 0 <= i < self.entries@.len() && (#[trigger] self.entries@[i]).grant_id@ == grant_id@;
            }
        }
        found
    }
}

/// A grant serves once: after a successful consumption of `ids`, consuming
/// them again is refused at any later time.
pub proof fn lemma_grants_are_single_use(
    grants: Map<Seq<char>, (Seq<char>, u64)>,
    ids: Seq<Seq<char>>,
    first_now: u64,
    later_now: u64,
)
    requires
        0 < ids.len() <= MAX_GRANTS_PER_CALL,
        ids.no_duplicates(),
        forall|k: int| 0 <= k < ids.len() ==> spec_unexpired(grants, first_now).dom().contains(#[trigger] ids[k]),
    ensures
        !(forall|k: int|
            0 <= k < ids.len() ==> spec_unexpired(
                spec_unexpired(grants, first_now).remove_keys(ids.to_set()),
                later_now,
            ).dom().contains(#[trigger] ids[k])),
{
    let after = spec_unexpired(grants, first_now).remove_keys(ids.to_set());
    assert(ids.to_set().contains(ids[0]));
    assert(!after.dom().contains(ids[0]));
    assert(!spec_unexpired(after, later_now).dom().contains(ids[0]));
}

/// A grant whose expiry is not after `now` is never handed out at `now`.
pub proof fn lemma_expired_grants_are_refused(
    grants: Map<Seq<char>, (Seq<char>, u64)>,
    ids: Seq<Seq<char>>,
    k: int,
    now: u64,
)
    requires
        0 <= k < ids.len(),
        grants.dom().contains(ids[k]) ==> grants[ids[k]].1 <= now,
    ensures
        !spec_unexpired(grants, now).dom().contains(ids[k]),
{
}

/// The result of hotword normalization for `input`: strictly sorted, holding
/// exactly the kept hotwords.
pub open spec fn spec_normalized_hotwords(input: Seq<Seq<char>>, out: Seq<Seq<char>>) -> bool {
    crate::text::spec_strictly_sorted(out) && forall|x: Seq<char>|
        out.contains(x) <==> spec_kept_hotwords(input).contains(x)
}

proof fn lemma_trimmed_words_of_trimmed(words: Seq<Seq<char>>)
    requires
        forall|k: int|
            0 <= k < words.len() ==> crate::text::spec_trim(#[trigger] words[k]) == words[k]
                && words[k].len() > 0,
    ensures
        spec_trimmed_words(words) == words,
    decreases words.len(),
{
    if words.len() > 0 {
        let d = words.drop_last();
        assert forall|k: int| 0 <= k < d.len() implies crate::text::spec_trim(#[trigger] d[k]) == d[k]
            && d[k].len() > 0 by {
            assert(d[k] == words[k]);
        }
        lemma_trimmed_words_of_trimmed(d);
        assert(words.last() == words[words.len() - 1]);
        assert(d.push(words.last()) =~= words);
    }
}

proof fn lemma_trimmed_words_are_trimmed(words: Seq<Seq<char>>)
    ensures
        forall|k: int|
            0 <= k < spec_trimmed_words(words).len() ==> crate::text::spec_trim(
                #[trigger] spec_trimmed_words(words)[k],
            ) == spec_trimmed_words(words)[k] && spec_trimmed_words(words)[k].len() > 0,
    decreases words.len(),
{
    if words.len() > 0 {
        lemma_trimmed_words_are_trimmed(words.drop_last());
        let rest = spec_trimmed_words(words.drop_last());
        let all = spec_trimmed_words(words);
        crate::text::lemma_trim_idempotent(words.last());
        assert forall|k: int| 0 <= k < all.len() implies crate::text::spec_trim(#[trigger] all[k])
            == all[k] && all[k].len() > 0 by {
            if k < rest.len() {
                assert(all[k] == rest[k]);
            }
        }
    }
}

/// Normalizing hotwords a second time changes nothing.
pub proof fn lemma_hotword_normalization_is_idempotent(
    input: Seq<Seq<char>>,
    once: Seq<Seq<char>>,
    twice: Seq<Seq<char>>,
)
    requires
        spec_normalized_hotwords(input, once),
        spec_normalized_hotwords(once, twice),
    ensures
        twice == once,
{
    let kept = spec_kept_hotwords(input);
    let t = spec_trimmed_words(input);
    lemma_trimmed_words_are_trimmed(input);
    assert forall|k: int| 0 <= k < once.len() implies crate::text::spec_trim(#[trigger] once[k])
        == once[k] && once[k].len() > 0 by {
        assert(once.contains(once[k]));
        assert(kept.contains(once[k]));
        let j = choose|j: int| 0 <= j < kept.len() && kept[j] == once[k];
        assert(kept[j] == t[j]);
    }
    lemma_trimmed_words_of_trimmed(once);
    assert(once.no_duplicates()) by {
        assert forall|a: int, b: int| 0 <= a < once.len() && 0 <= b < once.len() && a != b implies once[a]
            != once[b] by {
            if a < b {
                assert(crate::text::spec_lex_order(once[a], once[b]) < 0);
                crate::text::lemma_lex_order_antisymmetric(once[a], once[b]);
            } else {
                assert(crate::text::spec_lex_order(once[b], once[a]) < 0);
                crate::text::lemma_lex_order_antisymmetric(once[b], once[a]);
            }
        }
    }
    once.unique_seq_to_set();
    kept.lemma_cardinality_of_set();
    assert(once.to_set().subset_of(kept.to_set())) by {
        assert forall|x: Seq<char>| once.to_set().contains(x) implies kept.to_set().contains(x) by {
            assert(once.contains(x));
        }
    }
    vstd::set_lib::lemma_len_subset(once.to_set(), kept.to_set());
    assert(once.len() <= MAX_HOTWORDS);
    assert(spec_kept_hotwords(once) =~= once);
    crate::text::lemma_sorted_lists_are_determined_by_entries(twice, once);
}

} // verus!
