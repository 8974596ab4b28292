//! The desktop runtime's pure part: which ASR resource root is in use, the ids
//! of scheduled jobs, and how a repository failure is reported to a command.

use vstd::prelude::*;

use crate::commands::{
    AiCommandError, AiEnvironmentCheckView, AiEnvironmentDiagnostic, AiRuntimeComponentDiagnostic,
    AiRuntimeResourceDiagnostic,
};
use crate::service::PreflightReport;
use crate::domain::{AiInputStatus, AiProjectStatus};
use crate::repository::AiRepositoryError;
use crate::text::{decimal_int, spec_decimal_int, str_eq};

verus! {

/// The ASR resources bundled with the application, and the root activated in
/// their place, if any. The application shares one value between its users.
#[derive(Debug, Clone, PartialEq, Eq)]
pub struct LocalAsrEnvironment {
    resource_root: String,
    active_resource_root: Option<String>,
}

impl LocalAsrEnvironment {
    pub closed spec fn spec_resource_root(&self) -> Seq<char> {
        self.resource_root@
    }

    /// The root in use: the activated one, or else the bundled one.
    pub closed spec fn spec_active_root(&self) -> Seq<char> {
        match self.active_resource_root {
            Some(r) => r@,
            None => self.resource_root@,
        }
    }

    pub fn load(resource_root: String) -> (r: LocalAsrEnvironment)
        ensures
            r.spec_resource_root() == resource_root@,
            r.spec_active_root() == resource_root@,
    {
        LocalAsrEnvironment { resource_root, active_resource_root: None }
    }

    pub fn resource_root(&self) -> (r: &str)
        ensures
            r@ == self.spec_resource_root(),
    {
        self.resource_root.as_str()
    }

    pub fn active_root(&self) -> (r: String)
        ensures
            r@ == self.spec_active_root(),
    {
        match &self.active_resource_root {
            Some(root) => root.clone(),
            None => self.resource_root.clone(),
        }
    }

    /// Makes `root` the root in use; the application checks its manifest first.
    pub fn activate_resource_root(&mut self, root: String)
        ensures
            final(self).spec_active_root() == root@,
            final(self).spec_resource_root() == old(self).spec_resource_root(),
    {
        self.active_resource_root = Some(root);
    }
}

/// The scheduler's id for the job of one input of one project.
pub open spec fn spec_job_id(project_id: i64, input_id: i64) -> Seq<char> {
    "ai-project-"@ + spec_decimal_int(project_id as int) + "-input-"@ + spec_decimal_int(
        input_id as int,
    )
}

pub fn job_id(project_id: i64, input_id: i64) -> (r: String)
    ensures
        r@ == spec_job_id(project_id, input_id),
{
    let mut r = String::from_str("ai-project-");
    let p = decimal_int(project_id);
    r.append(p.as_str());
    r.append("-input-");
    let i = decimal_int(input_id);
    r.append(i.as_str());
    r
}

/// A repository failure as the runtime reports it to a command.
pub fn repository_command_error(error: AiRepositoryError) -> (r: AiCommandError)
    ensures
        r.code@ == "ai_repository_error"@,
        r.message@ == error.spec_message(),
        r.retryable,
{
    let message = error.message();
    AiCommandError::new("ai_repository_error", message.as_str(), true)
}

/// Index of the first check with code `code`, or -1.
pub open spec fn spec_find_check(checks: Seq<AiEnvironmentCheckView>, code: Seq<char>) -> int
    decreases checks.len(),
{
    if checks.len() == 0 {
        -1
    } else {
        let rest = spec_find_check(checks.drop_first(), code);
        if checks[0].code@ == code {
            0
        } else if rest < 0 {
            -1
        } else {
            rest + 1
        }
    }
}

/// The first check with code `code` exists and passed.
pub open spec fn spec_check_passed(checks: Seq<AiEnvironmentCheckView>, code: Seq<char>) -> bool {
    let k = spec_find_check(checks, code);
    k >= 0 && checks[k].passed
}

proof fn lemma_find_check_range(checks: Seq<AiEnvironmentCheckView>, code: Seq<char>)
    ensures
        -1 <= spec_find_check(checks, code) < checks.len(),
        spec_find_check(checks, code) >= 0 ==> checks[spec_find_check(checks, code)].code@ == code,
        spec_find_check(checks, code) >= 0 ==> forall|q: int|
            0 <= q < spec_find_check(checks, code) ==> checks[q].code@ != code,
        spec_find_check(checks, code) < 0 ==> forall|q: int| 0 <= q < checks.len() ==> checks[q].code@ != code,
    decreases checks.len(),
{
    if checks.len() > 0 {
        let d = checks.drop_first();
        lemma_find_check_range(d, code);
        assert forall|q: int| 1 <= q < checks.len() implies checks[q] == d[q - 1] by {}
    }
}

/// Whether the first check with code `code` exists and passed.
pub fn check_passed(checks: &[AiEnvironmentCheckView], code: &str) -> (r: bool)
    ensures
        r == spec_check_passed(checks@, code@),
{
    proof {
        lemma_find_check_range(checks@, code@);
    }
    let mut i: usize = 0;
    while i < checks.len()
        invariant
            i <= checks@.len(),
            forall|q: int| 0 <= q < i ==> checks@[q].code@ != code@,
            -1 <= spec_find_check(checks@, code@) < checks@.len(),
            spec_find_check(checks@, code@) >= 0 ==> checks@[spec_find_check(checks@, code@)].code@ == code@,
            spec_find_check(checks@, code@) >= 0 ==> forall|q: int|
                0 <= q < spec_find_check(checks@, code@) ==> checks@[q].code@ != code@,
            spec_find_check(checks@, code@) < 0 ==> forall|q: int|
                0 <= q < checks@.len() ==> checks@[q].code@ != code@,
        decreases checks.len() - i,
    {
        if str_eq(checks[i].code.as_str(), code) {
            return checks[i].passed;
        }
        i += 1;
    }
    false
}

/// The message of an environment that passed every check.
pub open spec fn spec_ready_message() -> Seq<char> {
    "本地 ASR 环境就绪，识别过程不会上传视频"@
}

/// Index of the first failed check, or -1.
pub open spec fn spec_first_failed(checks: Seq<AiEnvironmentCheckView>) -> int
    decreases checks.len(),
{
    if checks.len() == 0 {
        -1
    } else {
        let rest = spec_first_failed(checks.drop_first());
        if !checks[0].passed {
            0
        } else if rest < 0 {
            -1
        } else {
            rest + 1
        }
    }
}

proof fn lemma_first_failed_range(checks: Seq<AiEnvironmentCheckView>)
    ensures
        -1 <= spec_first_failed(checks) < checks.len(),
        spec_first_failed(checks) >= 0 ==> !checks[spec_first_failed(checks)].passed,
        spec_first_failed(checks) >= 0 ==> forall|q: int| 0 <= q < spec_first_failed(checks) ==> checks[q].passed,
        spec_first_failed(checks) < 0 ==> forall|q: int| 0 <= q < checks.len() ==> checks[q].passed,
    decreases checks.len(),
{
    if checks.len() > 0 {
        let d = checks.drop_first();
        lemma_first_failed_range(d);
        assert forall|q: int| 1 <= q < checks.len() implies checks[q] == d[q - 1] by {}
    }
}

/// Whether the environment is ready, and its message: ready when every check
/// passed; the message is the first failed check's, or else the ready one.
pub fn environment_readiness(checks: &[AiEnvironmentCheckView]) -> (r: (bool, String))
    ensures
        r.0 == (spec_first_failed(checks@) < 0),
        r.0 <==> forall|q: int| 0 <= q < checks@.len() ==> #[trigger] checks@[q].passed,
        spec_first_failed(checks@) >= 0 ==> r.1@ == checks@[spec_first_failed(checks@)].message@,
        spec_first_failed(checks@) < 0 ==> r.1@ == spec_ready_message(),
{
    proof {
        lemma_first_failed_range(checks@);
    }
    let mut i: usize = 0;
    while i < checks.len()
        invariant
            i <= checks@.len(),
            forall|q: int| 0 <= q < i ==> checks@[q].passed,
            -1 <= spec_first_failed(checks@) < checks@.len(),
            spec_first_failed(checks@) >= 0 ==> !checks@[spec_first_failed(checks@)].passed,
            spec_first_failed(checks@) >= 0 ==> forall|q: int|
                0 <= q < spec_first_failed(checks@) ==> checks@[q].passed,
            spec_first_failed(checks@) < 0 ==> forall|q: int| 0 <= q < checks@.len() ==> checks@[q].passed,
        decreases checks.len() - i,
    {
        if !checks[i].passed {
            assert(spec_first_failed(checks@) == i as int);
            return (false, checks[i].message.clone());
        }
        i += 1;
    }
    (true, String::from_str("本地 ASR 环境就绪，识别过程不会上传视频"))
}

/// The diagnostic of a finished environment check.
pub fn environment_diagnostic(
    platform: String,
    engine_id: String,
    engine_version: String,
    model_id: String,
    model_version: String,
    checks: Vec<AiEnvironmentCheckView>,
    runtime: Option<AiRuntimeResourceDiagnostic>,
) -> (r: AiEnvironmentDiagnostic)
    ensures
        r.ready == (spec_first_failed(checks@) < 0),
        spec_first_failed(checks@) >= 0 ==> r.message@ == checks@[spec_first_failed(checks@)].message@,
        spec_first_failed(checks@) < 0 ==> r.message@ == spec_ready_message(),
        r.platform == platform,
        r.engine_id == engine_id,
        r.engine_version == engine_version,
        r.model_id == model_id,
        r.model_version == model_version,
        r.checks@ == checks@,
        r.runtime == runtime,
{
    let (ready, message) = environment_readiness(checks.as_slice());
    AiEnvironmentDiagnostic {
        ready,
        platform,
        engine_id,
        engine_version,
        model_id,
        model_version,
        checks,
        message,
        runtime,
    }
}

/// The diagnostic of an environment whose check could not be made: one
/// failed check carries the reason.
pub fn failed_diagnostic(
    platform: String,
    engine_id: String,
    engine_version: String,
    model_id: String,
    model_version: String,
    code: String,
    message: String,
    runtime: Option<AiRuntimeResourceDiagnostic>,
) -> (r: AiEnvironmentDiagnostic)
    ensures
        !r.ready,
        r.checks@.len() == 1,
        r.checks@[0].code == code,
        !r.checks@[0].passed,
        r.checks@[0].message == message,
        r.message == message,
        r.platform == platform,
        r.engine_id == engine_id,
        r.engine_version == engine_version,
        r.model_id == model_id,
        r.model_version == model_version,
        r.runtime == runtime,
{
    let check = AiEnvironmentCheckView { code, passed: false, message: message.clone() };
    let mut checks: Vec<AiEnvironmentCheckView> = Vec::new();
    checks.push(check);
    AiEnvironmentDiagnostic {
        ready: false,
        platform,
        engine_id,
        engine_version,
        model_id,
        model_version,
        checks,
        message,
        runtime,
    }
}

/// What a component contributes to the runtime diagnostic: its file count
/// and the total size of its files.
pub open spec fn spec_total_size(sizes: Seq<u64>) -> int
    decreases sizes.len(),
{
    if sizes.len() == 0 {
        0
    } else {
        spec_total_size(sizes.drop_last()) + sizes.last()
    }
}

proof fn lemma_total_size_prefix(sizes: Seq<u64>, k: int)
    requires
        0 <= k <= sizes.len(),
    ensures
        0 <= spec_total_size(sizes.take(k)) <= spec_total_size(sizes),
    decreases sizes.len(),
{
    if k < sizes.len() {
        lemma_total_size_prefix(sizes.drop_last(), k);
        assert(sizes.drop_last().take(k) =~= sizes.take(k));
    } else {
        assert(sizes.take(k) =~= sizes);
        if sizes.len() > 0 {
            lemma_total_size_prefix(sizes.drop_last(), k - 1);
        }
    }
}

pub fn component_diagnostic(
    id: String,
    version: String,
    required: bool,
    file_sizes: &[u64],
) -> (r: AiRuntimeComponentDiagnostic)
    requires
        spec_total_size(file_sizes@) <= u64::MAX,
    ensures
        r.id == id,
        r.version == version,
        r.required == required,
        r.file_count == file_sizes.len(),
        r.size_bytes == spec_total_size(file_sizes@),
{
    let mut total: u64 = 0;
    let mut i: usize = 0;
    while i < file_sizes.len()
        invariant
            i <= file_sizes@.len(),
            spec_total_size(file_sizes@) <= u64::MAX,
            total == spec_total_size(file_sizes@.take(i as int)),
        decreases file_sizes.len() - i,
    {
        proof {
            assert(file_sizes@.take(i + 1).drop_last() =~= file_sizes@.take(i as int));
            lemma_total_size_prefix(file_sizes@, i + 1);
        }
        total = total + file_sizes[i];
        i += 1;
    }
    assert(file_sizes@.take(file_sizes@.len() as int) =~= file_sizes@);
    AiRuntimeComponentDiagnostic { id, version, required, file_count: file_sizes.len(), size_bytes: total }
}

/// The codes of the checks each readiness flag of a preflight report rests on.
pub open spec fn spec_sidecar_codes() -> Seq<Seq<char>> {
    seq!["whisper_sidecar"@, "vad_sidecar"@, "ffmpeg"@, "ffprobe"@, "engine_version"@]
}

pub open spec fn spec_model_codes() -> Seq<Seq<char>> {
    seq!["asr_model"@, "vad_model"@, "normalization_mapping"@]
}

pub open spec fn spec_memory_codes() -> Seq<Seq<char>> {
    seq!["total_memory"@, "available_memory"@]
}

pub open spec fn spec_all_passed(checks: Seq<AiEnvironmentCheckView>, codes: Seq<Seq<char>>) -> bool {
    forall|k: int| 0 <= k < codes.len() ==> spec_check_passed(checks, #[trigger] codes[k])
}

/// The preflight report of a diagnostic: its readiness, identity and message,
/// whether the platform is supported, and which groups of checks passed.
pub fn preflight_report(diagnostic: AiEnvironmentDiagnostic, platform_supported: bool) -> (r:
    PreflightReport)
    ensures
        r.ready == diagnostic.ready,
        r.engine_id == diagnostic.engine_id,
        r.engine_version == diagnostic.engine_version,
        r.model_id == diagnostic.model_id,
        r.model_version == diagnostic.model_version,
        r.platform_supported == platform_supported,
        r.sidecars_ready == spec_all_passed(diagnostic.checks@, spec_sidecar_codes()),
        r.models_ready == spec_all_passed(diagnostic.checks@, spec_model_codes()),
        r.memory_ready == spec_all_passed(diagnostic.checks@, spec_memory_codes()),
        r.disk_ready == spec_check_passed(diagnostic.checks@, "available_disk"@),
        r.message == diagnostic.message,
{
    let checks = diagnostic.checks.as_slice();
    let whisper = check_passed(checks, "whisper_sidecar");
    let vad = check_passed(checks, "vad_sidecar");
    let ffmpeg = check_passed(checks, "ffmpeg");
    let ffprobe = check_passed(checks, "ffprobe");
    let engine = check_passed(checks, "engine_version");
    let asr_model = check_passed(checks, "asr_model");
    let vad_model = check_passed(checks, "vad_model");
    let normalization = check_passed(checks, "normalization_mapping");
    let total_memory = check_passed(checks, "total_memory");
    let available_memory = check_passed(checks, "available_memory");
    let disk = check_passed(checks, "available_disk");
    proof {
        let cs = diagnostic.checks@;
        let sc = spec_sidecar_codes();
        assert(spec_all_passed(cs, sc) == (whisper && vad && ffmpeg && ffprobe && engine)) by {
            if whisper && vad && ffmpeg && ffprobe && engine {
                assert forall|k: int| 0 <= k < sc.len() implies spec_check_passed(cs, #[trigger] sc[k]) by {
                    if k == 0 {} else if k == 1 {} else if k == 2 {} else if k == 3 {} else {}
                }
            } else {
                assert(spec_check_passed(cs, sc[0]) == whisper);
                assert(spec_check_passed(cs, sc[1]) == vad);
                assert(spec_check_passed(cs, sc[2]) == ffmpeg);
                assert(spec_check_passed(cs, sc[3]) == ffprobe);
                assert(spec_check_passed(cs, sc[4]) == engine);
            }
        }
        let mc = spec_model_codes();
        assert(spec_all_passed(cs, mc) == (asr_model && vad_model && normalization)) by {
            if asr_model && vad_model && normalization {
                assert forall|k: int| 0 <= k < mc.len() implies spec_check_passed(cs, #[trigger] mc[k]) by {
                    if k == 0 {} else if k == 1 {} else {}
                }
            } else {
                assert(spec_check_passed(cs, mc[0]) == asr_model);
                assert(spec_check_passed(cs, mc[1]) == vad_model);
                assert(spec_check_passed(cs, mc[2]) == normalization);
            }
        }
        let ec = spec_memory_codes();
        assert(spec_all_passed(cs, ec) == (total_memory && available_memory)) by {
            if total_memory && available_memory {
                assert forall|k: int| 0 <= k < ec.len() implies spec_check_passed(cs, #[trigger] ec[k]) by {
                    if k == 0 {} else {}
                }
            } else {
                assert(spec_check_passed(cs, ec[0]) == total_memory);
                assert(spec_check_passed(cs, ec[1]) == available_memory);
            }
        }
    }
    PreflightReport {
        ready: diagnostic.ready,
        engine_id: diagnostic.engine_id,
        engine_version: diagnostic.engine_version,
        model_id: diagnostic.model_id,
        model_version: diagnostic.model_version,
        platform_supported,
        sidecars_ready: whisper && vad && ffmpeg && ffprobe && engine,
        models_ready: asr_model && vad_model && normalization,
        memory_ready: total_memory && available_memory,
        disk_ready: disk,
        message: diagnostic.message,
    }
}

/// Whether recognition must wait for recordings to end: when the settings
/// ask recording to come first, or cannot be read, and some recording is
/// running, or the count of running recordings cannot be read.
pub open spec fn spec_recording_blocks_asr(
    asr_during_recording: Option<bool>,
    active_recordings: Option<u64>,
) -> bool {
    let priority = match asr_during_recording {
        Some(parallel) => !parallel,
        None => true,
    };
    let recording = match active_recordings {
        Some(n) => n > 0,
        None => true,
    };
    priority && recording
}

pub fn recording_blocks_asr(asr_during_recording: Option<bool>, active_recordings: Option<u64>) -> (r:
    bool)
    ensures
        r == spec_recording_blocks_asr(asr_during_recording, active_recordings),
{
    let priority = match asr_during_recording {
        Some(parallel) => !parallel,
        None => true,
    };
    let recording = match active_recordings {
        Some(n) => n > 0,
        None => true,
    };
    priority && recording
}

/// What the recognition scheduler reports about a job.
#[derive(Debug, Clone, PartialEq, Eq)]
pub enum SchedulerEventKind {
    Queued,
    WaitingForRecording,
    Started,
    Finished,
    Failed { code: String },
    Cancelled,
    Requeued,
    QueueChanged,
}

/// What a scheduler event leads to: the stage and message published for the
/// job, and, for a failed or cancelled job, the final status, code and
/// message its input takes when it has not finished yet.
#[derive(Debug, Clone, PartialEq, Eq)]
pub struct SchedulerEventReport {
    pub stage: &'static str,
    pub message: &'static str,
    pub terminal: Option<(AiInputStatus, String, &'static str)>,
    pub starts_project: bool,
}

pub open spec fn spec_terminal_is(
    terminal: Option<(AiInputStatus, String, &'static str)>,
    status: AiInputStatus,
    code: Seq<char>,
    message: Seq<char>,
) -> bool {
    match terminal {
        Some((s, c, m)) => s == status && c@ == code && m@ == message,
        None => false,
    }
}

/// The report of a scheduler event; a change of the queue's order alone is
/// not reported.
pub fn scheduler_event_report(event: SchedulerEventKind) -> (r: Option<SchedulerEventReport>)
    ensures
        event is QueueChanged <==> r is None,
        event is Queued ==> (r matches Some(rep) && rep.stage@ == "queued"@ && rep.message@
            == "已加入本地语音识别队列"@ && rep.terminal is None && !rep.starts_project),
        event is WaitingForRecording ==> (r matches Some(rep) && rep.stage@ == "waiting_for_recording"@
            && rep.message@ == "录制优先模式：正在等待录制结束"@ && rep.terminal is None && !rep.starts_project),
        event is Started ==> (r matches Some(rep) && rep.stage@ == "started"@ && rep.message@
            == "开始处理视频"@ && rep.terminal is None && rep.starts_project),
        event is Finished ==> (r matches Some(rep) && rep.stage@ == "finished"@ && rep.message@
            == "视频处理完成"@ && rep.terminal is None && !rep.starts_project),
        event matches SchedulerEventKind::Failed { code } ==> (r matches Some(rep) && rep.stage@
            == "failed"@ && rep.message@ == "视频处理失败"@ && !rep.starts_project && spec_terminal_is(
            rep.terminal,
            AiInputStatus::Failed,
            code@,
            "语音识别调度失败"@,
        )),
        event is Cancelled ==> (r matches Some(rep) && rep.stage@ == "cancelled"@ && rep.message@
            == "视频处理已取消"@ && !rep.starts_project && spec_terminal_is(
            rep.terminal,
            AiInputStatus::Cancelled,
            "asr_cancelled"@,
            "语音识别已取消"@,
        )),
        event is Requeued ==> (r matches Some(rep) && rep.stage@ == "requeued"@ && rep.message@
            == "视频已重新排队"@ && rep.terminal is None && !rep.starts_project),
{
    match event {
        SchedulerEventKind::Queued => Some(
            SchedulerEventReport { stage: "queued", message: "已加入本地语音识别队列", terminal: None, starts_project: false },
        ),
        SchedulerEventKind::WaitingForRecording => Some(
            SchedulerEventReport {
                stage: "waiting_for_recording",
                message: "录制优先模式：正在等待录制结束",
                terminal: None,
                starts_project: false,
            },
        ),
        SchedulerEventKind::Started => Some(
            SchedulerEventReport { stage: "started", message: "开始处理视频", terminal: None, starts_project: true },
        ),
        SchedulerEventKind::Finished => Some(
            SchedulerEventReport { stage: "finished", message: "视频处理完成", terminal: None, starts_project: false },
        ),
        SchedulerEventKind::Failed { code } => Some(
            SchedulerEventReport {
                stage: "failed",
                message: "视频处理失败",
                terminal: Some((AiInputStatus::Failed, code, "语音识别调度失败")),
                starts_project: false,
            },
        ),
        SchedulerEventKind::Cancelled => Some(
            SchedulerEventReport {
                stage: "cancelled",
                message: "视频处理已取消",
                terminal: Some(
                    (AiInputStatus::Cancelled, String::from_str("asr_cancelled"), "语音识别已取消"),
                ),
                starts_project: false,
            },
        ),
        SchedulerEventKind::Requeued => Some(
            SchedulerEventReport { stage: "requeued", message: "视频已重新排队", terminal: None, starts_project: false },
        ),
        SchedulerEventKind::QueueChanged => None,
    }
}

/// A scheduler's final status is written only to an input that has not
/// finished: completed, skipped, cancelled and failed inputs keep theirs.
pub fn takes_terminal_status(current: AiInputStatus) -> (r: bool)
    ensures
        r == !(current is Completed || current is Skipped || current is Cancelled || current is Failed),
{
    match current {
        AiInputStatus::Completed | AiInputStatus::Skipped | AiInputStatus::Cancelled
        | AiInputStatus::Failed => false,
        _ => true,
    }
}

/// A started job moves its project from queued to running; a project in any
/// other status keeps it.
pub fn project_status_on_start(current: AiProjectStatus) -> (r: Option<AiProjectStatus>)
    ensures
        current is Queued ==> r == Some(AiProjectStatus::Running),
        !(current is Queued) ==> r is None,
{
    match current {
        AiProjectStatus::Queued => Some(AiProjectStatus::Running),
        _ => None,
    }
}

} // verus!
