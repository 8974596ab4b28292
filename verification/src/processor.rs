//! The decisions of the single-input recognition pipeline: which inputs may
//! run, which checks stop them, what each stage reports, how a failure is
//! recorded, and the progress an event carries. The media, VAD and ASR work,
//! and the database, stay with the application.

use vstd::prelude::*;

use crate::domain::{AiInputStatus, AiProjectInput, AiProjectStatus, SourceFingerprint};
use crate::repository::AiRepositoryError;
use crate::text::str_eq;

verus! {

#[derive(Debug, Clone, Copy, PartialEq, Eq, Structural)]
pub enum AiProcessOutcome {
    CacheHit,
    Transcribed,
    SkippedNoSpeech,
}

/// A recoverable status event: stable ids, the stage and a message, never a media path.
#[derive(Debug, Clone, PartialEq, Eq)]
pub struct AiJobEvent {
    pub project_id: i64,
    pub input_id: i64,
    pub project_status: AiProjectStatus,
    pub project_progress_percent: u8,
    pub input_status: AiInputStatus,
    pub input_progress_percent: u8,
    pub stage: String,
    pub message: String,
}

/// Where job events go.
pub trait AiJobPublisher {
    fn publish(&self, event: AiJobEvent);
}

/// The kind of a check that stops the pipeline.
#[derive(Debug, Clone, Copy, PartialEq, Eq, Structural)]
pub enum PipelineRejectionKind {
    InvalidInput,
    EnvironmentUnavailable,
}

/// A check that stops the pipeline: its kind, code and safe message; never retryable.
#[derive(Debug, Clone, Copy, PartialEq, Eq)]
pub struct PipelineRejection {
    pub kind: PipelineRejectionKind,
    pub code: &'static str,
    pub message: &'static str,
}

/// Only a pending input of a running project, and of that project, is processed.
pub fn check_processable(
    project_id: i64,
    project_status: AiProjectStatus,
    input: &AiProjectInput,
) -> (r: Result<(), AiRepositoryError>)
    ensures
        !(project_status is Running) ==> (r matches Err(AiRepositoryError::InvalidState(m)) && m@
            == "只有运行中的项目可以处理输入"@),
        project_status is Running && (input.project_id != project_id || !(input.status is Pending))
            ==> (r matches Err(AiRepositoryError::InvalidState(m)) && m@ == "项目输入不处于可执行状态"@),
        project_status is Running && input.project_id == project_id && input.status is Pending
            ==> r is Ok,
{
    match project_status {
        AiProjectStatus::Running => {},
        _ => {
            return Err(AiRepositoryError::InvalidState(String::from_str("只有运行中的项目可以处理输入")));
        },
    }
    let pending = match input.status {
        AiInputStatus::Pending => true,
        _ => false,
    };
    if input.project_id != project_id || !pending {
        return Err(AiRepositoryError::InvalidState(String::from_str("项目输入不处于可执行状态")));
    }
    Ok(())
}

/// A file's modification time as stored, when it fits.
pub fn source_modified_ms(modified_at_ms: u64) -> (r: Result<i64, PipelineRejection>)
    ensures
        modified_at_ms <= i64::MAX ==> r == Ok::<i64, PipelineRejection>(modified_at_ms as i64),
        modified_at_ms > i64::MAX ==> (r matches Err(e) && e.kind == PipelineRejectionKind::InvalidInput
            && e.code@ == "media_timestamp_unavailable"@ && e.message@ == "视频修改时间超出支持范围"@),
{
    if modified_at_ms <= i64::MAX as u64 {
        Ok(modified_at_ms as i64)
    } else {
        Err(
            PipelineRejection {
                kind: PipelineRejectionKind::InvalidInput,
                code: "media_timestamp_unavailable",
                message: "视频修改时间超出支持范围",
            },
        )
    }
}

pub open spec fn spec_same_source(a: SourceFingerprint, b: SourceFingerprint) -> bool {
    a.normalized_path@ == b.normalized_path@ && a.size_bytes == b.size_bytes && a.modified_at_ms
        == b.modified_at_ms && a.video_id == b.video_id
}

/// The source must be the one frozen when the project started.
pub fn check_source_unchanged(current: &SourceFingerprint, frozen: &SourceFingerprint) -> (r:
    Result<(), PipelineRejection>)
    ensures
        spec_same_source(*current, *frozen) ==> r is Ok,
        !spec_same_source(*current, *frozen) ==> (r matches Err(e) && e.kind
            == PipelineRejectionKind::InvalidInput && e.code@ == "media_changed"@ && e.message@
            == "视频文件在项目开始后发生变化"@),
{
    let same_video = match (current.video_id, frozen.video_id) {
        (Some(a), Some(b)) => a == b,
        (None, None) => true,
        _ => false,
    };
    if str_eq(current.normalized_path.as_str(), frozen.normalized_path.as_str())
        && current.size_bytes == frozen.size_bytes && current.modified_at_ms == frozen.modified_at_ms
        && same_video {
        Ok(())
    } else {
        Err(
            PipelineRejection {
                kind: PipelineRejectionKind::InvalidInput,
                code: "media_changed",
                message: "视频文件在项目开始后发生变化",
            },
        )
    }
}

/// A video without an audio track cannot be recognized.
pub fn require_audio(audio_present: bool) -> (r: Result<(), PipelineRejection>)
    ensures
        audio_present ==> r is Ok,
        !audio_present ==> (r matches Err(e) && e.kind == PipelineRejectionKind::InvalidInput
            && e.code@ == "no_audio_track"@ && e.message@ == "视频没有音轨，无法进行语音识别"@),
{
    if audio_present {
        Ok(())
    } else {
        Err(
            PipelineRejection {
                kind: PipelineRejectionKind::InvalidInput,
                code: "no_audio_track",
                message: "视频没有音轨，无法进行语音识别",
            },
        )
    }
}

/// The engine and model must be those the project froze.
pub fn check_engine_identity(
    engine_id: &str,
    engine_version: &str,
    model_id: &str,
    model_version: &str,
    profile: &crate::domain::RecognitionProfile,
) -> (r: Result<(), PipelineRejection>)
    ensures
        (engine_id@ == profile.engine_id@ && engine_version@ == profile.engine_version@ && model_id@
            == profile.model_id@ && model_version@ == profile.model_version@) ==> r is Ok,
        !(engine_id@ == profile.engine_id@ && engine_version@ == profile.engine_version@
            && model_id@ == profile.model_id@ && model_version@ == profile.model_version@) ==> (
        r matches Err(e) && e.kind == PipelineRejectionKind::EnvironmentUnavailable && e.code@
            == "recognition_profile_mismatch"@ && e.message@ == "当前识别引擎与项目冻结配置不一致"@),
{
    if str_eq(engine_id, profile.engine_id.as_str()) && str_eq(
        engine_version,
        profile.engine_version.as_str(),
    ) && str_eq(model_id, profile.model_id.as_str()) && str_eq(
        model_version,
        profile.model_version.as_str(),
    ) {
        Ok(())
    } else {
        Err(
            PipelineRejection {
                kind: PipelineRejectionKind::EnvironmentUnavailable,
                code: "recognition_profile_mismatch",
                message: "当前识别引擎与项目冻结配置不一致",
            },
        )
    }
}

/// The points at which the pipeline reports progress.
#[derive(Debug, Clone, Copy, PartialEq, Eq, Structural)]
pub enum PipelineStage {
    Validating,
    CacheHit,
    PreparingAudio,
    DetectingSpeech,
    NoSpeech,
    Transcribing,
    NoText,
    Completed,
}

/// What the pipeline records and reports at a stage: the input status it
/// moves to, the stage name, the progress and the message.
pub open spec fn spec_stage_report(stage: PipelineStage) -> (AiInputStatus, Seq<char>, u8, Seq<char>) {
    match stage {
        PipelineStage::Validating => (AiInputStatus::Validating, "validating"@, 10, "正在验证原始视频"@),
        PipelineStage::CacheHit => (AiInputStatus::Completed, "completed"@, 100, "已复用相同视频的本地转写结果"@),
        PipelineStage::PreparingAudio => (AiInputStatus::PreparingAudio, "preparing_audio"@, 25, "正在准备标准音频"@),
        PipelineStage::DetectingSpeech => (AiInputStatus::DetectingSpeech, "detecting_speech"@, 45, "正在检测有效人声"@),
        PipelineStage::NoSpeech => (AiInputStatus::Skipped, "skipped"@, 100, "没有检测到有效人声"@),
        PipelineStage::Transcribing => (AiInputStatus::Transcribing, "transcribing"@, 70, "正在识别语音"@),
        PipelineStage::NoText => (AiInputStatus::Skipped, "skipped"@, 100, "识别结果没有有效文本"@),
        PipelineStage::Completed => (AiInputStatus::Completed, "completed"@, 100, "语音识别完成"@),
    }
}

pub fn stage_report(stage: PipelineStage) -> (r: (AiInputStatus, &'static str, u8, &'static str))
    ensures
        r.0 == spec_stage_report(stage).0,
        r.1@ == spec_stage_report(stage).1,
        r.2 == spec_stage_report(stage).2,
        r.3@ == spec_stage_report(stage).3,
{
    match stage {
        PipelineStage::Validating => (AiInputStatus::Validating, "validating", 10, "正在验证原始视频"),
        PipelineStage::CacheHit => (AiInputStatus::Completed, "completed", 100, "已复用相同视频的本地转写结果"),
        PipelineStage::PreparingAudio => (AiInputStatus::PreparingAudio, "preparing_audio", 25, "正在准备标准音频"),
        PipelineStage::DetectingSpeech => (AiInputStatus::DetectingSpeech, "detecting_speech", 45, "正在检测有效人声"),
        PipelineStage::NoSpeech => (AiInputStatus::Skipped, "skipped", 100, "没有检测到有效人声"),
        PipelineStage::Transcribing => (AiInputStatus::Transcribing, "transcribing", 70, "正在识别语音"),
        PipelineStage::NoText => (AiInputStatus::Skipped, "skipped", 100, "识别结果没有有效文本"),
        PipelineStage::Completed => (AiInputStatus::Completed, "completed", 100, "语音识别完成"),
    }
}

pub open spec fn spec_is_terminal_input(status: AiInputStatus) -> bool {
    status is Completed || status is Skipped || status is Cancelled || status is Failed
}

/// After a failure, an input that has not ended yet is marked cancelled for
/// a cancellation and failed otherwise; an ended input is left as it is.
pub fn failure_transition(code: &str, current: AiInputStatus) -> (r: Option<AiInputStatus>)
    ensures
        spec_is_terminal_input(current) ==> r is None,
        !spec_is_terminal_input(current) && code@ == "asr_cancelled"@ ==> r == Some(
            AiInputStatus::Cancelled,
        ),
        !spec_is_terminal_input(current) && code@ != "asr_cancelled"@ ==> r == Some(
            AiInputStatus::Failed,
        ),
{
    match current {
        AiInputStatus::Completed | AiInputStatus::Skipped | AiInputStatus::Cancelled
        | AiInputStatus::Failed => None,
        _ => {
            if str_eq(code, "asr_cancelled") {
                Some(AiInputStatus::Cancelled)
            } else {
                Some(AiInputStatus::Failed)
            }
        },
    }
}

/// The code and message recorded for a failure of the repository.
pub fn repository_failure_report() -> (r: (&'static str, &'static str))
    ensures
        r.0@ == "ai_repository_error"@,
        r.1@ == "无法保存语音识别任务状态"@,
{
    ("ai_repository_error", "无法保存语音识别任务状态")
}

/// The input progress during recognition: the model's 0..100 mapped onto 75..99;
/// only the stored terminal status reports 100.
pub fn asr_input_progress(completed_units: u64) -> (r: u8)
    ensures
        r == (if 75 + (if completed_units < 100 { completed_units } else { 100 }) / 4 > 99 {
            99
        } else {
            75 + (if completed_units < 100 { completed_units } else { 100 }) / 4
        }),
{
    let model: u8 = if completed_units < 100 {
        completed_units as u8
    } else {
        100
    };
    let p = 75 + model / 4;
    if p > 99 {
        99
    } else {
        p
    }
}

/// The progress an event reports for an input: the reported progress, never
/// below what is stored, at most 100.
pub open spec fn spec_effective_progress(reported: u8, stored: u8) -> u8 {
    let m = if reported > stored {
        reported
    } else {
        stored
    };
    if m > 100 {
        100
    } else {
        m
    }
}

/// The stored progress of the inputs, with `effective` in place of input `input_id`'s.
pub open spec fn spec_progress_total(inputs: Seq<AiProjectInput>, input_id: i64, effective: u8) -> nat
    decreases inputs.len(),
{
    if inputs.len() == 0 {
        0
    } else {
        spec_progress_total(inputs.drop_last(), input_id, effective) + if inputs.last().id
            == input_id {
            effective as nat
        } else {
            inputs.last().progress_percent as nat
        }
    }
}

proof fn lemma_progress_total_bounded(inputs: Seq<AiProjectInput>, input_id: i64, effective: u8)
    ensures
        spec_progress_total(inputs, input_id, effective) <= 255 * inputs.len(),
    decreases inputs.len(),
{
    if inputs.len() > 0 {
        lemma_progress_total_bounded(inputs.drop_last(), input_id, effective);
    }
}

/// The event for input `input_id` of a project, from the project's recomputed
/// status and its inputs, or `None` when the input is not among them. The
/// project progress is the mean of the inputs' progress.
pub fn job_event_from(
    project_id: i64,
    input_id: i64,
    project_status: AiProjectStatus,
    inputs: &[AiProjectInput],
    stage: &str,
    input_progress_percent: u8,
    message: &str,
) -> (r: Option<AiJobEvent>)
    requires
        inputs@.len() <= u64::MAX / 256,
    ensures
        (forall|k: int| 0 <= k < inputs@.len() ==> (#[trigger] inputs@[k]).id != input_id)
            ==> r is None,
        forall|k: int|
            0 <= k < inputs@.len() && (#[trigger] inputs@[k]).id == input_id && (forall|j: int|
                0 <= j < k ==> inputs@[j].id != input_id) ==> (r matches Some(e) && {
                let effective = spec_effective_progress(
                    input_progress_percent,
                    inputs@[k].progress_percent,
                );
                let mean = spec_progress_total(inputs@, input_id, effective) / inputs@.len();
                &&& e.project_id == project_id
                &&& e.input_id == input_id
                &&& e.project_status == project_status
                &&& e.project_progress_percent == (if mean > 255 {
                    100
                } else {
                    mean
                })
                &&& e.input_status == inputs@[k].status
                &&& e.input_progress_percent == effective
                &&& e.stage@ == stage@
                &&& e.message@ == message@
            }),
{
    let mut k: usize = 0;
    while k < inputs.len()
        invariant
            k <= inputs@.len(),
            forall|j: int| 0 <= j < k ==> (#[trigger] inputs@[j]).id != input_id,
        ensures
            k <= inputs@.len(),
            forall|j: int| 0 <= j < k ==> (#[trigger] inputs@[j]).id != input_id,
            k == inputs@.len() || inputs@[k as int].id == input_id,
        decreases inputs.len() - k,
    {
        if inputs[k].id == input_id {
            break;
        }
        k += 1;
    }
    if k == inputs.len() {
        return None;
    }
    let stored = inputs[k].progress_percent;
    let highest = if input_progress_percent > stored {
        input_progress_percent
    } else {
        stored
    };
    let effective = if highest > 100 {
        100
    } else {
        highest
    };
    let mut total: u64 = 0;
    let mut i: usize = 0;
    while i < inputs.len()
        invariant
            i <= inputs@.len(),
            inputs@.len() <= u64::MAX / 256,
            total == spec_progress_total(inputs@.take(i as int), input_id, effective),
        decreases inputs.len() - i,
    {
        proof {
            assert(inputs@.take(i + 1).drop_last() =~= inputs@.take(i as int));
            lemma_progress_total_bounded(inputs@.take(i as int), input_id, effective);
        }
        if inputs[i].id == input_id {
            total = total + effective as u64;
        } else {
            total = total + inputs[i].progress_percent as u64;
        }
        i += 1;
    }
    assert(inputs@.take(inputs@.len() as int) =~= inputs@);
    let mean = total / (inputs.len() as u64);
    let project_progress_percent: u8 = if mean > 255 {
        100
    } else {
        mean as u8
    };
    Some(
        AiJobEvent {
            project_id,
            input_id,
            project_status,
            project_progress_percent,
            input_status: inputs[k].status,
            input_progress_percent: effective,
            stage: String::from_str(stage),
            message: String::from_str(message),
        },
    )
}

} // verus!

verus! {

/// Where one input stands in the recognition pipeline, in its order.
#[derive(Debug, Clone, Copy, PartialEq, Eq, Structural)]
pub enum PipelinePhase {
    /// The input was validated; the source check and the cache lookup come next.
    Validating,
    /// The media is being inspected.
    Inspecting,
    /// The standard audio is being prepared.
    PreparingAudio,
    /// Speech is being detected.
    DetectingSpeech,
    /// The speech is being recognized.
    Transcribing,
    /// Nothing more happens to the input.
    Finished,
}

/// What the application learned from the work it just did.
#[derive(Debug, Clone, Copy, PartialEq, Eq, Structural)]
pub enum PipelineEvent {
    /// The source is unchanged; `cached` tells whether a published transcript of it exists.
    SourceChecked { cached: bool },
    /// The media was inspected.
    Inspected { audio_present: bool },
    /// The standard audio is ready.
    AudioPrepared,
    /// Speech detection found `regions` regions.
    SpeechDetected { regions: usize },
    /// Recognition produced `segments` segments.
    Transcribed { segments: usize },
}

/// What the application does next.
#[derive(Debug, Clone, Copy)]
pub enum PipelineAction {
    /// Attach the cached transcript, report `PipelineStage::CacheHit` and end with `CacheHit`.
    ReuseCachedTranscript,
    /// Inspect the media.
    Inspect,
    /// Stop the input with this rejection.
    Reject(PipelineRejection),
    /// Report `PipelineStage::PreparingAudio` and prepare the audio.
    PrepareAudio,
    /// Report `PipelineStage::DetectingSpeech` and detect speech.
    DetectSpeech,
    /// Check the engine identity, report `PipelineStage::Transcribing` and recognize.
    Transcribe,
    /// Report this stage (`NoSpeech` or `NoText`) and end with `SkippedNoSpeech`.
    Skip(PipelineStage),
    /// Store and publish the transcript, report `PipelineStage::Completed` and end with `Transcribed`.
    PublishTranscript,
}

/// The next phase and action after `event` in `phase`; `None` when the event
/// does not belong to that phase. A cache hit ends the input before any media
/// work; no audio track stops it; no speech, or a transcript without
/// segments, skips it.
pub fn next_pipeline_step(phase: PipelinePhase, event: PipelineEvent) -> (r: Option<
    (PipelinePhase, PipelineAction),
>)
    ensures
        match (phase, event) {
            (PipelinePhase::Validating, PipelineEvent::SourceChecked { cached }) => if cached {
                r matches Some((p, a)) && p == PipelinePhase::Finished
                    && a is ReuseCachedTranscript
            } else {
                r matches Some((p, a)) && p == PipelinePhase::Inspecting && a is Inspect
            },
            (PipelinePhase::Inspecting, PipelineEvent::Inspected { audio_present }) => if audio_present {
                r matches Some((p, a)) && p == PipelinePhase::PreparingAudio && a is PrepareAudio
            } else {
                r matches Some((p, PipelineAction::Reject(e))) && p == PipelinePhase::Finished
                    && e.kind == PipelineRejectionKind::InvalidInput && e.code@ == "no_audio_track"@
                    && e.message@ == "视频没有音轨，无法进行语音识别"@
            },
            (PipelinePhase::PreparingAudio, PipelineEvent::AudioPrepared) => r matches Some((p, a))
                && p == PipelinePhase::DetectingSpeech && a is DetectSpeech,
            (PipelinePhase::DetectingSpeech, PipelineEvent::SpeechDetected { regions }) => if regions
                == 0 {
                r matches Some((p, PipelineAction::Skip(s))) && p == PipelinePhase::Finished && s
                    == PipelineStage::NoSpeech
            } else {
                r matches Some((p, a)) && p == PipelinePhase::Transcribing && a is Transcribe
            },
            (PipelinePhase::Transcribing, PipelineEvent::Transcribed { segments }) => if segments
                == 0 {
                r matches Some((p, PipelineAction::Skip(s))) && p == PipelinePhase::Finished && s
                    == PipelineStage::NoText
            } else {
                r matches Some((p, a)) && p == PipelinePhase::Finished && a is PublishTranscript
            },
            _ => r is None,
        },
{
    match (phase, event) {
        (PipelinePhase::Validating, PipelineEvent::SourceChecked { cached }) => {
            if cached {
                Some((PipelinePhase::Finished, PipelineAction::ReuseCachedTranscript))
            } else {
                Some((PipelinePhase::Inspecting, PipelineAction::Inspect))
            }
        },
        (PipelinePhase::Inspecting, PipelineEvent::Inspected { audio_present }) => {
            match require_audio(audio_present) {
                Ok(()) => Some((PipelinePhase::PreparingAudio, PipelineAction::PrepareAudio)),
                Err(e) => Some((PipelinePhase::Finished, PipelineAction::Reject(e))),
            }
        },
        (PipelinePhase::PreparingAudio, PipelineEvent::AudioPrepared) => {
            Some((PipelinePhase::DetectingSpeech, PipelineAction::DetectSpeech))
        },
        (PipelinePhase::DetectingSpeech, PipelineEvent::SpeechDetected { regions }) => {
            if regions == 0 {
                Some((PipelinePhase::Finished, PipelineAction::Skip(PipelineStage::NoSpeech)))
            } else {
                Some((PipelinePhase::Transcribing, PipelineAction::Transcribe))
            }
        },
        (PipelinePhase::Transcribing, PipelineEvent::Transcribed { segments }) => {
            if segments == 0 {
                Some((PipelinePhase::Finished, PipelineAction::Skip(PipelineStage::NoText)))
            } else {
                Some((PipelinePhase::Finished, PipelineAction::PublishTranscript))
            }
        },
        _ => None,
    }
}

} // verus!
