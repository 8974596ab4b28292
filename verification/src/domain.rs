//! Persistent domain types of AI projects: statuses with their stored names
//! and transition rules, inputs, artifacts, highlight runs and clip projects.

use vstd::prelude::*;

use crate::clip_timeline::ClipTransitionBoundary;
use crate::repository::AiRepositoryError;
use crate::text::str_eq;

verus! {
#[derive(Debug, Clone, Copy, PartialEq, Eq, Structural)]
pub enum AiHighlightRunStatus {
    Pending,
    Running,
    Candidates,
    Ranking,
    Completed,
    Partial,
    Cancelled,
    Failed,
}
impl AiHighlightRunStatus {
    /// The name under which the value is stored.
    pub open spec fn spec_name(self) -> Seq<char> {
        match self {
            AiHighlightRunStatus::Pending => "pending"@,
            AiHighlightRunStatus::Running => "running"@,
            AiHighlightRunStatus::Candidates => "candidates"@,
            AiHighlightRunStatus::Ranking => "ranking"@,
            AiHighlightRunStatus::Completed => "completed"@,
            AiHighlightRunStatus::Partial => "partial"@,
            AiHighlightRunStatus::Cancelled => "cancelled"@,
            AiHighlightRunStatus::Failed => "failed"@,
        }
    }

    pub fn as_str(self) -> (r: &'static str)
        ensures
            r@ == self.spec_name(),
    {
        match self {
            AiHighlightRunStatus::Pending => "pending",
            AiHighlightRunStatus::Running => "running",
            AiHighlightRunStatus::Candidates => "candidates",
            AiHighlightRunStatus::Ranking => "ranking",
            AiHighlightRunStatus::Completed => "completed",
            AiHighlightRunStatus::Partial => "partial",
            AiHighlightRunStatus::Cancelled => "cancelled",
            AiHighlightRunStatus::Failed => "failed",
        }
    }

    pub open spec fn spec_parse(value: Seq<char>) -> Option<AiHighlightRunStatus> {
        if value == "pending"@ {
            Some(AiHighlightRunStatus::Pending)
        } else if value == "running"@ {
            Some(AiHighlightRunStatus::Running)
        } else if value == "candidates"@ {
            Some(AiHighlightRunStatus::Candidates)
        } else if value == "ranking"@ {
            Some(AiHighlightRunStatus::Ranking)
        } else if value == "completed"@ {
            Some(AiHighlightRunStatus::Completed)
        } else if value == "partial"@ {
            Some(AiHighlightRunStatus::Partial)
        } else if value == "cancelled"@ {
            Some(AiHighlightRunStatus::Cancelled)
        } else if value == "failed"@ {
            Some(AiHighlightRunStatus::Failed)
        } else {
            None
        }
    }

    pub fn parse(value: &str) -> (r: Result<AiHighlightRunStatus, AiRepositoryError>)
        ensures
            match AiHighlightRunStatus::spec_parse(value@) {
                Some(v) => r == Ok::<AiHighlightRunStatus, AiRepositoryError>(v),
                None => r matches Err(AiRepositoryError::Integrity(m)) && m@ == "高光运行状态无效"@,
            },
    {
        if str_eq(value, "pending") {
            Ok(AiHighlightRunStatus::Pending)
        } else if str_eq(value, "running") {
            Ok(AiHighlightRunStatus::Running)
        } else if str_eq(value, "candidates") {
            Ok(AiHighlightRunStatus::Candidates)
        } else if str_eq(value, "ranking") {
            Ok(AiHighlightRunStatus::Ranking)
        } else if str_eq(value, "completed") {
            Ok(AiHighlightRunStatus::Completed)
        } else if str_eq(value, "partial") {
            Ok(AiHighlightRunStatus::Partial)
        } else if str_eq(value, "cancelled") {
            Ok(AiHighlightRunStatus::Cancelled)
        } else if str_eq(value, "failed") {
            Ok(AiHighlightRunStatus::Failed)
        } else {
            Err(AiRepositoryError::Integrity(String::from_str("高光运行状态无效")))
        }
    }
}

#[derive(Debug, Clone, Copy, PartialEq, Eq, Structural)]
pub enum AiProjectStatus {
    Draft,
    Queued,
    Running,
    Deleting,
    Completed,
    CompletedWithErrors,
    Cancelled,
    Failed,
}
impl AiProjectStatus {
    /// The name under which the value is stored.
    pub open spec fn spec_name(self) -> Seq<char> {
        match self {
            AiProjectStatus::Draft => "draft"@,
            AiProjectStatus::Queued => "queued"@,
            AiProjectStatus::Running => "running"@,
            AiProjectStatus::Deleting => "deleting"@,
            AiProjectStatus::Completed => "completed"@,
            AiProjectStatus::CompletedWithErrors => "completed_with_errors"@,
            AiProjectStatus::Cancelled => "cancelled"@,
            AiProjectStatus::Failed => "failed"@,
        }
    }

    pub fn as_str(self) -> (r: &'static str)
        ensures
            r@ == self.spec_name(),
    {
        match self {
            AiProjectStatus::Draft => "draft",
            AiProjectStatus::Queued => "queued",
            AiProjectStatus::Running => "running",
            AiProjectStatus::Deleting => "deleting",
            AiProjectStatus::Completed => "completed",
            AiProjectStatus::CompletedWithErrors => "completed_with_errors",
            AiProjectStatus::Cancelled => "cancelled",
            AiProjectStatus::Failed => "failed",
        }
    }

    pub open spec fn spec_parse(value: Seq<char>) -> Option<AiProjectStatus> {
        if value == "draft"@ {
            Some(AiProjectStatus::Draft)
        } else if value == "queued"@ {
            Some(AiProjectStatus::Queued)
        } else if value == "running"@ {
            Some(AiProjectStatus::Running)
        } else if value == "deleting"@ {
            Some(AiProjectStatus::Deleting)
        } else if value == "completed"@ {
            Some(AiProjectStatus::Completed)
        } else if value == "completed_with_errors"@ {
            Some(AiProjectStatus::CompletedWithErrors)
        } else if value == "cancelled"@ {
            Some(AiProjectStatus::Cancelled)
        } else if value == "failed"@ {
            Some(AiProjectStatus::Failed)
        } else {
            None
        }
    }

    pub fn parse(value: &str) -> (r: Result<AiProjectStatus, AiRepositoryError>)
        ensures
            match AiProjectStatus::spec_parse(value@) {
                Some(v) => r == Ok::<AiProjectStatus, AiRepositoryError>(v),
                None => r matches Err(AiRepositoryError::Integrity(m)) && m@ == "项目状态无效"@,
            },
    {
        if str_eq(value, "draft") {
            Ok(AiProjectStatus::Draft)
        } else if str_eq(value, "queued") {
            Ok(AiProjectStatus::Queued)
        } else if str_eq(value, "running") {
            Ok(AiProjectStatus::Running)
        } else if str_eq(value, "deleting") {
            Ok(AiProjectStatus::Deleting)
        } else if str_eq(value, "completed") {
            Ok(AiProjectStatus::Completed)
        } else if str_eq(value, "completed_with_errors") {
            Ok(AiProjectStatus::CompletedWithErrors)
        } else if str_eq(value, "cancelled") {
            Ok(AiProjectStatus::Cancelled)
        } else if str_eq(value, "failed") {
            Ok(AiProjectStatus::Failed)
        } else {
            Err(AiRepositoryError::Integrity(String::from_str("项目状态无效")))
        }
    }
}

#[derive(Debug, Clone, Copy, PartialEq, Eq, Structural)]
pub enum AiInputStatus {
    Pending,
    Validating,
    PreparingAudio,
    DetectingSpeech,
    Transcribing,
    Completed,
    Skipped,
    Cancelled,
    Failed,
}
impl AiInputStatus {
    /// The name under which the value is stored.
    pub open spec fn spec_name(self) -> Seq<char> {
        match self {
            AiInputStatus::Pending => "pending"@,
            AiInputStatus::Validating => "validating"@,
            AiInputStatus::PreparingAudio => "preparing_audio"@,
            AiInputStatus::DetectingSpeech => "detecting_speech"@,
            AiInputStatus::Transcribing => "transcribing"@,
            AiInputStatus::Completed => "completed"@,
            AiInputStatus::Skipped => "skipped"@,
            AiInputStatus::Cancelled => "cancelled"@,
            AiInputStatus::Failed => "failed"@,
        }
    }

    pub fn as_str(self) -> (r: &'static str)
        ensures
            r@ == self.spec_name(),
    {
        match self {
            AiInputStatus::Pending => "pending",
            AiInputStatus::Validating => "validating",
            AiInputStatus::PreparingAudio => "preparing_audio",
            AiInputStatus::DetectingSpeech => "detecting_speech",
            AiInputStatus::Transcribing => "transcribing",
            AiInputStatus::Completed => "completed",
            AiInputStatus::Skipped => "skipped",
            AiInputStatus::Cancelled => "cancelled",
            AiInputStatus::Failed => "failed",
        }
    }

    pub open spec fn spec_parse(value: Seq<char>) -> Option<AiInputStatus> {
        if value == "pending"@ {
            Some(AiInputStatus::Pending)
        } else if value == "validating"@ {
            Some(AiInputStatus::Validating)
        } else if value == "preparing_audio"@ {
            Some(AiInputStatus::PreparingAudio)
        } else if value == "detecting_speech"@ {
            Some(AiInputStatus::DetectingSpeech)
        } else if value == "transcribing"@ {
            Some(AiInputStatus::Transcribing)
        } else if value == "completed"@ {
            Some(AiInputStatus::Completed)
        } else if value == "skipped"@ {
            Some(AiInputStatus::Skipped)
        } else if value == "cancelled"@ {
            Some(AiInputStatus::Cancelled)
        } else if value == "failed"@ {
            Some(AiInputStatus::Failed)
        } else {
            None
        }
    }

    pub fn parse(value: &str) -> (r: Result<AiInputStatus, AiRepositoryError>)
        ensures
            match AiInputStatus::spec_parse(value@) {
                Some(v) => r == Ok::<AiInputStatus, AiRepositoryError>(v),
                None => r matches Err(AiRepositoryError::Integrity(m)) && m@ == "输入状态无效"@,
            },
    {
        if str_eq(value, "pending") {
            Ok(AiInputStatus::Pending)
        } else if str_eq(value, "validating") {
            Ok(AiInputStatus::Validating)
        } else if str_eq(value, "preparing_audio") {
            Ok(AiInputStatus::PreparingAudio)
        } else if str_eq(value, "detecting_speech") {
            Ok(AiInputStatus::DetectingSpeech)
        } else if str_eq(value, "transcribing") {
            Ok(AiInputStatus::Transcribing)
        } else if str_eq(value, "completed") {
            Ok(AiInputStatus::Completed)
        } else if str_eq(value, "skipped") {
            Ok(AiInputStatus::Skipped)
        } else if str_eq(value, "cancelled") {
            Ok(AiInputStatus::Cancelled)
        } else if str_eq(value, "failed") {
            Ok(AiInputStatus::Failed)
        } else {
            Err(AiRepositoryError::Integrity(String::from_str("输入状态无效")))
        }
    }
}

#[derive(Debug, Clone, Copy, PartialEq, Eq, Structural)]
pub enum AiArtifactStatus {
    Pending,
    Published,
    Invalidated,
}
impl AiArtifactStatus {
    /// The name under which the value is stored.
    pub open spec fn spec_name(self) -> Seq<char> {
        match self {
            AiArtifactStatus::Pending => "pending"@,
            AiArtifactStatus::Published => "published"@,
            AiArtifactStatus::Invalidated => "invalidated"@,
        }
    }

    pub open spec fn spec_parse(value: Seq<char>) -> Option<AiArtifactStatus> {
        if value == "pending"@ {
            Some(AiArtifactStatus::Pending)
        } else if value == "published"@ {
            Some(AiArtifactStatus::Published)
        } else if value == "invalidated"@ {
            Some(AiArtifactStatus::Invalidated)
        } else {
            None
        }
    }

    pub fn parse(value: &str) -> (r: Result<AiArtifactStatus, AiRepositoryError>)
        ensures
            match AiArtifactStatus::spec_parse(value@) {
                Some(v) => r == Ok::<AiArtifactStatus, AiRepositoryError>(v),
                None => r matches Err(AiRepositoryError::Integrity(m)) && m@ == "识别产物状态无效"@,
            },
    {
        if str_eq(value, "pending") {
            Ok(AiArtifactStatus::Pending)
        } else if str_eq(value, "published") {
            Ok(AiArtifactStatus::Published)
        } else if str_eq(value, "invalidated") {
            Ok(AiArtifactStatus::Invalidated)
        } else {
            Err(AiRepositoryError::Integrity(String::from_str("识别产物状态无效")))
        }
    }
}

#[derive(Debug, Clone, Copy, PartialEq, Eq, Structural)]
pub enum AiInputSourceKind {
    LocalFile,
    VideoLibrary,
}
impl AiInputSourceKind {
    /// The name under which the value is stored.
    pub open spec fn spec_name(self) -> Seq<char> {
        match self {
            AiInputSourceKind::LocalFile => "local_file"@,
            AiInputSourceKind::VideoLibrary => "video_library"@,
        }
    }

    pub fn as_str(self) -> (r: &'static str)
        ensures
            r@ == self.spec_name(),
    {
        match self {
            AiInputSourceKind::LocalFile => "local_file",
            AiInputSourceKind::VideoLibrary => "video_library",
        }
    }

    pub open spec fn spec_parse(value: Seq<char>) -> Option<AiInputSourceKind> {
        if value == "local_file"@ {
            Some(AiInputSourceKind::LocalFile)
        } else if value == "video_library"@ {
            Some(AiInputSourceKind::VideoLibrary)
        } else {
            None
        }
    }

    pub fn parse(value: &str) -> (r: Result<AiInputSourceKind, AiRepositoryError>)
        ensures
            match AiInputSourceKind::spec_parse(value@) {
                Some(v) => r == Ok::<AiInputSourceKind, AiRepositoryError>(v),
                None => r matches Err(AiRepositoryError::Integrity(m)) && m@ == "输入来源无效"@,
            },
    {
        if str_eq(value, "local_file") {
            Ok(AiInputSourceKind::LocalFile)
        } else if str_eq(value, "video_library") {
            Ok(AiInputSourceKind::VideoLibrary)
        } else {
            Err(AiRepositoryError::Integrity(String::from_str("输入来源无效")))
        }
    }
}

#[derive(Debug, Clone, Copy, PartialEq, Eq, Structural)]
pub enum AiClipEffect {
    NoEffect,
    FadeIn,
    FadeOut,
    FadeInOut,
    Flash,
    Black,
}
impl AiClipEffect {
    /// The name under which the value is stored.
    pub open spec fn spec_name(self) -> Seq<char> {
        match self {
            AiClipEffect::NoEffect => "none"@,
            AiClipEffect::FadeIn => "fade_in"@,
            AiClipEffect::FadeOut => "fade_out"@,
            AiClipEffect::FadeInOut => "fade_in_out"@,
            AiClipEffect::Flash => "flash"@,
            AiClipEffect::Black => "black"@,
        }
    }

    pub fn as_str(self) -> (r: &'static str)
        ensures
            r@ == self.spec_name(),
    {
        match self {
            AiClipEffect::NoEffect => "none",
            AiClipEffect::FadeIn => "fade_in",
            AiClipEffect::FadeOut => "fade_out",
            AiClipEffect::FadeInOut => "fade_in_out",
            AiClipEffect::Flash => "flash",
            AiClipEffect::Black => "black",
        }
    }

    pub open spec fn spec_parse(value: Seq<char>) -> Option<AiClipEffect> {
        if value == "none"@ {
            Some(AiClipEffect::NoEffect)
        } else if value == "fade_in"@ {
            Some(AiClipEffect::FadeIn)
        } else if value == "fade_out"@ {
            Some(AiClipEffect::FadeOut)
        } else if value == "fade_in_out"@ {
            Some(AiClipEffect::FadeInOut)
        } else if value == "flash"@ {
            Some(AiClipEffect::Flash)
        } else if value == "black"@ {
            Some(AiClipEffect::Black)
        } else {
            None
        }
    }

    pub fn parse(value: &str) -> (r: Option<AiClipEffect>)
        ensures
            r == AiClipEffect::spec_parse(value@),
    {
        if str_eq(value, "none") {
            Some(AiClipEffect::NoEffect)
        } else if str_eq(value, "fade_in") {
            Some(AiClipEffect::FadeIn)
        } else if str_eq(value, "fade_out") {
            Some(AiClipEffect::FadeOut)
        } else if str_eq(value, "fade_in_out") {
            Some(AiClipEffect::FadeInOut)
        } else if str_eq(value, "flash") {
            Some(AiClipEffect::Flash)
        } else if str_eq(value, "black") {
            Some(AiClipEffect::Black)
        } else {
            None
        }
    }
}

#[derive(Debug, Clone, Copy, PartialEq, Eq, Structural)]
pub enum AiClipExportStatus {
    Idle,
    Exporting,
    Completed,
    Cancelled,
    Failed,
}
impl AiClipExportStatus {
    /// The name under which the value is stored.
    pub open spec fn spec_name(self) -> Seq<char> {
        match self {
            AiClipExportStatus::Idle => "idle"@,
            AiClipExportStatus::Exporting => "exporting"@,
            AiClipExportStatus::Completed => "completed"@,
            AiClipExportStatus::Cancelled => "cancelled"@,
            AiClipExportStatus::Failed => "failed"@,
        }
    }

    pub fn as_str(self) -> (r: &'static str)
        ensures
            r@ == self.spec_name(),
    {
        match self {
            AiClipExportStatus::Idle => "idle",
            AiClipExportStatus::Exporting => "exporting",
            AiClipExportStatus::Completed => "completed",
            AiClipExportStatus::Cancelled => "cancelled",
            AiClipExportStatus::Failed => "failed",
        }
    }

    pub open spec fn spec_parse(value: Seq<char>) -> Option<AiClipExportStatus> {
        if value == "idle"@ {
            Some(AiClipExportStatus::Idle)
        } else if value == "exporting"@ {
            Some(AiClipExportStatus::Exporting)
        } else if value == "completed"@ {
            Some(AiClipExportStatus::Completed)
        } else if value == "cancelled"@ {
            Some(AiClipExportStatus::Cancelled)
        } else if value == "failed"@ {
            Some(AiClipExportStatus::Failed)
        } else {
            None
        }
    }

    pub fn parse(value: &str) -> (r: Option<AiClipExportStatus>)
        ensures
            r == AiClipExportStatus::spec_parse(value@),
    {
        if str_eq(value, "idle") {
            Some(AiClipExportStatus::Idle)
        } else if str_eq(value, "exporting") {
            Some(AiClipExportStatus::Exporting)
        } else if str_eq(value, "completed") {
            Some(AiClipExportStatus::Completed)
        } else if str_eq(value, "cancelled") {
            Some(AiClipExportStatus::Cancelled)
        } else if str_eq(value, "failed") {
            Some(AiClipExportStatus::Failed)
        } else {
            None
        }
    }
}

} // verus!

verus! {

impl AiProjectStatus {
    /// Projects move forward only: a draft is queued, a queued project starts,
    /// is cancelled, fails or is deleted, and a running one finishes, is
    /// cancelled, fails or is deleted.
    pub open spec fn spec_can_transition_to(self, next: AiProjectStatus) -> bool {
        match (self, next) {
            (AiProjectStatus::Draft, AiProjectStatus::Queued) => true,
            (
                AiProjectStatus::Queued,
                AiProjectStatus::Running
                | AiProjectStatus::Cancelled
                | AiProjectStatus::Failed
                | AiProjectStatus::Deleting,
            ) => true,
            (
                AiProjectStatus::Running,
                AiProjectStatus::Completed
                | AiProjectStatus::CompletedWithErrors
                | AiProjectStatus::Cancelled
                | AiProjectStatus::Failed
                | AiProjectStatus::Deleting,
            ) => true,
            _ => false,
        }
    }

    pub fn can_transition_to(self, next: AiProjectStatus) -> (r: bool)
        ensures
            r == self.spec_can_transition_to(next),
    {
        match (self, next) {
            (AiProjectStatus::Draft, AiProjectStatus::Queued) => true,
            (
                AiProjectStatus::Queued,
                AiProjectStatus::Running
                | AiProjectStatus::Cancelled
                | AiProjectStatus::Failed
                | AiProjectStatus::Deleting,
            ) => true,
            (
                AiProjectStatus::Running,
                AiProjectStatus::Completed
                | AiProjectStatus::CompletedWithErrors
                | AiProjectStatus::Cancelled
                | AiProjectStatus::Failed
                | AiProjectStatus::Deleting,
            ) => true,
            _ => false,
        }
    }
}

impl AiInputStatus {
    /// Inputs pass through validation, audio preparation, speech detection and
    /// transcription; any active stage may be cancelled or fail, and only a failed input may start over.
    pub open spec fn spec_can_transition_to(self, next: AiInputStatus) -> bool {
        match (self, next) {
            (
                AiInputStatus::Pending,
                AiInputStatus::Validating | AiInputStatus::Cancelled | AiInputStatus::Failed,
            ) => true,
            (
                AiInputStatus::Validating,
                AiInputStatus::PreparingAudio
                | AiInputStatus::Completed
                | AiInputStatus::Skipped
                | AiInputStatus::Cancelled
                | AiInputStatus::Failed,
            ) => true,
            (
                AiInputStatus::PreparingAudio,
                AiInputStatus::DetectingSpeech | AiInputStatus::Cancelled | AiInputStatus::Failed,
            ) => true,
            (
                AiInputStatus::DetectingSpeech,
                AiInputStatus::Transcribing
                | AiInputStatus::Skipped
                | AiInputStatus::Cancelled
                | AiInputStatus::Failed,
            ) => true,
            (
                AiInputStatus::Transcribing,
                AiInputStatus::Completed | AiInputStatus::Cancelled | AiInputStatus::Failed,
            ) => true,
            (AiInputStatus::Failed, AiInputStatus::Pending) => true,
            _ => false,
        }
    }

    pub fn can_transition_to(self, next: AiInputStatus) -> (r: bool)
        ensures
            r == self.spec_can_transition_to(next),
    {
        match (self, next) {
            (
                AiInputStatus::Pending,
                AiInputStatus::Validating | AiInputStatus::Cancelled | AiInputStatus::Failed,
            ) => true,
            (
                AiInputStatus::Validating,
                AiInputStatus::PreparingAudio
                | AiInputStatus::Completed
                | AiInputStatus::Skipped
                | AiInputStatus::Cancelled
                | AiInputStatus::Failed,
            ) => true,
            (
                AiInputStatus::PreparingAudio,
                AiInputStatus::DetectingSpeech | AiInputStatus::Cancelled | AiInputStatus::Failed,
            ) => true,
            (
                AiInputStatus::DetectingSpeech,
                AiInputStatus::Transcribing
                | AiInputStatus::Skipped
                | AiInputStatus::Cancelled
                | AiInputStatus::Failed,
            ) => true,
            (
                AiInputStatus::Transcribing,
                AiInputStatus::Completed | AiInputStatus::Cancelled | AiInputStatus::Failed,
            ) => true,
            (AiInputStatus::Failed, AiInputStatus::Pending) => true,
            _ => false,
        }
    }

    /// The progress that a persisted stage stands for.
    pub open spec fn spec_progress_percent(self) -> u8 {
        match self {
            AiInputStatus::Pending => 0,
            AiInputStatus::Validating => 10,
            AiInputStatus::PreparingAudio => 25,
            AiInputStatus::DetectingSpeech => 45,
            AiInputStatus::Transcribing => 75,
            _ => 100,
        }
    }

    pub fn progress_percent(self) -> (r: u8)
        ensures
            r == self.spec_progress_percent(),
    {
        match self {
            AiInputStatus::Pending => 0,
            AiInputStatus::Validating => 10,
            AiInputStatus::PreparingAudio => 25,
            AiInputStatus::DetectingSpeech => 45,
            AiInputStatus::Transcribing => 75,
            AiInputStatus::Completed | AiInputStatus::Skipped | AiInputStatus::Cancelled
            | AiInputStatus::Failed => 100,
        }
    }
}

/// Each stored name of a AiHighlightRunStatus reads back as the value that wrote it.
pub proof fn lemma_ai_highlight_run_status_names_round_trip(run: AiHighlightRunStatus)
    ensures
        AiHighlightRunStatus::spec_parse(run.spec_name()) == Some(run),
{
    reveal_strlit("pending");
    reveal_strlit("running");
    reveal_strlit("candidates");
    reveal_strlit("ranking");
    reveal_strlit("completed");
    reveal_strlit("partial");
    reveal_strlit("cancelled");
    reveal_strlit("failed");
    assert("pending"@[0] != "running"@[0]);
    assert("pending"@.len() != "candidates"@.len());
    assert("pending"@[0] != "ranking"@[0]);
    assert("pending"@.len() != "completed"@.len());
    assert("pending"@[1] != "partial"@[1]);
    assert("pending"@.len() != "cancelled"@.len());
    assert("pending"@.len() != "failed"@.len());
    assert("running"@.len() != "candidates"@.len());
    assert("running"@[1] != "ranking"@[1]);
    assert("running"@.len() != "completed"@.len());
    assert("running"@[0] != "partial"@[0]);
    assert("running"@.len() != "cancelled"@.len());
    assert("running"@.len() != "failed"@.len());
    assert("candidates"@.len() != "ranking"@.len());
    assert("candidates"@.len() != "completed"@.len());
    assert("candidates"@.len() != "partial"@.len());
    assert("candidates"@.len() != "cancelled"@.len());
    assert("candidates"@.len() != "failed"@.len());
    assert("ranking"@.len() != "completed"@.len());
    assert("ranking"@[0] != "partial"@[0]);
    assert("ranking"@.len() != "cancelled"@.len());
    assert("ranking"@.len() != "failed"@.len());
    assert("completed"@.len() != "partial"@.len());
    assert("completed"@[1] != "cancelled"@[1]);
    assert("completed"@.len() != "failed"@.len());
    assert("partial"@.len() != "cancelled"@.len());
    assert("partial"@.len() != "failed"@.len());
    assert("cancelled"@.len() != "failed"@.len());
    match run {
        AiHighlightRunStatus::Pending => {},
        AiHighlightRunStatus::Running => {},
        AiHighlightRunStatus::Candidates => {},
        AiHighlightRunStatus::Ranking => {},
        AiHighlightRunStatus::Completed => {},
        AiHighlightRunStatus::Partial => {},
        AiHighlightRunStatus::Cancelled => {},
        AiHighlightRunStatus::Failed => {},
    }
}

/// Each stored name of a AiProjectStatus reads back as the value that wrote it.
pub proof fn lemma_ai_project_status_names_round_trip(project: AiProjectStatus)
    ensures
        AiProjectStatus::spec_parse(project.spec_name()) == Some(project),
{
    reveal_strlit("draft");
    reveal_strlit("queued");
    reveal_strlit("running");
    reveal_strlit("deleting");
    reveal_strlit("completed");
    reveal_strlit("completed_with_errors");
    reveal_strlit("cancelled");
    reveal_strlit("failed");
    assert("draft"@.len() != "queued"@.len());
    assert("draft"@.len() != "running"@.len());
    assert("draft"@.len() != "deleting"@.len());
    assert("draft"@.len() != "completed"@.len());
    assert("draft"@.len() != "completed_with_errors"@.len());
    assert("draft"@.len() != "cancelled"@.len());
    assert("draft"@.len() != "failed"@.len());
    assert("queued"@.len() != "running"@.len());
    assert("queued"@.len() != "deleting"@.len());
    assert("queued"@.len() != "completed"@.len());
    assert("queued"@.len() != "completed_with_errors"@.len());
    assert("queued"@.len() != "cancelled"@.len());
    assert("queued"@[0] != "failed"@[0]);
    assert("running"@.len() != "deleting"@.len());
    assert("running"@.len() != "completed"@.len());
    assert("running"@.len() != "completed_with_errors"@.len());
    assert("running"@.len() != "cancelled"@.len());
    assert("running"@.len() != "failed"@.len());
    assert("deleting"@.len() != "completed"@.len());
    assert("deleting"@.len() != "completed_with_errors"@.len());
    assert("deleting"@.len() != "cancelled"@.len());
    assert("deleting"@.len() != "failed"@.len());
    assert("completed"@.len() != "completed_with_errors"@.len());
    assert("completed"@[1] != "cancelled"@[1]);
    assert("completed"@.len() != "failed"@.len());
    assert("completed_with_errors"@.len() != "cancelled"@.len());
    assert("completed_with_errors"@.len() != "failed"@.len());
    assert("cancelled"@.len() != "failed"@.len());
    match project {
        AiProjectStatus::Draft => {},
        AiProjectStatus::Queued => {},
        AiProjectStatus::Running => {},
        AiProjectStatus::Deleting => {},
        AiProjectStatus::Completed => {},
        AiProjectStatus::CompletedWithErrors => {},
        AiProjectStatus::Cancelled => {},
        AiProjectStatus::Failed => {},
    }
}

/// Each stored name of a AiInputStatus reads back as the value that wrote it.
pub proof fn lemma_ai_input_status_names_round_trip(input: AiInputStatus)
    ensures
        AiInputStatus::spec_parse(input.spec_name()) == Some(input),
{
    reveal_strlit("pending");
    reveal_strlit("validating");
    reveal_strlit("preparing_audio");
    reveal_strlit("detecting_speech");
    reveal_strlit("transcribing");
    reveal_strlit("completed");
    reveal_strlit("skipped");
    reveal_strlit("cancelled");
    reveal_strlit("failed");
    assert("pending"@.len() != "validating"@.len());
    assert("pending"@.len() != "preparing_audio"@.len());
    assert("pending"@.len() != "detecting_speech"@.len());
    assert("pending"@.len() != "transcribing"@.len());
    assert("pending"@.len() != "completed"@.len());
    assert("pending"@[0] != "skipped"@[0]);
    assert("pending"@.len() != "cancelled"@.len());
    assert("pending"@.len() != "failed"@.len());
    assert("validating"@.len() != "preparing_audio"@.len());
    assert("validating"@.len() != "detecting_speech"@.len());
    assert("validating"@.len() != "transcribing"@.len());
    assert("validating"@.len() != "completed"@.len());
    assert("validating"@.len() != "skipped"@.len());
    assert("validating"@.len() != "cancelled"@.len());
    assert("validating"@.len() != "failed"@.len());
    assert("preparing_audio"@.len() != "detecting_speech"@.len());
    assert("preparing_audio"@.len() != "transcribing"@.len());
    assert("preparing_audio"@.len() != "completed"@.len());
    assert("preparing_audio"@.len() != "skipped"@.len());
    assert("preparing_audio"@.len() != "cancelled"@.len());
    assert("preparing_audio"@.len() != "failed"@.len());
    assert("detecting_speech"@.len() != "transcribing"@.len());
    assert("detecting_speech"@.len() != "completed"@.len());
    assert("detecting_speech"@.len() != "skipped"@.len());
    assert("detecting_speech"@.len() != "cancelled"@.len());
    assert("detecting_speech"@.len() != "failed"@.len());
    assert("transcribing"@.len() != "completed"@.len());
    assert("transcribing"@.len() != "skipped"@.len());
    assert("transcribing"@.len() != "cancelled"@.len());
    assert("transcribing"@.len() != "failed"@.len());
    assert("completed"@.len() != "skipped"@.len());
    assert("completed"@[1] != "cancelled"@[1]);
    assert("completed"@.len() != "failed"@.len());
    assert("skipped"@.len() != "cancelled"@.len());
    assert("skipped"@.len() != "failed"@.len());
    assert("cancelled"@.len() != "failed"@.len());
    match input {
        AiInputStatus::Pending => {},
        AiInputStatus::Validating => {},
        AiInputStatus::PreparingAudio => {},
        AiInputStatus::DetectingSpeech => {},
        AiInputStatus::Transcribing => {},
        AiInputStatus::Completed => {},
        AiInputStatus::Skipped => {},
        AiInputStatus::Cancelled => {},
        AiInputStatus::Failed => {},
    }
}

/// Each stored name of a AiArtifactStatus reads back as the value that wrote it.
pub proof fn lemma_ai_artifact_status_names_round_trip(artifact: AiArtifactStatus)
    ensures
        AiArtifactStatus::spec_parse(artifact.spec_name()) == Some(artifact),
{
    reveal_strlit("pending");
    reveal_strlit("published");
    reveal_strlit("invalidated");
    assert("pending"@.len() != "published"@.len());
    assert("pending"@.len() != "invalidated"@.len());
    assert("published"@.len() != "invalidated"@.len());
    match artifact {
        AiArtifactStatus::Pending => {},
        AiArtifactStatus::Published => {},
        AiArtifactStatus::Invalidated => {},
    }
}

/// Each stored name of a AiInputSourceKind reads back as the value that wrote it.
pub proof fn lemma_ai_input_source_kind_names_round_trip(source: AiInputSourceKind)
    ensures
        AiInputSourceKind::spec_parse(source.spec_name()) == Some(source),
{
    reveal_strlit("local_file");
    reveal_strlit("video_library");
    assert("local_file"@.len() != "video_library"@.len());
    match source {
        AiInputSourceKind::LocalFile => {},
        AiInputSourceKind::VideoLibrary => {},
    }
}

/// Each stored name of a AiClipEffect reads back as the value that wrote it.
pub proof fn lemma_ai_clip_effect_names_round_trip(effect: AiClipEffect)
    ensures
        AiClipEffect::spec_parse(effect.spec_name()) == Some(effect),
{
    reveal_strlit("none");
    reveal_strlit("fade_in");
    reveal_strlit("fade_out");
    reveal_strlit("fade_in_out");
    reveal_strlit("flash");
    reveal_strlit("black");
    assert("none"@.len() != "fade_in"@.len());
    assert("none"@.len() != "fade_out"@.len());
    assert("none"@.len() != "fade_in_out"@.len());
    assert("none"@.len() != "flash"@.len());
    assert("none"@.len() != "black"@.len());
    assert("fade_in"@.len() != "fade_out"@.len());
    assert("fade_in"@.len() != "fade_in_out"@.len());
    assert("fade_in"@.len() != "flash"@.len());
    assert("fade_in"@.len() != "black"@.len());
    assert("fade_out"@.len() != "fade_in_out"@.len());
    assert("fade_out"@.len() != "flash"@.len());
    assert("fade_out"@.len() != "black"@.len());
    assert("fade_in_out"@.len() != "flash"@.len());
    assert("fade_in_out"@.len() != "black"@.len());
    assert("flash"@[0] != "black"@[0]);
    match effect {
        AiClipEffect::NoEffect => {},
        AiClipEffect::FadeIn => {},
        AiClipEffect::FadeOut => {},
        AiClipEffect::FadeInOut => {},
        AiClipEffect::Flash => {},
        AiClipEffect::Black => {},
    }
}

/// Each stored name of a AiClipExportStatus reads back as the value that wrote it.
pub proof fn lemma_ai_clip_export_status_names_round_trip(export: AiClipExportStatus)
    ensures
        AiClipExportStatus::spec_parse(export.spec_name()) == Some(export),
{
    reveal_strlit("idle");
    reveal_strlit("exporting");
    reveal_strlit("completed");
    reveal_strlit("cancelled");
    reveal_strlit("failed");
    assert("idle"@.len() != "exporting"@.len());
    assert("idle"@.len() != "completed"@.len());
    assert("idle"@.len() != "cancelled"@.len());
    assert("idle"@.len() != "failed"@.len());
    assert("exporting"@[0] != "completed"@[0]);
    assert("exporting"@[0] != "cancelled"@[0]);
    assert("exporting"@.len() != "failed"@.len());
    assert("completed"@[1] != "cancelled"@[1]);
    assert("completed"@.len() != "failed"@.len());
    assert("cancelled"@.len() != "failed"@.len());
    match export {
        AiClipExportStatus::Idle => {},
        AiClipExportStatus::Exporting => {},
        AiClipExportStatus::Completed => {},
        AiClipExportStatus::Cancelled => {},
        AiClipExportStatus::Failed => {},
    }
}

/// Terminal project states admit no further transition, and no transition leads back to a draft.
pub proof fn lemma_project_terminal_states_are_final(next: AiProjectStatus, any: AiProjectStatus)
    ensures
        !AiProjectStatus::Completed.spec_can_transition_to(next),
        !AiProjectStatus::CompletedWithErrors.spec_can_transition_to(next),
        !AiProjectStatus::Cancelled.spec_can_transition_to(next),
        !AiProjectStatus::Failed.spec_can_transition_to(next),
        !AiProjectStatus::Deleting.spec_can_transition_to(next),
        !any.spec_can_transition_to(AiProjectStatus::Draft),
{
}

/// Completed, skipped and cancelled inputs are final; a failed input may only be reset to pending.
pub proof fn lemma_input_terminal_states(next: AiInputStatus)
    ensures
        !AiInputStatus::Completed.spec_can_transition_to(next),
        !AiInputStatus::Skipped.spec_can_transition_to(next),
        !AiInputStatus::Cancelled.spec_can_transition_to(next),
        AiInputStatus::Failed.spec_can_transition_to(next) <==> next == AiInputStatus::Pending,
{
}

/// Every allowed input transition other than the reset of a failed input keeps or raises the stored progress.
pub proof fn lemma_input_progress_never_regresses(current: AiInputStatus, next: AiInputStatus)
    requires
        current.spec_can_transition_to(next),
        current != AiInputStatus::Failed,
    ensures
        current.spec_progress_percent() <= next.spec_progress_percent(),
{
}

} // verus!

verus! {

/// The full recognition configuration that results are cached under.
#[derive(Debug, Clone, PartialEq, Eq)]
pub struct RecognitionProfile {
    pub engine_id: String,
    pub engine_version: String,
    pub model_id: String,
    pub model_version: String,
    pub language_hint: Option<String>,
    pub vad_model_id: String,
    pub vad_threshold_millis: u32,
    pub vad_padding_ms: u64,
    pub timestamp_policy: String,
    pub normalization_version: String,
    pub hotwords: Vec<String>,
}

impl RecognitionProfile {
    /// The profile as fingerprinted: every field kept, the hotwords trimmed,
    /// without blanks, sorted and without repeats, so that their order or
    /// spacing never changes the fingerprint.
    pub fn normalized(&self) -> (r: RecognitionProfile)
        ensures
            r.engine_id == self.engine_id,
            r.engine_version == self.engine_version,
            r.model_id == self.model_id,
            r.model_version == self.model_version,
            r.language_hint == self.language_hint,
            r.vad_model_id == self.vad_model_id,
            r.vad_threshold_millis == self.vad_threshold_millis,
            r.vad_padding_ms == self.vad_padding_ms,
            r.timestamp_policy == self.timestamp_policy,
            r.normalization_version == self.normalization_version,
            crate::text::spec_strictly_sorted(crate::text::strings_view(r.hotwords@)),
            forall|x: Seq<char>|
                crate::text::strings_view(r.hotwords@).contains(x) <==> crate::text::spec_trimmed_words(
                    crate::text::strings_view(self.hotwords@),
                ).contains(x),
    {
        let count = self.hotwords.len();
        let kept = crate::text::trimmed_words(self.hotwords.as_slice(), usize::MAX);
        proof {
            let t = crate::text::spec_trimmed_words(crate::text::strings_view(self.hotwords@));
            crate::text::lemma_trimmed_words_len(crate::text::strings_view(self.hotwords@));
            assert(t.len() <= count);
            assert(t.take(t.len() as int) =~= t);
            assert(crate::text::strings_view(kept@) == t);
        }
        RecognitionProfile {
            engine_id: self.engine_id.clone(),
            engine_version: self.engine_version.clone(),
            model_id: self.model_id.clone(),
            model_version: self.model_version.clone(),
            language_hint: crate::text::clone_opt(&self.language_hint),
            vad_model_id: self.vad_model_id.clone(),
            vad_threshold_millis: self.vad_threshold_millis,
            vad_padding_ms: self.vad_padding_ms,
            timestamp_policy: self.timestamp_policy.clone(),
            normalization_version: self.normalization_version.clone(),
            hotwords: crate::text::sort_dedup(kept),
        }
    }
}

/// What identifies a source video: its normalized path, size, modification time and library id.
#[derive(Debug, Clone, PartialEq, Eq)]
pub struct SourceFingerprint {
    pub normalized_path: String,
    pub size_bytes: u64,
    pub modified_at_ms: i64,
    pub video_id: Option<i64>,
}

#[derive(Debug, Clone, PartialEq, Eq)]
pub struct AiProject {
    pub id: i64,
    pub name: String,
    pub status: AiProjectStatus,
    pub recognition_profile: RecognitionProfile,
    pub recognition_profile_hash: String,
    pub input_frozen: bool,
    pub progress_percent: u8,
    pub last_error_code: Option<String>,
    pub last_error_message: Option<String>,
    pub project_tags: Vec<String>,
    pub analysis_goal: Option<String>,
    pub deleting_at: Option<String>,
    pub created_at: String,
    pub updated_at: String,
}

#[derive(Debug, Clone, PartialEq, Eq)]
pub struct AiProjectInput {
    pub id: i64,
    pub project_id: i64,
    pub position: i64,
    pub source_kind: AiInputSourceKind,
    pub video_id: Option<i64>,
    pub display_name: String,
    pub source_path: String,
    pub source_fingerprint: SourceFingerprint,
    pub source_fingerprint_hash: String,
    pub duration_ms: Option<u64>,
    pub audio_present: Option<bool>,
    pub project_offset_ms: Option<u64>,
    pub status: AiInputStatus,
    pub progress_percent: u8,
    pub artifact_id: Option<i64>,
    pub last_error_code: Option<String>,
    pub last_error_message: Option<String>,
    pub scheduler_generation: u64,
    pub queue_priority: u32,
    pub queue_sequence: Option<u64>,
}

#[derive(Debug, Clone, PartialEq, Eq)]
pub struct AiProjectDetail {
    pub project: AiProject,
    pub inputs: Vec<AiProjectInput>,
}

#[derive(Debug, Clone, PartialEq, Eq)]
pub struct NewAiProjectInput {
    pub position: i64,
    pub source_kind: AiInputSourceKind,
    pub video_id: Option<i64>,
    pub display_name: String,
    pub source_path: String,
    pub source_fingerprint: SourceFingerprint,
    pub duration_ms: Option<u64>,
    pub audio_present: Option<bool>,
}

#[derive(Debug, Clone, PartialEq, Eq)]
pub struct NewAsrArtifact {
    pub source_fingerprint: SourceFingerprint,
    pub recognition_profile_hash: String,
    pub engine_id: String,
    pub engine_version: String,
    pub model_id: String,
    pub model_version: String,
}

#[derive(Debug, Clone, PartialEq, Eq)]
pub struct AsrArtifact {
    pub id: i64,
    pub source_fingerprint: SourceFingerprint,
    pub source_fingerprint_hash: String,
    pub recognition_profile_hash: String,
    pub engine_id: String,
    pub engine_version: String,
    pub model_id: String,
    pub model_version: String,
    pub status: AiArtifactStatus,
    pub duration_ms: Option<u64>,
    pub language: Option<String>,
    pub created_at: String,
    pub published_at: Option<String>,
    pub last_used_at: String,
}

/// A recognized segment before it is stored. The recognizer's confidence is
/// kept as the bit pattern of its `f32` (`f32::to_bits`).
#[derive(Debug, Clone, PartialEq, Eq)]
pub struct TranscriptSegmentDraft {
    pub source_start_ms: u64,
    pub source_end_ms: u64,
    pub raw_text: String,
    pub normalized_text: String,
    pub confidence_bits: Option<u32>,
}

/// A stored transcript segment; the confidence is kept as `f32` bits.
#[derive(Debug, Clone, PartialEq, Eq)]
pub struct TranscriptSegment {
    pub id: String,
    pub artifact_id: i64,
    pub ordinal: i64,
    pub source_start_ms: u64,
    pub source_end_ms: u64,
    pub raw_text: String,
    pub normalized_text: String,
    pub confidence_bits: Option<u32>,
}

#[derive(Debug, Clone, PartialEq, Eq)]
pub struct AiHighlightRun {
    pub id: i64,
    pub project_id: i64,
    pub status: AiHighlightRunStatus,
    pub model_id: String,
    pub prompt_version: String,
    pub tags_snapshot: Vec<String>,
    pub skills_snapshot: Vec<String>,
    pub analysis_goal: Option<String>,
    pub analysis_fingerprint: String,
    pub qualified_score: u8,
    pub excellent_score: u8,
    pub user_authorized: bool,
    pub total_segments: u64,
    pub total_chars: u64,
    pub estimated_batches: u64,
    pub total_tokens: u64,
    pub last_error_code: Option<String>,
    pub last_error_message: Option<String>,
    pub created_at: String,
    pub updated_at: String,
}

#[derive(Debug, Clone, PartialEq, Eq)]
pub struct AiHighlightChunk {
    pub id: i64,
    pub run_id: i64,
    pub ordinal: i64,
    pub input_id: i64,
    pub segment_ids: Vec<String>,
    pub context_segment_ids: Vec<String>,
    pub status: String,
    pub candidate_count: u64,
    pub token_usage: u64,
    pub last_error_code: Option<String>,
    pub last_error_message: Option<String>,
}

#[derive(Debug, Clone, Copy, PartialEq, Eq, Structural)]
pub struct AiHighlightProgress {
    pub run_id: i64,
    pub total_batches: u64,
    pub pending_batches: u64,
    pub running_batches: u64,
    pub completed_batches: u64,
    pub failed_batches: u64,
    pub candidate_count: u64,
}

#[derive(Debug, Clone, PartialEq, Eq)]
pub struct AiClipProject {
    pub id: i64,
    pub highlight_run_id: i64,
    pub name: String,
    pub output_width: Option<u32>,
    pub output_height: Option<u32>,
    pub version: u32,
    pub export_status: AiClipExportStatus,
    pub export_progress: u8,
    pub output_path: Option<String>,
    pub last_error_code: Option<String>,
    pub last_error_message: Option<String>,
    pub created_at: String,
    pub updated_at: String,
}

#[derive(Debug, Clone, PartialEq, Eq)]
pub struct AiClipSegment {
    pub id: i64,
    pub clip_project_id: i64,
    pub candidate_id: i64,
    pub input_id: i64,
    pub position: u32,
    pub title: String,
    pub source_start_ms: u64,
    pub source_end_ms: u64,
    pub volume_percent: u16,
    pub effect: AiClipEffect,
}

#[derive(Debug, Clone, PartialEq, Eq)]
pub struct AiClipSubtitle {
    pub id: i64,
    pub clip_project_id: i64,
    pub stable_segment_id: String,
    pub clip_segment_id: i64,
    pub input_id: i64,
    pub original_text: String,
    pub text: String,
    pub hidden: bool,
    pub source_start_ms: u64,
    pub source_end_ms: u64,
    pub project_start_ms: u64,
    pub project_end_ms: u64,
}

/// One step of the word-by-word subtitle display on the project timeline.
#[derive(Debug, Clone, PartialEq, Eq)]
pub struct AiClipSubtitleFrame {
    pub subtitle_id: i64,
    pub clip_segment_id: i64,
    pub project_start_ms: u64,
    pub project_end_ms: u64,
    pub page_text: String,
    pub visible_text: String,
    pub hidden_text: String,
}

#[derive(Debug, Clone, Copy, PartialEq, Eq, Structural)]
pub enum AiClipTimelineUnitKind {
    Segment,
    Bridge,
}

/// One stretch of the project timeline: a clip segment, or the transition
/// bridge played between two adjacent segments. The download states of a
/// bridge's material are carried by their stored names.
#[derive(Debug, Clone, PartialEq)]
pub struct AiClipTimelineUnit {
    pub key: String,
    pub kind: AiClipTimelineUnitKind,
    pub project_start_ms: u64,
    pub project_end_ms: u64,
    pub clip_segment_id: Option<i64>,
    pub boundary_id: Option<i64>,
    pub title: String,
    pub asset_key: Option<String>,
    pub asset_version: Option<i64>,
    pub source_status: Option<String>,
    pub preview_status: Option<String>,
}

/// A clip project with its segments, subtitles and laid-out timeline.
#[derive(Debug, Clone, PartialEq)]
pub struct AiClipProjectDetail {
    pub project: AiClipProject,
    pub segments: Vec<AiClipSegment>,
    pub subtitles: Vec<AiClipSubtitle>,
    pub subtitle_frames: Vec<AiClipSubtitleFrame>,
    pub subtitles_complete: bool,
    pub boundaries: Vec<ClipTransitionBoundary>,
    pub project_duration_ms: u64,
    pub timeline_units: Vec<AiClipTimelineUnit>,
}

#[derive(Debug, Clone, Copy, PartialEq, Eq, Structural)]
pub struct AiClipSegmentUpdate {
    pub volume_percent: u16,
    pub effect: AiClipEffect,
}

#[derive(Debug, Clone, PartialEq, Eq)]
pub struct AiClipSubtitleUpdate {
    pub text: String,
    pub hidden: bool,
    pub expected_project_version: u32,
}

#[derive(Debug, Clone, PartialEq, Eq)]
pub struct NewAiHighlightRun {
    pub project_id: i64,
    pub model_id: String,
    pub prompt_version: String,
    pub tags_snapshot: Vec<String>,
    pub skills_snapshot: Vec<String>,
    pub analysis_goal: Option<String>,
    pub analysis_fingerprint: String,
    pub qualified_score: u8,
    pub excellent_score: u8,
    pub total_segments: u64,
    pub total_chars: u64,
    pub estimated_batches: u64,
    pub user_authorized: bool,
}

#[derive(Debug, Clone, PartialEq, Eq)]
pub struct NewAiHighlightChunk {
    pub ordinal: i64,
    pub input_id: i64,
    pub segment_ids: Vec<String>,
    pub context_segment_ids: Vec<String>,
}

#[derive(Debug, Clone, Copy, PartialEq, Eq, Structural)]
pub struct RecoverySummary {
    pub projects: usize,
    pub inputs: usize,
    pub artifacts: usize,
}

/// The auditable result of a startup or shutdown recovery.
#[derive(Debug, Clone, Copy, PartialEq, Eq, Structural)]
pub struct AiRecoveryReport {
    pub database: RecoverySummary,
    pub removed_temporary_audio_files: usize,
}

} // verus!
