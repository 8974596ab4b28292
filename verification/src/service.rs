//! The project service's decisions: what an import rejects, where new inputs
//! go, when analysis may start and what a project summary reports. Reading
//! media, the database and the environment stays with the application.

use vstd::prelude::*;

use crate::domain::{AiInputStatus, AiProjectDetail, AiProjectInput};
use crate::repository::AiRepositoryError;
use crate::text::{concat_str, spec_trim, trim};
use std::collections::HashSet;

verus! {

/// A local file the system file picker granted; a bare path from the front
/// end cannot stand in for it.
#[derive(Debug, Clone, PartialEq, Eq)]
pub struct TrustedLocalFile {
    grant_id: String,
    path: String,
}

impl TrustedLocalFile {
    pub closed spec fn spec_grant_id(&self) -> Seq<char> {
        self.grant_id@
    }

    pub closed spec fn spec_path(&self) -> Seq<char> {
        self.path@
    }

    pub fn new(grant_id: String, path: String) -> (r: TrustedLocalFile)
        ensures
            r.spec_grant_id() == grant_id@,
            r.spec_path() == path@,
    {
        TrustedLocalFile { grant_id, path }
    }

    pub fn grant_id(&self) -> (r: &str)
        ensures
            r@ == self.spec_grant_id(),
    {
        self.grant_id.as_str()
    }

    pub fn path(&self) -> (r: &str)
        ensures
            r@ == self.spec_path(),
    {
        self.path.as_str()
    }
}

#[derive(Debug, Clone, PartialEq, Eq)]
pub struct ImportRejection {
    pub display_name: String,
    pub code: String,
    pub message: String,
}

#[derive(Debug, Clone, PartialEq, Eq)]
pub struct ImportBatchResult {
    pub added: Vec<AiProjectInput>,
    pub rejected: Vec<ImportRejection>,
}

#[derive(Debug, Clone, PartialEq, Eq)]
pub struct SessionImportResult {
    pub added: Vec<AiProjectInput>,
    pub added_count: usize,
    pub duplicate_count: usize,
    pub unavailable_count: usize,
}

#[derive(Debug, Clone, PartialEq, Eq)]
pub struct PreflightReport {
    pub ready: bool,
    pub engine_id: String,
    pub engine_version: String,
    pub model_id: String,
    pub model_version: String,
    pub platform_supported: bool,
    pub sidecars_ready: bool,
    pub models_ready: bool,
    pub memory_ready: bool,
    pub disk_ready: bool,
    pub message: String,
}

#[derive(Debug, Clone, PartialEq, Eq)]
pub struct AiProjectSummary {
    pub total_inputs: usize,
    pub valid_inputs: usize,
    pub unavailable_inputs: usize,
    pub total_duration_ms: u64,
    pub engine_id: String,
    pub model_id: String,
    pub environment_ready: bool,
    pub environment_message: String,
}

#[derive(Debug, Clone, PartialEq, Eq)]
pub struct AiSessionOption {
    pub session_id: i64,
    pub streamer_name: String,
    pub started_at: String,
    pub ended_at: String,
    pub video_count: usize,
    pub total_duration_ms: u64,
    pub unavailable_video_count: usize,
}

/// Errors of the project service. A database error is carried by its message.
#[derive(Debug, Clone, PartialEq, Eq)]
pub enum ServiceError {
    Repository(AiRepositoryError),
    Database(String),
    Media(String),
    SessionStillRecording,
    NoValidInput,
    Preflight(String),
}

impl ServiceError {
    pub open spec fn spec_message(&self) -> Seq<char> {
        match self {
            ServiceError::Repository(e) => e.spec_message(),
            ServiceError::Database(m) => m@,
            ServiceError::Media(m) => "媒体检查失败："@ + m@,
            ServiceError::SessionStillRecording => "选择的直播会话仍在录制，请等待直播结束"@,
            ServiceError::NoValidInput => "项目没有可分析的有效音轨"@,
            ServiceError::Preflight(m) => "本地 ASR 环境未就绪："@ + m@,
        }
    }

    pub fn message(&self) -> (r: String)
        ensures
            r@ == self.spec_message(),
    {
        match self {
            ServiceError::Repository(e) => e.message(),
            ServiceError::Database(m) => m.clone(),
            ServiceError::Media(m) => concat_str("媒体检查失败：", m.as_str()),
            ServiceError::SessionStillRecording => String::from_str(
                "选择的直播会话仍在录制，请等待直播结束",
            ),
            ServiceError::NoValidInput => String::from_str("项目没有可分析的有效音轨"),
            ServiceError::Preflight(m) => concat_str("本地 ASR 环境未就绪：", m.as_str()),
        }
    }
}

/// An input that analysis can use: pending, with audio and a known duration.
pub open spec fn spec_is_valid_input(input: AiProjectInput) -> bool {
    input.status is Pending && input.audio_present == Some(true) && input.duration_ms is Some
}

pub open spec fn spec_count_valid(inputs: Seq<AiProjectInput>) -> nat
    decreases inputs.len(),
{
    if inputs.len() == 0 {
        0
    } else {
        spec_count_valid(inputs.drop_last()) + if spec_is_valid_input(inputs.last()) {
            1nat
        } else {
            0nat
        }
    }
}

pub open spec fn spec_count_failed(inputs: Seq<AiProjectInput>) -> nat
    decreases inputs.len(),
{
    if inputs.len() == 0 {
        0
    } else {
        spec_count_failed(inputs.drop_last()) + if inputs.last().status is Failed {
            1nat
        } else {
            0nat
        }
    }
}

/// The sum of the known durations.
pub open spec fn spec_total_duration(inputs: Seq<AiProjectInput>) -> nat
    decreases inputs.len(),
{
    if inputs.len() == 0 {
        0
    } else {
        spec_total_duration(inputs.drop_last()) + match inputs.last().duration_ms {
            Some(d) => d as nat,
            None => 0nat,
        }
    }
}

proof fn lemma_counts_bounded(inputs: Seq<AiProjectInput>)
    ensures
        spec_count_valid(inputs) <= inputs.len(),
        spec_count_failed(inputs) <= inputs.len(),
    decreases inputs.len(),
{
    if inputs.len() > 0 {
        lemma_counts_bounded(inputs.drop_last());
    }
}

proof fn lemma_total_duration_monotone(inputs: Seq<AiProjectInput>, k: int)
    requires
        0 <= k <= inputs.len(),
    ensures
        spec_total_duration(inputs.take(k)) <= spec_total_duration(inputs),
    decreases inputs.len(),
{
    if k < inputs.len() {
        lemma_total_duration_monotone(inputs.drop_last(), k);
        assert(inputs.drop_last().take(k) =~= inputs.take(k));
    } else {
        assert(inputs.take(k) =~= inputs);
    }
}

pub fn is_valid_input(input: &AiProjectInput) -> (r: bool)
    ensures
        r == spec_is_valid_input(*input),
{
    let pending = match input.status {
        AiInputStatus::Pending => true,
        _ => false,
    };
    let with_audio = match input.audio_present {
        Some(a) => a,
        None => false,
    };
    pending && with_audio && input.duration_ms.is_some()
}

/// How many inputs analysis can use.
pub fn count_valid_inputs(inputs: &[AiProjectInput]) -> (r: usize)
    ensures
        r == spec_count_valid(inputs@),
{
    let mut count: usize = 0;
    let mut i: usize = 0;
    while i < inputs.len()
        invariant
            i <= inputs@.len(),
            count == spec_count_valid(inputs@.take(i as int)),
        decreases inputs.len() - i,
    {
        proof {
            assert(inputs@.take(i + 1).drop_last() =~= inputs@.take(i as int));
            lemma_counts_bounded(inputs@.take(i as int));
        }
        if is_valid_input(&inputs[i]) {
            count += 1;
        }
        i += 1;
    }
    assert(inputs@.take(inputs@.len() as int) =~= inputs@);
    count
}

/// The summary of a project against the local environment: its inputs, how
/// many analysis can use, how many failed, their total known duration, and the
/// environment's engine, model and readiness.
pub fn summary_from(detail: &AiProjectDetail, environment: &PreflightReport) -> (r: AiProjectSummary)
    requires
        spec_total_duration(detail.inputs@) <= u64::MAX,
    ensures
        r.total_inputs == detail.inputs@.len(),
        r.valid_inputs == spec_count_valid(detail.inputs@),
        r.unavailable_inputs == spec_count_failed(detail.inputs@),
        r.total_duration_ms == spec_total_duration(detail.inputs@),
        r.engine_id == environment.engine_id,
        r.model_id == environment.model_id,
        r.environment_ready == environment.ready,
        r.environment_message == environment.message,
{
    let inputs = detail.inputs.as_slice();
    let mut failed: usize = 0;
    let mut total: u64 = 0;
    let mut i: usize = 0;
    while i < inputs.len()
        invariant
            i <= inputs@.len(),
            inputs@ == detail.inputs@,
            spec_total_duration(inputs@) <= u64::MAX,
            failed == spec_count_failed(inputs@.take(i as int)),
            total == spec_total_duration(inputs@.take(i as int)),
        decreases inputs.len() - i,
    {
        proof {
            assert(inputs@.take(i + 1).drop_last() =~= inputs@.take(i as int));
            lemma_counts_bounded(inputs@.take(i as int));
            lemma_total_duration_monotone(inputs@, i + 1);
        }
        match inputs[i].status {
            AiInputStatus::Failed => {
                failed += 1;
            },
            _ => {},
        }
        match inputs[i].duration_ms {
            Some(d) => {
                total = total + d;
            },
            None => {},
        }
        i += 1;
    }
    assert(inputs@.take(inputs@.len() as int) =~= inputs@);
    AiProjectSummary {
        total_inputs: inputs.len(),
        valid_inputs: count_valid_inputs(inputs),
        unavailable_inputs: failed,
        total_duration_ms: total,
        engine_id: environment.engine_id.clone(),
        model_id: environment.model_id.clone(),
        environment_ready: environment.ready,
        environment_message: environment.message.clone(),
    }
}

/// The position after the last one used, or 0 for an empty project.
pub open spec fn spec_next_input_position(inputs: Seq<AiProjectInput>) -> i64 {
    if inputs.len() == 0 {
        0
    } else {
        let m = spec_max_position(inputs);
        if m == i64::MAX {
            i64::MAX
        } else {
            (m + 1) as i64
        }
    }
}

pub open spec fn spec_max_position(inputs: Seq<AiProjectInput>) -> i64
    decreases inputs.len(),
{
    if inputs.len() <= 1 {
        inputs[0].position
    } else {
        let m = spec_max_position(inputs.drop_last());
        if inputs.last().position > m {
            inputs.last().position
        } else {
            m
        }
    }
}

pub fn next_input_position(inputs: &[AiProjectInput]) -> (r: i64)
    ensures
        r == spec_next_input_position(inputs@),
{
    if inputs.len() == 0 {
        return 0;
    }
    let mut m = inputs[0].position;
    let mut i: usize = 1;
    assert(inputs@.take(1).len() == 1);
    while i < inputs.len()
        invariant
            1 <= i <= inputs@.len(),
            m == spec_max_position(inputs@.take(i as int)),
        decreases inputs.len() - i,
    {
        assert(inputs@.take(i + 1).drop_last() =~= inputs@.take(i as int));
        if inputs[i].position > m {
            m = inputs[i].position;
        }
        i += 1;
    }
    assert(inputs@.take(inputs@.len() as int) =~= inputs@);
    if m == i64::MAX {
        i64::MAX
    } else {
        m + 1
    }
}

/// Analysis needs at least one usable input before the environment is checked.
pub fn require_valid_inputs(detail: &AiProjectDetail) -> (r: Result<(), ServiceError>)
    ensures
        spec_count_valid(detail.inputs@) == 0 <==> r == Err::<(), ServiceError>(
            ServiceError::NoValidInput,
        ),
        spec_count_valid(detail.inputs@) > 0 <==> r is Ok,
{
    if count_valid_inputs(detail.inputs.as_slice()) == 0 {
        Err(ServiceError::NoValidInput)
    } else {
        Ok(())
    }
}

/// Analysis starts only in a ready environment; otherwise the report's message is the error.
pub fn require_ready_environment(report: &PreflightReport) -> (r: Result<(), ServiceError>)
    ensures
        report.ready ==> r is Ok,
        !report.ready ==> (r matches Err(ServiceError::Preflight(m)) && m == report.message),
{
    if !report.ready {
        Err(ServiceError::Preflight(report.message.clone()))
    } else {
        Ok(())
    }
}

/// A grant without an id is not trusted: such a file is rejected.
pub fn untrusted_rejection(grant_id: &str, display_name: String) -> (r: Option<ImportRejection>)
    ensures
        spec_trim(grant_id@).len() == 0 ==> (r matches Some(j) && j.display_name == display_name
            && j.code@ == "untrusted_file_grant"@ && j.message@ == "本地视频必须通过系统文件选择器添加"@),
        spec_trim(grant_id@).len() > 0 ==> r is None,
{
    let t = trim(grant_id);
    if t.unicode_len() == 0 {
        Some(
            ImportRejection {
                display_name,
                code: String::from_str("untrusted_file_grant"),
                message: String::from_str("本地视频必须通过系统文件选择器添加"),
            },
        )
    } else {
        None
    }
}

/// The rejection of a file that the project already holds.
pub fn duplicate_rejection(display_name: String) -> (r: ImportRejection)
    ensures
        r.display_name == display_name,
        r.code@ == "duplicate_input"@,
        r.message@ == "该视频已经存在于当前项目"@,
{
    ImportRejection {
        display_name,
        code: String::from_str("duplicate_input"),
        message: String::from_str("该视频已经存在于当前项目"),
    }
}

/// The rejection of a file that media inspection refused, with its code and safe message.
pub fn rejection(display_name: String, code: String, safe_message: String) -> (r: ImportRejection)
    ensures
        r.display_name == display_name,
        r.code == code,
        r.message == safe_message,
{
    ImportRejection { display_name, code, message: safe_message }
}

/// A library video's recorded duration in milliseconds, when it is known and not negative.
pub open spec fn spec_video_duration_ms(duration_seconds: Option<i64>) -> Option<u64> {
    match duration_seconds {
        Some(s) => if s >= 0 {
            Some(
                if s * 1000 > u64::MAX {
                    u64::MAX
                } else {
                    (s * 1000) as u64
                },
            )
        } else {
            None
        },
        None => None,
    }
}

pub fn video_duration_ms(duration_seconds: Option<i64>) -> (r: Option<u64>)
    ensures
        r == spec_video_duration_ms(duration_seconds),
{
    match duration_seconds {
        Some(s) => {
            if s >= 0 {
                let v = s as u64;
                Some(crate::text::saturating_mul_u64(v, 1000))
            } else {
                None
            }
        },
        None => None,
    }
}

/// How a video of a finished session is taken in: inspected for its audio,
/// taken as having none, or taken as unavailable.
#[derive(Debug, Clone, Copy, PartialEq, Eq, Structural)]
pub enum SessionVideoRoute {
    Inspect,
    NoAudio,
    Unavailable,
}

/// A readable, complete video is inspected unless the library already knows
/// it has no audio; an unreadable or incomplete one is unavailable.
pub open spec fn spec_session_video_route(
    source_readable: bool,
    status: Seq<char>,
    audio_present: Option<bool>,
) -> SessionVideoRoute {
    if source_readable && status == "complete"@ && audio_present != Some(false) {
        SessionVideoRoute::Inspect
    } else if source_readable && status == "complete"@ {
        SessionVideoRoute::NoAudio
    } else {
        SessionVideoRoute::Unavailable
    }
}

pub fn session_video_route(source_readable: bool, status: &str, audio_present: Option<bool>) -> (r:
    SessionVideoRoute)
    ensures
        r == spec_session_video_route(source_readable, status@, audio_present),
{
    let complete = crate::text::str_eq(status, "complete");
    let known_silent = match audio_present {
        Some(a) => !a,
        None => false,
    };
    if source_readable && complete && !known_silent {
        SessionVideoRoute::Inspect
    } else if source_readable && complete {
        SessionVideoRoute::NoAudio
    } else {
        SessionVideoRoute::Unavailable
    }
}

/// What the media inspector reported of a video.
#[derive(Debug, Clone, PartialEq, Eq)]
pub enum SessionInspection {
    Inspected { duration_ms: u64, audio_present: bool },
    Failed { code: String, safe_message: String },
}

/// How a session video enters the project: whether its fingerprint comes
/// from the media file (otherwise from the library record), its duration and
/// audio, and why it is unavailable, if it is.
#[derive(Debug, Clone, PartialEq, Eq)]
pub struct SessionVideoIntake {
    pub fingerprint_from_source: bool,
    pub duration_ms: Option<u64>,
    pub audio_present: Option<bool>,
    pub failure: Option<(String, String)>,
}

pub open spec fn spec_failure_is(f: Option<(String, String)>, code: Seq<char>, message: Seq<char>) -> bool {
    f matches Some((c, m)) && c@ == code && m@ == message
}

/// The intake of a session video, given its route, what the library records
/// of its duration and audio, and the inspector's report when it was inspected.
pub fn session_video_intake(
    route: SessionVideoRoute,
    library_duration_ms: Option<u64>,
    library_audio: Option<bool>,
    inspection: Option<SessionInspection>,
) -> (r: SessionVideoIntake)
    requires
        route == SessionVideoRoute::Inspect <==> inspection is Some,
    ensures
        route == SessionVideoRoute::Unavailable ==> {
            &&& !r.fingerprint_from_source
            &&& r.duration_ms == library_duration_ms
            &&& r.audio_present == library_audio
            &&& spec_failure_is(r.failure, "session_video_unavailable"@, "录像分片缺失或尚未完成"@)
        },
        route == SessionVideoRoute::NoAudio ==> {
            &&& r.fingerprint_from_source
            &&& r.duration_ms == library_duration_ms
            &&& r.audio_present == Some(false)
            &&& spec_failure_is(r.failure, "session_video_no_audio"@, "录像分片没有可识别音轨"@)
        },
        inspection matches Some(SessionInspection::Inspected { duration_ms, audio_present }) ==> {
            &&& r.fingerprint_from_source
            &&& r.duration_ms == Some(duration_ms)
            &&& r.audio_present == Some(audio_present)
            &&& (audio_present ==> r.failure is None)
            &&& (!audio_present ==> spec_failure_is(
                r.failure,
                "session_video_no_audio"@,
                "录像分片没有可识别音轨"@,
            ))
        },
        inspection matches Some(SessionInspection::Failed { code, safe_message }) ==> {
            &&& !r.fingerprint_from_source
            &&& r.duration_ms == library_duration_ms
            &&& r.audio_present == library_audio
            &&& spec_failure_is(r.failure, code@, safe_message@)
        },
{
    let no_audio = (String::from_str("session_video_no_audio"), String::from_str("录像分片没有可识别音轨"));
    match route {
        SessionVideoRoute::Unavailable => SessionVideoIntake {
            fingerprint_from_source: false,
            duration_ms: library_duration_ms,
            audio_present: library_audio,
            failure: Some(
                (
                    String::from_str("session_video_unavailable"),
                    String::from_str("录像分片缺失或尚未完成"),
                ),
            ),
        },
        SessionVideoRoute::NoAudio => SessionVideoIntake {
            fingerprint_from_source: true,
            duration_ms: library_duration_ms,
            audio_present: Some(false),
            failure: Some(no_audio),
        },
        SessionVideoRoute::Inspect => match inspection {
            Some(SessionInspection::Inspected { duration_ms, audio_present }) => SessionVideoIntake {
                fingerprint_from_source: true,
                duration_ms: Some(duration_ms),
                audio_present: Some(audio_present),
                failure: if audio_present {
                    None
                } else {
                    Some(no_audio)
                },
            },
            Some(SessionInspection::Failed { code, safe_message }) => SessionVideoIntake {
                fingerprint_from_source: false,
                duration_ms: library_duration_ms,
                audio_present: library_audio,
                failure: Some((code, safe_message)),
            },
            None => SessionVideoIntake {
                fingerprint_from_source: false,
                duration_ms: library_duration_ms,
                audio_present: library_audio,
                failure: None,
            },
        },
    }
}

broadcast use vstd::std_specs::hash::group_hash_axioms;

/// The running account of a session import: the videos and fingerprints the
/// project already holds, where the next input goes, and the counts so far.
pub struct SessionImportTally {
    video_ids: HashSet<i64>,
    hashes: Vec<String>,
    position: i64,
    added_count: usize,
    duplicate_count: usize,
    unavailable_count: usize,
}

impl SessionImportTally {
    pub closed spec fn spec_video_ids(&self) -> Set<i64> {
        self.video_ids@
    }

    pub closed spec fn spec_hashes(&self) -> Seq<Seq<char>> {
        self.hashes@.map_values(|h: String| h@)
    }

    pub closed spec fn spec_position(&self) -> i64 {
        self.position
    }

    pub closed spec fn spec_counts(&self) -> (usize, usize, usize) {
        (self.added_count, self.duplicate_count, self.unavailable_count)
    }

    /// Starts from the inputs the project holds: their library videos and
    /// fingerprints, with the next input after the last position.
    pub fn new(existing: &[AiProjectInput]) -> (r: SessionImportTally)
        ensures
            forall|v: i64| r.spec_video_ids().contains(v) <==> exists|i: int|
                0 <= i < existing.len() && #[trigger] existing@[i].video_id == Some(v),
            forall|h: Seq<char>| r.spec_hashes().contains(h) <==> exists|i: int|
                0 <= i < existing.len() && #[trigger] existing@[i].source_fingerprint_hash@ == h,
            r.spec_position() == spec_next_input_position(existing@),
            r.spec_counts() == (0usize, 0usize, 0usize),
    {
        let mut video_ids: HashSet<i64> = HashSet::new();
        let mut hashes: Vec<String> = Vec::new();
        let mut i: usize = 0;
        while i < existing.len()
            invariant
                i <= existing@.len(),
                forall|v: i64| video_ids@.contains(v) <==> exists|k: int|
                    0 <= k < i && #[trigger] existing@[k].video_id == Some(v),
                hashes@.len() == i,
                forall|k: int| 0 <= k < i ==> #[trigger] hashes@[k]@ == existing@[k].source_fingerprint_hash@,
            decreases existing.len() - i,
        {
            let ghost before = video_ids@;
            match existing[i].video_id {
                Some(v) => {
                    video_ids.insert(v);
                },
                None => {},
            }
            hashes.push(existing[i].source_fingerprint_hash.clone());
            assert forall|v: i64| video_ids@.contains(v) <==> exists|k: int|
                0 <= k < i + 1 && #[trigger] existing@[k].video_id == Some(v) by {
                if exists|k: int| 0 <= k < i + 1 && #[trigger] existing@[k].video_id == Some(v) {
                    let k = choose|k: int| 0 <= k < i + 1 && #[trigger] existing@[k].video_id == Some(v);
                    if k < i {
                        assert(exists|k2: int| 0 <= k2 < i && #[trigger] existing@[k2].video_id == Some(v));
                    }
                }
                if video_ids@.contains(v) && !before.contains(v) {
                    assert(existing@[i as int].video_id == Some(v));
                }
            }
            i += 1;
        }
        let r = SessionImportTally {
            video_ids,
            hashes,
            position: next_input_position(existing),
            added_count: 0,
            duplicate_count: 0,
            unavailable_count: 0,
        };
        assert forall|h: Seq<char>| r.spec_hashes().contains(h) <==> exists|i: int|
            0 <= i < existing.len() && #[trigger] existing@[i].source_fingerprint_hash@ == h by {
            if r.spec_hashes().contains(h) {
                let q = choose|q: int| 0 <= q < r.spec_hashes().len() && r.spec_hashes()[q] == h;
                assert(existing@[q].source_fingerprint_hash@ == h);
            }
            if exists|i: int| 0 <= i < existing.len() && #[trigger] existing@[i].source_fingerprint_hash@ == h {
                let k = choose|i: int| 0 <= i < existing.len() && #[trigger] existing@[i].source_fingerprint_hash@ == h;
                assert(r.spec_hashes()[k] == h);
            }
        }
        r
    }

    /// The project already holds this library video.
    pub fn knows_video(&self, video_id: i64) -> (r: bool)
        ensures
            r == self.spec_video_ids().contains(video_id),
    {
        self.video_ids.contains(&video_id)
    }

    /// The project already holds a source with this fingerprint.
    pub fn knows_hash(&self, hash: &str) -> (r: bool)
        ensures
            r == self.spec_hashes().contains(hash@),
    {
        let mut i: usize = 0;
        while i < self.hashes.len()
            invariant
                i <= self.hashes@.len(),
                forall|k: int| 0 <= k < i ==> self.hashes@[k]@ != hash@,
            decreases self.hashes.len() - i,
        {
            if crate::text::str_eq(self.hashes[i].as_str(), hash) {
                assert(self.spec_hashes()[i as int] == hash@);
                return true;
            }
            i += 1;
        }
        assert forall|q: int| 0 <= q < self.spec_hashes().len() implies self.spec_hashes()[q] != hash@ by {
            assert(self.spec_hashes()[q] == self.hashes@[q]@);
        }
        false
    }

    /// Where the next input goes.
    pub fn position(&self) -> (r: i64)
        ensures
            r == self.spec_position(),
    {
        self.position
    }

    /// The counts of added, duplicate and unavailable videos so far.
    pub fn counts(&self) -> (r: (usize, usize, usize))
        ensures
            r == self.spec_counts(),
    {
        (self.added_count, self.duplicate_count, self.unavailable_count)
    }

    /// A video that was already there, by video or by fingerprint.
    pub fn record_duplicate(&mut self)
        requires
            old(self).spec_counts().1 < usize::MAX,
        ensures
            final(self).spec_video_ids() == old(self).spec_video_ids(),
            final(self).spec_hashes() == old(self).spec_hashes(),
            final(self).spec_position() == old(self).spec_position(),
            final(self).spec_counts() == (
                old(self).spec_counts().0,
                (old(self).spec_counts().1 + 1) as usize,
                old(self).spec_counts().2,
            ),
    {
        self.duplicate_count = self.duplicate_count + 1;
    }

    /// A video that became an input: it and its fingerprint are now held, the
    /// next input goes one further, and it counts as added, and as
    /// unavailable when it entered as failed.
    pub fn record_added(&mut self, video_id: i64, hash: String, unavailable: bool)
        requires
            old(self).spec_counts().0 < usize::MAX,
            old(self).spec_counts().2 < usize::MAX,
            old(self).spec_position() < i64::MAX,
        ensures
            final(self).spec_video_ids() == old(self).spec_video_ids().insert(video_id),
            final(self).spec_hashes() == old(self).spec_hashes().push(hash@),
            final(self).spec_position() == old(self).spec_position() + 1,
            final(self).spec_counts() == (
                (old(self).spec_counts().0 + 1) as usize,
                old(self).spec_counts().1,
                if unavailable {
                    (old(self).spec_counts().2 + 1) as usize
                } else {
                    old(self).spec_counts().2
                },
            ),
    {
        let ghost old_hashes = self.hashes@;
        self.video_ids.insert(video_id);
        self.hashes.push(hash);
        assert(self.hashes@.map_values(|h: String| h@) =~= old_hashes.map_values(|h: String| h@).push(
            self.hashes@[self.hashes@.len() - 1]@,
        ));
        self.position = self.position + 1;
        self.added_count = self.added_count + 1;
        if unavailable {
            self.unavailable_count = self.unavailable_count + 1;
        }
    }
}

} // verus!
