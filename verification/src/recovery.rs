//! Startup recovery of the recognition state: after an abnormal exit no
//! in-process state is trusted. Interrupted inputs go back to pending under a
//! new scheduler generation, running projects go back to the queue, and
//! artifacts that were never published are invalidated.

use vstd::prelude::*;

use crate::domain::{
    AiArtifactStatus, AiInputStatus, AiProject, AiProjectInput, AiProjectStatus, AsrArtifact,
    RecoverySummary,
};
use crate::repository::AiRepositoryError;
use crate::text::opt_view;

verus! {

/// The stored rows that a recovery reads and rewrites.
pub struct RecoveryState {
    pub projects: Vec<AiProject>,
    pub inputs: Vec<AiProjectInput>,
    pub artifacts: Vec<AsrArtifact>,
}

/// An input whose work was under way when the application stopped.
pub open spec fn spec_input_interrupted(status: AiInputStatus) -> bool {
    status is Validating || status is PreparingAudio || status is DetectingSpeech
        || status is Transcribing
}

pub open spec fn spec_interrupted_message() -> Seq<char> {
    "应用异常退出，等待用户重试"@
}

/// What recovery makes of one input: an interrupted one becomes pending under
/// the next scheduler generation, leaves the queue, and records why; any other
/// is left as it is.
pub open spec fn spec_input_recovered(old: AiProjectInput, new: AiProjectInput) -> bool {
    if spec_input_interrupted(old.status) {
        &&& new == (AiProjectInput {
            status: AiInputStatus::Pending,
            scheduler_generation: (old.scheduler_generation + 1) as u64,
            queue_priority: 0,
            queue_sequence: None,
            last_error_code: new.last_error_code,
            last_error_message: new.last_error_message,
            ..old
        })
        &&& opt_view(new.last_error_code) == Some("interrupted"@)
        &&& opt_view(new.last_error_message) == Some(spec_interrupted_message())
    } else {
        new == old
    }
}

/// What recovery makes of one project: a running one is queued again and
/// stamped with `now`; any other is left as it is.
pub open spec fn spec_project_recovered(old: AiProject, new: AiProject, now: Seq<char>) -> bool {
    if old.status is Running {
        new == (AiProject { status: AiProjectStatus::Queued, updated_at: new.updated_at, ..old })
            && new.updated_at@ == now
    } else {
        new == old
    }
}

/// What recovery makes of one artifact: a pending one is invalidated.
pub open spec fn spec_artifact_recovered(old: AsrArtifact, new: AsrArtifact) -> bool {
    if old.status is Pending {
        new == (AsrArtifact { status: AiArtifactStatus::Invalidated, ..old })
    } else {
        new == old
    }
}

pub open spec fn spec_interrupted_inputs(inputs: Seq<AiProjectInput>) -> nat
    decreases inputs.len(),
{
    if inputs.len() == 0 {
        0
    } else {
        spec_interrupted_inputs(inputs.drop_last()) + if spec_input_interrupted(
            inputs.last().status,
        ) {
            1nat
        } else {
            0nat
        }
    }
}

pub open spec fn spec_running_projects(projects: Seq<AiProject>) -> nat
    decreases projects.len(),
{
    if projects.len() == 0 {
        0
    } else {
        spec_running_projects(projects.drop_last()) + if projects.last().status is Running {
            1nat
        } else {
            0nat
        }
    }
}

pub open spec fn spec_pending_artifacts(artifacts: Seq<AsrArtifact>) -> nat
    decreases artifacts.len(),
{
    if artifacts.len() == 0 {
        0
    } else {
        spec_pending_artifacts(artifacts.drop_last()) + if artifacts.last().status is Pending {
            1nat
        } else {
            0nat
        }
    }
}

/// Row by row, `new` is what recovery makes of `old`, and the counts are the rows it changed.
pub open spec fn spec_recovered(
    old: RecoveryState,
    new: RecoveryState,
    summary: RecoverySummary,
    now: Seq<char>,
) -> bool {
    &&& new.inputs@.len() == old.inputs@.len()
    &&& new.projects@.len() == old.projects@.len()
    &&& new.artifacts@.len() == old.artifacts@.len()
    &&& forall|j: int|
        0 <= j < old.inputs@.len() ==> spec_input_recovered(
            #[trigger] old.inputs@[j],
            new.inputs@[j],
        )
    &&& forall|j: int|
        0 <= j < old.projects@.len() ==> spec_project_recovered(
            #[trigger] old.projects@[j],
            new.projects@[j],
            now,
        )
    &&& forall|j: int|
        0 <= j < old.artifacts@.len() ==> spec_artifact_recovered(
            #[trigger] old.artifacts@[j],
            new.artifacts@[j],
        )
    &&& summary.inputs == spec_interrupted_inputs(old.inputs@)
    &&& summary.projects == spec_running_projects(old.projects@)
    &&& summary.artifacts == spec_pending_artifacts(old.artifacts@)
}

fn recover_input(input: AiProjectInput) -> (r: (AiProjectInput, bool))
    requires
        spec_input_interrupted(input.status) ==> input.scheduler_generation < i64::MAX,
    ensures
        spec_input_recovered(input, r.0),
        r.1 == spec_input_interrupted(input.status),
{
    match input.status {
        AiInputStatus::Validating | AiInputStatus::PreparingAudio | AiInputStatus::DetectingSpeech
        | AiInputStatus::Transcribing => {
            let generation = input.scheduler_generation + 1;
            (
                AiProjectInput {
                    status: AiInputStatus::Pending,
                    scheduler_generation: generation,
                    queue_priority: 0,
                    queue_sequence: None,
                    last_error_code: Some(String::from_str("interrupted")),
                    last_error_message: Some(String::from_str("应用异常退出，等待用户重试")),
                    ..input
                },
                true,
            )
        },
        _ => (input, false),
    }
}

fn recover_inputs(inputs: Vec<AiProjectInput>) -> (r: (Vec<AiProjectInput>, usize))
    requires
        !spec_generation_overflows(inputs@),
    ensures
        r.0@.len() == inputs@.len(),
        forall|j: int| 0 <= j < inputs@.len() ==> spec_input_recovered(#[trigger] inputs@[j], r.0@[j]),
        r.1 == spec_interrupted_inputs(inputs@),
{
    let ghost orig = inputs@;
    let mut rest = inputs;
    let mut out: Vec<AiProjectInput> = Vec::new();
    let mut count: usize = 0;
    let total = rest.len();
    assert(orig.take(0) =~= Seq::<AiProjectInput>::empty());
    assert(orig.skip(0) =~= orig);
    while rest.len() > 0
        invariant
            out@.len() + rest@.len() == orig.len(),
            rest@ == orig.skip(out@.len() as int),
            forall|j: int| 0 <= j < out@.len() ==> spec_input_recovered(#[trigger] orig[j], out@[j]),
            !spec_generation_overflows(orig),
            count == spec_interrupted_inputs(orig.take(out@.len() as int)),
            count <= out@.len(),
            orig.len() == total,
        decreases rest@.len(),
    {
        let k = out.len();
        let x = rest.remove(0);
        assert(x == orig[k as int]);
        let (y, changed) = recover_input(x);
        assert(orig.take(k + 1).drop_last() =~= orig.take(k as int));
        assert(orig.take(k + 1).last() == orig[k as int]);
        if changed {
            count = count + 1;
        }
        out.push(y);
        assert(rest@ =~= orig.skip(out@.len() as int));
    }
    assert(orig.take(orig.len() as int) =~= orig);
    (out, count)
}

fn recover_projects(projects: Vec<AiProject>, now: &str) -> (r: (Vec<AiProject>, usize))
    ensures
        r.0@.len() == projects@.len(),
        forall|j: int|
            0 <= j < projects@.len() ==> spec_project_recovered(#[trigger] projects@[j], r.0@[j], now@),
        r.1 == spec_running_projects(projects@),
{
    let ghost orig = projects@;
    let mut rest = projects;
    let mut out: Vec<AiProject> = Vec::new();
    let mut count: usize = 0;
    let total = rest.len();
    assert(orig.take(0) =~= Seq::<AiProject>::empty());
    assert(orig.skip(0) =~= orig);
    while rest.len() > 0
        invariant
            out@.len() + rest@.len() == orig.len(),
            rest@ == orig.skip(out@.len() as int),
            forall|j: int|
                0 <= j < out@.len() ==> spec_project_recovered(#[trigger] orig[j], out@[j], now@),
            count == spec_running_projects(orig.take(out@.len() as int)),
            count <= out@.len(),
            orig.len() == total,
        decreases rest@.len(),
    {
        let k = out.len();
        let x = rest.remove(0);
        assert(x == orig[k as int]);
        assert(orig.take(k + 1).drop_last() =~= orig.take(k as int));
        assert(orig.take(k + 1).last() == orig[k as int]);
        let y = match x.status {
            AiProjectStatus::Running => {
                count = count + 1;
                AiProject {
                    status: AiProjectStatus::Queued,
                    updated_at: now.to_string(),
                    ..x
                }
            },
            _ => x,
        };
        out.push(y);
        assert(rest@ =~= orig.skip(out@.len() as int));
    }
    assert(orig.take(orig.len() as int) =~= orig);
    (out, count)
}

fn recover_artifacts(artifacts: Vec<AsrArtifact>) -> (r: (Vec<AsrArtifact>, usize))
    ensures
        r.0@.len() == artifacts@.len(),
        forall|j: int|
            0 <= j < artifacts@.len() ==> spec_artifact_recovered(#[trigger] artifacts@[j], r.0@[j]),
        r.1 == spec_pending_artifacts(artifacts@),
{
    let ghost orig = artifacts@;
    let mut rest = artifacts;
    let mut out: Vec<AsrArtifact> = Vec::new();
    let mut count: usize = 0;
    let total = rest.len();
    assert(orig.take(0) =~= Seq::<AsrArtifact>::empty());
    assert(orig.skip(0) =~= orig);
    while rest.len() > 0
        invariant
            out@.len() + rest@.len() == orig.len(),
            rest@ == orig.skip(out@.len() as int),
            forall|j: int| 0 <= j < out@.len() ==> spec_artifact_recovered(#[trigger] orig[j], out@[j]),
            count == spec_pending_artifacts(orig.take(out@.len() as int)),
            count <= out@.len(),
            orig.len() == total,
        decreases rest@.len(),
    {
        let k = out.len();
        let x = rest.remove(0);
        assert(x == orig[k as int]);
        assert(orig.take(k + 1).drop_last() =~= orig.take(k as int));
        assert(orig.take(k + 1).last() == orig[k as int]);
        let y = match x.status {
            AiArtifactStatus::Pending => {
                count = count + 1;
                AsrArtifact { status: AiArtifactStatus::Invalidated, ..x }
            },
            _ => x,
        };
        out.push(y);
        assert(rest@ =~= orig.skip(out@.len() as int));
    }
    assert(orig.take(orig.len() as int) =~= orig);
    (out, count)
}

/// Some interrupted input already holds the largest generation a stored
/// integer can take, so the next one cannot be written.
pub open spec fn spec_generation_overflows(inputs: Seq<AiProjectInput>) -> bool {
    exists|j: int|
        0 <= j < inputs.len() && spec_input_interrupted((#[trigger] inputs[j]).status)
            && inputs[j].scheduler_generation >= i64::MAX
}

fn generation_overflows(inputs: &Vec<AiProjectInput>) -> (r: bool)
    ensures
        r == spec_generation_overflows(inputs@),
{
    let mut i: usize = 0;
    while i < inputs.len()
        invariant
            i <= inputs@.len(),
            forall|j: int|
                0 <= j < i ==> !(spec_input_interrupted((#[trigger] inputs@[j]).status)
                    && inputs@[j].scheduler_generation >= i64::MAX),
        decreases inputs.len() - i,
    {
        let interrupted = match inputs[i].status {
            AiInputStatus::Validating | AiInputStatus::PreparingAudio
            | AiInputStatus::DetectingSpeech | AiInputStatus::Transcribing => true,
            _ => false,
        };
        if interrupted && inputs[i].scheduler_generation >= i64::MAX as u64 {
            return true;
        }
        i += 1;
    }
    false
}

/// Recovers the stored state after the recognition processes stopped, at
/// time `now`: interrupted inputs return to pending under the next
/// generation with the code `interrupted`, running projects are queued, and
/// pending artifacts are invalidated. The summary counts each kind of change.
/// When an interrupted input's generation cannot grow within a stored integer
/// the recovery fails as a whole and nothing changes.
pub fn recover_interrupted(state: RecoveryState, now: &str) -> (r: Result<
    (RecoveryState, RecoverySummary),
    AiRepositoryError,
>)
    ensures
        spec_generation_overflows(state.inputs@) ==> (r matches Err(AiRepositoryError::Sqlite(m))
            && m@ == "integer overflow"@),
        !spec_generation_overflows(state.inputs@) ==> (r matches Ok((new, summary))
            && spec_recovered(state, new, summary, now@)),
{
    if generation_overflows(&state.inputs) {
        return Err(AiRepositoryError::Sqlite(String::from_str("integer overflow")));
    }
    let RecoveryState { projects, inputs, artifacts } = state;
    let (inputs, input_count) = recover_inputs(inputs);
    let (projects, project_count) = recover_projects(projects, now);
    let (artifacts, artifact_count) = recover_artifacts(artifacts);
    Ok(
        (
            RecoveryState { projects, inputs, artifacts },
            RecoverySummary {
                projects: project_count,
                inputs: input_count,
                artifacts: artifact_count,
            },
        ),
    )
}

/// After a recovery no input is under way, no project is running, no
/// artifact is pending, and every interrupted input records `interrupted`.
pub proof fn lemma_recovery_leaves_nothing_in_flight(
    old: RecoveryState,
    new: RecoveryState,
    summary: RecoverySummary,
    now: Seq<char>,
)
    requires
        spec_recovered(old, new, summary, now),
    ensures
        forall|j: int| 0 <= j < new.inputs@.len() ==> !spec_input_interrupted(#[trigger] new.inputs@[j].status),
        forall|j: int| 0 <= j < new.projects@.len() ==> !((#[trigger] new.projects@[j]).status is Running),
        forall|j: int| 0 <= j < new.artifacts@.len() ==> !((#[trigger] new.artifacts@[j]).status is Pending),
{
    assert forall|j: int| 0 <= j < new.inputs@.len() implies !spec_input_interrupted(
        #[trigger] new.inputs@[j].status,
    ) by {
        assert(spec_input_recovered(old.inputs@[j], new.inputs@[j]));
    }
    assert forall|j: int| 0 <= j < new.projects@.len() implies !((
    #[trigger] new.projects@[j]).status is Running) by {
        assert(spec_project_recovered(old.projects@[j], new.projects@[j], now));
    }
    assert forall|j: int| 0 <= j < new.artifacts@.len() implies !((
    #[trigger] new.artifacts@[j]).status is Pending) by {
        assert(spec_artifact_recovered(old.artifacts@[j], new.artifacts@[j]));
    }
}

} // verus!
