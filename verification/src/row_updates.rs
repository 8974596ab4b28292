//! The row changes behind the repository's state transitions: what a
//! project cancellation does to its inputs, when a scheduler event may still
//! move an input, and what an edit does to a clip project and its smart draft.

use vstd::prelude::*;

use crate::domain::{AiInputStatus, AiProject, AiProjectInput, AiProjectStatus};
use crate::repository::AiRepositoryError;
use crate::smart_clip::ClipProjectEditState;
use crate::text::{opt_view, str_eq};

verus! {

/// An input that has not ended yet and can still be cancelled.
pub open spec fn spec_input_cancellable(status: AiInputStatus) -> bool {
    status is Pending || status is Validating || status is PreparingAudio
        || status is DetectingSpeech || status is Transcribing
}

/// What cancelling project `project_id` makes of one input: an input of that
/// project that has not ended becomes cancelled by the user; any other is
/// left as it is.
pub open spec fn spec_input_cancelled(project_id: i64, old: AiProjectInput, new: AiProjectInput) -> bool {
    if old.project_id == project_id && spec_input_cancellable(old.status) {
        &&& new == (AiProjectInput {
            status: AiInputStatus::Cancelled,
            last_error_code: new.last_error_code,
            last_error_message: new.last_error_message,
            ..old
        })
        &&& opt_view(new.last_error_code) == Some("user_cancelled"@)
        &&& opt_view(new.last_error_message) == Some("用户已取消语音识别"@)
    } else {
        new == old
    }
}

fn cancel_input(project_id: i64, input: AiProjectInput) -> (r: AiProjectInput)
    ensures
        spec_input_cancelled(project_id, input, r),
{
    if input.project_id != project_id {
        return input;
    }
    match input.status {
        AiInputStatus::Pending | AiInputStatus::Validating | AiInputStatus::PreparingAudio
        | AiInputStatus::DetectingSpeech | AiInputStatus::Transcribing => AiProjectInput {
            status: AiInputStatus::Cancelled,
            last_error_code: Some(String::from_str("user_cancelled")),
            last_error_message: Some(String::from_str("用户已取消语音识别")),
            ..input
        },
        _ => input,
    }
}

/// Cancels a queued or running project at time `now`: the project becomes
/// cancelled, and so does every input of it that has not ended. A project in
/// any other state is refused and nothing changes.
pub fn cancel_project_rows(project: AiProject, inputs: Vec<AiProjectInput>, now: &str) -> (r: Result<
    (AiProject, Vec<AiProjectInput>),
    AiRepositoryError,
>)
    ensures
        !(project.status is Queued || project.status is Running) ==> (r matches Err(
            AiRepositoryError::InvalidState(m),
        ) && m@ == "只有排队或运行中的项目可以取消"@),
        (project.status is Queued || project.status is Running) ==> (r matches Ok((p, new_inputs))
            && p == (AiProject { status: AiProjectStatus::Cancelled, updated_at: p.updated_at, ..project })
            && p.updated_at@ == now@ && new_inputs@.len() == inputs@.len() && forall|j: int|
            0 <= j < inputs@.len() ==> spec_input_cancelled(
                project.id,
                #[trigger] inputs@[j],
                new_inputs@[j],
            )),
{
    match project.status {
        AiProjectStatus::Queued | AiProjectStatus::Running => {},
        _ => {
            return Err(AiRepositoryError::InvalidState(String::from_str("只有排队或运行中的项目可以取消")));
        },
    }
    let project_id = project.id;
    let ghost orig = inputs@;
    let mut rest = inputs;
    let mut out: Vec<AiProjectInput> = Vec::new();
    assert(orig.skip(0) =~= orig);
    while rest.len() > 0
        invariant
            out@.len() + rest@.len() == orig.len(),
            rest@ == orig.skip(out@.len() as int),
            forall|j: int| 0 <= j < out@.len() ==> spec_input_cancelled(project_id, #[trigger] orig[j], out@[j]),
        decreases rest@.len(),
    {
        let k = out.len();
        let x = rest.remove(0);
        assert(x == orig[k as int]);
        out.push(cancel_input(project_id, x));
        assert(rest@ =~= orig.skip(out@.len() as int));
    }
    Ok((AiProject { status: AiProjectStatus::Cancelled, updated_at: now.to_string(), ..project }, out))
}

/// A scheduler event still applies to an input only under the generation it
/// was issued for and while the input has not completed, been cancelled or failed.
pub fn scheduler_event_accepted(
    input_generation: u64,
    input_status: AiInputStatus,
    event_generation: u64,
) -> (r: bool)
    ensures
        r == (input_generation == event_generation && !(input_status is Completed
            || input_status is Cancelled || input_status is Failed)),
{
    input_generation == event_generation && match input_status {
        AiInputStatus::Completed | AiInputStatus::Cancelled | AiInputStatus::Failed => false,
        _ => true,
    }
}

/// A clip project after a manual edit: the next version, idle for export,
/// and owned by the user when it belongs to a smart workflow.
pub fn after_manual_edit(state: ClipProjectEditState) -> (r: ClipProjectEditState)
    requires
        state.version < i64::MAX,
    ensures
        r.version == state.version + 1,
        r.smart_workflow_id == state.smart_workflow_id,
        r.draft_generation == state.draft_generation,
        r.export_status@ == "idle"@,
        r.ownership@ == if state.smart_workflow_id is None {
            state.ownership@
        } else {
            "user"@
        },
{
    let ownership = match state.smart_workflow_id {
        None => state.ownership,
        Some(_) => String::from_str("user"),
    };
    ClipProjectEditState {
        version: state.version + 1,
        ownership,
        smart_workflow_id: state.smart_workflow_id,
        draft_generation: state.draft_generation,
        export_status: String::from_str("idle"),
    }
}

/// A smart draft's ownership and status after a manual edit of its project:
/// a draft the automation owns passes to the user, and an active or
/// review-ready one is ready for review; a draft the user owns stays as it is.
pub fn draft_after_manual_edit(ownership: &str, status: &str) -> (r: (String, String))
    ensures
        ownership@ == "automation"@ ==> r.0@ == "user"@ && r.1@ == if status@ == "active"@
            || status@ == "review_ready"@ {
            "review_ready"@
        } else {
            status@
        },
        ownership@ != "automation"@ ==> r.0@ == ownership@ && r.1@ == status@,
{
    if !str_eq(ownership, "automation") {
        return (ownership.to_string(), status.to_string());
    }
    let next = if str_eq(status, "active") || str_eq(status, "review_ready") {
        String::from_str("review_ready")
    } else {
        status.to_string()
    };
    (String::from_str("user"), next)
}

/// A clip project and its draft after the automation appended to them: the
/// project's next version, idle for export, and the draft's next automation version.
pub fn after_automated_increment(state: ClipProjectEditState, automation_version: i64) -> (r: (
    ClipProjectEditState,
    i64,
))
    requires
        state.version < i64::MAX,
        automation_version < i64::MAX,
    ensures
        r.0.version == state.version + 1,
        r.0.ownership == state.ownership,
        r.0.smart_workflow_id == state.smart_workflow_id,
        r.0.draft_generation == state.draft_generation,
        r.0.export_status@ == "idle"@,
        r.1 == automation_version + 1,
{
    (
        ClipProjectEditState {
            version: state.version + 1,
            ownership: state.ownership,
            smart_workflow_id: state.smart_workflow_id,
            draft_generation: state.draft_generation,
            export_status: String::from_str("idle"),
        },
        automation_version + 1,
    )
}

} // verus!
