//! The lifecycle boundary of recognition state: where temporary audio lives,
//! the recovery of the stored rows after the recognition processes stopped,
//! and the auditable report of that recovery. The rows are read from and
//! written back to the database by its owner, and the stale temporary audio
//! is removed by the audio cleanup, whose count is reported here.

use vstd::prelude::*;

use crate::domain::AiRecoveryReport;
use crate::recovery::{recover_interrupted, spec_generation_overflows, spec_recovered, RecoveryState};
use crate::repository::AiRepositoryError;

verus! {

/// Owns the directory under which temporary audio is prepared.
#[derive(Debug, Clone, PartialEq, Eq)]
pub struct AiLifecycle {
    temporary_root: String,
}

impl AiLifecycle {
    pub closed spec fn spec_temporary_root(&self) -> Seq<char> {
        self.temporary_root@
    }

    pub fn new(temporary_root: String) -> (r: AiLifecycle)
        ensures
            r.spec_temporary_root() == temporary_root@,
    {
        AiLifecycle { temporary_root }
    }

    pub fn temporary_root(&self) -> (r: &str)
        ensures
            r@ == self.spec_temporary_root(),
    {
        self.temporary_root.as_str()
    }

    /// Recovers the stored rows at startup, at time `now` (see
    /// `recover_interrupted`), and reports what changed together with the
    /// number of stale temporary audio files that were removed under the
    /// root. The report names no media path.
    pub fn recover_startup(
        &self,
        state: RecoveryState,
        now: &str,
        removed_temporary_audio_files: usize,
    ) -> (r: Result<(RecoveryState, AiRecoveryReport), AiRepositoryError>)
        ensures
            spec_generation_overflows(state.inputs@) ==> (r matches Err(AiRepositoryError::Sqlite(m))
                && m@ == "integer overflow"@),
            !spec_generation_overflows(state.inputs@) ==> (r matches Ok((new, report))
                && spec_recovered(state, new, report.database, now@)
                && report.removed_temporary_audio_files == removed_temporary_audio_files),
    {
        let (recovered, database) = recover_interrupted(state, now)?;
        Ok((recovered, AiRecoveryReport { database, removed_temporary_audio_files }))
    }
}

} // verus!
