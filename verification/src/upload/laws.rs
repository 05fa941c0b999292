//! What holds of every upload, whatever the outcomes of its steps: the
//! note is visible only once the upload has ended in success, a failed
//! write never leads to a commit, and a failed preview is passed over.

use crate::upload::steps::{UploadOutcome, UploadState, UploadStep};
use vstd::prelude::*;

verus! {

/// What the store and the object store hold of one upload.
pub struct Stores {
    /// The transaction that holds the note's row is open.
    pub transaction_open: bool,
    /// The note's row is committed, so that readers find it.
    pub note_visible: bool,
    /// The document is in the object store.
    pub file_stored: bool,
    /// The preview image is in the object store.
    pub preview_stored: bool,
}

impl Stores {
    /// The stores right after the note's row was inserted in a new
    /// transaction: nothing is committed and nothing is written.
    pub open spec fn initial() -> Stores {
        Stores {
            transaction_open: true,
            note_visible: false,
            file_stored: false,
            preview_stored: false,
        }
    }

    /// The stores after the work of `step` succeeded or failed. A commit
    /// makes the row visible only where it succeeds on an open transaction,
    /// and ends the transaction either way, as a rollback does.
    pub open spec fn after_step(self, step: UploadStep, succeeded: bool) -> Stores {
        match step {
            UploadStep::WriteFile => Stores {
                file_stored: self.file_stored || succeeded,
                ..self
            },
            UploadStep::RenderPreview => Stores {
                preview_stored: self.preview_stored || succeeded,
                ..self
            },
            UploadStep::Commit => Stores {
                transaction_open: false,
                note_visible: self.note_visible || (self.transaction_open && succeeded),
                ..self
            },
            UploadStep::Rollback => Stores { transaction_open: false, ..self },
            UploadStep::RemoveFiles => if succeeded {
                Stores { file_stored: false, preview_stored: false, ..self }
            } else {
                self
            },
            _ => self,
        }
    }

    /// The stores once the upload has ended: a transaction that is still
    /// open is given up, and with it the row.
    pub open spec fn abandoned(self) -> Stores {
        Stores { transaction_open: false, ..self }
    }
}

/// An upload together with what the stores hold of it.
pub struct UploadRun {
    pub state: UploadState,
    pub stores: Stores,
}

impl UploadRun {
    /// The run right after the note's row was inserted.
    pub open spec fn initial() -> UploadRun {
        UploadRun { state: UploadState::initial(), stores: Stores::initial() }
    }

    /// The run after the due step was tried.
    pub open spec fn next(self, succeeded: bool) -> UploadRun {
        let state = self.state.next(succeeded);
        let stores = self.stores.after_step(self.state.step, succeeded);
        UploadRun {
            state,
            stores: if state.step is Done {
                stores.abandoned()
            } else {
                stores
            },
        }
    }

    /// The run after a sequence of outcomes, one for each step that came due.
    pub open spec fn after(self, outcomes: Seq<bool>) -> UploadRun
        decreases outcomes.len(),
    {
        if outcomes.len() == 0 {
            self
        } else {
            self.after(outcomes.drop_last()).next(outcomes.last())
        }
    }

    /// What holds of every run that starts with the insert: how the step
    /// that is due and the stores go together.
    pub open spec fn consistent(self) -> bool {
        let step = self.state.step;
        &&& self.stores.note_visible <==> step == UploadStep::Done(UploadOutcome::Created)
        &&& self.stores.transaction_open <==> !(step is Done || step is RemoveFiles)
        &&& (step is RenderPreview || step is MarkPreview || step is Commit || step
            == UploadStep::Done(UploadOutcome::Created)) ==> self.stores.file_stored
        &&& self.state.has_preview_image ==> (step is MarkPreview || step is Commit || step
            is RemoveFiles || step == UploadStep::Done(UploadOutcome::Created) || step
            == UploadStep::Done(UploadOutcome::CommitFailed))
        &&& self.state.has_preview_image && !(step is Done && step != UploadStep::Done(
            UploadOutcome::Created,
        )) && !(step is RemoveFiles) ==> self.stores.preview_stored
    }

    /// Whether the write of the file has failed: the steps that only come
    /// due after that.
    pub open spec fn write_failed(self) -> bool {
        ||| self.state.step is Rollback
        ||| self.state.step == UploadStep::Done(UploadOutcome::WriteFailed)
        ||| self.state.step == UploadStep::Done(UploadOutcome::RollbackFailed)
    }
}

/// One more outcome takes a run one step further.
pub proof fn lemma_run_unfold(run: UploadRun, outcomes: Seq<bool>, k: int)
    requires
        0 <= k < outcomes.len(),
    ensures
        run.after(outcomes.take(k + 1)) == run.after(outcomes.take(k)).next(outcomes[k]),
{
    assert(outcomes.take(k + 1).drop_last() =~= outcomes.take(k));
}

/// Every run that starts with the insert is consistent, whatever the
/// outcomes of its steps.
pub proof fn lemma_run_consistent(outcomes: Seq<bool>)
    ensures
        UploadRun::initial().after(outcomes).consistent(),
    decreases outcomes.len(),
{
    if outcomes.len() > 0 {
        lemma_run_consistent(outcomes.drop_last());
    }
}

/// Upload visibility. At every point of an upload, whatever the outcomes of
/// its steps: readers find the note exactly when the upload has ended in
/// success, never while a step is due and never after a failure. A note that
/// they find has its file in place, and its preview too where the note says
/// that it has one.
pub proof fn lemma_upload_visibility(outcomes: Seq<bool>)
    ensures
        ({
            let run = UploadRun::initial().after(outcomes);
            &&& run.stores.note_visible <==> run.state.step == UploadStep::Done(
                UploadOutcome::Created,
            )
            &&& run.stores.note_visible ==> run.stores.file_stored
            &&& run.stores.note_visible && run.state.has_preview_image
                ==> run.stores.preview_stored
            &&& run.state.step is Done ==> !run.stores.transaction_open
        }),
{
    lemma_run_consistent(outcomes);
}

/// Once the write of the file has failed, it stays so.
proof fn lemma_write_failed_stays(outcomes: Seq<bool>, k: int)
    requires
        0 <= k <= outcomes.len(),
        UploadRun::initial().after(outcomes.take(k)).write_failed(),
    ensures
        UploadRun::initial().after(outcomes).write_failed(),
    decreases outcomes.len() - k,
{
    if k < outcomes.len() {
        lemma_run_unfold(UploadRun::initial(), outcomes, k);
        lemma_write_failed_stays(outcomes, k + 1);
    } else {
        assert(outcomes.take(k) =~= outcomes);
    }
}

/// Upload atomicity. Where the write of the file fails, at whatever point
/// of the run it came due, the note's row is never committed: it is not
/// visible when the upload ends nor at any point after the failure, and the
/// upload does not end in success.
pub proof fn lemma_upload_atomicity(outcomes: Seq<bool>, k: int)
    requires
        0 <= k < outcomes.len(),
        UploadRun::initial().after(outcomes.take(k)).state.step is WriteFile,
        !outcomes[k],
    ensures
        !UploadRun::initial().after(outcomes).stores.note_visible,
        UploadRun::initial().after(outcomes).state.step != UploadStep::Done(
            UploadOutcome::Created,
        ),
        UploadRun::initial().after(outcomes).state.step is Done ==> UploadRun::initial().after(
            outcomes,
        ).state.step->0.failure() is Some,
{
    lemma_run_unfold(UploadRun::initial(), outcomes, k);
    lemma_write_failed_stays(outcomes, k + 1);
    lemma_run_consistent(outcomes);
}

/// An upload that has ended stays as it is.
proof fn lemma_done_stays(outcomes: Seq<bool>, k: int)
    requires
        0 <= k <= outcomes.len(),
        UploadRun::initial().after(outcomes.take(k)).state.step is Done,
    ensures
        UploadRun::initial().after(outcomes).state == UploadRun::initial().after(
            outcomes.take(k),
        ).state,
    decreases outcomes.len() - k,
{
    if k < outcomes.len() {
        lemma_run_unfold(UploadRun::initial(), outcomes, k);
        lemma_done_stays(outcomes, k + 1);
    } else {
        assert(outcomes.take(k) =~= outcomes);
    }
}

/// Preview best-effort. Where rendering the preview fails and the commit
/// that follows succeeds, the upload ends in success with a note that says
/// it has no preview image.
pub proof fn lemma_preview_best_effort(outcomes: Seq<bool>, k: int)
    requires
        0 <= k,
        k + 1 < outcomes.len(),
        UploadRun::initial().after(outcomes.take(k)).state.step is RenderPreview,
        !outcomes[k],
        outcomes[k + 1],
    ensures
        UploadRun::initial().after(outcomes).state == (UploadState {
            step: UploadStep::Done(UploadOutcome::Created),
            has_preview_image: false,
        }),
        UploadRun::initial().after(outcomes).stores.note_visible,
{
    lemma_run_consistent(outcomes.take(k));
    lemma_run_unfold(UploadRun::initial(), outcomes, k);
    lemma_run_unfold(UploadRun::initial(), outcomes, k + 1);
    lemma_done_stays(outcomes, k + 2);
    lemma_run_consistent(outcomes);
}

/// The second directory comes due right after the first was made.
proof fn lemma_directories_first(outcomes: Seq<bool>)
    ensures
        UploadRun::initial().after(outcomes).state.step is EnsurePreviewsDirectory ==> outcomes
            == seq![true],
        UploadRun::initial().after(outcomes).state.step is EnsureNotesDirectory
            ==> outcomes.len() == 0,
    decreases outcomes.len(),
{
    if outcomes.len() > 0 {
        let before = outcomes.drop_last();
        lemma_directories_first(before);
        if UploadRun::initial().after(outcomes).state.step is EnsurePreviewsDirectory {
            assert(UploadRun::initial().after(before).state.step is EnsureNotesDirectory);
            assert(outcomes =~= seq![true]);
        }
    }
}

/// The write of the file comes due only after both directories were made,
/// and every failure before the commit ends the upload without one.
pub proof fn lemma_upload_order(outcomes: Seq<bool>)
    ensures
        ({
            let run = UploadRun::initial().after(outcomes);
            &&& run.state.step is WriteFile ==> outcomes == seq![true, true]
            &&& run.state.step is Commit ==> run.stores.file_stored
                && run.stores.transaction_open
            &&& run.state.step == UploadStep::Done(UploadOutcome::CommitFailed)
                ==> !run.stores.note_visible
        }),
    decreases outcomes.len(),
{
    lemma_run_consistent(outcomes);
    if outcomes.len() > 0 {
        let before = outcomes.drop_last();
        lemma_upload_order(before);
        lemma_run_consistent(before);
        let run = UploadRun::initial().after(before);
        if UploadRun::initial().after(outcomes).state.step is WriteFile {
            assert(run.state.step is EnsurePreviewsDirectory);
            lemma_directories_first(before);
            assert(outcomes =~= seq![true, true]);
        }
    }
}

} // verus!
