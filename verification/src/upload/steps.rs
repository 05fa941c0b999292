//! The orchestrator of an upload: which piece of outside work is due, and
//! what follows when it succeeds or fails. The program around the library
//! does the work and reports each outcome.

use crate::errors::{NoteError, NoteErrorView};
use crate::models::{Note, ResponseNote, ResponseUser, User};
use crate::paths::{
    note_file_name, note_file_name_text, preview_file_name, preview_file_name_text, Paths,
};
use crate::text::{trim_end_matches, without_suffixes};
use vstd::prelude::*;

verus! {

/// How an upload ended.
#[derive(Clone, Copy, Debug, PartialEq, Eq)]
pub enum UploadOutcome {
    /// The note is stored and its file is in place.
    Created,
    /// The directory for documents could not be made.
    NotesDirectoryFailed,
    /// The directory for previews could not be made.
    PreviewsDirectoryFailed,
    /// The file could not be written; the note was rolled back.
    WriteFailed,
    /// The file could not be written, and the rollback failed too.
    RollbackFailed,
    /// The note could not be committed; the files were removed.
    CommitFailed,
}

/// What the orchestrator asks to be done next. Each step but `Done` is one
/// piece of outside work, which either succeeds or fails.
#[derive(Clone, Copy, Debug, PartialEq, Eq)]
pub enum UploadStep {
    /// Make the directory for documents, if it is not there.
    EnsureNotesDirectory,
    /// Make the directory for previews, if it is not there.
    EnsurePreviewsDirectory,
    /// Write the document to its path.
    WriteFile,
    /// Render the preview image from the document.
    RenderPreview,
    /// Set the note's preview flag, inside the open transaction.
    MarkPreview,
    /// Commit the transaction.
    Commit,
    /// Roll the transaction back.
    Rollback,
    /// Remove the document and the preview image.
    RemoveFiles,
    /// Nothing is left to do.
    Done(UploadOutcome),
}

/// The step that comes due after `step` succeeded or failed.
///
/// A directory that cannot be made ends the upload. A file that cannot be
/// written leads to a rollback. A preview that cannot be rendered is passed
/// over. A failed commit leads to the removal of the files, whose own
/// outcome changes nothing, as does that of marking the preview.
pub open spec fn following_step(step: UploadStep, succeeded: bool) -> UploadStep {
    match step {
        UploadStep::EnsureNotesDirectory => if succeeded {
            UploadStep::EnsurePreviewsDirectory
        } else {
            UploadStep::Done(UploadOutcome::NotesDirectoryFailed)
        },
        UploadStep::EnsurePreviewsDirectory => if succeeded {
            UploadStep::WriteFile
        } else {
            UploadStep::Done(UploadOutcome::PreviewsDirectoryFailed)
        },
        UploadStep::WriteFile => if succeeded {
            UploadStep::RenderPreview
        } else {
            UploadStep::Rollback
        },
        UploadStep::RenderPreview => if succeeded {
            UploadStep::MarkPreview
        } else {
            UploadStep::Commit
        },
        UploadStep::MarkPreview => UploadStep::Commit,
        UploadStep::Commit => if succeeded {
            UploadStep::Done(UploadOutcome::Created)
        } else {
            UploadStep::RemoveFiles
        },
        UploadStep::Rollback => if succeeded {
            UploadStep::Done(UploadOutcome::WriteFailed)
        } else {
            UploadStep::Done(UploadOutcome::RollbackFailed)
        },
        UploadStep::RemoveFiles => UploadStep::Done(UploadOutcome::CommitFailed),
        UploadStep::Done(outcome) => UploadStep::Done(outcome),
    }
}

/// Where an upload stands: the step that is due, and whether a preview
/// image has been rendered for the note.
pub struct UploadState {
    pub step: UploadStep,
    pub has_preview_image: bool,
}

impl UploadState {
    /// The state right after the note's row was inserted in an open
    /// transaction.
    pub open spec fn initial() -> UploadState {
        UploadState { step: UploadStep::EnsureNotesDirectory, has_preview_image: false }
    }

    /// The state after the due step was tried and succeeded or failed. A
    /// preview that was rendered is marked on the note, whether or not the
    /// store takes the mark afterwards.
    pub open spec fn next(self, succeeded: bool) -> UploadState {
        UploadState {
            step: following_step(self.step, succeeded),
            has_preview_image: self.has_preview_image || (self.step is RenderPreview
                && succeeded),
        }
    }

    /// The state after a run of outcomes, one for each step that came due.
    pub open spec fn after(self, outcomes: Seq<bool>) -> UploadState
        decreases outcomes.len(),
    {
        if outcomes.len() == 0 {
            self
        } else {
            self.after(outcomes.drop_last()).next(outcomes.last())
        }
    }
}

impl UploadOutcome {
    /// The failure that an outcome is reported as, if it is one.
    pub open spec fn failure(self) -> Option<NoteErrorView> {
        match self {
            UploadOutcome::Created => None,
            UploadOutcome::NotesDirectoryFailed => Some(
                NoteErrorView::UploadFailed("Failed to create upload directory"@),
            ),
            UploadOutcome::PreviewsDirectoryFailed => Some(
                NoteErrorView::UploadFailed("Failed to create preview directory"@),
            ),
            UploadOutcome::WriteFailed => Some(NoteErrorView::UploadFailed("Failed to save file"@)),
            UploadOutcome::RollbackFailed => Some(
                NoteErrorView::UploadFailed("Failed to rollback database"@),
            ),
            UploadOutcome::CommitFailed => Some(
                NoteErrorView::UploadFailed("Failed to save note to database"@),
            ),
        }
    }

    /// The failure that this outcome is reported as; none for a created note.
    pub fn into_failure(self) -> (r: Option<NoteError>)
        ensures
            match r {
                Some(e) => self.failure() == Some(e@),
                None => self.failure() is None,
            },
    {
        match self {
            UploadOutcome::Created => None,
            UploadOutcome::NotesDirectoryFailed => Some(
                NoteError::UploadFailed(String::from_str("Failed to create upload directory")),
            ),
            UploadOutcome::PreviewsDirectoryFailed => Some(
                NoteError::UploadFailed(String::from_str("Failed to create preview directory")),
            ),
            UploadOutcome::WriteFailed => Some(
                NoteError::UploadFailed(String::from_str("Failed to save file")),
            ),
            UploadOutcome::RollbackFailed => Some(
                NoteError::UploadFailed(String::from_str("Failed to rollback database")),
            ),
            UploadOutcome::CommitFailed => Some(
                NoteError::UploadFailed(String::from_str("Failed to save note to database")),
            ),
        }
    }
}

/// The step that follows `step` on a success or a failure.
pub fn next_step(step: UploadStep, succeeded: bool) -> (r: UploadStep)
    ensures
        r == following_step(step, succeeded),
{
    match step {
        UploadStep::EnsureNotesDirectory => if succeeded {
            UploadStep::EnsurePreviewsDirectory
        } else {
            UploadStep::Done(UploadOutcome::NotesDirectoryFailed)
        },
        UploadStep::EnsurePreviewsDirectory => if succeeded {
            UploadStep::WriteFile
        } else {
            UploadStep::Done(UploadOutcome::PreviewsDirectoryFailed)
        },
        UploadStep::WriteFile => if succeeded {
            UploadStep::RenderPreview
        } else {
            UploadStep::Rollback
        },
        UploadStep::RenderPreview => if succeeded {
            UploadStep::MarkPreview
        } else {
            UploadStep::Commit
        },
        UploadStep::MarkPreview => UploadStep::Commit,
        UploadStep::Commit => if succeeded {
            UploadStep::Done(UploadOutcome::Created)
        } else {
            UploadStep::RemoveFiles
        },
        UploadStep::Rollback => if succeeded {
            UploadStep::Done(UploadOutcome::WriteFailed)
        } else {
            UploadStep::Done(UploadOutcome::RollbackFailed)
        },
        UploadStep::RemoveFiles => UploadStep::Done(UploadOutcome::CommitFailed),
        UploadStep::Done(outcome) => UploadStep::Done(outcome),
    }
}

/// The arguments for the renderer that draws the first page of the document
/// at `pdf_path` as a JPEG image 800 pixels wide: the renderer is given the
/// image's path without the ending `.jpg`, which it adds itself.
pub open spec fn render_arguments_text(pdf_path: Seq<char>, preview_path: Seq<char>) -> Seq<
    Seq<char>,
> {
    seq![
        "-singlefile"@,
        "-jpeg"@,
        "-scale-to-x"@,
        "800"@,
        "-scale-to-y"@,
        "-1"@,
        pdf_path,
        without_suffixes(preview_path, ".jpg"@),
    ]
}

/// Makes the arguments for the preview renderer.
pub fn render_arguments(pdf_path: &str, preview_path: &str) -> (arguments: Vec<String>)
    ensures
        arguments.deep_view() == render_arguments_text(pdf_path@, preview_path@),
{
    let mut arguments: Vec<String> = Vec::new();
    arguments.push(String::from_str("-singlefile"));
    arguments.push(String::from_str("-jpeg"));
    arguments.push(String::from_str("-scale-to-x"));
    arguments.push(String::from_str("800"));
    arguments.push(String::from_str("-scale-to-y"));
    arguments.push(String::from_str("-1"));
    arguments.push(String::from_str(pdf_path));
    arguments.push(String::from_str(trim_end_matches(preview_path, ".jpg")));
    assert(arguments.deep_view() =~= render_arguments_text(pdf_path@, preview_path@));
    arguments
}

/// An upload under way: the note as it will be shown, where its files go,
/// and the step that is due.
#[derive(Clone, Debug, PartialEq, Eq)]
pub struct UploadJob {
    pub step: UploadStep,
    pub note: ResponseNote,
    pub notes_dir: String,
    pub previews_dir: String,
    pub file_path: String,
    pub preview_path: String,
}

impl UploadJob {
    /// A freshly stored note as it is shown to its uploader: no votes, no
    /// downloads, no preview yet.
    pub open spec fn fresh_response(
        note: Note,
        user: User,
        file_url: String,
        preview_image_url: String,
    ) -> ResponseNote {
        ResponseNote {
            id: note.id,
            course_name: note.course_name,
            course_code: note.course_code,
            description: note.description,
            professor_names: note.professor_names,
            tags: note.tags,
            is_public: note.is_public,
            has_preview_image: false,
            preview_image_url,
            file_url,
            uploader_user: ResponseUser {
                id: user.id,
                google_id: user.google_id,
                email: user.email,
                full_name: user.full_name,
                created_at: user.created_at,
            },
            created_at: note.created_at,
            upvotes: 0,
            downvotes: 0,
            user_vote: None,
            downloads: 0,
            year: note.note_year,
            semester: note.note_semester,
        }
    }

    /// Where the upload stands.
    pub open spec fn state(self) -> UploadState {
        UploadState { step: self.step, has_preview_image: self.note.has_preview_image }
    }

    /// Sets up the upload of a note whose row was just inserted, from the
    /// addresses and paths made for it. The first step is due.
    pub fn start(
        note: Note,
        user: &User,
        file_url: String,
        preview_image_url: String,
        notes_dir: String,
        previews_dir: String,
        file_path: String,
        preview_path: String,
    ) -> (job: UploadJob)
        ensures
            job == (UploadJob {
                step: UploadStep::EnsureNotesDirectory,
                note: Self::fresh_response(note, *user, file_url, preview_image_url),
                notes_dir,
                previews_dir,
                file_path,
                preview_path,
            }),
            job.state() == UploadState::initial(),
    {
        UploadJob {
            step: UploadStep::EnsureNotesDirectory,
            note: ResponseNote {
                id: note.id,
                course_name: note.course_name,
                course_code: note.course_code,
                description: note.description,
                professor_names: note.professor_names,
                tags: note.tags,
                is_public: note.is_public,
                has_preview_image: false,
                preview_image_url,
                file_url,
                uploader_user: ResponseUser::from_user(user),
                created_at: note.created_at,
                upvotes: 0,
                downvotes: 0,
                user_vote: None,
                downloads: 0,
                year: note.note_year,
                semester: note.note_semester,
            },
            notes_dir,
            previews_dir,
            file_path,
            preview_path,
        }
    }

    /// Sets up the upload of a note whose row was just inserted: names its
    /// two files after its identifier and makes their paths and addresses.
    /// Gives nothing where an address cannot be made from the server's
    /// address.
    pub fn begin(paths: &Paths, user: &User, note: Note) -> (r: Option<UploadJob>)
        ensures
            match r {
                Some(job) => {
                    &&& paths@.url_from_slug(paths@.note_slug(note_file_name_text(note.id)))
                        == Some(job.note.file_url@)
                    &&& paths@.url_from_slug(paths@.preview_slug(preview_file_name_text(note.id)))
                        == Some(job.note.preview_image_url@)
                    &&& job.note == Self::fresh_response(
                        note,
                        *user,
                        job.note.file_url,
                        job.note.preview_image_url,
                    )
                    &&& job.step == UploadStep::EnsureNotesDirectory
                    &&& job.notes_dir@ == paths@.notes_system_path
                    &&& job.previews_dir@ == paths@.previews_system_path
                    &&& job.file_path@ == paths@.note_path(note_file_name_text(note.id))
                    &&& job.preview_path@ == paths@.preview_path(preview_file_name_text(note.id))
                },
                None => {
                    ||| paths@.url_from_slug(paths@.note_slug(note_file_name_text(note.id)))
                        is None
                    ||| paths@.url_from_slug(paths@.preview_slug(preview_file_name_text(note.id)))
                        is None
                },
            },
    {
        let file_name = note_file_name(note.id);
        let preview_name = preview_file_name(note.id);
        let file_url = match paths.get_note_url(file_name.as_str()) {
            Ok(url) => url,
            Err(_) => {
                return None;
            },
        };
        let preview_image_url = match paths.get_preview_url(preview_name.as_str()) {
            Ok(url) => url,
            Err(_) => {
                return None;
            },
        };
        let file_path = paths.get_note_path(file_name.as_str());
        let preview_path = paths.get_preview_path(preview_name.as_str());
        Some(
            Self::start(
                note,
                user,
                file_url,
                preview_image_url,
                String::from_str(paths.get_notes_dir()),
                String::from_str(paths.get_previews_dir()),
                file_path,
                preview_path,
            ),
        )
    }

    /// Takes the outcome of the step that was due and returns the step that
    /// is due now. Only the step and the note's preview flag change.
    pub fn advance(&mut self, succeeded: bool) -> (step: UploadStep)
        ensures
            final(self).state() == old(self).state().next(succeeded),
            step == final(self).step,
            *final(self) == (UploadJob {
                step: final(self).step,
                note: ResponseNote {
                    has_preview_image: final(self).note.has_preview_image,
                    ..old(self).note
                },
                ..*old(self)
            }),
    {
        if succeeded {
            if let UploadStep::RenderPreview = self.step {
                self.note.has_preview_image = true;
            }
        }
        self.step = next_step(self.step, succeeded);
        self.step
    }

    /// The answer of a finished upload: the note where it was created, the
    /// failure where it was not. Gives nothing while a step is due.
    pub fn finish(self) -> (r: Option<Result<ResponseNote, NoteError>>)
        ensures
            match r {
                None => !(self.step is Done),
                Some(Ok(note)) => self.step == UploadStep::Done(UploadOutcome::Created) && note
                    == self.note,
                Some(Err(e)) => self.step matches UploadStep::Done(outcome) && outcome.failure()
                    == Some(e@),
            },
    {
        match self.step {
            UploadStep::Done(outcome) => match outcome.into_failure() {
                None => Some(Ok(self.note)),
                Some(e) => Some(Err(e)),
            },
            _ => None,
        }
    }
}

} // verus!
