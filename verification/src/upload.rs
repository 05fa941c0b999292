//! The upload of a note: the form that a request carries, the checks on it,
//! and the order in which the store, the files and the preview are touched,
//! so that a note is kept whole or not at all.

pub mod form;
pub mod laws;
pub mod steps;

pub use self::form::{
    CreateNoteView, DEFAULT_YEAR, UploadForm, UploadFormView, check_file_type, file_type_rejection,
    optional_bytes, optional_str, optional_text, optional_texts, size_limit_bytes, too_big_text,
    unreadable_field, unreadable_field_text, unreadable_file,
};
pub use self::laws::{
    Stores, UploadRun, lemma_preview_best_effort, lemma_run_consistent, lemma_run_unfold,
    lemma_upload_atomicity, lemma_upload_order, lemma_upload_visibility,
};
pub use self::steps::{
    UploadJob, UploadOutcome, UploadState, UploadStep, following_step, next_step, render_arguments,
    render_arguments_text,
};
