use notes_core::errors::NoteError;
use notes_core::models::{CreateNote, Note, ResponseUser, User};
use notes_core::paths::Paths;
use notes_core::upload::{
    check_file_type, next_step, render_arguments, unreadable_field, unreadable_file, UploadForm,
    UploadJob, UploadOutcome, UploadStep, DEFAULT_YEAR,
};

fn invalid(message: &str) -> NoteError {
    NoteError::InvalidData(message.to_string())
}

fn failed(message: &str) -> NoteError {
    NoteError::UploadFailed(message.to_string())
}

fn filled_form() -> UploadForm {
    let mut form = UploadForm::new();
    form.accept_text("course_name", "Algorithms".to_string()).unwrap();
    form.accept_text("course_code", "CS101".to_string()).unwrap();
    form.accept_file(b"%PDF-1.4\n%".to_vec(), 1).unwrap();
    form
}

fn uploader() -> User {
    User {
        id: 7,
        google_id: "g-7".to_string(),
        email: "a@example.org".to_string(),
        full_name: "User A".to_string(),
        created_at: 1_000,
        picture: "https://pics.example.org/7".to_string(),
    }
}

fn stored_note() -> Note {
    Note {
        id: 0x0123456789abcdef0123456789abcdef,
        course_name: "Algorithms".to_string(),
        course_code: "CS101".to_string(),
        description: Some("first lecture".to_string()),
        professor_names: None,
        tags: vec!["graphs".to_string()],
        is_public: true,
        has_preview_image: false,
        uploader_user_id: 7,
        created_at: 2_000,
        downloads: 0,
        note_year: 2025,
        note_semester: "Autumn".to_string(),
    }
}

fn run_upload(outcomes: &[bool]) -> (UploadJob, Vec<UploadStep>) {
    let paths = Paths::new("https://static.example.org", "/srv/static", "notes/uploaded", "previews/uploaded").unwrap();
    let mut job = UploadJob::begin(&paths, &uploader(), stored_note()).unwrap();
    let mut steps = vec![job.step];
    let mut given = outcomes.iter();
    while !matches!(job.step, UploadStep::Done(_)) {
        let outcome = *given.next().unwrap();
        steps.push(job.advance(outcome));
    }
    assert!(given.next().is_none());
    (job, steps)
}

#[test]
fn a_new_form_has_the_defaults() {
    let form = UploadForm::new();
    assert_eq!(form.course_name, "");
    assert_eq!(form.course_code, "");
    assert_eq!(form.description, None);
    assert_eq!(form.professor_names, None);
    assert!(form.tags.is_empty());
    assert_eq!(form.file_data, None);
    assert_eq!(form.year, 2025);
    assert_eq!(DEFAULT_YEAR, 2025);
    assert_eq!(form.semester, "Autumn");
}

#[test]
fn file_type_must_be_pdf() {
    assert_eq!(check_file_type(Some("application/pdf")), Ok(()));
    assert_eq!(check_file_type(Some("image/png")), Err(invalid("Only PDF files are supported")));
    assert_eq!(check_file_type(Some("application/pdf; charset=x")), Err(invalid("Only PDF files are supported")));
    assert_eq!(check_file_type(Some("")), Err(invalid("Only PDF files are supported")));
    assert_eq!(
        check_file_type(None),
        Err(invalid("Content-type header not found. File type could not be determined"))
    );
}

#[test]
fn unreadable_parts_are_upload_failures() {
    assert_eq!(unreadable_file(), failed("Failed to read file bytes"));
    assert_eq!(unreadable_field("tags"), failed("Invalid format for field: tags"));
}

#[test]
fn a_file_above_the_limit_is_refused() {
    let mut form = UploadForm::new();
    let at_limit = vec![0u8; 1 << 20];
    assert_eq!(form.accept_file(at_limit.clone(), 1), Ok(()));
    assert_eq!(form.file_data, Some(at_limit));
    let mut form = UploadForm::new();
    let above = vec![0u8; (1 << 20) + 1];
    assert_eq!(
        form.accept_file(above, 1),
        Err(invalid("File size too big. Only files up to 1 MiB are allowed."))
    );
    assert_eq!(form, UploadForm::new());
    let mut form = UploadForm::new();
    assert_eq!(
        form.accept_file(vec![1u8], 0),
        Err(invalid("File size too big. Only files up to 0 MiB are allowed."))
    );
    assert_eq!(form.accept_file(Vec::new(), 0), Ok(()));
    let mut form = UploadForm::new();
    assert_eq!(
        form.accept_file(vec![0u8; (10 << 20) + 1], 10),
        Err(invalid("File size too big. Only files up to 10 MiB are allowed."))
    );
}

#[test]
fn text_fields_fill_the_form() {
    let mut form = UploadForm::new();
    form.accept_text("course_name", " Algorithms ".to_string()).unwrap();
    form.accept_text("course_code", "CS101".to_string()).unwrap();
    form.accept_text("description", " intro ".to_string()).unwrap();
    form.accept_text("professor_names", " A. Turing , , G. Hopper".to_string()).unwrap();
    form.accept_text("tags", "graphs, ,sorting ".to_string()).unwrap();
    form.accept_text("year", " 2023 ".to_string()).unwrap();
    form.accept_text("semester", " Spring ".to_string()).unwrap();
    form.accept_text("something_else", "ignored".to_string()).unwrap();
    form.accept_text("file", "ignored".to_string()).unwrap();
    assert_eq!(form.course_name, " Algorithms ");
    assert_eq!(form.course_code, "CS101");
    assert_eq!(form.description, Some(" intro ".to_string()));
    assert_eq!(form.professor_names, Some(vec!["A. Turing".to_string(), "G. Hopper".to_string()]));
    assert_eq!(form.tags, vec!["graphs".to_string(), "sorting".to_string()]);
    assert_eq!(form.year, 2023);
    assert_eq!(form.semester, "Spring");
    assert_eq!(form.file_data, None);
}

#[test]
fn blank_fields_leave_what_was_there() {
    let mut form = UploadForm::new();
    form.accept_text("description", "kept".to_string()).unwrap();
    form.accept_text("description", "  \t".to_string()).unwrap();
    assert_eq!(form.description, Some("kept".to_string()));
    form.accept_text("professor_names", "A".to_string()).unwrap();
    form.accept_text("professor_names", " , ".to_string()).unwrap();
    assert_eq!(form.professor_names, Some(vec!["A".to_string()]));
    form.accept_text("semester", "Spring".to_string()).unwrap();
    form.accept_text("semester", "   ".to_string()).unwrap();
    assert_eq!(form.semester, "Spring");
    form.accept_text("tags", "a,b".to_string()).unwrap();
    form.accept_text("tags", "".to_string()).unwrap();
    assert!(form.tags.is_empty());
}

#[test]
fn a_year_that_is_no_number_is_refused() {
    let mut form = UploadForm::new();
    assert_eq!(form.accept_text("year", "next".to_string()), Err(invalid("Invalid year")));
    assert_eq!(form.accept_text("year", "".to_string()), Err(invalid("Invalid year")));
    assert_eq!(form.accept_text("year", "-2024".to_string()), Err(invalid("Invalid year")));
    assert_eq!(form.accept_text("year", "20 24".to_string()), Err(invalid("Invalid year")));
    assert_eq!(form, UploadForm::new());
    assert_eq!(form.accept_text("year", "+2024".to_string()), Ok(()));
    assert_eq!(form.year, 2024);
}

#[test]
fn a_complete_form_becomes_a_note() {
    let form = filled_form();
    let (note, bytes) = form.into_note(7, 123).unwrap();
    assert_eq!(
        note,
        CreateNote {
            course_name: "Algorithms".to_string(),
            course_code: "CS101".to_string(),
            description: None,
            professor_names: None,
            tags: Vec::new(),
            has_preview_image: false,
            uploader_user_id: 7,
            timestamp: 123,
            note_year: 2025,
            note_semester: "Autumn".to_string(),
        }
    );
    assert_eq!(bytes, b"%PDF-1.4\n%".to_vec());
}

#[test]
fn the_form_is_checked_in_order() {
    let form = UploadForm::new();
    assert_eq!(form.into_note(1, 1), Err(invalid("Course name is required")));

    let mut form = UploadForm::new();
    form.accept_text("course_name", "  \n".to_string()).unwrap();
    form.accept_text("course_code", "CS101".to_string()).unwrap();
    assert_eq!(form.into_note(1, 1), Err(invalid("Course name is required")));

    let mut form = UploadForm::new();
    form.accept_text("course_name", "Algorithms".to_string()).unwrap();
    form.accept_text("semester", "Winter".to_string()).unwrap();
    assert_eq!(form.into_note(1, 1), Err(invalid("Course code is required")));

    let mut form = UploadForm::new();
    form.accept_text("course_name", "Algorithms".to_string()).unwrap();
    form.accept_text("course_code", "CS101".to_string()).unwrap();
    form.accept_text("semester", "Winter".to_string()).unwrap();
    assert_eq!(
        form.into_note(1, 1),
        Err(invalid("Semester is required and must be one of: Autumn, Spring"))
    );

    let mut form = UploadForm::new();
    form.accept_text("course_name", "Algorithms".to_string()).unwrap();
    form.accept_text("course_code", "CS101".to_string()).unwrap();
    form.accept_text("semester", "autumn".to_string()).unwrap();
    assert_eq!(
        form.into_note(1, 1),
        Err(invalid("Semester is required and must be one of: Autumn, Spring"))
    );

    let mut form = UploadForm::new();
    form.accept_text("course_name", "Algorithms".to_string()).unwrap();
    form.accept_text("course_code", "CS101".to_string()).unwrap();
    assert_eq!(form.into_note(1, 1), Err(invalid("File not provided")));
}

#[test]
fn a_file_without_bytes_is_no_file() {
    let mut form = UploadForm::new();
    form.accept_text("course_name", "Algorithms".to_string()).unwrap();
    form.accept_text("course_code", "CS101".to_string()).unwrap();
    form.accept_file(Vec::new(), 1).unwrap();
    assert_eq!(form.into_note(1, 1), Err(invalid("File not provided")));
    let mut form = UploadForm::new();
    form.accept_text("course_name", "Algorithms".to_string()).unwrap();
    form.accept_text("course_code", "CS101".to_string()).unwrap();
    form.accept_file(vec![0u8], 1).unwrap();
    assert_eq!(form.into_note(1, 1).map(|(_, bytes)| bytes), Ok(vec![0u8]));
}

#[test]
fn render_arguments_name_the_image_without_its_ending() {
    assert_eq!(
        render_arguments("/srv/notes/a.pdf", "/srv/previews/a.jpg"),
        vec!["-singlefile", "-jpeg", "-scale-to-x", "800", "-scale-to-y", "-1", "/srv/notes/a.pdf", "/srv/previews/a"]
    );
    assert_eq!(render_arguments("a.pdf", "b.png")[7], "b.png");
    assert_eq!(render_arguments("a.pdf", "b.jpg.jpg")[7], "b");
}

#[test]
fn begin_names_files_after_the_note() {
    let paths = Paths::new("https://static.example.org", "/srv/static", "notes/uploaded", "previews/uploaded").unwrap();
    let job = UploadJob::begin(&paths, &uploader(), stored_note()).unwrap();
    assert_eq!(job.step, UploadStep::EnsureNotesDirectory);
    assert_eq!(job.notes_dir, "/srv/static/notes/uploaded");
    assert_eq!(job.previews_dir, "/srv/static/previews/uploaded");
    assert_eq!(job.file_path, "/srv/static/notes/uploaded/01234567-89ab-cdef-0123-456789abcdef.pdf");
    assert_eq!(job.preview_path, "/srv/static/previews/uploaded/01234567-89ab-cdef-0123-456789abcdef.jpg");
    assert_eq!(job.note.file_url, "https://static.example.org/notes/uploaded/01234567-89ab-cdef-0123-456789abcdef.pdf");
    assert_eq!(job.note.preview_image_url, "https://static.example.org/previews/uploaded/01234567-89ab-cdef-0123-456789abcdef.jpg");
    assert_eq!(job.note.id, 0x0123456789abcdef0123456789abcdef);
    assert_eq!(job.note.course_name, "Algorithms");
    assert_eq!(job.note.course_code, "CS101");
    assert_eq!(job.note.description, Some("first lecture".to_string()));
    assert_eq!(job.note.tags, vec!["graphs".to_string()]);
    assert!(job.note.is_public);
    assert!(!job.note.has_preview_image);
    assert_eq!((job.note.upvotes, job.note.downvotes, job.note.downloads), (0, 0, 0));
    assert_eq!(job.note.user_vote, None);
    assert_eq!(job.note.year, 2025);
    assert_eq!(job.note.semester, "Autumn");
    assert_eq!(job.note.created_at, 2_000);
    assert_eq!(
        job.note.uploader_user,
        ResponseUser {
            id: 7,
            google_id: "g-7".to_string(),
            email: "a@example.org".to_string(),
            full_name: "User A".to_string(),
            created_at: 1_000,
        }
    );
    assert_eq!(job.clone().finish(), None);
}

#[test]
fn begin_gives_nothing_without_an_address() {
    let paths = Paths::new("mailto:x@example.org", "/srv/static", "n", "p").unwrap();
    assert_eq!(UploadJob::begin(&paths, &uploader(), stored_note()), None);
}

#[test]
fn an_upload_with_a_preview_ends_created() {
    let (job, steps) = run_upload(&[true, true, true, true, true, true]);
    assert_eq!(
        steps,
        vec![
            UploadStep::EnsureNotesDirectory,
            UploadStep::EnsurePreviewsDirectory,
            UploadStep::WriteFile,
            UploadStep::RenderPreview,
            UploadStep::MarkPreview,
            UploadStep::Commit,
            UploadStep::Done(UploadOutcome::Created),
        ]
    );
    let note = job.finish().unwrap().unwrap();
    assert!(note.has_preview_image);
    assert_eq!(note.course_code, "CS101");
}

#[test]
fn a_failed_preview_still_creates_the_note() {
    let (job, steps) = run_upload(&[true, true, true, false, true]);
    assert_eq!(
        steps,
        vec![
            UploadStep::EnsureNotesDirectory,
            UploadStep::EnsurePreviewsDirectory,
            UploadStep::WriteFile,
            UploadStep::RenderPreview,
            UploadStep::Commit,
            UploadStep::Done(UploadOutcome::Created),
        ]
    );
    let note = job.finish().unwrap().unwrap();
    assert!(!note.has_preview_image);
}

#[test]
fn a_mark_that_the_store_refuses_does_not_stop_the_upload() {
    let (job, steps) = run_upload(&[true, true, true, true, false, true]);
    assert_eq!(steps.last(), Some(&UploadStep::Done(UploadOutcome::Created)));
    assert!(job.finish().unwrap().unwrap().has_preview_image);
}

#[test]
fn a_failed_write_rolls_back() {
    let (job, steps) = run_upload(&[true, true, false, true]);
    assert_eq!(
        steps,
        vec![
            UploadStep::EnsureNotesDirectory,
            UploadStep::EnsurePreviewsDirectory,
            UploadStep::WriteFile,
            UploadStep::Rollback,
            UploadStep::Done(UploadOutcome::WriteFailed),
        ]
    );
    assert!(!steps.contains(&UploadStep::Commit));
    assert_eq!(job.finish(), Some(Err(failed("Failed to save file"))));
    let (job, steps) = run_upload(&[true, true, false, false]);
    assert!(!steps.contains(&UploadStep::Commit));
    assert_eq!(job.finish(), Some(Err(failed("Failed to rollback database"))));
}

#[test]
fn a_failed_commit_removes_the_files() {
    for removal in [true, false] {
        let (job, steps) = run_upload(&[true, true, true, true, true, false, removal]);
        assert_eq!(
            &steps[5..],
            &[UploadStep::Commit, UploadStep::RemoveFiles, UploadStep::Done(UploadOutcome::CommitFailed)]
        );
        assert_eq!(job.finish(), Some(Err(failed("Failed to save note to database"))));
    }
}

#[test]
fn a_directory_that_cannot_be_made_ends_the_upload() {
    let (job, steps) = run_upload(&[false]);
    assert_eq!(steps, vec![UploadStep::EnsureNotesDirectory, UploadStep::Done(UploadOutcome::NotesDirectoryFailed)]);
    assert_eq!(job.finish(), Some(Err(failed("Failed to create upload directory"))));
    let (job, steps) = run_upload(&[true, false]);
    assert_eq!(steps.last(), Some(&UploadStep::Done(UploadOutcome::PreviewsDirectoryFailed)));
    assert_eq!(job.finish(), Some(Err(failed("Failed to create preview directory"))));
}

#[test]
fn a_finished_upload_stays_finished() {
    for outcome in [
        UploadOutcome::Created,
        UploadOutcome::NotesDirectoryFailed,
        UploadOutcome::PreviewsDirectoryFailed,
        UploadOutcome::WriteFailed,
        UploadOutcome::RollbackFailed,
        UploadOutcome::CommitFailed,
    ] {
        assert_eq!(next_step(UploadStep::Done(outcome), true), UploadStep::Done(outcome));
        assert_eq!(next_step(UploadStep::Done(outcome), false), UploadStep::Done(outcome));
    }
    assert_eq!(UploadOutcome::Created.into_failure(), None);
    assert_eq!(UploadOutcome::WriteFailed.into_failure(), Some(failed("Failed to save file")));
}

#[test]
fn no_run_commits_after_a_failed_write() {
    // Every run of up to seven outcomes, driven to its end.
    for bits in 0u32..128 {
        let outcomes: Vec<bool> = (0..7).map(|i| bits & (1 << i) != 0).collect();
        let mut step = UploadStep::EnsureNotesDirectory;
        let mut write_failed = false;
        let mut committed = false;
        for outcome in outcomes {
            if step == UploadStep::WriteFile && !outcome {
                write_failed = true;
            }
            if step == UploadStep::Commit {
                assert!(!write_failed);
                committed = committed || outcome;
            }
            step = next_step(step, outcome);
            assert_eq!(committed, step == UploadStep::Done(UploadOutcome::Created));
        }
        assert!(matches!(step, UploadStep::Done(_)));
    }
}
