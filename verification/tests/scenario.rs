use notes_core::errors::NoteError;
use notes_core::models::{DBVote, Note, User};
use notes_core::notes::note_with_user;
use notes_core::paths::Paths;
use notes_core::upload::{check_file_type, UploadForm, UploadJob, UploadStep};
use notes_core::votes::{count_votes, vote, VoteRequest};

fn account(id: u128, name: &str) -> User {
    User {
        id,
        google_id: format!("g-{}", id),
        email: format!("{}@example.org", name),
        full_name: name.to_string(),
        created_at: 1,
        picture: String::new(),
    }
}

fn store(id: u128, created: notes_core::models::CreateNote) -> Note {
    Note {
        id,
        course_name: created.course_name,
        course_code: created.course_code,
        description: created.description,
        professor_names: created.professor_names,
        tags: created.tags,
        is_public: true,
        has_preview_image: created.has_preview_image,
        uploader_user_id: created.uploader_user_id,
        created_at: created.timestamp,
        downloads: 0,
        note_year: created.note_year as i64,
        note_semester: created.note_semester,
    }
}

fn upload(user: &User, renderer_works: bool) -> notes_core::models::ResponseNote {
    let paths = Paths::new("https://static.example.org", "/srv/static", "notes/uploaded", "previews/uploaded").unwrap();
    let mut form = UploadForm::new();
    form.accept_text("course_name", "Programming".to_string()).unwrap();
    form.accept_text("course_code", "CS101".to_string()).unwrap();
    check_file_type(Some("application/pdf")).unwrap();
    form.accept_file(b"%PDF-1.7\n%".to_vec(), 5).unwrap();
    let (created, bytes) = form.into_note(user.id, 42).unwrap();
    assert_eq!(bytes.len(), 10);
    let mut job = UploadJob::begin(&paths, user, store(500, created)).unwrap();
    while !matches!(job.step, UploadStep::Done(_)) {
        let outcome = match job.step {
            UploadStep::RenderPreview => renderer_works,
            _ => true,
        };
        job.advance(outcome);
    }
    job.finish().unwrap().unwrap()
}

#[test]
fn upload_then_vote_scenario() {
    let user_a = account(1, "a");
    let user_b = account(2, "b");

    // User A uploads with a course code but no file.
    let mut form = UploadForm::new();
    form.accept_text("course_name", "Programming".to_string()).unwrap();
    form.accept_text("course_code", "CS101".to_string()).unwrap();
    assert_eq!(
        form.into_note(user_a.id, 42),
        Err(NoteError::InvalidData("File not provided".to_string()))
    );

    // User A uploads a ten-byte PDF: the note says what the renderer achieved.
    assert!(upload(&user_a, true).has_preview_image);
    let shown = upload(&user_a, false);
    assert!(!shown.has_preview_image);
    assert_eq!(shown.course_code, "CS101");
    assert_eq!(shown.uploader_user.id, 1);
    let note_id = shown.id;

    let mut votes: Vec<DBVote> = Vec::new();
    let remove = VoteRequest { vote_type: "remove".to_string() }.parse().unwrap();
    let upvote = VoteRequest { vote_type: "upvote".to_string() }.parse().unwrap();

    // User B has no vote and removes: nothing happens.
    assert_eq!(vote(&mut votes, user_b.id, note_id, remove, 900, 1), None);
    assert!(votes.is_empty());
    assert_eq!(count_votes(&votes, note_id, true), 0);

    // User B upvotes: one vote.
    let cast = vote(&mut votes, user_b.id, note_id, upvote, 901, 2).unwrap();
    assert_eq!((cast.id, cast.user_id, cast.note_id, cast.is_upvote), (901, 2, note_id, true));
    assert_eq!(count_votes(&votes, note_id, true), 1);

    // User B upvotes again: the same single vote.
    let again = vote(&mut votes, user_b.id, note_id, upvote, 902, 3).unwrap();
    assert_eq!(again, cast);
    assert_eq!(votes, vec![cast]);
    assert_eq!(count_votes(&votes, note_id, true), 1);

    // User B removes: the vote is gone.
    assert_eq!(vote(&mut votes, user_b.id, note_id, remove, 903, 4), None);
    assert!(votes.is_empty());
    assert_eq!(count_votes(&votes, note_id, true), 0);
}

#[test]
fn counts_shown_with_a_note_follow_the_votes() {
    let user_a = account(1, "a");
    let shown = upload(&user_a, true);
    let stored = Note {
        id: shown.id,
        course_name: shown.course_name.clone(),
        course_code: shown.course_code.clone(),
        description: None,
        professor_names: None,
        tags: Vec::new(),
        is_public: true,
        has_preview_image: shown.has_preview_image,
        uploader_user_id: 1,
        created_at: 42,
        downloads: 0,
        note_year: 2025,
        note_semester: "Autumn".to_string(),
    };
    let mut votes: Vec<DBVote> = Vec::new();
    let upvote = VoteRequest { vote_type: "upvote".to_string() }.parse().unwrap();
    vote(&mut votes, 2, shown.id, upvote, 901, 2);
    let read = note_with_user(stored.clone(), &user_a, &votes, Some(2));
    assert_eq!((read.note_upvote_count, read.note_downvote_count, read.note_user_upvote), (1, 0, Some(true)));
    let remove = VoteRequest { vote_type: "remove".to_string() }.parse().unwrap();
    vote(&mut votes, 2, shown.id, remove, 902, 3);
    let read = note_with_user(stored, &user_a, &votes, Some(2));
    assert_eq!((read.note_upvote_count, read.note_downvote_count, read.note_user_upvote), (0, 0, None));
}
