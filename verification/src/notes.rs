//! What is read of a note: the note joined with its uploader and with the
//! votes counted for it, and its download counter.

use crate::models::{DBVote, Note, NoteWithUser, User};
use crate::votes::{caller_vote, count_votes, user_vote, votes_on};
use vstd::prelude::*;

verus! {

/// A note joined with its uploader, with the votes on it counted and the
/// caller's own vote looked up.
pub open spec fn joined_note(
    note: Note,
    uploader: User,
    votes: Seq<DBVote>,
    caller: Option<u128>,
) -> NoteWithUser {
    NoteWithUser {
        note_id: note.id,
        note_course_name: note.course_name,
        note_course_code: note.course_code,
        note_description: note.description,
        note_professor_names: note.professor_names,
        note_tags: note.tags,
        note_is_public: note.is_public,
        note_has_preview_image: note.has_preview_image,
        note_uploader_user_id: note.uploader_user_id,
        note_created_at: note.created_at,
        note_upvote_count: votes_on(votes, note.id, true) as i64,
        note_downvote_count: votes_on(votes, note.id, false) as i64,
        note_user_upvote: caller_vote(votes, caller, note.id),
        note_downloads: note.downloads,
        note_year: note.note_year,
        note_semester: note.note_semester,
        user_id: uploader.id,
        user_google_id: uploader.google_id,
        user_email: uploader.email,
        user_full_name: uploader.full_name,
        user_created_at: uploader.created_at,
    }
}

/// Joins a note with its uploader and with what the stored votes say of
/// it. The counts are made from the votes at each reading.
pub fn note_with_user(
    note: Note,
    uploader: &User,
    votes: &Vec<DBVote>,
    caller: Option<u128>,
) -> (r: NoteWithUser)
    ensures
        r == joined_note(note, *uploader, votes@, caller),
{
    let upvotes = count_votes(votes, note.id, true);
    let downvotes = count_votes(votes, note.id, false);
    let own = user_vote(votes, caller, note.id);
    NoteWithUser {
        note_id: note.id,
        note_course_name: note.course_name,
        note_course_code: note.course_code,
        note_description: note.description,
        note_professor_names: note.professor_names,
        note_tags: note.tags,
        note_is_public: note.is_public,
        note_has_preview_image: note.has_preview_image,
        note_uploader_user_id: note.uploader_user_id,
        note_created_at: note.created_at,
        note_upvote_count: upvotes as i64,
        note_downvote_count: downvotes as i64,
        note_user_upvote: own,
        note_downloads: note.downloads,
        note_year: note.note_year,
        note_semester: note.note_semester,
        user_id: uploader.id,
        user_google_id: uploader.google_id.clone(),
        user_email: uploader.email.clone(),
        user_full_name: uploader.full_name.clone(),
        user_created_at: uploader.created_at,
    }
}

/// Counts one more download of a note. The counter only ever goes up; at
/// the largest number it can hold it stays, and the download is not counted.
pub fn increment_note_downloads(note: &mut Note) -> (counted: bool)
    ensures
        counted == (old(note).downloads < i64::MAX),
        final(note).downloads == if counted {
            old(note).downloads + 1
        } else {
            old(note).downloads as int
        },
        *final(note) == (Note { downloads: final(note).downloads, ..*old(note) }),
{
    if note.downloads < i64::MAX {
        note.downloads = note.downloads + 1;
        true
    } else {
        false
    }
}

/// Sets whether a note has a preview image.
pub fn update_note_preview_status(note: &mut Note, status: bool)
    ensures
        *final(note) == (Note { has_preview_image: status, ..*old(note) }),
{
    note.has_preview_image = status;
}

} // verus!
