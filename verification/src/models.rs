//! The records of the service: what the store holds, what a request carries
//! and what a response shows. Identifiers are 128-bit numbers and instants
//! are microseconds since the Unix epoch.

use vstd::prelude::*;

verus! {

/// A registered user.
#[derive(Clone, Debug, PartialEq, Eq)]
pub struct User {
    pub id: u128,
    pub google_id: String,
    pub email: String,
    pub full_name: String,
    pub created_at: i64,
    pub picture: String,
}

/// A stored note.
#[derive(Clone, Debug, PartialEq, Eq)]
pub struct Note {
    pub id: u128,
    pub course_name: String,
    pub course_code: String,
    pub description: Option<String>,
    pub professor_names: Option<Vec<String>>,
    pub tags: Vec<String>,
    pub is_public: bool,
    pub has_preview_image: bool,
    pub uploader_user_id: u128,
    pub created_at: i64,
    pub downloads: i64,
    pub note_year: i64,
    pub note_semester: String,
}

/// A stored vote: one user's judgment of one note.
#[derive(Clone, Copy, Debug, PartialEq, Eq)]
pub struct DBVote {
    pub id: u128,
    pub user_id: u128,
    pub note_id: u128,
    pub is_upvote: bool,
    pub created_at: Option<i64>,
}

/// A vote whose kind is kept as text.
#[derive(Clone, Debug, PartialEq, Eq)]
pub struct Vote {
    pub id: u128,
    pub user_id: u128,
    pub note_id: u128,
    pub vote_type: String,
    pub created_at: i64,
}

/// A note joined with its uploader and with the vote counts read for one caller.
#[derive(Clone, Debug, PartialEq, Eq)]
pub struct NoteWithUser {
    pub note_id: u128,
    pub note_course_name: String,
    pub note_course_code: String,
    pub note_description: Option<String>,
    pub note_professor_names: Option<Vec<String>>,
    pub note_tags: Vec<String>,
    pub note_is_public: bool,
    pub note_has_preview_image: bool,
    pub note_uploader_user_id: u128,
    pub note_created_at: i64,
    pub note_upvote_count: i64,
    pub note_downvote_count: i64,
    pub note_user_upvote: Option<bool>,
    pub note_downloads: i64,
    pub note_year: i64,
    pub note_semester: String,
    pub user_id: u128,
    pub user_google_id: String,
    pub user_email: String,
    pub user_full_name: String,
    pub user_created_at: i64,
}

/// The fields of a note that is about to be stored.
#[derive(Clone, Debug, PartialEq, Eq)]
pub struct CreateNote {
    pub course_name: String,
    pub course_code: String,
    pub description: Option<String>,
    pub professor_names: Option<Vec<String>>,
    pub tags: Vec<String>,
    pub has_preview_image: bool,
    pub uploader_user_id: u128,
    pub timestamp: i64,
    pub note_year: usize,
    pub note_semester: String,
}

/// A user as shown in a response.
#[derive(Clone, Debug, PartialEq, Eq)]
pub struct ResponseUser {
    pub id: u128,
    pub google_id: String,
    pub email: String,
    pub full_name: String,
    pub created_at: i64,
}

/// A note as shown in a response.
#[derive(Clone, Debug, PartialEq, Eq)]
pub struct ResponseNote {
    pub id: u128,
    pub course_name: String,
    pub course_code: String,
    pub description: Option<String>,
    pub professor_names: Option<Vec<String>>,
    pub tags: Vec<String>,
    pub is_public: bool,
    pub has_preview_image: bool,
    pub preview_image_url: String,
    pub file_url: String,
    pub uploader_user: ResponseUser,
    pub created_at: i64,
    pub upvotes: usize,
    pub downvotes: usize,
    /// The caller's own vote on this note, if the caller is known and has voted.
    pub user_vote: Option<bool>,
    pub downloads: usize,
    pub year: i64,
    pub semester: String,
}

/// The profile that the identity provider vouches for.
#[derive(Clone, Debug, PartialEq, Eq)]
pub struct GoogleUserInfo {
    pub google_id: String,
    pub email: String,
    pub full_name: String,
    pub picture: String,
}

impl User {
    /// A copy of this user.
    pub fn duplicate(&self) -> (r: User)
        ensures
            r == *self,
    {
        User {
            id: self.id,
            google_id: self.google_id.clone(),
            email: self.email.clone(),
            full_name: self.full_name.clone(),
            created_at: self.created_at,
            picture: self.picture.clone(),
        }
    }
}

impl GoogleUserInfo {
    /// A copy of this profile.
    pub fn duplicate(&self) -> (r: GoogleUserInfo)
        ensures
            r == *self,
    {
        GoogleUserInfo {
            google_id: self.google_id.clone(),
            email: self.email.clone(),
            full_name: self.full_name.clone(),
            picture: self.picture.clone(),
        }
    }
}

impl ResponseUser {
    /// The public part of a user record.
    pub fn from_user(user: &User) -> (r: ResponseUser)
        ensures
            r == (ResponseUser {
                id: user.id,
                google_id: user.google_id,
                email: user.email,
                full_name: user.full_name,
                created_at: user.created_at,
            }),
    {
        ResponseUser {
            id: user.id,
            google_id: user.google_id.clone(),
            email: user.email.clone(),
            full_name: user.full_name.clone(),
            created_at: user.created_at,
        }
    }
}

impl ResponseNote {
    /// The response for a joined note, with the two addresses computed for it.
    pub open spec fn of_note_with_user(
        note: NoteWithUser,
        file_url: String,
        preview_image_url: String,
    ) -> ResponseNote {
        ResponseNote {
            id: note.note_id,
            course_name: note.note_course_name,
            course_code: note.note_course_code,
            description: note.note_description,
            professor_names: note.note_professor_names,
            tags: note.note_tags,
            is_public: note.note_is_public,
            has_preview_image: note.note_has_preview_image,
            preview_image_url,
            file_url,
            year: note.note_year,
            semester: note.note_semester,
            upvotes: note.note_upvote_count as usize,
            downvotes: note.note_downvote_count as usize,
            downloads: note.note_downloads as usize,
            user_vote: note.note_user_upvote,
            uploader_user: ResponseUser {
                id: note.user_id,
                google_id: note.user_google_id,
                email: note.user_email,
                full_name: note.user_full_name,
                created_at: note.user_created_at,
            },
            created_at: note.note_created_at,
        }
    }

    /// Shapes a joined note for a response.
    pub fn from_note_with_user(
        note: NoteWithUser,
        file_url: String,
        preview_image_url: String,
    ) -> (r: ResponseNote)
        ensures
            r == Self::of_note_with_user(note, file_url, preview_image_url),
    {
        ResponseNote {
            id: note.note_id,
            course_name: note.note_course_name,
            course_code: note.note_course_code,
            description: note.note_description,
            professor_names: note.note_professor_names,
            tags: note.note_tags,
            is_public: note.note_is_public,
            has_preview_image: note.note_has_preview_image,
            preview_image_url,
            file_url,
            year: note.note_year,
            semester: note.note_semester,
            upvotes: note.note_upvote_count as usize,
            downvotes: note.note_downvote_count as usize,
            downloads: note.note_downloads as usize,
            user_vote: note.note_user_upvote,
            uploader_user: ResponseUser {
                id: note.user_id,
                google_id: note.user_google_id,
                email: note.user_email,
                full_name: note.user_full_name,
                created_at: note.user_created_at,
            },
            created_at: note.note_created_at,
        }
    }
}

} // verus!
