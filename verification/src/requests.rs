//! What the requests carry besides a note's form, and the defaults and
//! checks that go with each.

use crate::errors::{NoteError, NoteErrorView};
use vstd::prelude::*;

verus! {

/// How many notes a listing shows where the request names no number.
pub const DEFAULT_NOTE_COUNT: usize = 10;

/// How many lines a leaderboard shows where the request names no number.
pub const DEFAULT_LEADERBOARD_LIMIT: i64 = 20;

/// The query of a listing of notes.
#[derive(Clone, Copy, Debug, PartialEq, Eq)]
pub struct NoteQuery {
    pub num: Option<usize>,
}

/// The query of a search for notes.
#[derive(Clone, Debug, PartialEq, Eq)]
pub struct SearchQuery {
    pub query: String,
}

/// The query of a leaderboard.
#[derive(Clone, Copy, Debug, PartialEq, Eq)]
pub struct LeaderboardQuery {
    pub limit: Option<i64>,
}

/// The body of a sign-in request: the token of the identity provider.
#[derive(Clone, Debug, PartialEq, Eq)]
pub struct AuthRequest {
    pub token: String,
}

/// The claims of a session token: whose session it is, and the second at
/// which it ends.
#[derive(Clone, Debug, PartialEq, Eq)]
pub struct AppClaims {
    pub google_id: String,
    pub exp: i64,
}

impl NoteQuery {
    /// The number of notes to show.
    pub fn count(&self) -> (n: usize)
        ensures
            n == match self.num {
                Some(num) => num,
                None => DEFAULT_NOTE_COUNT,
            },
    {
        match self.num {
            Some(num) => num,
            None => DEFAULT_NOTE_COUNT,
        }
    }
}

impl LeaderboardQuery {
    /// The number of lines to show.
    pub fn limit(&self) -> (n: i64)
        ensures
            n == match self.limit {
                Some(limit) => limit,
                None => DEFAULT_LEADERBOARD_LIMIT,
            },
    {
        match self.limit {
            Some(limit) => limit,
            None => DEFAULT_LEADERBOARD_LIMIT,
        }
    }
}

/// The pattern that finds `query` anywhere in a text.
pub open spec fn search_pattern_text(query: Seq<char>) -> Seq<char> {
    "%"@ + query + "%"@
}

/// The pattern that finds `query` anywhere in a text.
pub fn search_pattern(query: &str) -> (pattern: String)
    ensures
        pattern@ == search_pattern_text(query@),
{
    let mut pattern = String::from_str("%");
    pattern.append(query);
    pattern.append("%");
    pattern
}

impl SearchQuery {
    /// The pattern to search with. An empty query is refused.
    pub fn pattern(&self) -> (r: Result<String, NoteError>)
        ensures
            match r {
                Ok(pattern) => self.query@.len() > 0 && pattern@ == search_pattern_text(
                    self.query@,
                ),
                Err(e) => self.query@.len() == 0 && e@ == NoteErrorView::InvalidData(
                    "Query cannot be empty"@,
                ),
            },
    {
        if self.query.as_str().is_empty() {
            Err(NoteError::InvalidData(String::from_str("Query cannot be empty")))
        } else {
            Ok(search_pattern(self.query.as_str()))
        }
    }
}

impl AppClaims {
    /// The claims of a session that starts at the second `now` and lasts
    /// `lifetime` seconds. Gives nothing where the end is no second that
    /// the claims can hold.
    pub fn issue(google_id: String, now: i64, lifetime: i64) -> (r: Option<AppClaims>)
        ensures
            match r {
                Some(claims) => claims.google_id == google_id && claims.exp == now + lifetime,
                None => now + lifetime < i64::MIN || now + lifetime > i64::MAX,
            },
    {
        match now.checked_add(lifetime) {
            Some(exp) => Some(AppClaims { google_id, exp }),
            None => None,
        }
    }
}

} // verus!
