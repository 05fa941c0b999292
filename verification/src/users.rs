//! The user records: finding a user by the identifier that the identity
//! provider gives, and registering one on first sign-in.

use crate::models::{GoogleUserInfo, User};
use crate::text::same_text;
use vstd::prelude::*;

verus! {

/// Index of the first user with the provider identifier `google_id`, or the
/// number of users where there is none.
pub open spec fn place_of_google_id(users: Seq<User>, google_id: Seq<char>) -> nat
    decreases users.len(),
{
    if users.len() == 0 || users[0].google_id@ == google_id {
        0
    } else {
        1 + place_of_google_id(users.drop_first(), google_id)
    }
}

/// No two users have the same provider identifier.
pub open spec fn distinct_google_ids(users: Seq<User>) -> bool {
    forall|i: int, j: int|
        0 <= i < j < users.len() ==> (#[trigger] users[i]).google_id@ != (
        #[trigger] users[j]).google_id@
}

/// The user that a first sign-in registers.
pub open spec fn registered(user_info: GoogleUserInfo, new_id: u128, now: i64) -> User {
    User {
        id: new_id,
        google_id: user_info.google_id,
        email: user_info.email,
        full_name: user_info.full_name,
        created_at: now,
        picture: user_info.picture,
    }
}

/// Whether a profile's provider identifier is on record.
pub open spec fn is_known(users: Seq<User>, user_info: GoogleUserInfo) -> bool {
    place_of_google_id(users, user_info.google_id@) < users.len()
}

/// The users on record after a sign-in with the profile: as before where
/// the profile is known, with one more user where it is not.
pub open spec fn users_after(
    users: Seq<User>,
    user_info: GoogleUserInfo,
    new_id: u128,
    now: i64,
) -> Seq<User> {
    if is_known(users, user_info) {
        users
    } else {
        users.push(registered(user_info, new_id, now))
    }
}

/// The user that a sign-in with the profile gives: the first one on record
/// with its provider identifier, or the one registered for it.
pub open spec fn user_found(
    users: Seq<User>,
    user_info: GoogleUserInfo,
    new_id: u128,
    now: i64,
) -> User {
    if is_known(users, user_info) {
        users[place_of_google_id(users, user_info.google_id@) as int]
    } else {
        registered(user_info, new_id, now)
    }
}

/// `place_of_google_id` is the index before which no user has the
/// identifier and at which one has, or the number of users where none has.
pub proof fn lemma_place_of_google_id(users: Seq<User>, google_id: Seq<char>, k: int)
    requires
        0 <= k <= users.len(),
        forall|j: int| 0 <= j < k ==> (#[trigger] users[j]).google_id@ != google_id,
        k == users.len() || users[k].google_id@ == google_id,
    ensures
        place_of_google_id(users, google_id) == k,
    decreases k,
{
    if k > 0 {
        let rest = users.drop_first();
        assert forall|j: int| 0 <= j < k - 1 implies (#[trigger] rest[j]).google_id@
            != google_id by {
            assert(rest[j] == users[j + 1]);
        }
        lemma_place_of_google_id(rest, google_id, k - 1);
    }
}

/// Where the search for a provider identifier ends: at the first user that
/// has it, or behind the last user.
pub proof fn lemma_place_of_google_id_shape(users: Seq<User>, google_id: Seq<char>)
    ensures
        place_of_google_id(users, google_id) <= users.len(),
        forall|j: int|
            0 <= j < place_of_google_id(users, google_id) ==> (#[trigger] users[j]).google_id@
                != google_id,
        place_of_google_id(users, google_id) < users.len() ==> users[place_of_google_id(
            users,
            google_id,
        ) as int].google_id@ == google_id,
    decreases users.len(),
{
    if users.len() > 0 && users[0].google_id@ != google_id {
        let rest = users.drop_first();
        lemma_place_of_google_id_shape(rest, google_id);
        assert forall|j: int| 0 <= j < place_of_google_id(users, google_id) implies (
        #[trigger] users[j]).google_id@ != google_id by {
            if j > 0 {
                assert(users[j] == rest[j - 1]);
            }
        }
        if place_of_google_id(users, google_id) < users.len() {
            assert(users[place_of_google_id(users, google_id) as int] == rest[place_of_google_id(
                rest,
                google_id,
            ) as int]);
        }
    }
}

/// Finds the user with the provider identifier `google_id`.
pub fn find_user_by_google_id(users: &Vec<User>, google_id: &str) -> (r: Option<usize>)
    ensures
        match r {
            Some(i) => i < users.len() && i == place_of_google_id(users@, google_id@),
            None => place_of_google_id(users@, google_id@) == users.len(),
        },
{
    let mut i: usize = 0;
    while i < users.len()
        invariant
            i <= users.len(),
            forall|j: int| 0 <= j < i ==> (#[trigger] users@[j]).google_id@ != google_id@,
        decreases users.len() - i,
    {
        if same_text(users[i].google_id.as_str(), google_id) {
            proof {
                lemma_place_of_google_id(users@, google_id@, i as int);
            }
            return Some(i);
        }
        i += 1;
    }
    proof {
        lemma_place_of_google_id(users@, google_id@, users.len() as int);
    }
    None
}

/// Gives the user that the profile belongs to. A profile whose provider
/// identifier is known gives the user on record, as recorded; any other is
/// registered with the identifier `new_id` at the instant `now`.
pub fn find_or_create_user(
    users: &mut Vec<User>,
    user_info: GoogleUserInfo,
    new_id: u128,
    now: i64,
) -> (user: User)
    ensures
        final(users)@ == users_after(old(users)@, user_info, new_id, now),
        user == user_found(old(users)@, user_info, new_id, now),
        distinct_google_ids(old(users)@) ==> distinct_google_ids(final(users)@),
{
    match find_user_by_google_id(users, user_info.google_id.as_str()) {
        Some(i) => users[i].duplicate(),
        None => {
            let user = User {
                id: new_id,
                google_id: user_info.google_id,
                email: user_info.email,
                full_name: user_info.full_name,
                created_at: now,
                picture: user_info.picture,
            };
            let copy = user.duplicate();
            proof {
                lemma_place_of_google_id_shape(users@, user.google_id@);
            }
            users.push(user);
            copy
        },
    }
}

} // verus!
