//! What each user has gathered: the notes they wrote, the upvotes on those
//! notes and their downloads, added up from the stored rows.

use crate::models::{DBVote, Note, User};
use crate::ranking::reputation::reputation_of;
use crate::sequences::{lemma_total_agrees, lemma_total_reordered, same_elements, total};
use crate::votes::{count_votes, lemma_votes_on_reordered, votes_on};
use std::collections::HashMap;
use vstd::prelude::*;

verus! {

/// What a user has gathered: the notes they wrote, the upvotes on those
/// notes and the downloads of those notes.
#[derive(Clone, Debug, PartialEq, Eq)]
pub struct UserStats {
    pub id: u128,
    pub full_name: String,
    pub picture: String,
    pub total_notes: i64,
    pub total_upvotes: i64,
    pub total_downloads: i64,
}

/// How many of the notes `user_id` has written.
pub open spec fn notes_by(notes: Seq<Note>, user_id: u128) -> int
    decreases notes.len(),
{
    if notes.len() == 0 {
        0
    } else {
        notes_by(notes.drop_last(), user_id) + if notes.last().uploader_user_id == user_id {
            1int
        } else {
            0int
        }
    }
}

/// The downloads of the notes of `user_id`, added up.
pub open spec fn downloads_of(notes: Seq<Note>, user_id: u128) -> int
    decreases notes.len(),
{
    if notes.len() == 0 {
        0
    } else {
        downloads_of(notes.drop_last(), user_id) + if notes.last().uploader_user_id == user_id {
            notes.last().downloads as int
        } else {
            0int
        }
    }
}

/// The upvotes on the notes of `user_id`, added up note by note.
pub open spec fn upvotes_for(notes: Seq<Note>, votes: Seq<DBVote>, user_id: u128) -> int
    decreases notes.len(),
{
    if notes.len() == 0 {
        0
    } else {
        upvotes_for(notes.drop_last(), votes, user_id) + if notes.last().uploader_user_id
            == user_id {
            votes_on(votes, notes.last().id, true) as int
        } else {
            0int
        }
    }
}

/// Whether a total has a value that a total can have.
pub open spec fn in_range(total: int) -> bool {
    0 <= total <= i64::MAX
}

/// What `user` has gathered in the given notes and votes; nothing where a
/// total is out of range.
pub open spec fn stats_of(user: User, notes: Seq<Note>, votes: Seq<DBVote>) -> Option<UserStats> {
    if in_range(notes_by(notes, user.id)) && in_range(upvotes_for(notes, votes, user.id))
        && in_range(downloads_of(notes, user.id)) {
        Some(
            UserStats {
                id: user.id,
                full_name: user.full_name,
                picture: user.picture,
                total_notes: notes_by(notes, user.id) as i64,
                total_upvotes: upvotes_for(notes, votes, user.id) as i64,
                total_downloads: downloads_of(notes, user.id) as i64,
            },
        )
    } else {
        None
    }
}

impl UserStats {
    /// No total is below zero.
    pub open spec fn valid(self) -> bool {
        0 <= self.total_notes && 0 <= self.total_upvotes && 0 <= self.total_downloads
    }

    /// The reputation that follows from the totals.
    pub open spec fn reputation(self) -> (int, int) {
        reputation_of(
            self.total_notes as int,
            self.total_upvotes as int,
            self.total_downloads as int,
        )
    }
}

/// Whether no total of any of the users is below zero.
pub open spec fn all_valid(stats: Seq<UserStats>) -> bool {
    forall|i: int| 0 <= i < stats.len() ==> (#[trigger] stats[i]).valid()
}

/// Adds up what `user` has gathered: the notes they wrote, the upvotes on
/// them and their downloads. A user without notes has three zeros. Gives
/// nothing where a total is below zero or above what a total can hold.
pub fn user_stats(user: &User, notes: &Vec<Note>, votes: &Vec<DBVote>) -> (r: Option<UserStats>)
    ensures
        r == stats_of(*user, notes@, votes@),
        r matches Some(stats) ==> stats.valid(),
{
    let mut total_notes: usize = 0;
    let mut total_upvotes: u128 = 0;
    let mut total_downloads: i128 = 0;
    let mut i: usize = 0;
    assert(notes@.take(0) =~= Seq::<Note>::empty());
    while i < notes.len()
        invariant
            i <= notes.len(),
            total_notes == notes_by(notes@.take(i as int), user.id),
            total_notes <= i,
            total_upvotes == upvotes_for(notes@.take(i as int), votes@, user.id),
            total_upvotes <= i * 0x1_0000_0000_0000_0000,
            total_downloads == downloads_of(notes@.take(i as int), user.id),
            -(i * 0x8000_0000_0000_0000) <= total_downloads <= i * 0x8000_0000_0000_0000,
        decreases notes.len() - i,
    {
        assert(notes@.take(i + 1).drop_last() =~= notes@.take(i as int));
        if notes[i].uploader_user_id == user.id {
            total_notes += 1;
            let upvotes = count_votes(votes, notes[i].id, true);
            total_upvotes += upvotes as u128;
            total_downloads += notes[i].downloads as i128;
        }
        i += 1;
    }
    assert(notes@.take(i as int) =~= notes@);
    if total_notes as u128 > 0x7fff_ffff_ffff_ffff || total_upvotes > 0x7fff_ffff_ffff_ffff
        || total_downloads < 0 || total_downloads > 0x7fff_ffff_ffff_ffff {
        return None;
    }
    Some(
        UserStats {
            id: user.id,
            full_name: user.full_name.clone(),
            picture: user.picture.clone(),
            total_notes: total_notes as i64,
            total_upvotes: total_upvotes as i64,
            total_downloads: total_downloads as i64,
        },
    )
}

/// What has been added up for one user while the notes are gone through.
#[derive(Clone, Copy)]
pub(crate) struct Tally {
    pub(crate) notes: usize,
    pub(crate) upvotes: u128,
    pub(crate) downloads: i128,
}

/// The count that a table holds for a note: nothing where the note is not
/// in the table.
spec fn counted(counts: Map<u128, usize>, note_id: u128) -> int {
    if counts.contains_key(note_id) {
        counts[note_id] as int
    } else {
        0
    }
}

/// The tally that a table holds for a user: zeros where the user is not in
/// the table.
pub(crate) open spec fn tallied(tallies: Map<u128, Tally>, user_id: u128) -> (int, int, int) {
    if tallies.contains_key(user_id) {
        (
            tallies[user_id].notes as int,
            tallies[user_id].upvotes as int,
            tallies[user_id].downloads as int,
        )
    } else {
        (0, 0, 0)
    }
}

/// Counts the upvotes on every note in one pass over the votes.
fn upvotes_by_note(votes: &Vec<DBVote>) -> (counts: HashMap<u128, usize>)
    ensures
        forall|note_id: u128| #[trigger]
            counted(counts@, note_id) == votes_on(votes@, note_id, true),
{
    broadcast use vstd::std_specs::hash::group_hash_axioms;

    let mut counts: HashMap<u128, usize> = HashMap::new();
    let mut i: usize = 0;
    assert(votes@.take(0) =~= Seq::<DBVote>::empty());
    while i < votes.len()
        invariant
            i <= votes.len(),
            forall|note_id: u128| #[trigger]
                counted(counts@, note_id) == votes_on(votes@.take(i as int), note_id, true),
            forall|note_id: u128| #[trigger] counted(counts@, note_id) <= i,
        decreases votes.len() - i,
    {
        assert(votes@.take(i + 1).drop_last() =~= votes@.take(i as int));
        let ghost before = counts@;
        let v = votes[i];
        if v.is_upvote {
            let so_far: usize = match counts.get(&v.note_id) {
                Some(count) => *count,
                None => 0,
            };
            assert(so_far == counted(before, v.note_id));
            counts.insert(v.note_id, so_far + 1);
        }
        assert forall|note_id: u128| #[trigger]
            counted(counts@, note_id) == votes_on(
                votes@.take(i + 1),
                note_id,
                true,
            ) && counted(counts@, note_id) <= i + 1 by {
            assert(counted(before, note_id) == votes_on(votes@.take(i as int), note_id, true));
            assert(counted(before, note_id) <= i);
        }
        i += 1;
    }
    assert(votes@.take(i as int) =~= votes@);
    counts
}

/// Adds up, in one pass over the notes, what every user has gathered.
pub(crate) fn tallies_by_user(notes: &Vec<Note>, votes: &Vec<DBVote>) -> (tallies: HashMap<u128, Tally>)
    ensures
        forall|user_id: u128| #[trigger]
            tallied(tallies@, user_id) == (
                notes_by(notes@, user_id),
                upvotes_for(notes@, votes@, user_id),
                downloads_of(notes@, user_id),
            ),
{
    broadcast use vstd::std_specs::hash::group_hash_axioms;

    let counts = upvotes_by_note(votes);
    let mut tallies: HashMap<u128, Tally> = HashMap::new();
    let mut i: usize = 0;
    assert(notes@.take(0) =~= Seq::<Note>::empty());
    while i < notes.len()
        invariant
            i <= notes.len(),
            forall|note_id: u128| #[trigger]
                counted(counts@, note_id) == votes_on(votes@, note_id, true),
            forall|user_id: u128| #[trigger]
                tallied(tallies@, user_id) == (
                    notes_by(notes@.take(i as int), user_id),
                    upvotes_for(notes@.take(i as int), votes@, user_id),
                    downloads_of(notes@.take(i as int), user_id),
                ),
            forall|user_id: u128|
                {
                    &&& (#[trigger] tallied(tallies@, user_id)).0 <= i
                    &&& tallied(tallies@, user_id).1 <= i * 0x1_0000_0000_0000_0000
                    &&& -(i * 0x8000_0000_0000_0000) <= tallied(tallies@, user_id).2 <= i
                        * 0x8000_0000_0000_0000
                },
        decreases notes.len() - i,
    {
        assert(notes@.take(i + 1).drop_last() =~= notes@.take(i as int));
        let ghost before = tallies@;
        let uploader = notes[i].uploader_user_id;
        let so_far: Tally = match tallies.get(&uploader) {
            Some(tally) => *tally,
            None => Tally { notes: 0, upvotes: 0, downloads: 0 },
        };
        let upvotes: usize = match counts.get(&notes[i].id) {
            Some(count) => *count,
            None => 0,
        };
        assert(upvotes == counted(counts@, notes@[i as int].id));
        assert((so_far.notes as int, so_far.upvotes as int, so_far.downloads as int) == tallied(
            before,
            uploader,
        ));
        tallies.insert(
            uploader,
            Tally {
                notes: so_far.notes + 1,
                upvotes: so_far.upvotes + upvotes as u128,
                downloads: so_far.downloads + notes[i].downloads as i128,
            },
        );
        assert forall|user_id: u128|
            {
                &&& #[trigger] tallied(tallies@, user_id) == (
                    notes_by(notes@.take(i + 1), user_id),
                    upvotes_for(notes@.take(i + 1), votes@, user_id),
                    downloads_of(notes@.take(i + 1), user_id),
                )
                &&& tallied(tallies@, user_id).0 <= i + 1
                &&& tallied(tallies@, user_id).1 <= (i + 1) * 0x1_0000_0000_0000_0000
                &&& -((i + 1) * 0x8000_0000_0000_0000) <= tallied(tallies@, user_id).2 <= (i + 1)
                    * 0x8000_0000_0000_0000
            } by {
            assert(tallied(before, user_id) == (
                notes_by(notes@.take(i as int), user_id),
                upvotes_for(notes@.take(i as int), votes@, user_id),
                downloads_of(notes@.take(i as int), user_id),
            ));
            assert(tallied(before, user_id).0 <= i);
        }
        i += 1;
    }
    assert(notes@.take(i as int) =~= notes@);
    tallies
}

/// What `user` has gathered, read from the tallies of all users.
pub(crate) fn stats_from_tallies(
    user: &User,
    tallies: &HashMap<u128, Tally>,
    Ghost(notes): Ghost<Seq<Note>>,
    Ghost(votes): Ghost<Seq<DBVote>>,
) -> (r: Option<UserStats>)
    requires
        forall|user_id: u128| #[trigger]
            tallied(tallies@, user_id) == (
                notes_by(notes, user_id),
                upvotes_for(notes, votes, user_id),
                downloads_of(notes, user_id),
            ),
    ensures
        r == stats_of(*user, notes, votes),
        r matches Some(stats) ==> stats.valid(),
{
    broadcast use vstd::std_specs::hash::group_hash_axioms;

    let tally: Tally = match tallies.get(&user.id) {
        Some(tally) => *tally,
        None => Tally { notes: 0, upvotes: 0, downloads: 0 },
    };
    assert((tally.notes as int, tally.upvotes as int, tally.downloads as int) == tallied(
        tallies@,
        user.id,
    ));
    if tally.notes as u128 > 0x7fff_ffff_ffff_ffff || tally.upvotes > 0x7fff_ffff_ffff_ffff
        || tally.downloads < 0 || tally.downloads > 0x7fff_ffff_ffff_ffff {
        return None;
    }
    Some(
        UserStats {
            id: user.id,
            full_name: user.full_name.clone(),
            picture: user.picture.clone(),
            total_notes: tally.notes as i64,
            total_upvotes: tally.upvotes as i64,
            total_downloads: tally.downloads as i64,
        },
    )
}

/// What every user has gathered, in the order of `users`; nothing where
/// the totals of one of them are out of range.
pub open spec fn all_stats(users: Seq<User>, notes: Seq<Note>, votes: Seq<DBVote>) -> Option<
    Seq<UserStats>,
>
    decreases users.len(),
{
    if users.len() == 0 {
        Some(Seq::empty())
    } else {
        match (
            all_stats(users.drop_last(), notes, votes),
            stats_of(users.last(), notes, votes),
        ) {
            (Some(before), Some(last)) => Some(before.push(last)),
            _ => None,
        }
    }
}

/// Where the totals of some of the first users are out of range, those of
/// all users are.
pub proof fn lemma_all_stats_prefix(
    users: Seq<User>,
    notes: Seq<Note>,
    votes: Seq<DBVote>,
    k: int,
)
    requires
        0 <= k <= users.len(),
        all_stats(users.take(k), notes, votes) is None,
    ensures
        all_stats(users, notes, votes) is None,
    decreases users.len() - k,
{
    if k < users.len() {
        assert(users.take(k + 1).drop_last() =~= users.take(k));
        lemma_all_stats_prefix(users, notes, votes, k + 1);
    } else {
        assert(users.take(k) =~= users);
    }
}

/// What every user has gathered stands at that user's place, and no total
/// in it is below zero.
pub proof fn lemma_all_stats(users: Seq<User>, notes: Seq<Note>, votes: Seq<DBVote>)
    requires
        all_stats(users, notes, votes) is Some,
    ensures
        all_stats(users, notes, votes)->0.len() == users.len(),
        all_valid(all_stats(users, notes, votes)->0),
        forall|u: int|
            0 <= u < users.len() ==> stats_of(#[trigger] users[u], notes, votes) == Some(
                all_stats(users, notes, votes)->0[u],
            ),
    decreases users.len(),
{
    if users.len() > 0 {
        lemma_all_stats(users.drop_last(), notes, votes);
        let stats = all_stats(users, notes, votes)->0;
        assert forall|u: int| 0 <= u < users.len() implies stats_of(
            #[trigger] users[u],
            notes,
            votes,
        ) == Some(stats[u]) by {
            if u < users.len() - 1 {
                assert(users.drop_last()[u] == users[u]);
            }
        }
    }
}

/// What a user has gathered in given notes and votes, as a function of the
/// user.
pub open spec fn stats_in(notes: Seq<Note>, votes: Seq<DBVote>) -> spec_fn(User) -> UserStats {
    |user: User| stats_of(user, notes, votes)->0
}

/// What all users have gathered is what each of them has gathered, in the
/// order of the users; it is there exactly when it is there for each.
pub proof fn lemma_all_stats_is_map(users: Seq<User>, notes: Seq<Note>, votes: Seq<DBVote>)
    ensures
        all_stats(users, notes, votes) is Some <==> forall|i: int|
            0 <= i < users.len() ==> stats_of(#[trigger] users[i], notes, votes) is Some,
        all_stats(users, notes, votes) is Some ==> all_stats(users, notes, votes)->0
            == users.map_values(stats_in(notes, votes)),
    decreases users.len(),
{
    if users.len() > 0 {
        let rest = users.drop_last();
        lemma_all_stats_is_map(rest, notes, votes);
        if all_stats(users, notes, votes) is Some {
            assert forall|i: int| 0 <= i < users.len() implies stats_of(
                #[trigger] users[i],
                notes,
                votes,
            ) is Some by {
                if i < rest.len() {
                    assert(rest[i] == users[i]);
                }
            }
            assert(all_stats(users, notes, votes)->0 =~= users.map_values(stats_in(notes, votes)));
        }
        if forall|i: int|
            0 <= i < users.len() ==> stats_of(#[trigger] users[i], notes, votes) is Some {
            assert forall|i: int| 0 <= i < rest.len() implies stats_of(
                #[trigger] rest[i],
                notes,
                votes,
            ) is Some by {
                assert(rest[i] == users[i]);
            }
            assert(stats_of(users[users.len() - 1], notes, votes) is Some);
        }
    } else {
        assert(all_stats(users, notes, votes)->0 =~= users.map_values(stats_in(notes, votes)));
    }
}

/// The reputation of a user with valid totals is a fraction that is not
/// below zero, over a denominator above zero; without notes it is zero.
pub proof fn lemma_reputation_shape(stats: UserStats)
    requires
        stats.valid(),
    ensures
        stats.reputation().0 >= 0,
        stats.reputation().1 > 0,
        stats.total_notes == 0 ==> stats.reputation().0 == 0,
{
    if stats.total_notes != 0 {
        assert(stats.total_upvotes * (stats.total_notes + stats.total_upvotes
            + stats.total_downloads) >= 0) by (nonlinear_arith)
            requires
                stats.total_upvotes >= 0,
                stats.total_notes + stats.total_upvotes + stats.total_downloads >= 0,
        ;
    }
}

/// The reputation of a user with valid totals fits the fields that hold it.
pub proof fn lemma_reputation_in_range(stats: UserStats)
    requires
        stats.valid(),
    ensures
        0 <= stats.reputation().0 <= u128::MAX,
        0 < stats.reputation().1 <= u64::MAX,
{
    lemma_reputation_shape(stats);
    if stats.total_notes != 0 {
        let sum = stats.total_notes + stats.total_upvotes + stats.total_downloads;
        assert(stats.total_upvotes * sum <= 0x7fff_ffff_ffff_ffff * (3 * 0x7fff_ffff_ffff_ffff))
            by (nonlinear_arith)
            requires
                0 <= stats.total_upvotes <= 0x7fff_ffff_ffff_ffff,
                0 <= sum <= 3 * 0x7fff_ffff_ffff_ffff,
        ;
    }
}

/// What one note adds to the notes of `user_id`.
pub open spec fn counts_for(user_id: u128) -> spec_fn(Note) -> int {
    |n: Note|
        if n.uploader_user_id == user_id {
            1int
        } else {
            0int
        }
}

/// What one note adds to the downloads of `user_id`.
pub open spec fn downloads_for(user_id: u128) -> spec_fn(Note) -> int {
    |n: Note|
        if n.uploader_user_id == user_id {
            n.downloads as int
        } else {
            0int
        }
}

/// What one note adds to the upvotes of `user_id`.
pub open spec fn upvotes_through(votes: Seq<DBVote>, user_id: u128) -> spec_fn(Note) -> int {
    |n: Note|
        if n.uploader_user_id == user_id {
            votes_on(votes, n.id, true) as int
        } else {
            0int
        }
}

/// The totals of a user are sums over the notes.
pub proof fn lemma_totals_are_sums(notes: Seq<Note>, votes: Seq<DBVote>, user_id: u128)
    ensures
        notes_by(notes, user_id) == total(notes, counts_for(user_id)),
        downloads_of(notes, user_id) == total(notes, downloads_for(user_id)),
        upvotes_for(notes, votes, user_id) == total(notes, upvotes_through(votes, user_id)),
    decreases notes.len(),
{
    if notes.len() > 0 {
        lemma_totals_are_sums(notes.drop_last(), votes, user_id);
    }
}

/// What a user has gathered does not depend on the order in which the
/// notes and the votes are stored.
pub proof fn lemma_stats_reordered(
    user: User,
    notes: Seq<Note>,
    votes: Seq<DBVote>,
    other_notes: Seq<Note>,
    other_votes: Seq<DBVote>,
)
    requires
        same_elements(notes, other_notes),
        same_elements(votes, other_votes),
    ensures
        stats_of(user, notes, votes) == stats_of(user, other_notes, other_votes),
{
    let id = user.id;
    lemma_totals_are_sums(notes, votes, id);
    lemma_totals_are_sums(other_notes, other_votes, id);
    lemma_total_reordered(notes, other_notes, counts_for(id));
    lemma_total_reordered(notes, other_notes, downloads_for(id));
    lemma_total_reordered(notes, other_notes, upvotes_through(votes, id));
    assert forall|i: int| 0 <= i < other_notes.len() implies upvotes_through(votes, id)(
        #[trigger] other_notes[i],
    ) == upvotes_through(other_votes, id)(other_notes[i]) by {
        lemma_votes_on_reordered(votes, other_votes, other_notes[i].id, true);
    }
    lemma_total_agrees(other_notes, upvotes_through(votes, id), upvotes_through(other_votes, id));
}

} // verus!
