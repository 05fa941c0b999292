//! The leaderboard: every user with their totals, their reputation and
//! their rank, and the position of one user on it.

use crate::models::{DBVote, Note, User};
use crate::ranking::order::{
    in_order, lemma_order_is_unique, lemma_ordered, ordered, ordered_stats, precedes,
    same_standing, stats_same_standing,
};
use crate::ranking::reputation::{higher, lemma_fraction_order, level, Reputation};
use crate::ranking::totals::{
    all_stats, all_valid, lemma_all_stats, lemma_all_stats_is_map, lemma_reputation_in_range,
    lemma_reputation_shape, lemma_stats_reordered, notes_by, stats_in, stats_of, UserStats,
};
use crate::sequences::{lemma_map_reordered, lemma_same_members, same_elements};
use vstd::prelude::*;

verus! {

/// One line of the leaderboard.
#[derive(Clone, Debug, PartialEq, Eq)]
pub struct LeaderboardEntry {
    pub id: u128,
    pub full_name: String,
    pub picture: String,
    pub reputation: Reputation,
    pub total_notes: i64,
    pub total_upvotes: i64,
    pub total_downloads: i64,
    pub rank: i64,
}

/// Why a leaderboard could not be drawn up.
#[derive(Clone, Copy, Debug, PartialEq, Eq)]
pub enum LeaderboardError {
    /// The limit is below zero.
    NegativeLimit,
    /// A user's totals are outside the range that a total can have.
    TotalsOutOfRange,
}

/// The rank of the user at place `i` of an ordered run: the first has rank
/// one, and each next one has the rank of the one before, or the next rank
/// where the two do not share their standing. No rank is left out.
pub open spec fn dense_rank(sorted: Seq<UserStats>, i: int) -> int
    decreases i,
{
    if i <= 0 {
        1
    } else {
        dense_rank(sorted, i - 1) + if same_standing(sorted[i - 1], sorted[i]) {
            0int
        } else {
            1int
        }
    }
}

/// The line of the leaderboard for a user with a rank.
pub open spec fn entry_of(stats: UserStats, rank: int) -> LeaderboardEntry {
    LeaderboardEntry {
        id: stats.id,
        full_name: stats.full_name,
        picture: stats.picture,
        reputation: Reputation {
            numerator: stats.reputation().0 as u128,
            denominator: stats.reputation().1 as u64,
        },
        total_notes: stats.total_notes,
        total_upvotes: stats.total_upvotes,
        total_downloads: stats.total_downloads,
        rank: rank as i64,
    }
}

/// The lines of the leaderboard for an ordered run of users.
pub open spec fn ranked(sorted: Seq<UserStats>) -> Seq<LeaderboardEntry> {
    Seq::new(sorted.len(), |i: int| entry_of(sorted[i], dense_rank(sorted, i)))
}

/// The whole leaderboard: every user, ranked over all of them. Nothing
/// where a total or the number of users is out of range.
pub open spec fn full_board_of(users: Seq<User>, notes: Seq<Note>, votes: Seq<DBVote>) -> Option<
    Seq<LeaderboardEntry>,
> {
    if users.len() > i64::MAX {
        None
    } else {
        match all_stats(users, notes, votes) {
            Some(stats) => Some(ranked(ordered(stats))),
            None => None,
        }
    }
}

/// The first `limit` lines of the whole leaderboard.
pub open spec fn leaderboard_of(
    users: Seq<User>,
    notes: Seq<Note>,
    votes: Seq<DBVote>,
    limit: i64,
) -> Result<Seq<LeaderboardEntry>, LeaderboardError> {
    if limit < 0 {
        Err(LeaderboardError::NegativeLimit)
    } else {
        match full_board_of(users, notes, votes) {
            Some(board) => Ok(
                if limit < board.len() {
                    board.take(limit as int)
                } else {
                    board
                },
            ),
            None => Err(LeaderboardError::TotalsOutOfRange),
        }
    }
}

/// Index of the first line of `user_id` on a board, or the length of the
/// board where there is none.
pub open spec fn place_of(board: Seq<LeaderboardEntry>, user_id: u128) -> nat
    decreases board.len(),
{
    if board.len() == 0 || board[0].id == user_id {
        0
    } else {
        1 + place_of(board.drop_first(), user_id)
    }
}

/// The line of `user_id` on the whole leaderboard, if the user is on it.
pub open spec fn position_of(
    users: Seq<User>,
    notes: Seq<Note>,
    votes: Seq<DBVote>,
    user_id: u128,
) -> Result<Option<LeaderboardEntry>, LeaderboardError> {
    match full_board_of(users, notes, votes) {
        Some(board) => Ok(
            if place_of(board, user_id) < board.len() {
                Some(board[place_of(board, user_id) as int])
            } else {
                None
            },
        ),
        None => Err(LeaderboardError::TotalsOutOfRange),
    }
}

/// `place_of` is the index before which no line is the user's and at which
/// one is, or the length of the board where there is none.
pub proof fn lemma_place_of(board: Seq<LeaderboardEntry>, user_id: u128, k: int)
    requires
        0 <= k <= board.len(),
        forall|j: int| 0 <= j < k ==> (#[trigger] board[j]).id != user_id,
        k == board.len() || board[k].id == user_id,
    ensures
        place_of(board, user_id) == k,
    decreases k,
{
    if k > 0 {
        let rest = board.drop_first();
        assert forall|j: int| 0 <= j < k - 1 implies (#[trigger] rest[j]).id != user_id by {
            assert(rest[j] == board[j + 1]);
        }
        lemma_place_of(rest, user_id, k - 1);
    }
}

/// The ranks of an ordered run start at one and go up by at most one from
/// each place to the next.
pub proof fn lemma_dense_rank_bounds(sorted: Seq<UserStats>, i: int)
    ensures
        1 <= dense_rank(sorted, i),
        0 <= i ==> dense_rank(sorted, i) <= i + 1,
        i <= 0 ==> dense_rank(sorted, i) == 1,
    decreases i,
{
    if i > 0 {
        lemma_dense_rank_bounds(sorted, i - 1);
    }
}

/// The line of the leaderboard for a user with a rank.
fn make_entry(stats: &UserStats, rank: i64) -> (entry: LeaderboardEntry)
    requires
        stats.valid(),
    ensures
        entry == entry_of(*stats, rank as int),
{
    LeaderboardEntry {
        id: stats.id,
        full_name: stats.full_name.clone(),
        picture: stats.picture.clone(),
        reputation: Reputation::new(stats.total_notes, stats.total_upvotes, stats.total_downloads),
        total_notes: stats.total_notes,
        total_upvotes: stats.total_upvotes,
        total_downloads: stats.total_downloads,
        rank,
    }
}

/// Draws up the leaderboard: every user with their totals, their
/// reputation and their rank over all users, the first `limit` of them in
/// the order of the board. Users without notes are on it with a reputation
/// of zero. Fails where `limit` is below zero, or where a total or the
/// number of users is out of range.
pub fn get_leaderboard(
    users: &Vec<User>,
    notes: &Vec<Note>,
    votes: &Vec<DBVote>,
    limit: i64,
) -> (r: Result<Vec<LeaderboardEntry>, LeaderboardError>)
    ensures
        match r {
            Ok(board) => leaderboard_of(users@, notes@, votes@, limit) == Ok::<
                Seq<LeaderboardEntry>,
                LeaderboardError,
            >(board@),
            Err(e) => leaderboard_of(users@, notes@, votes@, limit) == Err::<
                Seq<LeaderboardEntry>,
                LeaderboardError,
            >(e),
        },
{
    if limit < 0 {
        return Err(LeaderboardError::NegativeLimit);
    }
    if users.len() as u128 > 0x7fff_ffff_ffff_ffff {
        return Err(LeaderboardError::TotalsOutOfRange);
    }
    let sorted = match ordered_stats(users, notes, votes) {
        Some(sorted) => sorted,
        None => {
            return Err(LeaderboardError::TotalsOutOfRange);
        },
    };
    let count: usize = if (limit as u128) < sorted.len() as u128 {
        limit as usize
    } else {
        sorted.len()
    };
    let mut board: Vec<LeaderboardEntry> = Vec::new();
    let mut rank: i64 = 1;
    let mut i: usize = 0;
    while i < count
        invariant
            i <= count <= sorted.len(),
            sorted.len() <= i64::MAX,
            forall|j: int| 0 <= j < sorted.len() ==> (#[trigger] sorted@[j]).valid(),
            rank == dense_rank(sorted@, i - 1),
            board@ == ranked(sorted@).take(i as int),
        decreases count - i,
    {
        proof {
            lemma_dense_rank_bounds(sorted@, i - 1);
            lemma_dense_rank_bounds(sorted@, i as int);
        }
        if i > 0 && !stats_same_standing(&sorted[i - 1], &sorted[i]) {
            rank += 1;
        }
        board.push(make_entry(&sorted[i], rank));
        assert(board@ =~= ranked(sorted@).take(i + 1));
        i += 1;
    }
    assert(ranked(sorted@).take(sorted.len() as int) =~= ranked(sorted@));
    Ok(board)
}

/// Finds a user's line on the whole leaderboard: the rank is the one that
/// the user has over all users, whatever part of the board is shown.
pub fn get_user_leaderboard_position(
    users: &Vec<User>,
    notes: &Vec<Note>,
    votes: &Vec<DBVote>,
    user_id: u128,
) -> (r: Result<Option<LeaderboardEntry>, LeaderboardError>)
    ensures
        match r {
            Ok(entry) => position_of(users@, notes@, votes@, user_id) == Ok::<
                Option<LeaderboardEntry>,
                LeaderboardError,
            >(entry),
            Err(e) => position_of(users@, notes@, votes@, user_id) == Err::<
                Option<LeaderboardEntry>,
                LeaderboardError,
            >(e),
        },
{
    if users.len() as u128 > 0x7fff_ffff_ffff_ffff {
        return Err(LeaderboardError::TotalsOutOfRange);
    }
    let sorted = match ordered_stats(users, notes, votes) {
        Some(sorted) => sorted,
        None => {
            return Err(LeaderboardError::TotalsOutOfRange);
        },
    };
    let mut rank: i64 = 1;
    let mut i: usize = 0;
    while i < sorted.len()
        invariant
            i <= sorted.len(),
            sorted.len() <= i64::MAX,
            forall|j: int| 0 <= j < sorted.len() ==> (#[trigger] sorted@[j]).valid(),
            rank == dense_rank(sorted@, i - 1),
            full_board_of(users@, notes@, votes@) == Some(ranked(sorted@)),
            forall|j: int| 0 <= j < i ==> (#[trigger] ranked(sorted@)[j]).id != user_id,
        decreases sorted.len() - i,
    {
        proof {
            lemma_dense_rank_bounds(sorted@, i - 1);
            lemma_dense_rank_bounds(sorted@, i as int);
        }
        if i > 0 && !stats_same_standing(&sorted[i - 1], &sorted[i]) {
            rank += 1;
        }
        assert(ranked(sorted@)[i as int] == entry_of(sorted@[i as int], rank as int));
        if sorted[i].id == user_id {
            proof {
                lemma_place_of(ranked(sorted@), user_id, i as int);
            }
            return Ok(Some(make_entry(&sorted[i], rank)));
        }
        i += 1;
    }
    proof {
        lemma_place_of(ranked(sorted@), user_id, sorted.len() as int);
    }
    Ok(None)
}

/// Along the board ranks never go down, and two users have the same rank
/// exactly when they share their standing.
pub proof fn lemma_dense_rank_order(sorted: Seq<UserStats>, i: int, j: int)
    requires
        all_valid(sorted),
        in_order(sorted),
        0 <= i <= j < sorted.len(),
    ensures
        dense_rank(sorted, i) <= dense_rank(sorted, j),
        dense_rank(sorted, i) == dense_rank(sorted, j) <==> same_standing(sorted[i], sorted[j]),
    decreases j - i,
{
    let a = sorted[i];
    lemma_reputation_shape(a);
    if i < j {
        let b = sorted[j - 1];
        let c = sorted[j];
        lemma_reputation_shape(b);
        lemma_reputation_shape(c);
        lemma_dense_rank_order(sorted, i, j - 1);
        assert(!precedes(c, b));
        assert(!precedes(c, a));
        if i < j - 1 {
            assert(!precedes(b, a));
        }
        let ra = a.reputation();
        let rb = b.reputation();
        let rc = c.reputation();
        if (higher(ra, rb) || level(ra, rb)) && (higher(rb, rc) || level(rb, rc)) {
            lemma_fraction_order(ra, rb, rc);
        }
    }
}

/// The whole leaderboard has one line for every user, in the order of the
/// board. Each line carries the user's totals and the reputation that
/// follows from them, and a rank between one and its place on the board.
pub proof fn lemma_full_board(users: Seq<User>, notes: Seq<Note>, votes: Seq<DBVote>)
    requires
        full_board_of(users, notes, votes) is Some,
    ensures
        ({
            let board = full_board_of(users, notes, votes)->0;
            let sorted = ordered(all_stats(users, notes, votes)->0);
            &&& board.len() == users.len()
            &&& sorted.to_multiset() == all_stats(users, notes, votes)->0.to_multiset()
            &&& in_order(sorted)
            &&& forall|p: int|
                #![trigger full_board_of(users, notes, votes)->0[p]]
                0 <= p < board.len() ==> {
                    &&& board[p] == entry_of(sorted[p], dense_rank(sorted, p))
                    &&& board[p].reputation.stands_for(sorted[p].reputation())
                    &&& board[p].reputation.denominator > 0
                    &&& 1 <= board[p].rank <= p + 1
                    &&& board[p].rank == dense_rank(sorted, p)
                }
        }),
{
    let stats = all_stats(users, notes, votes)->0;
    lemma_all_stats(users, notes, votes);
    lemma_ordered(stats);
    let sorted = ordered(stats);
    let board = full_board_of(users, notes, votes)->0;
    assert forall|p: int| #![trigger board[p]] 0 <= p < board.len() implies {
        &&& board[p] == entry_of(sorted[p], dense_rank(sorted, p))
        &&& board[p].reputation.stands_for(sorted[p].reputation())
        &&& board[p].reputation.denominator > 0
        &&& 1 <= board[p].rank <= p + 1
        &&& board[p].rank == dense_rank(sorted, p)
    } by {
        lemma_dense_rank_bounds(sorted, p);
        lemma_reputation_in_range(sorted[p]);
    }
}

/// Leaderboard determinism. The leaderboard is fixed by the users, notes
/// and votes that it is drawn from: two answers for the same rows and the
/// same limit are the same, line by line, in order, ranks and reputations.
pub proof fn lemma_leaderboard_deterministic(
    users: Seq<User>,
    notes: Seq<Note>,
    votes: Seq<DBVote>,
    limit: i64,
    first: Result<Seq<LeaderboardEntry>, LeaderboardError>,
    second: Result<Seq<LeaderboardEntry>, LeaderboardError>,
)
    requires
        first == leaderboard_of(users, notes, votes, limit),
        second == leaderboard_of(users, notes, votes, limit),
    ensures
        first == second,
        first matches Ok(board) ==> board.len() <= limit && board.len() <= users.len(),
{
    if full_board_of(users, notes, votes) is Some && limit >= 0 {
        lemma_full_board(users, notes, votes);
    }
}

/// A user without notes is on the leaderboard like any other, with a
/// reputation of zero and a rank between one and the number of users.
pub proof fn lemma_user_without_notes(
    users: Seq<User>,
    notes: Seq<Note>,
    votes: Seq<DBVote>,
    u: int,
)
    requires
        full_board_of(users, notes, votes) is Some,
        0 <= u < users.len(),
        notes_by(notes, users[u].id) == 0,
    ensures
        exists|p: int|
            {
                &&& 0 <= p < full_board_of(users, notes, votes)->0.len()
                &&& (#[trigger] full_board_of(users, notes, votes)->0[p]).id == users[u].id
                &&& full_board_of(users, notes, votes)->0[p].total_notes == 0
                &&& full_board_of(users, notes, votes)->0[p].reputation.is_zero()
                &&& 1 <= full_board_of(users, notes, votes)->0[p].rank <= users.len()
            },
{
    let stats = all_stats(users, notes, votes)->0;
    let sorted = ordered(stats);
    let board = full_board_of(users, notes, votes)->0;
    lemma_all_stats(users, notes, votes);
    lemma_full_board(users, notes, votes);
    let mine = stats[u];
    assert(stats_of(users[u], notes, votes) == Some(mine));
    stats.to_multiset_ensures();
    sorted.to_multiset_ensures();
    assert(stats.contains(mine));
    assert(stats.to_multiset().count(mine) > 0);
    assert(sorted.to_multiset().count(mine) > 0);
    assert(sorted.contains(mine));
    let p = choose|p: int| 0 <= p < sorted.len() && sorted[p] == mine;
    lemma_reputation_shape(mine);
    assert(board[p].id == users[u].id);
}

/// A user's position is their line on the whole board: a line that a
/// limited board shows is the line at the same place of the whole board,
/// and asking for the position of its user gives that very line, rank
/// included, where the user has no earlier line.
pub proof fn lemma_position_matches_board(
    users: Seq<User>,
    notes: Seq<Note>,
    votes: Seq<DBVote>,
    limit: i64,
    p: int,
)
    requires
        full_board_of(users, notes, votes) is Some,
        0 <= p < limit,
        p < full_board_of(users, notes, votes)->0.len(),
        forall|j: int|
            0 <= j < p ==> (#[trigger] full_board_of(users, notes, votes)->0[j]).id
                != full_board_of(users, notes, votes)->0[p].id,
    ensures
        leaderboard_of(users, notes, votes, limit) matches Ok(shown) && shown[p]
            == full_board_of(users, notes, votes)->0[p],
        position_of(users, notes, votes, full_board_of(users, notes, votes)->0[p].id) == Ok::<
            Option<LeaderboardEntry>,
            LeaderboardError,
        >(Some(full_board_of(users, notes, votes)->0[p])),
{
    let board = full_board_of(users, notes, votes)->0;
    lemma_place_of(board, board[p].id, p);
}

/// Leaderboard determinism, whatever the order of the rows. The
/// leaderboard and every position on it depend on which users, notes and
/// votes there are, not on the order in which they are given: two
/// readings of the same rows give the same board, line by line.
pub proof fn lemma_leaderboard_of_rows(
    users: Seq<User>,
    notes: Seq<Note>,
    votes: Seq<DBVote>,
    other_users: Seq<User>,
    other_notes: Seq<Note>,
    other_votes: Seq<DBVote>,
    limit: i64,
    user_id: u128,
)
    requires
        same_elements(users, other_users),
        same_elements(notes, other_notes),
        same_elements(votes, other_votes),
        forall|i: int, j: int|
            0 <= i < users.len() && 0 <= j < users.len() && (#[trigger] users[i]).id == (
            #[trigger] users[j]).id ==> users[i] == users[j],
    ensures
        full_board_of(users, notes, votes) == full_board_of(other_users, other_notes, other_votes),
        leaderboard_of(users, notes, votes, limit) == leaderboard_of(
            other_users,
            other_notes,
            other_votes,
            limit,
        ),
        position_of(users, notes, votes, user_id) == position_of(
            other_users,
            other_notes,
            other_votes,
            user_id,
        ),
{
    users.to_multiset_ensures();
    other_users.to_multiset_ensures();
    lemma_all_stats_is_map(users, notes, votes);
    lemma_all_stats_is_map(other_users, other_notes, other_votes);
    // Each user has gathered the same in both readings.
    assert forall|user: User| #[trigger]
        stats_of(user, notes, votes) == stats_of(user, other_notes, other_votes) by {
        lemma_stats_reordered(user, notes, votes, other_notes, other_votes);
    }
    // The totals are in range for all users of one reading exactly when
    // they are for all users of the other.
    if all_stats(users, notes, votes) is Some {
        assert forall|i: int| 0 <= i < other_users.len() implies stats_of(
            #[trigger] other_users[i],
            other_notes,
            other_votes,
        ) is Some by {
            lemma_same_members(users, other_users, other_users[i]);
            let j = choose|j: int| 0 <= j < users.len() && users[j] == other_users[i];
            assert(stats_of(users[j], notes, votes) is Some);
        }
    }
    if all_stats(other_users, other_notes, other_votes) is Some {
        assert forall|i: int| 0 <= i < users.len() implies stats_of(
            #[trigger] users[i],
            notes,
            votes,
        ) is Some by {
            lemma_same_members(users, other_users, users[i]);
            let j = choose|j: int| 0 <= j < other_users.len() && other_users[j] == users[i];
            assert(stats_of(other_users[j], other_notes, other_votes) is Some);
        }
    }
    if all_stats(users, notes, votes) is Some {
        let stats = all_stats(users, notes, votes)->0;
        let other_stats = all_stats(other_users, other_notes, other_votes)->0;
        lemma_map_reordered(users, other_users, stats_in(notes, votes));
        assert(other_stats =~= other_users.map_values(stats_in(notes, votes)));
        lemma_all_stats(users, notes, votes);
        lemma_all_stats(other_users, other_notes, other_votes);
        lemma_ordered(stats);
        lemma_ordered(other_stats);
        let sorted = ordered(stats);
        assert forall|i: int, j: int|
            0 <= i < sorted.len() && 0 <= j < sorted.len() && (#[trigger] sorted[i]).id == (
            #[trigger] sorted[j]).id implies sorted[i] == sorted[j] by {
            lemma_same_members(sorted, stats, sorted[i]);
            lemma_same_members(sorted, stats, sorted[j]);
            let p = choose|p: int| 0 <= p < stats.len() && stats[p] == sorted[i];
            let q = choose|q: int| 0 <= q < stats.len() && stats[q] == sorted[j];
            assert(stats_of(users[p], notes, votes) == Some(stats[p]));
            assert(stats_of(users[q], notes, votes) == Some(stats[q]));
            assert(users[p].id == users[q].id);
        }
        lemma_order_is_unique(sorted, ordered(other_stats));
    }
}

} // verus!
