//! The order of the leaderboard: by reputation, the higher first, then by
//! the number of notes, the larger first, then by identifier, the smaller
//! first.

use crate::models::{DBVote, Note, User};
use crate::ranking::reputation::{
    higher, lemma_fraction_order, level, reputation_above, reputation_level, Reputation,
};
use crate::ranking::totals::{
    all_stats, all_valid, downloads_of, lemma_all_stats_prefix, lemma_reputation_shape, notes_by,
    stats_from_tallies, tallied, tallies_by_user, upvotes_for, UserStats,
};
use crate::sequences::{lemma_last_elsewhere, same_elements};
use vstd::prelude::*;
use vstd::seq_lib::to_multiset_build;

verus! {

/// Whether two users share a rank: the same reputation and as many notes.
pub open spec fn same_standing(a: UserStats, b: UserStats) -> bool {
    level(a.reputation(), b.reputation()) && a.total_notes == b.total_notes
}

/// Whether `a` stands before `b` on the leaderboard: by the higher
/// reputation, then by the larger number of notes, then by the smaller
/// identifier.
pub open spec fn precedes(a: UserStats, b: UserStats) -> bool {
    ||| higher(a.reputation(), b.reputation())
    ||| level(a.reputation(), b.reputation()) && a.total_notes > b.total_notes
    ||| level(a.reputation(), b.reputation()) && a.total_notes == b.total_notes && a.id < b.id
}

/// Whether `a` and `b` share a rank.
pub fn stats_same_standing(a: &UserStats, b: &UserStats) -> (r: bool)
    requires
        a.valid(),
        b.valid(),
    ensures
        r == same_standing(*a, *b),
{
    let ra = Reputation::new(a.total_notes, a.total_upvotes, a.total_downloads);
    let rb = Reputation::new(b.total_notes, b.total_upvotes, b.total_downloads);
    reputation_level(ra, rb) && a.total_notes == b.total_notes
}

/// Whether `a` stands before `b` on the leaderboard.
pub fn stats_precede(a: &UserStats, b: &UserStats) -> (r: bool)
    requires
        a.valid(),
        b.valid(),
    ensures
        r == precedes(*a, *b),
{
    let ra = Reputation::new(a.total_notes, a.total_upvotes, a.total_downloads);
    let rb = Reputation::new(b.total_notes, b.total_upvotes, b.total_downloads);
    if reputation_above(ra, rb) {
        true
    } else if reputation_level(ra, rb) {
        a.total_notes > b.total_notes || (a.total_notes == b.total_notes && a.id < b.id)
    } else {
        false
    }
}

/// Whether no user of a run stands before one that comes earlier in it.
pub open spec fn in_order(sorted: Seq<UserStats>) -> bool {
    forall|i: int, j: int|
        0 <= i < j < sorted.len() ==> !precedes(#[trigger] sorted[j], #[trigger] sorted[i])
}

/// Whether users with the same identifier are the same in everything.
pub open spec fn identified(stats: Seq<UserStats>) -> bool {
    forall|i: int, j: int|
        0 <= i < stats.len() && 0 <= j < stats.len() && (#[trigger] stats[i]).id == (
        #[trigger] stats[j]).id ==> stats[i] == stats[j]
}

/// An ordered run of users with one more put in its place: behind the last
/// one that stands before it.
pub open spec fn inserted(sorted: Seq<UserStats>, x: UserStats) -> Seq<UserStats>
    decreases sorted.len(),
{
    if sorted.len() == 0 {
        seq![x]
    } else if precedes(sorted.last(), x) {
        sorted.push(x)
    } else {
        inserted(sorted.drop_last(), x).push(sorted.last())
    }
}

/// The users in the order of the leaderboard.
pub open spec fn ordered(stats: Seq<UserStats>) -> Seq<UserStats>
    decreases stats.len(),
{
    if stats.len() == 0 {
        stats
    } else {
        inserted(ordered(stats.drop_last()), stats.last())
    }
}

/// Where `inserted` puts the new user.
pub proof fn lemma_inserted_at(sorted: Seq<UserStats>, x: UserStats, at: int)
    requires
        0 <= at <= sorted.len(),
        forall|j: int| at <= j < sorted.len() ==> !precedes(#[trigger] sorted[j], x),
        at == 0 || precedes(sorted[at - 1], x),
    ensures
        inserted(sorted, x) == sorted.insert(at, x),
    decreases sorted.len(),
{
    if sorted.len() == 0 {
        assert(sorted.insert(at, x) =~= seq![x]);
    } else if at == sorted.len() {
        assert(sorted.insert(at, x) =~= sorted.push(x));
    } else {
        assert(!precedes(sorted[sorted.len() - 1], x));
        let rest = sorted.drop_last();
        lemma_inserted_at(rest, x, at);
        assert(rest.insert(at, x).push(sorted.last()) =~= sorted.insert(at, x));
    }
}

/// Puts `x` in its place among the users in `board`, which are in order.
/// The place is found by halving.
fn insert_ranked(board: &mut Vec<UserStats>, x: UserStats)
    requires
        x.valid(),
        all_valid(old(board)@),
        in_order(old(board)@),
    ensures
        final(board)@ == inserted(old(board)@, x),
        final(board).len() == old(board).len() + 1,
        all_valid(final(board)@),
        in_order(final(board)@),
{
    let mut low: usize = 0;
    let mut high: usize = board.len();
    while low < high
        invariant
            low <= high <= board.len(),
            board@ == old(board)@,
            x.valid(),
            all_valid(board@),
            in_order(board@),
            forall|j: int| 0 <= j < low ==> precedes(#[trigger] board@[j], x),
            forall|j: int| high <= j < board.len() ==> !precedes(#[trigger] board@[j], x),
        decreases high - low,
    {
        let middle: usize = low + (high - low) / 2;
        if stats_precede(&board[middle], &x) {
            assert forall|j: int| 0 <= j < middle + 1 implies precedes(#[trigger] board@[j], x) by {
                if j < middle {
                    assert(!precedes(board@[middle as int], board@[j]));
                    lemma_precedes_is_order(board@[middle as int], board@[j], x);
                }
            }
            low = middle + 1;
        } else {
            assert forall|j: int| middle <= j < board.len() implies !precedes(
                #[trigger] board@[j],
                x,
            ) by {
                if j > middle {
                    assert(!precedes(board@[j], board@[middle as int]));
                    lemma_precedes_is_order(board@[j], board@[middle as int], x);
                }
            }
            high = middle;
        }
    }
    proof {
        lemma_inserted_at(board@, x, low as int);
        lemma_inserted(board@, x);
    }
    board.insert(low, x);
}

/// Adds up what every user has gathered and puts the users in the order of
/// the leaderboard.
pub(crate) fn ordered_stats(users: &Vec<User>, notes: &Vec<Note>, votes: &Vec<DBVote>) -> (r: Option<
    Vec<UserStats>,
>)
    ensures
        match r {
            Some(sorted) => {
                &&& all_stats(users@, notes@, votes@) matches Some(stats)
                &&& sorted@ == ordered(stats)
                &&& sorted.len() == users.len()
                &&& forall|i: int| 0 <= i < sorted.len() ==> (#[trigger] sorted@[i]).valid()
            },
            None => all_stats(users@, notes@, votes@) is None,
        },
{
    let tallies = tallies_by_user(notes, votes);
    let mut sorted: Vec<UserStats> = Vec::new();
    let mut i: usize = 0;
    assert(users@.take(0) =~= Seq::<User>::empty());
    while i < users.len()
        invariant
            i <= users.len(),
            forall|user_id: u128| #[trigger]
                tallied(tallies@, user_id) == (
                    notes_by(notes@, user_id),
                    upvotes_for(notes@, votes@, user_id),
                    downloads_of(notes@, user_id),
                ),
            all_stats(users@.take(i as int), notes@, votes@) is Some,
            sorted@ == ordered(all_stats(users@.take(i as int), notes@, votes@)->0),
            sorted.len() == i,
            all_valid(sorted@),
            in_order(sorted@),
        decreases users.len() - i,
    {
        assert(users@.take(i + 1).drop_last() =~= users@.take(i as int));
        let ghost before = all_stats(users@.take(i as int), notes@, votes@)->0;
        match stats_from_tallies(&users[i], &tallies, Ghost(notes@), Ghost(votes@)) {
            Some(stats) => {
                assert(before.push(stats).drop_last() =~= before);
                insert_ranked(&mut sorted, stats);
            },
            None => {
                proof {
                    lemma_all_stats_prefix(users@, notes@, votes@, i + 1);
                }
                return None;
            },
        }
        i += 1;
    }
    assert(users@.take(i as int) =~= users@);
    Some(sorted)
}

/// The order of the leaderboard is a strict order of the users: of two
/// users with different identifiers exactly one stands before the other, no
/// user stands before themself, and standing before carries over.
pub proof fn lemma_precedes_is_order(a: UserStats, b: UserStats, c: UserStats)
    requires
        a.valid(),
        b.valid(),
        c.valid(),
    ensures
        !(precedes(a, b) && precedes(b, a)),
        a.id != b.id ==> precedes(a, b) || precedes(b, a),
        precedes(a, b) && precedes(b, c) ==> precedes(a, c),
        !precedes(a, b) && !precedes(b, c) ==> !precedes(a, c),
{
    lemma_reputation_shape(a);
    lemma_reputation_shape(b);
    lemma_reputation_shape(c);
    let ra = a.reputation();
    let rb = b.reputation();
    let rc = c.reputation();
    if (higher(ra, rb) || level(ra, rb)) && (higher(rb, rc) || level(rb, rc)) {
        lemma_fraction_order(ra, rb, rc);
    }
    if (higher(rc, rb) || level(rc, rb)) && (higher(rb, ra) || level(rb, ra)) {
        lemma_fraction_order(rc, rb, ra);
    }
}

/// Putting a user in place keeps a run in order, and adds that user and
/// nothing else.
pub proof fn lemma_inserted(sorted: Seq<UserStats>, x: UserStats)
    requires
        all_valid(sorted),
        x.valid(),
    ensures
        inserted(sorted, x).len() == sorted.len() + 1,
        all_valid(inserted(sorted, x)),
        inserted(sorted, x).to_multiset() == sorted.to_multiset().insert(x),
        in_order(sorted) ==> in_order(inserted(sorted, x)),
    decreases sorted.len(),
{
    let out = inserted(sorted, x);
    if sorted.len() == 0 {
        to_multiset_build(sorted, x);
        assert(out =~= sorted.push(x));
    } else if precedes(sorted.last(), x) {
        to_multiset_build(sorted, x);
        if in_order(sorted) {
            assert forall|i: int, j: int| 0 <= i < j < out.len() implies !precedes(
                #[trigger] out[j],
                #[trigger] out[i],
            ) by {
                if j == sorted.len() {
                    lemma_precedes_is_order(sorted.last(), x, sorted[i]);
                    if i < sorted.len() - 1 {
                        assert(!precedes(sorted[sorted.len() - 1], sorted[i]));
                    }
                } else {
                    assert(!precedes(sorted[j], sorted[i]));
                }
            }
        }
    } else {
        let rest = sorted.drop_last();
        let last = sorted.last();
        lemma_inserted(rest, x);
        let inner = inserted(rest, x);
        to_multiset_build(inner, last);
        to_multiset_build(rest, last);
        assert(rest.push(last) =~= sorted);
        assert(out.to_multiset() =~= sorted.to_multiset().insert(x));
        if in_order(sorted) {
            assert(in_order(rest)) by {
                assert forall|i: int, j: int| 0 <= i < j < rest.len() implies !precedes(
                    #[trigger] rest[j],
                    #[trigger] rest[i],
                ) by {
                    assert(!precedes(sorted[j], sorted[i]));
                }
            }
            assert forall|i: int, j: int| 0 <= i < j < out.len() implies !precedes(
                #[trigger] out[j],
                #[trigger] out[i],
            ) by {
                if j == inner.len() {
                    // `out[i]` is `x` or one of `rest`: `last` stands before neither.
                    assert(inner.to_multiset().count(inner[i]) > 0) by {
                        inner.to_multiset_ensures();
                        assert(inner.contains(inner[i]));
                    }
                    if inner[i] != x {
                        assert(rest.to_multiset().count(inner[i]) > 0);
                        rest.to_multiset_ensures();
                        assert(rest.contains(inner[i]));
                        let k = choose|k: int| 0 <= k < rest.len() && rest[k] == inner[i];
                        assert(!precedes(sorted[sorted.len() - 1], sorted[k]));
                    }
                } else {
                    assert(!precedes(inner[j], inner[i]));
                }
            }
        }
    }
}

/// The order of the leaderboard holds every user once, and in it no user
/// stands before one that comes earlier.
pub proof fn lemma_ordered(stats: Seq<UserStats>)
    requires
        all_valid(stats),
    ensures
        ordered(stats).len() == stats.len(),
        all_valid(ordered(stats)),
        ordered(stats).to_multiset() == stats.to_multiset(),
        in_order(ordered(stats)),
    decreases stats.len(),
{
    if stats.len() > 0 {
        let rest = stats.drop_last();
        lemma_ordered(rest);
        lemma_inserted(ordered(rest), stats.last());
        to_multiset_build(rest, stats.last());
        assert(rest.push(stats.last()) =~= stats);
    }
}

/// There is one way only to put given users in the order of the
/// leaderboard: two runs that are in order and hold the same users are the
/// same run.
pub proof fn lemma_order_is_unique(first: Seq<UserStats>, second: Seq<UserStats>)
    requires
        all_valid(first),
        all_valid(second),
        in_order(first),
        in_order(second),
        same_elements(first, second),
        identified(first),
    ensures
        first == second,
    decreases first.len(),
{
    first.to_multiset_ensures();
    second.to_multiset_ensures();
    if first.len() == 0 {
        assert(first =~= second);
    } else {
        let n = first.len() as int;
        let a = first.last();
        let b = second.last();
        let k = lemma_last_elsewhere(first, second);
        let m = lemma_last_elsewhere(second, first);
        if a != b {
            // Each of the two comes before the last of the other run.
            assert(k < n - 1);
            assert(m < n - 1);
            assert(!precedes(second[n - 1], second[k]));
            assert(!precedes(first[n - 1], first[m]));
            assert(first[m].id != first[n - 1].id);
            lemma_precedes_is_order(a, b, b);
        }
        assert(second.remove(n - 1) =~= second.drop_last());
        let rest = first.drop_last();
        let other = second.drop_last();
        assert forall|i: int, j: int| 0 <= i < j < rest.len() implies !precedes(
            #[trigger] rest[j],
            #[trigger] rest[i],
        ) by {
            assert(!precedes(first[j], first[i]));
        }
        assert forall|i: int, j: int| 0 <= i < j < other.len() implies !precedes(
            #[trigger] other[j],
            #[trigger] other[i],
        ) by {
            assert(!precedes(second[j], second[i]));
        }
        assert forall|i: int, j: int|
            0 <= i < rest.len() && 0 <= j < rest.len() && (#[trigger] rest[i]).id == (
            #[trigger] rest[j]).id implies rest[i] == rest[j] by {
            assert(first[i].id == first[j].id);
        }
        assert(same_elements(rest, other)) by {
            if k != n - 1 {
                assert(a == b);
                // Taking `a` out of `second` at `k` or at its end leaves the same elements.
                assert(second.remove(k).to_multiset() == second.to_multiset().remove(a));
                assert(second.remove(n - 1).to_multiset() == second.to_multiset().remove(b));
            }
        }
        lemma_order_is_unique(rest, other);
        assert(first =~= rest.push(a));
        assert(second =~= other.push(b));
    }
}

} // verus!
