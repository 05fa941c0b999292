//! The vote engine: what a vote request does to the votes of one user on
//! one note, and the counts that are read from the stored votes.

use crate::errors::{NoteError, NoteErrorView};
use crate::models::DBVote;
use crate::sequences::{lemma_total_reordered, same_elements, total};
use crate::text::same_text;
use vstd::prelude::*;

verus! {

/// What a caller asks to do with their vote on a note.
#[derive(Clone, Copy, Debug, PartialEq, Eq)]
pub enum VoteType {
    /// Set the vote: `true` for an upvote, `false` for a downvote.
    Upvote(bool),
    /// Take the vote back.
    Remove,
}

/// The vote request as it arrives.
#[derive(Clone, Debug, PartialEq, Eq)]
pub struct VoteRequest {
    pub vote_type: String,
}

/// The one write that a vote request leads to.
#[derive(Clone, Copy, Debug, PartialEq, Eq)]
pub enum VoteAction {
    /// Store a new vote with this direction.
    Insert(bool),
    /// Set the direction of the stored vote.
    Update(bool),
    /// Delete the stored vote.
    Delete,
    /// Leave the store as it is.
    Nothing,
}

/// The message for a vote token that is not accepted.
pub open spec fn bad_vote_text(token: Seq<char>) -> Seq<char> {
    "Incorrect vote type: "@ + token + ". Available options are: upvote and remove"@
}

/// What a vote token asks for: `upvote` sets an upvote, `remove` takes the
/// vote back, and no other token is accepted.
pub open spec fn parsed_vote_type(token: Seq<char>) -> Result<VoteType, NoteErrorView> {
    if token == "upvote"@ {
        Ok(VoteType::Upvote(true))
    } else if token == "remove"@ {
        Ok(VoteType::Remove)
    } else {
        Err(NoteErrorView::BadVote(bad_vote_text(token)))
    }
}

impl VoteRequest {
    /// Reads the vote token.
    pub fn parse(&self) -> (r: Result<VoteType, NoteError>)
        ensures
            match r {
                Ok(t) => parsed_vote_type(self.vote_type@) == Ok::<VoteType, NoteErrorView>(t),
                Err(e) => parsed_vote_type(self.vote_type@) == Err::<VoteType, NoteErrorView>(e@),
            },
    {
        let token = self.vote_type.as_str();
        if same_text(token, "upvote") {
            Ok(VoteType::Upvote(true))
        } else if same_text(token, "remove") {
            Ok(VoteType::Remove)
        } else {
            let mut message = String::from_str("Incorrect vote type: ");
            message.append(token);
            message.append(". Available options are: upvote and remove");
            Err(NoteError::BadVote(message))
        }
    }
}

/// The write for a request, given whether the user has a vote on the note.
pub open spec fn planned_action(existing: bool, vote_type: VoteType) -> VoteAction {
    match vote_type {
        VoteType::Upvote(is_upvote) => if existing {
            VoteAction::Update(is_upvote)
        } else {
            VoteAction::Insert(is_upvote)
        },
        VoteType::Remove => if existing {
            VoteAction::Delete
        } else {
            VoteAction::Nothing
        },
    }
}

/// Decides the write for a request, given whether the user has a vote on
/// the note already.
pub fn plan_vote(existing: bool, vote_type: VoteType) -> (action: VoteAction)
    ensures
        action == planned_action(existing, vote_type),
{
    match vote_type {
        VoteType::Upvote(is_upvote) => if existing {
            VoteAction::Update(is_upvote)
        } else {
            VoteAction::Insert(is_upvote)
        },
        VoteType::Remove => if existing {
            VoteAction::Delete
        } else {
            VoteAction::Nothing
        },
    }
}

/// Whether a vote is the one of `user_id` on `note_id`.
pub open spec fn is_vote_of(v: DBVote, user_id: u128, note_id: u128) -> bool {
    v.user_id == user_id && v.note_id == note_id
}

/// How many stored votes `user_id` has on `note_id`.
pub open spec fn count_pair(votes: Seq<DBVote>, user_id: u128, note_id: u128) -> nat
    decreases votes.len(),
{
    if votes.len() == 0 {
        0
    } else {
        count_pair(votes.drop_last(), user_id, note_id) + if is_vote_of(
            votes.last(),
            user_id,
            note_id,
        ) {
            1nat
        } else {
            0nat
        }
    }
}

/// No user has more than one vote on any note.
pub open spec fn one_vote_each(votes: Seq<DBVote>) -> bool {
    forall|user_id: u128, note_id: u128| #[trigger] count_pair(votes, user_id, note_id) <= 1
}

/// The first stored vote of `user_id` on `note_id`.
pub open spec fn first_vote_of(votes: Seq<DBVote>, user_id: u128, note_id: u128) -> Option<
    DBVote,
>
    decreases votes.len(),
{
    if votes.len() == 0 {
        None
    } else {
        match first_vote_of(votes.drop_last(), user_id, note_id) {
            Some(v) => Some(v),
            None => if is_vote_of(votes.last(), user_id, note_id) {
                Some(votes.last())
            } else {
                None
            },
        }
    }
}

/// The direction of the vote that `user_id` has on `note_id`, if any.
pub open spec fn vote_state(votes: Seq<DBVote>, user_id: u128, note_id: u128) -> Option<bool> {
    match first_vote_of(votes, user_id, note_id) {
        Some(v) => Some(v.is_upvote),
        None => None,
    }
}

/// The votes with every vote of `user_id` on `note_id` taken out.
pub open spec fn without_pair(votes: Seq<DBVote>, user_id: u128, note_id: u128) -> Seq<DBVote>
    decreases votes.len(),
{
    if votes.len() == 0 {
        votes
    } else if is_vote_of(votes.last(), user_id, note_id) {
        without_pair(votes.drop_last(), user_id, note_id)
    } else {
        without_pair(votes.drop_last(), user_id, note_id).push(votes.last())
    }
}

/// A vote with its direction set.
pub open spec fn redirected(v: DBVote, is_upvote: bool) -> DBVote {
    DBVote { is_upvote, ..v }
}

/// The votes with the direction of every vote of `user_id` on `note_id` set.
pub open spec fn with_direction(
    votes: Seq<DBVote>,
    user_id: u128,
    note_id: u128,
    is_upvote: bool,
) -> Seq<DBVote> {
    Seq::new(
        votes.len(),
        |i: int|
            if is_vote_of(votes[i], user_id, note_id) {
                redirected(votes[i], is_upvote)
            } else {
                votes[i]
            },
    )
}

/// How many stored votes on `note_id` have the direction `is_upvote`.
pub open spec fn votes_on(votes: Seq<DBVote>, note_id: u128, is_upvote: bool) -> nat
    decreases votes.len(),
{
    if votes.len() == 0 {
        0
    } else {
        votes_on(votes.drop_last(), note_id, is_upvote) + if votes.last().note_id == note_id
            && votes.last().is_upvote == is_upvote {
            1nat
        } else {
            0nat
        }
    }
}

/// What one vote adds to the count of the votes on `note_id` with the
/// direction `is_upvote`.
pub open spec fn counts_as(note_id: u128, is_upvote: bool) -> spec_fn(DBVote) -> int {
    |v: DBVote|
        if v.note_id == note_id && v.is_upvote == is_upvote {
            1int
        } else {
            0int
        }
}

/// The count of the votes on a note is a sum over the votes.
pub proof fn lemma_votes_on_is_total(votes: Seq<DBVote>, note_id: u128, is_upvote: bool)
    ensures
        votes_on(votes, note_id, is_upvote) == total(votes, counts_as(note_id, is_upvote)),
    decreases votes.len(),
{
    if votes.len() > 0 {
        lemma_votes_on_is_total(votes.drop_last(), note_id, is_upvote);
    }
}

/// The counts of the votes on a note do not depend on the order in which
/// the votes are stored.
pub proof fn lemma_votes_on_reordered(
    first: Seq<DBVote>,
    second: Seq<DBVote>,
    note_id: u128,
    is_upvote: bool,
)
    requires
        same_elements(first, second),
    ensures
        votes_on(first, note_id, is_upvote) == votes_on(second, note_id, is_upvote),
{
    lemma_votes_on_is_total(first, note_id, is_upvote);
    lemma_votes_on_is_total(second, note_id, is_upvote);
    lemma_total_reordered(first, second, counts_as(note_id, is_upvote));
}

/// Counts the stored votes on a note that have the direction `is_upvote`.
/// The counts are read from the votes each time and kept nowhere.
pub fn count_votes(votes: &Vec<DBVote>, note_id: u128, is_upvote: bool) -> (count: usize)
    ensures
        count == votes_on(votes@, note_id, is_upvote),
{
    let mut count: usize = 0;
    let mut i: usize = 0;
    assert(votes@.take(0) =~= Seq::<DBVote>::empty());
    while i < votes.len()
        invariant
            i <= votes.len(),
            count <= i,
            count == votes_on(votes@.take(i as int), note_id, is_upvote),
        decreases votes.len() - i,
    {
        assert(votes@.take(i + 1).drop_last() =~= votes@.take(i as int));
        if votes[i].note_id == note_id && votes[i].is_upvote == is_upvote {
            count += 1;
        }
        i += 1;
    }
    assert(votes@.take(i as int) =~= votes@);
    count
}

/// The caller's own vote on a note: its direction, or nothing where the
/// caller is unknown or has not voted.
pub open spec fn caller_vote(votes: Seq<DBVote>, caller: Option<u128>, note_id: u128) -> Option<
    bool,
> {
    match caller {
        Some(user_id) => vote_state(votes, user_id, note_id),
        None => None,
    }
}

/// Reads the caller's own vote on a note.
pub fn user_vote(votes: &Vec<DBVote>, caller: Option<u128>, note_id: u128) -> (r: Option<bool>)
    ensures
        r == caller_vote(votes@, caller, note_id),
{
    match caller {
        Some(user_id) => match find_vote(votes, user_id, note_id) {
            Some(i) => Some(votes[i].is_upvote),
            None => None,
        },
        None => None,
    }
}

/// One call of the vote engine: who votes on what, and the identifier and
/// the instant that a new vote would get.
pub struct VoteCall {
    pub user_id: u128,
    pub note_id: u128,
    pub vote_type: VoteType,
    pub new_id: u128,
    pub now: i64,
}

impl VoteCall {
    /// The vote that this call stores where the user has none on the note.
    pub open spec fn new_vote(self, is_upvote: bool) -> DBVote {
        DBVote {
            id: self.new_id,
            user_id: self.user_id,
            note_id: self.note_id,
            is_upvote,
            created_at: Some(self.now),
        }
    }

    /// The stored votes after this call.
    pub open spec fn votes_after(self, votes: Seq<DBVote>) -> Seq<DBVote> {
        let existing = first_vote_of(votes, self.user_id, self.note_id) is Some;
        match planned_action(existing, self.vote_type) {
            VoteAction::Insert(is_upvote) => votes.push(self.new_vote(is_upvote)),
            VoteAction::Update(is_upvote) => with_direction(
                votes,
                self.user_id,
                self.note_id,
                is_upvote,
            ),
            VoteAction::Delete => without_pair(votes, self.user_id, self.note_id),
            VoteAction::Nothing => votes,
        }
    }

    /// The vote that this call answers with: the user's vote on the note as
    /// it then stands, or none where it was removed or never there.
    pub open spec fn answer(self, votes: Seq<DBVote>) -> Option<DBVote> {
        match self.vote_type {
            VoteType::Upvote(is_upvote) => match first_vote_of(votes, self.user_id, self.note_id) {
                Some(v) => Some(redirected(v, is_upvote)),
                None => Some(self.new_vote(is_upvote)),
            },
            VoteType::Remove => None,
        }
    }

    /// The state that the call leaves between its user and its note.
    pub open spec fn state_after(self) -> Option<bool> {
        match self.vote_type {
            VoteType::Upvote(is_upvote) => Some(is_upvote),
            VoteType::Remove => None,
        }
    }
}

/// Index of the first vote of `user_id` on `note_id`.
pub fn find_vote(votes: &Vec<DBVote>, user_id: u128, note_id: u128) -> (r: Option<usize>)
    ensures
        match r {
            Some(i) => i < votes.len() && first_vote_of(votes@, user_id, note_id) == Some(
                votes@[i as int],
            ),
            None => first_vote_of(votes@, user_id, note_id) is None,
        },
{
    let mut i: usize = 0;
    while i < votes.len()
        invariant
            i <= votes.len(),
            first_vote_of(votes@.take(i as int), user_id, note_id) is None,
        decreases votes.len() - i,
    {
        let v = &votes[i];
        assert(votes@.take(i + 1).drop_last() =~= votes@.take(i as int));
        if v.user_id == user_id && v.note_id == note_id {
            proof {
                lemma_first_vote_of_prefix(votes@, user_id, note_id, i + 1);
            }
            return Some(i);
        }
        i += 1;
    }
    assert(votes@.take(i as int) =~= votes@);
    None
}

/// The first vote of a pair in a prefix is the first one in the whole.
pub proof fn lemma_first_vote_of_prefix(votes: Seq<DBVote>, user_id: u128, note_id: u128, k: int)
    requires
        0 <= k <= votes.len(),
        first_vote_of(votes.take(k), user_id, note_id) is Some,
    ensures
        first_vote_of(votes, user_id, note_id) == first_vote_of(votes.take(k), user_id, note_id),
    decreases votes.len() - k,
{
    if k < votes.len() {
        assert(votes.take(k + 1).drop_last() =~= votes.take(k));
        lemma_first_vote_of_prefix(votes, user_id, note_id, k + 1);
    } else {
        assert(votes.take(k) =~= votes);
    }
}

/// Applies a vote request to the stored votes, as one transaction does:
/// read the user's vote on the note, then insert, update or delete.
/// `new_id` and `now` are what a new vote gets as identifier and instant.
/// Returns the user's vote as it then stands.
pub fn vote(
    votes: &mut Vec<DBVote>,
    user_id: u128,
    note_id: u128,
    vote_type: VoteType,
    new_id: u128,
    now: i64,
) -> (r: Option<DBVote>)
    ensures
        final(votes)@ == (VoteCall { user_id, note_id, vote_type, new_id, now }).votes_after(
            old(votes)@,
        ),
        r == (VoteCall { user_id, note_id, vote_type, new_id, now }).answer(old(votes)@),
{
    let existing = find_vote(votes, user_id, note_id);
    match plan_vote(existing.is_some(), vote_type) {
        VoteAction::Insert(is_upvote) => {
            let v = DBVote { id: new_id, user_id, note_id, is_upvote, created_at: Some(now) };
            votes.push(v);
            Some(v)
        },
        VoteAction::Update(is_upvote) => {
            let first = existing.unwrap();
            let answer = DBVote {
                id: votes[first].id,
                user_id: votes[first].user_id,
                note_id: votes[first].note_id,
                is_upvote,
                created_at: votes[first].created_at,
            };
            set_direction(votes, user_id, note_id, is_upvote);
            Some(answer)
        },
        VoteAction::Delete => {
            remove_pair(votes, user_id, note_id);
            None
        },
        VoteAction::Nothing => None,
    }
}

/// Sets the direction of every vote of `user_id` on `note_id`.
fn set_direction(votes: &mut Vec<DBVote>, user_id: u128, note_id: u128, is_upvote: bool)
    ensures
        final(votes)@ == with_direction(old(votes)@, user_id, note_id, is_upvote),
{
    let mut i: usize = 0;
    while i < votes.len()
        invariant
            i <= votes.len(),
            votes.len() == old(votes).len(),
            forall|j: int|
                0 <= j < i ==> votes@[j] == with_direction(
                    old(votes)@,
                    user_id,
                    note_id,
                    is_upvote,
                )[j],
            forall|j: int| i <= j < votes.len() ==> votes@[j] == old(votes)@[j],
        decreases votes.len() - i,
    {
        let v = votes[i];
        if v.user_id == user_id && v.note_id == note_id {
            votes.set(
                i,
                DBVote {
                    id: v.id,
                    user_id: v.user_id,
                    note_id: v.note_id,
                    is_upvote,
                    created_at: v.created_at,
                },
            );
        }
        i += 1;
    }
    assert(votes@ =~= with_direction(old(votes)@, user_id, note_id, is_upvote));
}

/// Takes out every vote of `user_id` on `note_id`.
fn remove_pair(votes: &mut Vec<DBVote>, user_id: u128, note_id: u128)
    ensures
        final(votes)@ == without_pair(old(votes)@, user_id, note_id),
{
    let mut kept: Vec<DBVote> = Vec::new();
    let mut i: usize = 0;
    assert(votes@.take(0) =~= Seq::<DBVote>::empty());
    while i < votes.len()
        invariant
            i <= votes.len(),
            votes@ == old(votes)@,
            kept@ == without_pair(votes@.take(i as int), user_id, note_id),
        decreases votes.len() - i,
    {
        let v = votes[i];
        assert(votes@.take(i + 1).drop_last() =~= votes@.take(i as int));
        if !(v.user_id == user_id && v.note_id == note_id) {
            kept.push(v);
        }
        i += 1;
    }
    assert(votes@.take(i as int) =~= votes@);
    *votes = kept;
}

/// A pair has a first vote exactly when it has any vote.
pub proof fn lemma_first_vote_counts(votes: Seq<DBVote>, user_id: u128, note_id: u128)
    ensures
        first_vote_of(votes, user_id, note_id) is None <==> count_pair(votes, user_id, note_id)
            == 0,
        first_vote_of(votes, user_id, note_id) matches Some(v) ==> is_vote_of(v, user_id, note_id),
    decreases votes.len(),
{
    if votes.len() > 0 {
        lemma_first_vote_counts(votes.drop_last(), user_id, note_id);
    }
}

/// Taking out the votes of a pair leaves that pair without a vote and every
/// other pair as it was.
pub proof fn lemma_without_pair(
    votes: Seq<DBVote>,
    user_id: u128,
    note_id: u128,
    other_user: u128,
    other_note: u128,
)
    ensures
        count_pair(without_pair(votes, user_id, note_id), other_user, other_note) == if other_user
            == user_id && other_note == note_id {
            0
        } else {
            count_pair(votes, other_user, other_note)
        },
        first_vote_of(without_pair(votes, user_id, note_id), other_user, other_note)
            == if other_user == user_id && other_note == note_id {
            None
        } else {
            first_vote_of(votes, other_user, other_note)
        },
    decreases votes.len(),
{
    if votes.len() > 0 {
        let rest = votes.drop_last();
        lemma_without_pair(rest, user_id, note_id, other_user, other_note);
        if !is_vote_of(votes.last(), user_id, note_id) {
            let kept = without_pair(rest, user_id, note_id);
            assert(kept.push(votes.last()).drop_last() =~= kept);
        }
    }
}

/// Setting the direction of a pair's votes changes no count, sets the
/// direction of that pair's first vote and leaves every other pair as it was.
pub proof fn lemma_with_direction(
    votes: Seq<DBVote>,
    user_id: u128,
    note_id: u128,
    is_upvote: bool,
    other_user: u128,
    other_note: u128,
)
    ensures
        count_pair(with_direction(votes, user_id, note_id, is_upvote), other_user, other_note)
            == count_pair(votes, other_user, other_note),
        first_vote_of(with_direction(votes, user_id, note_id, is_upvote), other_user, other_note)
            == if other_user == user_id && other_note == note_id {
            match first_vote_of(votes, user_id, note_id) {
                Some(v) => Some(redirected(v, is_upvote)),
                None => None,
            }
        } else {
            first_vote_of(votes, other_user, other_note)
        },
    decreases votes.len(),
{
    if votes.len() > 0 {
        let rest = votes.drop_last();
        lemma_with_direction(rest, user_id, note_id, is_upvote, other_user, other_note);
        assert(with_direction(votes, user_id, note_id, is_upvote).drop_last() =~= with_direction(
            rest,
            user_id,
            note_id,
            is_upvote,
        ));
    }
}

/// What one call does to any pair of user and note: the pair of the call
/// ends in the state that the call asks for, with one vote where it asks for
/// one and none where it asks for none, and every other pair keeps its votes.
/// Removing a vote that is not there changes nothing.
pub proof fn lemma_vote_call(call: VoteCall, votes: Seq<DBVote>, user_id: u128, note_id: u128)
    requires
        count_pair(votes, call.user_id, call.note_id) <= 1,
    ensures
        user_id == call.user_id && note_id == call.note_id ==> {
            &&& vote_state(call.votes_after(votes), user_id, note_id) == call.state_after()
            &&& count_pair(call.votes_after(votes), user_id, note_id) == if call.vote_type
                is Upvote {
                1nat
            } else {
                0nat
            }
        },
        !(user_id == call.user_id && note_id == call.note_id) ==> {
            &&& vote_state(call.votes_after(votes), user_id, note_id) == vote_state(
                votes,
                user_id,
                note_id,
            )
            &&& count_pair(call.votes_after(votes), user_id, note_id) == count_pair(
                votes,
                user_id,
                note_id,
            )
        },
        call.vote_type is Remove && first_vote_of(votes, call.user_id, call.note_id) is None
            ==> call.votes_after(votes) == votes,
{
    lemma_first_vote_counts(votes, call.user_id, call.note_id);
    lemma_first_vote_counts(votes, user_id, note_id);
    lemma_without_pair(votes, call.user_id, call.note_id, user_id, note_id);
    match call.vote_type {
        VoteType::Upvote(is_upvote) => {
            lemma_with_direction(votes, call.user_id, call.note_id, is_upvote, user_id, note_id);
            let v = call.new_vote(is_upvote);
            assert(votes.push(v).drop_last() =~= votes);
        },
        VoteType::Remove => {},
    }
}

/// The stored votes after a run of calls, one after the other.
pub open spec fn votes_after_all(votes: Seq<DBVote>, calls: Seq<VoteCall>) -> Seq<DBVote>
    decreases calls.len(),
{
    if calls.len() == 0 {
        votes
    } else {
        calls.last().votes_after(votes_after_all(votes, calls.drop_last()))
    }
}

/// The state that the last call on a pair asks for, or `before` where no
/// call in the run is on that pair.
pub open spec fn last_asked(
    calls: Seq<VoteCall>,
    user_id: u128,
    note_id: u128,
    before: Option<bool>,
) -> Option<bool>
    decreases calls.len(),
{
    if calls.len() == 0 {
        before
    } else if calls.last().user_id == user_id && calls.last().note_id == note_id {
        calls.last().state_after()
    } else {
        last_asked(calls.drop_last(), user_id, note_id, before)
    }
}

/// Vote exclusivity. Whatever calls are made, in whatever order, on votes
/// that hold at most one vote for each user and note: afterwards there is
/// still at most one vote for each user and note, and the state of every
/// pair is the one that the last call on that pair asked for.
pub proof fn lemma_vote_exclusivity(votes: Seq<DBVote>, calls: Seq<VoteCall>)
    requires
        one_vote_each(votes),
    ensures
        one_vote_each(votes_after_all(votes, calls)),
        forall|user_id: u128, note_id: u128|
            #[trigger] vote_state(votes_after_all(votes, calls), user_id, note_id) == last_asked(
                calls,
                user_id,
                note_id,
                vote_state(votes, user_id, note_id),
            ),
    decreases calls.len(),
{
    if calls.len() > 0 {
        let call = calls.last();
        let before = votes_after_all(votes, calls.drop_last());
        lemma_vote_exclusivity(votes, calls.drop_last());
        assert(count_pair(before, call.user_id, call.note_id) <= 1);
        assert forall|user_id: u128, note_id: u128| #[trigger]
            count_pair(call.votes_after(before), user_id, note_id) <= 1 by {
            lemma_vote_call(call, before, user_id, note_id);
            assert(count_pair(before, user_id, note_id) <= 1);
        }
        assert forall|user_id: u128, note_id: u128| #[trigger]
            vote_state(call.votes_after(before), user_id, note_id) == last_asked(
                calls,
                user_id,
                note_id,
                vote_state(votes, user_id, note_id),
            ) by {
            lemma_vote_call(call, before, user_id, note_id);
            assert(vote_state(before, user_id, note_id) == last_asked(
                calls.drop_last(),
                user_id,
                note_id,
                vote_state(votes, user_id, note_id),
            ));
        }
    }
}

/// How many stored votes `user_id` has on `note_id` with the direction
/// `is_upvote`.
pub open spec fn count_pair_towards(
    votes: Seq<DBVote>,
    user_id: u128,
    note_id: u128,
    is_upvote: bool,
) -> nat
    decreases votes.len(),
{
    if votes.len() == 0 {
        0
    } else {
        count_pair_towards(votes.drop_last(), user_id, note_id, is_upvote) + if is_vote_of(
            votes.last(),
            user_id,
            note_id,
        ) && votes.last().is_upvote == is_upvote {
            1nat
        } else {
            0nat
        }
    }
}

/// What a state between a user and a note adds to the count of the votes
/// with the direction `is_upvote`.
pub open spec fn counts_towards(state: Option<bool>, is_upvote: bool) -> int {
    if state == Some(is_upvote) {
        1
    } else {
        0
    }
}

/// Where a pair has at most one vote, its votes towards a direction are
/// what its state says.
pub proof fn lemma_count_pair_towards(
    votes: Seq<DBVote>,
    user_id: u128,
    note_id: u128,
    is_upvote: bool,
)
    requires
        count_pair(votes, user_id, note_id) <= 1,
    ensures
        count_pair_towards(votes, user_id, note_id, is_upvote) == counts_towards(
            vote_state(votes, user_id, note_id),
            is_upvote,
        ),
        count_pair(votes, user_id, note_id) == if vote_state(votes, user_id, note_id) is Some {
            1nat
        } else {
            0nat
        },
    decreases votes.len(),
{
    if votes.len() > 0 {
        let rest = votes.drop_last();
        lemma_count_pair_towards(rest, user_id, note_id, is_upvote);
        lemma_first_vote_counts(rest, user_id, note_id);
    }
}

/// What taking out a pair's votes, or setting their direction, does to the
/// count of the votes on a note.
pub proof fn lemma_votes_on_after_write(
    votes: Seq<DBVote>,
    user_id: u128,
    note_id: u128,
    towards: bool,
    counted_note: u128,
    is_upvote: bool,
)
    ensures
        votes_on(without_pair(votes, user_id, note_id), counted_note, is_upvote) == votes_on(
            votes,
            counted_note,
            is_upvote,
        ) - if counted_note == note_id {
            count_pair_towards(votes, user_id, note_id, is_upvote)
        } else {
            0nat
        },
        votes_on(with_direction(votes, user_id, note_id, towards), counted_note, is_upvote)
            == votes_on(votes, counted_note, is_upvote) - if counted_note == note_id {
            count_pair_towards(votes, user_id, note_id, is_upvote)
        } else {
            0nat
        } + if counted_note == note_id && towards == is_upvote {
            count_pair(votes, user_id, note_id)
        } else {
            0nat
        },
    decreases votes.len(),
{
    if votes.len() > 0 {
        let rest = votes.drop_last();
        lemma_votes_on_after_write(rest, user_id, note_id, towards, counted_note, is_upvote);
        if !is_vote_of(votes.last(), user_id, note_id) {
            let kept = without_pair(rest, user_id, note_id);
            assert(kept.push(votes.last()).drop_last() =~= kept);
        }
        assert(with_direction(votes, user_id, note_id, towards).drop_last() =~= with_direction(
            rest,
            user_id,
            note_id,
            towards,
        ));
    }
}

/// The counts follow the votes. After a call on votes that hold at most
/// one vote of the caller on the note, the count of the votes on that note
/// towards a direction has gone down by the caller's old vote, if it was
/// towards it, and up by the new one, if it is; the counts on every other
/// note are as they were.
pub proof fn lemma_vote_call_counts(
    call: VoteCall,
    votes: Seq<DBVote>,
    counted_note: u128,
    is_upvote: bool,
)
    requires
        count_pair(votes, call.user_id, call.note_id) <= 1,
    ensures
        votes_on(call.votes_after(votes), counted_note, is_upvote) == votes_on(
            votes,
            counted_note,
            is_upvote,
        ) + if counted_note == call.note_id {
            counts_towards(call.state_after(), is_upvote) - counts_towards(
                vote_state(votes, call.user_id, call.note_id),
                is_upvote,
            )
        } else {
            0
        },
{
    lemma_count_pair_towards(votes, call.user_id, call.note_id, is_upvote);
    lemma_first_vote_counts(votes, call.user_id, call.note_id);
    match call.vote_type {
        VoteType::Upvote(towards) => {
            lemma_votes_on_after_write(
                votes,
                call.user_id,
                call.note_id,
                towards,
                counted_note,
                is_upvote,
            );
            let v = call.new_vote(towards);
            assert(votes.push(v).drop_last() =~= votes);
        },
        VoteType::Remove => {
            lemma_votes_on_after_write(
                votes,
                call.user_id,
                call.note_id,
                true,
                counted_note,
                is_upvote,
            );
        },
    }
}

} // verus!
