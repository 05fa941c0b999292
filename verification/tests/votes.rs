use notes_core::errors::NoteError;
use notes_core::models::DBVote;
use notes_core::votes::{
    count_votes, find_vote, plan_vote, user_vote, vote, VoteAction, VoteRequest, VoteType,
};

fn stored(id: u128, user_id: u128, note_id: u128, is_upvote: bool) -> DBVote {
    DBVote { id, user_id, note_id, is_upvote, created_at: Some(1_700_000_000_000_000) }
}

#[test]
fn vote_tokens_are_upvote_and_remove() {
    let parse = |t: &str| VoteRequest { vote_type: t.to_string() }.parse();
    assert_eq!(parse("upvote"), Ok(VoteType::Upvote(true)));
    assert_eq!(parse("remove"), Ok(VoteType::Remove));
    assert_eq!(
        parse("downvote"),
        Err(NoteError::BadVote(
            "Incorrect vote type: downvote. Available options are: upvote and remove".to_string()
        ))
    );
    assert_eq!(
        parse(""),
        Err(NoteError::BadVote(
            "Incorrect vote type: . Available options are: upvote and remove".to_string()
        ))
    );
    assert!(parse("Upvote").is_err());
    assert!(parse(" upvote").is_err());
}

#[test]
fn plan_vote_covers_the_four_transitions() {
    assert_eq!(plan_vote(false, VoteType::Upvote(true)), VoteAction::Insert(true));
    assert_eq!(plan_vote(true, VoteType::Upvote(true)), VoteAction::Update(true));
    assert_eq!(plan_vote(true, VoteType::Remove), VoteAction::Delete);
    assert_eq!(plan_vote(false, VoteType::Remove), VoteAction::Nothing);
    assert_eq!(plan_vote(false, VoteType::Upvote(false)), VoteAction::Insert(false));
    assert_eq!(plan_vote(true, VoteType::Upvote(false)), VoteAction::Update(false));
}

#[test]
fn upvote_without_a_vote_inserts_one() {
    let mut votes = vec![stored(1, 10, 20, true)];
    let r = vote(&mut votes, 11, 20, VoteType::Upvote(true), 2, 99);
    let expected = DBVote { id: 2, user_id: 11, note_id: 20, is_upvote: true, created_at: Some(99) };
    assert_eq!(r, Some(expected));
    assert_eq!(votes, vec![stored(1, 10, 20, true), expected]);
}

#[test]
fn upvote_with_a_vote_updates_it_in_place() {
    let mut votes = vec![stored(1, 10, 20, false), stored(2, 11, 20, true)];
    let r = vote(&mut votes, 10, 20, VoteType::Upvote(true), 3, 99);
    assert_eq!(r, Some(stored(1, 10, 20, true)));
    assert_eq!(votes, vec![stored(1, 10, 20, true), stored(2, 11, 20, true)]);
    let again = vote(&mut votes, 10, 20, VoteType::Upvote(true), 4, 100);
    assert_eq!(again, Some(stored(1, 10, 20, true)));
    assert_eq!(votes.len(), 2);
}

#[test]
fn remove_deletes_the_vote_and_only_it() {
    let mut votes = vec![stored(1, 10, 20, true), stored(2, 11, 20, true), stored(3, 10, 21, true)];
    let r = vote(&mut votes, 10, 20, VoteType::Remove, 4, 99);
    assert_eq!(r, None);
    assert_eq!(votes, vec![stored(2, 11, 20, true), stored(3, 10, 21, true)]);
}

#[test]
fn remove_without_a_vote_changes_nothing() {
    let mut votes = vec![stored(2, 11, 20, true)];
    let r = vote(&mut votes, 10, 20, VoteType::Remove, 4, 99);
    assert_eq!(r, None);
    assert_eq!(votes, vec![stored(2, 11, 20, true)]);
    let mut none: Vec<DBVote> = Vec::new();
    assert_eq!(vote(&mut none, 10, 20, VoteType::Remove, 4, 99), None);
    assert!(none.is_empty());
}

#[test]
fn a_downvote_is_kept_as_a_direction() {
    let mut votes = Vec::new();
    let r = vote(&mut votes, 1, 2, VoteType::Upvote(false), 7, 5);
    assert_eq!(r.map(|v| v.is_upvote), Some(false));
    assert_eq!(count_votes(&votes, 2, false), 1);
    assert_eq!(count_votes(&votes, 2, true), 0);
    assert_eq!(user_vote(&votes, Some(1), 2), Some(false));
}

#[test]
fn counts_and_own_vote_are_read_from_the_votes() {
    let votes = vec![
        stored(1, 10, 20, true),
        stored(2, 11, 20, true),
        stored(3, 12, 20, false),
        stored(4, 10, 21, true),
    ];
    assert_eq!(count_votes(&votes, 20, true), 2);
    assert_eq!(count_votes(&votes, 20, false), 1);
    assert_eq!(count_votes(&votes, 21, true), 1);
    assert_eq!(count_votes(&votes, 22, true), 0);
    assert_eq!(user_vote(&votes, Some(12), 20), Some(false));
    assert_eq!(user_vote(&votes, Some(10), 21), Some(true));
    assert_eq!(user_vote(&votes, Some(12), 21), None);
    assert_eq!(user_vote(&votes, None, 20), None);
    assert_eq!(find_vote(&votes, 11, 20), Some(1));
    assert_eq!(find_vote(&votes, 11, 21), None);
}

#[test]
fn any_run_of_calls_leaves_at_most_one_vote_per_pair() {
    let calls = [
        (1u128, 5u128, VoteType::Upvote(true)),
        (1, 5, VoteType::Upvote(true)),
        (2, 5, VoteType::Remove),
        (2, 5, VoteType::Upvote(true)),
        (1, 6, VoteType::Upvote(true)),
        (1, 5, VoteType::Remove),
        (1, 5, VoteType::Remove),
        (2, 5, VoteType::Upvote(true)),
        (1, 5, VoteType::Upvote(true)),
        (2, 6, VoteType::Remove),
    ];
    let mut votes: Vec<DBVote> = Vec::new();
    let mut next_id: u128 = 100;
    for (user, note, kind) in calls {
        vote(&mut votes, user, note, kind, next_id, next_id as i64);
        next_id += 1;
        for u in 1..=2u128 {
            for n in 5..=6u128 {
                let rows = votes.iter().filter(|v| v.user_id == u && v.note_id == n).count();
                assert!(rows <= 1);
            }
        }
        let expected = match kind {
            VoteType::Upvote(b) => Some(b),
            VoteType::Remove => None,
        };
        assert_eq!(user_vote(&votes, Some(user), note), expected);
    }
    assert_eq!(user_vote(&votes, Some(1), 5), Some(true));
    assert_eq!(user_vote(&votes, Some(2), 5), Some(true));
    assert_eq!(user_vote(&votes, Some(1), 6), Some(true));
    assert_eq!(user_vote(&votes, Some(2), 6), None);
    assert_eq!(votes.len(), 3);
}
