use notes_core::models::{DBVote, Note, User};
use notes_core::ranking::{
    get_leaderboard, get_user_leaderboard_position, reputation_above, reputation_level,
    stats_precede, stats_same_standing, user_stats, LeaderboardEntry, LeaderboardError,
    Reputation, UserStats,
};

fn user(id: u128, name: &str) -> User {
    User {
        id,
        google_id: format!("g-{}", id),
        email: format!("{}@example.org", name),
        full_name: name.to_string(),
        created_at: 0,
        picture: format!("pic-{}", id),
    }
}

fn note(id: u128, uploader: u128, downloads: i64) -> Note {
    Note {
        id,
        course_name: "Course".to_string(),
        course_code: "C1".to_string(),
        description: None,
        professor_names: None,
        tags: Vec::new(),
        is_public: true,
        has_preview_image: false,
        uploader_user_id: uploader,
        created_at: 0,
        downloads,
        note_year: 2025,
        note_semester: "Autumn".to_string(),
    }
}

fn ballot(id: u128, user_id: u128, note_id: u128, is_upvote: bool) -> DBVote {
    DBVote { id, user_id, note_id, is_upvote, created_at: None }
}

fn stats(id: u128, notes: i64, upvotes: i64, downloads: i64) -> UserStats {
    UserStats {
        id,
        full_name: String::new(),
        picture: String::new(),
        total_notes: notes,
        total_upvotes: upvotes,
        total_downloads: downloads,
    }
}

fn campus() -> (Vec<User>, Vec<Note>, Vec<DBVote>) {
    let users = vec![
        user(5, "Eve"),
        user(1, "Ada"),
        user(4, "Dan"),
        user(2, "Bob"),
        user(6, "Fay"),
        user(3, "Cy"),
    ];
    let notes = vec![
        note(101, 1, 5),
        note(102, 1, 5),
        note(103, 2, 0),
        note(104, 3, 10),
        note(105, 6, 0),
    ];
    let votes = vec![
        ballot(1, 2, 101, true),
        ballot(2, 3, 101, true),
        ballot(3, 4, 101, true),
        ballot(4, 1, 103, true),
        ballot(5, 3, 103, false),
        ballot(6, 1, 104, true),
        ballot(7, 2, 104, true),
        ballot(8, 9, 999, true),
    ];
    (users, notes, votes)
}

fn line(id: u128, name: &str, rep: (u128, u64), totals: (i64, i64, i64), rank: i64) -> LeaderboardEntry {
    LeaderboardEntry {
        id,
        full_name: name.to_string(),
        picture: format!("pic-{}", id),
        reputation: Reputation { numerator: rep.0, denominator: rep.1 },
        total_notes: totals.0,
        total_upvotes: totals.1,
        total_downloads: totals.2,
        rank,
    }
}

fn value(r: Reputation) -> f64 {
    r.numerator as f64 / r.denominator as f64
}

#[test]
fn reputation_is_upvotes_per_note_times_the_sum() {
    assert_eq!(Reputation::new(2, 3, 10), Reputation { numerator: 45, denominator: 2 });
    assert_eq!(value(Reputation::new(2, 3, 10)), 22.5);
    assert_eq!(Reputation::new(1, 2, 10), Reputation { numerator: 26, denominator: 1 });
    assert_eq!(Reputation::new(4, 1, 0), Reputation { numerator: 5, denominator: 4 });
    assert_eq!(value(Reputation::new(4, 1, 0)), 1.25);
    assert_eq!(Reputation::new(3, 0, 100), Reputation { numerator: 0, denominator: 3 });
    for (n, u, d) in [(1i64, 1i64, 1i64), (3, 7, 11), (10, 2, 0), (7, 7, 7)] {
        let expected = (u as f64 / n as f64) * (n + u + d) as f64;
        assert!((value(Reputation::new(n, u, d)) - expected).abs() < 1e-9);
    }
}

#[test]
fn reputation_without_notes_is_zero() {
    assert_eq!(Reputation::new(0, 0, 0), Reputation { numerator: 0, denominator: 1 });
    assert_eq!(Reputation::new(0, 5, 9), Reputation { numerator: 0, denominator: 1 });
    assert_eq!(value(Reputation::new(0, 5, 9)), 0.0);
}

#[test]
fn reputation_holds_the_largest_totals() {
    let m = i64::MAX;
    let r = Reputation::new(m, m, m);
    assert_eq!(r.numerator, (m as u128) * (3 * (m as u128)));
    assert_eq!(r.denominator, m as u64);
    let s = Reputation::new(m - 1, m, m);
    assert!(reputation_above(s, r));
    assert!(!reputation_above(r, s));
    assert!(!reputation_level(r, s));
    assert!(reputation_level(r, r));
}

#[test]
fn reputations_compare_as_fractions() {
    let half = Reputation { numerator: 1, denominator: 2 };
    let two_quarters = Reputation { numerator: 2, denominator: 4 };
    let third = Reputation { numerator: 1, denominator: 3 };
    assert!(reputation_level(half, two_quarters));
    assert!(!reputation_above(half, two_quarters));
    assert!(reputation_above(half, third));
    assert!(!reputation_above(third, half));
    assert!(!reputation_level(third, half));
    let big = Reputation { numerator: u128::MAX, denominator: u64::MAX };
    let big_less = Reputation { numerator: u128::MAX - 1, denominator: u64::MAX };
    assert!(reputation_above(big, big_less));
    assert!(!reputation_above(big_less, big));
    assert!(reputation_level(big, big));
    let near = Reputation { numerator: u128::MAX, denominator: u64::MAX - 1 };
    assert!(reputation_above(near, big));
}

#[test]
fn users_are_ordered_by_reputation_notes_and_identifier() {
    let high = stats(9, 1, 2, 10);
    let low = stats(1, 1, 1, 0);
    assert!(stats_precede(&high, &low));
    assert!(!stats_precede(&low, &high));
    // 8/2 and 4/1 are level: the one with more notes stands first.
    let more_notes = stats(9, 2, 2, 0);
    let fewer_notes = stats(1, 1, 1, 2);
    assert!(stats_precede(&more_notes, &fewer_notes));
    assert!(!stats_precede(&fewer_notes, &more_notes));
    assert!(!stats_same_standing(&more_notes, &fewer_notes));
    // The same standing: the smaller identifier stands first.
    let a = stats(3, 1, 1, 2);
    let b = stats(4, 1, 1, 2);
    assert!(stats_same_standing(&a, &b));
    assert!(stats_precede(&a, &b));
    assert!(!stats_precede(&b, &a));
    assert!(!stats_precede(&a, &a));
}

#[test]
fn user_stats_add_up_notes_upvotes_and_downloads() {
    let (users, notes, votes) = campus();
    let ada = user_stats(&users[1], &notes, &votes).unwrap();
    assert_eq!(ada, UserStats {
        id: 1,
        full_name: "Ada".to_string(),
        picture: "pic-1".to_string(),
        total_notes: 2,
        total_upvotes: 3,
        total_downloads: 10,
    });
    let bob = user_stats(&users[3], &notes, &votes).unwrap();
    assert_eq!((bob.total_notes, bob.total_upvotes, bob.total_downloads), (1, 1, 0));
    let eve = user_stats(&users[0], &notes, &votes).unwrap();
    assert_eq!((eve.total_notes, eve.total_upvotes, eve.total_downloads), (0, 0, 0));
}

#[test]
fn downloads_count_once_for_each_note() {
    // A note with many votes still adds its downloads once.
    let users = vec![user(1, "Ada")];
    let notes = vec![note(101, 1, 10)];
    let votes = vec![ballot(1, 2, 101, true), ballot(2, 3, 101, true), ballot(3, 4, 101, false)];
    let ada = user_stats(&users[0], &notes, &votes).unwrap();
    assert_eq!((ada.total_notes, ada.total_upvotes, ada.total_downloads), (1, 2, 10));
}

#[test]
fn the_leaderboard_ranks_every_user() {
    let (users, notes, votes) = campus();
    let board = get_leaderboard(&users, &notes, &votes, 20).unwrap();
    assert_eq!(
        board,
        vec![
            line(3, "Cy", (26, 1), (1, 2, 10), 1),
            line(1, "Ada", (45, 2), (2, 3, 10), 2),
            line(2, "Bob", (2, 1), (1, 1, 0), 3),
            line(6, "Fay", (0, 1), (1, 0, 0), 4),
            line(4, "Dan", (0, 1), (0, 0, 0), 5),
            line(5, "Eve", (0, 1), (0, 0, 0), 5),
        ]
    );
}

#[test]
fn ranks_are_dense() {
    let users = vec![user(1, "a"), user(2, "b"), user(3, "c"), user(4, "d"), user(5, "e")];
    let notes = vec![note(11, 1, 2), note(12, 2, 2), note(13, 3, 0), note(14, 4, 0)];
    let votes = vec![
        ballot(1, 9, 11, true),
        ballot(2, 9, 12, true),
        ballot(3, 9, 13, true),
        ballot(4, 9, 14, true),
    ];
    let board = get_leaderboard(&users, &notes, &votes, 10).unwrap();
    let seen: Vec<(u128, i64)> = board.iter().map(|e| (e.id, e.rank)).collect();
    assert_eq!(seen, vec![(1, 1), (2, 1), (3, 2), (4, 2), (5, 3)]);
}

#[test]
fn the_limit_cuts_the_board_and_keeps_the_ranks() {
    let (users, notes, votes) = campus();
    let whole = get_leaderboard(&users, &notes, &votes, i64::MAX).unwrap();
    assert_eq!(whole.len(), 6);
    for limit in 0..8i64 {
        let shown = get_leaderboard(&users, &notes, &votes, limit).unwrap();
        let expected = std::cmp::min(limit as usize, whole.len());
        assert_eq!(shown, whole[..expected].to_vec());
    }
}

#[test]
fn the_leaderboard_is_the_same_each_time() {
    let (users, notes, votes) = campus();
    let first = get_leaderboard(&users, &notes, &votes, 4);
    let second = get_leaderboard(&users, &notes, &votes, 4);
    assert_eq!(first, second);
    // The order of the rows does not matter either.
    let mut users_back = users.clone();
    users_back.reverse();
    let mut notes_back = notes.clone();
    notes_back.reverse();
    let mut votes_back = votes.clone();
    votes_back.reverse();
    assert_eq!(get_leaderboard(&users_back, &notes_back, &votes_back, 4), first);
}

#[test]
fn a_position_is_the_line_of_the_whole_board() {
    let (users, notes, votes) = campus();
    let whole = get_leaderboard(&users, &notes, &votes, 100).unwrap();
    for entry in &whole {
        assert_eq!(
            get_user_leaderboard_position(&users, &notes, &votes, entry.id),
            Ok(Some(entry.clone()))
        );
    }
    assert_eq!(get_user_leaderboard_position(&users, &notes, &votes, 77), Ok(None));
    let eve = get_user_leaderboard_position(&users, &notes, &votes, 5).unwrap().unwrap();
    assert_eq!(eve.rank, 5);
    assert_eq!(eve.reputation.numerator, 0);
    assert_eq!(value(eve.reputation), 0.0);
}

#[test]
fn a_board_without_users_is_empty() {
    let none: Vec<User> = Vec::new();
    let (_, notes, votes) = campus();
    assert_eq!(get_leaderboard(&none, &notes, &votes, 5), Ok(Vec::new()));
    assert_eq!(get_user_leaderboard_position(&none, &notes, &votes, 1), Ok(None));
}

#[test]
fn a_limit_below_zero_is_refused() {
    let (users, notes, votes) = campus();
    assert_eq!(get_leaderboard(&users, &notes, &votes, -1), Err(LeaderboardError::NegativeLimit));
    assert_eq!(get_leaderboard(&users, &notes, &votes, i64::MIN), Err(LeaderboardError::NegativeLimit));
}

#[test]
fn totals_out_of_range_are_refused() {
    let users = vec![user(1, "Ada"), user(2, "Bob")];
    let votes: Vec<DBVote> = Vec::new();
    let too_many = vec![note(1, 1, i64::MAX), note(2, 1, 1)];
    assert_eq!(user_stats(&users[0], &too_many, &votes), None);
    assert!(user_stats(&users[1], &too_many, &votes).is_some());
    assert_eq!(get_leaderboard(&users, &too_many, &votes, 5), Err(LeaderboardError::TotalsOutOfRange));
    assert_eq!(
        get_user_leaderboard_position(&users, &too_many, &votes, 2),
        Err(LeaderboardError::TotalsOutOfRange)
    );
    let below_zero = vec![note(1, 2, -1)];
    assert_eq!(user_stats(&users[1], &below_zero, &votes), None);
    assert_eq!(get_leaderboard(&users, &below_zero, &votes, 5), Err(LeaderboardError::TotalsOutOfRange));
    let at_the_edge = vec![note(1, 1, i64::MAX - 1), note(2, 1, 1)];
    assert_eq!(user_stats(&users[0], &at_the_edge, &votes).map(|s| s.total_downloads), Some(i64::MAX));
}
