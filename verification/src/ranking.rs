//! The reputation ranker: what each user has gathered, the reputation that
//! follows from it, and the leaderboard in its order.
//!
//! A reputation is kept as an exact fraction, so that two of them compare
//! without rounding. The leaderboard orders users by reputation, the higher
//! first, then by their number of notes, the larger first, and then by
//! identifier, the smaller first, so that its order is fixed.

pub mod board;
pub mod order;
pub mod reputation;
pub mod totals;

pub use self::board::{
    LeaderboardEntry, LeaderboardError, dense_rank, entry_of, full_board_of, get_leaderboard,
    get_user_leaderboard_position, leaderboard_of, lemma_dense_rank_bounds, lemma_dense_rank_order,
    lemma_full_board, lemma_leaderboard_deterministic, lemma_leaderboard_of_rows, lemma_place_of,
    lemma_position_matches_board, lemma_user_without_notes, place_of, position_of, ranked,
};
pub use self::order::{
    identified, in_order, inserted, lemma_inserted, lemma_inserted_at, lemma_order_is_unique,
    lemma_ordered, lemma_precedes_is_order, ordered, precedes, same_standing, stats_precede,
    stats_same_standing,
};
pub use self::reputation::{
    Reputation, higher, lemma_fraction_order, level, reputation_above, reputation_level,
    reputation_of,
};
pub use self::totals::{
    UserStats, all_stats, all_valid, counts_for, downloads_for, downloads_of, in_range,
    lemma_all_stats, lemma_all_stats_is_map, lemma_all_stats_prefix, lemma_reputation_in_range,
    lemma_reputation_shape, lemma_stats_reordered, lemma_totals_are_sums, notes_by, stats_in,
    stats_of, upvotes_for, upvotes_through, user_stats,
};
