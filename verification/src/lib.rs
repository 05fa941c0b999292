//! The rules of a campus note-sharing service, verified with Verus.
//!
//! Users sign in through an identity provider, upload PDF notes, vote on
//! notes and are ranked on a leaderboard. This crate holds what the service
//! decides and computes; reading requests, talking to the database and
//! touching files is left to the program around it, which hands plain
//! values in and takes plain values back.
//!
//! - [`upload`]: the upload form and its checks, and the order in which the
//!   store, the files and the preview are touched, with the proofs that a
//!   note is visible only once it is whole.
//! - [`votes`]: the vote engine, with the proof that a user never has more
//!   than one vote on a note.
//! - [`ranking`]: totals, reputations and the leaderboard, with the proofs
//!   of its order and of its ranks.
//! - [`paths`]: the names, paths and addresses of a note's files.
//! - [`notes`], [`users`]: what is read of a note, and the user records.
//! - [`auth`], [`requests`], [`config`]: the decisions around a session,
//!   the queries of the requests, and the settings.
//! - [`errors`], [`models`]: the failures and the records.
//! - [`text`]: the text helpers that the others use.
//!
//! Identifiers are 128-bit numbers, written as UUIDs where they are shown.
//! Instants are microseconds since the Unix epoch.

pub mod auth;
pub mod config;
pub mod errors;
pub mod models;
pub mod notes;
pub mod paths;
pub mod ranking;
pub mod requests;
pub mod sequences;
pub mod text;
pub mod upload;
pub mod users;
pub mod votes;
