//! Votes and vote tallies.

use vstd::prelude::*;

verus! {

/// One agent's vote on a matchup, with its optional comment.
#[derive(Debug, Clone)]
pub struct Vote {
    pub id: String,
    pub matchup_id: String,
    pub voter_id: String,
    /// `"a"` or `"b"`.
    pub choice: String,
    pub comment: Option<String>,
    pub created_at: String,
}

/// The votes a matchup has received for each side.
#[derive(Debug, Clone, Copy, PartialEq, Eq)]
pub struct VoteTally {
    pub votes_a: i64,
    pub votes_b: i64,
}

} // verus!
