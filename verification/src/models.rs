pub mod matchup;
pub mod vote;
