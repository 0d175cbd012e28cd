//! Resolution of expired matchups: who won, what happens to the ratings,
//! and what is announced.

use vstd::prelude::*;
use rand::Rng;

use crate::api::live::LiveEvent;
use crate::models::matchup::Matchup;
use crate::models::vote::{Vote, VoteTally};

verus! {

/// Matchups with fewer votes than this are discarded.
pub const MIN_VOTES: i64 = 5;

/// How an expired matchup ends.
#[derive(Debug, Clone)]
pub enum Outcome {
    /// Fewer than five votes: no winner, no rating change.
    Discarded,
    /// As many votes for each side: no winner, no rating change.
    Tied,
    /// One side has more votes.
    Won { winner_id: String, loser_id: String },
}

/// The outcome of a matchup with the given tally: discarded below five
/// votes in all, tied on equal votes, else won by the side with more votes.
pub open spec fn outcome_of(m: Matchup, tally: VoteTally) -> Outcome {
    if tally.votes_a + tally.votes_b < MIN_VOTES {
        Outcome::Discarded
    } else if tally.votes_a == tally.votes_b {
        Outcome::Tied
    } else if tally.votes_a > tally.votes_b {
        Outcome::Won { winner_id: m.agent_a_id, loser_id: m.agent_b_id }
    } else {
        Outcome::Won { winner_id: m.agent_b_id, loser_id: m.agent_a_id }
    }
}

/// A matchup has a winner only with at least five votes and more votes
/// for one side, and the winner is that side; only a won matchup changes
/// ratings, so ties and discarded matchups leave them as they are.
pub proof fn lemma_outcome_rules(m: Matchup, tally: VoteTally)
    ensures
        outcome_of(m, tally) matches Outcome::Won { winner_id, loser_id } ==> {
            &&& tally.votes_a + tally.votes_b >= MIN_VOTES
            &&& tally.votes_a != tally.votes_b
            &&& tally.votes_a > tally.votes_b ==> winner_id == m.agent_a_id && loser_id
                == m.agent_b_id
            &&& tally.votes_b > tally.votes_a ==> winner_id == m.agent_b_id && loser_id
                == m.agent_a_id
        },
        tally.votes_a + tally.votes_b < MIN_VOTES <==> outcome_of(m, tally) is Discarded,
{
}

/// How an expired matchup ends, for every tally: with fewer than five votes
/// in all it is discarded; with five or more it is a tie exactly when both
/// sides have as many votes, and otherwise it is won by the side with more
/// votes, the other side losing.
pub proof fn lemma_judgement(m: Matchup, tally: VoteTally)
    ensures
        tally.votes_a + tally.votes_b < 5 ==> outcome_of(m, tally) is Discarded,
        tally.votes_a + tally.votes_b >= 5 && tally.votes_a == tally.votes_b ==> outcome_of(
            m,
            tally,
        ) is Tied,
        tally.votes_a + tally.votes_b >= 5 && tally.votes_a > tally.votes_b ==> outcome_of(m, tally)
            == (Outcome::Won { winner_id: m.agent_a_id, loser_id: m.agent_b_id }),
        tally.votes_a + tally.votes_b >= 5 && tally.votes_b > tally.votes_a ==> outcome_of(m, tally)
            == (Outcome::Won { winner_id: m.agent_b_id, loser_id: m.agent_a_id }),
        outcome_of(m, tally) is Tied <==> tally.votes_a + tally.votes_b >= 5 && tally.votes_a
            == tally.votes_b,
{
}

/// Decides how an expired matchup ends.
pub fn judge_matchup(m: &Matchup, tally: &VoteTally) -> (o: Outcome)
    requires
        i64::MIN <= tally.votes_a + tally.votes_b <= i64::MAX,
    ensures
        o == outcome_of(*m, *tally),
{
    let total = tally.votes_a + tally.votes_b;
    if total < MIN_VOTES {
        Outcome::Discarded
    } else if tally.votes_a == tally.votes_b {
        Outcome::Tied
    } else if tally.votes_a > tally.votes_b {
        Outcome::Won { winner_id: m.agent_a_id.clone(), loser_id: m.agent_b_id.clone() }
    } else {
        Outcome::Won { winner_id: m.agent_b_id.clone(), loser_id: m.agent_a_id.clone() }
    }
}

impl Outcome {
    /// The status the matchup is stored with: `"discarded"` or `"resolved"`.
    pub fn status(&self) -> (s: &'static str)
        ensures
            s@ == (if *self is Discarded {
                "discarded"@
            } else {
                "resolved"@
            }),
    {
        match self {
            Outcome::Discarded => "discarded",
            _ => "resolved",
        }
    }

    /// The winner's id, if the matchup has one.
    pub fn winner(&self) -> (w: Option<&String>)
        ensures
            w == (match *self {
                Outcome::Won { winner_id, .. } => Some(&winner_id),
                _ => None,
            }),
    {
        match self {
            Outcome::Won { winner_id, .. } => Some(winner_id),
            _ => None,
        }
    }
}

/// An index below `n`, drawn by `rand::Rng::random_range(0..n)` with the
/// thread's random generator. Which index is left open.
#[verifier::external_body]
fn random_below(n: usize) -> (i: usize)
    requires
        n > 0,
    ensures
        i < n,
{
    rand::rng().random_range(0..n)
}

/// The featured comment when the vote at `pick` is chosen: its comment.
pub fn hot_take_at(comments: &Vec<Vote>, pick: usize) -> (h: Option<String>)
    requires
        pick < comments@.len(),
    ensures
        h == comments@[pick as int].comment,
{
    match &comments[pick].comment {
        Some(c) => Some(c.clone()),
        None => None,
    }
}

/// The featured comment ("hot take") of a resolved matchup: the comment of
/// a vote chosen at random among the matchup's commented votes; none when
/// there are none.
pub fn hot_take(comments: &Vec<Vote>) -> (h: Option<String>)
    ensures
        comments@.len() == 0 ==> h is None,
        comments@.len() > 0 ==> exists|i: int|
            0 <= i < comments@.len() && h == (#[trigger] comments@[i]).comment,
{
    if comments.len() == 0 {
        return None;
    }
    let pick = random_below(comments.len());
    hot_take_at(comments, pick)
}

/// The announcement of a resolved matchup. A discarded or tied matchup is
/// announced with neither winner nor comment; a won one with the winner's
/// name (when the winner is still found) and the featured comment.
pub fn resolution_event(
    matchup_id: &String,
    outcome: &Outcome,
    winner_name: Option<String>,
    hot_take: Option<String>,
) -> (e: LiveEvent)
    ensures
        e == (match *outcome {
            Outcome::Won { .. } => LiveEvent::MatchupResolved {
                matchup_id: *matchup_id,
                winner: winner_name,
                hot_take,
            },
            _ => LiveEvent::MatchupResolved { matchup_id: *matchup_id, winner: None, hot_take: None },
        }),
{
    match outcome {
        Outcome::Won { .. } => LiveEvent::MatchupResolved {
            matchup_id: matchup_id.clone(),
            winner: winner_name,
            hot_take,
        },
        _ => LiveEvent::MatchupResolved { matchup_id: matchup_id.clone(), winner: None, hot_take: None },
    }
}

/// The ratings after a win, given the winner's gain.
pub open spec fn elo_after(winner_elo: int, loser_elo: int, gain: int) -> (int, int) {
    (winner_elo + gain, loser_elo - gain)
}

/// The ratings after a win, given the winner's gain (`K * (1 - E)` rounded
/// toward zero, with `E` the winner's expected score and `K = 32`): the
/// winner gains it and the loser loses exactly as much.
pub fn apply_elo_result(winner_elo: i64, loser_elo: i64, gain: i64) -> (r: (i64, i64))
    requires
        i64::MIN <= winner_elo + gain <= i64::MAX,
        i64::MIN <= loser_elo - gain <= i64::MAX,
    ensures
        (r.0 as int, r.1 as int) == elo_after(winner_elo as int, loser_elo as int, gain as int),
{
    (winner_elo + gain, loser_elo - gain)
}

/// After a won matchup the winner's rating rises by exactly the gain and
/// the loser's falls by exactly the gain, whatever the gain.
pub proof fn lemma_elo_moves_by_gain(winner_elo: int, loser_elo: int, gain: int)
    ensures
        elo_after(winner_elo, loser_elo, gain).0 - winner_elo == gain,
        loser_elo - elo_after(winner_elo, loser_elo, gain).1 == gain,
{
}

/// Rating updates are zero-sum: what the winner gains the loser loses, so
/// the two ratings add up to the same total before and after.
pub proof fn lemma_elo_zero_sum(winner_elo: int, loser_elo: int, gain: int)
    ensures
        elo_after(winner_elo, loser_elo, gain).0 + elo_after(winner_elo, loser_elo, gain).1
            == winner_elo + loser_elo,
        gain >= 0 ==> elo_after(winner_elo, loser_elo, gain).0 >= winner_elo
            && elo_after(winner_elo, loser_elo, gain).1 <= loser_elo,
        0 <= gain <= 32 ==> 0 <= elo_after(winner_elo, loser_elo, gain).0 - winner_elo <= 32,
{
}

} // verus!
