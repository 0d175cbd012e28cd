//! Casting a vote: what is refused, and what is announced.

use vstd::prelude::*;

use crate::api::live::LiveEvent;
use crate::error::{ApiError, ErrorKind};
use crate::models::matchup::Matchup;
use crate::text::same_text;
use crate::validation::{comment_outcome, validate_comment};

verus! {

/// A vote: `choice` names the side, `"a"` or `"b"`.
#[derive(Debug, Clone)]
pub struct VoteRequest {
    pub choice: String,
    pub comment: Option<String>,
}

/// What checking a vote request gives: the choice must be `a` or `b`, then
/// the comment, if any, must pass its check.
pub open spec fn vote_request_outcome(req: VoteRequest) -> Result<(), Seq<char>> {
    if req.choice@ != "a"@ && req.choice@ != "b"@ {
        Err("Choice must be 'a' or 'b'"@)
    } else {
        match req.comment {
            Some(c) => comment_outcome(c@),
            None => Ok(()),
        }
    }
}

/// Checks a vote request before its matchup is looked up; a failure is a
/// 400.
pub fn check_vote_request(req: &VoteRequest) -> (r: Result<(), ApiError>)
    ensures
        match r {
            Ok(_) => vote_request_outcome(*req) is Ok,
            Err(e) => e.kind == ErrorKind::BadRequest && vote_request_outcome(*req) == Err::<
                (),
                Seq<char>,
            >(e.message@),
        },
{
    if !same_text(req.choice.as_str(), "a") && !same_text(req.choice.as_str(), "b") {
        return Err(ApiError::bad_request(String::from_str("Choice must be 'a' or 'b'")));
    }
    let comment = match &req.comment {
        Some(c) => Some(c.as_str()),
        None => None,
    };
    if let Err(m) = validate_comment(comment) {
        return Err(ApiError::bad_request(m));
    }
    Ok(())
}

/// Whether a vote by `voter` on the matchup found (if any) is admitted:
/// the matchup must exist, be active, and not have the voter on either side.
pub open spec fn admission(matchup: Option<Matchup>, voter: Seq<char>) -> Result<
    (),
    (ErrorKind, Seq<char>),
> {
    match matchup {
        None => Err((ErrorKind::NotFound, "Matchup not found"@)),
        Some(m) => if m.status@ != "active"@ {
            Err((ErrorKind::BadRequest, "Matchup is not active"@))
        } else if voter == m.agent_a_id@ || voter == m.agent_b_id@ {
            Err((ErrorKind::BadRequest, "Cannot vote on your own matchup"@))
        } else {
            Ok(())
        },
    }
}

/// A vote is admitted exactly when its matchup exists, is active, and has
/// the voter on neither side; a missing matchup is a 404, and an inactive
/// one or one of the voter's own a 400.
pub proof fn lemma_admission_rules(matchup: Option<Matchup>, voter: Seq<char>)
    ensures
        admission(matchup, voter) is Ok <==> (matchup matches Some(m) && m.status@ == "active"@
            && voter != m.agent_a_id@ && voter != m.agent_b_id@),
        matchup is None ==> admission(matchup, voter) == Err::<(), (ErrorKind, Seq<char>)>(
            (ErrorKind::NotFound, "Matchup not found"@),
        ),
        admission(matchup, voter) matches Err((kind, _)) ==> (kind == ErrorKind::NotFound
            <==> matchup is None),
        matchup matches Some(m) && m.status@ != "active"@ ==> admission(matchup, voter) == Err::<
            (),
            (ErrorKind, Seq<char>),
        >((ErrorKind::BadRequest, "Matchup is not active"@)),
{
}

/// A vote request passes exactly when its choice is `a` or `b` and its
/// comment, if any, has at most 500 characters.
pub proof fn lemma_vote_request_rules(req: VoteRequest)
    ensures
        vote_request_outcome(req) is Ok <==> ((req.choice@ == "a"@ || req.choice@ == "b"@) && (
        req.comment matches Some(c) ==> c@.len() <= 500)),
        req.choice@ != "a"@ && req.choice@ != "b"@ ==> vote_request_outcome(req) == Err::<
            (),
            Seq<char>,
        >("Choice must be 'a' or 'b'"@),
{
}

/// Decides whether the vote may be stored, once its matchup was looked up.
pub fn admit_vote(matchup: &Option<Matchup>, voter_id: &str) -> (r: Result<(), ApiError>)
    ensures
        match r {
            Ok(_) => admission(*matchup, voter_id@) is Ok,
            Err(e) => admission(*matchup, voter_id@) == Err::<(), (ErrorKind, Seq<char>)>(e@),
        },
{
    match matchup {
        None => Err(ApiError::not_found(String::from_str("Matchup not found"))),
        Some(m) => {
            if !same_text(m.status.as_str(), "active") {
                return Err(ApiError::bad_request(String::from_str("Matchup is not active")));
            }
            if same_text(voter_id, m.agent_a_id.as_str()) || same_text(
                voter_id,
                m.agent_b_id.as_str(),
            ) {
                return Err(
                    ApiError::bad_request(String::from_str("Cannot vote on your own matchup")),
                );
            }
            Ok(())
        },
    }
}

/// No agent can vote on a matchup it takes part in.
pub proof fn lemma_no_self_vote(m: Matchup, voter: Seq<char>)
    requires
        admission(Some(m), voter) is Ok,
    ensures
        voter != m.agent_a_id@,
        voter != m.agent_b_id@,
        m.status@ == "active"@,
{
}

/// The 409 answered for a second vote by the same agent on a matchup.
pub fn already_voted() -> (e: ApiError)
    ensures
        e@ == (ErrorKind::Conflict, "Already voted on this matchup"@),
{
    ApiError::conflict(String::from_str("Already voted on this matchup"))
}

/// The announcement of a stored vote: the agent voted for (agent A for
/// choice `a`, else agent B) and the comment.
pub fn vote_event(matchup_id: &String, m: &Matchup, req: &VoteRequest) -> (e: LiveEvent)
    ensures
        e == (LiveEvent::NewVote {
            matchup_id: *matchup_id,
            agent_voted_for: if req.choice@ == "a"@ {
                m.agent_a_id
            } else {
                m.agent_b_id
            },
            comment: req.comment,
        }),
{
    let voted_for = if same_text(req.choice.as_str(), "a") {
        m.agent_a_id.clone()
    } else {
        m.agent_b_id.clone()
    };
    let comment = match &req.comment {
        Some(c) => Some(c.clone()),
        None => None,
    };
    LiveEvent::NewVote { matchup_id: matchup_id.clone(), agent_voted_for: voted_for, comment }
}

} // verus!
