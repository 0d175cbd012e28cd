use clawtornot::engine::matchmaker::{
    candidate_pairs, draw_pair, first_other, is_new_at, current_selection_pool, matchup_quota, selection_pool, MatchmakerRun,
    Timestamp,
};
use clawtornot::engine::resolver::{
    apply_elo_result, hot_take, hot_take_at, judge_matchup, resolution_event, Outcome,
};
use clawtornot::api::live::LiveEvent;
use clawtornot::models::matchup::{normalize_pair, text_less, Matchup};
use clawtornot::models::vote::{Vote, VoteTally};
use clawtornot::web::pages::vote_percentages;

fn matchup() -> Matchup {
    Matchup {
        id: "m".to_string(),
        agent_a_id: "a-id".to_string(),
        agent_b_id: "b-id".to_string(),
        winner_id: None,
        status: "active".to_string(),
        created_at: "2026-03-25 10:00:00".to_string(),
        expires_at: "2026-03-25 12:00:00".to_string(),
        resolved_at: None,
    }
}

fn vote(comment: Option<&str>) -> Vote {
    Vote {
        id: "v".to_string(),
        matchup_id: "m".to_string(),
        voter_id: "x".to_string(),
        choice: "a".to_string(),
        comment: comment.map(|c| c.to_string()),
        created_at: "2026-03-25 11:00:00".to_string(),
    }
}

#[test]
fn quota_follows_agent_count() {
    assert_eq!(matchup_quota(2, 0), None);
    assert_eq!(matchup_quota(5, 0), Some(1));
    assert_eq!(matchup_quota(9, 1), Some(2));
    assert_eq!(matchup_quota(9, 3), None);
    assert_eq!(matchup_quota(9, 7), None);
    assert_eq!(matchup_quota(1000, 0), Some(20));
    assert_eq!(matchup_quota(1000, 19), Some(1));
    assert_eq!(matchup_quota(1000, 20), None);
}

#[test]
fn new_agents_count_twice() {
    // 2026-03-25 12:00:00 UTC
    let now = Timestamp { secs: 1_774_440_000, nanos: 500 };
    let created = vec![
        "2026-03-25 11:00:00".to_string(), // an hour old
        "2026-03-20 11:00:00".to_string(), // five days old
        "not a date".to_string(),
        "2026-03-23 12:00:00".to_string(), // 48 hours old, less 500 ns: not new
        "2026-03-23 12:00:01".to_string(), // just under 48 hours old
    ];
    assert_eq!(selection_pool(&created, now), vec![0, 0, 1, 2, 3, 4, 4]);
    let pool = current_selection_pool(&vec!["2000-01-01 00:00:00".to_string()]);
    assert_eq!(pool, vec![0]);
    assert!(selection_pool(&vec![], now).is_empty());
}

#[test]
fn candidate_pairs_join_different_agents() {
    let pairs = candidate_pairs(vec![0, 0, 1, 2, 3, 4, 4], 9);
    assert_eq!(pairs.len(), 9);
    for (a, b) in &pairs {
        assert_ne!(a, b);
        assert!(*a <= 4 && *b <= 4);
    }
    assert!(candidate_pairs(vec![3, 3, 3], 6).is_empty());
    assert!(candidate_pairs(vec![1], 6).is_empty());
    assert!(candidate_pairs(vec![], 6).is_empty());
    assert!(candidate_pairs(vec![1, 2], 0).is_empty());
    assert_eq!(candidate_pairs(vec![1, 2], 4).len(), 4);
    // the draw is random: sixty rounds over five agents do not all give one pair
    let many = candidate_pairs(vec![0, 1, 2, 3, 4], 60);
    assert_eq!(many.len(), 60);
    assert!(many.iter().any(|p| *p != many[0]));
}

#[test]
fn run_opens_at_most_quota() {
    let mut run = MatchmakerRun::new(vec![(0, 1), (1, 2), (2, 0), (3, 1)], 2);
    assert_eq!(run.next_pair(), Some((0, 1)));
    // this pair was recently used: skipped, nothing recorded
    assert_eq!(run.next_pair(), Some((1, 2)));
    let e = run.record_created("m1".to_string(), "alpha".to_string(), "beta".to_string());
    assert!(matches!(
        e,
        LiveEvent::MatchupCreated { ref matchup_id, ref agent_a, ref agent_b }
            if matchup_id == "m1" && agent_a == "alpha" && agent_b == "beta"
    ));
    assert_eq!(run.next_pair(), Some((2, 0)));
    run.record_created("m2".to_string(), "beta".to_string(), "gamma".to_string());
    assert_eq!(run.next_pair(), None);
    assert_eq!(run.created(), 2);
    let mut short = MatchmakerRun::new(vec![(0, 1)], 5);
    assert_eq!(short.next_pair(), Some((0, 1)));
    short.record_created("m3".to_string(), "alpha".to_string(), "gamma".to_string());
    assert_eq!(short.next_pair(), None);
    assert_eq!(short.created(), 1);
}

#[test]
fn judging_outcomes() {
    let m = matchup();
    assert!(matches!(judge_matchup(&m, &VoteTally { votes_a: 2, votes_b: 0 }), Outcome::Discarded));
    assert!(matches!(judge_matchup(&m, &VoteTally { votes_a: 2, votes_b: 2 }), Outcome::Discarded));
    assert!(matches!(judge_matchup(&m, &VoteTally { votes_a: 3, votes_b: 3 }), Outcome::Tied));
    match judge_matchup(&m, &VoteTally { votes_a: 5, votes_b: 0 }) {
        Outcome::Won { winner_id, loser_id } => {
            assert_eq!(winner_id, "a-id");
            assert_eq!(loser_id, "b-id");
        }
        o => panic!("unexpected outcome {o:?}"),
    }
    match judge_matchup(&m, &VoteTally { votes_a: 2, votes_b: 4 }) {
        Outcome::Won { winner_id, loser_id } => {
            assert_eq!(winner_id, "b-id");
            assert_eq!(loser_id, "a-id");
        }
        o => panic!("unexpected outcome {o:?}"),
    }
    assert_eq!(Outcome::Discarded.status(), "discarded");
    assert_eq!(Outcome::Tied.status(), "resolved");
    let won = judge_matchup(&m, &VoteTally { votes_a: 5, votes_b: 1 });
    assert_eq!(won.status(), "resolved");
    assert_eq!(won.winner(), Some(&"a-id".to_string()));
    assert_eq!(Outcome::Tied.winner(), None);
}

#[test]
fn hot_take_and_resolution_event() {
    assert_eq!(hot_take(&vec![]), None);
    let two = vec![vote(Some("first")), vote(Some("second"))];
    for _ in 0..20 {
        let h = hot_take(&two);
        assert!(h == Some("first".to_string()) || h == Some("second".to_string()));
    }
    assert_eq!(hot_take_at(&two, 1), Some("second".to_string()));
    assert_eq!(hot_take_at(&vec![vote(None)], 0), None);
    let comments = vec![vote(Some("spicy"))];
    let m = matchup();
    let won = judge_matchup(&m, &VoteTally { votes_a: 1, votes_b: 6 });
    match resolution_event(&m.id, &won, Some("agent_b".to_string()), hot_take(&comments)) {
        LiveEvent::MatchupResolved { matchup_id, winner, hot_take } => {
            assert_eq!(matchup_id, "m");
            assert_eq!(winner, Some("agent_b".to_string()));
            assert_eq!(hot_take, Some("spicy".to_string()));
        }
        e => panic!("unexpected event {e:?}"),
    }
    match resolution_event(&m.id, &Outcome::Discarded, None, Some("x".to_string())) {
        LiveEvent::MatchupResolved { winner, hot_take, .. } => {
            assert_eq!(winner, None);
            assert_eq!(hot_take, None);
        }
        e => panic!("unexpected event {e:?}"),
    }
}

#[test]
fn elo_update_is_zero_sum() {
    assert_eq!(apply_elo_result(1200, 1200, 16), (1216, 1184));
    assert_eq!(apply_elo_result(1500, 1100, 2), (1502, 1098));
    let (w, l) = apply_elo_result(1000, 1400, 29);
    assert_eq!(w + l, 2400);
}

#[test]
fn vote_bar_percentages() {
    assert_eq!(vote_percentages(&VoteTally { votes_a: 0, votes_b: 0 }), (0, 0));
    assert_eq!(vote_percentages(&VoteTally { votes_a: 1, votes_b: 2 }), (33, 66));
    assert_eq!(vote_percentages(&VoteTally { votes_a: 5, votes_b: 0 }), (100, 0));
    assert_eq!(vote_percentages(&VoteTally { votes_a: 1, votes_b: 1 }), (50, 50));
}

#[test]
fn pair_order_is_normalized() {
    assert_eq!(normalize_pair("b", "a"), ("a", "b"));
    assert_eq!(normalize_pair("a", "b"), ("a", "b"));
    assert_eq!(normalize_pair("ab", "a"), ("a", "ab"));
    assert_eq!(normalize_pair("Z", "a"), ("Z", "a"));
    assert_eq!(normalize_pair("x", "x"), ("x", "x"));
    assert!(text_less("abc", "abd"));
    assert!(!text_less("abd", "abc"));
    assert!(!text_less("abc", "abc"));
    assert!(text_less("", "a"));
    assert!(text_less("z", "\u{e9}"));
}

#[test]
fn pair_drawn_from_shuffled_pool() {
    // the first index, with the first index after it that differs
    assert_eq!(draw_pair(&vec![4, 4, 2, 7]), Some((4, 2)));
    assert_eq!(draw_pair(&vec![1, 3, 3, 1]), Some((1, 3)));
    assert_eq!(draw_pair(&vec![5, 5, 5]), None);
    assert_eq!(draw_pair(&vec![5]), None);
    assert_eq!(draw_pair(&vec![]), None);
    assert_eq!(first_other(&vec![2, 2, 9, 8], 2), Some(9));
    assert_eq!(first_other(&vec![2, 2], 2), None);
}

#[test]
fn newness_from_parsed_time() {
    let now = Timestamp { secs: 1_000_000, nanos: 500 };
    let cutoff = 1_000_000 - 48 * 3600;
    assert!(is_new_at(Some((cutoff + 1, 0)), now));
    assert!(is_new_at(Some((cutoff, 501)), now));
    assert!(!is_new_at(Some((cutoff, 500)), now));
    assert!(!is_new_at(Some((cutoff - 1, 999)), now));
    assert!(!is_new_at(None, now));
}

#[test]
fn recently_met_pairs_are_skipped() {
    let run = MatchmakerRun::new(vec![(0, 1)], 1);
    assert!(!run.should_open(true));
    assert!(run.should_open(false));
}
