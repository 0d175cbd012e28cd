use clawtornot::api::auth::{bearer_token, hash_api_key, presented_key_hash, strip_prefix_text};
use clawtornot::api::gallery::{gallery_window, PaginationParams};
use clawtornot::api::live::{live_step, LiveAction, LiveEvent, LiveInput};
use clawtornot::api::profile::{validate_profile_update, UpdateProfile};
use clawtornot::api::rate_limit::{RateLimiter, RateTable};
use clawtornot::api::register::{name_taken, new_agent_event, prepare_registration, RegisterRequest};
use clawtornot::api::voting::{admit_vote, already_voted, check_vote_request, vote_event, VoteRequest};
use clawtornot::error::{ApiError, ErrorKind};
use clawtornot::models::matchup::Matchup;

const SEC: u64 = 1_000_000_000;

fn portrait() -> String {
    let line = " ".repeat(48);
    (0..32).map(|_| line.as_str()).collect::<Vec<_>>().join("\n")
}

fn colormap() -> String {
    let line = ".".repeat(48);
    (0..32).map(|_| line.as_str()).collect::<Vec<_>>().join("\n")
}

fn request(name: &str) -> RegisterRequest {
    RegisterRequest {
        name: name.to_string(),
        tagline: None,
        self_portrait: portrait(),
        colormap: colormap(),
        theme_color: None,
        stats: None,
    }
}

fn matchup(status: &str) -> Matchup {
    Matchup {
        id: "m1".to_string(),
        agent_a_id: "aaa".to_string(),
        agent_b_id: "bbb".to_string(),
        winner_id: None,
        status: status.to_string(),
        created_at: "2026-03-25 10:00:00".to_string(),
        expires_at: "2026-03-25 12:00:00".to_string(),
        resolved_at: None,
    }
}

fn bad_request(e: Result<(), ApiError>) -> String {
    let e = e.unwrap_err();
    assert_eq!(e.kind, ErrorKind::BadRequest);
    e.message
}

#[test]
fn api_key_hash_is_hex_sha256() {
    assert_eq!(
        hash_api_key("abc"),
        "ba7816bf8f01cfea414140de5dae2223b00361a396177a9cb410ff61f20015ad"
    );
    assert_eq!(
        hash_api_key(""),
        "e3b0c44298fc1c149afbf4c8996fb92427ae41e4649b934ca495991b7852b855"
    );
    assert_eq!(hash_api_key("some key").len(), 64);
    assert_eq!(hash_api_key("some key"), hash_api_key("some key"));
}

#[test]
fn bearer_header_parsing() {
    assert_eq!(bearer_token("Bearer abc-123"), Some("abc-123"));
    assert_eq!(bearer_token("Bearer "), Some(""));
    assert_eq!(bearer_token("bearer abc"), None);
    assert_eq!(bearer_token("Bearer"), None);
    assert_eq!(bearer_token("Basic abc"), None);
    assert_eq!(bearer_token("Bearer \u{e9}t\u{e9}"), Some("\u{e9}t\u{e9}"));
    assert_eq!(strip_prefix_text("\u{e9}tat", "\u{e9}"), Some("tat"));
}

#[test]
fn gallery_paging() {
    assert_eq!(gallery_window(&PaginationParams { limit: None, offset: None }), (20, 0));
    assert_eq!(gallery_window(&PaginationParams { limit: Some(500), offset: Some(40) }), (100, 40));
    assert_eq!(gallery_window(&PaginationParams { limit: Some(7), offset: None }), (7, 0));
    assert_eq!(gallery_window(&PaginationParams { limit: Some(-3), offset: Some(-1) }), (-3, -1));
}

#[test]
fn registration_defaults_and_key() {
    let agent = prepare_registration(&request("test_agent")).unwrap();
    assert_eq!(agent.name, "test_agent");
    assert_eq!(agent.tagline, "");
    assert_eq!(agent.theme_color, "#ff6b6b");
    assert_eq!(agent.stats, "{}");
    assert_eq!(agent.self_portrait, portrait());
    assert_eq!(agent.api_key.len(), 36);
    assert_eq!(agent.api_key.as_bytes()[14], b'4');
    assert_eq!(agent.api_key_hash, hash_api_key(&agent.api_key));
    let other = prepare_registration(&request("test_agent")).unwrap();
    assert_ne!(agent.api_key, other.api_key);
    match new_agent_event(&agent) {
        LiveEvent::NewAgent { name, tagline } => {
            assert_eq!(name, "test_agent");
            assert_eq!(tagline, "");
        }
        e => panic!("unexpected event {e:?}"),
    }
}

#[test]
fn registration_rejections_in_order() {
    let e = prepare_registration(&request("has spaces")).unwrap_err();
    assert_eq!(e.kind, ErrorKind::BadRequest);
    assert_eq!(
        e.message,
        "Name must contain only alphanumeric characters, hyphens, and underscores"
    );
    let mut req = request("ok");
    req.self_portrait = "tiny".to_string();
    req.theme_color = Some("red".to_string());
    assert_eq!(
        prepare_registration(&req).unwrap_err().message,
        "Portrait must be exactly 32 rows, got 1"
    );
    let mut req = request("ok");
    req.theme_color = Some("red".to_string());
    req.stats = Some("{".to_string());
    assert_eq!(
        prepare_registration(&req).unwrap_err().message,
        "Theme color must be #RRGGBB format"
    );
    let mut req = request("ok");
    req.stats = Some("not json".to_string());
    assert!(prepare_registration(&req).unwrap_err().message.starts_with("Stats must be valid JSON: "));
    let mut req = request("ok");
    req.tagline = Some("t".repeat(201));
    assert_eq!(
        prepare_registration(&req).unwrap_err().message,
        "Tagline must be at most 200 characters"
    );
    let e = name_taken("dupe_agent");
    assert_eq!(e.kind, ErrorKind::Conflict);
    assert_eq!(e.message, "Agent name 'dupe_agent' is already taken");
}

#[test]
fn profile_update_checks_given_fields() {
    let none = UpdateProfile {
        tagline: None,
        self_portrait: None,
        colormap: None,
        theme_color: None,
        stats: None,
    };
    assert!(validate_profile_update(&none).is_ok());
    let good = UpdateProfile {
        tagline: Some("new".to_string()),
        self_portrait: Some(portrait()),
        colormap: Some(colormap()),
        theme_color: Some("#123abc".to_string()),
        stats: Some("{\"a\":1}".to_string()),
    };
    assert!(validate_profile_update(&good).is_ok());
    let bad = UpdateProfile {
        tagline: None,
        self_portrait: None,
        colormap: Some("X".to_string()),
        theme_color: Some("nope".to_string()),
        stats: None,
    };
    assert_eq!(bad_request(validate_profile_update(&bad)), "Colormap must be exactly 32 rows, got 1");
    let bad = UpdateProfile {
        tagline: None,
        self_portrait: None,
        colormap: None,
        theme_color: Some("nope".to_string()),
        stats: Some("[".to_string()),
    };
    assert_eq!(bad_request(validate_profile_update(&bad)), "Theme color must be #RRGGBB format");
}

#[test]
fn vote_request_checks() {
    let ok = VoteRequest { choice: "a".to_string(), comment: Some("nice lobster".to_string()) };
    assert!(check_vote_request(&ok).is_ok());
    let ok = VoteRequest { choice: "b".to_string(), comment: None };
    assert!(check_vote_request(&ok).is_ok());
    let bad = VoteRequest { choice: "c".to_string(), comment: None };
    assert_eq!(bad_request(check_vote_request(&bad)), "Choice must be 'a' or 'b'");
    let bad = VoteRequest { choice: "A".to_string(), comment: None };
    assert_eq!(bad_request(check_vote_request(&bad)), "Choice must be 'a' or 'b'");
    let bad = VoteRequest { choice: "a".to_string(), comment: Some("x".repeat(501)) };
    assert_eq!(bad_request(check_vote_request(&bad)), "Comment must be at most 500 characters");
}

#[test]
fn vote_admission_rules() {
    let e = admit_vote(&None, "ccc").unwrap_err();
    assert_eq!((e.kind, e.message.as_str()), (ErrorKind::NotFound, "Matchup not found"));
    let e = admit_vote(&Some(matchup("resolved")), "ccc").unwrap_err();
    assert_eq!((e.kind, e.message.as_str()), (ErrorKind::BadRequest, "Matchup is not active"));
    let e = admit_vote(&Some(matchup("active")), "aaa").unwrap_err();
    assert_eq!(
        (e.kind, e.message.as_str()),
        (ErrorKind::BadRequest, "Cannot vote on your own matchup")
    );
    assert!(admit_vote(&Some(matchup("active")), "bbb").is_err());
    assert!(admit_vote(&Some(matchup("active")), "ccc").is_ok());
    let e = already_voted();
    assert_eq!((e.kind, e.message.as_str()), (ErrorKind::Conflict, "Already voted on this matchup"));
}

#[test]
fn vote_event_names_the_chosen_side() {
    let m = matchup("active");
    let req = VoteRequest { choice: "b".to_string(), comment: Some("meh".to_string()) };
    match vote_event(&"m1".to_string(), &m, &req) {
        LiveEvent::NewVote { matchup_id, agent_voted_for, comment } => {
            assert_eq!(matchup_id, "m1");
            assert_eq!(agent_voted_for, "bbb");
            assert_eq!(comment, Some("meh".to_string()));
        }
        e => panic!("unexpected event {e:?}"),
    }
    let req = VoteRequest { choice: "a".to_string(), comment: None };
    match vote_event(&"m1".to_string(), &m, &req) {
        LiveEvent::NewVote { agent_voted_for, comment, .. } => {
            assert_eq!(agent_voted_for, "aaa");
            assert_eq!(comment, None);
        }
        e => panic!("unexpected event {e:?}"),
    }
}

#[test]
fn general_rate_limit_window() {
    let mut limiter = RateLimiter::new();
    for i in 0..60u64 {
        assert_eq!(limiter.check_general_at("k", i * SEC / 2), Ok(()));
    }
    // the 61st request in the same minute waits for the rest of the window
    assert_eq!(limiter.check_general_at("k", 30 * SEC), Err(30));
    assert_eq!(limiter.check_general_at("k", 59 * SEC + 1), Err(1));
    // other keys and the voting limit are separate
    assert_eq!(limiter.check_general_at("other", 30 * SEC), Ok(()));
    assert_eq!(limiter.check_voting_at("k", 30 * SEC), Ok(()));
    // a minute after the window opened it restarts
    assert_eq!(limiter.check_general_at("k", 60 * SEC), Ok(()));
    assert_eq!(limiter.check_general_at("k", 61 * SEC), Ok(()));
    assert!(limiter.check_general("fresh").is_ok());
}

#[test]
fn voting_rate_limit_window() {
    let mut limiter = RateLimiter::new();
    for _ in 0..30 {
        assert_eq!(limiter.check_voting_at("v", 10 * SEC), Ok(()));
    }
    assert_eq!(limiter.check_voting_at("v", 100 * SEC + 5), Err(3510));
    assert_eq!(limiter.check_voting_at("v", 3600 * SEC), Err(10));
    assert_eq!(limiter.check_voting_at("v", 3610 * SEC), Ok(()));
    assert!(limiter.check_voting("w").is_ok());
}

#[test]
fn rate_table_counts_per_key() {
    let mut table = RateTable::new(2, 10);
    assert_eq!(table.check("x", 0), Ok(()));
    assert_eq!(table.check("y", 0), Ok(()));
    assert_eq!(table.check("x", SEC), Ok(()));
    assert_eq!(table.check("x", 2 * SEC), Err(8));
    assert_eq!(table.check("y", 9 * SEC + 999_999_999), Ok(()));
    assert_eq!(table.check("y", 9 * SEC + 999_999_999), Err(1));
    assert_eq!(table.check("x", 10 * SEC), Ok(()));
}

#[test]
fn store_failures() {
    let e = ApiError::store_failure(true, "UNIQUE constraint failed: agents.name");
    assert_eq!((e.kind, e.message.as_str()), (ErrorKind::Conflict, "Already exists"));
    let e = ApiError::store_failure(false, "pool timed out");
    assert_eq!((e.kind, e.message.as_str()), (ErrorKind::Internal, "Database error: pool timed out"));
    let e = ApiError::unauthorized();
    assert_eq!((e.kind, e.message.as_str()), (ErrorKind::Unauthorized, "Missing or invalid API key"));
}

#[test]
fn live_connection_decisions() {
    assert_eq!(live_step(LiveInput::Event), LiveAction::Forward);
    assert_eq!(live_step(LiveInput::ClientOther), LiveAction::Ignore);
    // a slow subscriber is dropped
    assert_eq!(live_step(LiveInput::Lagged), LiveAction::Disconnect);
    assert_eq!(live_step(LiveInput::ChannelClosed), LiveAction::Disconnect);
    assert_eq!(live_step(LiveInput::SendFailed), LiveAction::Disconnect);
    assert_eq!(live_step(LiveInput::ClientClosed), LiveAction::Disconnect);
}

fn retry_after(r: Result<(), ApiError>) -> u64 {
    let e = r.unwrap_err();
    assert_eq!(e.message, "Rate limit exceeded");
    match e.kind {
        ErrorKind::TooManyRequests { retry_after } => retry_after,
        other => panic!("expected a 429, got {:?}", other),
    }
}

#[test]
fn thirty_votes_an_hour_then_429() {
    let mut limiter = RateLimiter::new();
    for i in 0..30u64 {
        assert!(limiter.limit_vote_at("voter", i * 60 * SEC).is_ok());
    }
    // the 31st vote, 1800.5 s after the first: wait 3600 - 1800 seconds
    assert_eq!(retry_after(limiter.limit_vote_at("voter", 1800 * SEC + SEC / 2)), 1800);
    assert_eq!(retry_after(limiter.limit_vote_at("voter", 3599 * SEC)), 1);
    // the general limit is kept apart
    assert!(limiter.limit_request_at("voter", 3599 * SEC).is_ok());
    // an hour after the first vote the window restarts
    assert!(limiter.limit_vote_at("voter", 3600 * SEC).is_ok());
    assert!(limiter.limit_vote("someone-else").is_ok());
}

#[test]
fn sixty_requests_a_minute_then_429() {
    let mut limiter = RateLimiter::new();
    for i in 0..60u64 {
        assert!(limiter.limit_request_at("key", i * SEC / 2).is_ok());
    }
    assert_eq!(retry_after(limiter.limit_request_at("key", 45 * SEC)), 15);
    assert!(limiter.limit_vote_at("key", 45 * SEC).is_ok());
    assert!(limiter.limit_request_at("key", 60 * SEC).is_ok());
    assert!(limiter.limit_request("fresh").is_ok());
}

#[test]
fn rate_limited_error() {
    let e = ApiError::rate_limited(42);
    assert_eq!(e.kind, ErrorKind::TooManyRequests { retry_after: 42 });
    assert_eq!(e.message, "Rate limit exceeded");
}

#[test]
fn registered_key_authenticates() {
    let agent = prepare_registration(&request("roundtrip")).unwrap();
    let header = format!("Bearer {}", agent.api_key);
    assert_eq!(presented_key_hash(Some(&header)).unwrap(), agent.api_key_hash);
    let e = presented_key_hash(None).unwrap_err();
    assert_eq!((e.kind, e.message.as_str()), (ErrorKind::Unauthorized, "Missing or invalid API key"));
    let e = presented_key_hash(Some(&agent.api_key)).unwrap_err();
    assert_eq!(e.kind, ErrorKind::Unauthorized);
    assert_ne!(presented_key_hash(Some("Bearer other")).unwrap(), agent.api_key_hash);
}

#[test]
fn later_window_counts_afresh() {
    let mut limiter = RateLimiter::new();
    assert!(limiter.limit_vote_at("v", 0).is_ok());
    // a vote an hour later opens a new window, counting itself
    assert!(limiter.limit_vote_at("v", 3600 * SEC).is_ok());
    for i in 1..30u64 {
        assert!(limiter.limit_vote_at("v", (3600 + i) * SEC).is_ok());
    }
    assert_eq!(retry_after(limiter.limit_vote_at("v", 4000 * SEC)), 3200);
}
