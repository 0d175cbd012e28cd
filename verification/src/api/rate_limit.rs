//! Per-key rate limiting over fixed windows: 60 requests a minute in
//! general, 30 votes an hour.

use vstd::prelude::*;
use std::time::Instant;

use crate::error::{ApiError, ErrorKind};
use crate::text::same_text;

verus! {

pub const NANOS_PER_SEC: u64 = 1_000_000_000;

/// General requests allowed per window.
pub const GENERAL_LIMIT: u32 = 60;

/// Length of the general window, in seconds.
pub const GENERAL_WINDOW_SECS: u64 = 60;

/// Votes allowed per window.
pub const VOTING_LIMIT: u32 = 30;

/// Length of the voting window, in seconds.
pub const VOTING_WINDOW_SECS: u64 = 3600;

#[verifier::external_type_specification]
#[verifier::external_body]
pub struct ExInstant(Instant);

/// `Instant::now()`: a point on the monotonic clock.
#[verifier::external_body]
fn instant_now() -> Instant {
    Instant::now()
}

/// Nanoseconds elapsed on the monotonic clock since `start`
/// (`start.elapsed().as_nanos()`, cut to 64 bits). How many is left open.
#[verifier::external_body]
fn nanos_since(start: &Instant) -> u64 {
    start.elapsed().as_nanos() as u64
}

/// Whole seconds from `start` to `now` (both in nanoseconds), zero when
/// `start` is later.
pub open spec fn elapsed_secs(start: u64, now: u64) -> u64 {
    if now >= start {
        ((now - start) / (NANOS_PER_SEC as int)) as u64
    } else {
        0
    }
}

/// One check of a key: its window (request count, window start) before the
/// check, or a fresh `(0, now)` when the key is new; then a window at least
/// `window_secs` old restarts with this request, a full window refuses it
/// with the seconds left until it ends, and any other window counts it.
/// Returns the key's window after the check and the answer.
pub open spec fn rate_step(prev: Option<(u32, u64)>, now: u64, limit: u32, window_secs: u64) -> (
    (u32, u64),
    Result<(), u64>,
) {
    let (count, start) = match prev {
        Some(w) => w,
        None => (0u32, now),
    };
    let elapsed = elapsed_secs(start, now);
    if elapsed >= window_secs {
        ((1u32, now), Ok(()))
    } else if count >= limit {
        ((count, start), Err((window_secs - elapsed) as u64))
    } else {
        (((count + 1) as u32, start), Ok(()))
    }
}

/// The windows `after` result from checking one request of `key` at time
/// `now` against the windows `before`, with answer `r`.
pub open spec fn checked(
    before: Map<Seq<char>, (u32, u64)>,
    after: Map<Seq<char>, (u32, u64)>,
    key: Seq<char>,
    now: u64,
    limit: u32,
    window_secs: u64,
    r: Result<(), u64>,
) -> bool {
    let prev = if before.contains_key(key) {
        Some(before[key])
    } else {
        None
    };
    let (window, answer) = rate_step(prev, now, limit, window_secs);
    &&& r == answer
    &&& after == before.insert(key, window)
}

/// What the API answers for a rate-limit answer: the request goes on, or it
/// is refused with a 429 "Rate limit exceeded" that asks the client to
/// retry after the seconds left in its window.
pub open spec fn limited(answer: Result<(), u64>) -> Result<(), (ErrorKind, Seq<char>)> {
    match answer {
        Ok(_) => Ok(()),
        Err(wait) => Err((ErrorKind::TooManyRequests { retry_after: wait }, "Rate limit exceeded"@)),
    }
}

/// The view of an API result: `Ok(())`, or the error's class and message.
pub open spec fn api_outcome(r: Result<(), ApiError>) -> Result<(), (ErrorKind, Seq<char>)> {
    match r {
        Ok(_) => Ok(()),
        Err(e) => Err(e@),
    }
}

/// Turns a rate-limit answer into the API's answer.
fn to_api(answer: Result<(), u64>) -> (r: Result<(), ApiError>)
    ensures
        api_outcome(r) == limited(answer),
{
    match answer {
        Ok(_) => Ok(()),
        Err(wait) => Err(ApiError::rate_limited(wait)),
    }
}

/// One key's window.
pub struct RateEntry {
    key: String,
    count: u32,
    started_at: u64,
}

/// The windows of all keys seen so far, under one limit and window length.
pub struct RateTable {
    entries: Vec<RateEntry>,
    limit: u32,
    window_secs: u64,
}

impl View for RateTable {
    type V = (Map<Seq<char>, (u32, u64)>, u32, u64);

    /// The table: the window of each key seen so far, the limit, and the
    /// window length in seconds.
    open spec fn view(&self) -> (Map<Seq<char>, (u32, u64)>, u32, u64) {
        (self.windows(), self.limit(), self.window_secs())
    }
}

impl RateTable {
    /// Each key appears once, and no window counts more than the limit
    /// (or one request, for a zero limit).
    pub closed spec fn wf(&self) -> bool {
        &&& forall|i: int, j: int|
            0 <= i < j < self.entries@.len() ==> (#[trigger] self.entries@[i]).key@
                != (#[trigger] self.entries@[j]).key@
        &&& forall|i: int|
            0 <= i < self.entries@.len() ==> (#[trigger] self.entries@[i]).count <= self.limit
                || self.entries@[i].count <= 1
    }

    pub closed spec fn limit(&self) -> u32 {
        self.limit
    }

    pub closed spec fn window_secs(&self) -> u64 {
        self.window_secs
    }

    /// The window of each key seen so far.
    pub closed spec fn windows(&self) -> Map<Seq<char>, (u32, u64)> {
        Map::new(
            |k: Seq<char>| exists|i: int| 0 <= i < self.entries@.len() && self.entries@[i].key@ == k,
            |k: Seq<char>|
                {
                    let i = choose|i: int| 0 <= i < self.entries@.len() && self.entries@[i].key@ == k;
                    (self.entries@[i].count, self.entries@[i].started_at)
                },
        )
    }

    /// An empty table.
    pub fn new(limit: u32, window_secs: u64) -> (t: RateTable)
        ensures
            t.wf(),
            t@ == (Map::<Seq<char>, (u32, u64)>::empty(), limit, window_secs),
    {
        let t = RateTable { entries: Vec::new(), limit, window_secs };
        assert(t.windows() =~= Map::<Seq<char>, (u32, u64)>::empty());
        t
    }

    fn find(&self, key: &str) -> (r: Option<usize>)
        requires
            self.wf(),
        ensures
            r matches Some(i) ==> i < self.entries@.len() && self.entries@[i as int].key@ == key@,
            r is None ==> !self.windows().contains_key(key@),
    {
        let mut i: usize = 0;
        while i < self.entries.len()
            invariant
                i <= self.entries@.len(),
                forall|j: int| 0 <= j < i ==> self.entries@[j].key@ != key@,
            decreases self.entries@.len() - i,
        {
            if same_text(self.entries[i].key.as_str(), key) {
                return Some(i);
            }
            i = i + 1;
        }
        None
    }

    /// Checks one request of `key` at time `now` (nanoseconds on the
    /// limiter's clock), and records it.
    pub fn check(&mut self, key: &str, now: u64) -> (r: Result<(), u64>)
        requires
            old(self).wf(),
        ensures
            final(self).wf(),
            final(self)@.1 == old(self)@.1,
            final(self)@.2 == old(self)@.2,
            checked(old(self)@.0, final(self)@.0, key@, now, old(self)@.1, old(self)@.2, r),
    {
        let ghost old_map = self.windows();
        let found = self.find(key);
        let (count, start, idx) = match found {
            Some(i) => {
                proof {
                    assert(old_map.contains_key(key@));
                    let j = choose|j: int|
                        0 <= j < self.entries@.len() && self.entries@[j].key@ == key@;
                    assert(j == i as int);
                }
                (self.entries[i].count, self.entries[i].started_at, Some(i))
            },
            None => (0u32, now, None),
        };
        let elapsed = if now >= start {
            (now - start) / NANOS_PER_SEC
        } else {
            0
        };
        let (new_count, new_start, answer) = if elapsed >= self.window_secs {
            (1u32, now, Ok(()))
        } else if count >= self.limit {
            (count, start, Err(self.window_secs - elapsed))
        } else {
            (count + 1, start, Ok(()))
        };
        let entry = RateEntry { key: String::from_str(key), count: new_count, started_at: new_start };
        let ghost old_entries = self.entries@;
        match idx {
            Some(i) => {
                self.entries.set(i, entry);
                proof {
                    assert forall|a: int, b: int|
                        0 <= a < b < self.entries@.len() implies (#[trigger] self.entries@[a]).key@
                        != (#[trigger] self.entries@[b]).key@ by {
                        assert(old_entries[a].key@ != old_entries[b].key@);
                    }
                }
            },
            None => {
                self.entries.push(entry);
            },
        }
        proof {
            let m = self.windows();
            let expected = old_map.insert(key@, (new_count, new_start));
            assert forall|k: Seq<char>| #[trigger] m.contains_key(k) == expected.contains_key(k) by {
                if k == key@ {
                    match idx {
                        Some(i) => {
                            assert(self.entries@[i as int].key@ == k);
                        },
                        None => {
                            assert(self.entries@[old_entries.len() as int].key@ == k);
                        },
                    }
                }
                if k != key@ && expected.contains_key(k) {
                    let j = choose|j: int| 0 <= j < old_entries.len() && old_entries[j].key@ == k;
                    assert(self.entries@[j].key@ == k);
                }
                if m.contains_key(k) && k != key@ {
                    let j = choose|j: int|
                        0 <= j < self.entries@.len() && self.entries@[j].key@ == k;
                    assert(old_entries[j].key@ == k);
                }
            }
            assert forall|k: Seq<char>| m.contains_key(k) implies #[trigger] m[k] == expected[k] by {
                let j = choose|j: int| 0 <= j < self.entries@.len() && self.entries@[j].key@ == k;
                if k == key@ {
                    match idx {
                        Some(i) => {
                            assert(j == i as int);
                        },
                        None => {
                            assert(j == old_entries.len());
                        },
                    }
                } else {
                    assert(old_entries[j].key@ == k);
                    let j0 = choose|j0: int| 0 <= j0 < old_entries.len() && old_entries[j0].key@ == k;
                    assert(j0 == j);
                }
            }
            assert(m =~= expected);
        }
        answer
    }
}

/// The rate limits of the API: a general table (60 requests a minute per
/// key) and a voting table (30 votes an hour per key), on one monotonic
/// clock.
pub struct RateLimiter {
    general: RateTable,
    voting: RateTable,
    clock: Instant,
}

impl View for RateLimiter {
    type V = (Map<Seq<char>, (u32, u64)>, Map<Seq<char>, (u32, u64)>);

    /// The general and the voting windows of the keys seen so far. (The
    /// limiter's clock is an opaque `Instant`, read only through its
    /// elapsed time.)
    open spec fn view(&self) -> (Map<Seq<char>, (u32, u64)>, Map<Seq<char>, (u32, u64)>) {
        (self.general_view(), self.voting_view())
    }
}

impl RateLimiter {
    pub closed spec fn wf(&self) -> bool {
        &&& self.general.wf()
        &&& self.voting.wf()
        &&& self.general@.1 == GENERAL_LIMIT
        &&& self.general@.2 == GENERAL_WINDOW_SECS
        &&& self.voting@.1 == VOTING_LIMIT
        &&& self.voting@.2 == VOTING_WINDOW_SECS
    }

    /// The general windows of the keys seen so far.
    pub closed spec fn general_view(&self) -> Map<Seq<char>, (u32, u64)> {
        self.general@.0
    }

    /// The voting windows of the keys seen so far.
    pub closed spec fn voting_view(&self) -> Map<Seq<char>, (u32, u64)> {
        self.voting@.0
    }

    /// A limiter that has seen no key, with its clock started now.
    pub fn new() -> (l: RateLimiter)
        ensures
            l.wf(),
            l.general_view() == Map::<Seq<char>, (u32, u64)>::empty(),
            l.voting_view() == Map::<Seq<char>, (u32, u64)>::empty(),
    {
        RateLimiter {
            general: RateTable::new(GENERAL_LIMIT, GENERAL_WINDOW_SECS),
            voting: RateTable::new(VOTING_LIMIT, VOTING_WINDOW_SECS),
            clock: instant_now(),
        }
    }

    /// The general check at a given time (nanoseconds on the limiter's
    /// clock): 60 requests per key per minute. `Err` carries the seconds
    /// until the key's window ends.
    pub fn check_general_at(&mut self, key_hash: &str, now: u64) -> (r: Result<(), u64>)
        requires
            old(self).wf(),
        ensures
            final(self).wf(),
            final(self).voting_view() == old(self).voting_view(),
            checked(
                old(self).general_view(),
                final(self).general_view(),
                key_hash@,
                now,
                GENERAL_LIMIT,
                GENERAL_WINDOW_SECS,
                r,
            ),
    {
        self.general.check(key_hash, now)
    }

    /// The voting check at a given time: 30 votes per key per hour.
    pub fn check_voting_at(&mut self, key_hash: &str, now: u64) -> (r: Result<(), u64>)
        requires
            old(self).wf(),
        ensures
            final(self).wf(),
            final(self).general_view() == old(self).general_view(),
            checked(
                old(self).voting_view(),
                final(self).voting_view(),
                key_hash@,
                now,
                VOTING_LIMIT,
                VOTING_WINDOW_SECS,
                r,
            ),
    {
        self.voting.check(key_hash, now)
    }

    /// The general check now.
    pub fn check_general(&mut self, key_hash: &str) -> (r: Result<(), u64>)
        requires
            old(self).wf(),
        ensures
            final(self).wf(),
            final(self).voting_view() == old(self).voting_view(),
            exists|now: u64|
                #[trigger] checked(
                    old(self).general_view(),
                    final(self).general_view(),
                    key_hash@,
                    now,
                    GENERAL_LIMIT,
                    GENERAL_WINDOW_SECS,
                    r,
                ),
    {
        let now = nanos_since(&self.clock);
        self.check_general_at(key_hash, now)
    }

    /// The voting check now.
    pub fn check_voting(&mut self, key_hash: &str) -> (r: Result<(), u64>)
        requires
            old(self).wf(),
        ensures
            final(self).wf(),
            final(self).general_view() == old(self).general_view(),
            exists|now: u64|
                #[trigger] checked(
                    old(self).voting_view(),
                    final(self).voting_view(),
                    key_hash@,
                    now,
                    VOTING_LIMIT,
                    VOTING_WINDOW_SECS,
                    r,
                ),
    {
        let now = nanos_since(&self.clock);
        self.check_voting_at(key_hash, now)
    }

    /// Admits one authenticated request of the key `key_hash` at a given
    /// time under the general limit, or refuses it with a 429.
    pub fn limit_request_at(&mut self, key_hash: &str, now: u64) -> (r: Result<(), ApiError>)
        requires
            old(self).wf(),
        ensures
            final(self).wf(),
            final(self).voting_view() == old(self).voting_view(),
            exists|answer: Result<(), u64>|
                #[trigger] checked(
                    old(self).general_view(),
                    final(self).general_view(),
                    key_hash@,
                    now,
                    GENERAL_LIMIT,
                    GENERAL_WINDOW_SECS,
                    answer,
                ) && api_outcome(r) == limited(answer),
    {
        let answer = self.check_general_at(key_hash, now);
        to_api(answer)
    }

    /// Admits one vote of the key `key_hash` at a given time under the
    /// voting limit, or refuses it with a 429. A refused vote is not to be
    /// stored.
    pub fn limit_vote_at(&mut self, key_hash: &str, now: u64) -> (r: Result<(), ApiError>)
        requires
            old(self).wf(),
        ensures
            final(self).wf(),
            final(self).general_view() == old(self).general_view(),
            exists|answer: Result<(), u64>|
                #[trigger] checked(
                    old(self).voting_view(),
                    final(self).voting_view(),
                    key_hash@,
                    now,
                    VOTING_LIMIT,
                    VOTING_WINDOW_SECS,
                    answer,
                ) && api_outcome(r) == limited(answer),
    {
        let answer = self.check_voting_at(key_hash, now);
        to_api(answer)
    }

    /// Admits one authenticated request now under the general limit (60 a
    /// minute per key), or refuses it with a 429.
    pub fn limit_request(&mut self, key_hash: &str) -> (r: Result<(), ApiError>)
        requires
            old(self).wf(),
        ensures
            final(self).wf(),
            final(self).voting_view() == old(self).voting_view(),
            exists|now: u64, answer: Result<(), u64>|
                #[trigger] checked(
                    old(self).general_view(),
                    final(self).general_view(),
                    key_hash@,
                    now,
                    GENERAL_LIMIT,
                    GENERAL_WINDOW_SECS,
                    answer,
                ) && api_outcome(r) == limited(answer),
    {
        let now = nanos_since(&self.clock);
        self.limit_request_at(key_hash, now)
    }

    /// Admits one vote now under the voting limit (30 an hour per key), or
    /// refuses it with a 429.
    pub fn limit_vote(&mut self, key_hash: &str) -> (r: Result<(), ApiError>)
        requires
            old(self).wf(),
        ensures
            final(self).wf(),
            final(self).general_view() == old(self).general_view(),
            exists|now: u64, answer: Result<(), u64>|
                #[trigger] checked(
                    old(self).voting_view(),
                    final(self).voting_view(),
                    key_hash@,
                    now,
                    VOTING_LIMIT,
                    VOTING_WINDOW_SECS,
                    answer,
                ) && api_outcome(r) == limited(answer),
    {
        let now = nanos_since(&self.clock);
        self.limit_vote_at(key_hash, now)
    }
}

/// A window never counts more requests than its limit, and a refusal asks
/// the caller to wait between one second and the whole window.
pub proof fn lemma_rate_step_bounded(prev: Option<(u32, u64)>, now: u64, limit: u32, window_secs: u64)
    requires
        limit >= 1,
        prev matches Some((c, _)) ==> c <= limit,
    ensures
        ({
            let (window, answer) = rate_step(prev, now, limit, window_secs);
            &&& window.0 <= limit
            &&& answer matches Err(wait) ==> 1 <= wait <= window_secs
            &&& answer is Ok ==> window.0 >= 1
        }),
{
}

/// The count a key's window holds after `n` checks in it, all within the
/// window: one per check, up to the limit.
pub open spec fn filled(n: int, limit: u32) -> u32 {
    if n < limit {
        n as u32
    } else {
        limit
    }
}

/// The answer to a check at time `now` that finds `n` checks already
/// counted in a window opened at `start`, while that window lasts: checks
/// up to the limit pass, every later one is refused with the seconds left
/// in the window.
pub open spec fn series_answer(n: int, start: u64, now: u64, limit: u32, window_secs: u64) -> Result<
    (),
    u64,
> {
    if n < limit {
        Ok(())
    } else {
        Err((window_secs - elapsed_secs(start, now)) as u64)
    }
}

/// The window a check of `key` at time `now` starts from: the one recorded
/// in `windows`, or a fresh `(0, now)` for a key not seen before.
pub open spec fn window_before(windows: Map<Seq<char>, (u32, u64)>, key: Seq<char>, now: u64) -> (
    u32,
    u64,
) {
    if windows.contains_key(key) {
        windows[key]
    } else {
        (0u32, now)
    }
}

/// The conditions of a series of checks of one key within one window:
/// `maps` are the table's windows before each check and after the last,
/// `answers` the answers, related as the checks' contracts relate them;
/// the window the first check starts from counts at most the limit, and
/// every check comes before that window ends.
pub open spec fn series_in_window(
    maps: Seq<Map<Seq<char>, (u32, u64)>>,
    key: Seq<char>,
    times: Seq<u64>,
    answers: Seq<Result<(), u64>>,
    limit: u32,
    window_secs: u64,
) -> bool {
    let (count, start) = window_before(maps[0], key, times[0]);
    &&& limit >= 1
    &&& times.len() >= 1
    &&& maps.len() == times.len() + 1
    &&& answers.len() == times.len()
    &&& count <= limit
    &&& forall|k: int|
        0 <= k < times.len() ==> checked(
            maps[k],
            maps[k + 1],
            key,
            #[trigger] times[k],
            limit,
            window_secs,
            answers[k],
        )
    &&& forall|k: int| 0 <= k < times.len() ==> elapsed_secs(start, #[trigger] times[k]) < window_secs
}

proof fn lemma_series_prefix(
    maps: Seq<Map<Seq<char>, (u32, u64)>>,
    key: Seq<char>,
    times: Seq<u64>,
    answers: Seq<Result<(), u64>>,
    limit: u32,
    window_secs: u64,
    i: int,
)
    requires
        series_in_window(maps, key, times, answers, limit, window_secs),
        0 <= i < times.len(),
    ensures
        ({
            let (count, start) = window_before(maps[0], key, times[0]);
            &&& maps[i + 1].contains_key(key)
            &&& maps[i + 1][key] == (filled(count + i + 1, limit), start)
            &&& answers[i] == series_answer(count + i, start, times[i], limit, window_secs)
        }),
    decreases i,
{
    let (count, start) = window_before(maps[0], key, times[0]);
    if i > 0 {
        lemma_series_prefix(maps, key, times, answers, limit, window_secs, i - 1);
    }
    assert(checked(maps[i], maps[i + 1], key, times[i], limit, window_secs, answers[i]));
    assert(elapsed_secs(start, times[i]) < window_secs);
    assert(elapsed_secs(start, times[0]) < window_secs);
}

/// Checks of one key within one window, from any point of it: the window
/// counts `count` checks when the series starts (none for a key not seen
/// before, whose window opens with the first check). While the window
/// lasts, checks pass until `limit` are counted and every later one is
/// refused with the seconds left until the window ends, between one and
/// the whole window; the window keeps its start and counts one more check
/// per pass.
pub proof fn lemma_window_series_from(
    maps: Seq<Map<Seq<char>, (u32, u64)>>,
    key: Seq<char>,
    times: Seq<u64>,
    answers: Seq<Result<(), u64>>,
    limit: u32,
    window_secs: u64,
)
    requires
        series_in_window(maps, key, times, answers, limit, window_secs),
    ensures
        ({
            let (count, start) = window_before(maps[0], key, times[0]);
            &&& forall|k: int|
                0 <= k < times.len() ==> #[trigger] answers[k] == series_answer(
                    count + k,
                    start,
                    times[k],
                    limit,
                    window_secs,
                )
            &&& forall|k: int|
                0 <= k < times.len() ==> #[trigger] maps[k + 1][key] == (
                    filled(count + k + 1, limit),
                    start,
                )
            &&& forall|k: int|
                0 <= k < times.len() ==> (#[trigger] answers[k] matches Err(wait) ==> 1 <= wait
                    <= window_secs)
        }),
{
    let (count, start) = window_before(maps[0], key, times[0]);
    assert forall|k: int| 0 <= k < times.len() implies #[trigger] answers[k] == series_answer(
        count + k,
        start,
        times[k],
        limit,
        window_secs,
    ) && maps[k + 1][key] == (filled(count + k + 1, limit), start) by {
        lemma_series_prefix(maps, key, times, answers, limit, window_secs, k);
    }
    assert forall|k: int| 0 <= k < times.len() implies #[trigger] maps[k + 1][key] == (
        filled(count + k + 1, limit),
        start,
    ) by {
        lemma_series_prefix(maps, key, times, answers, limit, window_secs, k);
    }
}

/// Checks of one key that the table had not seen, all made within the
/// window that the first of them opens: the first `limit` are admitted and
/// every later one is refused with the seconds left until that window ends
/// (for the voting limit: 30 votes pass, the 31st is told to wait
/// `3600 - s` seconds, `s` the whole seconds since the first vote).
pub proof fn lemma_window_series(
    maps: Seq<Map<Seq<char>, (u32, u64)>>,
    key: Seq<char>,
    times: Seq<u64>,
    answers: Seq<Result<(), u64>>,
    limit: u32,
    window_secs: u64,
)
    requires
        series_in_window(maps, key, times, answers, limit, window_secs),
        !maps[0].contains_key(key),
    ensures
        forall|k: int|
            0 <= k < times.len() ==> #[trigger] answers[k] == series_answer(
                k,
                times[0],
                times[k],
                limit,
                window_secs,
            ),
{
    lemma_window_series_from(maps, key, times, answers, limit, window_secs);
    assert forall|k: int| 0 <= k < times.len() implies #[trigger] answers[k] == series_answer(
        k,
        times[0],
        times[k],
        limit,
        window_secs,
    ) by {
        assert(answers[k] == series_answer(0 + k, times[0], times[k], limit, window_secs));
    }
}

/// A check made when the key's window is at least `window_secs` old is
/// admitted and opens a new window at that time, counting this check.
pub proof fn lemma_window_restart(
    before: Map<Seq<char>, (u32, u64)>,
    after: Map<Seq<char>, (u32, u64)>,
    key: Seq<char>,
    now: u64,
    limit: u32,
    window_secs: u64,
    answer: Result<(), u64>,
)
    requires
        checked(before, after, key, now, limit, window_secs, answer),
        elapsed_secs(window_before(before, key, now).1, now) >= window_secs,
    ensures
        answer == Ok::<(), u64>(()),
        after[key] == (1u32, now),
{
}

/// A table's windows never count more than its limit (for a limit of at
/// least one), so a series may start from any window the table holds.
pub proof fn lemma_windows_within_limit(t: RateTable, key: Seq<char>, now: u64)
    requires
        t.wf(),
        t@.1 >= 1,
    ensures
        window_before(t@.0, key, now).0 <= t@.1,
{
    if t@.0.contains_key(key) {
        let i = choose|i: int| 0 <= i < t.entries@.len() && t.entries@[i].key@ == key;
        assert(t.entries@[i].count <= t.limit || t.entries@[i].count <= 1);
    }
}

} // verus!
