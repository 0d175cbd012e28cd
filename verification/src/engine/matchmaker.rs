//! Matchup generation: how many matchups to open, which agents may be
//! drawn (new agents twice as likely), the random candidate pairs, and the
//! bookkeeping of a run that opens them.

use vstd::prelude::*;
use rand::seq::SliceRandom;
use crate::api::live::LiveEvent;

verus! {

broadcast use vstd::seq_lib::group_to_multiset_ensures;

/// Fewer registered agents than this and no matchup is opened (two to pair
/// and one to vote).
pub const MIN_AGENTS: i64 = 3;

/// Most matchups active at once.
pub const MAX_ACTIVE: i64 = 20;

/// Agents registered less than this many seconds ago (48 hours) count twice
/// in the draw.
pub const NEW_AGENT_SECS: i64 = 172800;

/// The format of stored timestamps.
pub const TIMESTAMP_FORMAT: &'static str = "%Y-%m-%d %H:%M:%S";

/// The number of active matchups aimed at: one per three agents, at least
/// one and at most twenty.
pub open spec fn target_active(agent_count: int) -> int {
    let third = agent_count / 3;
    let at_least_one = if third < 1 {
        1
    } else {
        third
    };
    if at_least_one > MAX_ACTIVE {
        MAX_ACTIVE as int
    } else {
        at_least_one
    }
}

/// How many matchups to open: none with fewer than three agents or when the
/// active ones already reach the target, else the shortfall.
pub open spec fn quota(agent_count: int, active: int) -> Option<int> {
    if agent_count < MIN_AGENTS {
        None
    } else if target_active(agent_count) - active < 1 {
        None
    } else {
        Some(target_active(agent_count) - active)
    }
}

/// Decides how many matchups to open.
pub fn matchup_quota(agent_count: i64, active: i64) -> (q: Option<i64>)
    requires
        active > i64::MIN + MAX_ACTIVE,
    ensures
        q matches Some(n) ==> quota(agent_count as int, active as int) == Some(n as int),
        q is None <==> quota(agent_count as int, active as int) is None,
{
    if agent_count < MIN_AGENTS {
        return None;
    }
    let third = agent_count / 3;
    let at_least_one = if third < 1 {
        1
    } else {
        third
    };
    let target = if at_least_one > MAX_ACTIVE {
        MAX_ACTIVE
    } else {
        at_least_one
    };
    let to_create = target - active;
    if to_create < 1 {
        None
    } else {
        Some(to_create)
    }
}

/// A run never opens more than the target allows: the matchups it opens
/// and the active ones together stay within the target and within twenty.
pub proof fn lemma_quota_bounded(agent_count: int, active: int)
    ensures
        quota(agent_count, active) matches Some(n) ==> {
            &&& 1 <= n
            &&& active + n == target_active(agent_count)
            &&& active + n <= MAX_ACTIVE
            &&& agent_count >= MIN_AGENTS
        },
{
}

/// The matchmaker opens matchups only with at least three agents, aiming
/// at one active matchup per three agents (rounded down), at least one and
/// at most twenty: it opens the shortfall from the active count, or none
/// when nothing is short.
pub proof fn lemma_quota_rules(agent_count: int, active: int)
    ensures
        agent_count >= 3 ==> 1 <= target_active(agent_count) <= 20,
        3 <= agent_count < 63 ==> 3 * target_active(agent_count) <= agent_count < 3
            * target_active(agent_count) + 3,
        agent_count >= 60 ==> target_active(agent_count) == 20,
        agent_count < 3 ==> quota(agent_count, active) is None,
        agent_count >= 3 && active >= target_active(agent_count) ==> quota(agent_count, active) is None,
        agent_count >= 3 && active < target_active(agent_count) ==> quota(agent_count, active)
            == Some(target_active(agent_count) - active),
{
}

/// A point in time: whole seconds since the Unix epoch and the nanoseconds
/// past them.
#[derive(Clone, Copy, Debug, PartialEq, Eq)]
pub struct Timestamp {
    pub secs: i64,
    pub nanos: u32,
}

/// `(s1, n1)` is later than `(s2, n2)`.
pub open spec fn later(s1: int, n1: int, s2: int, n2: int) -> bool {
    s1 > s2 || (s1 == s2 && n1 > n2)
}

/// What `chrono::NaiveDateTime::parse_from_str(text, format)` gives, as
/// seconds since the Unix epoch and sub-second nanoseconds of the parsed
/// time read as UTC; `None` when it does not parse.
pub uninterp spec fn naive_datetime(text: Seq<char>, format: Seq<char>) -> Option<(i64, u32)>;

/// Parses `text` with `chrono::NaiveDateTime::parse_from_str` and returns
/// the parsed time as seconds since the epoch and sub-second nanoseconds.
/// The format language itself is not restated.
#[verifier::external_body]
fn parse_naive_datetime(text: &str, format: &str) -> (r: Option<(i64, u32)>)
    ensures
        r == naive_datetime(text@, format@),
{
    match chrono::NaiveDateTime::parse_from_str(text, format) {
        Ok(t) => Some((t.and_utc().timestamp(), t.and_utc().timestamp_subsec_nanos())),
        Err(_) => None,
    }
}

/// The current time, from `chrono::Utc::now()`: at or after the epoch,
/// with fewer than 10^9 nanoseconds past the second. Which time it is, is
/// left open.
#[verifier::external_body]
fn utc_now() -> (t: Timestamp)
    ensures
        t.secs >= 0,
        t.nanos < 1_000_000_000,
{
    let now = chrono::Utc::now();
    Timestamp { secs: now.timestamp(), nanos: now.timestamp_subsec_nanos() }
}

/// An agent whose creation time parsed as `parsed` (seconds and
/// nanoseconds since the epoch; `None` when it did not parse) is new at
/// `now`: it was created later than 48 hours before `now`.
pub open spec fn new_at(parsed: Option<(i64, u32)>, now: Timestamp) -> bool {
    match parsed {
        Some((s, n)) => later(s as int, n as int, now.secs - NEW_AGENT_SECS, now.nanos as int),
        None => false,
    }
}

/// An agent created at `created_at` is new at `now`: its timestamp parses
/// and is later than 48 hours before `now`.
pub open spec fn is_new_agent(created_at: Seq<char>, now: Timestamp) -> bool {
    new_at(naive_datetime(created_at, TIMESTAMP_FORMAT@), now)
}

/// Decides whether an agent is new at `now`, from its parsed creation time.
pub fn is_new_at(parsed: Option<(i64, u32)>, now: Timestamp) -> (r: bool)
    ensures
        r == new_at(parsed, now),
{
    match parsed {
        Some((s, n)) => {
            let cutoff: i128 = now.secs as i128 - NEW_AGENT_SECS as i128;
            (s as i128) > cutoff || ((s as i128) == cutoff && n > now.nanos)
        },
        None => false,
    }
}

/// The draw pool for the first `k` agents: each index once, and once more
/// when the agent is new.
pub open spec fn pool_upto(newness: Seq<bool>, k: int) -> Seq<usize>
    decreases k,
{
    if k <= 0 {
        Seq::empty()
    } else {
        let once = pool_upto(newness, k - 1).push((k - 1) as usize);
        if newness[k - 1] {
            once.push((k - 1) as usize)
        } else {
            once
        }
    }
}

pub open spec fn newness(created_at: Seq<String>, now: Timestamp) -> Seq<bool> {
    Seq::new(created_at.len(), |i: int| is_new_agent(created_at[i]@, now))
}

/// Builds the draw pool of the agents with the given creation times, at
/// time `now`.
pub fn selection_pool(created_at: &Vec<String>, now: Timestamp) -> (pool: Vec<usize>)
    ensures
        pool@ == pool_upto(newness(created_at@, now), created_at@.len() as int),
{
    let ghost fresh = newness(created_at@, now);
    let mut pool: Vec<usize> = Vec::new();
    let mut i: usize = 0;
    while i < created_at.len()
        invariant
            i <= created_at@.len(),
            fresh == newness(created_at@, now),
            pool@ == pool_upto(fresh, i as int),
        decreases created_at@.len() - i,
    {
        pool.push(i);
        let parsed = parse_naive_datetime(created_at[i].as_str(), TIMESTAMP_FORMAT);
        let recent = is_new_at(parsed, now);
        assert(recent == fresh[i as int]);
        if recent {
            pool.push(i);
        }
        i = i + 1;
    }
    pool
}

/// Builds the draw pool at the current time.
pub fn current_selection_pool(created_at: &Vec<String>) -> (pool: Vec<usize>)
    ensures
        exists|now: Timestamp| pool@ == pool_upto(newness(created_at@, now), created_at@.len() as int),
{
    let now = utc_now();
    selection_pool(created_at, now)
}

/// Every agent is in the pool once, and a new agent twice.
pub proof fn lemma_pool_weights(fresh: Seq<bool>, k: int, i: int)
    requires
        0 <= i < k <= fresh.len(),
        fresh.len() <= usize::MAX,
    ensures
        pool_upto(fresh, k).to_multiset().count(i as usize) == if fresh[i] {
            2nat
        } else {
            1nat
        },
    decreases k,
{
    lemma_pool_below(fresh, k - 1);
    let before = pool_upto(fresh, k - 1);
    before.to_multiset_ensures();
    before.push((k - 1) as usize).to_multiset_ensures();
    if i < k - 1 {
        lemma_pool_weights(fresh, k - 1, i);
    } else {
        assert(!before.contains(i as usize));
    }
}

proof fn lemma_pool_below(fresh: Seq<bool>, k: int)
    requires
        0 <= k <= fresh.len(),
        fresh.len() <= usize::MAX,
    ensures
        forall|j: int| 0 <= j < pool_upto(fresh, k).len() ==> (#[trigger] pool_upto(fresh, k)[j]) < k,
    decreases k,
{
    if k > 0 {
        lemma_pool_below(fresh, k - 1);
        let before = pool_upto(fresh, k - 1);
        let p = pool_upto(fresh, k);
        assert forall|j: int| 0 <= j < p.len() implies (#[trigger] p[j]) < k by {
            if j < before.len() {
                assert(p[j] == before[j]);
            } else {
                assert(p[j] == (k - 1) as usize);
            }
        }
    }
}

/// Whether a sequence holds two different values.
pub open spec fn has_two_distinct(s: Seq<usize>) -> bool {
    exists|i: int, j: int| 0 <= i < s.len() && 0 <= j < s.len() && s[i] != s[j]
}

/// Shuffles `v` in place with `SliceRandom::shuffle` and the thread's
/// random generator: the result is a permutation of `v`. Which permutation
/// is left open.
#[verifier::external_body]
fn shuffle_indices(v: &mut Vec<usize>)
    ensures
        final(v)@.to_multiset() == old(v)@.to_multiset(),
{
    v.shuffle(&mut rand::rng());
}

proof fn lemma_distinct_permutation(a: Seq<usize>, b: Seq<usize>)
    requires
        a.to_multiset() == b.to_multiset(),
    ensures
        has_two_distinct(a) == has_two_distinct(b),
{
    assert forall|s: Seq<usize>, t: Seq<usize>|
        s.to_multiset() == t.to_multiset() && has_two_distinct(s) implies has_two_distinct(t) by {
        let (i, j) = choose|i: int, j: int| 0 <= i < s.len() && 0 <= j < s.len() && s[i] != s[j];
        s.to_multiset_ensures();
        t.to_multiset_ensures();
        assert(s.contains(s[i]));
        assert(s.contains(s[j]));
        assert(s.to_multiset().count(s[i]) > 0);
        assert(s.to_multiset().count(s[j]) > 0);
        assert(t.to_multiset().count(s[i]) > 0);
        assert(t.to_multiset().count(s[j]) > 0);
        assert(t.contains(s[i]));
        assert(t.contains(s[j]));
        let p = choose|p: int| 0 <= p < t.len() && t[p] == s[i];
        let q = choose|q: int| 0 <= q < t.len() && t[q] == s[j];
        assert(t[p] != t[q]);
    }
}

/// The first position at or after `i` whose element differs from `a`.
pub open spec fn first_differing(s: Seq<usize>, a: usize, i: int) -> Option<int>
    decreases s.len() - i,
{
    if i < 0 || i >= s.len() {
        None
    } else if s[i] != a {
        Some(i)
    } else {
        first_differing(s, a, i + 1)
    }
}

/// The pair drawn from a shuffled pool `s`: its first index together with
/// the first index of `s` that differs from it; none when `s` holds fewer
/// than two entries or no index other than its first.
pub open spec fn drawn_pair(s: Seq<usize>) -> Option<(usize, usize)> {
    if s.len() < 2 {
        None
    } else {
        match first_differing(s, s[0], 0) {
            Some(j) => Some((s[0], s[j])),
            None => None,
        }
    }
}

/// The first element of `v` other than `a`, if any.
pub fn first_other(v: &Vec<usize>, a: usize) -> (r: Option<usize>)
    ensures
        r == (match first_differing(v@, a, 0) {
            Some(j) => Some(v@[j]),
            None => None,
        }),
        r is None <==> forall|i: int| 0 <= i < v@.len() ==> v@[i] == a,
        r matches Some(b) ==> b != a && v@.contains(b),
{
    let mut i: usize = 0;
    while i < v.len()
        invariant
            i <= v@.len(),
            forall|j: int| 0 <= j < i ==> v@[j] == a,
            first_differing(v@, a, 0) == first_differing(v@, a, i as int),
        decreases v@.len() - i,
    {
        if v[i] != a {
            assert(v@[i as int] == v[i as int]);
            return Some(v[i]);
        }
        i = i + 1;
    }
    None
}

/// Draws one pair from a shuffled pool: its first index, paired with the
/// first index after it that differs from it.
pub fn draw_pair(shuffled: &Vec<usize>) -> (p: Option<(usize, usize)>)
    ensures
        p == drawn_pair(shuffled@),
        p matches Some((a, b)) ==> a != b && shuffled@.contains(a) && shuffled@.contains(b),
        p is None <==> !has_two_distinct(shuffled@),
{
    if shuffled.len() < 2 {
        assert(!has_two_distinct(shuffled@)) by {
            if has_two_distinct(shuffled@) {
                let (i, j) = choose|i: int, j: int|
                    0 <= i < shuffled@.len() && 0 <= j < shuffled@.len() && shuffled@[i]
                        != shuffled@[j];
                assert(i != j);
            }
        }
        return None;
    }
    let a = shuffled[0];
    match first_other(shuffled, a) {
        Some(b) => {
            assert(shuffled@.contains(a)) by {
                assert(shuffled@[0] == a);
            }
            assert(has_two_distinct(shuffled@)) by {
                let q = choose|q: int| 0 <= q < shuffled@.len() && shuffled@[q] == b;
                assert(shuffled@[0] != shuffled@[q]);
            }
            Some((a, b))
        },
        None => {
            assert(!has_two_distinct(shuffled@)) by {
                if has_two_distinct(shuffled@) {
                    let (i, j) = choose|i: int, j: int|
                        0 <= i < shuffled@.len() && 0 <= j < shuffled@.len() && shuffled@[i]
                            != shuffled@[j];
                    assert(shuffled@[i] == a);
                }
            }
            None
        },
    }
}

/// Draws candidate pairs: `rounds` times, the pool is shuffled and its
/// first index is paired with the next different index in the shuffled
/// pool (`drawn_pair`). Every pair is the pair drawn from some arrangement
/// of the pool, so it joins two different indices of the pool; when the
/// pool holds two different indices every round yields a pair, else none
/// does.
pub fn candidate_pairs(pool: Vec<usize>, rounds: i64) -> (pairs: Vec<(usize, usize)>)
    ensures
        pairs@.len() == if has_two_distinct(pool@) && rounds > 0 {
            rounds as int
        } else {
            0
        },
        forall|k: int|
            0 <= k < pairs@.len() ==> {
                &&& (#[trigger] pairs@[k]).0 != pairs@[k].1
                &&& pool@.contains(pairs@[k].0)
                &&& pool@.contains(pairs@[k].1)
                &&& exists|arranged: Seq<usize>|
                    arranged.to_multiset() == pool@.to_multiset() && #[trigger] drawn_pair(
                        arranged,
                    ) == Some(pairs@[k])
            },
{
    let ghost given = pool@;
    let mut indices = pool;
    let mut pairs: Vec<(usize, usize)> = Vec::new();
    let mut round: i64 = 0;
    while round < rounds
        invariant_except_break
            rounds > 0 ==> round <= rounds,
            pairs@.len() == if has_two_distinct(given) {
                round as int
            } else {
                0
            },
        invariant
            0 <= round,
            round <= rounds || round == 0,
            indices@.to_multiset() == given.to_multiset(),
            forall|k: int|
                0 <= k < pairs@.len() ==> {
                    &&& (#[trigger] pairs@[k]).0 != pairs@[k].1
                    &&& given.contains(pairs@[k].0)
                    &&& given.contains(pairs@[k].1)
                    &&& exists|arranged: Seq<usize>|
                        arranged.to_multiset() == given.to_multiset() && #[trigger] drawn_pair(
                            arranged,
                        ) == Some(pairs@[k])
                },
        ensures
            pairs@.len() == if has_two_distinct(given) && rounds > 0 {
                rounds as int
            } else {
                0
            },
        decreases rounds - round,
    {
        shuffle_indices(&mut indices);
        proof {
            lemma_distinct_permutation(indices@, given);
        }
        if indices.len() < 2 {
            assert(!has_two_distinct(given)) by {
                if has_two_distinct(indices@) {
                    let (i, j) = choose|i: int, j: int|
                        0 <= i < indices@.len() && 0 <= j < indices@.len() && indices@[i]
                            != indices@[j];
                    assert(i != j);
                }
            }
            break;
        }
        match draw_pair(&indices) {
            Some((ai, bi)) => {
                assert(indices@.to_multiset().count(ai) > 0);
                assert(indices@.to_multiset().count(bi) > 0);
                assert(given.contains(ai));
                assert(given.contains(bi));
                assert(drawn_pair(indices@) == Some((ai, bi)));
                pairs.push((ai, bi));
                assert(pairs@[pairs@.len() - 1] == (ai, bi));
            },
            None => {},
        }
        round = round + 1;
    }
    pairs
}

/// The bookkeeping of a matchmaker run: it hands out candidate pairs in
/// order while fewer matchups than `to_create` have been opened, and counts
/// the ones opened.
pub struct MatchmakerRun {
    pairs: Vec<(usize, usize)>,
    next: usize,
    created: i64,
    to_create: i64,
}

impl View for MatchmakerRun {
    type V = (Seq<(usize, usize)>, nat, int, int);

    /// The candidate pairs, how many were handed out, how many matchups
    /// were opened, and how many are to be opened.
    open spec fn view(&self) -> (Seq<(usize, usize)>, nat, int, int) {
        (self.pairs(), self.handed_out(), self.created_count(), self.quota())
    }
}

impl MatchmakerRun {
    pub closed spec fn pairs(&self) -> Seq<(usize, usize)> {
        self.pairs@
    }

    pub closed spec fn handed_out(&self) -> nat {
        self.next as nat
    }

    pub closed spec fn created_count(&self) -> int {
        self.created as int
    }

    pub closed spec fn quota(&self) -> int {
        self.to_create as int
    }

    /// Never more pairs handed out than there are, never a negative count,
    /// and never more opened than asked for (unless nothing was asked).
    pub closed spec fn wf(&self) -> bool {
        &&& self.next <= self.pairs@.len()
        &&& 0 <= self.created
        &&& (self.created <= self.to_create || self.created == 0)
    }

    /// Starts a run over the given candidate pairs.
    pub fn new(pairs: Vec<(usize, usize)>, to_create: i64) -> (run: MatchmakerRun)
        ensures
            run.wf(),
            run.view() == (pairs@, 0nat, 0int, to_create as int),
    {
        MatchmakerRun { pairs, next: 0, created: 0, to_create }
    }

    /// The next candidate pair, while matchups are still to be opened and
    /// candidates remain.
    pub fn next_pair(&mut self) -> (p: Option<(usize, usize)>)
        requires
            old(self).wf(),
        ensures
            final(self).wf(),
            ({
                let (pairs, next, created, to_create) = old(self).view();
                if created >= to_create || next >= pairs.len() {
                    &&& p is None
                    &&& final(self).view() == old(self).view()
                } else {
                    &&& p == Some(pairs[next as int])
                    &&& final(self).view() == (pairs, next + 1, created, to_create)
                }
            }),
    {
        if self.created >= self.to_create || self.next >= self.pairs.len() {
            return None;
        }
        let p = self.pairs[self.next];
        self.next = self.next + 1;
        Some(p)
    }

    /// What to do with the pair just handed out: a pair that already met in
    /// the last 7 days is skipped, and the run moves on to the next
    /// candidate; any other is to be opened.
    pub fn should_open(&self, recently_paired: bool) -> (open: bool)
        ensures
            open == !recently_paired,
    {
        !recently_paired
    }

    /// Counts one more opened matchup and gives the event that announces
    /// it, naming its two agents; only while fewer than `to_create` were
    /// opened, which holds after `next_pair` handed out a pair. Each opened
    /// matchup is counted, and announced, exactly once.
    pub fn record_created(&mut self, matchup_id: String, agent_a: String, agent_b: String) -> (e:
        LiveEvent)
        requires
            old(self).wf(),
            old(self).view().2 < old(self).view().3,
        ensures
            final(self).wf(),
            ({
                let (pairs, next, created, to_create) = old(self).view();
                final(self).view() == (pairs, next, created + 1, to_create)
            }),
            e == (LiveEvent::MatchupCreated { matchup_id, agent_a, agent_b }),
    {
        self.created = self.created + 1;
        LiveEvent::MatchupCreated { matchup_id, agent_a, agent_b }
    }

    /// How many matchups this run opened.
    pub fn created(&self) -> (n: i64)
        ensures
            n == self.view().2,
    {
        self.created
    }
}

/// A run opens at most `to_create` matchups.
pub proof fn lemma_run_within_quota(run: MatchmakerRun)
    requires
        run.wf(),
        run.view().3 >= 0,
    ensures
        0 <= run.view().2 <= run.view().3,
{
}

} // verus!
