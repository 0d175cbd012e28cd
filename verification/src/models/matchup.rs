//! Matchups between two agents, and the order in which a pair is stored.

use vstd::prelude::*;
use vstd::string::StringSliceAdditionalSpecFns;
use vstd::utf8::*;

verus! {

broadcast use vstd::utf8::group_utf8_lib;

/// A 1v1 matchup. `status` is `"active"`, `"resolved"` or `"discarded"`.
#[derive(Debug, Clone)]
pub struct Matchup {
    pub id: String,
    pub agent_a_id: String,
    pub agent_b_id: String,
    pub winner_id: Option<String>,
    pub status: String,
    pub created_at: String,
    pub expires_at: String,
    pub resolved_at: Option<String>,
}

/// Lexicographic order on byte strings, the order of `str`'s `<`: the first
/// differing byte decides, and a proper prefix comes first.
pub open spec fn lex_less(a: Seq<u8>, b: Seq<u8>) -> bool
    decreases a.len(),
{
    if a.len() == 0 {
        b.len() > 0
    } else if b.len() == 0 {
        false
    } else if a[0] != b[0] {
        a[0] < b[0]
    } else {
        lex_less(a.drop_first(), b.drop_first())
    }
}

/// The order is asymmetric and total on distinct strings.
pub proof fn lemma_lex_less_strict_total(a: Seq<u8>, b: Seq<u8>)
    ensures
        lex_less(a, b) ==> !lex_less(b, a),
        a != b ==> lex_less(a, b) || lex_less(b, a),
        !lex_less(a, a),
    decreases a.len(),
{
    if a.len() > 0 && b.len() > 0 {
        lemma_lex_less_strict_total(a.drop_first(), b.drop_first());
        if a[0] == b[0] && a != b {
            assert(a == seq![a[0]] + a.drop_first());
            assert(b == seq![b[0]] + b.drop_first());
        }
        lemma_lex_less_strict_total(a.drop_first(), a.drop_first());
    } else if a.len() > 0 {
        lemma_lex_less_strict_total(a.drop_first(), a.drop_first());
    } else if b.len() == 0 {
        assert(a =~= b);
    }
}

/// Whether `a` sorts before `b` as `str`s do (by their UTF-8 bytes).
pub fn text_less(a: &str, b: &str) -> (r: bool)
    ensures
        r == lex_less(a.spec_bytes(), b.spec_bytes()),
{
    let x = a.as_bytes();
    let y = b.as_bytes();
    let mut i: usize = 0;
    assert(x@.skip(0) =~= x@);
    assert(y@.skip(0) =~= y@);
    while i < x.len() && i < y.len()
        invariant
            x@ == a.spec_bytes(),
            y@ == b.spec_bytes(),
            i <= x@.len(),
            i <= y@.len(),
            lex_less(x@, y@) == lex_less(x@.skip(i as int), y@.skip(i as int)),
        decreases x@.len() - i,
    {
        assert(x@.skip(i as int)[0] == x@[i as int]);
        assert(y@.skip(i as int)[0] == y@[i as int]);
        if x[i] != y[i] {
            return x[i] < y[i];
        }
        assert(x@.skip(i as int).drop_first() =~= x@.skip(i + 1));
        assert(y@.skip(i as int).drop_first() =~= y@.skip(i + 1));
        i = i + 1;
    }
    i < y.len()
}

/// The pair `{a, b}` in stored order: the smaller id first.
pub open spec fn pair_key(a: Seq<char>, b: Seq<char>) -> (Seq<char>, Seq<char>) {
    if lex_less(encode_utf8(a), encode_utf8(b)) {
        (a, b)
    } else {
        (b, a)
    }
}

/// Orders two agent ids as matchups store them: the lexicographically
/// smaller id becomes agent A.
pub fn normalize_pair<'a>(agent_a_id: &'a str, agent_b_id: &'a str) -> (pair: (&'a str, &'a str))
    ensures
        (pair.0@, pair.1@) == pair_key(agent_a_id@, agent_b_id@),
{
    if text_less(agent_a_id, agent_b_id) {
        (agent_a_id, agent_b_id)
    } else {
        (agent_b_id, agent_a_id)
    }
}

/// The stored order of a pair does not depend on the order its ids are
/// given in, and it puts the smaller id first: looking a pair up under
/// either order finds the same row. Agent A sorts strictly before agent B
/// (the store's check on a matchup row) exactly when the two ids differ, so
/// a matchup of an agent against itself cannot be stored.
pub proof fn lemma_pair_key_symmetric(a: Seq<char>, b: Seq<char>)
    ensures
        pair_key(a, b) == pair_key(b, a),
        !lex_less(encode_utf8(pair_key(a, b).1), encode_utf8(pair_key(a, b).0)),
        a != b <==> lex_less(encode_utf8(pair_key(a, b).0), encode_utf8(pair_key(a, b).1)),
{
    lemma_lex_less_strict_total(encode_utf8(a), encode_utf8(b));
    if a != b {
        encode_utf8_decode_utf8(a);
        encode_utf8_decode_utf8(b);
        assert(encode_utf8(a) != encode_utf8(b));
    }
}

} // verus!
