//! API keys: how they are hashed for storage, and how a request presents one.

use vstd::prelude::*;
use vstd::string::StringSliceAdditionalSpecFns;
use vstd::utf8::encode_utf8;
use sha2::Digest;

use crate::error::{ApiError, ErrorKind};

verus! {

/// The SHA-256 digest of `data`.
pub uninterp spec fn sha256_digest(data: Seq<u8>) -> Seq<u8>;

/// Hashes `data` with `sha2::Sha256::digest`; the digest is 32 bytes. The
/// hash function itself is not restated.
#[verifier::external_body]
fn sha256(data: &[u8]) -> (d: Vec<u8>)
    ensures
        d@ == sha256_digest(data@),
        d@.len() == 32,
{
    sha2::Sha256::digest(data).to_vec()
}

/// The lower-case hexadecimal digit for `n < 16`.
pub open spec fn hex_digit(n: u8) -> char {
    if n < 10 {
        (48 + n) as char
    } else {
        (87 + n) as char
    }
}

/// Lower-case hexadecimal text of a byte string: two digits per byte, high
/// nibble first.
pub open spec fn hex_lower(bytes: Seq<u8>) -> Seq<char>
    decreases bytes.len(),
{
    if bytes.len() == 0 {
        Seq::empty()
    } else {
        seq![hex_digit(bytes[0] / 16), hex_digit(bytes[0] % 16)] + hex_lower(bytes.drop_first())
    }
}

/// Hex text is twice as long as the bytes it encodes.
pub proof fn lemma_hex_lower_len(bytes: Seq<u8>)
    ensures
        hex_lower(bytes).len() == 2 * bytes.len(),
    decreases bytes.len(),
{
    if bytes.len() > 0 {
        lemma_hex_lower_len(bytes.drop_first());
    }
}

/// Appending a byte appends its two digits.
proof fn lemma_hex_lower_push(bytes: Seq<u8>, b: u8)
    ensures
        hex_lower(bytes.push(b)) == hex_lower(bytes) + seq![hex_digit(b / 16), hex_digit(b % 16)],
    decreases bytes.len(),
{
    let tail = seq![hex_digit(b / 16), hex_digit(b % 16)];
    if bytes.len() > 0 {
        let head = seq![hex_digit(bytes[0] / 16), hex_digit(bytes[0] % 16)];
        lemma_hex_lower_push(bytes.drop_first(), b);
        assert(bytes.push(b).drop_first() =~= bytes.drop_first().push(b));
        assert(bytes.push(b)[0] == bytes[0]);
        assert(hex_lower(bytes.push(b)) == head + hex_lower(bytes.drop_first().push(b)));
        assert(hex_lower(bytes) == head + hex_lower(bytes.drop_first()));
        assert(head + (hex_lower(bytes.drop_first()) + tail) =~= (head + hex_lower(
            bytes.drop_first(),
        )) + tail);
    } else {
        assert(bytes.push(b).drop_first() =~= Seq::<u8>::empty());
        assert(hex_lower(bytes.push(b)) == tail + hex_lower(Seq::<u8>::empty()));
        assert(hex_lower(bytes.push(b)) =~= hex_lower(bytes) + tail);
    }
}

fn hex_char(n: u8) -> (c: char)
    requires
        n < 16,
    ensures
        c == hex_digit(n),
{
    if n < 10 {
        (48 + n) as char
    } else {
        (87 + n) as char
    }
}

/// Encodes bytes as lower-case hexadecimal text, two digits per byte, high
/// nibble first (the text `hex::encode` gives).
fn hex_encode(data: &[u8]) -> (s: String)
    ensures
        s@ == hex_lower(data@),
{
    let mut out = String::new();
    let mut i: usize = 0;
    assert(data@.take(0) =~= Seq::<u8>::empty());
    while i < data.len()
        invariant
            i <= data@.len(),
            out@ == hex_lower(data@.take(i as int)),
        decreases data@.len() - i,
    {
        let b = data[i];
        proof {
            assert(data@.take(i + 1) =~= data@.take(i as int).push(b));
            lemma_hex_lower_push(data@.take(i as int), b);
        }
        out.push(hex_char(b / 16));
        out.push(hex_char(b % 16));
        i = i + 1;
    }
    assert(data@.take(data@.len() as int) =~= data@);
    out
}

/// The stored form of an API key: the lower-case hex SHA-256 digest of its
/// UTF-8 bytes, 64 characters long.
pub fn hash_api_key(key: &str) -> (h: String)
    ensures
        h@ == hex_lower(sha256_digest(key.spec_bytes())),
        h@.len() == 64,
{
    let digest = sha256(key.as_bytes());
    proof {
        lemma_hex_lower_len(digest@);
    }
    hex_encode(digest.as_slice())
}

/// `text` with `prefix` removed from its front, if it starts with it.
pub open spec fn without_prefix(text: Seq<char>, prefix: Seq<char>) -> Option<Seq<char>> {
    if prefix.len() <= text.len() && text.take(prefix.len() as int) == prefix {
        Some(text.skip(prefix.len() as int))
    } else {
        None
    }
}

/// Removes `prefix` from the front of `text`, as `str::strip_prefix` does.
pub fn strip_prefix_text<'a>(text: &'a str, prefix: &str) -> (r: Option<&'a str>)
    ensures
        r matches Some(t) ==> without_prefix(text@, prefix@) == Some(t@),
        r is None <==> without_prefix(text@, prefix@) is None,
{
    let n = text.unicode_len();
    let m = prefix.unicode_len();
    if m > n {
        return None;
    }
    let mut i: usize = 0;
    while i < m
        invariant
            n == text@.len(),
            m == prefix@.len(),
            m <= n,
            i <= m,
            forall|j: int| 0 <= j < i ==> text@[j] == prefix@[j],
        decreases m - i,
    {
        if text.get_char(i) != prefix.get_char(i) {
            assert(text@.take(m as int)[i as int] != prefix@[i as int]);
            return None;
        }
        i = i + 1;
    }
    assert(text@.take(m as int) =~= prefix@);
    Some(text.substring_char(m, n))
}

/// The API key of an `Authorization` header value: what follows `Bearer `.
pub fn bearer_token(header: &str) -> (token: Option<&str>)
    ensures
        token matches Some(t) ==> without_prefix(header@, "Bearer "@) == Some(t@),
        token is None <==> without_prefix(header@, "Bearer "@) is None,
{
    strip_prefix_text(header, "Bearer ")
}

/// The hash that a request's `Authorization` header presents: the stored
/// form of the key that follows `Bearer `; none when the header is missing
/// or does not start with `Bearer `.
pub open spec fn presented_hash(header: Option<Seq<char>>) -> Option<Seq<char>> {
    match header {
        None => None,
        Some(h) => match without_prefix(h, "Bearer "@) {
            Some(key) => Some(hex_lower(sha256_digest(encode_utf8(key)))),
            None => None,
        },
    }
}

/// The first step of authentication: the hash to look the agent up by, or
/// the 401 "Missing or invalid API key" when the header is missing or is
/// not a bearer key. (A hash that matches no agent gets the same 401.)
pub fn presented_key_hash(header: Option<&str>) -> (r: Result<String, ApiError>)
    ensures
        match r {
            Ok(h) => presented_hash(
                match header {
                    Some(t) => Some(t@),
                    None => None,
                },
            ) == Some(h@),
            Err(e) => {
                &&& presented_hash(
                    match header {
                        Some(t) => Some(t@),
                        None => None,
                    },
                ) is None
                &&& e@ == (ErrorKind::Unauthorized, "Missing or invalid API key"@)
            },
        },
{
    match header {
        None => Err(ApiError::unauthorized()),
        Some(h) => match bearer_token(h) {
            Some(key) => Ok(hash_api_key(key)),
            None => Err(ApiError::unauthorized()),
        },
    }
}

/// The key handed out at registration opens the API: a request whose
/// `Authorization` header is `Bearer ` followed by the key presents the
/// hash stored with the agent at registration.
pub proof fn lemma_bearer_key_round_trip(key: Seq<char>)
    ensures
        without_prefix("Bearer "@ + key, "Bearer "@) == Some(key),
        presented_hash(Some("Bearer "@ + key)) == Some(hex_lower(sha256_digest(encode_utf8(key)))),
{
    let p = "Bearer "@;
    assert((p + key).take(p.len() as int) =~= p);
    assert((p + key).skip(p.len() as int) =~= key);
}

} // verus!
