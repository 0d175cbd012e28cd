//! Text helpers shared by the validators, the renderer and the handlers:
//! decimal formatting, the characters and lines of a text, and exact string
//! comparison.

use vstd::prelude::*;
use vstd::string::StringSliceAdditionalSpecFns;
use vstd::utf8::*;

verus! {

broadcast use vstd::utf8::group_utf8_lib;

/// `String::push` appends one `char` to the end of the string
/// (std documentation: "Appends the given char to the end of this String").
pub assume_specification[ String::push ](string: &mut String, ch: char)
    ensures
        final(string)@ == old(string)@.push(ch),
;

/// The ASCII digit for `d` (meaningful for `0 <= d < 10`).
pub open spec fn digit(d: int) -> char {
    (48 + d) as char
}

/// The decimal representation of `n`, as Rust's `Display` prints an
/// unsigned integer: no sign, no leading zeros.
pub open spec fn decimal(n: nat) -> Seq<char>
    decreases n,
{
    if n < 10 {
        seq![digit(n as int)]
    } else {
        decimal(n / 10).push(digit((n % 10) as int))
    }
}

fn digit_char(d: usize) -> (c: char)
    requires
        d < 10,
    ensures
        c == digit(d as int),
{
    match d {
        0 => '0',
        1 => '1',
        2 => '2',
        3 => '3',
        4 => '4',
        5 => '5',
        6 => '6',
        7 => '7',
        8 => '8',
        _ => '9',
    }
}

/// Appends the decimal representation of `n` to `out`.
pub fn push_decimal(out: &mut String, n: usize)
    ensures
        final(out)@ == old(out)@ + decimal(n as nat),
    decreases n,
{
    if n >= 10 {
        push_decimal(out, n / 10);
    }
    out.push(digit_char(n % 10));
    assert(final(out)@ =~= old(out)@ + decimal(n as nat)) by {
        if n < 10 {
            assert(decimal(n as nat) == seq![digit(n as int)]);
        }
    }
}

/// The pieces of `s` between occurrences of `sep` (the separators belong to
/// no piece). A sequence with `k` separators has `k + 1` pieces; the empty
/// sequence has one empty piece. This is what `str::split` yields.
pub open spec fn split_seq<A>(s: Seq<A>, sep: A) -> Seq<Seq<A>>
    decreases s.len(),
{
    if s.len() == 0 {
        seq![Seq::<A>::empty()]
    } else {
        let before = split_seq(s.drop_last(), sep);
        if s.last() == sep {
            before.push(Seq::<A>::empty())
        } else {
            before.update(before.len() - 1, before.last().push(s.last()))
        }
    }
}

/// The lines of a byte string, split at every `\n` byte. This is what
/// `str::split('\n')` yields, taken byte-wise: UTF-8 never uses the byte
/// `\n` inside a multi-byte character.
pub open spec fn lines_of(b: Seq<u8>) -> Seq<Seq<u8>> {
    split_seq(b, 10u8)
}

/// The start and end offsets of every line of `b` (see `lines_of`).
pub fn line_spans(b: &[u8]) -> (spans: Vec<(usize, usize)>)
    ensures
        spans@.len() == lines_of(b@).len(),
        forall|k: int|
            0 <= k < spans@.len() ==> {
                &&& (#[trigger] spans@[k]).0 <= spans@[k].1 <= b@.len()
                &&& b@.subrange(spans@[k].0 as int, spans@[k].1 as int) == lines_of(b@)[k]
            },
{
    let mut spans: Vec<(usize, usize)> = Vec::new();
    let mut start: usize = 0;
    let mut i: usize = 0;
    assert(b@.take(0) =~= Seq::<u8>::empty());
    while i < b.len()
        invariant
            start <= i <= b@.len(),
            split_seq(b@.take(i as int), 10u8).len() == spans@.len() + 1,
            split_seq(b@.take(i as int), 10u8).last() == b@.subrange(start as int, i as int),
            forall|k: int|
                0 <= k < spans@.len() ==> {
                    &&& (#[trigger] spans@[k]).0 <= spans@[k].1 <= i
                    &&& b@.subrange(spans@[k].0 as int, spans@[k].1 as int) == split_seq(
                        b@.take(i as int),
                        10u8,
                    )[k]
                },
        decreases b@.len() - i,
    {
        assert(b@.take(i + 1).drop_last() =~= b@.take(i as int));
        assert(b@.take(i + 1).last() == b@[i as int]);
        if b[i] == 10u8 {
            spans.push((start, i));
            start = i + 1;
            assert(b@.subrange(start as int, (i + 1) as int) =~= Seq::<u8>::empty());
        } else {
            assert(b@.subrange(start as int, (i + 1) as int) =~= b@.subrange(
                start as int,
                i as int,
            ).push(b@[i as int]));
        }
        i = i + 1;
    }
    spans.push((start, i));
    assert(b@.take(i as int) =~= b@);
    spans
}

/// The characters of a string, in order.
pub fn chars_of(s: &str) -> (v: Vec<char>)
    ensures
        v@ == s@,
{
    let mut v: Vec<char> = Vec::new();
    for c in it: s.chars()
        invariant
            it.seq() == s@,
            v@ == it.seq().take(it.index() as int),
    {
        v.push(c);
    }
    v
}

proof fn lemma_char_vec_deep_view(v: &Vec<char>)
    ensures
        v.deep_view() == v@,
{
    assert(v.deep_view() =~= v@);
}

/// The pieces of a character sequence between occurrences of `sep`.
pub fn split_chars(v: &Vec<char>, sep: char) -> (pieces: Vec<Vec<char>>)
    ensures
        pieces.deep_view() == split_seq(v@, sep),
{
    let mut pieces: Vec<Vec<char>> = Vec::new();
    let mut current: Vec<char> = Vec::new();
    let mut i: usize = 0;
    assert(v@.take(0) =~= Seq::<char>::empty());
    while i < v.len()
        invariant
            i <= v@.len(),
            split_seq(v@.take(i as int), sep) =~= pieces.deep_view().push(current@),
        decreases v@.len() - i,
    {
        assert(v@.take(i + 1).drop_last() =~= v@.take(i as int));
        assert(v@.take(i + 1).last() == v@[i as int]);
        let c = v[i];
        let ghost before = pieces.deep_view();
        if c == sep {
            let done = current;
            proof {
                lemma_char_vec_deep_view(&done);
            }
            pieces.push(done);
            assert(pieces.deep_view() =~= before.push(done@));
            current = Vec::new();
        } else {
            current.push(c);
        }
        i = i + 1;
    }
    let ghost before = pieces.deep_view();
    proof {
        lemma_char_vec_deep_view(&current);
    }
    let last = current;
    pieces.push(last);
    assert(pieces.deep_view() =~= before.push(last@));
    assert(v@.take(i as int) =~= v@);
    pieces
}

/// Whether two strings hold the same characters.
pub fn same_text(a: &str, b: &str) -> (r: bool)
    ensures
        r == (a@ == b@),
{
    let x = a.as_bytes();
    let y = b.as_bytes();
    proof {
        encode_utf8_decode_utf8(a@);
        encode_utf8_decode_utf8(b@);
    }
    if x.len() != y.len() {
        return false;
    }
    let mut i: usize = 0;
    while i < x.len()
        invariant
            x@ == a.spec_bytes(),
            y@ == b.spec_bytes(),
            x@.len() == y@.len(),
            i <= x@.len(),
            forall|j: int| 0 <= j < i ==> x@[j] == y@[j],
        decreases x@.len() - i,
    {
        if x[i] != y[i] {
            return false;
        }
        i = i + 1;
    }
    assert(x@ =~= y@);
    true
}

} // verus!
