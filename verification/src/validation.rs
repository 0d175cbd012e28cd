//! Input validation for agent profiles and votes.
//!
//! Names, self-portraits, colormaps, theme colors and stats documents are
//! measured in UTF-8 bytes (as `str::len` measures them); taglines and
//! comments, whose limits the profile format states in characters, are
//! measured in characters. Every validator returns exactly the error
//! message that the rule it breaks first produces.

use vstd::prelude::*;
use vstd::string::StringSliceAdditionalSpecFns;

use crate::text::{decimal, line_spans, lines_of, push_decimal};

verus! {

/// Rows of a self-portrait or colormap.
pub const PORTRAIT_ROWS: usize = 32;

/// Columns (bytes) of each row of a self-portrait or colormap.
pub const PORTRAIT_COLS: usize = 48;

/// Longest tagline, in characters.
pub const MAX_TAGLINE: usize = 200;

/// Longest vote comment, in characters.
pub const MAX_COMMENT: usize = 500;

/// Longest stats document, in bytes.
pub const MAX_STATS_BYTES: usize = 4096;

/// Longest agent name, in bytes.
pub const MAX_NAME: usize = 32;

/// The view of a validator's result: `Ok(())`, or the error message's characters.
pub open spec fn outcome(r: Result<(), String>) -> Result<(), Seq<char>> {
    match r {
        Ok(_) => Ok(()),
        Err(m) => Err(m@),
    }
}

/// The bytes of ASCII letters and digits, `-` and `_`.
pub open spec fn is_name_byte(c: u8) -> bool {
    ||| 48 <= c <= 57
    ||| 65 <= c <= 90
    ||| 97 <= c <= 122
    ||| c == 45
    ||| c == 95
}

/// Printable ASCII, `0x20` through `0x7E`.
pub open spec fn is_printable(c: u8) -> bool {
    0x20 <= c <= 0x7e
}

/// The bytes of the colormap palette: `. R G B C M Y W K O`.
pub open spec fn is_color_code(c: u8) -> bool {
    ||| c == 46
    ||| c == 82
    ||| c == 71
    ||| c == 66
    ||| c == 67
    ||| c == 77
    ||| c == 89
    ||| c == 87
    ||| c == 75
    ||| c == 79
}

/// The bytes of ASCII hexadecimal digits, either case.
pub open spec fn is_hex_digit(c: u8) -> bool {
    ||| 48 <= c <= 57
    ||| 65 <= c <= 70
    ||| 97 <= c <= 102
}

/// Which bytes a grid may hold.
#[derive(Clone, Copy, Debug, PartialEq, Eq)]
pub enum Palette {
    Printable,
    ColorCodes,
}

pub open spec fn in_palette(p: Palette, c: u8) -> bool {
    match p {
        Palette::Printable => is_printable(c),
        Palette::ColorCodes => is_color_code(c),
    }
}

pub open spec fn all_in_palette(line: Seq<u8>, p: Palette) -> bool {
    forall|j: int| 0 <= j < line.len() ==> in_palette(p, #[trigger] line[j])
}

/// A well-formed grid row: exactly 48 bytes, all from the palette.
pub open spec fn row_ok(line: Seq<u8>, p: Palette) -> bool {
    line.len() == PORTRAIT_COLS && all_in_palette(line, p)
}

/// The first row at or after `i` that is not well formed, with `true` when
/// its width is wrong and `false` when it holds a byte outside the palette.
pub open spec fn first_fault(lines: Seq<Seq<u8>>, p: Palette, i: int) -> Option<(int, bool)>
    decreases lines.len() - i,
{
    if i < 0 || i >= lines.len() {
        None
    } else if lines[i].len() != PORTRAIT_COLS {
        Some((i, true))
    } else if !all_in_palette(lines[i], p) {
        Some((i, false))
    } else {
        first_fault(lines, p, i + 1)
    }
}

/// What validating a 32 x 48 grid with UTF-8 bytes `b` gives: `b` is split
/// into lines at `\n`, the line count is checked first, then the lines in
/// order; `label` names the grid and `fault` ends the message for a line
/// with a byte outside the palette.
pub open spec fn grid_outcome(b: Seq<u8>, label: Seq<char>, p: Palette, fault: Seq<char>) -> Result<
    (),
    Seq<char>,
> {
    let lines = lines_of(b);
    if lines.len() != PORTRAIT_ROWS {
        Err(label + " must be exactly 32 rows, got "@ + decimal(lines.len()))
    } else {
        match first_fault(lines, p, 0) {
            None => Ok(()),
            Some((r, true)) => Err(
                label + " row "@ + decimal(r as nat) + " must be exactly 48 chars, got "@ + decimal(
                    lines[r].len(),
                ),
            ),
            Some((r, false)) => Err(label + " row "@ + decimal(r as nat) + fault),
        }
    }
}

/// A grid is accepted exactly when it has 32 lines, each of them 48 bytes
/// from the palette.
pub open spec fn grid_ok(b: Seq<u8>, p: Palette) -> bool {
    let lines = lines_of(b);
    &&& lines.len() == PORTRAIT_ROWS
    &&& forall|k: int| 0 <= k < lines.len() ==> row_ok(#[trigger] lines[k], p)
}

proof fn lemma_first_fault_none(lines: Seq<Seq<u8>>, p: Palette, i: int)
    requires
        0 <= i <= lines.len(),
    ensures
        first_fault(lines, p, i) is None <==> forall|k: int|
            i <= k < lines.len() ==> row_ok(#[trigger] lines[k], p),
    decreases lines.len() - i,
{
    if i < lines.len() {
        lemma_first_fault_none(lines, p, i + 1);
        if first_fault(lines, p, i) is None {
            assert forall|k: int| i <= k < lines.len() implies row_ok(#[trigger] lines[k], p) by {
                if k > i {
                }
            }
        }
    }
}

/// A grid passes validation exactly when it is well formed.
pub proof fn lemma_grid_outcome_ok(b: Seq<u8>, label: Seq<char>, p: Palette, fault: Seq<char>)
    ensures
        grid_outcome(b, label, p, fault) is Ok <==> grid_ok(b, p),
{
    lemma_first_fault_none(lines_of(b), p, 0);
}

fn in_palette_byte(p: Palette, c: u8) -> (r: bool)
    ensures
        r == in_palette(p, c),
{
    match p {
        Palette::Printable => 0x20 <= c && c <= 0x7e,
        Palette::ColorCodes => c == 46 || c == 82 || c == 71 || c == 66 || c == 67 || c == 77 || c
            == 89 || c == 87 || c == 75 || c == 79,
    }
}

fn check_grid(text: &str, label: &str, p: Palette, fault: &str) -> (r: Result<(), String>)
    ensures
        outcome(r) == grid_outcome(text.spec_bytes(), label@, p, fault@),
{
    let b = text.as_bytes();
    let spans = line_spans(b);
    let ghost lines = lines_of(b@);
    if spans.len() != PORTRAIT_ROWS {
        let mut m = String::from_str(label);
        m.append(" must be exactly 32 rows, got ");
        push_decimal(&mut m, spans.len());
        return Err(m);
    }
    let mut k: usize = 0;
    while k < spans.len()
        invariant
            b@ == text.spec_bytes(),
            lines == lines_of(b@),
            spans@.len() == lines.len(),
            spans@.len() == PORTRAIT_ROWS,
            k <= spans@.len(),
            forall|q: int|
                0 <= q < spans@.len() ==> {
                    &&& (#[trigger] spans@[q]).0 <= spans@[q].1 <= b@.len()
                    &&& b@.subrange(spans@[q].0 as int, spans@[q].1 as int) == lines[q]
                },
            first_fault(lines, p, 0) == first_fault(lines, p, k as int),
        decreases spans@.len() - k,
    {
        let (s, e) = spans[k];
        let ghost line = lines[k as int];
        assert(line == b@.subrange(s as int, e as int));
        if e - s != PORTRAIT_COLS {
            let mut m = String::from_str(label);
            m.append(" row ");
            push_decimal(&mut m, k);
            m.append(" must be exactly 48 chars, got ");
            push_decimal(&mut m, e - s);
            return Err(m);
        }
        let mut j: usize = s;
        while j < e
            invariant
                s <= j <= e <= b@.len(),
                e - s == PORTRAIT_COLS,
                line == b@.subrange(s as int, e as int),
                b@ == text.spec_bytes(),
                lines == lines_of(b@),
                lines.len() == PORTRAIT_ROWS,
                k < lines.len(),
                line == lines[k as int],
                first_fault(lines, p, 0) == first_fault(lines, p, k as int),
                forall|t: int| 0 <= t < j - s ==> in_palette(p, #[trigger] line[t]),
            decreases e - j,
        {
            if !in_palette_byte(p, b[j]) {
                assert(line[j - s] == b@[j as int]);
                assert(!in_palette(p, line[j - s]));
                assert(!all_in_palette(line, p));
                let mut m = String::from_str(label);
                m.append(" row ");
                push_decimal(&mut m, k);
                m.append(fault);
                return Err(m);
            }
            assert(line[j - s] == b@[j as int]);
            j = j + 1;
        }
        assert(all_in_palette(line, p));
        k = k + 1;
    }
    Ok(())
}

/// What `validate_name` gives for a name with UTF-8 bytes `b`.
pub open spec fn name_outcome(b: Seq<u8>) -> Result<(), Seq<char>> {
    if b.len() == 0 || b.len() > MAX_NAME {
        Err("Name must be 1-32 characters"@)
    } else if !(forall|i: int| 0 <= i < b.len() ==> is_name_byte(#[trigger] b[i])) {
        Err("Name must contain only alphanumeric characters, hyphens, and underscores"@)
    } else {
        Ok(())
    }
}

/// A name is accepted exactly when it has 1 to 32 bytes, each an ASCII
/// digit or letter, `-` or `_`. Any other length is refused with the length
/// message; within the length, a name holding any other byte (a `.`, a
/// space, a byte of a non-ASCII character) is refused with the character
/// message.
pub proof fn lemma_name_rules(b: Seq<u8>)
    ensures
        name_outcome(b) is Ok <==> 1 <= b.len() <= 32 && forall|i: int|
            0 <= i < b.len() ==> {
                let c = #[trigger] b[i];
                ||| 48 <= c <= 57
                ||| 65 <= c <= 90
                ||| 97 <= c <= 122
                ||| c == 45
                ||| c == 95
            },
        b.len() == 0 || b.len() > 32 ==> name_outcome(b) == Err::<(), Seq<char>>(
            "Name must be 1-32 characters"@,
        ),
        forall|i: int|
            0 <= i < b.len() && 1 <= b.len() <= 32 && !({
                let c = #[trigger] b[i];
                ||| 48 <= c <= 57
                ||| 65 <= c <= 90
                ||| 97 <= c <= 122
                ||| c == 45
                ||| c == 95
            }) ==> name_outcome(b) == Err::<(), Seq<char>>(
                "Name must contain only alphanumeric characters, hyphens, and underscores"@,
            ),
{
}

/// Checks an agent name: 1 to 32 bytes, each an ASCII letter or digit,
/// `-` or `_`. (A character outside ASCII is encoded only with bytes at or
/// above `0x80`, none of which is allowed, so this is the check of every
/// character of the name.)
pub fn validate_name(name: &str) -> (r: Result<(), String>)
    ensures
        outcome(r) == name_outcome(name.spec_bytes()),
{
    let b = name.as_bytes();
    if b.len() == 0 || b.len() > MAX_NAME {
        return Err(String::from_str("Name must be 1-32 characters"));
    }
    let mut i: usize = 0;
    while i < b.len()
        invariant
            b@ == name.spec_bytes(),
            0 < b@.len() <= MAX_NAME,
            i <= b@.len(),
            forall|j: int| 0 <= j < i ==> is_name_byte(#[trigger] b@[j]),
        decreases b@.len() - i,
    {
        let c = b[i];
        let ok = (48 <= c && c <= 57) || (65 <= c && c <= 90) || (97 <= c && c <= 122) || c == 45
            || c == 95;
        if !ok {
            assert(!is_name_byte(b@[i as int]));
            return Err(
                String::from_str(
                    "Name must contain only alphanumeric characters, hyphens, and underscores",
                ),
            );
        }
        i = i + 1;
    }
    Ok(())
}

/// What `validate_portrait` gives for a portrait with UTF-8 bytes `b`.
pub open spec fn portrait_outcome(b: Seq<u8>) -> Result<(), Seq<char>> {
    grid_outcome(b, "Portrait"@, Palette::Printable, " contains non-printable characters"@)
}

/// Checks a self-portrait: exactly 32 lines separated by `\n`, each exactly
/// 48 bytes of printable ASCII.
pub fn validate_portrait(portrait: &str) -> (r: Result<(), String>)
    ensures
        outcome(r) == portrait_outcome(portrait.spec_bytes()),
        r is Ok <==> grid_ok(portrait.spec_bytes(), Palette::Printable),
{
    proof {
        lemma_grid_outcome_ok(
            portrait.spec_bytes(),
            "Portrait"@,
            Palette::Printable,
            " contains non-printable characters"@,
        );
    }
    check_grid(portrait, "Portrait", Palette::Printable, " contains non-printable characters")
}

/// What `validate_colormap` gives for a colormap with UTF-8 bytes `b`.
pub open spec fn colormap_outcome(b: Seq<u8>) -> Result<(), Seq<char>> {
    grid_outcome(
        b,
        "Colormap"@,
        Palette::ColorCodes,
        " contains invalid color codes. Allowed: . R G B C M Y W K O"@,
    )
}

/// Checks a colormap: exactly 32 lines separated by `\n`, each exactly 48
/// bytes from the palette `. R G B C M Y W K O`.
pub fn validate_colormap(colormap: &str) -> (r: Result<(), String>)
    ensures
        outcome(r) == colormap_outcome(colormap.spec_bytes()),
        r is Ok <==> grid_ok(colormap.spec_bytes(), Palette::ColorCodes),
{
    proof {
        lemma_grid_outcome_ok(
            colormap.spec_bytes(),
            "Colormap"@,
            Palette::ColorCodes,
            " contains invalid color codes. Allowed: . R G B C M Y W K O"@,
        );
    }
    check_grid(
        colormap,
        "Colormap",
        Palette::ColorCodes,
        " contains invalid color codes. Allowed: . R G B C M Y W K O",
    )
}

/// What `validate_tagline` gives for a tagline.
pub open spec fn tagline_outcome(tagline: Seq<char>) -> Result<(), Seq<char>> {
    if tagline.len() > MAX_TAGLINE {
        Err("Tagline must be at most 200 characters"@)
    } else {
        Ok(())
    }
}

/// Checks a tagline: at most 200 characters.
pub fn validate_tagline(tagline: &str) -> (r: Result<(), String>)
    ensures
        outcome(r) == tagline_outcome(tagline@),
{
    if tagline.unicode_len() > MAX_TAGLINE {
        return Err(String::from_str("Tagline must be at most 200 characters"));
    }
    Ok(())
}

/// What `validate_theme_color` gives for a color with UTF-8 bytes `b`.
pub open spec fn theme_color_outcome(b: Seq<u8>) -> Result<(), Seq<char>> {
    if b.len() != 7 || b[0] != 35u8 {
        Err("Theme color must be #RRGGBB format"@)
    } else if !(forall|i: int| 1 <= i < 7 ==> is_hex_digit(#[trigger] b[i])) {
        Err("Theme color must be valid hex (#RRGGBB)"@)
    } else {
        Ok(())
    }
}

/// Checks a theme color: 7 bytes, `#` followed by six hexadecimal digits.
pub fn validate_theme_color(color: &str) -> (r: Result<(), String>)
    ensures
        outcome(r) == theme_color_outcome(color.spec_bytes()),
{
    let b = color.as_bytes();
    if b.len() != 7 || b[0] != 35u8 {
        return Err(String::from_str("Theme color must be #RRGGBB format"));
    }
    let mut i: usize = 1;
    while i < 7
        invariant
            b@ == color.spec_bytes(),
            b@.len() == 7,
            b@[0] == 35u8,
            1 <= i <= 7,
            forall|j: int| 1 <= j < i ==> is_hex_digit(#[trigger] b@[j]),
        decreases 7 - i,
    {
        let c = b[i];
        if !((48 <= c && c <= 57) || (65 <= c && c <= 70) || (97 <= c && c <= 102)) {
            assert(!is_hex_digit(b@[i as int]));
            return Err(String::from_str("Theme color must be valid hex (#RRGGBB)"));
        }
        i = i + 1;
    }
    Ok(())
}

/// What `validate_comment` gives for a comment.
pub open spec fn comment_outcome(comment: Seq<char>) -> Result<(), Seq<char>> {
    if comment.len() > MAX_COMMENT {
        Err("Comment must be at most 500 characters"@)
    } else {
        Ok(())
    }
}

/// Checks an optional vote comment: absent, or at most 500 characters.
pub fn validate_comment(comment: Option<&str>) -> (r: Result<(), String>)
    ensures
        outcome(r) == (match comment {
            Some(c) => comment_outcome(c@),
            None => Ok(()),
        }),
{
    if let Some(c) = comment {
        if c.unicode_len() > MAX_COMMENT {
            return Err(String::from_str("Comment must be at most 500 characters"));
        }
    }
    Ok(())
}

/// What `serde_json::from_str::<serde_json::Value>` reports for `text`:
/// `None` when the text parses as a JSON value, else the parse error's
/// display text.
pub uninterp spec fn json_value_error(text: Seq<char>) -> Option<Seq<char>>;

/// Parses `text` with `serde_json::from_str::<serde_json::Value>` and keeps
/// only whether it parsed, with the error's display text when it did not.
/// The parse itself (the JSON grammar, the nesting limit) is not restated.
#[verifier::external_body]
fn json_value_check(text: &str) -> (r: Option<String>)
    ensures
        r is None <==> json_value_error(text@) is None,
        r matches Some(m) ==> json_value_error(text@) == Some(m@),
{
    match serde_json::from_str::<serde_json::Value>(text) {
        Ok(_) => None,
        Err(e) => Some(e.to_string()),
    }
}

/// What checking a stats document of `byte_len` UTF-8 bytes gives, when
/// parsing it as JSON reported `parse_error` (`None` when it parsed): the
/// size limit first, then the parse.
pub open spec fn stats_verdict_of(byte_len: nat, parse_error: Option<Seq<char>>) -> Result<
    (),
    Seq<char>,
> {
    if byte_len > MAX_STATS_BYTES {
        Err("Stats JSON must be at most 4096 bytes"@)
    } else {
        match parse_error {
            None => Ok(()),
            Some(e) => Err("Stats must be valid JSON: "@ + e),
        }
    }
}

/// Taglines and comments are limited in characters: a tagline is accepted
/// exactly when it has at most 200 characters, a comment exactly when it
/// has at most 500, and a longer one is refused with its limit's message.
pub proof fn lemma_text_limits(text: Seq<char>)
    ensures
        tagline_outcome(text) is Ok <==> text.len() <= 200,
        text.len() > 200 ==> tagline_outcome(text) == Err::<(), Seq<char>>(
            "Tagline must be at most 200 characters"@,
        ),
        comment_outcome(text) is Ok <==> text.len() <= 500,
        text.len() > 500 ==> comment_outcome(text) == Err::<(), Seq<char>>(
            "Comment must be at most 500 characters"@,
        ),
{
}

/// A theme color is accepted exactly when it is 7 bytes, `#` followed by six
/// ASCII hexadecimal digits of either case. A color of another length, or
/// not starting with `#`, gets the format message; a 7-byte `#` color with
/// any other byte gets the hex message.
pub proof fn lemma_theme_color_rules(b: Seq<u8>)
    ensures
        theme_color_outcome(b) is Ok <==> b.len() == 7 && b[0] == 35 && forall|i: int|
            1 <= i < 7 ==> {
                let c = #[trigger] b[i];
                ||| 48 <= c <= 57
                ||| 65 <= c <= 70
                ||| 97 <= c <= 102
            },
        b.len() != 7 || b[0] != 35 ==> theme_color_outcome(b) == Err::<(), Seq<char>>(
            "Theme color must be #RRGGBB format"@,
        ),
        b.len() == 7 && b[0] == 35 && theme_color_outcome(b) is Err ==> theme_color_outcome(b)
            == Err::<(), Seq<char>>("Theme color must be valid hex (#RRGGBB)"@),
{
}

/// A portrait is accepted exactly when its text has 32 lines (split at
/// `\n`), each of 48 bytes of printable ASCII (`0x20` to `0x7E`); a
/// colormap exactly when it has 32 lines, each of 48 bytes among
/// `. R G B C M Y W K O`. With another number of lines the message names
/// the count.
pub proof fn lemma_grid_rules(b: Seq<u8>)
    ensures
        portrait_outcome(b) is Ok <==> lines_of(b).len() == 32 && forall|k: int|
            0 <= k < 32 ==> (#[trigger] lines_of(b)[k]).len() == 48 && forall|j: int|
                0 <= j < 48 ==> 0x20 <= #[trigger] lines_of(b)[k][j] <= 0x7e,
        colormap_outcome(b) is Ok <==> lines_of(b).len() == 32 && forall|k: int|
            0 <= k < 32 ==> (#[trigger] lines_of(b)[k]).len() == 48 && forall|j: int|
                0 <= j < 48 ==> {
                    let c = #[trigger] lines_of(b)[k][j];
                    ||| c == 46
                    ||| c == 82
                    ||| c == 71
                    ||| c == 66
                    ||| c == 67
                    ||| c == 77
                    ||| c == 89
                    ||| c == 87
                    ||| c == 75
                    ||| c == 79
                },
        lines_of(b).len() != 32 ==> portrait_outcome(b) == Err::<(), Seq<char>>(
            "Portrait"@ + " must be exactly 32 rows, got "@ + decimal(lines_of(b).len()),
        ),
        lines_of(b).len() != 32 ==> colormap_outcome(b) == Err::<(), Seq<char>>(
            "Colormap"@ + " must be exactly 32 rows, got "@ + decimal(lines_of(b).len()),
        ),
{
    lemma_grid_outcome_ok(b, "Portrait"@, Palette::Printable, " contains non-printable characters"@);
    lemma_grid_outcome_ok(
        b,
        "Colormap"@,
        Palette::ColorCodes,
        " contains invalid color codes. Allowed: . R G B C M Y W K O"@,
    );
}

/// What `validate_stats` gives for a stats document of `byte_len` UTF-8
/// bytes.
pub open spec fn stats_outcome(byte_len: nat, text: Seq<char>) -> Result<(), Seq<char>> {
    stats_verdict_of(byte_len, json_value_error(text))
}

/// The verdict on a stats document from its size in bytes and what parsing
/// it as JSON reported.
pub fn stats_verdict(byte_len: usize, parse_error: Option<String>) -> (r: Result<(), String>)
    ensures
        outcome(r) == stats_verdict_of(
            byte_len as nat,
            match parse_error {
                Some(e) => Some(e@),
                None => None,
            },
        ),
{
    if byte_len > MAX_STATS_BYTES {
        return Err(String::from_str("Stats JSON must be at most 4096 bytes"));
    }
    match parse_error {
        None => Ok(()),
        Some(e) => {
            let mut m = String::from_str("Stats must be valid JSON: ");
            m.append(e.as_str());
            Err(m)
        },
    }
}

/// Checks a stats document: at most 4096 bytes, and valid JSON. A document
/// over the size limit is not parsed.
pub fn validate_stats(stats: &str) -> (r: Result<(), String>)
    ensures
        outcome(r) == stats_outcome(stats.spec_bytes().len(), stats@),
{
    let byte_len = stats.as_bytes().len();
    if byte_len > MAX_STATS_BYTES {
        return stats_verdict(byte_len, None);
    }
    stats_verdict(byte_len, json_value_check(stats))
}

} // verus!
