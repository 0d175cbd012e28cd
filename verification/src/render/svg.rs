//! The layout of a self-portrait as an SVG picture: which cell of the
//! 32 x 48 canvas holds ink, the box that centres the ink, and the glyph
//! drawn for each cell, with its color and its escaped text.
//!
//! The picture's geometry (character width 9.6, height 18, the centring
//! offset) is floating-point arithmetic: the caller formats those numbers
//! and `svg_document` writes the picture from the layout and them.

use vstd::prelude::*;

use crate::text::{chars_of, split_chars, split_seq};
use crate::validation::{PORTRAIT_COLS, PORTRAIT_ROWS};

verus! {

/// The hex color of a colormap code; unknown codes draw as the default gray.
pub open spec fn color_hex(code: char) -> Seq<char> {
    match code {
        '.' => "#c0c0c0"@,
        'R' => "#e74c3c"@,
        'G' => "#2ecc71"@,
        'B' => "#3498db"@,
        'C' => "#00bcd4"@,
        'M' => "#9b59b6"@,
        'Y' => "#f1c40f"@,
        'W' => "#ecf0f1"@,
        'K' => "#2c3e50"@,
        'O' => "#e67e22"@,
        _ => "#c0c0c0"@,
    }
}

/// Maps a colormap code to its hex color.
pub fn color_code_to_hex(code: char) -> (hex: &'static str)
    ensures
        hex@ == color_hex(code),
{
    match code {
        '.' => "#c0c0c0",
        'R' => "#e74c3c",
        'G' => "#2ecc71",
        'B' => "#3498db",
        'C' => "#00bcd4",
        'M' => "#9b59b6",
        'Y' => "#f1c40f",
        'W' => "#ecf0f1",
        'K' => "#2c3e50",
        'O' => "#e67e22",
        _ => "#c0c0c0",
    }
}

/// The text drawn for an art character: the five XML-special characters and
/// `/` become entities, any other character stands for itself.
pub open spec fn escaped(ch: char) -> Seq<char> {
    match ch {
        '<' => "&lt;"@,
        '>' => "&gt;"@,
        '&' => "&amp;"@,
        '"' => "&quot;"@,
        '\'' => "&#x27;"@,
        '/' => "&#x2F;"@,
        _ => seq![ch],
    }
}

/// Escapes one art character for use as SVG text.
pub fn escape_glyph(ch: char) -> (text: String)
    ensures
        text@ == escaped(ch),
{
    match ch {
        '<' => String::from_str("&lt;"),
        '>' => String::from_str("&gt;"),
        '&' => String::from_str("&amp;"),
        '"' => String::from_str("&quot;"),
        '\'' => String::from_str("&#x27;"),
        '/' => String::from_str("&#x2F;"),
        _ => {
            let mut s = String::new();
            s.push(ch);
            assert(s@ =~= seq![ch]);
            s
        },
    }
}

/// The smallest box of canvas cells that holds every inked cell.
#[derive(Clone, Copy, Debug, PartialEq, Eq)]
pub struct ContentBox {
    pub min_row: usize,
    pub max_row: usize,
    pub min_col: usize,
    pub max_col: usize,
}

/// One character to draw: its cell, its color and its (escaped) text.
#[derive(Debug)]
pub struct Glyph {
    pub row: usize,
    pub col: usize,
    pub color: &'static str,
    pub text: String,
}

impl View for Glyph {
    type V = (nat, nat, Seq<char>, Seq<char>);

    open spec fn view(&self) -> (nat, nat, Seq<char>, Seq<char>) {
        (self.row as nat, self.col as nat, self.color@, self.text@)
    }
}

/// What a portrait draws: the ink's bounding box (none for a blank
/// canvas), the number of rows drawn, and the glyphs in row-major order.
#[derive(Debug)]
pub struct PortraitLayout {
    pub content: Option<ContentBox>,
    pub rows: usize,
    pub glyphs: Vec<Glyph>,
}

/// Whether column `c` of an art line is inked: inside the line and inside
/// the 48 canvas columns, and not a space.
pub open spec fn ink_at(line: Seq<char>, c: int) -> bool {
    0 <= c < line.len() && c < PORTRAIT_COLS && line[c] != ' '
}

/// Whether cell (`r`, `c`) of the canvas is inked; only the first 32 lines count.
pub open spec fn inked(lines: Seq<Seq<char>>, r: int, c: int) -> bool {
    0 <= r < lines.len() && r < PORTRAIT_ROWS && ink_at(lines[r], c)
}

pub open spec fn row_inked(lines: Seq<Seq<char>>, r: int) -> bool {
    exists|c: int| inked(lines, r, c)
}

pub open spec fn col_inked(lines: Seq<Seq<char>>, c: int) -> bool {
    exists|r: int| inked(lines, r, c)
}

/// `b` is the tight bounding box of the inked cells.
pub open spec fn is_tight_box(lines: Seq<Seq<char>>, b: ContentBox) -> bool {
    &&& row_inked(lines, b.min_row as int)
    &&& row_inked(lines, b.max_row as int)
    &&& col_inked(lines, b.min_col as int)
    &&& col_inked(lines, b.max_col as int)
    &&& forall|r: int, c: int|
        #[trigger] inked(lines, r, c) ==> b.min_row <= r <= b.max_row && b.min_col <= c <= b.max_col
}

/// The color code that governs column `col`: the colormap line's code, or
/// `.` past its end.
pub open spec fn color_at(colors: Seq<char>, col: int) -> char {
    if 0 <= col < colors.len() {
        colors[col]
    } else {
        '.'
    }
}

/// The glyphs of one row among its first `n` columns.
pub open spec fn row_glyphs(row: nat, art: Seq<char>, colors: Seq<char>, n: int) -> Seq<
    (nat, nat, Seq<char>, Seq<char>),
>
    decreases n,
{
    if n <= 0 {
        Seq::empty()
    } else {
        let before = row_glyphs(row, art, colors, n - 1);
        let c = n - 1;
        if art[c] == ' ' {
            before
        } else {
            before.push((row, c as nat, color_hex(color_at(colors, c)), escaped(art[c])))
        }
    }
}

/// The number of columns drawn from an art line: at most 48.
pub open spec fn drawn_cols(art: Seq<char>) -> int {
    if art.len() < PORTRAIT_COLS {
        art.len() as int
    } else {
        PORTRAIT_COLS as int
    }
}

/// The glyphs of the first `k` rows, row after row.
pub open spec fn layout_glyphs(arts: Seq<Seq<char>>, colors: Seq<Seq<char>>, k: int) -> Seq<
    (nat, nat, Seq<char>, Seq<char>),
>
    decreases k,
{
    if k <= 0 {
        Seq::empty()
    } else {
        layout_glyphs(arts, colors, k - 1) + row_glyphs(
            (k - 1) as nat,
            arts[k - 1],
            colors[k - 1],
            drawn_cols(arts[k - 1]),
        )
    }
}

/// The rows drawn: as many as both the art and the colormap have lines.
pub open spec fn drawn_rows(arts: Seq<Seq<char>>, colors: Seq<Seq<char>>) -> int {
    if arts.len() < colors.len() {
        arts.len() as int
    } else {
        colors.len() as int
    }
}

proof fn lemma_row_glyphs_cells(row: nat, art: Seq<char>, colors: Seq<char>, n: int)
    ensures
        forall|j: int|
            0 <= j < row_glyphs(row, art, colors, n).len() ==> {
                &&& (#[trigger] row_glyphs(row, art, colors, n)[j]).0 == row
                &&& row_glyphs(row, art, colors, n)[j].1 < n
            },
    decreases n,
{
    if n > 0 {
        lemma_row_glyphs_cells(row, art, colors, n - 1);
        let before = row_glyphs(row, art, colors, n - 1);
        let now = row_glyphs(row, art, colors, n);
        assert forall|j: int| 0 <= j < now.len() implies (#[trigger] now[j]).0 == row && now[j].1 < n by {
            if j < before.len() {
                assert(now[j] == before[j]);
            }
        }
    }
}

proof fn lemma_layout_glyphs_cells(arts: Seq<Seq<char>>, colors: Seq<Seq<char>>, k: int)
    ensures
        forall|j: int|
            0 <= j < layout_glyphs(arts, colors, k).len() ==> {
                &&& (#[trigger] layout_glyphs(arts, colors, k)[j]).0 < k
                &&& layout_glyphs(arts, colors, k)[j].1 < PORTRAIT_COLS
            },
    decreases k,
{
    if k > 0 {
        lemma_layout_glyphs_cells(arts, colors, k - 1);
        let before = layout_glyphs(arts, colors, k - 1);
        let row = row_glyphs((k - 1) as nat, arts[k - 1], colors[k - 1], drawn_cols(arts[k - 1]));
        lemma_row_glyphs_cells((k - 1) as nat, arts[k - 1], colors[k - 1], drawn_cols(arts[k - 1]));
        assert forall|j: int| 0 <= j < layout_glyphs(arts, colors, k).len() implies {
            &&& (#[trigger] layout_glyphs(arts, colors, k)[j]).0 < k
            &&& layout_glyphs(arts, colors, k)[j].1 < PORTRAIT_COLS
        } by {
            if j < before.len() {
                assert(layout_glyphs(arts, colors, k)[j] == before[j]);
            } else {
                assert(layout_glyphs(arts, colors, k)[j] == row[j - before.len()]);
            }
        }
    }
}

/// The glyphs of the first `n` columns of one row are exactly its non-space
/// characters there.
proof fn lemma_row_glyphs_exact(row: nat, art: Seq<char>, colors: Seq<char>, n: int)
    requires
        0 <= n <= art.len(),
    ensures
        forall|c: int|
            0 <= c < n && #[trigger] art[c] != ' ' ==> exists|j: int|
                0 <= j < row_glyphs(row, art, colors, n).len() && #[trigger] row_glyphs(
                    row,
                    art,
                    colors,
                    n,
                )[j] == (row, c as nat, color_hex(color_at(colors, c)), escaped(art[c])),
        forall|j: int|
            0 <= j < row_glyphs(row, art, colors, n).len() ==> {
                let g = #[trigger] row_glyphs(row, art, colors, n)[j];
                &&& g.0 == row
                &&& g.1 < n
                &&& art[g.1 as int] != ' '
                &&& g.2 == color_hex(color_at(colors, g.1 as int))
                &&& g.3 == escaped(art[g.1 as int])
            },
        forall|i: int, j: int|
            0 <= i < j < row_glyphs(row, art, colors, n).len() ==> (#[trigger] row_glyphs(
                row,
                art,
                colors,
                n,
            )[i]).1 < (#[trigger] row_glyphs(row, art, colors, n)[j]).1,
    decreases n,
{
    if n > 0 {
        lemma_row_glyphs_exact(row, art, colors, n - 1);
        let before = row_glyphs(row, art, colors, n - 1);
        let now = row_glyphs(row, art, colors, n);
        assert forall|j: int| 0 <= j < before.len() implies now[j] == before[j] by {}
        assert forall|c: int| 0 <= c < n && #[trigger] art[c] != ' ' implies exists|j: int|
            0 <= j < now.len() && #[trigger] now[j] == (
                row,
                c as nat,
                color_hex(color_at(colors, c)),
                escaped(art[c]),
            ) by {
            if c < n - 1 {
                let j = choose|j: int|
                    0 <= j < before.len() && #[trigger] before[j] == (
                        row,
                        c as nat,
                        color_hex(color_at(colors, c)),
                        escaped(art[c]),
                    );
                assert(now[j] == before[j]);
            } else {
                assert(now[before.len() as int] == (
                    row,
                    c as nat,
                    color_hex(color_at(colors, c)),
                    escaped(art[c]),
                ));
            }
        }
        assert forall|j: int| 0 <= j < now.len() implies {
            let g = #[trigger] now[j];
            &&& g.0 == row
            &&& g.1 < n
            &&& art[g.1 as int] != ' '
            &&& g.2 == color_hex(color_at(colors, g.1 as int))
            &&& g.3 == escaped(art[g.1 as int])
        } by {
            if j < before.len() {
                assert(now[j] == before[j]);
            }
        }
        assert forall|i: int, j: int| 0 <= i < j < now.len() implies (#[trigger] now[i]).1 < (
        #[trigger] now[j]).1 by {
            assert(now[i] == before[i]);
            if j < before.len() {
                assert(now[j] == before[j]);
            }
        }
    }
}

proof fn lemma_layout_glyphs_exact(arts: Seq<Seq<char>>, colors: Seq<Seq<char>>, k: int)
    requires
        0 <= k <= arts.len(),
        k <= colors.len(),
    ensures
        forall|r: int, c: int|
            0 <= r < k && 0 <= c < arts[r].len() && c < 48 && #[trigger] arts[r][c] != ' '
                ==> exists|j: int|
                0 <= j < layout_glyphs(arts, colors, k).len() && #[trigger] layout_glyphs(
                    arts,
                    colors,
                    k,
                )[j] == (
                    r as nat,
                    c as nat,
                    color_hex(color_at(colors[r], c)),
                    escaped(arts[r][c]),
                ),
        forall|j: int|
            0 <= j < layout_glyphs(arts, colors, k).len() ==> {
                let g = #[trigger] layout_glyphs(arts, colors, k)[j];
                &&& g.0 < k
                &&& g.1 < arts[g.0 as int].len()
                &&& g.1 < 48
                &&& arts[g.0 as int][g.1 as int] != ' '
                &&& g.2 == color_hex(color_at(colors[g.0 as int], g.1 as int))
                &&& g.3 == escaped(arts[g.0 as int][g.1 as int])
            },
        forall|i: int, j: int|
            0 <= i < j < layout_glyphs(arts, colors, k).len() ==> {
                let a = #[trigger] layout_glyphs(arts, colors, k)[i];
                let b = #[trigger] layout_glyphs(arts, colors, k)[j];
                a.0 < b.0 || (a.0 == b.0 && a.1 < b.1)
            },
    decreases k,
{
    if k > 0 {
        lemma_layout_glyphs_exact(arts, colors, k - 1);
        let before = layout_glyphs(arts, colors, k - 1);
        let n = drawn_cols(arts[k - 1]);
        let row = row_glyphs((k - 1) as nat, arts[k - 1], colors[k - 1], n);
        lemma_row_glyphs_exact((k - 1) as nat, arts[k - 1], colors[k - 1], n);
        let now = layout_glyphs(arts, colors, k);
        assert(now == before + row);
        assert forall|r: int, c: int|
            0 <= r < k && 0 <= c < arts[r].len() && c < 48 && #[trigger] arts[r][c] != ' '
                implies exists|j: int|
                0 <= j < now.len() && #[trigger] now[j] == (
                    r as nat,
                    c as nat,
                    color_hex(color_at(colors[r], c)),
                    escaped(arts[r][c]),
                ) by {
            if r < k - 1 {
                let j = choose|j: int|
                    0 <= j < before.len() && #[trigger] before[j] == (
                        r as nat,
                        c as nat,
                        color_hex(color_at(colors[r], c)),
                        escaped(arts[r][c]),
                    );
                assert(now[j] == before[j]);
            } else {
                assert(arts[k - 1][c] != ' ');
                let j = choose|j: int|
                    0 <= j < row.len() && #[trigger] row[j] == (
                        (k - 1) as nat,
                        c as nat,
                        color_hex(color_at(colors[k - 1], c)),
                        escaped(arts[k - 1][c]),
                    );
                assert(now[before.len() + j] == row[j]);
            }
        }
        assert forall|j: int| 0 <= j < now.len() implies {
            let g = #[trigger] now[j];
            &&& g.0 < k
            &&& g.1 < arts[g.0 as int].len()
            &&& g.1 < 48
            &&& arts[g.0 as int][g.1 as int] != ' '
            &&& g.2 == color_hex(color_at(colors[g.0 as int], g.1 as int))
            &&& g.3 == escaped(arts[g.0 as int][g.1 as int])
        } by {
            if j < before.len() {
                assert(now[j] == before[j]);
            } else {
                assert(now[j] == row[j - before.len()]);
            }
        }
        assert forall|i: int, j: int| 0 <= i < j < now.len() implies {
            let a = #[trigger] now[i];
            let b = #[trigger] now[j];
            a.0 < b.0 || (a.0 == b.0 && a.1 < b.1)
        } by {
            if j < before.len() {
                assert(now[i] == before[i]);
                assert(now[j] == before[j]);
            } else if i < before.len() {
                assert(now[i] == before[i]);
                assert(now[j] == row[j - before.len()]);
            } else {
                assert(now[i] == row[i - before.len()]);
                assert(now[j] == row[j - before.len()]);
            }
        }
    }
}

/// The glyphs of a portrait are exactly its visible characters: for every
/// art line `r` that has a colormap line beside it and every column `c`
/// among the first 48 of that line, a non-space character yields a glyph at
/// (`r`, `c`) drawing that character (escaped) in the color of the colormap
/// code at the same column (`.` past the colormap line's end); and every
/// glyph is such a character. The glyphs come in reading order (row by
/// row, left to right), each cell at most once; as many rows are drawn as
/// both texts have lines; and a cell is inked exactly when it lies in the
/// first 32 lines and 48 columns of the art and holds no space.
pub proof fn lemma_portrait_glyphs(arts: Seq<Seq<char>>, colors: Seq<Seq<char>>)
    ensures
        drawn_rows(arts, colors) == if arts.len() < colors.len() {
            arts.len() as int
        } else {
            colors.len() as int
        },
        forall|r: int, c: int|
            #[trigger] inked(arts, r, c) <==> 0 <= r < arts.len() && r < 32 && 0 <= c
                < arts[r].len() && c < 48 && arts[r][c] != ' ',
        forall|i: int, j: int|
            0 <= i < j < layout_glyphs(arts, colors, drawn_rows(arts, colors)).len() ==> {
                let a = #[trigger] layout_glyphs(arts, colors, drawn_rows(arts, colors))[i];
                let b = #[trigger] layout_glyphs(arts, colors, drawn_rows(arts, colors))[j];
                a.0 < b.0 || (a.0 == b.0 && a.1 < b.1)
            },
        forall|r: int, c: int|
            0 <= r < arts.len() && r < colors.len() && 0 <= c < arts[r].len() && c < 48
                && #[trigger] arts[r][c] != ' ' ==> exists|j: int|
                0 <= j < layout_glyphs(arts, colors, drawn_rows(arts, colors)).len()
                    && #[trigger] layout_glyphs(arts, colors, drawn_rows(arts, colors))[j] == (
                    r as nat,
                    c as nat,
                    color_hex(
                        if c < colors[r].len() {
                            colors[r][c]
                        } else {
                            '.'
                        },
                    ),
                    escaped(arts[r][c]),
                ),
        forall|j: int|
            0 <= j < layout_glyphs(arts, colors, drawn_rows(arts, colors)).len() ==> {
                let g = #[trigger] layout_glyphs(arts, colors, drawn_rows(arts, colors))[j];
                &&& g.0 < arts.len()
                &&& g.0 < colors.len()
                &&& g.1 < arts[g.0 as int].len()
                &&& g.1 < 48
                &&& arts[g.0 as int][g.1 as int] != ' '
                &&& g.2 == color_hex(
                    if g.1 < colors[g.0 as int].len() {
                        colors[g.0 as int][g.1 as int]
                    } else {
                        '.'
                    },
                )
                &&& g.3 == escaped(arts[g.0 as int][g.1 as int])
            },
{
    lemma_layout_glyphs_exact(arts, colors, drawn_rows(arts, colors));
}

/// The first and last inked column of an art line, if any.
fn row_extent(line: &Vec<char>) -> (e: Option<(usize, usize)>)
    ensures
        e is None <==> forall|c: int| !ink_at(line@, c),
        e matches Some((lo, hi)) ==> {
            &&& ink_at(line@, lo as int)
            &&& ink_at(line@, hi as int)
            &&& forall|c: int| ink_at(line@, c) ==> lo <= c <= hi
        },
{
    let n = if line.len() < PORTRAIT_COLS {
        line.len()
    } else {
        PORTRAIT_COLS
    };
    let mut found: Option<(usize, usize)> = None;
    let mut c: usize = 0;
    while c < n
        invariant
            n <= line@.len(),
            n <= PORTRAIT_COLS,
            n == line@.len() || n == PORTRAIT_COLS,
            c <= n,
            found is None <==> forall|d: int| 0 <= d < c ==> !ink_at(line@, d),
            found matches Some((lo, hi)) ==> {
                &&& ink_at(line@, lo as int)
                &&& ink_at(line@, hi as int)
                &&& hi < c
                &&& forall|d: int| 0 <= d < c && ink_at(line@, d) ==> lo <= d <= hi
            },
        decreases n - c,
    {
        if line[c] != ' ' {
            assert(ink_at(line@, c as int));
            found = match found {
                None => Some((c, c)),
                Some((lo, _)) => Some((lo, c)),
            };
        }
        c = c + 1;
    }
    found
}

/// Lays out a portrait: the art and the colormap are split into lines at
/// `\n`. Only the first 32 lines and 48 columns of the art can be inked, and
/// a cell is inked unless it holds a space; `content` is the tight box
/// around the inked cells. A glyph is drawn for every non-space character
/// among the first 48 of each art line that has a colormap line beside it,
/// colored by the code at the same column (`.` past the colormap line's end).
pub fn portrait_layout(art: &str, colormap: &str) -> (layout: PortraitLayout)
    ensures
        ({
            let arts = split_seq(art@, '\n');
            let colors = split_seq(colormap@, '\n');
            &&& layout.content is None <==> forall|r: int, c: int| !inked(arts, r, c)
            &&& layout.content matches Some(b) ==> is_tight_box(arts, b)
            &&& layout.rows == drawn_rows(arts, colors)
            &&& layout.glyphs@.map_values(|g: Glyph| g@) == layout_glyphs(
                arts,
                colors,
                drawn_rows(arts, colors),
            )
            &&& forall|k: int|
                0 <= k < layout.glyphs@.len() ==> (#[trigger] layout.glyphs@[k]).col < PORTRAIT_COLS
                    && layout.glyphs@[k].row < drawn_rows(arts, colors)
        }),
{
    let art_chars = chars_of(art);
    let color_chars = chars_of(colormap);
    let arts = split_chars(&art_chars, '\n');
    let colors = split_chars(&color_chars, '\n');
    let ghost sa = arts.deep_view();
    let ghost sc = colors.deep_view();
    let content = content_box(&arts);
    let glyphs = layout_cells(&arts, &colors);
    proof {
        lemma_layout_glyphs_cells(sa, sc, drawn_rows(sa, sc));
        assert forall|k: int| 0 <= k < glyphs@.len() implies (#[trigger] glyphs@[k]).col
            < PORTRAIT_COLS && glyphs@[k].row < drawn_rows(sa, sc) by {
            assert(glyphs@.map_values(|g: Glyph| g@)[k] == glyphs@[k]@);
        }
    }
    let rows = if arts.len() < colors.len() {
        arts.len()
    } else {
        colors.len()
    };
    PortraitLayout { content, rows, glyphs }
}

fn content_box(arts: &Vec<Vec<char>>) -> (content: Option<ContentBox>)
    ensures
        content is None <==> forall|r: int, c: int| !inked(arts.deep_view(), r, c),
        content matches Some(b) ==> is_tight_box(arts.deep_view(), b),
{
    let ghost lines = arts.deep_view();
    let rows = if arts.len() < PORTRAIT_ROWS {
        arts.len()
    } else {
        PORTRAIT_ROWS
    };
    let mut acc: Option<ContentBox> = None;
    let mut r: usize = 0;
    while r < rows
        invariant
            lines == arts.deep_view(),
            rows <= arts@.len(),
            rows <= PORTRAIT_ROWS,
            rows == arts@.len() || rows == PORTRAIT_ROWS,
            r <= rows,
            acc is None <==> forall|q: int, c: int| 0 <= q < r ==> !inked(lines, q, c),
            acc matches Some(b) ==> {
                &&& row_inked(lines, b.min_row as int)
                &&& row_inked(lines, b.max_row as int)
                &&& col_inked(lines, b.min_col as int)
                &&& col_inked(lines, b.max_col as int)
                &&& forall|q: int, c: int|
                    0 <= q < r && #[trigger] inked(lines, q, c) ==> b.min_row <= q <= b.max_row
                        && b.min_col <= c <= b.max_col
            },
        decreases rows - r,
    {
        assert(arts@[r as int]@ == lines[r as int]);
        let ext = row_extent(&arts[r]);
        match ext {
            None => {
                assert forall|c: int| !inked(lines, r as int, c) by {
                    assert(!ink_at(arts@[r as int]@, c));
                }
            },
            Some((lo, hi)) => {
                assert(inked(lines, r as int, lo as int));
                assert(inked(lines, r as int, hi as int));
                acc = match acc {
                    None => Some(
                        ContentBox { min_row: r, max_row: r, min_col: lo, max_col: hi },
                    ),
                    Some(b) => Some(
                        ContentBox {
                            min_row: b.min_row,
                            max_row: r,
                            min_col: if lo < b.min_col {
                                lo
                            } else {
                                b.min_col
                            },
                            max_col: if hi > b.max_col {
                                hi
                            } else {
                                b.max_col
                            },
                        },
                    ),
                };
                assert forall|c: int| #[trigger] inked(lines, r as int, c) implies lo <= c <= hi by {
                    assert(ink_at(arts@[r as int]@, c));
                }
            },
        }
        r = r + 1;
    }
    acc
}

fn layout_cells(arts: &Vec<Vec<char>>, colors: &Vec<Vec<char>>) -> (glyphs: Vec<Glyph>)
    ensures
        glyphs@.map_values(|g: Glyph| g@) == layout_glyphs(
            arts.deep_view(),
            colors.deep_view(),
            drawn_rows(arts.deep_view(), colors.deep_view()),
        ),
{
    let ghost sa = arts.deep_view();
    let ghost sc = colors.deep_view();
    let rows = if arts.len() < colors.len() {
        arts.len()
    } else {
        colors.len()
    };
    let mut glyphs: Vec<Glyph> = Vec::new();
    let mut r: usize = 0;
    while r < rows
        invariant
            sa == arts.deep_view(),
            sc == colors.deep_view(),
            rows as int == drawn_rows(sa, sc),
            r <= rows,
            glyphs@.map_values(|g: Glyph| g@) == layout_glyphs(sa, sc, r as int),
        decreases rows - r,
    {
        let art = &arts[r];
        let color = &colors[r];
        assert(art@ == sa[r as int]);
        assert(color@ == sc[r as int]);
        let n = if art.len() < PORTRAIT_COLS {
            art.len()
        } else {
            PORTRAIT_COLS
        };
        let ghost start = glyphs@.map_values(|g: Glyph| g@);
        let mut c: usize = 0;
        while c < n
            invariant
                art@ == sa[r as int],
                color@ == sc[r as int],
                n as int == drawn_cols(art@),
                n <= art@.len(),
                c <= n,
                glyphs@.map_values(|g: Glyph| g@) == start + row_glyphs(
                    r as nat,
                    art@,
                    color@,
                    c as int,
                ),
            decreases n - c,
        {
            let ch = art[c];
            let ghost before = glyphs@.map_values(|g: Glyph| g@);
            if ch != ' ' {
                let code = if c < color.len() {
                    color[c]
                } else {
                    '.'
                };
                let g = Glyph { row: r, col: c, color: color_code_to_hex(code), text: escape_glyph(ch) };
                glyphs.push(g);
                assert(glyphs@.map_values(|g: Glyph| g@) =~= before.push(
                    (r as nat, c as nat, color_hex(color_at(color@, c as int)), escaped(ch)),
                ));
            }
            c = c + 1;
        }
        r = r + 1;
    }
    glyphs
}

/// The formatted numbers of a picture: its width and height, the offset
/// that centres the ink, the x of each canvas column and the y of each row
/// drawn.
#[derive(Debug)]
pub struct SvgGeometry {
    pub width: String,
    pub height: String,
    pub offset_x: String,
    pub offset_y: String,
    pub column_x: Vec<String>,
    pub row_y: Vec<String>,
}

/// The opening of the picture: the `svg` element, the dark background, the
/// monospace style, and the group that shifts the ink to the centre.
pub open spec fn svg_header(width: Seq<char>, height: Seq<char>, dx: Seq<char>, dy: Seq<char>) -> Seq<
    char,
> {
    "<svg xmlns=\"http://www.w3.org/2000/svg\" viewBox=\"0 0 "@ + width + " "@ + height
        + "\" width=\""@ + width + "\" height=\""@ + height
        + "\">\n<rect width=\"100%\" height=\"100%\" fill=\"#1a1a2e\"/>\n<style>text { font-family: 'Courier New', monospace; font-size: 14px; }</style>\n<g transform=\"translate("@
        + dx + ","@ + dy + ")\">\n"@
}

/// The `text` element of one glyph.
pub open spec fn glyph_element(
    g: (nat, nat, Seq<char>, Seq<char>),
    xs: Seq<Seq<char>>,
    ys: Seq<Seq<char>>,
) -> Seq<char> {
    "<text x=\""@ + xs[g.1 as int] + "\" y=\""@ + ys[g.0 as int] + "\" fill=\""@ + g.2 + "\">"@ + g.3
        + "</text>\n"@
}

/// The `text` elements of the first `k` glyphs.
pub open spec fn glyph_elements(
    gs: Seq<(nat, nat, Seq<char>, Seq<char>)>,
    xs: Seq<Seq<char>>,
    ys: Seq<Seq<char>>,
    k: int,
) -> Seq<char>
    decreases k,
{
    if k <= 0 {
        Seq::empty()
    } else {
        glyph_elements(gs, xs, ys, k - 1) + glyph_element(gs[k - 1], xs, ys)
    }
}

/// The whole picture: the opening, one `text` element per glyph, and the
/// closing tags.
pub open spec fn svg_text(gs: Seq<(nat, nat, Seq<char>, Seq<char>)>, geometry: SvgGeometry) -> Seq<
    char,
> {
    svg_header(geometry.width@, geometry.height@, geometry.offset_x@, geometry.offset_y@)
        + glyph_elements(gs, geometry.column_x.deep_view(), geometry.row_y.deep_view(), gs.len() as int)
        + "</g>\n</svg>"@
}

/// Writes the SVG picture of a laid-out portrait with the given geometry.
pub fn svg_document(layout: &PortraitLayout, geometry: &SvgGeometry) -> (svg: String)
    requires
        forall|k: int|
            0 <= k < layout.glyphs@.len() ==> (#[trigger] layout.glyphs@[k]).col
                < geometry.column_x@.len() && layout.glyphs@[k].row < geometry.row_y@.len(),
    ensures
        svg@ == svg_text(layout.glyphs@.map_values(|g: Glyph| g@), *geometry),
{
    let ghost gs = layout.glyphs@.map_values(|g: Glyph| g@);
    let ghost xs = geometry.column_x.deep_view();
    let ghost ys = geometry.row_y.deep_view();
    let mut svg = String::from_str("<svg xmlns=\"http://www.w3.org/2000/svg\" viewBox=\"0 0 ");
    svg.append(geometry.width.as_str());
    svg.append(" ");
    svg.append(geometry.height.as_str());
    svg.append("\" width=\"");
    svg.append(geometry.width.as_str());
    svg.append("\" height=\"");
    svg.append(geometry.height.as_str());
    svg.append(
        "\">\n<rect width=\"100%\" height=\"100%\" fill=\"#1a1a2e\"/>\n<style>text { font-family: 'Courier New', monospace; font-size: 14px; }</style>\n<g transform=\"translate(",
    );
    svg.append(geometry.offset_x.as_str());
    svg.append(",");
    svg.append(geometry.offset_y.as_str());
    svg.append(")\">\n");
    let ghost header = svg@;
    let mut k: usize = 0;
    while k < layout.glyphs.len()
        invariant
            gs == layout.glyphs@.map_values(|g: Glyph| g@),
            xs == geometry.column_x.deep_view(),
            ys == geometry.row_y.deep_view(),
            k <= layout.glyphs@.len(),
            forall|q: int|
                0 <= q < layout.glyphs@.len() ==> (#[trigger] layout.glyphs@[q]).col
                    < geometry.column_x@.len() && layout.glyphs@[q].row < geometry.row_y@.len(),
            svg@ == header + glyph_elements(gs, xs, ys, k as int),
        decreases layout.glyphs@.len() - k,
    {
        let g = &layout.glyphs[k];
        assert(gs[k as int] == g@);
        assert(geometry.column_x@[g.col as int]@ == xs[g.col as int]);
        assert(geometry.row_y@[g.row as int]@ == ys[g.row as int]);
        let ghost before = svg@;
        svg.append("<text x=\"");
        svg.append(geometry.column_x[g.col].as_str());
        svg.append("\" y=\"");
        svg.append(geometry.row_y[g.row].as_str());
        svg.append("\" fill=\"");
        svg.append(g.color);
        svg.append("\">");
        svg.append(g.text.as_str());
        svg.append("</text>\n");
        assert(svg@ =~= before + glyph_element(gs[k as int], xs, ys));
        k = k + 1;
    }
    svg.append("</g>\n</svg>");
    svg
}

} // verus!
