use clawtornot::render::svg::{
    color_code_to_hex, escape_glyph, portrait_layout, svg_document, ContentBox, SvgGeometry,
};

/// The picture of a portrait, with the floating-point geometry of a 48 x 32
/// canvas of 9.6 x 18 cells.
fn render_portrait_svg(art: &str, colormap: &str) -> String {
    let char_width = 9.6;
    let char_height = 18.0;
    let width = 48.0 * char_width;
    let height = 32.0 * char_height;
    let layout = portrait_layout(art, colormap);
    let (dx, dy) = match layout.content {
        Some(b) => {
            let content_w = (b.max_col - b.min_col + 1) as f64 * char_width;
            let content_h = (b.max_row - b.min_row + 1) as f64 * char_height;
            (
                (width - content_w) / 2.0 - b.min_col as f64 * char_width,
                (height - content_h) / 2.0 - b.min_row as f64 * char_height,
            )
        }
        None => (0.0, 0.0),
    };
    let geometry = SvgGeometry {
        width: format!("{width}"),
        height: format!("{height}"),
        offset_x: format!("{dx}"),
        offset_y: format!("{dy}"),
        column_x: (0..48).map(|c| format!("{}", c as f64 * char_width)).collect(),
        row_y: (0..layout.rows).map(|r| format!("{}", (r as f64 + 1.0) * char_height)).collect(),
    };
    svg_document(&layout, &geometry)
}

#[test]
fn renders_basic_svg() {
    let mut lines: Vec<String> = (0..32).map(|_| " ".repeat(48)).collect();
    lines[16].replace_range(24..25, "X");
    let art = lines.join("\n");

    let mut clines: Vec<String> = (0..32).map(|_| ".".repeat(48)).collect();
    clines[16].replace_range(24..25, "R");
    let colormap = clines.join("\n");

    let svg = render_portrait_svg(&art, &colormap);
    assert!(svg.contains("<svg"));
    assert!(svg.contains("</svg>"));
    assert!(svg.contains("X"));
    assert!(svg.contains("#e74c3c")); // red
}

#[test]
fn all_color_codes_produce_valid_svg() {
    let art = (0..32).map(|_| " ".repeat(48)).collect::<Vec<_>>().join("\n");
    let cline: String = ".RGBCMYWKO"
        .chars()
        .chain(std::iter::repeat_with(|| '.'))
        .take(48)
        .collect();
    let colormap = (0..32).map(|_| cline.as_str()).collect::<Vec<_>>().join("\n");

    let svg = render_portrait_svg(&art, &colormap);
    assert!(svg.contains("<svg"));
}

#[test]
fn layout_of_single_glyph() {
    let mut lines: Vec<String> = (0..32).map(|_| " ".repeat(48)).collect();
    lines[16].replace_range(24..25, "X");
    let art = lines.join("\n");
    let mut clines: Vec<String> = (0..32).map(|_| ".".repeat(48)).collect();
    clines[16].replace_range(24..25, "R");
    let layout = portrait_layout(&art, &clines.join("\n"));
    assert_eq!(
        layout.content,
        Some(ContentBox { min_row: 16, max_row: 16, min_col: 24, max_col: 24 })
    );
    assert_eq!(layout.glyphs.len(), 1);
    assert_eq!(layout.rows, 32);
    assert_eq!(layout.glyphs[0].row, 16);
    assert_eq!(layout.glyphs[0].col, 24);
    assert_eq!(layout.glyphs[0].color, "#e74c3c");
    assert_eq!(layout.glyphs[0].text, "X");
}

#[test]
fn blank_canvas_has_no_content() {
    let art = (0..32).map(|_| " ".repeat(48)).collect::<Vec<_>>().join("\n");
    let layout = portrait_layout(&art, "");
    assert_eq!(layout.content, None);
    assert!(layout.glyphs.is_empty());
    let svg = render_portrait_svg(&art, "");
    assert_eq!(
        svg,
        "<svg xmlns=\"http://www.w3.org/2000/svg\" viewBox=\"0 0 460.79999999999995 576\" width=\"460.79999999999995\" height=\"576\">\n<rect width=\"100%\" height=\"100%\" fill=\"#1a1a2e\"/>\n<style>text { font-family: 'Courier New', monospace; font-size: 14px; }</style>\n<g transform=\"translate(0,0)\">\n</g>\n</svg>"
    );
}

#[test]
fn bounding_box_and_clipping() {
    // ink outside the 48 x 32 canvas does not move the box
    let mut lines: Vec<String> = (0..34).map(|_| " ".repeat(50)).collect();
    lines[2].replace_range(5..6, "a");
    lines[9].replace_range(40..41, "b");
    lines[4].replace_range(49..50, "z"); // column 49: beyond the canvas
    lines[33].replace_range(0..1, "q"); // row 33: beyond the canvas
    let art = lines.join("\n");
    let layout = portrait_layout(&art, "");
    assert_eq!(
        layout.content,
        Some(ContentBox { min_row: 2, max_row: 9, min_col: 5, max_col: 40 })
    );
    // the colormap has a single (empty) line: only row 0 is drawn, and it is blank
    assert!(layout.glyphs.is_empty());
}

#[test]
fn glyphs_follow_colormap_and_escape() {
    let art = "<a/&\"'\n x";
    let colors = "RG\n.B";
    let layout = portrait_layout(art, colors);
    let got: Vec<(usize, usize, &str, String)> =
        layout.glyphs.iter().map(|g| (g.row, g.col, g.color, g.text.clone())).collect();
    assert_eq!(
        got,
        vec![
            (0, 0, "#e74c3c", "&lt;".to_string()),
            (0, 1, "#2ecc71", "a".to_string()),
            (0, 2, "#c0c0c0", "&#x2F;".to_string()),
            (0, 3, "#c0c0c0", "&amp;".to_string()),
            (0, 4, "#c0c0c0", "&quot;".to_string()),
            (0, 5, "#c0c0c0", "&#x27;".to_string()),
            (1, 1, "#3498db", "x".to_string()),
        ]
    );
    assert_eq!(
        layout.content,
        Some(ContentBox { min_row: 0, max_row: 1, min_col: 0, max_col: 5 })
    );
}

#[test]
fn color_codes() {
    let expected = [
        ('.', "#c0c0c0"),
        ('R', "#e74c3c"),
        ('G', "#2ecc71"),
        ('B', "#3498db"),
        ('C', "#00bcd4"),
        ('M', "#9b59b6"),
        ('Y', "#f1c40f"),
        ('W', "#ecf0f1"),
        ('K', "#2c3e50"),
        ('O', "#e67e22"),
        ('x', "#c0c0c0"),
    ];
    for (code, hex) in expected {
        assert_eq!(color_code_to_hex(code), hex);
    }
    assert_eq!(escape_glyph('>'), "&gt;");
    assert_eq!(escape_glyph('\u{e9}'), "\u{e9}");
}

#[test]
fn svg_of_one_glyph() {
    let mut lines: Vec<String> = (0..32).map(|_| " ".repeat(48)).collect();
    lines[0].replace_range(0..1, "<");
    let art = lines.join("\n");
    let svg = render_portrait_svg(&art, &"R".repeat(48));
    assert!(svg.contains("<g transform=\"translate(225.59999999999997,279)\">\n"));
    assert!(svg.contains("<text x=\"0\" y=\"18\" fill=\"#e74c3c\">&lt;</text>\n</g>\n</svg>"));
}
