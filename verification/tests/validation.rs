use clawtornot::validation::{
    stats_verdict,
    validate_colormap, validate_comment, validate_name, validate_portrait, validate_stats,
    validate_tagline, validate_theme_color,
};

fn grid(line: &str, rows: usize) -> String {
    (0..rows).map(|_| line).collect::<Vec<_>>().join("\n")
}

#[test]
fn valid_name() {
    assert!(validate_name("xX_ClawDaddy_Xx").is_ok());
    assert!(validate_name("a").is_ok());
    assert!(validate_name("agent-007").is_ok());
}

#[test]
fn invalid_names() {
    assert!(validate_name("").is_err());
    assert!(validate_name(&"a".repeat(33)).is_err());
    assert!(validate_name("has spaces").is_err());
}

#[test]
fn valid_portrait() {
    let line = " ".repeat(48);
    let portrait = (0..32).map(|_| line.as_str()).collect::<Vec<_>>().join("\n");
    assert!(validate_portrait(&portrait).is_ok());
}

#[test]
fn portrait_wrong_dimensions() {
    let line = " ".repeat(47);
    let portrait = (0..32).map(|_| line.as_str()).collect::<Vec<_>>().join("\n");
    assert!(validate_portrait(&portrait).is_err());
}

#[test]
fn valid_colormap() {
    let line = ".".repeat(48);
    let colormap = (0..32).map(|_| line.as_str()).collect::<Vec<_>>().join("\n");
    assert!(validate_colormap(&colormap).is_ok());
}

#[test]
fn colormap_invalid_code() {
    let line = "X".repeat(48);
    let colormap = (0..32).map(|_| line.as_str()).collect::<Vec<_>>().join("\n");
    assert!(validate_colormap(&colormap).is_err());
}

#[test]
fn valid_tagline() {
    assert!(validate_tagline("I am the alpha lobster.").is_ok());
    assert!(validate_tagline(&"x".repeat(200)).is_ok());
}

#[test]
fn tagline_too_long() {
    assert!(validate_tagline(&"x".repeat(201)).is_err());
}

#[test]
fn valid_theme_color() {
    assert!(validate_theme_color("#ff6b6b").is_ok());
    assert!(validate_theme_color("#AABBCC").is_ok());
}

#[test]
fn invalid_theme_color() {
    assert!(validate_theme_color("ff6b6b").is_err());
    assert!(validate_theme_color("#gggggg").is_err());
    assert!(validate_theme_color("#fff").is_err());
}

#[test]
fn valid_comment() {
    assert!(validate_comment(Some("sick burn")).is_ok());
    assert!(validate_comment(None).is_ok());
}

#[test]
fn comment_too_long() {
    assert!(validate_comment(Some(&"x".repeat(501))).is_err());
}

#[test]
fn valid_stats_json() {
    assert!(validate_stats(r#"{"hardware":"Pi 5"}"#).is_ok());
}

#[test]
fn stats_too_large() {
    let big = format!(r#"{{"data":"{}"}}"#, "x".repeat(4096));
    assert!(validate_stats(&big).is_err());
}

#[test]
fn name_error_messages() {
    assert_eq!(validate_name(""), Err("Name must be 1-32 characters".to_string()));
    assert_eq!(validate_name(&"a".repeat(33)), Err("Name must be 1-32 characters".to_string()));
    assert_eq!(validate_name(&"a".repeat(32)), Ok(()));
    assert_eq!(
        validate_name("has spaces"),
        Err("Name must contain only alphanumeric characters, hyphens, and underscores".to_string())
    );
    // the length is counted in bytes: 17 two-byte letters are 34 bytes
    assert_eq!(validate_name(&"\u{e9}".repeat(17)), Err("Name must be 1-32 characters".to_string()));
    // a non-ASCII letter within the length limit is refused
    assert_eq!(
        validate_name(&"\u{e9}".repeat(16)),
        Err("Name must contain only alphanumeric characters, hyphens, and underscores".to_string())
    );
    assert_eq!(validate_name(&"\u{e9}".repeat(33)), Err("Name must be 1-32 characters".to_string()));
}

#[test]
fn portrait_row_count_message() {
    let portrait = grid(&" ".repeat(48), 31);
    assert_eq!(
        validate_portrait(&portrait),
        Err("Portrait must be exactly 32 rows, got 31".to_string())
    );
    let portrait = grid(&" ".repeat(48), 33);
    assert_eq!(
        validate_portrait(&portrait),
        Err("Portrait must be exactly 32 rows, got 33".to_string())
    );
    // a trailing newline adds an empty row
    let portrait = format!("{}\n", grid(&" ".repeat(48), 32));
    assert_eq!(
        validate_portrait(&portrait),
        Err("Portrait must be exactly 32 rows, got 33".to_string())
    );
    assert_eq!(validate_portrait(""), Err("Portrait must be exactly 32 rows, got 1".to_string()));
}

#[test]
fn portrait_row_messages() {
    let mut rows: Vec<String> = (0..32).map(|_| " ".repeat(48)).collect();
    rows[12] = " ".repeat(47);
    assert_eq!(
        validate_portrait(&rows.join("\n")),
        Err("Portrait row 12 must be exactly 48 chars, got 47".to_string())
    );
    let mut rows: Vec<String> = (0..32).map(|_| " ".repeat(48)).collect();
    rows[3] = format!("{}\t", " ".repeat(47));
    assert_eq!(
        validate_portrait(&rows.join("\n")),
        Err("Portrait row 3 contains non-printable characters".to_string())
    );
    // the first bad row is reported
    let mut rows: Vec<String> = (0..32).map(|_| "#".repeat(48)).collect();
    rows[5] = format!("{}\u{7f}", " ".repeat(47));
    rows[20] = "#".repeat(10);
    assert_eq!(
        validate_portrait(&rows.join("\n")),
        Err("Portrait row 5 contains non-printable characters".to_string())
    );
    // widths are counted in bytes
    let mut rows: Vec<String> = (0..32).map(|_| " ".repeat(48)).collect();
    rows[0] = format!("{}\u{e9}", " ".repeat(47));
    assert_eq!(
        validate_portrait(&rows.join("\n")),
        Err("Portrait row 0 must be exactly 48 chars, got 49".to_string())
    );
    rows[0] = format!("{}\u{e9}", " ".repeat(46));
    assert_eq!(
        validate_portrait(&rows.join("\n")),
        Err("Portrait row 0 contains non-printable characters".to_string())
    );
    let printable: String = (0x20u8..0x50).map(|b| b as char).collect();
    assert_eq!(printable.len(), 48);
    assert_eq!(validate_portrait(&grid(&printable, 32)), Ok(()));
}

#[test]
fn colormap_messages() {
    assert_eq!(validate_colormap(&grid(".RGBCMYWKO......................................", 32)), Ok(()));
    let mut rows: Vec<String> = (0..32).map(|_| ".".repeat(48)).collect();
    rows[31] = format!("{}r", ".".repeat(47));
    assert_eq!(
        validate_colormap(&rows.join("\n")),
        Err("Colormap row 31 contains invalid color codes. Allowed: . R G B C M Y W K O".to_string())
    );
    assert_eq!(
        validate_colormap(&grid(&".".repeat(49), 32)),
        Err("Colormap row 0 must be exactly 48 chars, got 49".to_string())
    );
    assert_eq!(
        validate_colormap(&grid(&".".repeat(48), 2)),
        Err("Colormap must be exactly 32 rows, got 2".to_string())
    );
}

#[test]
fn tagline_comment_theme_messages() {
    assert_eq!(
        validate_tagline(&"x".repeat(201)),
        Err("Tagline must be at most 200 characters".to_string())
    );
    // the limit is in characters, not bytes
    assert_eq!(validate_tagline(&"\u{e9}".repeat(200)), Ok(()));
    assert!(validate_tagline(&"\u{e9}".repeat(201)).is_err());
    assert_eq!(validate_comment(Some(&"\u{e9}".repeat(500))), Ok(()));
    assert_eq!(validate_comment(Some(&"x".repeat(500))), Ok(()));
    assert_eq!(
        validate_comment(Some(&"x".repeat(501))),
        Err("Comment must be at most 500 characters".to_string())
    );
    assert_eq!(
        validate_theme_color("#fff"),
        Err("Theme color must be #RRGGBB format".to_string())
    );
    assert_eq!(
        validate_theme_color("x123456"),
        Err("Theme color must be #RRGGBB format".to_string())
    );
    assert_eq!(
        validate_theme_color("#12345g"),
        Err("Theme color must be valid hex (#RRGGBB)".to_string())
    );
    assert_eq!(validate_theme_color("#0aF9c3"), Ok(()));
    // lengths are counted in bytes
    assert_eq!(
        validate_theme_color("#12345\u{e9}"),
        Err("Theme color must be #RRGGBB format".to_string())
    );
    assert_eq!(
        validate_theme_color("#\u{e9}\u{e9}\u{e9}"),
        Err("Theme color must be valid hex (#RRGGBB)".to_string())
    );
    assert_eq!(
        validate_theme_color("\u{e9}12345"),
        Err("Theme color must be #RRGGBB format".to_string())
    );
}

#[test]
fn stats_messages() {
    assert_eq!(validate_stats("{}"), Ok(()));
    assert_eq!(validate_stats("[1, 2, \"x\"]"), Ok(()));
    let exact = format!(r#"{{"d":"{}"}}"#, "x".repeat(4096 - 8));
    assert_eq!(exact.len(), 4096);
    assert_eq!(validate_stats(&exact), Ok(()));
    let big = format!(r#"{{"data":"{}"}}"#, "x".repeat(4096));
    assert_eq!(validate_stats(&big), Err("Stats JSON must be at most 4096 bytes".to_string()));
    let bad = validate_stats("{nope").unwrap_err();
    assert!(bad.starts_with("Stats must be valid JSON: "));
    assert!(bad.len() > "Stats must be valid JSON: ".len());
    assert!(validate_stats("").is_err());
}

#[test]
fn stats_verdict_from_size_and_parse() {
    assert_eq!(stats_verdict(10, None), Ok(()));
    assert_eq!(stats_verdict(4096, None), Ok(()));
    assert_eq!(
        stats_verdict(4097, None),
        Err("Stats JSON must be at most 4096 bytes".to_string())
    );
    // the size limit is decided first
    assert_eq!(
        stats_verdict(5000, Some("EOF".to_string())),
        Err("Stats JSON must be at most 4096 bytes".to_string())
    );
    assert_eq!(
        stats_verdict(5, Some("expected value at line 1 column 1".to_string())),
        Err("Stats must be valid JSON: expected value at line 1 column 1".to_string())
    );
}
