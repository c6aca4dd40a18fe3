use discord_assist::notes::{
    clamp_note_content, escape_discord, format_relative_time, is_leap_year, civil_from_days,
    format_iso_date, note_body, sanitize_title, search_snippet, sort_recent, stem_is_name,
    stem_matches_query, today_iso, validate_folder, NotesPlugin,
};

#[test]
fn test_sanitize_title_basic() {
    assert_eq!(sanitize_title("My Note Title"), "my-note-title");
}

#[test]
fn test_sanitize_title_special_chars() {
    assert_eq!(sanitize_title("Hello! World? #2024"), "hello-world-2024");
}

#[test]
fn test_sanitize_title_extra_spaces() {
    assert_eq!(sanitize_title("  lots   of   spaces  "), "lots-of-spaces");
}

#[test]
fn test_sanitize_title_empty() {
    assert_eq!(sanitize_title("!!!"), "");
}

#[test]
fn test_format_relative_time_minutes() {
    assert_eq!(format_relative_time(1000, 400), "10m ago");
}

#[test]
fn test_format_relative_time_hours() {
    assert_eq!(format_relative_time(10000, 3000), "1h ago");
}

#[test]
fn test_format_relative_time_days() {
    assert_eq!(format_relative_time(200000, 10000), "2d ago");
}

#[test]
fn test_format_relative_time_future() {
    assert_eq!(format_relative_time(100, 200), "just now");
}

#[test]
fn test_format_relative_time_zero() {
    assert_eq!(format_relative_time(100, 0), "just now");
}

#[test]
fn test_today_iso_format() {
    let result = today_iso();
    assert_eq!(result.len(), 10);
    assert_eq!(&result[4..5], "-");
    assert_eq!(&result[7..8], "-");
    let year: u32 = result[..4].parse().unwrap();
    assert!(year >= 2024);
    let month: u32 = result[5..7].parse().unwrap();
    assert!((1..=12).contains(&month));
    let day: u32 = result[8..10].parse().unwrap();
    assert!((1..=31).contains(&day));
}

#[test]
fn test_validate_folder() {
    assert!(validate_folder("Discord"));
    assert!(validate_folder("foo/bar"));
    assert!(!validate_folder("../evil"));
    assert!(!validate_folder("/absolute"));
    assert!(!validate_folder("foo/../bar"));
    assert!(!validate_folder("foo/.."));
    assert!(!validate_folder(".."));
}

#[test]
fn test_sanitize_title_path_traversal() {
    assert_eq!(sanitize_title("../../etc/passwd"), "etc-passwd");
}

#[test]
fn test_escape_discord() {
    assert_eq!(escape_discord("**bold**"), "\\*\\*bold\\*\\*");
    assert_eq!(escape_discord("@everyone"), "\\@everyone");
    assert_eq!(escape_discord("<@123>"), "\\<\\@123>");
    assert_eq!(escape_discord("normal text"), "normal text");
}

#[test]
fn leap_year_rule() {
    assert!(is_leap_year(2000));
    assert!(is_leap_year(2024));
    assert!(!is_leap_year(1900));
    assert!(!is_leap_year(2023));
}

#[test]
fn civil_date_epoch_and_leap() {
    assert_eq!(civil_from_days(0), (1970, 1, 1));
    assert_eq!(civil_from_days(31), (1970, 2, 1));
    assert_eq!(civil_from_days(365), (1971, 1, 1));
    // 2024-02-29 is day 19782 since the epoch.
    assert_eq!(civil_from_days(19782), (2024, 2, 29));
    assert_eq!(civil_from_days(19783), (2024, 3, 1));
}

#[test]
fn iso_date_rendering() {
    assert_eq!(format_iso_date(2024, 2, 9), "2024-02-09");
    assert_eq!(format_iso_date(980, 12, 31), "0980-12-31");
}

#[test]
fn note_body_layout() {
    assert_eq!(
        note_body("2024-02-09", "hello"),
        "---\ncreated: 2024-02-09\n---\n\nhello\n"
    );
}

#[test]
fn notes_plugin_remembers_vault() {
    let p = NotesPlugin::new("/vault");
    assert_eq!(p.vault_path, "/vault");
}

#[test]
fn search_snippet_finds_case_insensitive() {
    let content = "alpha\nbravo CHARLIE delta\necho";
    let snip = search_snippet(content, "charlie").expect("match expected");
    assert!(snip.contains("CHARLIE"));
    assert!(!snip.contains('\n'));
    assert!(search_snippet(content, "zulu").is_none());
    // Context is clipped to just over thirty characters a side.
    let long = format!("{}needle{}", "x".repeat(100), "y".repeat(100));
    let snip = search_snippet(&long, "needle").unwrap();
    assert!(snip.contains("needle"));
    assert!(snip.len() <= 31 + 6 + 30);

    assert!(stem_matches_query("My Note", "note"));
    assert!(!stem_matches_query("My Note", "other"));
    assert!(stem_is_name("Shopping List", "shopping list"));
    assert!(!stem_is_name("Shopping List", "shopping"));

    let short = "short note";
    assert_eq!(clamp_note_content(short), short);
    let long = "z".repeat(2500);
    let clamped = clamp_note_content(&long);
    assert!(clamped.starts_with(&"z".repeat(1900)));
    assert!(clamped.ends_with("...\n*(truncated)*"));
}

#[test]
fn recent_sort_is_newest_first_and_stable() {
    let entries = vec![
        ("a.md".to_string(), 10),
        ("b.md".to_string(), 30),
        ("c.md".to_string(), 20),
        ("d.md".to_string(), 30),
    ];
    let sorted = sort_recent(entries);
    assert_eq!(
        sorted,
        vec![
            ("b.md".to_string(), 30),
            ("d.md".to_string(), 30),
            ("c.md".to_string(), 20),
            ("a.md".to_string(), 10),
        ]
    );
    assert!(sort_recent(Vec::new()).is_empty());
}
