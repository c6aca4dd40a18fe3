use discord_assist::qbit::{format_bytes, format_speed, torrent_line, transfer_summary, truncate, TorrentInfo};

#[test]
fn test_format_speed() {
    assert_eq!(format_speed(500), "500 B/s");
    assert_eq!(format_speed(1536), "1.5 KB/s");
    assert_eq!(format_speed(2_621_440), "2.5 MB/s");
}

#[test]
fn test_format_bytes() {
    assert_eq!(format_bytes(524_288_000), "500.0 MB");
    assert_eq!(format_bytes(1_610_612_736), "1.5 GB");
    assert_eq!(format_bytes(1_649_267_441_664), "1.5 TB");
}

#[test]
fn test_truncate_short() {
    assert_eq!(truncate("hello", 10), "hello");
}

#[test]
fn test_truncate_long() {
    let long = "a]".repeat(30);
    let result = truncate(&long, 10);
    assert!(result.len() <= 10);
    assert!(result.ends_with("..."));
}

#[test]
fn test_truncate_multibyte() {
    let s = "hello\u{1F600}world";
    let result = truncate(s, 8);
    assert!(result.ends_with("..."));
    // Must not panic on char boundary
}

#[test]
fn format_speed_boundaries() {
    assert_eq!(format_speed(0), "0 B/s");
    assert_eq!(format_speed(1023), "1023 B/s");
    assert_eq!(format_speed(1024), "1.0 KB/s");
    assert_eq!(format_speed(1_048_575), "1024.0 KB/s");
    assert_eq!(format_speed(1_048_576), "1.0 MB/s");
}

#[test]
fn format_bytes_small() {
    assert_eq!(format_bytes(0), "0.0 MB");
    assert_eq!(format_bytes(1_048_576), "1.0 MB");
}

#[test]
fn transfer_and_torrent_lines() {
    assert_eq!(
        transfer_summary(500, 1536, 524_288_000, 1_610_612_736),
        "**qBittorrent Status**\nDownload: 500 B/s | Upload: 1.5 KB/s\nTotal Downloaded: 500.0 MB | Total Uploaded: 1.5 GB"
    );
    let t = TorrentInfo {
        name: "Some Torrent".to_string(),
        hash: "h".to_string(),
        state: "downloading".to_string(),
        size: Some(1_610_612_736),
        dlspeed: Some(2_621_440),
    };
    assert_eq!(
        torrent_line(&t, 42),
        "- **Some Torrent** (1.5 GB) — 42% [downloading] 2.5 MB/s\n"
    );
    let bare = TorrentInfo {
        name: "Bare".to_string(),
        hash: "h".to_string(),
        state: "pausedUP".to_string(),
        size: None,
        dlspeed: None,
    };
    assert_eq!(torrent_line(&bare, 100), "- **Bare** — 100% [pausedUP]\n");
}
