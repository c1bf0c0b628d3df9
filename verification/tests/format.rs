use mailkeep::adapters::stats::ArchiveStats;
use mailkeep::format::{
    archive_stats_to_dto_at, format_bytes, relative_time, special_use_rank, stat_cards, status_icon_color,
    status_label, status_tooltip, thousands, ArchiveStatsDto, UtcTime,
};

#[test]
fn labels_and_colors() {
    assert_eq!(status_label("PendingFirstSync"), "Pending first sync");
    assert_eq!(status_label("bogus"), "Unknown");
    assert_eq!(status_icon_color("Idle"), "text-green-500");
    assert_eq!(status_icon_color("Error"), "text-red-500");
    assert_eq!(status_icon_color("bogus"), "text-gray-400");
}

#[test]
fn tooltip_composition() {
    assert_eq!(status_tooltip("Idle", Some("2m ago"), None), "Idle · last synced 2m ago");
    assert_eq!(
        status_tooltip("Error", Some("1h ago"), Some("authentication failed")),
        "Error: authentication failed · last synced 1h ago"
    );
    assert_eq!(status_tooltip("Error", None, None), "Error");
    assert_eq!(status_tooltip("PendingFirstSync", None, None), "Pending first sync");
    assert_eq!(status_tooltip("Disabled", Some("3d ago"), None), "Disabled · last synced 3d ago");
}

#[test]
fn format_bytes_units() {
    assert_eq!(format_bytes(0), "0 B");
    assert_eq!(format_bytes(512), "512 B");
    assert_eq!(format_bytes(1000), "1.0 KB");
    assert_eq!(format_bytes(1_500), "1.5 KB");
    assert_eq!(format_bytes(4_509_715_660), "4.5 GB");
}

#[test]
fn thousands_groups() {
    assert_eq!(thousands(0), "0");
    assert_eq!(thousands(999), "999");
    assert_eq!(thousands(12_431), "12,431");
    assert_eq!(thousands(1_000_000), "1,000,000");
}

#[test]
fn special_use_ordering() {
    let mut v = vec![Some("sent"), None, Some("inbox"), Some("trash")];
    v.sort_by_key(|s| special_use_rank(*s));
    assert_eq!(v, vec![Some("inbox"), Some("sent"), Some("trash"), None]);
}

fn at(secs: i64) -> UtcTime {
    UtcTime { secs, nanos: 0 }
}

#[test]
fn relative_time_buckets() {
    let now = at(1_700_000_000);
    assert_eq!(relative_time(at(1_700_000_000 - 5), now), "just now");
    assert_eq!(relative_time(at(1_700_000_000 - 2 * 60), now), "2m ago");
    assert_eq!(relative_time(at(1_700_000_000 - 3 * 3600), now), "3h ago");
    assert_eq!(relative_time(at(1_700_000_000 - 2 * 86400), now), "2d ago");
}

#[test]
fn stat_cards_values() {
    let dto = ArchiveStatsDto {
        message_count: 12_431,
        attachment_count: 480,
        storage_bytes: 4_509_715_660,
        account_count: 3,
        last_synced: Some("2m ago".into()),
    };
    let cards = stat_cards(&dto);
    assert_eq!(cards[0], ("Messages", "12,431".to_string()));
    assert_eq!(cards[1], ("Storage", "4.5 GB".to_string()));
    assert_eq!(cards[2], ("Accounts", "3".to_string()));
    assert_eq!(cards[3], ("Attachments", "480".to_string()));
}

#[test]
fn stats_to_dto_maps_fields() {
    let now = at(1_700_000_120);
    let s = ArchiveStats {
        message_count: 12_431,
        attachment_count: 480,
        storage_bytes: 4_509_715_660,
        account_count: 3,
        last_synced_at: Some(at(1_700_000_000)),
    };
    let dto = archive_stats_to_dto_at(&s, now);
    assert_eq!(dto.message_count, 12_431);
    assert_eq!(dto.storage_bytes, 4_509_715_660);
    assert_eq!(dto.account_count, 3);
    assert_eq!(dto.last_synced.as_deref(), Some("2m ago"));

    let never = ArchiveStats { last_synced_at: None, ..s };
    assert_eq!(archive_stats_to_dto_at(&never, now).last_synced, None);
}

#[test]
fn relative_time_truncates_toward_zero() {
    let now = UtcTime { secs: 1_000, nanos: 0 };
    // 59.9 seconds is still "just now"; 60 seconds is a minute.
    assert_eq!(relative_time(UtcTime { secs: 940, nanos: 100_000_000 }, now), "just now");
    assert_eq!(relative_time(at(940), now), "1m ago");
    assert_eq!(relative_time(at(1_000 - 3599), now), "59m ago");
    assert_eq!(relative_time(at(1_000 - 86_399), now), "23h ago");
    // a date in the future reads as "just now"
    assert_eq!(relative_time(at(2_000), now), "just now");
}

#[test]
fn format_bytes_boundaries() {
    assert_eq!(format_bytes(999), "999 B");
    assert_eq!(format_bytes(999_999), "1000.0 KB");
    assert_eq!(format_bytes(1_000_000), "1.0 MB");
    assert_eq!(format_bytes(2_000_000_000_000), "2.0 TB");
}

#[test]
fn thousands_strips_back_to_decimal() {
    let n = 9_876_543_210u64;
    assert_eq!(thousands(n).replace(',', ""), n.to_string());
}

fn float_rendering(bytes: u64) -> String {
    let units = ["B", "KB", "MB", "GB", "TB"];
    if bytes < 1000 {
        return format!("{bytes} B");
    }
    let mut value = bytes as f64;
    let mut unit = 0;
    while value >= 1000.0 && unit < units.len() - 1 {
        value /= 1000.0;
        unit += 1;
    }
    format!("{value:.1} {}", units[unit])
}

#[test]
fn sizes_agree_with_float_rendering() {
    let mut b: u64 = 0;
    while b < 3_000_000 {
        assert_eq!(format_bytes(b), float_rendering(b), "{b}");
        b += 13;
    }
    let mut half: u64 = 1_050;
    while half < 1_000_000 {
        assert_eq!(format_bytes(half), float_rendering(half), "{half}");
        half += 100;
    }
    let mut half: u64 = 1_050_000;
    while half < 1_000_000_000 {
        assert_eq!(format_bytes(half), float_rendering(half), "{half}");
        half += 100_000 * 37;
    }
    for b in [
        999_949u64,
        999_950,
        999_999,
        1_000_000,
        123_456_789,
        987_654_321_000,
        5_000_000_000_000,
        1_250_000_000_000,
        (1u64 << 53) - 1,
        1u64 << 53,
        (1u64 << 53) + 1,
        12_345_678_901_234_567,
        u64::MAX - 1,
        u64::MAX,
    ] {
        assert_eq!(format_bytes(b), float_rendering(b), "{b}");
    }
    assert_eq!(format_bytes(1_250), "1.2 KB");
    assert_eq!(format_bytes(1_150), "1.1 KB");
    assert_eq!(format_bytes(1_350), "1.4 KB");
    assert_eq!(format_bytes(1_750), "1.8 KB");
}
