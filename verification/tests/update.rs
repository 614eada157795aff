use gt::text::parse_u64;
use gt::update::{
    check_message, check_report, due, is_newer, notice_for, stamp_contents, stamp_path,
    update_notice, update_result_message, CHECK_INTERVAL_SECS,
};

#[test]
fn stamp_lives_under_the_cache_dir() {
    assert_eq!(
        stamp_path(Some("/x/cache"), Some("/home/u")).as_deref(),
        Some("/x/cache/gt/last-update-check")
    );
    assert_eq!(
        stamp_path(Some(""), Some("/home/u")).as_deref(),
        Some("/home/u/.cache/gt/last-update-check")
    );
    assert_eq!(
        stamp_path(None, Some("/home/u/")).as_deref(),
        Some("/home/u/.cache/gt/last-update-check")
    );
    assert_eq!(stamp_path(Some(""), None), None);
    assert_eq!(stamp_path(None, None), None);
}

#[test]
fn due_once_a_day() {
    assert_eq!(CHECK_INTERVAL_SECS, 86_400);
    let now = 1_000_000;
    assert!(due(false, true, None, now));
    assert!(!due(true, true, None, now));
    assert!(!due(false, false, None, now));
    assert!(!due(false, true, Some("999999"), now));
    assert!(!due(false, true, Some(" 913601\n"), now));
    assert!(due(false, true, Some("913600"), now));
    // an unreadable stamp counts as never checked
    assert!(due(false, true, Some("yesterday"), now));
    // a stamp from the future never makes the check due
    assert!(!due(false, true, Some("2000000"), now));
    // a fresh stamp written now throttles for a day
    let s = stamp_contents(now);
    assert_eq!(s, "1000000");
    assert!(!due(false, true, Some(&s), now + CHECK_INTERVAL_SECS - 1));
    assert!(due(false, true, Some(&s), now + CHECK_INTERVAL_SECS));
}

#[test]
fn parse_u64_is_from_str() {
    assert_eq!(parse_u64("0"), Some(0));
    assert_eq!(parse_u64("+42"), Some(42));
    assert_eq!(parse_u64("007"), Some(7));
    assert_eq!(parse_u64("18446744073709551615"), Some(u64::MAX));
    assert_eq!(parse_u64("18446744073709551616"), None);
    assert_eq!(parse_u64("99999999999999999999"), None);
    assert_eq!(parse_u64(""), None);
    assert_eq!(parse_u64("+"), None);
    assert_eq!(parse_u64("-1"), None);
    assert_eq!(parse_u64("1 2"), None);
    assert_eq!(parse_u64("١٢"), None);
    for s in ["0", "+42", "", "+", "-1", "12a", "18446744073709551616"] {
        assert_eq!(parse_u64(s), s.parse::<u64>().ok(), "{s}");
    }
}

#[test]
fn newer_is_a_semver_comparison() {
    assert!(is_newer("1.2.0", "1.2.3"));
    assert!(is_newer("0.2.0", "1.2.3"));
    assert!(!is_newer("1.2.3", "1.2.3"));
    assert!(!is_newer("1.3.0", "1.2.9"));
    assert!(!is_newer("1.2.0", "not-a-version"));
}

#[test]
fn notice_and_check_messages() {
    assert_eq!(
        update_notice("0.1.0", "0.2.0").as_deref(),
        Some("gt: a newer version is available (0.1.0 → 0.2.0); run `gt update`")
    );
    assert_eq!(update_notice("0.2.0", "0.2.0"), None);
    assert_eq!(notice_for("a", "b", false), None);
    assert_eq!(check_report("0.1.0", "0.2.0"), "update available: 0.1.0 → 0.2.0 (run `gt update`)");
    assert_eq!(check_report("0.2.0", "0.1.0"), "gt 0.2.0 is up to date");
    assert_eq!(check_message("1", "2", true), "update available: 1 → 2 (run `gt update`)");
    assert_eq!(update_result_message("0.1.0", true, "0.2.0"), "updated gt → 0.2.0");
    assert_eq!(update_result_message("0.1.0", false, "0.1.0"), "gt 0.1.0 is already the latest");
}
