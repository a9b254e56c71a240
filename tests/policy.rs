use nexus_hub::models::Notification;
use nexus_hub::policy::{
    admits_alert, humanize_codes, humanize_reason, native_alert, quiet_hours_contain,
    should_send_notification, urgency_level, urgency_meets_threshold, AlertSettings,
};
use nexus_hub::store::Database;
use nexus_hub::text::trim;

fn notif(urgency: &str, reason: &str) -> Notification {
    Notification {
        id: "n".to_string(),
        item_id: "i".to_string(),
        reason: reason.to_string(),
        urgency: urgency.to_string(),
        is_dismissed: false,
        created_at: 0,
    }
}

fn settings(q: Option<(&str, &str)>, focus: Option<&str>, threshold: Option<&str>) -> AlertSettings {
    AlertSettings {
        quiet_hours_start: q.map(|(s, _)| s.to_string()),
        quiet_hours_end: q.map(|(_, e)| e.to_string()),
        focus_mode_enabled: focus.map(|s| s.to_string()),
        focus_mode_threshold: threshold.map(|s| s.to_string()),
    }
}

#[test]
fn urgency_ranks() {
    assert_eq!(urgency_level("critical"), 4);
    assert_eq!(urgency_level("high"), 3);
    assert_eq!(urgency_level("medium"), 2);
    assert_eq!(urgency_level("low"), 1);
    assert_eq!(urgency_level("urgent"), 0);
    assert_eq!(urgency_level(""), 0);
}

#[test]
fn focus_threshold_high_admits_only_high_and_above() {
    assert!(urgency_meets_threshold("critical", "high"));
    assert!(urgency_meets_threshold("high", "high"));
    assert!(!urgency_meets_threshold("medium", "high"));
    assert!(!urgency_meets_threshold("low", "high"));
}

#[test]
fn quiet_hours_overnight_window() {
    assert!(quiet_hours_contain("22:00", "06:00", "23:30"));
    assert!(quiet_hours_contain("22:00", "06:00", "02:00"));
    assert!(!quiet_hours_contain("22:00", "06:00", "10:00"));
    assert!(quiet_hours_contain("22:00", "06:00", "22:00"));
    assert!(!quiet_hours_contain("22:00", "06:00", "06:00"));
}

#[test]
fn quiet_hours_same_day_window() {
    assert!(quiet_hours_contain("09:00", "17:00", "12:00"));
    assert!(!quiet_hours_contain("09:00", "17:00", "20:00"));
    assert!(quiet_hours_contain("09:00", "17:00", "09:00"));
    assert!(!quiet_hours_contain("09:00", "17:00", "17:00"));
}

#[test]
fn quiet_hours_win_over_urgency_and_focus() {
    let s = settings(Some(("22:00", "06:00")), Some("1"), Some("low"));
    assert!(!admits_alert(&s, "critical", "23:30"));
    assert!(admits_alert(&s, "critical", "12:00"));
}

#[test]
fn focus_mode_gates_by_threshold() {
    let s = settings(None, Some("1"), None);
    assert!(admits_alert(&s, "critical", "12:00"));
    assert!(admits_alert(&s, "high", "12:00"));
    assert!(!admits_alert(&s, "medium", "12:00"));
    assert!(!admits_alert(&s, "low", "12:00"));
    let s = settings(None, Some("1"), Some("medium"));
    assert!(admits_alert(&s, "medium", "12:00"));
    let off = settings(None, Some("0"), Some("critical"));
    assert!(admits_alert(&off, "low", "12:00"));
}

#[test]
fn stored_settings_gate_alerts() {
    let mut db = Database::new_in_memory().unwrap();
    assert!(should_send_notification(&db, "low"));
    db.set_app_setting("focus_mode_enabled", "1").unwrap();
    assert!(!should_send_notification(&db, "medium"));
    assert!(should_send_notification(&db, "high"));
    db.set_app_setting("focus_mode_threshold", "critical").unwrap();
    assert!(!should_send_notification(&db, "high"));
}

#[test]
fn reasons_are_humanized() {
    assert_eq!(humanize_reason("assigned"), "Assigned to you");
    assert_eq!(
        humanize_reason("assigned_to_me, priority_p1_blocker,deadline_24h"),
        "Assigned to you, High priority, Deadline approaching"
    );
    assert_eq!(humanize_reason(" ci_failed ,custom_code"), "CI failed, custom_code");
    assert_eq!(humanize_reason(""), "");
    assert_eq!(humanize_reason("pr_comment,"), "Comment on your PR, ");
    assert_eq!(
        humanize_codes(&vec!["vip_sender".to_string(), "mentioned".to_string()]),
        "VIP sender, You were mentioned"
    );
}

#[test]
fn native_alert_titles_by_urgency() {
    let a = native_alert(&notif("critical", "ci_failed"), "Build").unwrap();
    assert_eq!(a.title, "[CRITICAL] Build");
    assert_eq!(a.body, "CI failed");
    let a = native_alert(&notif("high", "vip_sender"), "Mail").unwrap();
    assert_eq!(a.title, "[HIGH] Mail");
    let a = native_alert(&notif("medium", "assigned"), "Fix login bug").unwrap();
    assert_eq!(a.title, "Fix login bug");
    assert_eq!(a.body, "Assigned to you");
    assert!(native_alert(&notif("low", "assigned"), "x").is_none());
    assert!(native_alert(&notif("weird", "assigned"), "x").is_none());
}

#[test]
fn trim_removes_unicode_whitespace_only() {
    assert_eq!(trim("\u{3000}\t assigned \u{2028}\n"), "assigned");
    assert_eq!(trim("a b"), "a b");
    assert_eq!(trim("   "), "");
    assert_eq!(trim("\u{200B}x"), "\u{200B}x");
    assert_eq!(humanize_reason("\u{a0}assigned,\u{85}ci_failed"), "Assigned to you, CI failed");
}
