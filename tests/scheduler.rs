use std::path::PathBuf;

use nexus_hub::models::PluginConfig;
use nexus_hub::plugin_runtime::{parse_plugin_result, PluginNotification};
use nexus_hub::scheduler::{
    due_plugins, is_due, plugin_file_name, record_candidate, record_failure, stored_items,
    PollError, Scheduler,
};
use nexus_hub::store::{Database, StoreError};

const NOW: i64 = 1_700_000_000;

const ONE_ITEM: &str = r#"{"items":[{"id":"a-1","source":"jira","sourceId":"A-1","type":"ticket",
    "title":"Fix login bug","url":"https://example.com/A-1","timestamp":1000,"metadata":{"k":1},
    "tags":["bug","auth"]}],
    "notifications":[{"itemId":"a-1","reason":"assigned","urgency":"medium"}]}"#;

fn config(last_poll_at: Option<i64>) -> PluginConfig {
    PluginConfig {
        plugin_id: "jira".to_string(),
        is_enabled: true,
        credentials: Some(r#"{"token":"abc"}"#.to_string()),
        poll_interval_secs: 600,
        last_poll_at,
        last_error: Some("earlier failure".to_string()),
        error_count: 2,
        settings: None,
    }
}

fn candidate(item_id: &str, reason: &str) -> PluginNotification {
    PluginNotification {
        item_id: item_id.to_string(),
        reason: reason.to_string(),
        urgency: "medium".to_string(),
    }
}

#[test]
fn due_poll_stores_item_notification_and_alert() {
    let mut db = Database::new_in_memory().unwrap();
    let cfg = config(Some(NOW - 700));
    db.upsert_plugin_config(&cfg).unwrap();
    assert!(is_due(&cfg, NOW));

    let scheduler = Scheduler::new(PathBuf::from("plugins"));
    let plan = scheduler.begin_poll(&db, "jira").unwrap();
    assert_eq!(plan.credentials, r#"{"token":"abc"}"#);
    assert_eq!(plan.plugin_path, PathBuf::from("plugins").join("jira.ts"));
    let result = parse_plugin_result(ONE_ITEM).unwrap();
    let report = scheduler.finish_poll(&mut db, &plan, &result, NOW).unwrap();

    assert_eq!(report.item_count, 1);
    let items = db.get_items(None, false, 100).unwrap();
    assert_eq!(items.len(), 1);
    assert_eq!(items[0].id, "a-1");
    assert_eq!(items[0].metadata, Some(r#"{"k":1}"#.to_string()));
    assert_eq!(items[0].tags, Some(r#"["bug","auth"]"#.to_string()));
    assert_eq!(items[0].priority, 0);
    assert!(!items[0].is_read);
    assert_eq!(items[0].created_at, NOW);
    assert_eq!(items[0].item_type, "ticket");
    assert_eq!(items[0].source_id, "A-1");
    let notes = db.get_active_notifications().unwrap();
    assert_eq!(notes.len(), 1);
    assert_eq!(notes[0].item_id, "a-1");
    assert_eq!(notes[0].reason, "assigned");
    assert_eq!(notes[0].created_at, NOW);
    assert_eq!(notes[0].id.len(), 36);
    assert_eq!(report.alerts.len(), 1);
    assert_eq!(report.alerts[0].title, "Fix login bug");
    assert_eq!(report.alerts[0].body, "Assigned to you");
    let after = db.get_plugin_config("jira").unwrap().unwrap();
    assert_eq!(after.last_poll_at, Some(NOW));
    assert_eq!(after.last_error, None);
    assert_eq!(after.error_count, 0);
}

#[test]
fn polled_plugin_is_not_due_again_at_once() {
    let mut db = Database::new_in_memory().unwrap();
    db.upsert_plugin_config(&config(Some(NOW - 700))).unwrap();
    let scheduler = Scheduler::new(PathBuf::from("plugins"));
    let plan = scheduler.begin_poll(&db, "jira").unwrap();
    let result = parse_plugin_result(ONE_ITEM).unwrap();
    scheduler.finish_poll(&mut db, &plan, &result, NOW).unwrap();

    let cfg = db.get_plugin_config("jira").unwrap().unwrap();
    assert_eq!(cfg.last_error, None);
    assert!(!is_due(&cfg, NOW));
    assert!(!is_due(&cfg, NOW + 599));
    assert!(is_due(&cfg, NOW + 600));
    assert!(due_plugins(&db.get_enabled_plugin_configs().unwrap(), NOW).is_empty());
}

#[test]
fn missing_notifications_key_fails_before_any_write() {
    let mut db = Database::new_in_memory().unwrap();
    db.upsert_plugin_config(&config(None)).unwrap();
    let err = parse_plugin_result(r#"{"items":[]}"#).unwrap_err();
    assert!(err.starts_with("Failed to parse plugin result"));
    let poll_error = PollError::Parse(err);
    assert!(!poll_error.is_expected());
    assert!(db.get_items(None, false, -1).unwrap().is_empty());
    assert!(db.get_active_notifications().unwrap().is_empty());
    assert_eq!(db.get_plugin_config("jira").unwrap().unwrap().last_poll_at, None);
}

#[test]
fn duplicate_active_candidate_is_skipped_other_reason_kept() {
    let mut db = Database::new_in_memory().unwrap();
    let result = parse_plugin_result(ONE_ITEM).unwrap();
    db.upsert_plugin_config(&config(None)).unwrap();
    let scheduler = Scheduler::new(PathBuf::from("plugins"));
    let plan = scheduler.begin_poll(&db, "jira").unwrap();
    scheduler.finish_poll(&mut db, &plan, &result, NOW).unwrap();

    assert_eq!(record_candidate(&mut db, &candidate("a-1", "assigned"), "n-2".to_string(), NOW), Ok(false));
    assert_eq!(db.get_active_notifications().unwrap().len(), 1);
    assert_eq!(record_candidate(&mut db, &candidate("a-1", "ci_failed"), "n-3".to_string(), NOW), Ok(true));
    assert_eq!(db.get_active_notifications().unwrap().len(), 2);

    let again = scheduler.finish_poll(&mut db, &plan, &result, NOW + 1).unwrap();
    assert!(again.alerts.is_empty());
    assert_eq!(db.get_active_notifications().unwrap().len(), 2);
}

#[test]
fn read_phase_outcomes() {
    let mut db = Database::new_in_memory().unwrap();
    let scheduler = Scheduler::new(PathBuf::from("plugins"));
    let e = scheduler.begin_poll(&db, "jira").err().unwrap();
    assert_eq!(e, PollError::NotConfigured("jira".to_string()));
    assert!(e.is_expected());
    assert_eq!(e.message(), "Plugin 'jira' not configured");

    let mut off = config(None);
    off.is_enabled = false;
    db.upsert_plugin_config(&off).unwrap();
    let e = scheduler.begin_poll(&db, "jira").err().unwrap();
    assert_eq!(e.message(), "Plugin 'jira' is disabled");
    assert!(e.is_expected());

    let mut bare = config(None);
    bare.credentials = None;
    db.upsert_plugin_config(&bare).unwrap();
    let e = scheduler.begin_poll(&db, "jira").err().unwrap();
    assert_eq!(e, PollError::MissingCredentials("jira".to_string()));
    assert_eq!(e.message(), "Plugin 'jira' has no credentials");
    assert!(!PollError::Execution("boom".to_string()).is_expected());
}

#[test]
fn due_check_rules() {
    assert!(is_due(&config(None), NOW));
    assert!(is_due(&config(Some(NOW - 600)), NOW));
    assert!(!is_due(&config(Some(NOW - 599)), NOW));
    assert!(is_due(&config(Some(i64::MIN)), i64::MAX));
    let mut off = config(None);
    off.is_enabled = false;
    assert!(!is_due(&off, NOW));
    let mut bare = config(None);
    bare.credentials = None;
    assert!(!is_due(&bare, NOW));
    let mut other = config(Some(NOW));
    other.plugin_id = "github".to_string();
    let ids = due_plugins(&vec![config(None), other, config(Some(NOW - 10_000))], NOW);
    assert_eq!(ids, vec!["jira".to_string(), "jira".to_string()]);
    assert_eq!(plugin_file_name("jira"), "jira.ts");
}

#[test]
fn notification_for_item_outside_store_aborts_poll() {
    let mut db = Database::new_in_memory().unwrap();
    db.upsert_plugin_config(&config(None)).unwrap();
    let scheduler = Scheduler::new(PathBuf::from("plugins"));
    let plan = scheduler.begin_poll(&db, "jira").unwrap();
    let result = parse_plugin_result(
        r#"{"items":[],"notifications":[{"itemId":"ghost","reason":"r","urgency":"high"}]}"#,
    )
    .unwrap();
    let e = scheduler.finish_poll(&mut db, &plan, &result, NOW).err().unwrap();
    assert!(matches!(e, PollError::Store(_)));
    assert_eq!(db.get_plugin_config("jira").unwrap().unwrap().last_poll_at, None);
}

#[test]
fn candidate_with_taken_id_is_refused() {
    let mut db = Database::new_in_memory().unwrap();
    db.upsert_plugin_config(&config(None)).unwrap();
    let scheduler = Scheduler::new(PathBuf::from("plugins"));
    let plan = scheduler.begin_poll(&db, "jira").unwrap();
    let result = parse_plugin_result(ONE_ITEM).unwrap();
    let batch = stored_items(&result, NOW);
    let ids = vec!["n-1".to_string()];
    scheduler.persist_poll(&mut db, &plan, &result, &batch, &ids, NOW, "12:00").unwrap();
    assert_eq!(
        record_candidate(&mut db, &candidate("a-1", "ci_failed"), "n-1".to_string(), NOW),
        Err(StoreError::DuplicateNotificationId)
    );
    assert_eq!(db.get_active_notifications().unwrap().len(), 1);
}

#[test]
fn persist_poll_raises_alerts_by_settings_and_clock() {
    let two = r#"{"items":[{"id":"a-1","source":"jira","sourceId":"A-1","type":"ticket",
        "title":"Outage","url":"u","timestamp":1,"metadata":{},"tags":[]}],
        "notifications":[{"itemId":"a-1","reason":"ci_failed","urgency":"critical"},
                         {"itemId":"a-1","reason":"ci_failed","urgency":"critical"},
                         {"itemId":"a-1","reason":"assigned","urgency":"low"}]}"#;
    let result = parse_plugin_result(two).unwrap();
    let scheduler = Scheduler::new(PathBuf::from("plugins"));

    let mut db = Database::new_in_memory().unwrap();
    db.upsert_plugin_config(&config(None)).unwrap();
    let plan = scheduler.begin_poll(&db, "jira").unwrap();
    let ids: Vec<String> = vec!["x1".to_string(), "x2".to_string(), "x3".to_string()];
    let batch = stored_items(&result, NOW);
    let report = scheduler.persist_poll(&mut db, &plan, &result, &batch, &ids, NOW, "12:00").unwrap();
    assert_eq!(report.alerts.len(), 1);
    assert_eq!(report.alerts[0].title, "[CRITICAL] Outage");
    assert_eq!(report.alerts[0].body, "CI failed");
    assert_eq!(db.get_active_notifications().unwrap().len(), 2);

    let mut quiet = Database::new_in_memory().unwrap();
    quiet.upsert_plugin_config(&config(None)).unwrap();
    quiet.set_app_setting("quiet_hours_start", "22:00").unwrap();
    quiet.set_app_setting("quiet_hours_end", "06:00").unwrap();
    let report = scheduler.persist_poll(&mut quiet, &plan, &result, &batch, &ids, NOW, "23:30").unwrap();
    assert!(report.alerts.is_empty());
    assert_eq!(quiet.get_active_notifications().unwrap().len(), 2);
}

#[test]
fn real_failures_are_recorded_expected_ones_are_not() {
    let mut db = Database::new_in_memory().unwrap();
    db.upsert_plugin_config(&config(None)).unwrap();
    record_failure(&mut db, "jira", &PollError::Disabled("jira".to_string())).unwrap();
    let c = db.get_plugin_config("jira").unwrap().unwrap();
    assert_eq!(c.error_count, 2);
    assert_eq!(c.last_error, Some("earlier failure".to_string()));

    record_failure(&mut db, "jira", &PollError::Execution("Plugin 'fetch' failed: boom".to_string())).unwrap();
    let c = db.get_plugin_config("jira").unwrap().unwrap();
    assert_eq!(c.error_count, 3);
    assert_eq!(c.last_error, Some("Plugin 'fetch' failed: boom".to_string()));
    assert_eq!(c.credentials, config(None).credentials);

    let mut maxed = config(None);
    maxed.error_count = i32::MAX;
    db.upsert_plugin_config(&maxed).unwrap();
    record_failure(&mut db, "jira", &PollError::Parse("bad".to_string())).unwrap();
    assert_eq!(db.get_plugin_config("jira").unwrap().unwrap().error_count, i32::MAX);
    record_failure(&mut db, "other", &PollError::Parse("bad".to_string())).unwrap();
    assert!(db.get_plugin_config("other").unwrap().is_none());
}
