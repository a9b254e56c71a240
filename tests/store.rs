use nexus_hub::models::{NexusItem, Notification, PluginConfig};
use nexus_hub::store::{Database, StoreError};

fn make_item() -> NexusItem {
    NexusItem {
        id: "jira-TEST-1".to_string(),
        source: "jira".to_string(),
        source_id: "TEST-1".to_string(),
        item_type: "ticket".to_string(),
        title: "Fix login bug".to_string(),
        summary: Some("Users cannot log in with SSO".to_string()),
        url: "https://jira.example.com/browse/TEST-1".to_string(),
        author: Some("alice".to_string()),
        timestamp: 1000,
        priority: 3,
        metadata: Some(r#"{"status":"open"}"#.to_string()),
        tags: Some(r#"["bug","auth"]"#.to_string()),
        is_read: false,
        created_at: 900,
        updated_at: 950,
    }
}

fn make_notification() -> Notification {
    Notification {
        id: "notif-1".to_string(),
        item_id: "jira-TEST-1".to_string(),
        reason: "assigned".to_string(),
        urgency: "medium".to_string(),
        is_dismissed: false,
        created_at: 1000,
    }
}

#[test]
fn new_creates_tables() {
    let db = Database::new_in_memory().expect("in-memory db should succeed");
    let items = db.get_items(None, false, 100).unwrap();
    assert!(items.is_empty());
}

#[test]
fn upsert_and_get_roundtrip() {
    let mut db = Database::new_in_memory().unwrap();
    let item = make_item();
    db.upsert_item(&item).unwrap();

    let items = db.get_items(None, false, 100).unwrap();
    assert_eq!(items.len(), 1);
    let got = &items[0];
    assert_eq!(got.id, item.id);
    assert_eq!(got.source, item.source);
    assert_eq!(got.source_id, item.source_id);
    assert_eq!(got.item_type, item.item_type);
    assert_eq!(got.title, item.title);
    assert_eq!(got.summary, item.summary);
    assert_eq!(got.url, item.url);
    assert_eq!(got.author, item.author);
    assert_eq!(got.timestamp, item.timestamp);
    assert_eq!(got.priority, item.priority);
    assert_eq!(got.metadata, item.metadata);
    assert_eq!(got.tags, item.tags);
    assert_eq!(got.is_read, item.is_read);
    assert_eq!(got.created_at, item.created_at);
    assert_eq!(got.updated_at, item.updated_at);
}

#[test]
fn upsert_conflict_preserves_is_read() {
    let mut db = Database::new_in_memory().unwrap();
    let item = make_item();
    db.upsert_item(&item).unwrap();

    db.mark_item_read(&item.id, true).unwrap();

    let mut updated = item.clone();
    updated.title = "Updated title".to_string();
    updated.is_read = false;
    updated.updated_at = 2000;
    db.upsert_item(&updated).unwrap();

    let items = db.get_items(None, false, 100).unwrap();
    assert_eq!(items.len(), 1);
    assert!(items[0].is_read, "is_read should be preserved on conflict");
    assert_eq!(items[0].title, "Updated title");
}

#[test]
fn get_items_filters_by_source() {
    let mut db = Database::new_in_memory().unwrap();

    let jira_item = make_item();
    db.upsert_item(&jira_item).unwrap();

    let mut gh_item = make_item();
    gh_item.id = "github-PR-42".to_string();
    gh_item.source = "github".to_string();
    gh_item.source_id = "PR-42".to_string();
    db.upsert_item(&gh_item).unwrap();

    let jira_only = db.get_items(Some("jira"), false, 100).unwrap();
    assert_eq!(jira_only.len(), 1);
    assert_eq!(jira_only[0].source, "jira");
}

#[test]
fn get_items_filters_unread_only() {
    let mut db = Database::new_in_memory().unwrap();

    let item1 = make_item();
    db.upsert_item(&item1).unwrap();

    let mut item2 = make_item();
    item2.id = "jira-TEST-2".to_string();
    item2.source_id = "TEST-2".to_string();
    item2.timestamp = 2000;
    db.upsert_item(&item2).unwrap();

    db.mark_item_read(&item1.id, true).unwrap();

    let unread = db.get_items(None, true, 100).unwrap();
    assert_eq!(unread.len(), 1);
    assert_eq!(unread[0].id, "jira-TEST-2");
}

#[test]
fn get_items_respects_limit() {
    let mut db = Database::new_in_memory().unwrap();

    for i in 0..5 {
        let mut item = make_item();
        item.id = format!("jira-TEST-{}", i);
        item.source_id = format!("TEST-{}", i);
        item.timestamp = 1000 + i;
        db.upsert_item(&item).unwrap();
    }

    let items = db.get_items(None, false, 2).unwrap();
    assert_eq!(items.len(), 2);
}

#[test]
fn get_items_orders_by_timestamp_desc() {
    let mut db = Database::new_in_memory().unwrap();

    for (i, ts) in [(0, 100i64), (1, 300), (2, 200)] {
        let mut item = make_item();
        item.id = format!("jira-TEST-{}", i);
        item.source_id = format!("TEST-{}", i);
        item.timestamp = ts;
        db.upsert_item(&item).unwrap();
    }

    let items = db.get_items(None, false, 100).unwrap();
    assert_eq!(items.len(), 3);
    assert_eq!(items[0].timestamp, 300);
    assert_eq!(items[1].timestamp, 200);
    assert_eq!(items[2].timestamp, 100);
}

#[test]
fn mark_item_read_toggles() {
    let mut db = Database::new_in_memory().unwrap();
    let item = make_item();
    db.upsert_item(&item).unwrap();
    assert!(!db.get_items(None, false, 1).unwrap()[0].is_read);

    db.mark_item_read(&item.id, true).unwrap();
    assert!(db.get_items(None, false, 1).unwrap()[0].is_read);

    db.mark_item_read(&item.id, false).unwrap();
    assert!(!db.get_items(None, false, 1).unwrap()[0].is_read);

    db.mark_item_read(&item.id, true).unwrap();
    assert!(db.get_items(None, false, 1).unwrap()[0].is_read);
}

#[test]
fn insert_and_get_notifications() {
    let mut db = Database::new_in_memory().unwrap();
    let item = make_item();
    db.upsert_item(&item).unwrap();

    let notif = make_notification();
    db.insert_notification(&notif).unwrap();

    let active = db.get_active_notifications().unwrap();
    assert_eq!(active.len(), 1);
    assert_eq!(active[0].id, notif.id);
    assert_eq!(active[0].item_id, notif.item_id);
    assert_eq!(active[0].reason, notif.reason);
    assert_eq!(active[0].urgency, notif.urgency);
    assert!(!active[0].is_dismissed);
}

#[test]
fn insert_notification_duplicate_ignored() {
    let mut db = Database::new_in_memory().unwrap();
    let item = make_item();
    db.upsert_item(&item).unwrap();

    let notif = make_notification();
    db.insert_notification(&notif).unwrap();
    db.insert_notification(&notif).unwrap();

    let active = db.get_active_notifications().unwrap();
    assert_eq!(active.len(), 1);
}

#[test]
fn dismiss_excludes_from_active() {
    let mut db = Database::new_in_memory().unwrap();
    let item = make_item();
    db.upsert_item(&item).unwrap();

    let notif = make_notification();
    db.insert_notification(&notif).unwrap();

    db.dismiss_notification(&notif.id).unwrap();

    let active = db.get_active_notifications().unwrap();
    assert!(active.is_empty());
}

#[test]
fn has_active_notification_detects_existing() {
    let mut db = Database::new_in_memory().unwrap();
    let item = make_item();
    db.upsert_item(&item).unwrap();

    assert!(!db.has_active_notification(&item.id, "assigned").unwrap());

    let notif = make_notification();
    db.insert_notification(&notif).unwrap();
    assert!(db.has_active_notification(&item.id, "assigned").unwrap());

    assert!(!db.has_active_notification(&item.id, "deadline_approaching").unwrap());

    db.dismiss_notification(&notif.id).unwrap();
    assert!(!db.has_active_notification(&item.id, "assigned").unwrap());
}

#[test]
fn dismiss_all_notifications_clears_active() {
    let mut db = Database::new_in_memory().unwrap();
    let item = make_item();
    db.upsert_item(&item).unwrap();

    let n1 = make_notification();
    db.insert_notification(&n1).unwrap();

    let n2 = Notification {
        id: "notif-2".to_string(),
        item_id: item.id.clone(),
        reason: "high_priority".to_string(),
        urgency: "high".to_string(),
        is_dismissed: false,
        created_at: 1000,
    };
    db.insert_notification(&n2).unwrap();

    assert_eq!(db.get_active_notifications().unwrap().len(), 2);

    db.dismiss_all_notifications().unwrap();
    assert_eq!(db.get_active_notifications().unwrap().len(), 0);
}

#[test]
fn app_settings_roundtrip() {
    let mut db = Database::new_in_memory().unwrap();

    assert!(db.get_app_setting("focus_mode_enabled").unwrap().is_none());

    db.set_app_setting("focus_mode_enabled", "1").unwrap();
    assert_eq!(
        db.get_app_setting("focus_mode_enabled").unwrap(),
        Some("1".to_string())
    );

    db.set_app_setting("focus_mode_enabled", "0").unwrap();
    assert_eq!(
        db.get_app_setting("focus_mode_enabled").unwrap(),
        Some("0".to_string())
    );
}

#[test]
fn get_plugin_config_none() {
    let db = Database::new_in_memory().unwrap();
    let config = db.get_plugin_config("nonexistent").unwrap();
    assert!(config.is_none());
}

#[test]
fn plugin_config_roundtrip() {
    let mut db = Database::new_in_memory().unwrap();
    let config = PluginConfig {
        plugin_id: "jira".to_string(),
        is_enabled: true,
        credentials: Some(r#"{"token":"abc"}"#.to_string()),
        poll_interval_secs: 300,
        last_poll_at: Some(5000),
        last_error: None,
        error_count: 0,
        settings: Some(r#"{"project":"PROJ"}"#.to_string()),
    };
    db.upsert_plugin_config(&config).unwrap();

    let got = db.get_plugin_config("jira").unwrap().expect("should exist");
    assert_eq!(got.plugin_id, config.plugin_id);
    assert_eq!(got.is_enabled, config.is_enabled);
    assert_eq!(got.credentials, config.credentials);
    assert_eq!(got.poll_interval_secs, config.poll_interval_secs);
    assert_eq!(got.last_poll_at, config.last_poll_at);
    assert_eq!(got.last_error, config.last_error);
    assert_eq!(got.error_count, config.error_count);
    assert_eq!(got.settings, config.settings);
}

#[test]
fn plugin_config_updates_on_conflict() {
    let mut db = Database::new_in_memory().unwrap();
    let config = PluginConfig {
        plugin_id: "jira".to_string(),
        is_enabled: true,
        credentials: Some(r#"{"token":"old"}"#.to_string()),
        poll_interval_secs: 300,
        last_poll_at: None,
        last_error: None,
        error_count: 0,
        settings: None,
    };
    db.upsert_plugin_config(&config).unwrap();

    let mut updated = config.clone();
    updated.credentials = Some(r#"{"token":"new"}"#.to_string());
    db.upsert_plugin_config(&updated).unwrap();

    let got = db.get_plugin_config("jira").unwrap().expect("should exist");
    assert_eq!(got.credentials, Some(r#"{"token":"new"}"#.to_string()));
}

#[test]
fn seed_default_weights() {
    let mut db = Database::new_in_memory().unwrap();
    db.seed_default_weights().unwrap();

    let weights = db.get_weights("jira").unwrap();
    assert_eq!(weights.len(), 4);

    let find = |signal: &str| weights.iter().find(|w| w.signal == signal).unwrap();
    assert_eq!(find("assigned_to_me").weight, 3);
    assert_eq!(find("priority_p1_blocker").weight, 4);
    assert_eq!(find("mentioned_in_comment").weight, 2);
    assert_eq!(find("deadline_24h").weight, 3);
}

#[test]
fn seed_weights_idempotent() {
    let mut db = Database::new_in_memory().unwrap();
    db.seed_default_weights().unwrap();
    db.seed_default_weights().unwrap();

    let weights = db.get_weights("jira").unwrap();
    assert_eq!(weights.len(), 4);
}

#[test]
fn upsert_with_taken_id_under_other_pair_is_refused() {
    let mut db = Database::new_in_memory().unwrap();
    db.upsert_item(&make_item()).unwrap();
    let mut other = make_item();
    other.source_id = "TEST-9".to_string();
    assert_eq!(db.upsert_item(&other), Err(StoreError::DuplicateItemId));
    assert_eq!(db.get_items(None, false, -1).unwrap().len(), 1);
}

#[test]
fn upsert_keeps_read_flag_whatever_the_incoming_flag() {
    let mut db = Database::new_in_memory().unwrap();
    let mut item = make_item();
    item.is_read = true;
    db.upsert_item(&item).unwrap();
    let mut again = make_item();
    again.is_read = false;
    again.title = "Retitled".to_string();
    again.item_type = "bug".to_string();
    db.upsert_item(&again).unwrap();
    let items = db.get_items(None, false, 10).unwrap();
    assert!(items[0].is_read);
    assert_eq!(items[0].title, "Retitled");
    assert_eq!(items[0].item_type, "bug");
    assert_eq!(items[0].created_at, 900);
}

#[test]
fn notification_for_unknown_item_is_refused() {
    let mut db = Database::new_in_memory().unwrap();
    assert_eq!(db.insert_notification(&make_notification()), Err(StoreError::UnknownItem));
    assert_eq!(StoreError::UnknownItem.message(), "FOREIGN KEY constraint failed");
}

#[test]
fn negative_limit_lists_everything_and_equal_times_keep_order() {
    let mut db = Database::new_in_memory().unwrap();
    for i in 0..3 {
        let mut item = make_item();
        item.id = format!("jira-TEST-{}", i);
        item.source_id = format!("TEST-{}", i);
        db.upsert_item(&item).unwrap();
    }
    let items = db.get_items(None, false, -1).unwrap();
    let ids: Vec<&str> = items.iter().map(|i| i.id.as_str()).collect();
    assert_eq!(ids, vec!["jira-TEST-0", "jira-TEST-1", "jira-TEST-2"]);
    assert_eq!(db.get_items(None, false, 0).unwrap().len(), 0);
}

#[test]
fn weight_with_taken_id_under_other_pair_is_refused() {
    let mut db = Database::new_in_memory().unwrap();
    db.seed_default_weights().unwrap();
    let w = nexus_hub::models::HeuristicWeight {
        id: "jira-assigned_to_me".to_string(),
        source: "github".to_string(),
        signal: "assigned_to_me".to_string(),
        weight: 9,
    };
    assert_eq!(db.upsert_weight(&w), Err(StoreError::DuplicateWeightId));
}

#[test]
fn active_notifications_newest_first() {
    let mut db = Database::new_in_memory().unwrap();
    db.upsert_item(&make_item()).unwrap();
    for (id, at) in [("a", 5i64), ("b", 9), ("c", 7)] {
        let mut n = make_notification();
        n.id = id.to_string();
        n.created_at = at;
        db.insert_notification(&n).unwrap();
    }
    let ids: Vec<String> = db.get_active_notifications().unwrap().into_iter().map(|n| n.id).collect();
    assert_eq!(ids, vec!["b", "c", "a"]);
}
