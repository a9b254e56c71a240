use nexus_hub::plugin_runtime::{
    decode_item, item_from_members, notification_from_members, parse_plugin_result, result_from_members,
};

#[test]
fn parse_valid_json() {
    let json = r#"{
        "items": [{
            "id": "jira-TEST-1",
            "source": "jira",
            "sourceId": "TEST-1",
            "type": "ticket",
            "title": "Fix login bug",
            "summary": "Users cannot log in",
            "url": "https://jira.example.com/browse/TEST-1",
            "author": "alice",
            "timestamp": 1000,
            "metadata": {},
            "tags": ["bug"]
        }],
        "notifications": [{
            "itemId": "jira-TEST-1",
            "reason": "assigned",
            "urgency": "medium"
        }]
    }"#;
    let result = parse_plugin_result(json).unwrap();
    assert_eq!(result.items.len(), 1);
    assert_eq!(result.notifications.len(), 1);
    assert_eq!(result.items[0].id, "jira-TEST-1");
    assert_eq!(result.items[0].source_id, "TEST-1");
    assert_eq!(result.items[0].item_type, "ticket");
    assert_eq!(result.items[0].title, "Fix login bug");
    assert_eq!(result.items[0].summary, Some("Users cannot log in".to_string()));
}

#[test]
fn parse_empty_arrays() {
    let json = r#"{"items":[],"notifications":[]}"#;
    let result = parse_plugin_result(json).unwrap();
    assert!(result.items.is_empty());
    assert!(result.notifications.is_empty());
}

#[test]
fn parse_invalid_json() {
    let result = parse_plugin_result("not json at all");
    assert!(result.is_err());
    assert!(result.unwrap_err().contains("Failed to parse plugin result"));
}

#[test]
fn parse_missing_items() {
    let json = r#"{"notifications":[]}"#;
    let result = parse_plugin_result(json);
    assert!(result.is_err());
}

#[test]
fn parse_missing_notifications() {
    let json = r#"{"items":[]}"#;
    let result = parse_plugin_result(json);
    assert!(result.is_err());
}

#[test]
fn parse_with_notifications() {
    let json = r#"{
        "items": [],
        "notifications": [{
            "itemId": "jira-PROJ-99",
            "reason": "mentioned_in_comment",
            "urgency": "high"
        }]
    }"#;
    let result = parse_plugin_result(json).unwrap();
    assert_eq!(result.notifications.len(), 1);
    assert_eq!(result.notifications[0].item_id, "jira-PROJ-99");
    assert_eq!(result.notifications[0].reason, "mentioned_in_comment");
    assert_eq!(result.notifications[0].urgency, "high");
}

#[test]
fn parse_with_metadata() {
    let json = r#"{
        "items": [{
            "id": "jira-META-1",
            "source": "jira",
            "sourceId": "META-1",
            "type": "ticket",
            "title": "Metadata test",
            "summary": null,
            "url": "https://example.com",
            "author": null,
            "timestamp": 2000,
            "metadata": {"status": "in_progress", "sprint": 42, "labels": ["backend", "api"]},
            "tags": ["infra"]
        }],
        "notifications": []
    }"#;
    let result = parse_plugin_result(json).unwrap();
    let meta: serde_json::Value = serde_json::from_str(&result.items[0].metadata).unwrap();
    assert!(meta.is_object());
    assert_eq!(meta["status"], "in_progress");
    assert_eq!(meta["sprint"], 42);
    assert!(meta["labels"].is_array());
    assert_eq!(meta["labels"][0], "backend");
    assert_eq!(meta["labels"][1], "api");
}

#[test]
fn parse_failure_message_has_bounded_preview() {
    let long = format!("{{\"items\":[], \"pad\":\"{}\"}}", "x".repeat(300));
    let err = parse_plugin_result(&long).unwrap_err();
    assert!(err.starts_with("Failed to parse plugin result: missing field `notifications`"));
    let preview: String = long.chars().take(200).collect();
    assert!(err.ends_with(&format!(" (received: {}...)", preview)));
}

#[test]
fn item_fields_decoded_with_escapes_and_defaults() {
    let text = r#"{"id":"a\"1","source":"s","sourceId":"x","type":"t","title":"café",
        "url":"u","timestamp":-5,"metadata":[1, 2],"tags":[]}"#;
    let it = decode_item(text).unwrap();
    assert_eq!(it.id, "a\"1");
    assert_eq!(it.title, "café");
    assert_eq!(it.summary, None);
    assert_eq!(it.author, None);
    assert_eq!(it.timestamp, -5);
    assert_eq!(it.metadata, "[1,2]");
    assert!(it.tags.is_empty());
}

#[test]
fn item_with_bad_field_types_is_refused() {
    let base = |ts: &str, tags: &str, summary: &str| {
        format!(
            r#"{{"id":"a","source":"s","sourceId":"x","type":"t","title":"T","url":"u","timestamp":{},"metadata":null,"tags":{},"summary":{}}}"#,
            ts, tags, summary
        )
    };
    assert!(decode_item(&base("1", "[\"a\"]", "\"s\"")).is_ok());
    assert!(decode_item(&base("1.5", "[]", "null")).is_err());
    assert!(decode_item(&base("1", "[1]", "null")).is_err());
    assert!(decode_item(&base("1", "[]", "3")).is_err());
    assert!(decode_item(r#"{"id":"a"}"#).is_err());
    assert!(decode_item("[1]").is_err());
}

fn members(pairs: &[(&str, &str)]) -> Vec<(String, String)> {
    pairs.iter().map(|(k, v)| (k.to_string(), v.to_string())).collect()
}

#[test]
fn members_map_to_fields() {
    let it = item_from_members(&members(&[
        ("id", "\"i\""),
        ("source", "\"jira\""),
        ("sourceId", "\"J-1\""),
        ("type", "\"ticket\""),
        ("title", "\"T\""),
        ("url", "\"u\""),
        ("timestamp", "7"),
        ("metadata", "{\"a\":1}"),
        ("tags", "[\"x\"]"),
        ("author", "null"),
    ]))
    .unwrap();
    assert_eq!(it.source_id, "J-1");
    assert_eq!(it.item_type, "ticket");
    assert_eq!(it.author, None);
    assert_eq!(it.tags, vec!["x".to_string()]);
    assert_eq!(it.metadata, "{\"a\":1}");
    let missing_source_id = members(&[("id", "\"i\""), ("source", "\"jira\""), ("source_id", "\"J-1\"")]);
    assert_eq!(item_from_members(&missing_source_id).unwrap_err(), "missing field `sourceId`");
    let n = notification_from_members(&members(&[
        ("itemId", "\"i\""),
        ("reason", "\"r\""),
        ("urgency", "\"low\""),
    ]))
    .unwrap();
    assert_eq!(n.item_id, "i");
    assert_eq!(
        result_from_members(&members(&[("items", "[]")])).unwrap_err(),
        "missing field `notifications`"
    );
    assert_eq!(
        result_from_members(&members(&[("notifications", "[]"), ("items", "{}")])).unwrap_err(),
        "invalid type for field `items`"
    );
    assert!(result_from_members(&members(&[("notifications", "[]"), ("items", "[]")])).is_ok());
}
