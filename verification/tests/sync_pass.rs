//! Payload translation and the end-to-end sync ingestion scenario.

use tmz::cache::Cache;
use tmz::ingest::{ingest_conversations, ingest_messages, parse_conversation, parse_message};

fn payload(text: &str) -> serde_json::Value {
    serde_json::from_str(text).expect("test payload must be valid JSON")
}

fn conv_payload(id: &str, topic: &str, time: &str) -> serde_json::Value {
    payload(&format!(
        "{{\"id\":\"{id}\",\"threadProperties\":{{\"topic\":\"{topic}\",\"productThreadType\":\"Chat\",\"threadType\":\"chat\"}},\"lastMessage\":{{\"imdisplayname\":\"Sam\",\"content\":\"<p>hi</p>\",\"composetime\":\"{time}\"}},\"messages\":\"https://chat.example.test/{id}\"}}"
    ))
}

fn msg_payload(id: &str, body: &str, time: &str) -> serde_json::Value {
    payload(&format!(
        "{{\"id\":\"{id}\",\"messagetype\":\"Text\",\"content\":\"{body}\",\"imdisplayname\":\"Sam\",\"composetime\":\"{time}\",\"isFromMe\":false}}"
    ))
}

#[test]
fn parse_conversation_reads_the_fixed_fields() {
    let record = parse_conversation(&conv_payload("19:a", "Planning", "2026-02-17T10:00:00Z"));
    assert_eq!(record.id, "19:a");
    assert_eq!(record.display_name, "Planning");
    assert_eq!(record.product_type, "Chat");
    assert_eq!(record.last_message_preview, "hi");
    assert_eq!(record.last_message_from, "Sam");
    assert_eq!(record.last_activity, "2026-02-17T10:00:00Z");
    assert_eq!(record.member_names, "");
}

#[test]
fn parse_conversation_derives_display_name_without_topic() {
    let v = payload(
        "{\"id\":\"19:x\",\"threadProperties\":{\"productThreadType\":\"OneToOneChat\"},\"lastMessage\":{\"imdisplayname\":\"Kim\"}}",
    );
    assert_eq!(parse_conversation(&v).display_name, "Kim");
    let bare = payload(
        "{\"id\":\"19:y\",\"threadProperties\":{\"productThreadType\":\"OneToOneChat\"}}",
    );
    assert_eq!(parse_conversation(&bare).display_name, "OneToOneChat");
}

#[test]
fn parse_conversation_tolerates_missing_fields() {
    let record = parse_conversation(&payload("{}"));
    assert_eq!(record.id, "");
    assert_eq!(record.last_activity, "");
}

#[test]
fn parse_message_filters_system_payloads() {
    let text = parse_message(&msg_payload("1", "hello", "2026-02-17T10:00:00Z"), "19:a");
    assert!(text.is_some());
    assert_eq!(text.unwrap().conversation_id, "19:a");
    let control = payload("{\"id\":\"2\",\"messagetype\":\"ThreadActivity/AddMember\"}");
    assert!(parse_message(&control, "19:a").is_none());
    let rich = payload("{\"id\":\"3\",\"messagetype\":\"RichText/Html\",\"content\":\"<b>x</b>\"}");
    let parsed = parse_message(&rich, "19:a").unwrap();
    assert_eq!(parsed.content, "x");
    assert_eq!(parsed.content_html, "<b>x</b>");
}

#[test]
fn sync_pass_ingests_conversations_and_messages() {
    let mut cache = Cache::new();

    // The sync pass first ingests every conversation payload.
    let convs = vec![
        conv_payload("19:a", "Alpha", "2026-02-15T10:00:00Z"),
        conv_payload("19:b", "Beta", "2026-02-17T10:00:00Z"),
        conv_payload("19:c", "Gamma", "2026-02-16T10:00:00Z"),
    ];
    let synced = ingest_conversations(&mut cache, &convs);
    assert_eq!(synced, 3);

    // Then it fetches messages for the top conversations by activity.
    let top = cache.list_conversations(2);
    assert_eq!(top.len(), 2);
    assert_eq!(top[0].id, "19:b");
    assert_eq!(top[1].id, "19:c");
    for conversation in &top {
        let batch: Vec<serde_json::Value> = (0..5)
            .map(|i| {
                msg_payload(
                    &format!("m{i}"),
                    &format!("note {i}"),
                    &format!("2026-02-17T0{i}:00:00Z"),
                )
            })
            .collect();
        let n = ingest_messages(&mut cache, &conversation.id, &batch);
        assert_eq!(n, 5);
    }

    let stats = cache.stats();
    assert_eq!(stats.conversations, 3);
    assert_eq!(stats.messages, 10);

    let listed = cache.list_conversations(2);
    assert_eq!(listed.len(), 2);
    assert_eq!(listed[0].id, "19:b");
    assert_eq!(listed[1].id, "19:c");
}

#[test]
fn reingesting_a_batch_creates_no_duplicates() {
    let mut cache = Cache::new();
    let convs = vec![conv_payload("19:a", "Alpha", "2026-02-15T10:00:00Z")];
    let batch = vec![msg_payload("m1", "hello", "2026-02-15T09:00:00Z")];
    ingest_conversations(&mut cache, &convs);
    ingest_messages(&mut cache, "19:a", &batch);
    ingest_conversations(&mut cache, &convs);
    ingest_messages(&mut cache, "19:a", &batch);
    let stats = cache.stats();
    assert_eq!(stats.conversations, 1);
    assert_eq!(stats.messages, 1);
}

#[test]
fn ingest_skips_unrecognized_message_types() {
    let mut cache = Cache::new();
    let batch = vec![
        msg_payload("m1", "hello", "2026-02-15T09:00:00Z"),
        payload("{\"id\":\"m2\",\"messagetype\":\"Event/Call\"}"),
    ];
    let n = ingest_messages(&mut cache, "19:a", &batch);
    assert_eq!(n, 1);
    assert_eq!(cache.stats().messages, 1);
}
