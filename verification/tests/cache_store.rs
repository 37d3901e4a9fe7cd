//! The cache store: upsert semantics, ordering, search, assets.

use tmz::cache::{Cache, CachedConversation, CachedMessage};

fn conv(id: &str, name: &str, activity: &str) -> CachedConversation {
    CachedConversation {
        id: id.to_string(),
        display_name: name.to_string(),
        thread_type: "chat".to_string(),
        product_type: "OneToOneChat".to_string(),
        last_message_preview: String::new(),
        last_message_from: String::new(),
        last_activity: activity.to_string(),
        messages_url: String::new(),
        member_names: String::new(),
        raw_json: "{}".to_string(),
    }
}

fn msg(id: &str, conv_id: &str, body: &str, time: &str) -> CachedMessage {
    CachedMessage {
        id: id.to_string(),
        conversation_id: conv_id.to_string(),
        from_display_name: "Sam".to_string(),
        content: body.to_string(),
        content_html: body.to_string(),
        message_type: "Text".to_string(),
        compose_time: time.to_string(),
        is_from_me: false,
        raw_json: "{}".to_string(),
    }
}

#[test]
fn upsert_conversation_is_idempotent() {
    let mut cache = Cache::new();
    let c = conv("19:abc", "Planning", "2026-02-17T10:00:00Z");
    cache.upsert_conversation(&c);
    cache.upsert_conversation(&c);
    let stats = cache.stats();
    assert_eq!(stats.conversations, 1);
    let listed = cache.list_conversations(10);
    assert_eq!(listed.len(), 1);
    assert_eq!(listed[0].id, "19:abc");
    assert_eq!(listed[0].display_name, "Planning");
}

#[test]
fn upsert_conversation_overwrites_fields() {
    let mut cache = Cache::new();
    cache.upsert_conversation(&conv("19:abc", "Old Name", "2026-02-17T10:00:00Z"));
    let mut newer = conv("19:abc", "New Name", "2026-02-18T10:00:00Z");
    newer.last_message_preview = "hi".to_string();
    cache.upsert_conversation(&newer);
    let listed = cache.list_conversations(10);
    assert_eq!(listed.len(), 1);
    assert_eq!(listed[0].display_name, "New Name");
    assert_eq!(listed[0].last_message_preview, "hi");
}

#[test]
fn list_conversations_orders_by_activity_descending() {
    let mut cache = Cache::new();
    cache.upsert_conversation(&conv("19:a", "A", "2026-02-15T09:00:00Z"));
    cache.upsert_conversation(&conv("19:c", "C", "2026-02-17T09:00:00Z"));
    cache.upsert_conversation(&conv("19:b", "B", "2026-02-16T09:00:00Z"));
    let listed = cache.list_conversations(2);
    assert_eq!(listed.len(), 2);
    assert_eq!(listed[0].id, "19:c");
    assert_eq!(listed[1].id, "19:b");
}

#[test]
fn composite_key_keeps_both_messages() {
    let mut cache = Cache::new();
    cache.upsert_message(&msg("100", "19:a", "first", "2026-02-17T10:00:00Z"));
    cache.upsert_message(&msg("100", "19:b", "second", "2026-02-17T11:00:00Z"));
    assert_eq!(cache.stats().messages, 2);
    let in_a = cache.get_messages("19:a", 10);
    let in_b = cache.get_messages("19:b", 10);
    assert_eq!(in_a.len(), 1);
    assert_eq!(in_b.len(), 1);
    assert_eq!(in_a[0].content, "first");
    assert_eq!(in_b[0].content, "second");
}

#[test]
fn upsert_message_is_idempotent_and_overwrites() {
    let mut cache = Cache::new();
    cache.upsert_message(&msg("100", "19:a", "draft", "2026-02-17T10:00:00Z"));
    cache.upsert_message(&msg("100", "19:a", "final text", "2026-02-17T10:00:00Z"));
    assert_eq!(cache.stats().messages, 1);
    let msgs = cache.get_messages("19:a", 10);
    assert_eq!(msgs[0].content, "final text");
}

#[test]
fn get_messages_returns_chronological_order() {
    let mut cache = Cache::new();
    cache.upsert_message(&msg("1", "19:a", "one", "2026-02-17T10:00:00Z"));
    cache.upsert_message(&msg("3", "19:a", "three", "2026-02-17T12:00:00Z"));
    cache.upsert_message(&msg("2", "19:a", "two", "2026-02-17T11:00:00Z"));
    let msgs = cache.get_messages("19:a", 10);
    assert_eq!(msgs.len(), 3);
    assert_eq!(msgs[0].content, "one");
    assert_eq!(msgs[1].content, "two");
    assert_eq!(msgs[2].content, "three");
    // The limit keeps the most recent ones.
    let recent = cache.get_messages("19:a", 2);
    assert_eq!(recent.len(), 2);
    assert_eq!(recent[0].content, "two");
    assert_eq!(recent[1].content, "three");
}

#[test]
fn search_finds_exactly_the_matching_messages() {
    let mut cache = Cache::new();
    cache.upsert_conversation(&conv("19:a", "Project", "2026-02-17T10:00:00Z"));
    cache.upsert_message(&msg("1", "19:a", "the deadline is monday", "2026-02-17T10:00:00Z"));
    cache.upsert_message(&msg("2", "19:a", "Deadline moved", "2026-02-17T11:00:00Z"));
    cache.upsert_message(&msg("3", "19:a", "lunch plans", "2026-02-17T12:00:00Z"));
    cache.upsert_message(&msg("4", "19:b", "another DEADLINE", "2026-02-17T13:00:00Z"));
    let hits = cache.search("deadline", 10);
    assert_eq!(hits.len(), 3);
    // Newest first, joined with the conversation name (outer join: the
    // uncached conversation yields an empty name).
    assert_eq!(hits[0].message.id, "4");
    assert_eq!(hits[0].conversation_name, "");
    assert_eq!(hits[1].message.id, "2");
    assert_eq!(hits[1].conversation_name, "Project");
    assert_eq!(hits[2].message.id, "1");
}

#[test]
fn search_excludes_message_after_body_update() {
    let mut cache = Cache::new();
    cache.upsert_message(&msg("1", "19:a", "deadline friday", "2026-02-17T10:00:00Z"));
    cache.upsert_message(&msg("2", "19:a", "deadline sunday", "2026-02-17T11:00:00Z"));
    assert_eq!(cache.search("deadline", 10).len(), 2);
    // Re-ingesting the same message with a body that no longer contains
    // the token keeps the index in sync.
    cache.upsert_message(&msg("2", "19:a", "all done", "2026-02-17T11:00:00Z"));
    let hits = cache.search("deadline", 10);
    assert_eq!(hits.len(), 1);
    assert_eq!(hits[0].message.id, "1");
}

#[test]
fn search_in_conversation_scopes_results() {
    let mut cache = Cache::new();
    cache.upsert_message(&msg("1", "19:a", "budget report", "2026-02-17T10:00:00Z"));
    cache.upsert_message(&msg("2", "19:b", "budget review", "2026-02-17T11:00:00Z"));
    let hits = cache.search_in_conversation("budget", "19:a", 10);
    assert_eq!(hits.len(), 1);
    assert_eq!(hits[0].message.id, "1");
}

#[test]
fn search_matches_sender_name() {
    let mut cache = Cache::new();
    let mut m = msg("1", "19:a", "hello", "2026-02-17T10:00:00Z");
    m.from_display_name = "Robin Banks".to_string();
    cache.upsert_message(&m);
    assert_eq!(cache.search("robin", 10).len(), 1);
    assert_eq!(cache.search("nothing", 10).len(), 0);
}

#[test]
fn find_conversation_matches_name_members_and_id() {
    let mut cache = Cache::new();
    let mut c1 = conv("19:abc", "Weekly Sync", "2026-02-17T10:00:00Z");
    c1.member_names = "Alex Doe, Kim Lee".to_string();
    cache.upsert_conversation(&c1);
    cache.upsert_conversation(&conv("19:xyz", "Random", "2026-02-16T10:00:00Z"));
    assert_eq!(cache.find_conversation("weekly").len(), 1);
    assert_eq!(cache.find_conversation("alex").len(), 1);
    assert_eq!(cache.find_conversation("19:xyz").len(), 1);
    assert_eq!(cache.find_conversation("absent").len(), 0);
}

#[test]
fn find_conversation_caps_results_at_ten() {
    let mut cache = Cache::new();
    for i in 0..15 {
        let id = format!("19:room{i}");
        let time = format!("2026-02-17T10:{i:02}:00Z");
        cache.upsert_conversation(&conv(&id, "room", &time));
    }
    assert_eq!(cache.find_conversation("room").len(), 10);
}

#[test]
fn latest_across_chats_groups_recent_messages() {
    let mut cache = Cache::new();
    cache.upsert_conversation(&conv("19:a", "A", "2026-02-17T10:00:00Z"));
    cache.upsert_conversation(&conv("19:b", "B", "2026-02-18T10:00:00Z"));
    cache.upsert_conversation(&conv("19:c", "C", "2026-02-16T10:00:00Z"));
    cache.upsert_message(&msg("1", "19:a", "hi", "2026-02-17T09:00:00Z"));
    cache.upsert_message(&msg("2", "19:b", "hello", "2026-02-18T09:00:00Z"));
    let latest = cache.latest_across_chats(2, 5);
    // The two most recent conversations both have messages.
    assert_eq!(latest.len(), 2);
    assert_eq!(latest[0].0.id, "19:b");
    assert_eq!(latest[1].0.id, "19:a");
    // A conversation without cached messages is skipped.
    let wider = cache.latest_across_chats(3, 5);
    assert_eq!(wider.len(), 2);
}

#[test]
fn image_store_replaces_by_url_and_prunes_by_age() {
    let mut cache = Cache::new();
    let now: i64 = 1_700_000_000;
    cache.cache_image("https://example.test/a.png", &[1, 2, 3], "image/png", now - 10 * 86400);
    cache.cache_image("https://example.test/b.png", &[4, 5], "image/png", now);
    assert!(cache.has_image("https://example.test/a.png"));
    assert!(!cache.has_image("https://example.test/c.png"));
    // Replacing by URL keeps one row.
    cache.cache_image("https://example.test/b.png", &[9, 9, 9], "image/png", now);
    assert_eq!(cache.stats().images, 2);
    assert_eq!(cache.get_image("https://example.test/b.png"), Some(vec![9, 9, 9]));
    assert_eq!(cache.stats().image_bytes, 6);
    // Pruning removes only assets older than the cutoff.
    let removed = cache.prune_images(7, now);
    assert_eq!(removed, 1);
    assert!(!cache.has_image("https://example.test/a.png"));
    assert!(cache.has_image("https://example.test/b.png"));
}

#[test]
fn stats_counts_every_table() {
    let mut cache = Cache::new();
    assert_eq!(cache.stats().conversations, 0);
    cache.upsert_conversation(&conv("19:a", "A", "2026-02-17T10:00:00Z"));
    cache.upsert_message(&msg("1", "19:a", "hi", "2026-02-17T09:00:00Z"));
    cache.cache_image("u", &[7; 10], "image/png", 0);
    let stats = cache.stats();
    assert_eq!(stats.conversations, 1);
    assert_eq!(stats.messages, 1);
    assert_eq!(stats.images, 1);
    assert_eq!(stats.image_bytes, 10);
}
