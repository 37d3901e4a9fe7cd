//! The resolver's precedence, and the type filter.

use tmz::cache::{Cache, CachedConversation};
use tmz::cli::ConvTypeFilter;
use tmz::config::AppConfig;
use tmz::resolver::{filter_by_type, resolve_target, ResolveError};

fn conv(id: &str, name: &str, product: &str, activity: &str) -> CachedConversation {
    CachedConversation {
        id: id.to_string(),
        display_name: name.to_string(),
        thread_type: String::new(),
        product_type: product.to_string(),
        last_message_preview: String::new(),
        last_message_from: String::new(),
        last_activity: activity.to_string(),
        messages_url: String::new(),
        member_names: String::new(),
        raw_json: "{}".to_string(),
    }
}

fn config_with_alias(name: &str, value: &str) -> AppConfig {
    let mut config = AppConfig::default();
    config.add_alias(name, value);
    config
}

#[test]
fn alias_with_canonical_id_skips_the_cache() {
    let config = config_with_alias("alex", "19:abc");
    let cache = Cache::new();
    // The cache is empty, yet the alias resolves directly.
    let r = resolve_target(&config, &cache, "alex");
    assert_eq!(r.unwrap(), "19:abc");
}

#[test]
fn alias_lookup_is_case_insensitive() {
    let config = config_with_alias("Alex", "19:abc");
    let cache = Cache::new();
    assert_eq!(resolve_target(&config, &cache, "alex").unwrap(), "19:abc");
    assert_eq!(resolve_target(&config, &cache, "ALEX").unwrap(), "19:abc");
}

#[test]
fn alias_value_reenters_fuzzy_matching() {
    let config = config_with_alias("boss", "Morgan");
    let mut cache = Cache::new();
    cache.upsert_conversation(&conv("19:m", "Morgan Reed", "OneToOneChat", "2026-02-17T10:00:00Z"));
    assert_eq!(resolve_target(&config, &cache, "boss").unwrap(), "19:m");
}

#[test]
fn unresolved_alias_names_both_strings() {
    let config = config_with_alias("boss", "Morgan");
    let cache = Cache::new();
    match resolve_target(&config, &cache, "boss") {
        Err(ResolveError::AliasUnresolved { alias, resolved }) => {
            assert_eq!(alias, "boss");
            assert_eq!(resolved, "Morgan");
        }
        other => panic!("expected an unresolved-alias error, got {other:?}"),
    }
}

#[test]
fn ambiguous_alias_lists_candidates() {
    let config = config_with_alias("team", "standup");
    let mut cache = Cache::new();
    cache.upsert_conversation(&conv("19:a", "standup east", "Chat", "2026-02-17T10:00:00Z"));
    cache.upsert_conversation(&conv("19:b", "standup west", "Chat", "2026-02-16T10:00:00Z"));
    match resolve_target(&config, &cache, "team") {
        Err(ResolveError::AmbiguousAlias { candidates }) => {
            assert_eq!(candidates.len(), 2);
        }
        other => panic!("expected an ambiguous-alias error, got {other:?}"),
    }
}

#[test]
fn canonical_id_passes_through_untouched() {
    let config = AppConfig::default();
    let cache = Cache::new();
    assert_eq!(resolve_target(&config, &cache, "19:raw@thread.v2").unwrap(), "19:raw@thread.v2");
}

#[test]
fn unique_fuzzy_match_resolves() {
    let config = AppConfig::default();
    let mut cache = Cache::new();
    cache.upsert_conversation(&conv("19:one", "Alex Chen", "OneToOneChat", "2026-02-17T10:00:00Z"));
    assert_eq!(resolve_target(&config, &cache, "alex").unwrap(), "19:one");
}

#[test]
fn two_fuzzy_matches_are_ambiguous() {
    let config = AppConfig::default();
    let mut cache = Cache::new();
    cache.upsert_conversation(&conv("19:one", "Alex Chen", "OneToOneChat", "2026-02-17T10:00:00Z"));
    cache.upsert_conversation(&conv("19:two", "Alexandra Day", "OneToOneChat", "2026-02-16T10:00:00Z"));
    match resolve_target(&config, &cache, "alex") {
        Err(ResolveError::AmbiguousTarget { candidates }) => {
            assert_eq!(candidates.len(), 2);
            assert_eq!(candidates[0].id, "19:one");
            assert_eq!(candidates[1].id, "19:two");
        }
        other => panic!("expected an ambiguous-target error, got {other:?}"),
    }
}

#[test]
fn no_match_is_an_error_not_a_default() {
    let config = AppConfig::default();
    let cache = Cache::new();
    match resolve_target(&config, &cache, "nobody") {
        Err(ResolveError::NoMatch { target }) => assert_eq!(target, "nobody"),
        other => panic!("expected a no-match error, got {other:?}"),
    }
}

#[test]
fn type_filter_narrows_candidates() {
    let list = vec![
        conv("19:a", "Topic", "OneToOneChat", "2026-02-17T10:00:00Z"),
        conv("19:b", "Topic", "TeamsStandardChannel", "2026-02-16T10:00:00Z"),
        conv("19:c", "Topic", "Chat", "2026-02-15T10:00:00Z"),
    ];
    let channels = filter_by_type(list.clone(), ConvTypeFilter::Channel);
    assert_eq!(channels.len(), 1);
    assert_eq!(channels[0].id, "19:b");
    let groups = filter_by_type(list, ConvTypeFilter::Group);
    assert_eq!(groups.len(), 1);
    assert_eq!(groups[0].id, "19:c");
}

#[test]
fn conv_type_filter_recognizes_product_tags() {
    assert!(ConvTypeFilter::OneToOne.matches("OneToOneChat"));
    assert!(ConvTypeFilter::OneToOne.matches("SfbInteropChat"));
    assert!(!ConvTypeFilter::OneToOne.matches("Chat"));
    assert!(ConvTypeFilter::Group.matches("Chat"));
    assert!(ConvTypeFilter::Channel.matches("TeamsPrivateChannel"));
    assert!(ConvTypeFilter::Channel.matches("TeamsTeam"));
    assert!(ConvTypeFilter::Meeting.matches("Meeting"));
    assert!(!ConvTypeFilter::Meeting.matches("MeetingChat"));
}
