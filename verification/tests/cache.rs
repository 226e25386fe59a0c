use adk_runtime::cache::key::CacheKey;
use adk_runtime::cache::manager::{CacheManager, ContextCacheConfig, MAX_CACHE_ENTRIES};
use adk_runtime::cache::metrics::{
    CacheMetrics, CachePerformanceAnalyzer, Event, Quotient, UsageMetadata,
};
use adk_runtime::cache::tool_name::write_name;

fn default_config() -> ContextCacheConfig {
    ContextCacheConfig { min_tokens: 4096, ttl_seconds: 600, cache_intervals: 3 }
}

fn key(agent: &str, instruction: &str) -> CacheKey {
    CacheKey::new("gemini-2.5-flash", agent, instruction, &[])
}

fn tools(names: &[&str]) -> Vec<String> {
    names.iter().map(|name| name.to_string()).collect()
}

#[test]
fn a_new_manager_holds_nothing() {
    let cm = CacheManager::new(default_config());
    assert_eq!(cm.len(), 0);
    assert!(cm.cache_name_for(&key("a", "be helpful")).is_none());
}

#[test]
fn test_is_enabled_with_valid_config() {
    let cm = CacheManager::new(default_config());
    assert!(cm.is_enabled());
}

#[test]
fn test_is_enabled_false_when_min_tokens_zero() {
    let config = ContextCacheConfig { min_tokens: 0, ttl_seconds: 600, cache_intervals: 3 };
    assert!(!CacheManager::new(config).is_enabled());
}

#[test]
fn test_is_enabled_false_when_ttl_zero() {
    let config = ContextCacheConfig { min_tokens: 4096, ttl_seconds: 0, cache_intervals: 3 };
    assert!(!CacheManager::new(config).is_enabled());
}

#[test]
fn unknown_material_needs_a_cache() {
    let cm = CacheManager::new(default_config());
    assert!(cm.needs_refresh(&key("a", "be helpful")));
}

#[test]
fn a_stored_cache_is_reused_until_its_interval_elapses() {
    let mut cm = CacheManager::new(default_config());
    let k = key("a", "be helpful");
    cm.store(k.clone(), "cachedContents/1".to_string());

    assert!(!cm.needs_refresh(&k));
    assert_eq!(cm.record_invocation(&k), Some("cachedContents/1"));
    assert_eq!(cm.record_invocation(&k), Some("cachedContents/1"));
    assert!(!cm.needs_refresh(&k));
    assert_eq!(cm.record_invocation(&k), Some("cachedContents/1"));
    assert!(cm.needs_refresh(&k), "three invocations reaches cache_intervals");
}

#[test]
fn different_agents_do_not_share_a_cache() {
    // A cache made while one sub-agent was selected must not be attached to a
    // request for another.
    let mut cm = CacheManager::new(default_config());
    cm.store(key("planner", "plan carefully"), "cachedContents/planner".to_string());

    assert!(cm.cache_name_for(&key("writer", "plan carefully")).is_none());
    assert!(cm.needs_refresh(&key("writer", "plan carefully")));
}

#[test]
fn changed_instruction_material_invalidates_reuse() {
    let mut cm = CacheManager::new(default_config());
    cm.store(key("a", "be helpful"), "cachedContents/1".to_string());

    assert!(
        cm.needs_refresh(&key("a", "be terse")),
        "a cache must not be reused for different instruction material"
    );
}

#[test]
fn different_models_do_not_share_a_cache() {
    let mut cm = CacheManager::new(default_config());
    cm.store(
        CacheKey::new("gemini-2.5-flash", "a", "be helpful", &[]),
        "cachedContents/flash".to_string(),
    );
    let other = CacheKey::new("gemini-3-pro", "a", "be helpful", &[]);
    assert!(cm.cache_name_for(&other).is_none());
}

#[test]
fn tool_order_does_not_change_identity() {
    let one = CacheKey::new("m", "a", "i", &["b".to_string(), "a".to_string()]);
    let two = CacheKey::new("m", "a", "i", &["a".to_string(), "b".to_string()]);
    assert_eq!(one, two);
}

#[test]
fn storing_the_same_material_twice_reports_the_replaced_name() {
    let mut cm = CacheManager::new(default_config());
    let k = key("a", "be helpful");
    assert!(cm.store(k.clone(), "cachedContents/1".to_string()).is_empty());

    let replaced = cm.store(k, "cachedContents/2".to_string());
    assert_eq!(
        replaced,
        vec!["cachedContents/1".to_string()],
        "the superseded cache must be reported so it can be deleted provider-side"
    );
    assert_eq!(cm.len(), 1);
}

#[test]
fn the_map_is_bounded_and_reports_evictions() {
    let mut cm = CacheManager::new(default_config());
    let mut evicted = Vec::new();
    for index in 0..(MAX_CACHE_ENTRIES + 4) {
        evicted.extend(cm.store(key(&format!("agent-{index}"), "i"), format!("cache/{index}")));
    }

    assert_eq!(cm.len(), MAX_CACHE_ENTRIES, "the cache map must stay bounded");
    assert_eq!(evicted.len(), 4, "each eviction must be reported for deletion");
    assert_eq!(evicted[0], "cache/0", "the oldest entry is evicted first");
}

#[test]
fn a_full_lifecycle_stays_keyed() {
    let mut cm = CacheManager::new(ContextCacheConfig {
        min_tokens: 1024,
        ttl_seconds: 300,
        cache_intervals: 2,
    });
    let k = key("a", "be helpful");

    assert!(cm.is_enabled());
    assert!(cm.needs_refresh(&k), "nothing is cached yet");

    cm.store(k.clone(), "cachedContents/first".to_string());
    assert_eq!(cm.record_invocation(&k), Some("cachedContents/first"));
    assert!(!cm.needs_refresh(&k));
    assert_eq!(cm.record_invocation(&k), Some("cachedContents/first"));
    assert!(cm.needs_refresh(&k), "two invocations reaches cache_intervals");

    let replaced = cm.store(k.clone(), "cachedContents/second".to_string());
    assert_eq!(replaced, vec!["cachedContents/first".to_string()]);
    assert!(!cm.needs_refresh(&k), "a fresh cache resets the interval");
}

#[test]
fn the_material_is_readable_and_sorted() {
    let key = CacheKey::new("m", "a", "be helpful", &tools(&["search", "éclair", "Zip", "fetch"]));
    let shown = format!("{key:?}");
    assert!(shown.contains("be helpful\\u{1f}Zip,fetch,search,éclair"), "{shown}");
}

#[test]
fn repeated_tool_names_are_part_of_identity() {
    let once = CacheKey::new("m", "a", "i", &tools(&["x"]));
    let twice = CacheKey::new("m", "a", "i", &tools(&["x", "x"]));
    assert_ne!(once, twice);
    assert_eq!(twice, CacheKey::new("m", "a", "i", &tools(&["x", "x"])));
}

#[test]
fn other_tools_or_instructions_are_another_identity() {
    let base = CacheKey::new("m", "a", "i", &tools(&["b", "a"]));
    assert_ne!(base, CacheKey::new("m", "a", "i", &tools(&["a", "c"])));
    assert_ne!(base, CacheKey::new("m", "a", "j", &tools(&["a", "b"])));
    assert_ne!(base, CacheKey::new("n", "a", "i", &tools(&["a", "b"])));
    assert_ne!(base, CacheKey::new("m", "b", "i", &tools(&["a", "b"])));
}

#[test]
fn contexts_that_would_read_alike_have_different_keys() {
    let of = |instruction: &str, names: &[&str]| {
        CacheKey::new("m", "a", instruction, &tools(names))
    };
    assert_ne!(of("i", &["a,b"]), of("i", &["a", "b"]));
    assert_ne!(of("i", &[]), of("i", &[""]));
    assert_ne!(of("i", &[""]), of("i", &["", ""]));
    assert_ne!(of("i", &[""]), of("i", &["\\e"]));
    assert_ne!(of("x\u{1f}y", &[]), of("x", &["y\u{1f}"]));
    assert_ne!(of("x\u{1f}", &["y"]), of("x", &["\u{1f}y"]));
    assert_ne!(of("i", &["a\\cb"]), of("i", &["a,b"]));
    assert_ne!(of("i", &["\\"]), of("i", &["\\\\"]));
    assert_eq!(of("i", &["a,b", "\\", ""]), of("i", &["", "\\", "a,b"]));
}

#[test]
fn tool_names_are_written_like_this() {
    assert_eq!(write_name("search"), "search");
    assert_eq!(write_name(""), "\\e");
    assert_eq!(write_name("a,b\\c\u{1f}d\u{e9}"), "a\\cb\\\\c\\ud\u{e9}");
}

#[test]
fn an_invocation_without_a_cache_has_no_name() {
    let mut cm = CacheManager::new(default_config());
    assert_eq!(cm.record_invocation(&key("a", "i")), None);
    cm.store(key("a", "i"), "cache/a".to_string());
    assert_eq!(cm.record_invocation(&key("b", "i")), None);
    assert_eq!(cm.record_invocation(&key("a", "i")), Some("cache/a"));
}

#[test]
fn storing_again_keeps_the_place_in_line() {
    // The first context keeps its age when its cache is renewed, so it still leaves first.
    let mut cm = CacheManager::new(default_config());
    for index in 0..MAX_CACHE_ENTRIES {
        assert!(cm.store(key(&format!("agent-{index}"), "i"), format!("cache/{index}")).is_empty());
    }
    assert_eq!(cm.store(key("agent-0", "i"), "renewed".to_string()), vec!["cache/0".to_string()]);
    assert_eq!(cm.store(key("late", "i"), "late".to_string()), vec!["renewed".to_string()]);
    assert!(cm.cache_name_for(&key("agent-0", "i")).is_none());
    assert_eq!(cm.cache_name_for(&key("agent-1", "i")), Some("cache/1"));
    assert_eq!(cm.cache_name_for(&key("late", "i")), Some("late"));
    assert_eq!(cm.len(), MAX_CACHE_ENTRIES);
}

#[test]
fn every_name_is_held_or_reported() {
    let mut cm = CacheManager::new(default_config());
    let mut reported = Vec::new();
    for index in 0..60 {
        let agent = format!("agent-{}", (index * 7) % 23);
        reported.extend(cm.store(key(&agent, "i"), format!("cache/{index}")));
    }
    let mut held = Vec::new();
    for agent in 0..23 {
        if let Some(name) = cm.cache_name_for(&key(&format!("agent-{agent}"), "i")) {
            held.push(name.to_string());
        }
    }
    assert_eq!(held.len(), cm.len());
    let mut all = [reported, held].concat();
    all.sort();
    let mut stored: Vec<String> = (0..60).map(|index| format!("cache/{index}")).collect();
    stored.sort();
    assert_eq!(all, stored);
}

#[test]
fn an_interval_of_nothing_is_always_due() {
    let config = ContextCacheConfig { min_tokens: 1, ttl_seconds: 1, cache_intervals: 0 };
    let mut cm = CacheManager::new(config);
    let k = key("a", "i");
    cm.store(k.clone(), "cache/a".to_string());
    assert!(cm.needs_refresh(&k));
}

#[test]
fn a_mix_of_stores_and_invocations() {
    let config = ContextCacheConfig { min_tokens: 1, ttl_seconds: 1, cache_intervals: 2 };
    let mut used = CacheManager::new(config);
    let mut unused = CacheManager::new(config);
    let mut reported = Vec::new();
    let mut invocations = [0u32; 20];
    for index in 0..50 {
        let agent = (index * 3) % 20;
        let k = key(&format!("agent-{agent}"), "i");
        let name = format!("cache/{index}");
        let gone = used.store(k.clone(), name.clone());
        // Invocations change nothing about a store.
        assert_eq!(gone, unused.store(k, name));
        reported.extend(gone);
        invocations[agent] = 0;
        let other = (index * 7 + 1) % 20;
        used.record_invocation(&key(&format!("agent-{other}"), "i"));
        invocations[other] += 1;
        for agent in 0..20 {
            let k = key(&format!("agent-{agent}"), "i");
            assert_eq!(used.cache_name_for(&k), unused.cache_name_for(&k));
            let live = used.cache_name_for(&k).is_some();
            assert_eq!(used.needs_refresh(&k), !live || invocations[agent] >= 2);
        }
    }
    assert_eq!(reported.len() + used.len(), 50);
}

fn event_with_usage(
    prompt: i32,
    _candidates: i32,
    cache_read: Option<i32>,
    cache_creation: Option<i32>,
) -> Event {
    Event {
        usage_metadata: Some(UsageMetadata {
            prompt_token_count: prompt,
            cache_read_input_token_count: cache_read,
            cache_creation_input_token_count: cache_creation,
        }),
    }
}

fn event_without_usage() -> Event {
    Event { usage_metadata: None }
}

fn value(quotient: Quotient) -> f64 {
    quotient.numerator as f64 / quotient.denominator as f64
}

fn percentage(quotient: Quotient) -> f64 {
    value(quotient) * 100.0
}

#[test]
fn test_analyze_empty_events() {
    let metrics = CachePerformanceAnalyzer::analyze(&[]);
    assert_eq!(metrics.total_requests, 0);
    assert_eq!(metrics.requests_with_cache_hits, 0);
    assert_eq!(percentage(metrics.cache_hit_ratio), 0.0);
    assert_eq!(percentage(metrics.cache_utilization_ratio), 0.0);
}

#[test]
fn test_analyze_single_event_no_cache() {
    let events = vec![event_with_usage(1000, 200, None, None)];
    let metrics = CachePerformanceAnalyzer::analyze(&events);
    assert_eq!(metrics.total_requests, 1);
    assert_eq!(metrics.requests_with_cache_hits, 0);
    assert_eq!(metrics.total_prompt_tokens, 1000);
    assert_eq!(metrics.total_cache_read_tokens, 0);
    assert_eq!(metrics.total_cache_creation_tokens, 0);
    assert_eq!(percentage(metrics.cache_hit_ratio), 0.0);
    assert_eq!(percentage(metrics.cache_utilization_ratio), 0.0);
    assert_eq!(value(metrics.avg_cached_tokens_per_request), 0.0);
}

#[test]
fn test_analyze_single_event_with_cache_hit() {
    let events = vec![event_with_usage(1000, 200, Some(500), None)];
    let metrics = CachePerformanceAnalyzer::analyze(&events);
    assert_eq!(metrics.total_requests, 1);
    assert_eq!(metrics.requests_with_cache_hits, 1);
    assert_eq!(metrics.total_prompt_tokens, 1000);
    assert_eq!(metrics.total_cache_read_tokens, 500);
    assert_eq!(percentage(metrics.cache_hit_ratio), 50.0);
    assert_eq!(percentage(metrics.cache_utilization_ratio), 100.0);
    assert_eq!(value(metrics.avg_cached_tokens_per_request), 500.0);
}

#[test]
fn test_analyze_mixed_events() {
    let events = vec![
        event_with_usage(1000, 200, Some(800), Some(200)),
        event_with_usage(1000, 300, None, None),
        event_with_usage(1000, 100, Some(600), None),
        event_without_usage(), // skipped
    ];
    let metrics = CachePerformanceAnalyzer::analyze(&events);
    assert_eq!(metrics.total_requests, 3);
    assert_eq!(metrics.requests_with_cache_hits, 2);
    assert_eq!(metrics.total_prompt_tokens, 3000);
    assert_eq!(metrics.total_cache_read_tokens, 1400);
    assert_eq!(metrics.total_cache_creation_tokens, 200);
    // cache_hit_ratio = 1400 / 3000 * 100
    assert!((percentage(metrics.cache_hit_ratio) - 46.666_666_666_666_664).abs() < 1e-10);
    // cache_utilization_ratio = 2 / 3 * 100
    assert!((percentage(metrics.cache_utilization_ratio) - 66.666_666_666_666_66).abs() < 1e-10);
    // avg_cached_tokens_per_request = 1400 / 3
    assert!((value(metrics.avg_cached_tokens_per_request) - 466.666_666_666_666_7).abs() < 1e-10);
}

#[test]
fn test_analyze_all_cache_hits() {
    let events = vec![
        event_with_usage(500, 100, Some(500), None),
        event_with_usage(500, 100, Some(500), None),
    ];
    let metrics = CachePerformanceAnalyzer::analyze(&events);
    assert_eq!(metrics.total_requests, 2);
    assert_eq!(metrics.requests_with_cache_hits, 2);
    assert_eq!(percentage(metrics.cache_hit_ratio), 100.0);
    assert_eq!(percentage(metrics.cache_utilization_ratio), 100.0);
    assert_eq!(value(metrics.avg_cached_tokens_per_request), 500.0);
}

#[test]
fn test_analyze_zero_prompt_tokens() {
    // Edge case: usage metadata present but prompt_token_count is 0
    let events = vec![event_with_usage(0, 100, None, None)];
    let metrics = CachePerformanceAnalyzer::analyze(&events);
    assert_eq!(metrics.total_requests, 1);
    assert_eq!(metrics.total_prompt_tokens, 0);
    // cache_hit_ratio stays 0.0 (no division by zero)
    assert_eq!(percentage(metrics.cache_hit_ratio), 0.0);
    assert_eq!(percentage(metrics.cache_utilization_ratio), 0.0);
}

#[test]
fn test_analyze_cache_creation_only() {
    let events = vec![event_with_usage(2000, 500, None, Some(1500))];
    let metrics = CachePerformanceAnalyzer::analyze(&events);
    assert_eq!(metrics.total_requests, 1);
    assert_eq!(metrics.requests_with_cache_hits, 0);
    assert_eq!(metrics.total_cache_creation_tokens, 1500);
    assert_eq!(percentage(metrics.cache_hit_ratio), 0.0);
    assert_eq!(percentage(metrics.cache_utilization_ratio), 0.0);
}

#[test]
fn the_quotients_are_exact() {
    let metrics = CachePerformanceAnalyzer::analyze(&[
        event_with_usage(7, 0, Some(3), None),
        event_with_usage(i32::MAX, 0, Some(0), Some(i32::MIN)),
    ]);
    assert_eq!(
        metrics,
        CacheMetrics {
            total_requests: 2,
            requests_with_cache_hits: 1,
            total_prompt_tokens: 2_147_483_654,
            total_cache_read_tokens: 3,
            total_cache_creation_tokens: -2_147_483_648,
            cache_hit_ratio: Quotient { numerator: 3, denominator: 2_147_483_654 },
            cache_utilization_ratio: Quotient { numerator: 1, denominator: 2 },
            avg_cached_tokens_per_request: Quotient { numerator: 3, denominator: 2 },
        }
    );
}

#[test]
fn totals_add_up_and_silent_events_count_for_nothing() {
    let first = [event_with_usage(10, 1, Some(4), Some(2)), event_without_usage()];
    let second = [event_without_usage(), event_with_usage(20, 1, None, Some(5))];
    let a = CachePerformanceAnalyzer::analyze(&first);
    let b = CachePerformanceAnalyzer::analyze(&second);
    let whole = CachePerformanceAnalyzer::analyze(&[first[0], first[1], second[0], second[1]]);
    assert_eq!(whole.total_requests, a.total_requests + b.total_requests);
    assert_eq!(whole.total_prompt_tokens, a.total_prompt_tokens + b.total_prompt_tokens);
    assert_eq!(
        whole.total_cache_read_tokens,
        a.total_cache_read_tokens + b.total_cache_read_tokens
    );
    assert_eq!(
        whole.total_cache_creation_tokens,
        a.total_cache_creation_tokens + b.total_cache_creation_tokens
    );
    assert_eq!(whole, CachePerformanceAnalyzer::analyze(&[first[0], second[1]]));
    assert_eq!(CachePerformanceAnalyzer::analyze(&[first[1], second[0]]).total_requests, 0);
}

#[test]
fn the_order_of_events_does_not_matter() {
    let a = event_with_usage(10, 1, Some(4), Some(2));
    let b = event_without_usage();
    let c = event_with_usage(20, 1, None, Some(5));
    let metrics = CachePerformanceAnalyzer::analyze(&[a, b, c]);
    assert_eq!(metrics.total_prompt_tokens, 30);
    assert_eq!(metrics, CachePerformanceAnalyzer::analyze(&[c, a, b]));
    assert_eq!(metrics, CachePerformanceAnalyzer::analyze(&[b, c, a]));
}

#[test]
fn more_cached_than_prompted_exceeds_a_hundred_percent() {
    let metrics = CachePerformanceAnalyzer::analyze(&[event_with_usage(100, 0, Some(300), None)]);
    assert_eq!(percentage(metrics.cache_hit_ratio), 300.0);
    assert_eq!(percentage(metrics.cache_utilization_ratio), 100.0);
}
