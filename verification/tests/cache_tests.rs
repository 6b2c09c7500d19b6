use rdf_editor::cache::Cache;
use rdf_editor::cache::GraphCacheManager;
use rdf_editor::models::GraphNode;
use rdf_editor::models::NodeType;

fn node(uri: &str) -> GraphNode {
    GraphNode {
        uri: uri.to_string(),
        label: None,
        types: Vec::new(),
        node_type: NodeType::Instance,
    }
}

#[test]
fn test_cache_expiration() {
    let mut cache: Cache<String, String> = Cache::new(1); // 1 second TTL

    cache.set("key".to_string(), "value".to_string(), 0);

    // Should be available immediately
    assert_eq!(cache.get(&"key".to_string(), 0), Some(&"value".to_string()));

    // After more than the TTL has passed it should be expired
    assert_eq!(cache.get(&"key".to_string(), 2), None);
}

#[test]
fn test_cache_cleanup() {
    let mut cache: Cache<String, String> = Cache::new(1);

    cache.set("key1".to_string(), "value1".to_string(), 0);
    cache.set("key2".to_string(), "value2".to_string(), 0);

    assert_eq!(cache.size(), 2);

    // Cleanup after expiry removes both items
    cache.cleanup_expired(2);

    assert_eq!(cache.size(), 0);
}

#[test]
fn cleanup_keeps_live_entries() {
    let mut cache: Cache<String, u64> = Cache::new(10);
    cache.set("old".to_string(), 1, 0); // expires at 10
    cache.set("new".to_string(), 2, 100); // expires at 110
    assert_eq!(cache.size(), 2);

    cache.cleanup_expired(50);

    assert_eq!(cache.size(), 1);
    assert_eq!(cache.get(&"new".to_string(), 100), Some(&2));
    assert_eq!(cache.get(&"old".to_string(), 5), None);
}

#[test]
fn set_resets_expiry() {
    let mut cache: Cache<String, String> = Cache::new(2);
    cache.set("k".to_string(), "v1".to_string(), 0); // visible through 2
    cache.set("k".to_string(), "v2".to_string(), 5); // visible through 7
    assert_eq!(cache.get(&"k".to_string(), 6), Some(&"v2".to_string()));
    assert_eq!(cache.get(&"k".to_string(), 8), None);
    assert_eq!(cache.size(), 1);
}

#[test]
fn get_at_exact_expiry_is_visible() {
    let mut cache: Cache<String, String> = Cache::new(3);
    cache.set("k".to_string(), "v".to_string(), 1); // expires_at == 4
    assert_eq!(cache.get(&"k".to_string(), 4), Some(&"v".to_string()));
    assert_eq!(cache.get(&"k".to_string(), 5), None);
}

#[test]
fn invalidate_and_clear() {
    let mut cache: Cache<String, String> = Cache::new(60);
    cache.set("a".to_string(), "1".to_string(), 0);
    cache.set("b".to_string(), "2".to_string(), 0);
    cache.invalidate(&"a".to_string());
    assert_eq!(cache.get(&"a".to_string(), 0), None);
    assert_eq!(cache.get(&"b".to_string(), 0), Some(&"2".to_string()));
    cache.clear();
    assert_eq!(cache.size(), 0);
}

#[test]
fn pair_keyed_cache_distinguishes_pairs() {
    let mut cache: Cache<(String, String), u32> = Cache::new(60);
    cache.set(("a".to_string(), "b".to_string()), 1, 0);
    cache.set(("a".to_string(), "c".to_string()), 2, 0);
    assert_eq!(cache.get(&("a".to_string(), "b".to_string()), 0), Some(&1));
    assert_eq!(cache.get(&("a".to_string(), "c".to_string()), 0), Some(&2));
    assert_eq!(cache.get(&("b".to_string(), "a".to_string()), 0), None);
    assert_eq!(cache.size(), 2);
}

#[test]
fn invalidate_node_clears_related_caches() {
    let mut mgr = GraphCacheManager::new(60);
    mgr.nodes.set("u".to_string(), node("u"), 0);
    mgr.nodes.set("v".to_string(), node("v"), 0);
    mgr.connections.set("u".to_string(), (vec![node("x")], Vec::new()), 0);
    mgr.paths.set(("a".to_string(), "b".to_string()), Some(vec!["a".to_string()]), 0);
    mgr.search_results.set("term".to_string(), vec![node("u")], 0);

    mgr.invalidate_node(&"u".to_string());

    // "u" is gone from the node and connection caches; "v" stays.
    assert_eq!(mgr.nodes.get(&"u".to_string(), 0), None);
    assert!(mgr.nodes.get(&"v".to_string(), 0).is_some());
    assert_eq!(mgr.connections.get(&"u".to_string(), 0), None);
    // The whole path cache is emptied.
    assert_eq!(mgr.paths.size(), 0);
    // Unrelated search results are untouched.
    assert!(mgr.search_results.get(&"term".to_string(), 0).is_some());

    let stats = mgr.get_stats();
    assert_eq!(stats.node_cache_size, 1);
    assert_eq!(stats.connection_cache_size, 0);
    assert_eq!(stats.path_cache_size, 0);
    assert_eq!(stats.search_cache_size, 1);
}

#[test]
fn cleanup_all_sweeps_every_cache() {
    let mut mgr = GraphCacheManager::new(1);
    mgr.nodes.set("u".to_string(), node("u"), 0);
    mgr.paths.set(("a".to_string(), "b".to_string()), None, 0);
    mgr.search_results.set("t".to_string(), Vec::new(), 10);
    mgr.cleanup_all(5);
    let stats = mgr.get_stats();
    assert_eq!(stats.node_cache_size, 0);
    assert_eq!(stats.path_cache_size, 0);
    assert_eq!(stats.search_cache_size, 1);
}
