use pysuals::incremental::hash::{HashCalculator, IncrementalHash, JsonValue};
use pysuals::incremental::cache::CacheManager;
use pysuals::incremental::IncrementalCompiler;

const ABC: &str = "ba7816bf8f01cfea414140de5dae2223b00361a396177a9cb410ff61f20015ad";

#[test]
fn sha256_of_known_text() {
    let h = HashCalculator::new();
    assert_eq!(h.hash_string("abc"), ABC);
    assert_eq!(h.hash_bytes(b"abc"), ABC);
    assert!(h.verify_hash(b"abc", ABC));
    assert!(!h.verify_hash(b"abd", ABC));
}

#[test]
fn file_hashes_are_remembered() {
    let mut h = HashCalculator::new();
    assert_eq!(h.cached_hash("a.pys"), None);
    assert_eq!(h.hash_file_content("a.pys", b"abc"), ABC);
    assert_eq!(h.hash_file_content("a.pys", b"other"), ABC);
    assert_eq!(h.cached_hash("a.pys"), Some(ABC.to_string()));
}

#[test]
fn combined_hash_is_the_hash_of_the_joined_texts() {
    let h = HashCalculator::new();
    let parts = vec!["a".to_string(), "bc".to_string()];
    assert_eq!(h.combine_hashes(&parts), ABC);
}

#[test]
fn commit_and_rollback() {
    let calc = HashCalculator::new();
    let mut ih = IncrementalHash::new();
    assert!(ih.update(b"abc", &calc));
    assert!(ih.has_changed());
    ih.commit();
    assert!(!ih.has_changed());
    assert_eq!(ih.get_last(), Some(ABC));
    assert!(ih.update(b"x", &calc));
    ih.rollback();
    assert_eq!(ih.get_current(), Some(ABC));
    assert!(!ih.update(b"abc", &calc));
}

#[test]
fn cache_read_after_write_and_cleaning() {
    let mut m = CacheManager::with_index("cache".to_string(), Vec::new());
    m.store_output_at("a.pys", b"out", None, 100);
    assert_eq!(m.get_hash("a.pys").unwrap().len(), 64);
    assert_eq!(m.get_output("a.pys"), Some(b"out".to_vec()));
    assert_eq!(m.get_output("b.pys"), None);
    let stats = m.get_stats();
    assert_eq!((stats.hits, stats.misses), (1, 1));
    m.store_output_at("b.pys", b"xy", Some("h".to_string()), 2_000_000);
    let removed = m.clean_at(2_600_200);
    assert_eq!(removed, vec!["a.pys".to_string()]);
    assert_eq!(m.get_hash("b.pys"), Some("h".to_string()));
    assert_eq!(m.get_stats().file_count, 1);
    assert_eq!(m.get_disk_usage(), 2);
}

#[test]
fn rebuild_only_when_the_hash_changes() {
    let manager = CacheManager::with_index("cache".to_string(), Vec::new());
    let mut c = IncrementalCompiler::with_manager("cache".to_string(), manager);
    assert!(c.needs_rebuild("a.pys", b"abc"));
    c.store_output("a.pys", b"js");
    assert!(!c.needs_rebuild("a.pys", b"abc"));
    assert_eq!(c.get_cached_output("a.pys"), Some(b"js".to_vec()));
}

#[test]
fn the_first_hash_of_a_path_is_kept() {
    let manager = CacheManager::with_index("cache".to_string(), Vec::new());
    let mut c = IncrementalCompiler::with_manager("cache".to_string(), manager);
    assert!(c.needs_rebuild("a.pys", b"abc"));
    c.store_output("a.pys", b"js");
    // The calculator remembers the hash of "abc" for this path, so new
    // contents are not hashed again.
    assert!(!c.needs_rebuild("a.pys", b"changed"));
}

#[test]
fn dependency_hash_combines_content_hashes() {
    let h = HashCalculator::new();
    let contents = vec![b"a".to_vec(), b"b".to_vec()];
    let parts = vec![h.hash_bytes(b"a"), h.hash_bytes(b"b")];
    assert_eq!(h.hash_dependencies(&contents), h.combine_hashes(&parts));
    assert_ne!(h.hash_dependencies(&contents), h.hash_dependencies(&vec![b"a".to_vec()]));
}

#[test]
fn configuration_hash_is_the_hash_of_its_json_text() {
    let h = HashCalculator::new();
    let config = JsonValue::Object(vec![
        ("minify".to_string(), JsonValue::Bool(true)),
        ("level".to_string(), JsonValue::Number("2".to_string())),
        ("target".to_string(), JsonValue::Str("es2020".to_string())),
        ("paths".to_string(), JsonValue::Array(vec![JsonValue::Null])),
    ]);
    assert_eq!(
        h.hash_config(&config),
        h.hash_string("{\"level\":2,\"minify\":true,\"paths\":[null],\"target\":\"es2020\"}")
    );
    assert_ne!(h.hash_config(&config), h.hash_config(&JsonValue::Null));
}
