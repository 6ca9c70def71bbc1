use texe::cache::{cached_output_matches, relative_path, CachedOutput, OutputCache};
use texe::digest::digest;

#[test]
fn cached_outputs_require_matching_inputs_paths_and_bytes() {
    let cached = CachedOutput {
        input_digest: "input-a".to_string(),
        output: "main.bbl".to_string(),
        output_digest: digest(b"generated bibliography"),
    };
    let bytes: &[u8] = b"generated bibliography";
    assert!(cached_output_matches(&cached, "input-a", "/out", "/out/main.bbl", Some(bytes)));
    assert!(!cached_output_matches(&cached, "input-b", "/out", "/out/main.bbl", Some(bytes)));
    assert!(!cached_output_matches(&cached, "input-a", "/out", "/out/main.bbl", Some(b"tampered bibliography")));
    assert!(!cached_output_matches(&cached, "input-a", "/out", "/out/other.bbl", Some(bytes)));
    assert!(!cached_output_matches(&cached, "input-a", "/out", "/out/main.bbl", None));
}

#[test]
fn output_cache_owns_restore_record_and_retention_bookkeeping() {
    let bytes: &[u8] = b"generated bibliography";
    let mut cache = OutputCache::new();
    cache.record(Some("main.aux".to_string()), "input-a", "/out", "/out/main.bbl", Some(bytes));
    assert!(cache.restore(Some("main.aux"), "input-a", "/out", "/out/main.bbl", Some(bytes)));
    let retained = cache.retained_entries();
    assert_eq!(retained.len(), 1);
    assert_eq!(retained[0].0, "main.aux");
    assert_eq!(retained[0].1.output, "main.bbl");

    let mut restored = OutputCache::from_entries(retained);
    assert!(!restored.restore(Some("main.aux"), "input-b", "/out", "/out/main.bbl", Some(bytes)));
    restored.retain(Some("empty.idx"));
    let kept = restored.retained_entries();
    assert!(kept.iter().any(|(key, _)| key == "main.aux"));
}

#[test]
fn unused_entries_are_not_retained() {
    let bytes: &[u8] = b"index";
    let mut first = OutputCache::new();
    first.record(Some("a.idx".to_string()), "one", "/out", "/out/a.ind", Some(bytes));
    first.record(Some("b.idx".to_string()), "two", "/out", "/out/b.ind", Some(bytes));
    first.record(Some("a.idx".to_string()), "three", "/out", "/out/a.ind", Some(bytes));
    let entries = first.retained_entries();
    assert_eq!(entries.len(), 2);
    let mut next = OutputCache::from_entries(entries);
    assert!(next.restore(Some("a.idx"), "three", "/out", "/out/a.ind", Some(bytes)));
    let kept = next.retained_entries();
    assert_eq!(kept.len(), 1);
    assert_eq!(kept[0].0, "a.idx");
    assert!(OutputCache::new().retained_entries().is_empty());
}

#[test]
fn outputs_are_named_relative_to_the_output_directory() {
    assert_eq!(relative_path("/out", "/out/chapters/one.bbl").as_deref(), Some("chapters/one.bbl"));
    assert_eq!(relative_path("/out", "/out"), None);
    assert_eq!(relative_path("/out", "/elsewhere/main.bbl"), None);
}
