use s3_turbo_list::auto_hints::{FlatDiscovery, StartupDiscovery};
use std::collections::HashMap;

fn fake_tree(data: &[(&str, &[&str])]) -> HashMap<String, Vec<String>> {
    data.iter()
        .map(|(k, v)| (k.to_string(), v.iter().map(|s| s.to_string()).collect()))
        .collect()
}

fn discover_with_probe<F>(prefix: &str, target: usize, probe: F) -> Vec<String>
where
    F: Fn(String) -> Result<Vec<String>, String>,
{
    let mut walk = StartupDiscovery::new(prefix, target);
    while let Some(level) = walk.next_level() {
        for p in level {
            if let Ok(children) = probe(p) {
                walk.record(&children);
            }
        }
    }
    walk.boundaries()
}

fn run_discovery(tree: HashMap<String, Vec<String>>, prefix: &str, target: usize) -> Vec<String> {
    discover_with_probe(prefix, target, |p| Ok(tree.get(&p).cloned().unwrap_or_default()))
}

fn run_flat(keys: Vec<String>, prefix: &str, target: usize) -> Vec<String> {
    let mut walk = FlatDiscovery::new(prefix, target);
    while let Some(start_after) = walk.next_probe() {
        let next = match start_after {
            None => keys.first().cloned(),
            Some(sa) => keys.iter().find(|k| k.as_str() > sa.as_str()).cloned(),
        };
        walk.record(next);
    }
    walk.boundaries()
}

#[test]
fn test_startup_discovery_flat_namespace_yields_no_boundaries() {
    let boundaries = run_discovery(fake_tree(&[]), "", 16);
    assert!(boundaries.is_empty());
}

#[test]
fn test_startup_discovery_single_level() {
    let tree = fake_tree(&[("", &["a/", "b/", "c/"])]);
    let boundaries = run_discovery(tree, "", 16);
    assert_eq!(boundaries, vec!["a/", "b/", "c/"]);
}

#[test]
fn test_flat_boundaries_empty_range_yields_none() {
    assert!(run_flat(Vec::new(), "", 16).is_empty());
}

#[test]
fn test_flat_boundaries_single_key_is_uncuttable() {
    assert!(run_flat(vec!["only".to_string()], "", 16).is_empty());
}

#[test]
fn test_flat_boundaries_partition_is_valid() {
    let keys: Vec<String> = (0..200).map(|i| format!("key{:04}", i)).collect();
    let target = 8;
    let boundaries = run_flat(keys.clone(), "key", target);

    assert!(!boundaries.is_empty(), "a 200-key flat range should split");
    assert!(boundaries.len() <= target);
    let mut prev: Option<&String> = None;
    for b in &boundaries {
        assert!(keys.contains(b), "boundary '{}' is not a real key", b);
        if let Some(p) = prev {
            assert!(b > p, "boundaries must be strictly ascending");
        }
        prev = Some(b);
    }
}

#[test]
fn test_startup_discovery_recurses_until_target() {
    let tree = fake_tree(&[("", &["a/", "b/"]), ("a/", &["a/x/", "a/y/"]), ("b/", &["b/z/"])]);
    let boundaries = run_discovery(tree, "", 16);
    assert_eq!(boundaries, vec!["a/", "a/x/", "a/y/", "b/", "b/z/"]);
}

#[test]
fn test_startup_discovery_stops_at_target() {
    let tree = fake_tree(&[("", &["a/", "b/", "c/", "d/"]), ("a/", &["a/x/"]), ("b/", &["b/y/"])]);
    let boundaries = run_discovery(tree, "", 4);
    assert_eq!(boundaries, vec!["a/", "b/", "c/", "d/"]);
}

#[test]
fn test_startup_discovery_respects_listing_prefix() {
    let tree = fake_tree(&[("logs/", &["logs/2025/", "logs/2026/"])]);
    let boundaries = run_discovery(tree, "logs/", 16);
    assert_eq!(boundaries, vec!["logs/2025/", "logs/2026/"]);
}

#[test]
fn test_startup_discovery_probe_errors_are_non_fatal() {
    let boundaries = discover_with_probe("", 16, |p| {
        if p.is_empty() {
            Ok(vec!["a/".to_string(), "b/".to_string()])
        } else {
            Err("probe failed".to_string())
        }
    });
    assert_eq!(boundaries, vec!["a/", "b/"]);
}

#[test]
fn startup_discovery_stops_after_three_levels() {
    let tree = fake_tree(&[
        ("", &["a/"]),
        ("a/", &["a/b/"]),
        ("a/b/", &["a/b/c/"]),
        ("a/b/c/", &["a/b/c/d/"]),
    ]);
    let boundaries = run_discovery(tree, "", 16);
    assert_eq!(boundaries, vec!["a/", "a/b/", "a/b/c/"]);
}

#[test]
fn flat_discovery_with_zero_target_probes_nothing() {
    let mut walk = FlatDiscovery::new("", 0);
    assert_eq!(walk.next_probe(), None);
    assert!(walk.boundaries().is_empty());
}
