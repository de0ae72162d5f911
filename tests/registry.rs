use highlight_server::checker::{collect_listing, release_record, RegistryError, VersionChecker};
use highlight_server::integrity::compute_integrity;
use highlight_server::version::parse_version;
use highlight_server::VersionInfo;

fn info(version: &str, hash: &str) -> VersionInfo {
    VersionInfo { version: version.to_string(), sri_hash: hash.to_string() }
}

fn strings(items: &[&str]) -> Vec<String> {
    items.iter().map(|s| s.to_string()).collect()
}

fn versions_of(checker: &VersionChecker) -> Vec<String> {
    checker.get_all_versions().into_iter().map(|v| v.version).collect()
}

/// Fetches every planned version except those in `failing`; the artifact of
/// a version is its own name as bytes.
fn fetch_all_but(plan: &[String], failing: &[&str]) -> Vec<VersionInfo> {
    plan.iter()
        .filter(|v| !failing.contains(&v.as_str()))
        .map(|v| release_record(v, v.as_bytes()))
        .collect()
}

fn run_pass(checker: &mut VersionChecker, listing: &[String], failing: &[&str]) -> bool {
    let plan = checker.plan_fetches(&listing.to_vec());
    let fetched = fetch_all_but(&plan, failing);
    checker.reconcile(&Ok(listing.to_vec()), &fetched)
}

fn ten_versions() -> Vec<String> {
    strings(&[
        "1.0.9", "1.0.8", "1.0.7", "1.0.6", "1.0.5", "1.0.4", "1.0.3", "1.0.2", "1.0.1", "1.0.0",
    ])
}

#[test]
fn new_checker_is_empty_with_placeholders() {
    let c = VersionChecker::new("highlight-it", 3, 1800, Some("./cache"));
    assert_eq!(c.get_current_version_info().version, "");
    assert_eq!(c.get_latest_version_info().sri_hash, "");
    assert!(c.get_all_versions().is_empty());
    assert_eq!(c.cache_file_path(), "./cache/highlight-it-version_cache.json");
    let d = VersionChecker::new("pkg", 3, 60, None);
    assert_eq!(d.cache_file_path(), "pkg-version_cache.json");
    assert_eq!(d.package_name(), "pkg");
    assert_eq!(d.http_timeout_secs(), 3);
    assert_eq!(d.version_check_interval_secs(), 60);
}

#[test]
fn urls_follow_registry_and_cdn_layout() {
    let c = VersionChecker::new("highlight-it", 3, 1800, None);
    assert_eq!(c.listing_url(), "https://data.jsdelivr.com/v1/package/npm/highlight-it");
    assert_eq!(
        c.artifact_url("2.10.3"),
        "https://cdn.jsdelivr.net/npm/highlight-it@2.10.3/dist/highlight-it-min.js"
    );
}

#[test]
fn numeric_not_lexical_order() {
    assert!(parse_version("2.9.0") < parse_version("2.10.0"));
    assert_eq!(parse_version("2.10.3"), (2, 10, 3));
    assert_eq!(parse_version("+1.2.3"), (1, 2, 3));
    assert_eq!(parse_version("1.2"), (0, 0, 0));
    assert_eq!(parse_version("1.2.3.4"), (0, 0, 0));
    assert_eq!(parse_version("1.x.3"), (1, 0, 3));
    assert_eq!(parse_version("1.2.3-beta"), (1, 2, 0));
    assert_eq!(parse_version("4294967295.4294967296.0"), (4294967295, 0, 0));
    assert_eq!(parse_version(""), (0, 0, 0));
}

#[test]
fn first_pass_sorts_numerically_and_sets_latest() {
    let mut c = VersionChecker::new("p", 3, 1800, None);
    let listing = strings(&["2.10.0", "2.9.0", "2.11.0", "abc"]);
    assert!(run_pass(&mut c, &listing, &[]));
    assert_eq!(versions_of(&c), strings(&["2.11.0", "2.10.0", "2.9.0", "abc"]));
    assert_eq!(c.get_current_version_info().version, "2.10.0");
    assert_eq!(c.get_latest_version_info().version, "2.10.0");
    assert_eq!(c.get_latest_version_info().sri_hash, compute_integrity(b"2.10.0"));
}

#[test]
fn partial_failure_then_recovery() {
    let listing = ten_versions();
    let mut c = VersionChecker::new("p", 3, 1800, None);
    assert!(run_pass(&mut c, &listing, &["1.0.3", "1.0.7"]));
    assert_eq!(
        versions_of(&c),
        strings(&["1.0.9", "1.0.8", "1.0.6", "1.0.5", "1.0.4", "1.0.2", "1.0.1", "1.0.0"])
    );
    let plan = c.plan_fetches(&listing);
    assert_eq!(plan, strings(&["1.0.7", "1.0.3"]));
    assert!(run_pass(&mut c, &listing, &[]));
    assert_eq!(versions_of(&c), listing);
    assert_eq!(c.get_latest_version_info().version, "1.0.9");
}

#[test]
fn second_pass_with_same_listing_changes_nothing() {
    let listing = ten_versions();
    let mut c = VersionChecker::new("p", 3, 1800, None);
    assert!(run_pass(&mut c, &listing, &[]));
    let before = c.get_all_versions();
    assert!(c.plan_fetches(&listing).is_empty());
    assert!(!run_pass(&mut c, &listing, &[]));
    let after = c.get_all_versions();
    assert_eq!(before.len(), after.len());
    for (a, b) in before.iter().zip(after.iter()) {
        assert_eq!(a.version, b.version);
        assert_eq!(a.sri_hash, b.sri_hash);
    }
}

#[test]
fn pass_looks_at_ten_positions_only() {
    let mut listing = ten_versions();
    listing.push("0.9.0".to_string());
    let mut c = VersionChecker::new("p", 3, 1800, None);
    assert_eq!(c.plan_fetches(&listing).len(), 10);
    assert!(run_pass(&mut c, &listing, &[]));
    assert!(!versions_of(&c).contains(&"0.9.0".to_string()));
}

#[test]
fn unreachable_registry_keeps_stale_latest() {
    let mut c = VersionChecker::new("p", 3, 1800, None);
    assert!(c.load_cached(vec![info("1.2.0", "sha512-a"), info("1.1.0", "sha512-b")]));
    assert!(!c.reconcile(&Err(RegistryError::RegistryUnreachable), &vec![]));
    assert_eq!(c.get_current_version_info().version, "1.2.0");
    assert_eq!(c.get_latest_version_info().version, "1.2.0");
    assert_eq!(versions_of(&c), strings(&["1.2.0", "1.1.0"]));
}

#[test]
fn failed_top_fetch_keeps_latest() {
    let mut c = VersionChecker::new("p", 3, 1800, None);
    assert!(c.load_cached(vec![info("1.2.0", "sha512-a")]));
    let listing = strings(&["1.3.0", "1.2.0"]);
    assert!(!run_pass(&mut c, &listing, &["1.3.0"]));
    assert_eq!(c.get_current_version_info().version, "1.2.0");
    assert!(run_pass(&mut c, &listing, &[]));
    assert_eq!(c.get_current_version_info().version, "1.3.0");
    assert_eq!(versions_of(&c), strings(&["1.3.0", "1.2.0"]));
}

#[test]
fn cache_round_trip_restores_same_order() {
    let mut c = VersionChecker::new("p", 3, 1800, None);
    assert!(run_pass(&mut c, &ten_versions(), &[]));
    let saved = c.get_all_versions();
    let mut d = VersionChecker::new("p", 3, 1800, None);
    assert!(d.load_cached(saved.clone()));
    let restored = d.get_all_versions();
    assert_eq!(saved.len(), restored.len());
    for (a, b) in saved.iter().zip(restored.iter()) {
        assert_eq!(a.version, b.version);
        assert_eq!(a.sri_hash, b.sri_hash);
    }
    assert_eq!(d.get_latest_version_info().version, "1.0.9");
}

#[test]
fn cache_that_is_empty_or_malformed_is_ignored() {
    let mut c = VersionChecker::new("p", 3, 1800, None);
    assert!(!c.load_cached(vec![]));
    assert!(!c.load_cached(vec![info("1.0.0", "a"), info("2.0.0", "b")]));
    assert!(!c.load_cached(vec![info("1.0.0", "a"), info("1.0.0", "b")]));
    assert!(c.get_all_versions().is_empty());
    assert_eq!(c.get_current_version_info().version, "");
}

#[test]
fn listing_appends_latest_tag_when_missing() {
    let items = vec![Some("1.0.0".to_string()), None, Some("0.9.0".to_string())];
    let r = collect_listing(&items, &Some("1.1.0".to_string())).unwrap();
    assert_eq!(r, strings(&["1.0.0", "0.9.0", "1.1.0"]));
    let r = collect_listing(&items, &Some("0.9.0".to_string())).unwrap();
    assert_eq!(r, strings(&["1.0.0", "0.9.0"]));
    let r = collect_listing(&vec![], &Some("3.0.0".to_string())).unwrap();
    assert_eq!(r, strings(&["3.0.0"]));
}

#[test]
fn listing_without_versions_fails() {
    let r = collect_listing(&vec![None], &None);
    assert_eq!(r, Err(RegistryError::NoVersionsFound));
}

#[test]
fn integrity_known_vectors() {
    assert_eq!(
        compute_integrity(b""),
        "sha512-z4PhNX7vuL3xVChQ1m2AB9Yg5AULVxXcg/SpIdNs6c5H0NE8XYXysP+DGNKHfuwvY7kxvUdBeoGlODJ6+SfaPg=="
    );
    assert_eq!(
        compute_integrity(b"abc"),
        "sha512-3a81oZNherrMQXNJriBBMRLm+k6JqX6iCp7u5ktV05ohkpkqJ0/BqDa6PCOj/uu9RU1EI2Q86A4qmslPpUyknw=="
    );
    let r = release_record("1.0.0", b"console.log(1);");
    assert_eq!(r.version, "1.0.0");
    assert_eq!(
        r.sri_hash,
        "sha512-3kzPWiJlVB3eWYw312fMVj7vrzd//tu5OIJrYJ0sDBAFrGqCI1jSh6qXgkrJCdPc8lxexQXKdbHXnhHIHx92GA=="
    );
}
