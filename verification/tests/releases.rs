use bitforge::releases::contains_rc;
use bitforge::releases::select_stable_versions;
use bitforge::releases::sort_versions_desc;
use bitforge::releases::stable_tags;
use bitforge::releases::ReleaseInfo;

fn release(tag: &str, prerelease: bool) -> ReleaseInfo {
    ReleaseInfo { tag: tag.into(), prerelease }
}

#[test]
fn rc_markers_are_detected_in_any_case() {
    assert!(contains_rc("v25.0rc1"));
    assert!(contains_rc("v25.0-RC2"));
    assert!(contains_rc("rc"));
    assert!(!contains_rc("v25.0"));
    assert!(!contains_rc("r"));
    assert!(!contains_rc(""));
}

#[test]
fn prereleases_and_candidates_are_filtered_out() {
    let releases = vec![
        release("v25.0", false),
        release("v26.0rc1", false),
        release("v24.2", true),
        release("v24.1", false),
    ];
    assert_eq!(stable_tags(&releases), vec!["v25.0", "v24.1"]);
}

#[test]
fn sorting_is_newest_first_by_semver() {
    let tags: Vec<String> =
        vec!["v24.0.1".into(), "v25.1".into(), "v25.0".into(), "v24.2".into(), "garbage".into()];
    assert_eq!(
        sort_versions_desc(&tags),
        vec!["v25.1", "v25.0", "v24.2", "v24.0.1", "garbage"]
    );
}

#[test]
fn selection_sorts_and_keeps_at_most_ten() {
    let mut releases = Vec::new();
    for minor in 0..12 {
        releases.push(release(&format!("v27.{minor}"), false));
    }
    releases.push(release("v28.0rc1", false));
    releases.push(release("v28.0", true));
    let picked = select_stable_versions(&releases);
    assert_eq!(picked.len(), 10);
    assert_eq!(picked[0], "v27.11");
    assert_eq!(picked[9], "v27.2");
}

#[test]
fn selection_handles_out_of_order_patch_releases() {
    let releases = vec![
        release("v27.0", false),
        release("v28.1", false),
        release("v27.2", false),
        release("v28.0", false),
    ];
    assert_eq!(select_stable_versions(&releases), vec!["v28.1", "v28.0", "v27.2", "v27.0"]);
}
