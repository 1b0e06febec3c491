use bitforge::envpath::bin_dir;
use bitforge::envpath::brew_prefix;
use bitforge::envpath::build_llvm_candidates;
use bitforge::envpath::build_path_parts;
use bitforge::envpath::cargo_bin_dir;
use bitforge::envpath::compose_path;
use bitforge::envpath::dedup_parts;
use bitforge::envpath::find_brew;
use bitforge::envpath::llvm_lib_path;
use bitforge::envpath::split_colon;
use bitforge::envpath::str_contains;

#[test]
fn brew_prefix_follows_the_binary_path() {
    assert_eq!(brew_prefix("/opt/homebrew/bin/brew"), "/opt/homebrew");
    assert_eq!(brew_prefix("/usr/local/bin/brew"), "/usr/local");
    assert_eq!(brew_prefix("anything else"), "/usr/local");
}

#[test]
fn find_brew_yields_only_known_candidates() {
    match find_brew() {
        Some(p) => assert!(p == "/opt/homebrew/bin/brew" || p == "/usr/local/bin/brew"),
        None => {}
    }
}

#[test]
fn containment_is_exact() {
    assert!(str_contains("/opt/homebrew/bin/brew", "/opt/homebrew"));
    assert!(str_contains("abc", ""));
    assert!(!str_contains("abc", "abcd"));
    assert!(!str_contains("/usr/local/bin/brew", "/opt/homebrew"));
}

#[test]
fn llvm_candidates_prefer_the_discovered_prefix() {
    assert_eq!(
        build_llvm_candidates(Some("/opt/homebrew")),
        vec!["/opt/homebrew/opt/llvm", "/opt/homebrew/opt/llvm", "/usr/local/opt/llvm"]
    );
    assert_eq!(
        build_llvm_candidates(None),
        vec!["/opt/homebrew/opt/llvm", "/usr/local/opt/llvm"]
    );
    assert_eq!(llvm_lib_path("/opt/homebrew/opt/llvm"), "/opt/homebrew/opt/llvm/lib");
}

#[test]
fn path_helpers_join_directories() {
    assert_eq!(bin_dir("/opt/homebrew"), "/opt/homebrew/bin");
    assert_eq!(cargo_bin_dir("/Users/u"), "/Users/u/.cargo/bin");
}

#[test]
fn splitting_a_search_path_keeps_empty_fields() {
    let parts = split_colon("/usr/bin:/bin::/sbin");
    assert_eq!(parts, vec!["/usr/bin", "/bin", "", "/sbin"]);
    assert_eq!(split_colon(""), vec![""]);
    assert_eq!(split_colon("one"), vec!["one"]);
    assert_eq!(split_colon("a:"), vec!["a", ""]);
}

#[test]
fn dedup_keeps_first_occurrences_and_drops_empties() {
    let parts: Vec<String> =
        vec!["/a".into(), "".into(), "/b".into(), "/a".into(), "/c".into(), "/b".into()];
    assert_eq!(dedup_parts(&parts), vec!["/a", "/b", "/c"]);
    assert_eq!(compose_path(&parts), "/a:/b:/c");
}

#[test]
fn path_parts_are_ordered_and_composed() {
    let existing: Vec<String> = vec!["/usr/bin".into(), "/custom".into()];
    let cargo = String::from("/Users/u/.cargo/bin");
    let llvm = String::from("/opt/homebrew/opt/llvm/bin");
    let parts = build_path_parts(
        Some(&"/opt/homebrew".to_string()),
        Some(&cargo),
        Some(&llvm),
        &existing,
    );
    assert_eq!(
        parts,
        vec![
            "/opt/homebrew/bin",
            "/opt/homebrew/bin",
            "/usr/local/bin",
            "/Users/u/.cargo/bin",
            "/opt/homebrew/opt/llvm/bin",
            "/usr/bin",
            "/custom",
            "/usr/bin",
            "/bin",
            "/usr/sbin",
            "/sbin"
        ]
    );
    assert_eq!(
        compose_path(&parts),
        "/opt/homebrew/bin:/usr/local/bin:/Users/u/.cargo/bin:/opt/homebrew/opt/llvm/bin:/usr/bin:/custom:/bin:/usr/sbin:/sbin"
    );
}
