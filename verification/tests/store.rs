use jlo::adoptium::{
    clean_jdks, find_installed_jdk, find_installed_major_versions, find_suitable_jdk, install_jdk,
    InstallError, JdkMetadata,
};
use jlo::adoptium::StoreEntry;

fn dir(name: &str, marked: bool) -> StoreEntry {
    StoreEntry {
        name: name.to_string(),
        is_dir: true,
        marked,
    }
}

fn file(name: &str) -> StoreEntry {
    StoreEntry {
        name: name.to_string(),
        is_dir: false,
        marked: false,
    }
}

fn metadata(semver: &str) -> JdkMetadata {
    JdkMetadata {
        semver: semver.to_string(),
        release_name: format!("jdk-{}", semver),
        package_name: format!("jdk-{}.tar.gz", semver),
        download_link: format!("https://example.invalid/{}", semver),
        checksum: "00".to_string(),
    }
}

#[test]
fn cleanup_deletes_superseded_only() {
    let entries = vec![dir("21.0.1", true), dir("21.0.3", true)];
    let removed = clean_jdks(&entries);
    assert_eq!(removed, vec![0]);
}

#[test]
fn cleanup_keeps_highest_of_three() {
    let entries = vec![dir("17.0.2", true), dir("17.0.10", true), dir("17.0.1", true)];
    let removed = clean_jdks(&entries);
    assert_eq!(removed, vec![0, 2]);
}

#[test]
fn cleanup_spares_unmarked_directories() {
    let entries = vec![dir("1.0.0", false), dir("1.0.5", true), dir("1.0.2", true)];
    let removed = clean_jdks(&entries);
    assert_eq!(removed, vec![2]);
}

#[test]
fn cleanup_ignores_non_semver_names_and_files() {
    let entries = vec![
        dir("notes", true),
        dir("1.2.3", true),
        file("21.0.1"),
        file("21.0.3"),
    ];
    let removed = clean_jdks(&entries);
    assert!(removed.is_empty());
}

#[test]
fn cleanup_handles_groups_independently() {
    let entries = vec![
        dir("11.0.2", true),
        dir("21.0.1", true),
        dir("11.0.14", true),
        dir("21.0.3", true),
        dir("8.0.392", true),
    ];
    let removed = clean_jdks(&entries);
    assert_eq!(removed, vec![0, 1]);
}

#[test]
fn find_suitable_picks_highest_matching_version() {
    let entries = vec![
        dir("17.0.1", true),
        dir("17.0.10", true),
        dir("18.0.2", true),
        file("17.0.99"),
    ];
    let found = find_suitable_jdk(&entries, "17");
    assert_eq!(found, Some("17.0.10".to_string()));
}

#[test]
fn find_suitable_without_match_is_none() {
    let entries = vec![dir("17.0.1", true), dir("18.0.2", true)];
    assert_eq!(find_suitable_jdk(&entries, "21"), None);
    let empty: Vec<StoreEntry> = Vec::new();
    assert_eq!(find_suitable_jdk(&empty, "17"), None);
}

#[test]
fn find_suitable_never_matches_unmarked_directories() {
    let entries = vec![dir("17.0.10", false), dir("17.0.1", true)];
    assert_eq!(find_suitable_jdk(&entries, "17"), Some("17.0.1".to_string()));
    let only_unmarked = vec![dir("17.0.10", false)];
    assert_eq!(find_suitable_jdk(&only_unmarked, "17"), None);
}

#[test]
fn prerelease_ranks_below_the_plain_release() {
    let entries = vec![dir("21.0.3-beta", true), dir("21.0.3", true)];
    assert_eq!(find_suitable_jdk(&entries, "21"), Some("21.0.3".to_string()));
    assert_eq!(clean_jdks(&entries), vec![0]);
}

#[test]
fn find_suitable_matches_by_prefix_not_major() {
    let entries = vec![dir("110.0.1", true), dir("11.0.1", true)];
    let found = find_suitable_jdk(&entries, "11");
    assert_eq!(found, Some("110.0.1".to_string()));
}

#[test]
fn find_installed_requires_exact_name() {
    let m = metadata("21.0.3+9");
    let entries = vec![dir("21.0.3", true), dir("21.0.3+9", true)];
    assert_eq!(find_installed_jdk(&m, &entries), Some("21.0.3+9".to_string()));
    let missing = metadata("21.0.4");
    assert_eq!(find_installed_jdk(&missing, &entries), None);
}

#[test]
fn install_then_find_installed_round_trips() {
    let m = metadata("25.0.1+9");
    let mut entries = vec![dir("21.0.3", true)];
    assert_eq!(find_installed_jdk(&m, &entries), None);
    let entry = install_jdk(&m, true).expect("valid tree installs");
    assert_eq!(entry.name, "25.0.1+9");
    assert!(entry.is_dir);
    assert!(entry.marked);
    entries.push(entry);
    assert_eq!(find_installed_jdk(&m, &entries), Some("25.0.1+9".to_string()));
}

#[test]
fn install_without_java_binary_fails() {
    let m = metadata("25.0.1+9");
    let r = install_jdk(&m, false);
    assert_eq!(r.unwrap_err(), InstallError::JavaExecutableMissing);
}

#[test]
fn ensure_available_short_circuits_after_install() {
    let m = metadata("21.0.3+9");
    let mut entries = vec![dir("17.0.1", true)];
    assert_eq!(find_suitable_jdk(&entries, "21"), None);
    let entry = install_jdk(&m, true).expect("valid tree installs");
    entries.push(entry);
    assert_eq!(find_suitable_jdk(&entries, "21"), Some("21.0.3+9".to_string()));
}

#[test]
fn installed_major_versions_are_distinct_and_sorted() {
    let entries = vec![
        dir("21.0.1", true),
        dir("8.0.392", true),
        dir("21.0.3", true),
        dir("stray", true),
        dir("17.0.2", false),
        dir("11.0.14", true),
    ];
    let majors = find_installed_major_versions(&entries);
    assert_eq!(majors, vec![8, 11, 21]);
}
