use jlo::adoptium::{
    build_api_url, build_metadata, fetch_metadata, find_installed_jdk, find_latest_jdk,
    install_jdk, jdk_arch, jdk_os, marker_file_name, max_release, ResolveError,
};

#[test]
fn configured_version_resolves_and_installs() {
    let configured = jlo::conf::load(Some("25\n")).unwrap();
    assert_eq!(configured, "25");

    let url = build_api_url(&configured, &jdk_arch("x86_64", true).unwrap(), &jdk_os("linux").unwrap());
    assert!(url.contains("/assets/latest/25/"));

    let body = "[{\"release_name\":\"jdk-25.0.1+9\",\
                 \"version\":{\"semver\":\"25.0.1+9\"},\
                 \"binary\":{\"package\":{\
                   \"name\":\"jdk_x64_linux_25.0.1_9.tar.gz\",\
                   \"link\":\"https://example.invalid/jdk.tar.gz\",\
                   \"checksum\":\"ab12\"}}}]";
    let m = fetch_metadata(body).expect("descriptor for the configured version");
    assert!(m.semver.starts_with("25."));

    let entry = install_jdk(&m, true).expect("a tree with the launcher installs");
    assert_eq!(entry.name, "25.0.1+9");
    assert!(entry.marked);
    assert_eq!(marker_file_name(), ".jlo-managed");

    let entries = vec![entry];
    assert_eq!(find_installed_jdk(&m, &entries), Some("25.0.1+9".to_string()));
}

#[test]
fn fetch_metadata_reads_a_complete_descriptor() {
    let body = "[{\"release_name\":\"jdk-25.0.1+9\",\
                 \"version\":{\"semver\":\"25.0.1+9\"},\
                 \"binary\":{\"package\":{\
                   \"name\":\"jdk_x64_linux_25.0.1_9.tar.gz\",\
                   \"link\":\"https://example.invalid/jdk.tar.gz\",\
                   \"checksum\":\"ab12\"}}}]";
    let m = fetch_metadata(body).expect("complete descriptor resolves");
    assert_eq!(m.semver, "25.0.1+9");
    assert!(m.semver.starts_with("25."));
    assert_eq!(m.release_name, "jdk-25.0.1+9");
    assert_eq!(m.package_name, "jdk_x64_linux_25.0.1_9.tar.gz");
    assert_eq!(m.download_link, "https://example.invalid/jdk.tar.gz");
    assert_eq!(m.checksum, "ab12");
}

#[test]
fn fetch_metadata_rejects_missing_fields() {
    let body = "[{\"release_name\":\"jdk-25\",\
                 \"version\":{\"semver\":\"25.0.1+9\"},\
                 \"binary\":{\"package\":{\
                   \"name\":\"jdk.tar.gz\",\
                   \"link\":\"https://example.invalid/jdk.tar.gz\"}}}]";
    assert_eq!(fetch_metadata(body).unwrap_err(), ResolveError::MetadataIncomplete);
    let empty_field = "[{\"release_name\":\"\",\
                 \"version\":{\"semver\":\"25.0.1+9\"},\
                 \"binary\":{\"package\":{\
                   \"name\":\"jdk.tar.gz\",\
                   \"link\":\"https://example.invalid/jdk.tar.gz\",\
                   \"checksum\":\"ab12\"}}}]";
    assert_eq!(fetch_metadata(empty_field).unwrap_err(), ResolveError::MetadataIncomplete);
}

#[test]
fn fetch_metadata_with_no_build_reports_no_match() {
    assert_eq!(fetch_metadata("[]").unwrap_err(), ResolveError::NoMatchingBuild);
}

#[test]
fn fetch_metadata_rejects_malformed_bodies() {
    assert_eq!(fetch_metadata("not json").unwrap_err(), ResolveError::MetadataIncomplete);
    assert_eq!(fetch_metadata("{\"a\":1}").unwrap_err(), ResolveError::MetadataIncomplete);
}

#[test]
fn build_metadata_carries_fields_through() {
    let m = build_metadata(
        "21.0.3+9".to_string(),
        "jdk-21.0.3+9".to_string(),
        "jdk.tar.gz".to_string(),
        "https://example.invalid/jdk.tar.gz".to_string(),
        "ab12".to_string(),
    )
    .expect("all fields present");
    assert_eq!(m.semver, "21.0.3+9");
    let incomplete = build_metadata(
        "21.0.3+9".to_string(),
        "jdk-21.0.3+9".to_string(),
        String::new(),
        "https://example.invalid/jdk.tar.gz".to_string(),
        "ab12".to_string(),
    );
    assert_eq!(incomplete.unwrap_err(), ResolveError::MetadataIncomplete);
}

#[test]
fn find_latest_jdk_returns_the_maximum() {
    let body = "{\"available_releases\":[8,11,17,21,25]}";
    assert_eq!(find_latest_jdk(body).unwrap(), 25);
}

#[test]
fn find_latest_jdk_with_empty_list_reports_none_found() {
    let body = "{\"available_releases\":[]}";
    assert_eq!(find_latest_jdk(body).unwrap_err(), ResolveError::NoReleasesFound);
    assert_eq!(find_latest_jdk("nope").unwrap_err(), ResolveError::MetadataIncomplete);
}

#[test]
fn find_latest_jdk_skips_non_integer_entries() {
    let body = "{\"available_releases\":[8,\"x\",11]}";
    assert_eq!(find_latest_jdk(body).unwrap(), 11);
    let none = "{\"available_releases\":[\"a\",\"b\"]}";
    assert_eq!(find_latest_jdk(none).unwrap_err(), ResolveError::NoReleasesFound);
}

#[test]
fn max_release_finds_maximum_anywhere() {
    assert_eq!(max_release(&vec![11, 25, 8]).unwrap(), 25);
    assert_eq!(max_release(&vec![9]).unwrap(), 9);
    let none: Vec<i64> = Vec::new();
    assert_eq!(max_release(&none).unwrap_err(), ResolveError::NoReleasesFound);
}

#[test]
fn os_names_map_to_catalog_tokens() {
    assert_eq!(jdk_os("linux").unwrap(), "linux");
    assert_eq!(jdk_os("windows").unwrap(), "windows");
    assert_eq!(jdk_os("macos").unwrap(), "mac");
    assert_eq!(jdk_os("solaris").unwrap(), "solaris");
    assert_eq!(jdk_os("aix").unwrap(), "aix");
    assert_eq!(jdk_os("beos").unwrap_err(), ResolveError::UnsupportedPlatform);
}

#[test]
fn arch_names_map_to_catalog_tokens() {
    assert_eq!(jdk_arch("x86_64", true).unwrap(), "x64");
    assert_eq!(jdk_arch("x86", true).unwrap(), "x32");
    assert_eq!(jdk_arch("powerpc64", true).unwrap(), "ppc64le");
    assert_eq!(jdk_arch("powerpc64", false).unwrap(), "ppc64");
    assert_eq!(jdk_arch("s390x", true).unwrap(), "s390x");
    assert_eq!(jdk_arch("arm", true).unwrap(), "arm");
    assert_eq!(jdk_arch("aarch64", false).unwrap(), "aarch64");
    assert_eq!(jdk_arch("riscv64", true).unwrap(), "riscv64");
    assert_eq!(jdk_arch("sparc64", false).unwrap(), "sparcv9");
    assert_eq!(jdk_arch("mips", true).unwrap_err(), ResolveError::UnsupportedPlatform);
}

#[test]
fn api_url_is_assembled_for_major_version_25() {
    let url = build_api_url("25", "x64", "linux");
    assert_eq!(
        url,
        "https://api.adoptium.net/v3/assets/latest/25/hotspot?\
         architecture=x64&image_type=jdk&os=linux&vendor=eclipse"
    );
}
