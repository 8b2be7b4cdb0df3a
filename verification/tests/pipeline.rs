use jlo::adoptium::{find_jdk_path, java_bin_path, marker_file_name, JdkMetadata};
use jlo::download::{check_digest, download, required_content_length, FetchError};
use jlo::extract::{extract, ArchiveFormat, ExtractError};
use jlo::lifecycle::plan_updates;
use jlo::version::{parse_version, JdkVersion};

const ABC_SHA256: &str = "ba7816bf8f01cfea414140de5dae2223b00361a396177a9cb410ff61f20015ad";

#[test]
fn download_accepts_the_matching_checksum() {
    let data = b"abc".to_vec();
    assert!(download(&data, ABC_SHA256).is_ok());
}

#[test]
fn download_with_wrong_checksum_always_fails() {
    let data = b"abc".to_vec();
    let wrong = "0000000000000000000000000000000000000000000000000000000000000000";
    match download(&data, wrong) {
        Ok(()) => panic!("a wrong checksum must never verify"),
        Err(FetchError::ChecksumMismatch { expected, actual }) => {
            assert_eq!(expected, wrong);
            assert_eq!(actual, ABC_SHA256);
        }
        Err(e) => panic!("unexpected error: {:?}", e),
    }
}

#[test]
fn checksum_comparison_is_case_sensitive() {
    let data = b"abc".to_vec();
    let upper = ABC_SHA256.to_uppercase();
    assert!(download(&data, &upper).is_err());
}

#[test]
fn check_digest_matches_hex_encoding() {
    let digest = vec![0xabu8, 0x12u8];
    assert!(check_digest(&digest, "ab12").is_ok());
    assert!(check_digest(&digest, "AB12").is_err());
    assert!(check_digest(&digest, "ab13").is_err());
}

#[test]
fn content_length_must_be_declared() {
    assert_eq!(required_content_length(Some(42)).unwrap(), 42);
    match required_content_length(None) {
        Err(FetchError::ContentLengthMissing) => {}
        r => panic!("unexpected result: {:?}", r),
    }
}

#[test]
fn archive_format_is_decided_by_file_name() {
    assert_eq!(extract("jdk-25.0.1.tar.gz").unwrap(), ArchiveFormat::TarGz);
    assert_eq!(extract(".tar.gz").unwrap(), ArchiveFormat::TarGz);
    assert_eq!(extract("jdk-25.0.1.zip").unwrap(), ArchiveFormat::Zip);
    assert_eq!(extract("bundle.gz").unwrap_err(), ExtractError::UnsupportedFormat);
    assert_eq!(extract("jdk.msi").unwrap_err(), ExtractError::UnsupportedFormat);
    assert_eq!(extract("gz").unwrap_err(), ExtractError::UnsupportedFormat);
    assert_eq!(extract(".gz").unwrap_err(), ExtractError::UnsupportedFormat);
    assert_eq!(extract(".zip").unwrap_err(), ExtractError::UnsupportedFormat);
    assert_eq!(extract("archive.tar.GZ").unwrap_err(), ExtractError::UnsupportedFormat);
}

#[test]
fn jdk_root_is_nested_only_on_macos() {
    let m = JdkMetadata {
        semver: "21.0.3+9".to_string(),
        release_name: "jdk-21.0.3+9".to_string(),
        package_name: "jdk.tar.gz".to_string(),
        download_link: "https://example.invalid/jdk.tar.gz".to_string(),
        checksum: "ab12".to_string(),
    };
    assert_eq!(find_jdk_path(&m, "linux"), "jdk-21.0.3+9");
    assert_eq!(find_jdk_path(&m, "macos"), "jdk-21.0.3+9/Contents/Home");
    assert_eq!(java_bin_path("linux"), "bin/java");
    assert_eq!(java_bin_path("windows"), "bin/java.exe");
    assert_eq!(marker_file_name(), ".jlo-managed");
}

#[test]
fn update_plan_is_distinct_and_sorted() {
    assert_eq!(plan_updates(&vec![21, 8, 21, 17, 8]), vec![8, 17, 21]);
    let nothing: Vec<i64> = Vec::new();
    assert_eq!(plan_updates(&nothing), nothing);
}

#[test]
fn version_strings_parse_to_keys() {
    assert_eq!(
        parse_version("21.0.3"),
        Some(JdkVersion { major: 21, minor: 0, patch: 3, prerelease: false })
    );
    assert_eq!(
        parse_version("1.2.3-beta.1"),
        Some(JdkVersion { major: 1, minor: 2, patch: 3, prerelease: true })
    );
    assert_eq!(parse_version("not-a-version"), None);
}
