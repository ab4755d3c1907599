use katana::utils::Utils;

/// Test `normalize_path` with complex paths
#[test]
fn test_normalize_path_with_complex_path() {
    let normalized_path = Utils::normalize_path("folder/.././folder2/./file.txt");
    assert_eq!(
        normalized_path, "folder2/file.txt",
        "Path normalization failed"
    );
}

/// Test `normalize_path` with multiple separators
#[test]
fn test_normalize_path_with_multiple_separators() {
    let normalized_path = Utils::normalize_path("folder//subfolder//file.txt");
    assert_eq!(
        normalized_path, "folder/subfolder/file.txt",
        "Multiple separators should be normalized"
    );
}

/// Test `normalize_path` with `..` and `.` in the path
#[test]
fn test_normalize_path_with_parent_current_dirs() {
    let normalized_path = Utils::normalize_path("folder/./subfolder/../file.txt");
    assert_eq!(
        normalized_path, "folder/file.txt",
        "Path normalization with `..` and `.` failed"
    );
}

/// Test `is_valid_entry` for hidden files
#[test]
fn test_is_valid_entry_with_hidden_files() {
    assert!(
        !Utils::is_valid_entry(".hidden_file"),
        "Hidden file should not be valid"
    );
    assert!(
        Utils::is_valid_entry("visible_file"),
        "Visible file should be valid"
    );
}

/// Datetime formatting on fixed clock readings gives fixed text.
#[test]
fn test_datetime_formats_of_fixed_readings() {
    // 2021-03-14 01:59:26 UTC
    let secs: u64 = 1615687166;
    assert_eq!(Utils::datetime_rfc_1123_of(secs), "Sun, 14 Mar 2021 01:59:26 GMT");
    assert_eq!(
        Utils::datetime_rfc_8601_of(secs, 535),
        "2021-03-14T01:59:26.535Z"
    );
    // The epoch itself.
    assert_eq!(Utils::datetime_rfc_1123_of(0), "Thu, 01 Jan 1970 00:00:00 GMT");
    assert_eq!(Utils::datetime_rfc_8601_of(0, 0), "1970-01-01T00:00:00.000Z");
    // A leap day.
    assert_eq!(Utils::datetime_rfc_1123_of(951827696), "Tue, 29 Feb 2000 12:34:56 GMT");
}

/// The compact log timestamp of a fixed reading.
#[test]
fn test_log_datetime_of_fixed_reading() {
    let formatted = Utils::log_datetime_of(0);
    assert_eq!(formatted, "1970-01-01 00:00:00");
    assert_eq!(formatted.len(), 19);
}

/// `path_prettifier` unifies separators for display.
#[test]
fn test_path_prettifier() {
    assert_eq!(Utils::path_prettifier("a\\b\\c.txt"), "a/b/c.txt");
    assert_eq!(Utils::path_prettifier("a/b/c.txt"), "a/b/c.txt");
}

/// `unix_timestamp` is a decimal number.
#[test]
fn test_unix_timestamp_is_decimal() {
    let ts = Utils::unix_timestamp();
    assert!(!ts.is_empty());
    assert!(ts.chars().all(|c| c.is_ascii_digit()));
}
