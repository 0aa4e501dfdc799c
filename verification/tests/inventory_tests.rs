use codo::errors::ErrorKind;
use codo::inventory::{images_info, split_columns, split_lines, trim_spaces};

#[test]
fn parses_single_row_listing() {
    let out = "REPOSITORY   TAG   IMAGE ID\nmyimg   latest   abc123\n";
    let inv = images_info(true, Some(0), out).unwrap();
    let key = "myimg:latest".to_string();
    assert!(inv.contains_key(&key));
    let record = inv.get(&key).unwrap();
    assert_eq!(record.get(&"REPOSITORY".to_string()).unwrap(), "myimg");
    assert_eq!(record.get(&"TAG".to_string()).unwrap(), "latest");
    assert_eq!(record.get(&"IMAGE ID".to_string()).unwrap(), "abc123");
}

#[test]
fn engine_failure_yields_no_inventory() {
    let out = "REPOSITORY   TAG\nmyimg   latest\n";
    let err = images_info(false, Some(1), out).unwrap_err();
    assert_eq!(err.kind(), ErrorKind::ContainerEngineFailure);
    assert_eq!(err.message(), "image listing failed with exit code 1.");
}

#[test]
fn killed_listing_reports_without_code() {
    let err = images_info(false, None, "").unwrap_err();
    assert_eq!(err.kind(), ErrorKind::ContainerEngineFailure);
    assert_eq!(err.message(), "image listing failed.");
}

#[test]
fn missing_header_is_an_engine_failure() {
    let err = images_info(true, Some(0), "").unwrap_err();
    assert_eq!(err.kind(), ErrorKind::ContainerEngineFailure);
    assert_eq!(err.message(), "image listing produced no header line.");
}

#[test]
fn short_row_truncates_against_the_header() {
    let out = "REPOSITORY   TAG   IMAGE ID\nmyimg   latest\n";
    let inv = images_info(true, Some(0), out).unwrap();
    let key = "myimg:latest".to_string();
    let record = inv.get(&key).unwrap();
    assert_eq!(record.get(&"TAG".to_string()).unwrap(), "latest");
    assert!(record.get(&"IMAGE ID".to_string()).is_none());
}

#[test]
fn duplicate_key_keeps_the_last_row() {
    let out = "REPOSITORY   TAG   IMAGE ID\nmyimg   latest   first\nmyimg   latest   second\n";
    let inv = images_info(true, Some(0), out).unwrap();
    let record = inv.get(&"myimg:latest".to_string()).unwrap();
    assert_eq!(record.get(&"IMAGE ID".to_string()).unwrap(), "second");
}

#[test]
fn row_without_key_columns_is_skipped() {
    let out = "REPOSITORY   TAG\nlonely\nrepo   tag\n";
    let inv = images_info(true, Some(0), out).unwrap();
    assert!(inv.contains_key(&"repo:tag".to_string()));
    assert!(!inv.contains_key(&"lonely:".to_string()));
    assert!(!inv.contains_key(&"lonely".to_string()));
}

#[test]
fn blank_row_is_skipped() {
    let out = "REPOSITORY   TAG\n\nrepo   tag\n";
    let inv = images_info(true, Some(0), out).unwrap();
    assert!(inv.contains_key(&"repo:tag".to_string()));
}

#[test]
fn columns_split_on_runs_of_three_spaces() {
    assert_eq!(split_columns("REPOSITORY   TAG   IMAGE ID"), vec![
        "REPOSITORY",
        "TAG",
        "IMAGE ID",
    ]);
    assert_eq!(split_columns("a      b"), vec!["a", "b"]);
    assert_eq!(split_columns("  a   b"), vec!["a", "b"]);
    assert_eq!(split_columns(""), Vec::<String>::new());
}

#[test]
fn lines_split_on_newlines_and_drop_carriage_returns() {
    assert_eq!(split_lines("a\r\nb\n"), vec!["a", "b"]);
    assert_eq!(split_lines("a\n\nb"), vec!["a", "", "b"]);
    assert_eq!(split_lines(""), Vec::<String>::new());
}

#[test]
fn trimming_keeps_inner_spaces() {
    assert_eq!(trim_spaces("  x y  "), "x y");
    assert_eq!(trim_spaces("   "), "");
    assert_eq!(trim_spaces("plain"), "plain");
}
