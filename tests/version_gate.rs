use rsc_quickstart::version::{
    check_minimum, check_node, check_tool_version, check_yarn_version, meets_minimum,
    ParsedVersion, VersionError,
};

#[test]
fn below_minimum_major_is_false() {
    assert_eq!(check_minimum("19.9.0", 20), Ok(false));
}

#[test]
fn equal_minimum_major_is_true() {
    assert_eq!(check_minimum("20.0.0", 20), Ok(true));
}

#[test]
fn leading_v_is_tolerated() {
    assert_eq!(check_minimum("v20.1.3", 20), Ok(true));
}

#[test]
fn not_a_version_is_parse_error() {
    assert_eq!(check_minimum("not-a-version", 20), Err(VersionError::ParseError));
}

#[test]
fn minor_and_patch_do_not_count() {
    assert_eq!(check_minimum("4.0.0", 4), Ok(true));
    assert_eq!(check_minimum("3.99.99", 4), Ok(false));
    assert_eq!(check_minimum("21.0.0", 20), Ok(true));
}

#[test]
fn node_report_is_trimmed() {
    assert_eq!(check_node("v20.11.0\n"), Ok(()));
    assert_eq!(check_node("  v22.1.0  \r\n"), Ok(()));
}

#[test]
fn old_node_is_too_old() {
    assert_eq!(check_node("v18.19.1\n"), Err(VersionError::VersionTooOld));
}

#[test]
fn yarn_floor_is_four() {
    assert_eq!(check_yarn_version("4.1.1\n"), Ok(()));
    assert_eq!(check_yarn_version("1.22.19\n"), Err(VersionError::VersionTooOld));
}

#[test]
fn garbage_report_is_parse_error() {
    assert_eq!(check_yarn_version("command not found"), Err(VersionError::ParseError));
    assert_eq!(check_tool_version("", 1), Err(VersionError::ParseError));
}

#[test]
fn gate_on_parsed_outcomes() {
    assert_eq!(meets_minimum(None, 4), Err(VersionError::ParseError));
    assert_eq!(
        meets_minimum(Some(ParsedVersion { empty: true, major: 0 }), 0),
        Err(VersionError::ParseError)
    );
    assert_eq!(meets_minimum(Some(ParsedVersion { empty: false, major: 4 }), 4), Ok(true));
    assert_eq!(meets_minimum(Some(ParsedVersion { empty: false, major: 3 }), 4), Ok(false));
    assert_eq!(meets_minimum(Some(ParsedVersion { empty: false, major: -1 }), 0), Ok(false));
}
