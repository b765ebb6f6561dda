use patto_cli_core::doctor::checks::parse_node_major;
use patto_cli_core::doctor::report::downgrade_to_warning;
use patto_cli_core::output::DoctorCheckStatus;

#[test]
fn parse_node_major_accepts_node_version_formats() {
    assert_eq!(parse_node_major("v20.11.1"), Some(20));
    assert_eq!(parse_node_major("18.19.0"), Some(18));
}

#[test]
fn parse_node_major_returns_none_for_invalid_versions() {
    assert_eq!(parse_node_major("not-a-version"), None);
    assert_eq!(parse_node_major(""), None);
}

#[test]
fn downgrade_to_warning_keeps_errors() {
    assert_eq!(
        downgrade_to_warning(DoctorCheckStatus::Passed),
        DoctorCheckStatus::Warning
    );
    assert_eq!(
        downgrade_to_warning(DoctorCheckStatus::Error),
        DoctorCheckStatus::Error
    );
}

#[test]
fn downgrading_twice_is_downgrading_once() {
    for status in [
        DoctorCheckStatus::Passed,
        DoctorCheckStatus::Warning,
        DoctorCheckStatus::Error,
        DoctorCheckStatus::Skipped,
    ] {
        let once = downgrade_to_warning(status);
        assert_eq!(downgrade_to_warning(once), once);
    }
}
