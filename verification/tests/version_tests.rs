use omf::{crate_full_name, format_full_name, format_version, CRATE_NAME, FORMAT_EXTENSION, FORMAT_NAME};

#[test]
fn version_strings() {
    assert_eq!(format_version(), "2.0-alpha.2");
    assert_eq!(format_full_name(), "Open Mining Format 2.0-alpha.2");
    assert_eq!(crate_full_name(), "omf 0.1.0-beta.1");
    assert_eq!(CRATE_NAME, "omf");
    assert_eq!(FORMAT_NAME, "Open Mining Format");
    assert_eq!(FORMAT_EXTENSION, "omf");
}
