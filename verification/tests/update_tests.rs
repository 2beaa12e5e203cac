use rustydocker::update::is_newer_stable;

#[test]
fn newer_patch_is_newer() {
    assert!(is_newer_stable("0.3.0", "0.3.1"));
}

#[test]
fn same_version_is_not_newer() {
    assert!(!is_newer_stable("0.3.0", "0.3.0"));
}

#[test]
fn older_is_not_newer() {
    assert!(!is_newer_stable("0.3.0", "0.2.9"));
}

#[test]
fn prerelease_latest_is_suppressed() {
    assert!(!is_newer_stable("0.3.0", "0.3.1-rc1"));
    assert!(!is_newer_stable("0.3.0", "0.4.0-beta.2"));
}

#[test]
fn prerelease_current_to_stable_latest_is_newer() {
    assert!(is_newer_stable("0.3.0-rc1", "0.3.0"));
}

#[test]
fn garbage_input_returns_false() {
    assert!(!is_newer_stable("not-a-version", "0.3.1"));
    assert!(!is_newer_stable("0.3.0", "garbage"));
}

#[test]
fn major_and_minor_bumps_are_newer() {
    assert!(is_newer_stable("0.3.9", "0.4.0"));
    assert!(is_newer_stable("0.9.9", "1.0.0"));
    assert!(!is_newer_stable("1.0.0", "0.9.9"));
}
