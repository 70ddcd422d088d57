use whalenest::version::{check_for_update, looks_like_version, update_check_message, update_label, version_newer};

#[test]
fn looks_like_version_accepts_semver() {
    assert!(looks_like_version("0.1.0"));
    assert!(looks_like_version("0.1.0-rc.6"));
    assert!(looks_like_version("1.2.3-beta.2"));
    assert!(looks_like_version("2.0.0"));
}

#[test]
fn looks_like_version_rejects_junk() {
    assert!(!looks_like_version(""));
    assert!(!looks_like_version("abc"));
    assert!(!looks_like_version("v1.2.3"));
    assert!(!looks_like_version("0.1"));
    assert!(!looks_like_version("npm warn deprecated foo"));
}

#[test]
fn release_beats_prerelease_of_same_core() {
    assert!(version_newer("1.0.0", "1.0.0-rc.1"));
    assert!(!version_newer("1.0.0-rc.1", "1.0.0"));
}

#[test]
fn core_minor_and_patch_compare() {
    assert!(version_newer("0.2.0", "0.1.9"));
    assert!(version_newer("0.1.10", "0.1.9"));
    assert!(!version_newer("0.1.9", "0.1.10"));
    assert!(!version_newer("0.1.0", "0.1.0"));
}

#[test]
fn prerelease_rc_number_compare() {
    assert!(version_newer("0.1.0-rc.7", "0.1.0-rc.6"));
    assert!(!version_newer("0.1.0-rc.6", "0.1.0-rc.7"));
}

#[test]
fn update_check_reads_cli_and_registry_output() {
    let info = check_for_update(Some("0.1.0\n"), Some("0.2.0\n")).unwrap();
    assert_eq!(info.current, "0.1.0");
    assert_eq!(info.latest, "0.2.0");
    assert!(info.has_update);
    let same = check_for_update(Some("0.2.0"), Some("0.2.0")).unwrap();
    assert!(!same.has_update);
    assert!(check_for_update(None, Some("0.2.0")).is_none());
    assert!(check_for_update(Some("  \n"), Some("0.2.0")).is_none());
    assert!(check_for_update(Some("0.1.0"), Some("npm warn x\nnot a version")).is_none());
    let warned = check_for_update(Some("0.1.0"), Some("npm warn x\n0.3.0\n")).unwrap();
    assert_eq!(warned.latest, "0.3.0");
    let label = update_label(&Some(info));
    assert!(!label.is_empty());
    let (ok, msg) = update_check_message(&None);
    assert!(!ok || !msg.is_empty());
}

#[test]
fn newer_is_never_mutual() {
    let vs = ["1.0.0", "1.0.0-rc.1", "1.0.0-beta", "1.0.0-rc.10", "0.9", "1.0", "1.0.0.0", "x"];
    for a in vs {
        assert!(!version_newer(a, a));
        for b in vs {
            assert!(!(version_newer(a, b) && version_newer(b, a)), "{a} {b}");
        }
    }
}
