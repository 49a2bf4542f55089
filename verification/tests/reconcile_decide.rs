//! Reconciliation scenarios: what the decision reports for given
//! version readings, commits, and suppression thresholds.

use bitbar_version::parse::parse_version;
use bitbar_version::reconcile::{decide, SuppressionData};
use bitbar_version::version::SemVer;

fn v(s: &str) -> SemVer {
    parse_version(s).expect("version must parse")
}

#[test]
fn all_equal_nothing_to_show() {
    let d = decide("c0ffee", "c0ffee", v("1.4.2"), v("1.4.2"), v("1.4.2"), v("1.4.2"), &None);
    assert!(!d.has_anything_to_show());
    assert!(!d.plugin_out_of_date);
    assert!(!d.app_update_available);
    assert!(!d.restart_required);
    assert!(!d.suppression_active);
}

#[test]
fn running_equals_installed_below_release_is_an_update() {
    let d = decide("c0ffee", "c0ffee", v("1.4.0"), v("1.4.0"), v("1.4.0"), v("1.4.2"), &None);
    assert!(d.app_update_available);
    assert!(!d.restart_required);
    assert!(d.has_anything_to_show());
}

#[test]
fn installed_equals_release_but_running_older_is_a_restart() {
    let d = decide("c0ffee", "c0ffee", v("1.4.2"), v("1.4.0"), v("1.4.2"), v("1.4.2"), &None);
    assert!(!d.app_update_available);
    assert!(d.restart_required);
    assert!(d.has_anything_to_show());
}

#[test]
fn differing_plugin_commits_always_show() {
    let d = decide(
        "c0ffee",
        "deadbeef",
        v("1.4.2"),
        v("1.4.2"),
        v("1.2.0"),
        v("1.4.2"),
        &Some(v("9.9.9")),
    );
    assert!(d.plugin_out_of_date);
    assert!(d.has_anything_to_show());
}

#[test]
fn threshold_at_package_version_withholds_prompts() {
    let d = decide(
        "c0ffee",
        "c0ffee",
        v("1.0.0"),
        v("1.0.0"),
        v("1.2.0"),
        v("1.2.0"),
        &Some(v("1.2.0")),
    );
    assert!(d.suppression_active);
    assert!(d.app_update_available);
    assert!(!d.has_anything_to_show());
}

#[test]
fn threshold_below_package_version_does_not_withhold() {
    let d = decide(
        "c0ffee",
        "c0ffee",
        v("1.0.0"),
        v("1.0.0"),
        v("1.2.0"),
        v("1.2.0"),
        &Some(v("1.1.0")),
    );
    assert!(!d.suppression_active);
    assert!(d.app_update_available);
    assert!(d.has_anything_to_show());
}

#[test]
fn release_ahead_of_package_feed_is_reported() {
    let d = decide("c0ffee", "c0ffee", v("1.4.0"), v("1.4.0"), v("1.4.1"), v("1.4.2"), &None);
    assert!(d.app_update_available);
    assert!(d.package_behind_release);
    assert!(d.package_ahead_of_installed);
}

#[test]
fn decision_carries_the_readings_back() {
    let d = decide("c0ffee", "c0ffee", v("1.0.0"), v("1.0.1"), v("1.0.2"), v("1.0.3"), &None);
    assert_eq!(d.installed.patch, 0);
    assert_eq!(d.running.patch, 1);
    assert_eq!(d.package_feed.patch, 2);
    assert_eq!(d.release_feed.patch, 3);
}

#[test]
fn set_threshold_persists_the_version() {
    let mut data = SuppressionData::new();
    assert!(data.hide_until_package_gt.is_none());
    data.set_threshold(v("1.2.0"));
    let t = data.hide_until_package_gt.as_ref().unwrap();
    assert_eq!(t.major, 1);
    assert_eq!(t.minor, 2);
    assert_eq!(t.patch, 0);
}
