//! The fixed per-flavor values and the request URLs.

use bitbar_version::flavor::HostFlavor;
use bitbar_version::repo::{plugin_repo, Repo};

#[test]
fn cask_names() {
    assert_eq!(HostFlavor::SwiftBar.cask_name(), "swiftbar");
    assert_eq!(HostFlavor::BitBar.cask_name(), "bitbar");
}

#[test]
fn cask_feed_urls() {
    assert_eq!(
        HostFlavor::SwiftBar.cask_feed_url(),
        "https://formulae.brew.sh/api/cask/swiftbar.json"
    );
    assert_eq!(
        HostFlavor::BitBar.cask_feed_url(),
        "https://formulae.brew.sh/api/cask/bitbar.json"
    );
}

#[test]
fn descriptor_paths() {
    assert_eq!(
        HostFlavor::SwiftBar.descriptor_path(),
        "/Applications/SwiftBar.app/Contents/Info.plist"
    );
    assert_eq!(
        HostFlavor::BitBar.descriptor_path(),
        "/Applications/BitBar.app/Contents/Info.plist"
    );
}

#[test]
fn release_repos() {
    assert_eq!(HostFlavor::SwiftBar.release_repo(), Some(("swiftbar", "SwiftBar")));
    assert_eq!(HostFlavor::BitBar.release_repo(), None);
}

#[test]
fn pinned_release_of_the_flavor_without_a_feed() {
    let v = HostFlavor::BitBar.pinned_release();
    assert_eq!(v.major, 1);
    assert_eq!(v.minor, 10);
    assert_eq!(v.patch, 1);
    assert!(v.pre.is_empty());
}

#[test]
fn request_urls() {
    let repo = Repo::new("swiftbar", "SwiftBar");
    assert_eq!(repo.info_url(), "https://api.github.com/repos/swiftbar/SwiftBar");
    assert_eq!(
        repo.latest_release_url(),
        "https://api.github.com/repos/swiftbar/SwiftBar/releases/latest"
    );
}

#[test]
fn plugin_repo_coordinates() {
    let repo = plugin_repo();
    assert_eq!(repo.user, "fenhl");
    assert_eq!(repo.name, "bitbar-version");
}
