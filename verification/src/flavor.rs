//! The two host flavors the plugin can run under, and the fixed
//! per-flavor values: the package-feed cask name, the release
//! repository, the installed bundle's descriptor path, and the pinned
//! release version of the flavor whose hosting no longer publishes
//! releases.

use vstd::prelude::*;
use crate::version::SemVer;

verus! {

/// Which menu-bar host the plugin is running under.
#[derive(Clone, Copy, Debug, PartialEq, Eq, Structural)]
pub enum HostFlavor {
    SwiftBar,
    BitBar,
}

impl HostFlavor {
    /// The package-feed cask name for this flavor.
    pub open spec fn spec_cask_name(self) -> Seq<char> {
        match self {
            HostFlavor::SwiftBar => "swiftbar"@,
            HostFlavor::BitBar => "bitbar"@,
        }
    }

    /// The package-feed cask name for this flavor.
    pub fn cask_name(&self) -> (r: &'static str)
        ensures
            r@ == self.spec_cask_name(),
    {
        match self {
            HostFlavor::SwiftBar => "swiftbar",
            HostFlavor::BitBar => "bitbar",
        }
    }

    /// The URL of the package feed's cask record for this flavor.
    pub fn cask_feed_url(&self) -> (r: String)
        ensures
            r@ == "https://formulae.brew.sh/api/cask/"@ + self.spec_cask_name() + ".json"@,
    {
        let mut url = String::from_str("https://formulae.brew.sh/api/cask/");
        url.append(self.cask_name());
        url.append(".json");
        url
    }

    /// The path of the installed bundle's descriptor file.
    pub fn descriptor_path(&self) -> (r: &'static str)
        ensures
            *self == HostFlavor::SwiftBar ==> r@ == "/Applications/SwiftBar.app/Contents/Info.plist"@,
            *self == HostFlavor::BitBar ==> r@ == "/Applications/BitBar.app/Contents/Info.plist"@,
    {
        match self {
            HostFlavor::SwiftBar => "/Applications/SwiftBar.app/Contents/Info.plist",
            HostFlavor::BitBar => "/Applications/BitBar.app/Contents/Info.plist",
        }
    }

    /// The repository whose releases carry this flavor's updates, or
    /// nothing when the flavor stopped publishing releases.
    pub fn release_repo(&self) -> (r: Option<(&'static str, &'static str)>)
        ensures
            *self == HostFlavor::SwiftBar ==> (r matches Some(c) && c.0@ == "swiftbar"@ && c.1@
                == "SwiftBar"@),
            *self == HostFlavor::BitBar ==> r is None,
    {
        match self {
            HostFlavor::SwiftBar => Some(("swiftbar", "SwiftBar")),
            HostFlavor::BitBar => None,
        }
    }

    /// The last published release of a flavor without a release feed.
    pub fn pinned_release(&self) -> (v: SemVer)
        requires
            *self == HostFlavor::BitBar,
        ensures
            v.major == 1 && v.minor == 10 && v.patch == 1,
            v.pre_ids() == Seq::<Seq<char>>::empty(),
            v.wf(),
    {
        SemVer::new(1, 10, 1)
    }
}

} // verus!
