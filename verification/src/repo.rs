//! A repository on the release-hosting service, and the exact request
//! URLs that the lookups use.

use vstd::prelude::*;

verus! {

/// A repository, named by its owner and its name.
#[derive(Clone, Debug)]
pub struct Repo {
    /// The user or organization who owns the repository.
    pub user: String,
    /// The name of the repository.
    pub name: String,
}

impl Repo {
    pub fn new(user: &str, name: &str) -> (r: Repo)
        ensures
            r.user@ == user@,
            r.name@ == name@,
    {
        Repo { user: user.to_owned(), name: name.to_owned() }
    }

    /// The URL of the repository-information endpoint.
    pub open spec fn spec_info_url(self) -> Seq<char> {
        "https://api.github.com/repos/"@ + self.user@ + "/"@ + self.name@
    }

    /// The URL of the repository-information endpoint.
    pub fn info_url(&self) -> (r: String)
        ensures
            r@ == self.spec_info_url(),
    {
        let mut url = String::from_str("https://api.github.com/repos/");
        url.append(self.user.as_str());
        url.append("/");
        url.append(self.name.as_str());
        url
    }

    /// The URL of the latest-release endpoint.
    pub fn latest_release_url(&self) -> (r: String)
        ensures
            r@ == self.spec_info_url() + "/releases/latest"@,
    {
        let mut url = self.info_url();
        url.append("/releases/latest");
        url
    }
}

/// The repository this plugin itself is served from, for the
/// plugin-commit comparison.
pub fn plugin_repo() -> (r: Repo)
    ensures
        r.user@ == "fenhl"@,
        r.name@ == "bitbar-version"@,
{
    Repo::new("fenhl", "bitbar-version")
}

} // verus!
