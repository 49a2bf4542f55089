//! Reconciling the version readings into one decision.
//!
//! Four semantic versions (installed bundle, running process, package
//! feed, release feed), two plugin commit identities, and an optional
//! persisted suppression threshold go in; one immutable [`Decision`]
//! comes out. Commit identities are only ever compared for equality;
//! versions are compared only by semantic-version precedence; and the
//! suppression threshold gates only the package-feed-driven prompts,
//! never the plugin-update prompt.

use vstd::prelude::*;
use crate::version::{lemma_version_eq_not_lt, version_eq, version_le, version_lt, SemVer};

verus! {

/// The outcome of one reconciliation run.
#[derive(Clone, Debug)]
pub struct Decision {
    /// The plugin's own commit differs from the remote head: the plugin
    /// itself is out of date.
    pub plugin_out_of_date: bool,
    /// The installed application is older than the latest release.
    pub app_update_available: bool,
    /// The package feed has not caught up with the latest release.
    pub package_behind_release: bool,
    /// The package feed already offers something newer than the
    /// installed application.
    pub package_ahead_of_installed: bool,
    /// The installed application is up to date, but the running process
    /// has not picked it up yet.
    pub restart_required: bool,
    /// The persisted threshold withholds the package-feed-driven
    /// prompts.
    pub suppression_active: bool,
    /// The version of the installed application bundle.
    pub installed: SemVer,
    /// The version of the running process.
    pub running: SemVer,
    /// The version offered by the package feed.
    pub package_feed: SemVer,
    /// The version of the latest release.
    pub release_feed: SemVer,
}

impl Decision {
    /// Whether anything at all should be shown: a plugin update always;
    /// an application update or a pending restart only while not
    /// suppressed.
    pub open spec fn spec_has_anything_to_show(self) -> bool {
        self.plugin_out_of_date || ((self.app_update_available || self.restart_required)
            && !self.suppression_active)
    }

    /// Whether anything at all should be shown.
    pub fn has_anything_to_show(&self) -> (r: bool)
        ensures
            r == self.spec_has_anything_to_show(),
    {
        self.plugin_out_of_date || ((self.app_update_available || self.restart_required)
            && !self.suppression_active)
    }
}

/// The decision the given readings call for.
pub open spec fn spec_decide(
    plugin_commit: Seq<char>,
    remote_plugin_commit: Seq<char>,
    installed: SemVer,
    running: SemVer,
    package_feed: SemVer,
    release_feed: SemVer,
    suppressed: Option<SemVer>,
) -> Decision {
    Decision {
        plugin_out_of_date: plugin_commit != remote_plugin_commit,
        app_update_available: version_lt(installed, release_feed),
        package_behind_release: version_lt(package_feed, release_feed),
        package_ahead_of_installed: version_lt(installed, package_feed),
        restart_required: !version_lt(installed, release_feed) && version_lt(
            running,
            release_feed,
        ),
        suppression_active: match suppressed {
            Some(threshold) => version_le(package_feed, threshold),
            None => false,
        },
        installed,
        running,
        package_feed,
        release_feed,
    }
}

/// Reconciles the four version readings, the plugin commit identities,
/// and the persisted suppression threshold into one decision.
pub fn decide(
    plugin_commit: &str,
    remote_plugin_commit: &str,
    installed: SemVer,
    running: SemVer,
    package_feed: SemVer,
    release_feed: SemVer,
    suppressed: &Option<SemVer>,
) -> (d: Decision)
    requires
        installed.wf(),
        running.wf(),
        package_feed.wf(),
        release_feed.wf(),
        suppressed matches Some(threshold) ==> threshold.wf(),
    ensures
        d == spec_decide(
            plugin_commit@,
            remote_plugin_commit@,
            installed,
            running,
            package_feed,
            release_feed,
            *suppressed,
        ),
{
    let plugin_out_of_date = !str_eq(plugin_commit, remote_plugin_commit);
    let app_update_available = installed.precedes(&release_feed);
    let package_behind_release = package_feed.precedes(&release_feed);
    let package_ahead_of_installed = installed.precedes(&package_feed);
    let restart_required = !app_update_available && running.precedes(&release_feed);
    let suppression_active = match suppressed {
        Some(threshold) => package_feed.precedes_or_eq(threshold),
        None => false,
    };
    Decision {
        plugin_out_of_date,
        app_update_available,
        package_behind_release,
        package_ahead_of_installed,
        restart_required,
        suppression_active,
        installed,
        running,
        package_feed,
        release_feed,
    }
}

/// With identical plugin commits and all four versions of equal
/// precedence, there is nothing to show.
pub proof fn lemma_all_equal_nothing_to_show(
    plugin_commit: Seq<char>,
    installed: SemVer,
    running: SemVer,
    package_feed: SemVer,
    release_feed: SemVer,
    suppressed: Option<SemVer>,
)
    requires
        version_eq(installed, release_feed),
        version_eq(running, release_feed),
        version_eq(package_feed, release_feed),
    ensures
        !spec_decide(
            plugin_commit,
            plugin_commit,
            installed,
            running,
            package_feed,
            release_feed,
            suppressed,
        ).spec_has_anything_to_show(),
{
    lemma_version_eq_not_lt(installed, release_feed);
    lemma_version_eq_not_lt(running, release_feed);
}

/// When the running process matches the installed application and both
/// are older than the latest release, an application update is
/// reported, not a restart.
pub proof fn lemma_update_not_restart(
    plugin_commit: Seq<char>,
    remote_plugin_commit: Seq<char>,
    installed: SemVer,
    running: SemVer,
    package_feed: SemVer,
    release_feed: SemVer,
)
    requires
        version_eq(running, installed),
        version_lt(installed, release_feed),
    ensures
        ({
            let d = spec_decide(
                plugin_commit,
                remote_plugin_commit,
                installed,
                running,
                package_feed,
                release_feed,
                None,
            );
            d.app_update_available && !d.restart_required && d.spec_has_anything_to_show()
        }),
{
}

/// When the installed application already matches the latest release
/// but the running process is older, a restart is reported, not an
/// application update.
pub proof fn lemma_restart_not_update(
    plugin_commit: Seq<char>,
    remote_plugin_commit: Seq<char>,
    installed: SemVer,
    running: SemVer,
    package_feed: SemVer,
    release_feed: SemVer,
)
    requires
        version_eq(installed, release_feed),
        version_lt(running, installed),
    ensures
        ({
            let d = spec_decide(
                plugin_commit,
                remote_plugin_commit,
                installed,
                running,
                package_feed,
                release_feed,
                None,
            );
            d.restart_required && !d.app_update_available
        }),
{
    lemma_version_eq_not_lt(installed, release_feed);
}

/// The suppression threshold is a floor: it is active exactly when the
/// package feed does not exceed it.
pub proof fn lemma_suppression_is_floor(
    plugin_commit: Seq<char>,
    remote_plugin_commit: Seq<char>,
    installed: SemVer,
    running: SemVer,
    package_feed: SemVer,
    release_feed: SemVer,
    threshold: SemVer,
)
    ensures
        spec_decide(
            plugin_commit,
            remote_plugin_commit,
            installed,
            running,
            package_feed,
            release_feed,
            Some(threshold),
        ).suppression_active == version_le(package_feed, threshold),
{
}

/// The plugin-update prompt is never subject to suppression: differing
/// plugin commits always leave something to show.
pub proof fn lemma_plugin_prompt_unsuppressed(
    plugin_commit: Seq<char>,
    remote_plugin_commit: Seq<char>,
    installed: SemVer,
    running: SemVer,
    package_feed: SemVer,
    release_feed: SemVer,
    suppressed: Option<SemVer>,
)
    requires
        plugin_commit != remote_plugin_commit,
    ensures
        spec_decide(
            plugin_commit,
            remote_plugin_commit,
            installed,
            running,
            package_feed,
            release_feed,
            suppressed,
        ).spec_has_anything_to_show(),
{
}

/// The persisted suppression state: an optional version below which the
/// package-feed-driven prompts are withheld.
#[derive(Clone, Debug)]
pub struct SuppressionData {
    /// Withhold package-feed prompts unless the package feed exceeds
    /// this version.
    pub hide_until_package_gt: Option<SemVer>,
}

impl SuppressionData {
    /// The state before anything was persisted: no suppression.
    pub fn new() -> (d: SuppressionData)
        ensures
            d.hide_until_package_gt is None,
    {
        SuppressionData { hide_until_package_gt: None }
    }

    /// Sets the suppression threshold, as the explicit user command
    /// does.
    pub fn set_threshold(&mut self, threshold: SemVer)
        ensures
            final(self).hide_until_package_gt == Some(threshold),
    {
        self.hide_until_package_gt = Some(threshold);
    }
}

/// Whether two commit identities are the same. Commit identities are
/// opaque: equality is the only comparison ever made.
fn str_eq(a: &str, b: &str) -> (r: bool)
    ensures
        r == (a@ == b@),
{
    let alen: usize = a.unicode_len();
    let blen: usize = b.unicode_len();
    if alen != blen {
        return false;
    }
    let mut i: usize = 0;
    while i < alen
        invariant
            0 <= i <= alen,
            alen == a@.len(),
            alen == b@.len(),
            forall|j: int| 0 <= j < i ==> a@[j] == b@[j],
        decreases alen - i,
    {
        if a.get_char(i) != b.get_char(i) {
            return false;
        }
        i = i + 1;
    }
    proof {
        assert(a@ =~= b@);
    }
    true
}

} // verus!
