//! The two upstream catalogues of driver builds, and the download address
//! that each of them leads to.
//!
//! Versions from 114 on are looked up in the milestone catalogue, a document
//! that maps each major version to the newest full version; older ones are
//! asked of an endpoint that answers with the full version as plain text.

use vstd::prelude::*;
use vstd::string::*;
use crate::error::{Error, ErrorView};
use crate::platform::OS;
use crate::text::same_text;
use crate::version::ChromeVersion;

verus! {

/// One entry of the milestone catalogue.
#[derive(Clone, Debug, PartialEq, Eq)]
pub struct Milestone {
    pub milestone: String,
    pub version: String,
    pub revision: String,
}

/// The milestone catalogue: its entries, each filed under a major version.
/// Where two entries are filed under the same major version, the later one
/// counts.
#[derive(Clone, Debug, PartialEq, Eq)]
pub struct MilestoneVersions {
    pub timestamp: String,
    pub milestones: Vec<(String, Milestone)>,
}

/// The entries by major version: each filed entry in turn takes the place of
/// what was filed under its major version before.
pub open spec fn entries_of(filed: Seq<(String, Milestone)>) -> Map<Seq<char>, Milestone>
    decreases filed.len(),
{
    if filed.len() == 0 {
        Map::empty()
    } else {
        entries_of(filed.drop_last()).insert(filed.last().0@, filed.last().1)
    }
}

impl View for MilestoneVersions {
    type V = Map<Seq<char>, Milestone>;

    open spec fn view(&self) -> Map<Seq<char>, Milestone> {
        entries_of(self.milestones@)
    }
}

/// Which catalogue serves a version.
#[derive(Clone, Copy, Debug, PartialEq, Eq, Structural)]
pub enum Catalogue {
    Milestones,
    LegacyRelease,
}

/// The catalogue that serves `version`.
pub open spec fn catalogue_of(version: ChromeVersion) -> Catalogue {
    if version.is_modern() {
        Catalogue::Milestones
    } else {
        Catalogue::LegacyRelease
    }
}

/// The address of the milestone catalogue.
pub open spec fn milestones_address() -> Seq<char> {
    "https://googlechromelabs.github.io/chrome-for-testing/latest-versions-per-milestone.json"@
}

/// The address that answers with the newest full version of an old major
/// version.
pub open spec fn legacy_release_address(version: ChromeVersion) -> Seq<char> {
    "https://chromedriver.storage.googleapis.com/LATEST_RELEASE_"@ + version.text()
}

/// The address at which `version` is looked up.
pub open spec fn catalogue_address(version: ChromeVersion) -> Seq<char> {
    match catalogue_of(version) {
        Catalogue::Milestones => milestones_address(),
        Catalogue::LegacyRelease => legacy_release_address(version),
    }
}

/// How the builds from 114 on name a platform.
pub open spec fn modern_platform(os: OS) -> Seq<char> {
    match os {
        OS::Linux => "linux64"@,
        OS::MacOS => "mac-arm64"@,
        OS::Windows => "win64"@,
    }
}

/// How the older builds name a platform.
pub open spec fn legacy_platform(os: OS) -> Seq<char> {
    match os {
        OS::Linux => "linux64"@,
        OS::MacOS => "mac64"@,
        OS::Windows => "win32"@,
    }
}

/// Where the build `full_version` for `os` is downloaded, for a version from
/// 114 on.
pub open spec fn modern_download_address(os: OS, full_version: Seq<char>) -> Seq<char> {
    "https://storage.googleapis.com/chrome-for-testing-public/"@ + full_version + "/"@
        + modern_platform(os) + "/chromedriver-"@ + modern_platform(os) + ".zip"@
}

/// Where the build `full_version` for `os` is downloaded, for an older
/// version.
pub open spec fn legacy_download_address(os: OS, full_version: Seq<char>) -> Seq<char> {
    "https://chromedriver.storage.googleapis.com/"@ + full_version + "/chromedriver_"@
        + legacy_platform(os) + ".zip"@
}

/// What a look-up of `version` in the milestone catalogue `entries` gives for
/// `os`: the download address, or the version that has no entry.
pub open spec fn modern_resolution(
    os: OS,
    version: ChromeVersion,
    entries: Map<Seq<char>, Milestone>,
) -> Result<Seq<char>, ErrorView> {
    if entries.contains_key(version.text()) {
        Ok(modern_download_address(os, entries[version.text()].version@))
    } else {
        Err(ErrorView::MilestoneNotFound(version.text()))
    }
}

impl MilestoneVersions {
    /// A catalogue without entries.
    pub fn new(timestamp: String) -> (r: MilestoneVersions)
        ensures
            r.timestamp == timestamp,
            r@ == Map::<Seq<char>, Milestone>::empty(),
    {
        MilestoneVersions { timestamp, milestones: Vec::new() }
    }

    /// Files `entry` under the major version `key`, in place of what was
    /// filed there before.
    pub fn insert(&mut self, key: String, entry: Milestone)
        ensures
            final(self).timestamp == old(self).timestamp,
            final(self)@ == old(self)@.insert(key@, entry),
    {
        proof {
            assert(self.milestones@.push((key, entry)).drop_last() =~= self.milestones@);
        }
        self.milestones.push((key, entry));
    }

    /// The newest full version of the major version `version`, if the
    /// catalogue has an entry for it.
    pub fn full_version(&self, version: &ChromeVersion) -> (r: Result<String, Error>)
        ensures
            match r {
                Ok(full) => self@.contains_key(version.text()) && full@ == self@[version.text()].version@,
                Err(e) => !self@.contains_key(version.text()) && e@ == ErrorView::MilestoneNotFound(
                    version.text(),
                ),
            },
    {
        let key = version.to_text();
        let mut found: Option<usize> = None;
        let mut i: usize = 0;
        while i < self.milestones.len()
            invariant
                i <= self.milestones@.len(),
                key@ == version.text(),
                match found {
                    Some(k) => {
                        &&& k < i
                        &&& entries_of(self.milestones@.take(i as int)).contains_key(key@)
                        &&& entries_of(self.milestones@.take(i as int))[key@]
                            == self.milestones@[k as int].1
                    },
                    None => !entries_of(self.milestones@.take(i as int)).contains_key(key@),
                },
            decreases self.milestones@.len() - i,
        {
            proof {
                let longer = self.milestones@.take(i + 1);
                assert(longer.drop_last() =~= self.milestones@.take(i as int));
                assert(longer.last() == self.milestones@[i as int]);
            }
            if same_text(self.milestones[i].0.as_str(), key.as_str()) {
                found = Some(i);
            }
            i += 1;
        }
        proof {
            assert(self.milestones@.take(i as int) =~= self.milestones@);
        }
        match found {
            Some(k) => Ok(self.milestones[k].1.version.clone()),
            None => Err(Error::MilestoneNotFound(key)),
        }
    }
}

/// Whether an answer with this status counts as one: the status is one of
/// the 2xx family. Any other is a failure of the request.
pub open spec fn status_is_success(status: u16) -> bool {
    200 <= status < 300
}

/// Whether an answer with this status counts as one.
pub fn is_success(status: u16) -> (r: bool)
    ensures
        r == status_is_success(status),
{
    200 <= status && status < 300
}

/// The catalogue that serves `version`.
pub fn catalogue_for(version: &ChromeVersion) -> (r: Catalogue)
    ensures
        r == catalogue_of(*version),
{
    if version.uses_milestones() {
        Catalogue::Milestones
    } else {
        Catalogue::LegacyRelease
    }
}

/// The address at which `version` is looked up.
pub fn catalogue_url(version: &ChromeVersion) -> (r: String)
    ensures
        r@ == catalogue_address(*version),
{
    if version.uses_milestones() {
        "https://googlechromelabs.github.io/chrome-for-testing/latest-versions-per-milestone.json".to_owned()
    } else {
        let mut url = "https://chromedriver.storage.googleapis.com/LATEST_RELEASE_".to_owned();
        let text = version.to_text();
        url.append(text.as_str());
        url
    }
}

/// The download address of the build `full_version` for `os`, for a version
/// from 114 on.
pub fn modern_download_url(os: OS, full_version: &str) -> (r: String)
    ensures
        r@ == modern_download_address(os, full_version@),
{
    let platform = match os {
        OS::Linux => "linux64",
        OS::MacOS => "mac-arm64",
        OS::Windows => "win64",
    };
    let mut url = "https://storage.googleapis.com/chrome-for-testing-public/".to_owned();
    url.append(full_version);
    url.append("/");
    url.append(platform);
    url.append("/chromedriver-");
    url.append(platform);
    url.append(".zip");
    url
}

/// The download address of the build `full_version` for `os`, for a version
/// before 114. The full version is the answer of the legacy endpoint, taken
/// as it came.
pub fn legacy_download_url(os: OS, full_version: &str) -> (r: String)
    ensures
        r@ == legacy_download_address(os, full_version@),
{
    let platform = match os {
        OS::Linux => "linux64",
        OS::MacOS => "mac64",
        OS::Windows => "win32",
    };
    let mut url = "https://chromedriver.storage.googleapis.com/".to_owned();
    url.append(full_version);
    url.append("/chromedriver_");
    url.append(platform);
    url.append(".zip");
    url
}

/// Looks `version` up in the milestone catalogue and gives the download
/// address of its newest build for `os`.
pub fn resolve_modern(os: OS, version: &ChromeVersion, catalogue: &MilestoneVersions) -> (r: Result<
    String,
    Error,
>)
    ensures
        match r {
            Ok(url) => modern_resolution(os, *version, catalogue@) == Ok::<
                Seq<char>,
                ErrorView,
            >(url@),
            Err(e) => modern_resolution(os, *version, catalogue@) == Err::<
                Seq<char>,
                ErrorView,
            >(e@),
        },
{
    match catalogue.full_version(version) {
        Ok(full) => Ok(modern_download_url(os, full.as_str())),
        Err(e) => Err(e),
    }
}

/// A version is served by the legacy endpoint exactly when it is below 114,
/// and by the milestone catalogue otherwise; the two addresses differ.
pub proof fn lemma_dispatch(version: ChromeVersion)
    requires
        version.is_valid(),
    ensures
        version.number() < 114 ==> catalogue_address(version) == legacy_release_address(version),
        version.number() >= 114 ==> catalogue_address(version) == milestones_address(),
{
    version.lemma_modern_is_numeric();
}

} // verus!
