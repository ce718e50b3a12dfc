//! The launch sequence as a state machine: from the probe of the host to the
//! running driver.
//!
//! The machine decides and never acts. It hands out one [`Action`] at a
//! time; whoever drives it carries the action out and reports what came of
//! it as an [`Event`]. No action is handed out before the one before it has
//! been reported on, so the steps happen in their order: version probe,
//! catalogue look-up, download, extraction, patch, spawn. A driver file that
//! is already there is not fetched again, and a patched file that is already
//! there is not made again.

use vstd::prelude::*;
use vstd::string::*;
use crate::archive::{listed_files, plan_extraction, plan_follows, Plan, Step};
use crate::catalogue::{
    catalogue_address, catalogue_url, legacy_download_address, legacy_download_url,
    modern_resolution, resolve_modern, MilestoneVersions,
};
use crate::error::{Error, ErrorView};
use crate::launcher::{launches, plan_launch, port_in_range, Launch};
use crate::patcher::{is_patch_of, patch};
use crate::platform::{Command, EXECUTABLE_MODE, OS};
use crate::version::{digits_of, ChromeVersion};

verus! {

/// Where the sequence stands: what it is waiting to hear of.
#[derive(Clone, Copy, Debug, PartialEq, Eq, Structural)]
pub enum Stage {
    /// Nothing has happened yet.
    Start,
    /// The name of the host's operating system.
    Host,
    /// Whether the driver file is there.
    DriverPresence { os: OS },
    /// What the version command printed.
    VersionOutput { os: OS },
    /// What the catalogue answered.
    CatalogueReply { os: OS, version: ChromeVersion },
    /// The downloaded archive.
    ArchiveBody { os: OS },
    /// The end of the extraction; `complete` says whether its plan was.
    Extraction { os: OS, complete: bool },
    /// Whether the patched file is there.
    PatchedPresence { os: OS },
    /// The bytes of the driver file.
    DriverImage { os: OS },
    /// The patched file being written.
    PatchedWritten { os: OS },
    /// The patched file being made executable.
    ModeSet { os: OS },
    /// The driver being started.
    Spawning,
    /// The sequence has ended, well or badly.
    Done,
}

/// What came of the last action.
pub enum Event {
    /// The sequence is to begin.
    Begin,
    /// The name of the host's operating system.
    Host(String),
    /// Whether the file that was asked about is there.
    Present(bool),
    /// What the command printed.
    Output(String),
    /// The milestone catalogue.
    Milestones(MilestoneVersions),
    /// The answer of the legacy endpoint.
    Release(String),
    /// The downloaded archive.
    Body(Vec<u8>),
    /// The bytes of the file that was read.
    Image(Vec<u8>),
    /// The action was carried out.
    Completed,
    /// The action failed; the detail says how.
    Failed(String),
}

/// What is to be done next.
#[derive(Clone, Debug, PartialEq, Eq)]
pub enum Action {
    /// Report the name of the host's operating system, as [`Event::Host`].
    ProbeHost,
    /// Report whether this file is there, as [`Event::Present`].
    CheckPresence(String),
    /// Run this command and report what it printed, as [`Event::Output`].
    RunCommand(Command),
    /// Fetch the milestone catalogue from this address and report it, as
    /// [`Event::Milestones`]. An answer whose status is no success, or that
    /// cannot be decoded, is a failure.
    FetchMilestones(String),
    /// Fetch this address and report the answer as text, as
    /// [`Event::Release`]. An answer whose status is no success is a failure.
    FetchRelease(String),
    /// Download this address and report the bytes, as [`Event::Body`]. An
    /// answer whose status is no success is a failure.
    Download(String),
    /// Take these steps in their order.
    Extract(Vec<Step>),
    /// Read this file and report its bytes, as [`Event::Image`].
    ReadFile(String),
    /// Write this file.
    WriteFile { path: String, contents: Vec<u8> },
    /// Give this file this mode.
    SetMode { path: String, mode: u32 },
    /// Start the driver, such that it ends when its handle is dropped.
    Spawn(Launch),
    /// Nothing: the driver runs.
    Finish,
    /// Nothing: the sequence has failed.
    Fail(Error),
}

/// Whether `action` asks whether the file `path` is there.
pub open spec fn checks(action: Action, path: Seq<char>) -> bool {
    action matches Action::CheckPresence(p) && p@ == path
}

/// Whether `action` reports the failure `error`.
pub open spec fn fails_with(action: Action, error: ErrorView) -> bool {
    action matches Action::Fail(e) && e@ == error
}

/// Whether `action` runs the version command of `os`.
pub open spec fn probes_version(action: Action, os: OS) -> bool {
    action matches Action::RunCommand(command) && command.program@ == os.version_program_text()
        && command.argument_texts() == os.version_argument_texts()
}

/// Whether `action` asks the catalogue that serves `version`.
pub open spec fn asks_catalogue(action: Action, version: ChromeVersion) -> bool {
    if version.is_modern() {
        action matches Action::FetchMilestones(url) && url@ == catalogue_address(version)
    } else {
        action matches Action::FetchRelease(url) && url@ == catalogue_address(version)
    }
}

/// Whether `action` downloads `address`.
pub open spec fn downloads(action: Action, address: Seq<char>) -> bool {
    action matches Action::Download(url) && url@ == address
}

/// Whether the sequence ends with the failure `error`.
pub open spec fn ends_with(next: Stage, action: Action, error: ErrorView) -> bool {
    next == Stage::Done && fails_with(action, error)
}

/// Whether the sequence goes on to start the driver of `os`, on some port of
/// the range.
pub open spec fn goes_to_spawn(os: OS, next: Stage, action: Action) -> bool {
    &&& next == Stage::Spawning
    &&& action matches Action::Spawn(launch)
    &&& port_in_range(launch.port as nat)
    &&& launches(launch, os, launch.port as nat)
}

/// Whether the sequence goes on as it does once the patched file is there:
/// the file is made executable where the host knows of that, and the driver
/// is started at once elsewhere.
pub open spec fn goes_past_patch(os: OS, next: Stage, action: Action) -> bool {
    if os.has_executable_bit() {
        &&& next == Stage::ModeSet { os }
        &&& action matches Action::SetMode { path, mode }
        &&& path@ == os.patched_file_text()
        &&& mode == 0o755
    } else {
        goes_to_spawn(os, next, action)
    }
}

/// Whether `event` is one that `stage` waits for.
pub open spec fn accepts(stage: Stage, event: Event) -> bool {
    match stage {
        Stage::Start => event is Begin,
        Stage::Host => event is Host,
        Stage::DriverPresence { .. } | Stage::PatchedPresence { .. } => event is Present
            || event is Failed,
        Stage::VersionOutput { .. } => event is Output || event is Failed,
        Stage::CatalogueReply { version, .. } => {
            ||| event is Failed
            ||| event is Milestones && version.is_modern()
            ||| event is Release && !version.is_modern()
        },
        Stage::ArchiveBody { .. } => event is Body || event is Failed,
        Stage::DriverImage { .. } => event is Image || event is Failed,
        Stage::Extraction { .. } | Stage::PatchedWritten { .. } | Stage::ModeSet { .. }
        | Stage::Spawning => event is Completed || event is Failed,
        Stage::Done => false,
    }
}

/// Whether, after `event` in `stage`, the sequence may stand at `next` and
/// ask for `action`. But for the port of the launch and the letters of the
/// patch, which are drawn, and for what the files of the archive hold,
/// `next` and `action` are determined.
pub open spec fn follows(stage: Stage, event: Event, next: Stage, action: Action) -> bool {
    match (stage, event) {
        (Stage::Start, Event::Begin) => next == Stage::Host && action is ProbeHost,
        (Stage::Host, Event::Host(name)) => match OS::named(name@) {
            Some(os) => next == (Stage::DriverPresence { os }) && checks(
                action,
                os.driver_file_text(),
            ),
            None => ends_with(next, action, ErrorView::UnsupportedOS(name@)),
        },
        (Stage::DriverPresence { os }, Event::Present(there)) => if there {
            next == (Stage::PatchedPresence { os }) && checks(action, os.patched_file_text())
        } else {
            next == (Stage::VersionOutput { os }) && probes_version(action, os)
        },
        (Stage::DriverPresence { .. }, Event::Failed(_)) => ends_with(
            next,
            action,
            ErrorView::PatchFailed,
        ),
        (Stage::VersionOutput { os }, Event::Output(text)) => if digits_of(text@).len() >= 3 {
            &&& next matches Stage::CatalogueReply { os: o, version }
            &&& o == os
            &&& version.is_valid()
            &&& version.text() == digits_of(text@).take(3)
            &&& asks_catalogue(action, version)
        } else {
            ends_with(next, action, ErrorView::VersionProbeFailed)
        },
        (Stage::VersionOutput { .. }, Event::Failed(_)) => ends_with(
            next,
            action,
            ErrorView::VersionProbeFailed,
        ),
        (Stage::CatalogueReply { os, version }, Event::Milestones(catalogue)) => {
            &&& version.is_modern()
            &&& match modern_resolution(os, version, catalogue@) {
                Ok(address) => next == (Stage::ArchiveBody { os }) && downloads(action, address),
                Err(error) => ends_with(next, action, error),
            }
        },
        (Stage::CatalogueReply { os, version }, Event::Release(full)) => {
            &&& !version.is_modern()
            &&& next == (Stage::ArchiveBody { os })
            &&& downloads(action, legacy_download_address(os, full@))
        },
        (Stage::CatalogueReply { .. }, Event::Failed(detail)) => ends_with(
            next,
            action,
            ErrorView::CatalogueFailed(detail@),
        ),
        (Stage::ArchiveBody { os }, Event::Body(body)) => {
            &&& next matches Stage::Extraction { os: o, complete }
            &&& o == os
            &&& action matches Action::Extract(steps)
            &&& plan_follows((Plan { steps, complete }), listed_files(body@))
        },
        (Stage::ArchiveBody { .. }, Event::Failed(_)) => ends_with(
            next,
            action,
            ErrorView::DownloadFailed,
        ),
        (Stage::Extraction { os, complete }, Event::Completed) => if complete {
            next == (Stage::PatchedPresence { os }) && checks(action, os.patched_file_text())
        } else {
            ends_with(next, action, ErrorView::ExtractionFailed)
        },
        (Stage::Extraction { .. }, Event::Failed(_)) => ends_with(
            next,
            action,
            ErrorView::ExtractionFailed,
        ),
        (Stage::PatchedPresence { os }, Event::Present(there)) => if there {
            goes_past_patch(os, next, action)
        } else {
            &&& next == (Stage::DriverImage { os })
            &&& action matches Action::ReadFile(path)
            &&& path@ == os.driver_file_text()
        },
        (Stage::PatchedPresence { .. }, Event::Failed(_)) => ends_with(
            next,
            action,
            ErrorView::PatchFailed,
        ),
        (Stage::DriverImage { os }, Event::Image(image)) => {
            &&& next == (Stage::PatchedWritten { os })
            &&& action matches Action::WriteFile { path, contents }
            &&& path@ == os.patched_file_text()
            &&& is_patch_of(image@, contents@)
        },
        (Stage::DriverImage { .. }, Event::Failed(_)) => ends_with(
            next,
            action,
            ErrorView::PatchFailed,
        ),
        (Stage::PatchedWritten { os }, Event::Completed) => goes_past_patch(os, next, action),
        (Stage::PatchedWritten { .. }, Event::Failed(_)) => ends_with(
            next,
            action,
            ErrorView::PatchFailed,
        ),
        (Stage::ModeSet { os }, Event::Completed) => goes_to_spawn(os, next, action),
        (Stage::ModeSet { .. }, Event::Failed(_)) => ends_with(
            next,
            action,
            ErrorView::PatchFailed,
        ),
        (Stage::Spawning, Event::Completed) => next == Stage::Done && action is Finish,
        (Stage::Spawning, Event::Failed(_)) => ends_with(next, action, ErrorView::SpawnFailed),
        _ => false,
    }
}

/// The stage at which a sequence begins.
pub fn start() -> (r: Stage)
    ensures
        r == Stage::Start,
{
    Stage::Start
}

/// The end of the sequence with the failure `error`.
fn fail(error: Error) -> (r: (Stage, Action))
    ensures
        ends_with(r.0, r.1, error@),
{
    (Stage::Done, Action::Fail(error))
}

/// The start of the driver of `os`.
fn spawn(os: OS) -> (r: (Stage, Action))
    ensures
        goes_to_spawn(os, r.0, r.1),
{
    (Stage::Spawning, Action::Spawn(plan_launch(os)))
}

/// What follows once the patched file is there.
fn past_patch(os: OS) -> (r: (Stage, Action))
    ensures
        goes_past_patch(os, r.0, r.1),
{
    if os.needs_executable_bit() {
        (
            Stage::ModeSet { os },
            Action::SetMode { path: os.patched_file().to_owned(), mode: EXECUTABLE_MODE },
        )
    } else {
        spawn(os)
    }
}

/// The look-up of `version` in the catalogue that serves it.
fn ask_catalogue(os: OS, version: ChromeVersion) -> (r: (Stage, Action))
    requires
        version.is_valid(),
    ensures
        r.0 == (Stage::CatalogueReply { os, version }),
        asks_catalogue(r.1, version),
{
    let url = catalogue_url(&version);
    let action = if version.uses_milestones() {
        Action::FetchMilestones(url)
    } else {
        Action::FetchRelease(url)
    };
    (Stage::CatalogueReply { os, version }, action)
}

/// Takes note of what came of the last action and says where the sequence
/// stands now and what is to be done next. An event that the stage does not
/// wait for gives nothing.
pub fn advance(stage: Stage, event: Event) -> (r: Option<(Stage, Action)>)
    ensures
        match r {
            Some((next, action)) => accepts(stage, event) && follows(stage, event, next, action),
            None => !accepts(stage, event),
        },
{
    match (stage, event) {
        (Stage::Start, Event::Begin) => Some((Stage::Host, Action::ProbeHost)),
        (Stage::Host, Event::Host(name)) => match OS::from_name(name.as_str()) {
            Ok(os) => Some(
                (Stage::DriverPresence { os }, Action::CheckPresence(os.driver_file().to_owned())),
            ),
            Err(error) => Some(fail(error)),
        },
        (Stage::DriverPresence { os }, Event::Present(there)) => if there {
            Some(
                (
                    Stage::PatchedPresence { os },
                    Action::CheckPresence(os.patched_file().to_owned()),
                ),
            )
        } else {
            Some((Stage::VersionOutput { os }, Action::RunCommand(os.version_command())))
        },
        (Stage::DriverPresence { .. }, Event::Failed(_)) => Some(fail(Error::PatchFailed)),
        (Stage::VersionOutput { os }, Event::Output(text)) => match ChromeVersion::parse(
            text.as_str(),
        ) {
            Ok(version) => Some(ask_catalogue(os, version)),
            Err(error) => Some(fail(error)),
        },
        (Stage::VersionOutput { .. }, Event::Failed(_)) => Some(fail(Error::VersionProbeFailed)),
        (Stage::CatalogueReply { os, version }, Event::Milestones(catalogue)) => {
            if !version.uses_milestones() {
                return None;
            }
            match resolve_modern(os, &version, &catalogue) {
                Ok(url) => Some((Stage::ArchiveBody { os }, Action::Download(url))),
                Err(error) => Some(fail(error)),
            }
        },
        (Stage::CatalogueReply { os, version }, Event::Release(full)) => {
            if version.uses_milestones() {
                return None;
            }
            Some(
                (
                    Stage::ArchiveBody { os },
                    Action::Download(legacy_download_url(os, full.as_str())),
                ),
            )
        },
        (Stage::CatalogueReply { .. }, Event::Failed(detail)) => Some(
            fail(Error::CatalogueFailed(detail)),
        ),
        (Stage::ArchiveBody { os }, Event::Body(body)) => {
            let plan = plan_extraction(body);
            Some((Stage::Extraction { os, complete: plan.complete }, Action::Extract(plan.steps)))
        },
        (Stage::ArchiveBody { .. }, Event::Failed(_)) => Some(fail(Error::DownloadFailed)),
        (Stage::Extraction { os, complete }, Event::Completed) => if complete {
            Some(
                (
                    Stage::PatchedPresence { os },
                    Action::CheckPresence(os.patched_file().to_owned()),
                ),
            )
        } else {
            Some(fail(Error::ExtractionFailed))
        },
        (Stage::Extraction { .. }, Event::Failed(_)) => Some(fail(Error::ExtractionFailed)),
        (Stage::PatchedPresence { os }, Event::Present(there)) => if there {
            Some(past_patch(os))
        } else {
            Some((Stage::DriverImage { os }, Action::ReadFile(os.driver_file().to_owned())))
        },
        (Stage::PatchedPresence { .. }, Event::Failed(_)) => Some(fail(Error::PatchFailed)),
        (Stage::DriverImage { os }, Event::Image(image)) => {
            let contents = patch(&image);
            Some(
                (
                    Stage::PatchedWritten { os },
                    Action::WriteFile { path: os.patched_file().to_owned(), contents },
                ),
            )
        },
        (Stage::DriverImage { .. }, Event::Failed(_)) => Some(fail(Error::PatchFailed)),
        (Stage::PatchedWritten { os }, Event::Completed) => Some(past_patch(os)),
        (Stage::PatchedWritten { .. }, Event::Failed(_)) => Some(fail(Error::PatchFailed)),
        (Stage::ModeSet { os }, Event::Completed) => Some(spawn(os)),
        (Stage::ModeSet { .. }, Event::Failed(_)) => Some(fail(Error::PatchFailed)),
        (Stage::Spawning, Event::Completed) => Some((Stage::Done, Action::Finish)),
        (Stage::Spawning, Event::Failed(_)) => Some(fail(Error::SpawnFailed)),
        _ => None,
    }
}

/// How far a stage is along the sequence.
pub open spec fn rank(stage: Stage) -> nat {
    match stage {
        Stage::Start => 0,
        Stage::Host => 1,
        Stage::DriverPresence { .. } => 2,
        Stage::VersionOutput { .. } => 3,
        Stage::CatalogueReply { .. } => 4,
        Stage::ArchiveBody { .. } => 5,
        Stage::Extraction { .. } => 6,
        Stage::PatchedPresence { .. } => 7,
        Stage::DriverImage { .. } => 8,
        Stage::PatchedWritten { .. } => 9,
        Stage::ModeSet { .. } => 10,
        Stage::Spawning => 11,
        Stage::Done => 12,
    }
}

/// Whether `action` reaches out for a driver: runs the version command,
/// asks a catalogue, downloads or unpacks.
pub open spec fn acquires(action: Action) -> bool {
    ||| action is RunCommand
    ||| action is FetchMilestones
    ||| action is FetchRelease
    ||| action is Download
    ||| action is Extract
}

/// Whether `action` writes the contents of a file.
pub open spec fn writes(action: Action) -> bool {
    action is Extract || action is WriteFile
}

/// Whether `action` touches anything outside the machine.
pub open spec fn acts(action: Action) -> bool {
    !(action is Finish || action is Fail)
}

/// The sequence only moves forward: each stage comes later than the one
/// before it, and what a stage asks for belongs to it. So the version is
/// probed before a catalogue is asked, a catalogue before the download, the
/// download before the extraction, the extraction before the patch, and the
/// patch before the driver is started.
pub proof fn lemma_stages_advance(stage: Stage, event: Event, next: Stage, action: Action)
    requires
        follows(stage, event, next, action),
    ensures
        rank(stage) < rank(next),
        accepts(stage, event),
        action is RunCommand ==> rank(next) == 3,
        action is FetchMilestones || action is FetchRelease ==> rank(next) == 4,
        action is Download ==> rank(next) == 5,
        action is Extract ==> rank(next) == 6,
        action is ReadFile ==> rank(next) == 8,
        action is WriteFile ==> rank(next) == 9,
        action is SetMode ==> rank(next) == 10,
        action is Spawn ==> rank(next) == 11,
        action is Finish || action is Fail ==> next == Stage::Done,
{
}

/// Once the sequence has ended, it waits for nothing.
pub proof fn lemma_done_is_final(event: Event)
    ensures
        !accepts(Stage::Done, event),
{
}

/// A host that is not supported ends the sequence at once, with the name of
/// its operating system and before anything was touched: the only action
/// before was the probe itself.
pub proof fn lemma_unsupported_host_ends(name: String, next: Stage, action: Action)
    requires
        OS::named(name@) is None,
        follows(Stage::Host, Event::Host(name), next, action),
    ensures
        next == Stage::Done,
        fails_with(action, ErrorView::UnsupportedOS(name@)),
        !acts(action),
{
}

/// A driver file that is there is not fetched again: the sequence goes
/// straight on to the patched file.
pub proof fn lemma_present_driver_is_kept(os: OS, next: Stage, action: Action)
    requires
        follows(Stage::DriverPresence { os }, Event::Present(true), next, action),
    ensures
        next == (Stage::PatchedPresence { os }),
        checks(action, os.patched_file_text()),
{
}

/// From the look at the patched file on, nothing reaches out for a driver
/// any more.
pub proof fn lemma_no_acquisition_after_fetch(
    stage: Stage,
    event: Event,
    next: Stage,
    action: Action,
)
    requires
        rank(stage) >= 7,
        follows(stage, event, next, action),
    ensures
        rank(next) >= 7,
        !acquires(action),
{
}

/// A patched file that is there is kept as it is: neither it nor the driver
/// file is written from then on.
pub proof fn lemma_present_patch_is_kept(os: OS, next: Stage, action: Action)
    requires
        follows(Stage::PatchedPresence { os }, Event::Present(true), next, action),
    ensures
        rank(next) >= 10,
        !writes(action),
        !acquires(action),
{
}

/// Once the patched file is known to be there, no later action writes the
/// contents of a file.
pub proof fn lemma_no_write_after_patch(stage: Stage, event: Event, next: Stage, action: Action)
    requires
        rank(stage) >= 10,
        follows(stage, event, next, action),
    ensures
        rank(next) >= 10,
        !writes(action),
        !acquires(action),
{
}

} // verus!
