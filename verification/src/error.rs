//! The ways in which the pipeline fails, named by cause.

use vstd::prelude::*;

verus! {

/// Why the pipeline stopped.
#[derive(Clone, Debug, PartialEq, Eq)]
pub enum Error {
    /// The host's operating system, named here, is not a supported one.
    UnsupportedOS(String),
    /// The browser is not installed, or its version could not be read.
    VersionProbeFailed,
    /// A catalogue could not be fetched or decoded; the detail says why.
    CatalogueFailed(String),
    /// The milestone catalogue has no entry for the installed version, named
    /// here.
    MilestoneNotFound(String),
    /// The archive could not be downloaded.
    DownloadFailed,
    /// The archive is malformed, or its output could not be written.
    ExtractionFailed,
    /// The driver file could not be read, or the patched file not written.
    PatchFailed,
    /// The patched driver could not be started.
    SpawnFailed,
    /// The driver did not answer in time.
    DriverUnreachable,
    /// The driver refused the session.
    SessionFailed,
}

/// An [`Error`] with its texts as sequences of characters.
pub enum ErrorView {
    UnsupportedOS(Seq<char>),
    VersionProbeFailed,
    CatalogueFailed(Seq<char>),
    MilestoneNotFound(Seq<char>),
    DownloadFailed,
    ExtractionFailed,
    PatchFailed,
    SpawnFailed,
    DriverUnreachable,
    SessionFailed,
}

impl View for Error {
    type V = ErrorView;

    open spec fn view(&self) -> ErrorView {
        match self {
            Error::UnsupportedOS(name) => ErrorView::UnsupportedOS(name@),
            Error::VersionProbeFailed => ErrorView::VersionProbeFailed,
            Error::CatalogueFailed(detail) => ErrorView::CatalogueFailed(detail@),
            Error::MilestoneNotFound(version) => ErrorView::MilestoneNotFound(version@),
            Error::DownloadFailed => ErrorView::DownloadFailed,
            Error::ExtractionFailed => ErrorView::ExtractionFailed,
            Error::PatchFailed => ErrorView::PatchFailed,
            Error::SpawnFailed => ErrorView::SpawnFailed,
            Error::DriverUnreachable => ErrorView::DriverUnreachable,
            Error::SessionFailed => ErrorView::SessionFailed,
        }
    }
}

} // verus!
