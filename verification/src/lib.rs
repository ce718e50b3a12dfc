//! Decision logic for launching a ChromeDriver whose `cdc_` markers have been
//! overwritten: platform and version discovery, catalogue resolution, archive
//! extraction planning, binary patching and the launch sequence.
//!
//! Nothing here touches the file system, the network or a process. The
//! sequence in [`pipeline`] says what is to be done next; the caller does it
//! and reports back.

pub mod archive;
pub mod capabilities;
pub mod catalogue;
pub mod entropy;
pub mod error;
pub mod launcher;
pub mod patcher;
pub mod pipeline;
pub mod platform;
pub mod readiness;
pub mod text;
pub mod version;

pub use crate::catalogue::{Milestone, MilestoneVersions};
pub use crate::error::Error;
pub use crate::platform::OS;
pub use crate::version::ChromeVersion;
