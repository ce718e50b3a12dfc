//! The closed set of supported host operating systems, and everything that
//! forks on it: file names, the version command, the executable bit.

use vstd::prelude::*;
use crate::error::{Error, ErrorView};
use crate::text::same_text;

verus! {

/// The file mode that makes the patched driver executable.
pub const EXECUTABLE_MODE: u32 = 0o755;

/// A supported host operating system.
#[derive(Clone, Copy, Debug, PartialEq, Eq, Structural)]
pub enum OS {
    Linux,
    MacOS,
    Windows,
}

/// A program and its arguments.
#[derive(Clone, Debug, PartialEq, Eq)]
pub struct Command {
    pub program: &'static str,
    pub arguments: Vec<&'static str>,
}

impl Command {
    /// The arguments as sequences of characters.
    pub open spec fn argument_texts(&self) -> Seq<Seq<char>> {
        self.arguments@.map_values(|a: &'static str| a@)
    }
}

impl OS {
    /// The operating system that a host name denotes, if it is a supported
    /// one.
    pub open spec fn named(name: Seq<char>) -> Option<OS> {
        if name == "linux"@ {
            Some(OS::Linux)
        } else if name == "macos"@ {
            Some(OS::MacOS)
        } else if name == "windows"@ {
            Some(OS::Windows)
        } else {
            None
        }
    }

    /// Where the unpatched driver lies, relative to the working directory.
    pub open spec fn driver_file_text(self) -> Seq<char> {
        match self {
            OS::Linux | OS::MacOS => "chromedriver"@,
            OS::Windows => "chromedriver.exe"@,
        }
    }

    /// Where the patched driver lies, relative to the working directory.
    pub open spec fn patched_file_text(self) -> Seq<char> {
        match self {
            OS::Linux | OS::MacOS => "chromedriver_PATCHED"@,
            OS::Windows => "chromedriver_PATCHED.exe"@,
        }
    }

    /// Whether a file must be marked executable before it can be started.
    pub open spec fn has_executable_bit(self) -> bool {
        self != OS::Windows
    }

    /// The program that prints the installed browser's version.
    pub open spec fn version_program_text(self) -> Seq<char> {
        match self {
            OS::Linux => "google-chrome-stable"@,
            OS::MacOS => "/Applications/Google Chrome.app/Contents/MacOS/Google Chrome"@,
            OS::Windows => "powershell"@,
        }
    }

    /// The arguments with which that program prints the version.
    pub open spec fn version_argument_texts(self) -> Seq<Seq<char>> {
        match self {
            OS::Linux | OS::MacOS => seq!["--version"@],
            OS::Windows => seq![
                "-c"@,
                "(Get-Item 'C:/Program Files/Google/Chrome/Application/chrome.exe').VersionInfo"@,
            ],
        }
    }

    /// Recognises the host by the name of its operating system: `linux`,
    /// `macos` or `windows`. Any other name is refused, and named in the
    /// error.
    pub fn from_name(name: &str) -> (r: Result<OS, Error>)
        ensures
            match r {
                Ok(os) => OS::named(name@) == Some(os),
                Err(e) => OS::named(name@) is None && e@ == ErrorView::UnsupportedOS(name@),
            },
    {
        if same_text(name, "linux") {
            Ok(OS::Linux)
        } else if same_text(name, "macos") {
            Ok(OS::MacOS)
        } else if same_text(name, "windows") {
            Ok(OS::Windows)
        } else {
            Err(Error::UnsupportedOS(name.to_owned()))
        }
    }

    /// The name of the unpatched driver file.
    pub fn driver_file(self) -> (r: &'static str)
        ensures
            r@ == self.driver_file_text(),
    {
        match self {
            OS::Linux | OS::MacOS => "chromedriver",
            OS::Windows => "chromedriver.exe",
        }
    }

    /// The name of the patched driver file.
    pub fn patched_file(self) -> (r: &'static str)
        ensures
            r@ == self.patched_file_text(),
    {
        match self {
            OS::Linux | OS::MacOS => "chromedriver_PATCHED",
            OS::Windows => "chromedriver_PATCHED.exe",
        }
    }

    /// Whether the patched driver needs its mode set before it is started.
    pub fn needs_executable_bit(self) -> (r: bool)
        ensures
            r == self.has_executable_bit(),
    {
        match self {
            OS::Linux | OS::MacOS => true,
            OS::Windows => false,
        }
    }

    /// The command that prints the installed browser's version.
    pub fn version_command(self) -> (r: Command)
        ensures
            r.program@ == self.version_program_text(),
            r.argument_texts() == self.version_argument_texts(),
    {
        let mut arguments: Vec<&'static str> = Vec::new();
        let program = match self {
            OS::Linux => {
                arguments.push("--version");
                "google-chrome-stable"
            },
            OS::MacOS => {
                arguments.push("--version");
                "/Applications/Google Chrome.app/Contents/MacOS/Google Chrome"
            },
            OS::Windows => {
                arguments.push("-c");
                arguments.push(
                    "(Get-Item 'C:/Program Files/Google/Chrome/Application/chrome.exe').VersionInfo",
                );
                "powershell"
            },
        };
        let r = Command { program, arguments };
        assert(r.argument_texts() =~= self.version_argument_texts());
        r
    }
}

} // verus!
