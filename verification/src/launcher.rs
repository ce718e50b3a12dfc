//! How the patched driver is started: on which port, with which argument,
//! and at which address it then answers.

use vstd::prelude::*;
use vstd::string::*;
use crate::entropy::random_below;
use crate::platform::OS;
use crate::text::{decimal, decimal_string};

verus! {

/// The lowest port that a driver is started on.
pub const PORT_FIRST: usize = 2000;

/// The port after the highest that a driver is started on.
pub const PORT_END: usize = 5000;

/// What it takes to start the driver, and where it will answer.
#[derive(Clone, Debug, PartialEq, Eq)]
pub struct Launch {
    /// The executable, relative to the working directory.
    pub program: String,
    /// Its only argument.
    pub argument: String,
    /// The address of the started driver.
    pub url: String,
    /// The port in that address.
    pub port: usize,
}

/// The executable to start on `os`.
pub open spec fn program_text(os: OS) -> Seq<char> {
    "./"@ + os.patched_file_text()
}

/// The argument that makes the driver listen on `port`.
pub open spec fn port_argument(port: nat) -> Seq<char> {
    "--port="@ + decimal(port)
}

/// The address of a driver that listens on `port`.
pub open spec fn driver_address(port: nat) -> Seq<char> {
    "http://localhost:"@ + decimal(port)
}

/// Whether `launch` starts the driver of `os` on `port`.
pub open spec fn launches(launch: Launch, os: OS, port: nat) -> bool {
    &&& launch.port == port
    &&& launch.program@ == program_text(os)
    &&& launch.argument@ == port_argument(port)
    &&& launch.url@ == driver_address(port)
}

/// Whether a driver may be started on `port`.
pub open spec fn port_in_range(port: nat) -> bool {
    2000 <= port < 5000
}

/// The launch of the driver of `os` on `port`.
pub fn launch_on(os: OS, port: usize) -> (r: Launch)
    ensures
        launches(r, os, port as nat),
{
    let number = decimal_string(port);
    let mut program = "./".to_owned();
    program.append(os.patched_file());
    let mut argument = "--port=".to_owned();
    argument.append(number.as_str());
    let mut url = "http://localhost:".to_owned();
    url.append(number.as_str());
    Launch { program, argument, url, port }
}

/// Picks the port for a launch, anywhere in the range. Nothing is known of
/// whether the port is free.
pub fn pick_port() -> (port: usize)
    ensures
        port_in_range(port as nat),
{
    random_below(PORT_FIRST, PORT_END)
}

/// The launch of the driver of `os` on a port picked for it.
pub fn plan_launch(os: OS) -> (r: Launch)
    ensures
        port_in_range(r.port as nat),
        launches(r, os, r.port as nat),
{
    launch_on(os, pick_port())
}

} // verus!
