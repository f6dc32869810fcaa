//! What the command line says.

use crate::signals::Signal;
use vstd::prelude::*;

verus! {

/// The arguments of the command line.
#[derive(Debug, Clone, PartialEq, Eq)]
pub struct Args {
    /// Path to the config file.
    pub config: String,
    /// Test the configuration file and exit.
    pub test: bool,
    /// Path to the pid file.
    pub pid_file: String,
    /// Send a signal to the running instance.
    pub signal: Option<Signal>,
}

impl Default for Args {
    /// The arguments of a command line that names none.
    fn default() -> (r: Args)
        ensures
            r.config@ == "dispenser.toml"@,
            !r.test,
            r.pid_file@ == "dispenser.pid"@,
            r.signal is None,
    {
        Args {
            config: "dispenser.toml".to_owned(),
            test: false,
            pid_file: "dispenser.pid".to_owned(),
            signal: None,
        }
    }
}

/// What the process does first.
#[derive(Debug, Clone, Copy, PartialEq, Eq, Structural)]
pub enum Mode {
    /// Send this signal to the running instance and exit.
    SendSignal(Signal),
    /// Read the configuration, say whether it is good, and exit.
    TestConfig,
    /// Run the manager.
    Run,
}

impl Args {
    /// What the process does first: a signal to send comes before
    /// everything; else the configuration is read, and only tested if that
    /// is asked for.
    pub fn mode(&self) -> (r: Mode)
        ensures
            r == match self.signal {
                Some(signal) => Mode::SendSignal(signal),
                None => if self.test {
                    Mode::TestConfig
                } else {
                    Mode::Run
                },
            },
    {
        match self.signal {
            Some(signal) => Mode::SendSignal(signal),
            None => if self.test {
                Mode::TestConfig
            } else {
                Mode::Run
            },
        }
    }
}

} // verus!
