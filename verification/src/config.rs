//! Configuration: the refresh interval, from the config file and the command line.

use vstd::prelude::*;

verus! {

/// The refresh interval, in seconds, when nothing else is given.
pub const DEFAULT_INTERVAL: u64 = 2;

/// The command-line arguments.
#[derive(Debug, Clone, Copy)]
pub struct CliArgs {
    /// Refresh interval in seconds, where the flag was given.
    pub interval: Option<u64>,
}

/// The settings read from the config file.
#[derive(Debug, Clone, Copy)]
pub struct Config {
    /// Refresh interval in seconds.
    pub interval: u64,
}

impl Default for Config {
    fn default() -> (c: Self)
        ensures
            c.interval == DEFAULT_INTERVAL,
    {
        Config { interval: DEFAULT_INTERVAL }
    }
}

impl Config {
    /// The configuration that loading yields: the file's settings when it
    /// was read and parsed, else the defaults.
    pub fn loaded_or_default(parsed: Option<Config>) -> (c: Config)
        ensures
            c.interval == (match parsed {
                Some(p) => p.interval,
                None => DEFAULT_INTERVAL,
            }),
    {
        match parsed {
            Some(p) => p,
            None => Config::default(),
        }
    }

    /// Lets the command line override the file: a flag that was given
    /// replaces the file's interval, and an absent one leaves it.
    pub fn merge_cli(&mut self, cli: &CliArgs)
        ensures
            final(self).interval == (match cli.interval {
                Some(i) => i,
                None => old(self).interval,
            }),
    {
        if let Some(i) = cli.interval {
            self.interval = i;
        }
    }
}

} // verus!
