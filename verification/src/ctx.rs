//! The context a command-line front end carries: configuration and
//! global options, constructed once and passed to every command.

use vstd::prelude::*;

verus! {

/// Limits for one fan.
#[derive(Debug, Clone, Copy, PartialEq, Eq, Structural)]
pub struct FanConfig {
    pub max_speed: u32,
    pub min_speed: u32,
}

/// Static configuration: one entry per fan.
#[derive(Debug, Clone)]
pub struct Config {
    pub fan: Vec<FanConfig>,
}

/// Global options.
#[derive(Debug, Clone, Copy, PartialEq, Eq, Structural, Default)]
pub struct Options {
    pub help: bool,
    /// Silence all output.
    pub quiet: bool,
    pub verbose: u32,
}

/// Configuration and options bundled for the commands.
pub struct Context {
    config: Config,
    opts: Options,
}

impl Context {
    /// Bundle a configuration and options.
    pub fn new(config: Config, opts: Options) -> (r: Context)
        ensures
            r.config() == config,
            r.opts() == opts,
    {
        Context { config, opts }
    }

    /// The configuration.
    pub closed spec fn config(&self) -> Config {
        self.config
    }

    /// The options.
    pub closed spec fn opts(&self) -> Options {
        self.opts
    }

    /// The configuration.
    pub fn get_config(&self) -> (r: &Config)
        ensures
            *r == self.config(),
    {
        &self.config
    }

    /// The options.
    pub fn get_opts(&self) -> (r: &Options)
        ensures
            *r == self.opts(),
    {
        &self.opts
    }
}

} // verus!
