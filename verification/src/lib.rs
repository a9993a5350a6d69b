//! Server library for the PokeEscape game: a fixed-size worker pool, the
//! line-based protocol negotiation and session state machines, the
//! coordinator that owns the client registry and room table, and the error
//! taxonomy shared by all of them.
use vstd::prelude::*;

pub mod alist;

pub mod error;

pub mod map;


pub mod server;

pub mod text;

pub mod threads;

pub mod version;

verus! {

/// Runtime configuration for the server process, with the defaults the
/// command line falls back to.
pub struct Config {
    /// port to listen on
    pub port: u16,

    /// interface (ip) to listen on
    pub host: String,

    /// verbose mode
    pub verbose: bool,

    /// number of threads in the worker pool
    pub threads: usize,

    /// path of the map configuration file
    pub config: String,
}

impl Config {
    /// Creates a configuration filled with the default values.
    pub fn new() -> (c: Config)
        ensures
            c.port == 1996,
            c.host@ == "127.0.0.1"@,
            !c.verbose,
            c.threads == 8,
            c.config@ == "./config.toml"@,
    {
        Config {
            port: 1996,
            host: "127.0.0.1".to_owned(),
            verbose: false,
            threads: 8,
            config: "./config.toml".to_owned(),
        }
    }
}

} // verus!
