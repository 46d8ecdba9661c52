//! What the caller may set: where the sources go and the limits written
//! into them.

use vstd::prelude::*;

verus! {

pub struct Config {
    pub path: Option<String>,
    pub vla_limit: Option<usize>,
    pub port: Option<u16>,
    pub threads: Option<usize>,
}

impl Config {
    pub fn new() -> (cfg: Self)
        ensures
            cfg.path is None,
            cfg.vla_limit is None,
            cfg.port is None,
            cfg.threads is None,
    {
        Config { path: None, vla_limit: None, port: None, threads: None }
    }
}

/// The directory of the sources: `.` unless set.
pub open spec fn path_of(cfg: Option<Config>) -> Seq<char> {
    match cfg {
        Some(Config { path: Some(p), .. }) => p@,
        _ => "."@,
    }
}

/// The bound of arrays declared without one: 1024 unless set.
pub open spec fn vla_limit_of(cfg: Option<Config>) -> usize {
    match cfg {
        Some(Config { vla_limit: Some(limit), .. }) => limit,
        _ => 1024,
    }
}

/// The port of the server: 0 unless set.
pub open spec fn port_of(cfg: Option<Config>) -> u16 {
    match cfg {
        Some(Config { port: Some(port), .. }) => port,
        _ => 0,
    }
}

/// The number of server threads: 1 unless set.
pub open spec fn threads_of(cfg: Option<Config>) -> usize {
    match cfg {
        Some(Config { threads: Some(threads), .. }) => threads,
        _ => 1,
    }
}

pub fn path(cfg: &Option<Config>) -> (p: String)
    ensures
        p@ == path_of(*cfg),
{
    match cfg {
        None => String::from_str("."),
        Some(cfg) => match &cfg.path {
            None => String::from_str("."),
            Some(p) => p.clone(),
        },
    }
}

pub fn vla_limit(cfg: &Option<Config>) -> (limit: usize)
    ensures
        limit == vla_limit_of(*cfg),
{
    match cfg {
        None => 1024,
        Some(cfg) => match &cfg.vla_limit {
            None => 1024,
            Some(limit) => *limit,
        },
    }
}

pub fn port(cfg: &Option<Config>) -> (port: u16)
    ensures
        port == port_of(*cfg),
{
    match cfg {
        None => 0,
        Some(cfg) => match &cfg.port {
            None => 0,
            Some(port) => *port,
        },
    }
}

pub fn threads(cfg: &Option<Config>) -> (threads: usize)
    ensures
        threads == threads_of(*cfg),
{
    match cfg {
        None => 1,
        Some(cfg) => match &cfg.threads {
            None => 1,
            Some(threads) => *threads,
        },
    }
}

} // verus!
