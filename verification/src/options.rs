//! The options of a run.

use vstd::prelude::*;
use crate::probe::ProbeMethod;

verus! {

/// What a run is asked to do.
#[derive(Debug)]
pub struct TracerouteOptions {
    /// The host whose path is traced.
    pub host: String,
    /// The highest time to live that is probed.
    pub hops: u16,
    /// How many probes each hop gets.
    pub queries_per_hop: u16,
    /// The token of the first probe: for UDP and TCP its destination port.
    pub initial_destination_port: u16,
    /// How many seconds each probe is waited for.
    pub wait: u8,
    /// How the probes are carried.
    pub method: ProbeMethod,
}

impl TracerouteOptions {
    /// The options for tracing `host` when nothing else is asked for: thirty
    /// hops of three UDP probes each, from port 33434 on, with three seconds
    /// of waiting.
    pub fn new(host: &str) -> (out: Self)
        ensures
            out.host@ == host@,
            out.hops == 30,
            out.queries_per_hop == 3,
            out.initial_destination_port == 33434,
            out.wait == 3,
            out.method == ProbeMethod::UDP,
    {
        TracerouteOptions {
            host: String::from_str(host),
            hops: 30,
            queries_per_hop: 3,
            initial_destination_port: 33434,
            wait: 3,
            method: ProbeMethod::UDP,
        }
    }

    /// The waiting time in microseconds.
    pub fn wait_micros(&self) -> (out: u64)
        ensures
            out == self.wait * 1_000_000,
    {
        (self.wait as u64) * 1_000_000
    }
}

} // verus!
