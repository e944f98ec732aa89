//! Benchmark argument models: plain values handed in by whatever parses
//! the command line outside the library.

use vstd::prelude::*;

verus! {

/// Which transport a benchmark run speaks.
#[derive(Clone, Copy, Debug, PartialEq, Eq, Structural)]
pub enum ArgsProtocol {
    Quic,
    Tcp,
}

impl ArgsProtocol {
    /// The transport's name.
    pub fn name(&self) -> (r: String)
        ensures
            *self matches ArgsProtocol::Quic ==> r@ == "quic"@,
            *self matches ArgsProtocol::Tcp ==> r@ == "tcp"@,
    {
        match self {
            ArgsProtocol::Quic => "quic".to_owned(),
            ArgsProtocol::Tcp => "tcp".to_owned(),
        }
    }
}

/// The server side's benchmark inputs.
#[derive(Clone, Copy, Debug, PartialEq, Eq, Structural)]
pub struct ArgsServerInputs {
    /// Protocol of the benchmarking stream.
    pub protocol: ArgsProtocol,
}

/// Manual network-delay settings for a simulated run; the subnet is kept
/// in its textual form.
#[derive(Clone, Debug, PartialEq, Eq)]
pub struct ArgsSimulation {
    /// Manual network delay in milliseconds.
    pub network_delay_ms: Option<u64>,
    /// Manual network delay subnet, as written on the command line.
    pub network_delay_subnet: Option<String>,
}

impl ArgsSimulation {
    /// A run without simulated delay.
    pub fn none() -> (r: ArgsSimulation)
        ensures
            r.network_delay_ms is None,
            r.network_delay_subnet is None,
    {
        ArgsSimulation { network_delay_ms: None, network_delay_subnet: None }
    }
}

} // verus!
