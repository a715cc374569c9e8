//! A minimal BGP-4 speaker core: the wire codec, the routing information
//! bases and the per-peer session state machine, with their contracts.

pub mod bgp;
pub mod config;
pub mod error;
pub mod finite_state_machine;
pub mod message;
pub mod path_attribute;
pub mod peer;
pub mod rib;
pub mod routing;
pub mod update;
pub mod wire;

use crate::bgp::AutonomousSystemNumber;
use crate::routing::{IpPrefix, Ipv4Addr};
use vstd::prelude::*;

verus! {

/// Which side opens the TCP connection of a session.
#[derive(Clone, Copy, Debug, PartialEq, Eq, Structural)]
pub enum Mode {
    /// This speaker connects to the peer.
    Active,
    /// This speaker waits for the peer to connect.
    Passive,
}

/// The configuration of one session; it does not change while the session
/// runs.
#[derive(Clone, Copy, Debug, PartialEq, Eq, Structural)]
pub struct Config {
    pub as_number: AutonomousSystemNumber,
    pub my_ip_addr: Ipv4Addr,
    pub remote_as_number: AutonomousSystemNumber,
    pub remote_ip_addr: Ipv4Addr,
    pub mode: Mode,
    /// The prefix whose routes of the host are advertised to the peer.
    pub advertisement_network: IpPrefix,
}

} // verus!
