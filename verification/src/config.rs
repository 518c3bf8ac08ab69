//! Configuration records shared with the fast path, and the user-facing
//! configuration pieces the library validates.

use crate::types::PortMapping;
use vstd::prelude::*;

verus! {

#[derive(Debug, Clone, Copy, PartialEq, Eq, Structural)]
pub enum IpVersion {
    Ipv4,
    Ipv6,
}

#[derive(Debug, Clone, Copy, PartialEq, Eq, Structural)]
pub enum Proto {
    Tcp,
    Udp,
}

#[derive(Debug, Clone, Copy, PartialEq, Eq, Structural)]
pub enum RoutingMode {
    /// Packets pass through the lb bi-directionally; compatible with
    /// all deployment environments.
    Nat,
    /// Packets are distributed to backends but the client source is
    /// maintained, so the backend can respond directly to the client.
    Dsr,
}

#[derive(Debug, Clone, Copy, PartialEq, Eq, Structural)]
pub enum Strategy {
    RoundRobin,
}

/// The listen address selection: the default-route interface, or an
/// explicit address that also determines the target interface.
#[derive(Debug, Clone, PartialEq, Eq)]
pub enum ListenAddr {
    /// Attach to the interface and primary ip associated with the
    /// default network route.
    Auto,
    /// An explicit listen addr, also used to determine the target
    /// interface.
    Ip(String),
}

#[derive(Debug, Clone, Copy, PartialEq, Eq, Structural)]
pub enum OtelProtocol {
    Grpc,
    Http,
}

/// Metrics export configuration handed to the external metrics sink.
#[derive(Debug, Clone, PartialEq, Eq)]
pub struct OtelConfig {
    /// Enable or disable metrics export.
    pub enabled: bool,
    /// Collector endpoint.
    pub endpoint: String,
    /// Export interval in seconds.
    pub export_interval_secs: u64,
    /// Optional headers for authentication.
    pub headers: Vec<(String, String)>,
    /// Export protocol.
    pub protocol: OtelProtocol,
}

pub fn default_otel_export_interval() -> (r: u64)
    ensures
        r == 10,
{
    10
}

pub fn default_orphan_ttl_secs() -> (r: u32)
    ensures
        r == 300,
{
    300
}

pub fn default_shutdown_timeout() -> (r: u32)
    ensures
        r == 15,
{
    15
}

/// Shared global state config stored in a 1-slot table for runtime
/// reads by the fast path.
#[derive(Debug, Clone, Copy, PartialEq, Eq)]
pub struct EbpfConfig {
    pub mode: RoutingMode,
    pub strategy: Strategy,
    pub ip_addr: u128,
    pub ip_ver: IpVersion,
    pub proto: Proto,
    /// The drain flag: set once at shutdown.
    pub shutdown: bool,
    pub port_mappings: [PortMapping; 8],
}

impl EbpfConfig {
    pub fn empty() -> (r: Self)
        ensures
            r.ip_addr == 0,
            r.ip_ver == IpVersion::Ipv4,
            r.mode == RoutingMode::Nat,
            r.strategy == Strategy::RoundRobin,
            r.proto == Proto::Tcp,
            !r.shutdown,
            forall|i: int| 0 <= i < 8 ==> r.port_mappings[i]
                == (PortMapping { local_port: 0, remote_port: 0 }),
    {
        Self {
            ip_addr: 0,
            ip_ver: IpVersion::Ipv4,
            mode: RoutingMode::Nat,
            strategy: Strategy::RoundRobin,
            proto: Proto::Tcp,
            shutdown: false,
            port_mappings: [PortMapping { local_port: 0, remote_port: 0 }; 8],
        }
    }
}

/// A port-map list is publishable when it has 1 to 8 entries, every
/// port is nonzero and no two mappings repeat a local or remote port.
pub open spec fn valid_port_mappings(ports: Seq<PortMapping>) -> bool {
    &&& 1 <= ports.len() <= 8
    &&& forall|i: int| 0 <= i < ports.len() ==> (#[trigger] ports[i]).local_port != 0
        && ports[i].remote_port != 0
    &&& forall|i: int, j: int| 0 <= i < j < ports.len() ==> (#[trigger] ports[i]).local_port
        != (#[trigger] ports[j]).local_port && ports[i].remote_port != ports[j].remote_port
}

/// Checks the port-map list a configuration file supplied.
pub fn check_port_mappings(ports: &Vec<PortMapping>) -> (r: bool)
    ensures
        r <==> valid_port_mappings(ports@),
{
    if ports.len() < 1 || ports.len() > 8 {
        return false;
    }
    let mut i: usize = 0;
    while i < ports.len()
        invariant
            i <= ports.len(),
            forall|k: int| 0 <= k < i ==> (#[trigger] ports@[k]).local_port != 0
                && ports@[k].remote_port != 0,
            forall|k: int, j: int| 0 <= k < j < i ==> (#[trigger] ports@[k]).local_port
                != (#[trigger] ports@[j]).local_port
                && ports@[k].remote_port != ports@[j].remote_port,
        decreases ports.len() - i,
    {
        if ports[i].local_port == 0 || ports[i].remote_port == 0 {
            return false;
        }
        let mut j: usize = 0;
        while j < i
            invariant
                j <= i < ports.len(),
                forall|k: int| 0 <= k < j ==> (#[trigger] ports@[k]).local_port
                    != ports@[i as int].local_port
                    && ports@[k].remote_port != ports@[i as int].remote_port,
            decreases i - j,
        {
            if ports[j].local_port == ports[i].local_port
                || ports[j].remote_port == ports[i].remote_port {
                return false;
            }
            j = j + 1;
        }
        i = i + 1;
    }
    true
}

/// Packs a validated user configuration into the record the fast path
/// reads: unused port-map slots stay zero.
pub fn to_ebpf_config(
    mode: RoutingMode,
    ip_addr: u128,
    ip_ver: IpVersion,
    proto: Proto,
    ports: &Vec<PortMapping>,
) -> (r: EbpfConfig)
    requires
        ports@.len() <= 8,
    ensures
        r.mode == mode,
        r.strategy == Strategy::RoundRobin,
        r.ip_addr == ip_addr,
        r.ip_ver == ip_ver,
        r.proto == proto,
        !r.shutdown,
        forall|i: int| 0 <= i < ports@.len() ==> r.port_mappings[i] == ports@[i],
        forall|i: int| ports@.len() <= i < 8 ==> r.port_mappings[i]
            == (PortMapping { local_port: 0, remote_port: 0 }),
{
    let mut port_mappings: [PortMapping; 8] =
        [PortMapping { local_port: 0, remote_port: 0 }; 8];
    let mut i: usize = 0;
    while i < ports.len()
        invariant
            ports@.len() <= 8,
            i <= ports@.len(),
            forall|k: int| 0 <= k < i ==> port_mappings[k] == ports@[k],
            forall|k: int| i <= k < 8 ==> port_mappings[k]
                == (PortMapping { local_port: 0, remote_port: 0 }),
        decreases ports.len() - i,
    {
        port_mappings[i] = ports[i];
        i = i + 1;
    }
    EbpfConfig {
        mode,
        strategy: Strategy::RoundRobin,
        ip_addr,
        ip_ver,
        proto,
        shutdown: false,
        port_mappings,
    }
}

} // verus!
