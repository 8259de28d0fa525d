//! The operating modes of the tool.

use vstd::prelude::*;

verus! {

/// What the tool does once its configuration is resolved: client or server over
/// TCP or UDP, or a port scan.
#[derive(Debug, Clone, Copy, PartialEq, Eq, Structural)]
pub enum NcMode {
    /// Connects to a remote address over TCP.
    TcpClient,
    /// Sends datagrams to a remote address over UDP.
    UdpClient,
    /// Accepts TCP connections on a local port.
    TcpServer,
    /// Receives UDP datagrams on a local port.
    UdpServer,
    /// Probes ports of a remote address.  Reserved: no combination of the
    /// recognised options selects it.
    PortScan,
}

impl NcMode {
    /// A server mode binds a local port on all interfaces.
    pub open spec fn spec_is_server(self) -> bool {
        self == NcMode::TcpServer || self == NcMode::UdpServer
    }

    /// A client mode connects to a remote address and port.
    pub open spec fn spec_is_client(self) -> bool {
        self == NcMode::TcpClient || self == NcMode::UdpClient
    }

    /// The mode runs over UDP.
    pub open spec fn spec_is_udp(self) -> bool {
        self == NcMode::UdpClient || self == NcMode::UdpServer
    }

    /// The mode runs over TCP.
    pub open spec fn spec_is_tcp(self) -> bool {
        self == NcMode::TcpClient || self == NcMode::TcpServer
    }

    #[verifier::when_used_as_spec(spec_is_server)]
    pub fn is_server(self) -> (b: bool)
        ensures
            b == self.spec_is_server(),
    {
        match self {
            NcMode::TcpServer | NcMode::UdpServer => true,
            _ => false,
        }
    }

    #[verifier::when_used_as_spec(spec_is_client)]
    pub fn is_client(self) -> (b: bool)
        ensures
            b == self.spec_is_client(),
    {
        match self {
            NcMode::TcpClient | NcMode::UdpClient => true,
            _ => false,
        }
    }

    #[verifier::when_used_as_spec(spec_is_udp)]
    pub fn is_udp(self) -> (b: bool)
        ensures
            b == self.spec_is_udp(),
    {
        match self {
            NcMode::UdpClient | NcMode::UdpServer => true,
            _ => false,
        }
    }

    #[verifier::when_used_as_spec(spec_is_tcp)]
    pub fn is_tcp(self) -> (b: bool)
        ensures
            b == self.spec_is_tcp(),
    {
        match self {
            NcMode::TcpClient | NcMode::TcpServer => true,
            _ => false,
        }
    }
}

} // verus!
