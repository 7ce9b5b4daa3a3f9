use vstd::prelude::*;

verus! {

/// An IP address, held as the number that its bytes spell in network order.
#[derive(Clone, Copy, Debug, PartialEq, Eq, Structural)]
pub enum IpAddress {
    V4(u32),
    V6(u128),
}

/// An IP address with a port.
#[derive(Clone, Copy, Debug, PartialEq, Eq, Structural)]
pub struct SocketAddress {
    pub ip: IpAddress,
    pub port: u16,
}

/// The transport of a session.
#[derive(Clone, Copy, Debug, PartialEq, Eq, Structural)]
pub enum Network {
    Tcp,
    Udp,
}

/// Where a connection or a packet goes to or comes from: a socket address,
/// or a domain name with a port that still has to be resolved.
#[derive(Debug)]
pub enum SocksAddr {
    Ip(SocketAddress),
    Domain(String, u16),
}

/// A `SocksAddr` with the domain as its characters.
pub enum SocksAddrView {
    Ip(SocketAddress),
    Domain(Seq<char>, u16),
}

impl View for SocksAddr {
    type V = SocksAddrView;

    open spec fn view(&self) -> SocksAddrView {
        match *self {
            SocksAddr::Ip(addr) => SocksAddrView::Ip(addr),
            SocksAddr::Domain(name, port) => SocksAddrView::Domain(name@, port),
        }
    }
}

impl Clone for SocksAddr {
    fn clone(&self) -> (res: Self)
        ensures
            res@ == self@,
    {
        match self {
            SocksAddr::Ip(addr) => SocksAddr::Ip(*addr),
            SocksAddr::Domain(name, port) => SocksAddr::Domain(name.clone(), *port),
        }
    }
}

impl SocksAddr {
    /// The address of a socket that needs no resolving.
    pub fn from_socket_addr(addr: SocketAddress) -> (res: Self)
        ensures
            res@ == SocksAddrView::Ip(addr),
    {
        SocksAddr::Ip(addr)
    }

    pub fn is_domain(&self) -> (res: bool)
        ensures
            res == (self@ is Domain),
    {
        match self {
            SocksAddr::Ip(_) => false,
            SocksAddr::Domain(_, _) => true,
        }
    }

    /// The socket address, for an address that is one.
    pub fn must_into_socket_addr(self) -> (res: SocketAddress)
        requires
            self@ is Ip,
        ensures
            self@ == SocksAddrView::Ip(res),
    {
        match self {
            SocksAddr::Ip(addr) => addr,
            SocksAddr::Domain(_, _) => SocketAddress { ip: IpAddress::V4(0), port: 0 },
        }
    }

    /// The socket address, if the address is one.
    pub fn try_into_socket_addr(&self) -> (res: Option<SocketAddress>)
        ensures
            res == match self@ {
                SocksAddrView::Ip(addr) => Some(addr),
                SocksAddrView::Domain(_, _) => None,
            },
    {
        match self {
            SocksAddr::Ip(addr) => Some(*addr),
            SocksAddr::Domain(_, _) => None,
        }
    }
}

/// What routing needs to know of one inbound connection or packet flow.
#[derive(Debug)]
pub struct Session {
    pub network: Network,
    pub source: SocketAddress,
    pub destination: SocksAddr,
    pub outbound_target: String,
}

/// A `Session` with its texts as characters.
pub struct SessionView {
    pub network: Network,
    pub source: SocketAddress,
    pub destination: SocksAddrView,
    pub outbound_target: Seq<char>,
}

impl View for Session {
    type V = SessionView;

    open spec fn view(&self) -> SessionView {
        SessionView {
            network: self.network,
            source: self.source,
            destination: self.destination@,
            outbound_target: self.outbound_target@,
        }
    }
}

impl Clone for Session {
    fn clone(&self) -> (res: Self)
        ensures
            res@ == self@,
    {
        Session {
            network: self.network,
            source: self.source,
            destination: self.destination.clone(),
            outbound_target: self.outbound_target.clone(),
        }
    }
}

/// One datagram with the addresses it travels between.
#[derive(Debug)]
pub struct UdpPacket {
    pub data: Vec<u8>,
    pub src_addr: SocksAddr,
    pub dst_addr: SocksAddr,
}

/// A `UdpPacket` with its payload as a sequence of bytes.
pub struct UdpPacketView {
    pub data: Seq<u8>,
    pub src_addr: SocksAddrView,
    pub dst_addr: SocksAddrView,
}

impl View for UdpPacket {
    type V = UdpPacketView;

    open spec fn view(&self) -> UdpPacketView {
        UdpPacketView { data: self.data@, src_addr: self.src_addr@, dst_addr: self.dst_addr@ }
    }
}

impl Clone for UdpPacket {
    fn clone(&self) -> (res: Self)
        ensures
            res@ == self@,
    {
        let data = self.data.clone();
        assert(data@ =~= self.data@);
        UdpPacket { data, src_addr: self.src_addr.clone(), dst_addr: self.dst_addr.clone() }
    }
}

} // verus!
