use vstd::prelude::*;

use crate::session::{IpAddress, SocketAddress};

verus! {

/// What an outbound binds to: an address of this machine, or a network
/// interface by its name.
#[derive(Debug)]
pub enum Interface {
    IpAddr(IpAddress),
    Name(String),
}

/// An `Interface` with the name as its characters.
pub enum InterfaceView {
    IpAddr(IpAddress),
    Name(Seq<char>),
}

impl View for Interface {
    type V = InterfaceView;

    open spec fn view(&self) -> InterfaceView {
        match *self {
            Interface::IpAddr(ip) => InterfaceView::IpAddr(ip),
            Interface::Name(name) => InterfaceView::Name(name@),
        }
    }
}

impl Clone for Interface {
    fn clone(&self) -> (res: Self)
        ensures
            res@ == self@,
    {
        match self {
            Interface::IpAddr(ip) => Interface::IpAddr(*ip),
            Interface::Name(name) => Interface::Name(name.clone()),
        }
    }
}

impl Interface {
    /// The address, if the interface is given by one.
    pub fn into_ip_addr(self) -> (res: Option<IpAddress>)
        ensures
            res == match self@ {
                InterfaceView::IpAddr(ip) => Some(ip),
                InterfaceView::Name(_) => None,
            },
    {
        match self {
            Interface::IpAddr(ip) => Some(ip),
            Interface::Name(_) => None,
        }
    }

    /// The address with port 0, which leaves the choice of the port to the
    /// system, if the interface is given by an address.
    pub fn into_socket_addr(self) -> (res: Option<SocketAddress>)
        ensures
            res == match self@ {
                InterfaceView::IpAddr(ip) => Some(SocketAddress { ip, port: 0 }),
                InterfaceView::Name(_) => None,
            },
    {
        match self {
            Interface::IpAddr(ip) => Some(SocketAddress { ip, port: 0 }),
            Interface::Name(_) => None,
        }
    }

    /// The name, if the interface is given by one.
    pub fn into_iface_name(self) -> (res: Option<String>)
        ensures
            match self@ {
                InterfaceView::IpAddr(_) => res is None,
                InterfaceView::Name(name) => res is Some && res->0@ == name,
            },
    {
        match self {
            Interface::IpAddr(_) => None,
            Interface::Name(iface) => Some(iface),
        }
    }
}

} // verus!
