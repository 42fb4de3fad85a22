//! Reaching cells across the network: which local addresses a server
//! binds, and which addresses a client tries for an advertised cell.

use vstd::prelude::*;
use crate::discovery::Ipv4;

verus! {

/// An IPv6 address by its eight 16-bit segments.
#[derive(Debug, Clone, Copy)]
pub struct Ipv6 {
    pub segments: [u16; 8],
}

/// An IP address.
#[derive(Debug, Clone, Copy)]
pub enum IpAddress {
    V4(Ipv4),
    V6(Ipv6),
}

/// An IP address and a port.
#[derive(Debug, Clone, Copy)]
pub struct SocketAddress {
    pub ip: IpAddress,
    pub port: u16,
}

/// An address of a local network interface.
#[derive(Debug, Clone, Copy)]
pub struct LocalAddress {
    pub loopback: bool,
    pub ip: IpAddress,
}

/// Link-local addresses (169.254.x.x and fe80::) do not leave the link.
pub open spec fn link_local(ip: IpAddress) -> bool {
    match ip {
        IpAddress::V4(v4) => v4.0 == 169 && v4.1 == 254,
        IpAddress::V6(v6) => v6.segments@[0] == 0xfe80,
    }
}

/// The addresses a server binds: every interface address but the loopback
/// and link-local ones, in order.
pub open spec fn bindable(addrs: Seq<LocalAddress>) -> Seq<IpAddress>
    decreases addrs.len(),
{
    if addrs.len() == 0 {
        Seq::empty()
    } else {
        let rest = bindable(addrs.drop_last());
        let a = addrs.last();
        if a.loopback || link_local(a.ip) { rest } else { rest.push(a.ip) }
    }
}

/// Any address of the host: 0.0.0.0.
pub open spec fn unspecified() -> IpAddress {
    IpAddress::V4(Ipv4(0, 0, 0, 0))
}

/// The client side of network links.
pub struct AxonClient;

impl AxonClient {
    /// The addresses to bind: the bindable interface addresses; else the
    /// host's primary address, when known; else 0.0.0.0.
    pub fn local_addresses(addrs: &Vec<LocalAddress>, primary: Option<IpAddress>) -> (r: Vec<IpAddress>)
        ensures
            bindable(addrs@).len() > 0 ==> r@ == bindable(addrs@),
            bindable(addrs@).len() == 0 ==> r@ == seq![
                match primary {
                    Some(p) => p,
                    None => unspecified(),
                },
            ],
    {
        let mut out: Vec<IpAddress> = Vec::new();
        let mut i: usize = 0;
        while i < addrs.len()
            invariant
                i <= addrs@.len(),
                out@ == bindable(addrs@.take(i as int)),
            decreases addrs@.len() - i,
        {
            let a = addrs[i];
            proof {
                assert(addrs@.take(i + 1).drop_last() =~= addrs@.take(i as int));
            }
            let local = match a.ip {
                IpAddress::V4(v4) => v4.0 == 169 && v4.1 == 254,
                IpAddress::V6(v6) => v6.segments[0] == 0xfe80,
            };
            if !a.loopback && !local {
                out.push(a.ip);
            }
            i = i + 1;
        }
        proof {
            assert(addrs@.take(addrs@.len() as int) =~= addrs@);
        }
        if out.len() == 0 {
            let fallback = match primary {
                Some(p) => p,
                None => IpAddress::V4(Ipv4(0, 0, 0, 0)),
            };
            let mut v: Vec<IpAddress> = Vec::new();
            v.push(fallback);
            proof {
                assert(v@ =~= seq![fallback]);
            }
            v
        } else {
            out
        }
    }

    /// The addresses tried for a cell advertised at `ip:port`: the advertised
    /// address when it parses as one, then for an IPv4 address the address
    /// itself and the broadcast address of its /24, or for an IPv6 address
    /// the address itself.
    pub fn candidate_addresses(
        exact: Option<SocketAddress>,
        v4: Option<Ipv4>,
        v6: Option<Ipv6>,
        port: u16,
    ) -> (r: Vec<SocketAddress>)
        ensures
            r@ == (match exact {
                Some(e) => seq![e],
                None => Seq::<SocketAddress>::empty(),
            }) + (match v4 {
                Some(ip) => seq![
                    SocketAddress { ip: IpAddress::V4(ip), port },
                    SocketAddress { ip: IpAddress::V4(Ipv4(ip.0, ip.1, ip.2, 255)), port },
                ],
                None => match v6 {
                    Some(ip) => seq![SocketAddress { ip: IpAddress::V6(ip), port }],
                    None => Seq::<SocketAddress>::empty(),
                },
            }),
    {
        let mut out: Vec<SocketAddress> = Vec::new();
        match exact {
            Some(e) => out.push(e),
            None => {},
        }
        let ghost head = out@;
        match v4 {
            Some(ip) => {
                out.push(SocketAddress { ip: IpAddress::V4(ip), port });
                out.push(SocketAddress { ip: IpAddress::V4(Ipv4(ip.0, ip.1, ip.2, 255)), port });
            },
            None => match v6 {
                Some(ip) => out.push(SocketAddress { ip: IpAddress::V6(ip), port }),
                None => {},
            },
        }
        proof {
            assert(out@ =~= head + (match v4 {
                Some(ip) => seq![
                    SocketAddress { ip: IpAddress::V4(ip), port },
                    SocketAddress { ip: IpAddress::V4(Ipv4(ip.0, ip.1, ip.2, 255)), port },
                ],
                None => match v6 {
                    Some(ip) => seq![SocketAddress { ip: IpAddress::V6(ip), port }],
                    None => Seq::<SocketAddress>::empty(),
                },
            }));
        }
        out
    }
}

} // verus!
