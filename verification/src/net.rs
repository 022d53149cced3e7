//! IP addresses and networks, each address held as the integer whose
//! big-endian bytes are its octets.

use vstd::prelude::*;

verus! {

/// An IPv4 or IPv6 address.
pub enum IpAddress {
    V4(u32),
    V6(u128),
}

/// The netmask with the `prefix` leading bits of an IPv4 address set.
pub open spec fn mask_v4(prefix: u8) -> u32 {
    if prefix == 0 {
        0
    } else {
        u32::MAX << ((32 - prefix) as u32)
    }
}

/// The netmask with the `prefix` leading bits of an IPv6 address set.
pub open spec fn mask_v6(prefix: u8) -> u128 {
    if prefix == 0 {
        0
    } else {
        u128::MAX << ((128 - prefix) as u32)
    }
}

/// An IPv4 or IPv6 network: an address and a prefix length that fits its family.
pub struct IpNet {
    v6: bool,
    addr: u128,
    prefix: u8,
}

impl IpNet {
    #[verifier::type_invariant]
    spec fn well_formed(self) -> bool {
        if self.v6 {
            self.prefix <= 128
        } else {
            self.prefix <= 32 && self.addr <= u32::MAX
        }
    }

    /// The network is an IPv6 network.
    pub closed spec fn is_v6(self) -> bool {
        self.v6
    }

    /// The address the network was made with.
    pub closed spec fn address(self) -> u128 {
        self.addr
    }

    /// The prefix length of the network.
    pub closed spec fn prefix_len(self) -> u8 {
        self.prefix
    }

    /// `ip` lies in this network: same family, and equal under the netmask.
    pub open spec fn holds(self, ip: IpAddress) -> bool {
        match ip {
            IpAddress::V4(a) => !self.is_v6() && (a & mask_v4(self.prefix_len())) == (
            (self.address() as u32) & mask_v4(self.prefix_len())),
            IpAddress::V6(a) => self.is_v6() && (a & mask_v6(self.prefix_len())) == (
            self.address() & mask_v6(self.prefix_len())),
        }
    }

    /// The IPv4 network `addr/prefix`; `None` when the prefix exceeds 32.
    pub fn v4(addr: u32, prefix: u8) -> (r: Option<IpNet>)
        ensures
            r is Some <==> prefix <= 32,
            r matches Some(n) ==> !n.is_v6() && n.address() == addr as u128 && n.prefix_len()
                == prefix,
    {
        if prefix > 32 {
            None
        } else {
            Some(IpNet { v6: false, addr: addr as u128, prefix })
        }
    }

    /// The IPv6 network `addr/prefix`; `None` when the prefix exceeds 128.
    pub fn v6(addr: u128, prefix: u8) -> (r: Option<IpNet>)
        ensures
            r is Some <==> prefix <= 128,
            r matches Some(n) ==> n.is_v6() && n.address() == addr && n.prefix_len() == prefix,
    {
        if prefix > 128 {
            None
        } else {
            Some(IpNet { v6: true, addr, prefix })
        }
    }

    /// Whether this is an IPv6 network.
    pub fn is_ipv6(&self) -> (r: bool)
        ensures
            r == self.is_v6(),
    {
        self.v6
    }

    /// The address the network was made with.
    pub fn network_address(&self) -> (r: u128)
        ensures
            r == self.address(),
    {
        self.addr
    }

    /// The prefix length.
    pub fn prefix(&self) -> (r: u8)
        ensures
            r == self.prefix_len(),
    {
        self.prefix
    }

    /// `ip` lies in this network.
    pub fn contains(&self, ip: &IpAddress) -> (r: bool)
        ensures
            r == self.holds(*ip),
    {
        proof {
            use_type_invariant(self);
        }
        match ip {
            IpAddress::V4(a) => {
                if self.v6 {
                    return false;
                }
                let mask: u32 = if self.prefix == 0 {
                    0
                } else {
                    u32::MAX << ((32 - self.prefix) as u32)
                };
                let net = (self.addr as u32) & mask;
                (*a & mask) == net
            },
            IpAddress::V6(a) => {
                if !self.v6 {
                    return false;
                }
                let mask: u128 = if self.prefix == 0 {
                    0
                } else {
                    u128::MAX << ((128 - self.prefix) as u32)
                };
                (*a & mask) == (self.addr & mask)
            },
        }
    }
}

/// Some network of `nets` holds `ip`.
pub open spec fn some_network_holds(nets: Seq<IpNet>, ip: IpAddress) -> bool {
    exists|i: int| 0 <= i < nets.len() && #[trigger] nets[i].holds(ip)
}

/// Whether some network of `nets` holds `ip`.
pub fn any_contains(nets: &Vec<IpNet>, ip: &IpAddress) -> (r: bool)
    ensures
        r == some_network_holds(nets@, *ip),
{
    let mut i: usize = 0;
    while i < nets.len()
        invariant
            i <= nets.len(),
            forall|j: int| 0 <= j < i ==> !(#[trigger] nets@[j]).holds(*ip),
        decreases nets.len() - i,
    {
        if nets[i].contains(ip) {
            return true;
        }
        i = i + 1;
    }
    false
}

/// An IPv4 network with a 32-bit prefix holds exactly its own address.
pub proof fn law_host_network_holds_only_itself(net: IpNet, a: u32)
    requires
        !net.is_v6(),
        net.prefix_len() == 32,
    ensures
        net.holds(IpAddress::V4(a)) <==> a == net.address() as u32,
{
    let n = net.address() as u32;
    assert(mask_v4(32) == 0xffff_ffffu32) by (bit_vector);
    assert(a & 0xffff_ffffu32 == a) by (bit_vector);
    assert(n & 0xffff_ffffu32 == n) by (bit_vector);
}

/// A network with a zero-length prefix holds every address of its family and
/// none of the other.
pub proof fn law_zero_prefix_holds_whole_family(net: IpNet, ip: IpAddress)
    requires
        net.prefix_len() == 0,
    ensures
        net.holds(ip) <==> (net.is_v6() <==> ip is V6),
{
    match ip {
        IpAddress::V4(a) => {
            let n = net.address() as u32;
            assert(a & 0u32 == 0) by (bit_vector);
            assert(n & 0u32 == 0) by (bit_vector);
        },
        IpAddress::V6(a) => {
            let n = net.address();
            assert(a & 0u128 == 0) by (bit_vector);
            assert(n & 0u128 == 0) by (bit_vector);
        },
    }
}

} // verus!
