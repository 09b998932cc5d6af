//! Plain network values: IP addresses, socket addresses, network-qualified
//! addresses and namespaced hostnames.

use vstd::prelude::*;

verus! {

/// An IP address, v4 or v6, held as its numeric value. A v4 address keeps
/// its four octets in the low 32 bits. Two addresses are equal exactly when
/// both the family and the value agree.
#[derive(Clone, Copy, PartialEq, Eq, Structural, Debug, Hash)]
pub struct IpAddress {
    pub is_v6: bool,
    pub value: u128,
}

impl IpAddress {
    /// The v4 address `a.b.c.d`.
    pub fn v4(a: u8, b: u8, c: u8, d: u8) -> (r: IpAddress)
        ensures
            !r.is_v6,
            r.value == (a as u128) * 0x1000000 + (b as u128) * 0x10000 + (c as u128) * 0x100 + (
            d as u128),
    {
        IpAddress {
            is_v6: false,
            value: (a as u128) * 0x1000000 + (b as u128) * 0x10000 + (c as u128) * 0x100 + (
            d as u128),
        }
    }

    /// The v6 address with the given 128-bit value.
    pub fn v6(value: u128) -> (r: IpAddress)
        ensures
            r.is_v6,
            r.value == value,
    {
        IpAddress { is_v6: true, value }
    }
}

/// An IP address together with a port.
#[derive(Clone, Copy, PartialEq, Eq, Structural, Debug, Hash)]
pub struct SocketAddress {
    pub ip: IpAddress,
    pub port: u16,
}

/// An IP address qualified by the network it lives in. Addresses in
/// different networks are distinct even when the IPs agree.
#[derive(Debug)]
pub struct NetworkAddress {
    pub network: String,
    pub address: IpAddress,
}

#[verifier::ext_equal]
pub ghost struct NetworkAddressView {
    pub network: Seq<char>,
    pub address: IpAddress,
}

impl View for NetworkAddress {
    type V = NetworkAddressView;

    open spec fn view(&self) -> NetworkAddressView {
        NetworkAddressView { network: self.network@, address: self.address }
    }
}

impl Clone for NetworkAddress {
    fn clone(&self) -> (r: Self)
        ensures
            r@ == self@,
    {
        NetworkAddress { network: self.network.clone(), address: self.address }
    }
}

impl DeepView for NetworkAddress {
    type V = NetworkAddressView;

    open spec fn deep_view(&self) -> NetworkAddressView {
        self.view()
    }
}

impl NetworkAddress {
    /// Exact equality on both fields.
    pub fn same_as(&self, other: &NetworkAddress) -> (r: bool)
        ensures
            r == (self@ == other@),
    {
        let r = self.network == other.network && self.address == other.address;
        proof {
            if self.network@ == other.network@ && self.address == other.address {
                assert(self@ =~= other@);
            }
        }
        r
    }
}

/// The pair of a network label and an IP, as the stores key workloads.
pub fn network_addr(network: &String, address: IpAddress) -> (r: NetworkAddress)
    ensures
        r@ == (NetworkAddressView { network: network@, address }),
{
    NetworkAddress { network: network.clone(), address }
}

/// A hostname qualified by the namespace it belongs to.
#[derive(Debug)]
pub struct NamespacedHostname {
    pub namespace: String,
    pub hostname: String,
}

impl Clone for NamespacedHostname {
    fn clone(&self) -> (r: Self)
        ensures
            r@ == self@,
    {
        NamespacedHostname { namespace: self.namespace.clone(), hostname: self.hostname.clone() }
    }
}

#[verifier::ext_equal]
pub ghost struct NamespacedHostnameView {
    pub namespace: Seq<char>,
    pub hostname: Seq<char>,
}

impl View for NamespacedHostname {
    type V = NamespacedHostnameView;

    open spec fn view(&self) -> NamespacedHostnameView {
        NamespacedHostnameView { namespace: self.namespace@, hostname: self.hostname@ }
    }
}

/// A copy of a vector of IP addresses.
pub fn clone_ip_vec(v: &Vec<IpAddress>) -> (r: Vec<IpAddress>)
    ensures
        r@ == v@,
{
    let mut out: Vec<IpAddress> = Vec::new();
    let mut i: usize = 0;
    while i < v.len()
        invariant
            i <= v.len(),
            out@ == v@.take(i as int),
        decreases v.len() - i,
    {
        out.push(v[i]);
        proof {
            assert(out@ =~= v@.take(i + 1));
        }
        i = i + 1;
    }
    proof {
        assert(v@.take(v@.len() as int) =~= v@);
    }
    out
}

/// A copy of a vector of strings.
pub fn clone_string_vec(v: &Vec<String>) -> (r: Vec<String>)
    ensures
        r.deep_view() == v.deep_view(),
{
    let mut out: Vec<String> = Vec::new();
    let mut i: usize = 0;
    while i < v.len()
        invariant
            i <= v.len(),
            out@.len() == i,
            forall|k: int| 0 <= k < i ==> #[trigger] out@[k]@ == v@[k]@,
        decreases v.len() - i,
    {
        out.push(v[i].clone());
        i = i + 1;
    }
    proof {
        assert(out.deep_view() =~~= v.deep_view());
    }
    out
}

/// Whether a vector of IP addresses holds the given one.
pub fn ip_vec_contains(v: &Vec<IpAddress>, ip: IpAddress) -> (r: bool)
    ensures
        r == v@.contains(ip),
{
    let mut i: usize = 0;
    while i < v.len()
        invariant
            i <= v.len(),
            forall|j: int| 0 <= j < i ==> v@[j] != ip,
        decreases v.len() - i,
    {
        if v[i] == ip {
            proof {
                assert(v@[i as int] == ip);
            }
            return true;
        }
        i = i + 1;
    }
    false
}

} // verus!
