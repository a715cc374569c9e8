//! IPv4 addresses, prefixes and the routes of the host's routing table.

use crate::error::BgpError;
use vstd::prelude::*;

verus! {

/// An IPv4 address as its 32 bits; the first octet is the most significant.
#[derive(Clone, Copy, Debug, PartialEq, Eq, Structural)]
pub struct Ipv4Addr {
    pub bits: u32,
}

/// The 32 bits of the address whose octets are `a.b.c.d`.
pub open spec fn bits_of_octets(a: u8, b: u8, c: u8, d: u8) -> u32 {
    ((a as u32) << 24) | ((b as u32) << 16) | ((c as u32) << 8) | (d as u32)
}

/// The mask that keeps the `len` high bits of an address.
pub open spec fn netmask(len: u8) -> u32 {
    if len == 0 {
        0
    } else if len >= 32 {
        0xffff_ffff
    } else {
        !(0xffff_ffffu32 >> (len as u32))
    }
}

/// How many address octets follow the length octet of a prefix on the wire:
/// the least number of octets that hold `len` bits, at most four.
pub open spec fn octet_count(len: u8) -> nat {
    if len == 0 {
        0
    } else if len <= 8 {
        1
    } else if len <= 16 {
        2
    } else if len <= 24 {
        3
    } else {
        4
    }
}

impl Ipv4Addr {
    /// Octet `i` of the address, counted from the most significant.
    pub open spec fn octet(self, i: int) -> u8 {
        if i == 0 {
            (self.bits >> 24) as u8
        } else if i == 1 {
            ((self.bits >> 16) & 0xff) as u8
        } else if i == 2 {
            ((self.bits >> 8) & 0xff) as u8
        } else {
            (self.bits & 0xff) as u8
        }
    }

    /// The four octets in the order in which they are written.
    pub open spec fn octets_seq(self) -> Seq<u8> {
        seq![self.octet(0), self.octet(1), self.octet(2), self.octet(3)]
    }

    /// The address `a.b.c.d`.
    pub open spec fn of(a: u8, b: u8, c: u8, d: u8) -> Ipv4Addr {
        Ipv4Addr { bits: bits_of_octets(a, b, c, d) }
    }

    /// The address `a.b.c.d`.
    pub fn new(a: u8, b: u8, c: u8, d: u8) -> (addr: Self)
        ensures
            addr == Self::of(a, b, c, d),
            addr.octets_seq() == seq![a, b, c, d],
    {
        let bits: u32 = ((a as u32) << 24) | ((b as u32) << 16) | ((c as u32) << 8) | (d as u32);
        proof {
            lemma_octets_of_bits(a, b, c, d);
        }
        Ipv4Addr { bits }
    }

    /// The four octets of the address.
    pub fn octets(&self) -> (o: [u8; 4])
        ensures
            o@ == self.octets_seq(),
    {
        let x: u32 = self.bits;
        let o: [u8; 4] = [
            (x >> 24) as u8,
            ((x >> 16) & 0xff) as u8,
            ((x >> 8) & 0xff) as u8,
            (x & 0xff) as u8,
        ];
        assert(o@ =~= self.octets_seq());
        o
    }
}

/// Writing an address from four octets and reading its octets gives them back.
pub proof fn lemma_octets_of_bits(a: u8, b: u8, c: u8, d: u8)
    ensures
        Ipv4Addr::of(a, b, c, d).octets_seq() == seq![a, b, c, d],
{
    let x: u32 = bits_of_octets(a, b, c, d);
    assert((x >> 24) as u8 == a && ((x >> 16) & 0xff) as u8 == b && ((x >> 8) & 0xff) as u8 == c
        && (x & 0xff) as u8 == d) by (bit_vector)
        requires
            x == ((a as u32) << 24) | ((b as u32) << 16) | ((c as u32) << 8) | (d as u32),
    ;
    assert(Ipv4Addr::of(a, b, c, d).octets_seq() =~= seq![a, b, c, d]);
}

/// An address is the one written from its own octets.
pub proof fn lemma_bits_of_octets(addr: Ipv4Addr)
    ensures
        Ipv4Addr::of(addr.octet(0), addr.octet(1), addr.octet(2), addr.octet(3)) == addr,
{
    let x: u32 = addr.bits;
    assert(((((x >> 24) as u8) as u32) << 24) | (((((x >> 16) & 0xff) as u8) as u32) << 16) | (((((x
        >> 8) & 0xff) as u8) as u32) << 8) | (((x & 0xff) as u8) as u32) == x) by (bit_vector);
}

/// The mask of a prefix length.
pub fn netmask_of(len: u8) -> (mask: u32)
    ensures
        mask == netmask(len),
{
    if len == 0 {
        0
    } else if len >= 32 {
        0xffff_ffff
    } else {
        !(0xffff_ffffu32 >> (len as u32))
    }
}

/// The number of address octets that a prefix of length `len` takes on the wire.
pub fn octet_count_of(len: u8) -> (n: usize)
    ensures
        n == octet_count(len),
{
    if len == 0 {
        0
    } else if len <= 8 {
        1
    } else if len <= 16 {
        2
    } else if len <= 24 {
        3
    } else {
        4
    }
}

/// An IPv4 prefix: a network address and the number of its high bits that count.
/// Every prefix that this library makes is well formed (`wf`).
#[derive(Clone, Copy, Debug, PartialEq, Eq, Structural)]
pub struct IpPrefix {
    pub network_address: Ipv4Addr,
    pub prefix_length: u8,
}

/// Octet `i` of a run of address octets, 0 where the run has ended.
pub open spec fn octet_or_zero(octets: Seq<u8>, i: int) -> u8 {
    if 0 <= i < octets.len() {
        octets[i]
    } else {
        0
    }
}

/// The prefix that one wire encoding stands for: a length octet of at most
/// 32, then exactly as many address octets as hold that many bits. Bits
/// beyond the length are cleared.
pub open spec fn prefix_from_wire(bytes: Seq<u8>) -> Result<IpPrefix, BgpError> {
    if bytes.len() == 0 || bytes[0] > 32 || bytes.len() != 1 + octet_count(bytes[0]) {
        Err(BgpError::InvalidNetworkField)
    } else {
        let octets = bytes.skip(1);
        Ok(
            IpPrefix::of(
                Ipv4Addr::of(
                    octet_or_zero(octets, 0),
                    octet_or_zero(octets, 1),
                    octet_or_zero(octets, 2),
                    octet_or_zero(octets, 3),
                ),
                bytes[0],
            ),
        )
    }
}

impl IpPrefix {
    /// The length is at most 32 and no bit beyond it is set.
    pub open spec fn wf(self) -> bool {
        &&& self.prefix_length <= 32
        &&& self.network_address.bits & netmask(self.prefix_length) == self.network_address.bits
    }

    /// The prefix of `len` bits that holds `addr`.
    pub open spec fn of(addr: Ipv4Addr, len: u8) -> IpPrefix {
        IpPrefix {
            network_address: Ipv4Addr { bits: addr.bits & netmask(len) },
            prefix_length: len,
        }
    }

    /// Containment: `self` is no longer than `other`, and the two agree on
    /// every bit that `self` counts.
    pub open spec fn includes(self, other: IpPrefix) -> bool {
        &&& self.prefix_length <= other.prefix_length
        &&& self.network_address.bits & netmask(self.prefix_length) == other.network_address.bits
            & netmask(self.prefix_length)
    }

    /// The wire encoding: the length octet, then the leading address octets.
    pub open spec fn wire(self) -> Seq<u8> {
        seq![self.prefix_length] + self.network_address.octets_seq().take(
            octet_count(self.prefix_length) as int,
        )
    }

    /// The prefix of `prefix_length` bits that holds `network_address`; bits of
    /// the address beyond the length are cleared.
    pub fn new(network_address: Ipv4Addr, prefix_length: u8) -> (prefix: Self)
        requires
            prefix_length <= 32,
        ensures
            prefix == Self::of(network_address, prefix_length),
            prefix.wf(),
    {
        let mask: u32 = netmask_of(prefix_length);
        let bits: u32 = network_address.bits & mask;
        proof {
            lemma_mask_twice(network_address.bits, prefix_length);
        }
        IpPrefix { network_address: Ipv4Addr { bits }, prefix_length }
    }

    /// The wire encoding of the prefix.
    pub fn decode(&self) -> (bytes: Vec<u8>)
        ensures
            bytes@ == self.wire(),
    {
        let octets: [u8; 4] = self.network_address.octets();
        let n: usize = octet_count_of(self.prefix_length);
        let mut bytes: Vec<u8> = Vec::new();
        bytes.push(self.prefix_length);
        let mut i: usize = 0;
        while i < n
            invariant
                i <= n <= 4,
                octets@ == self.network_address.octets_seq(),
                bytes@ == seq![self.prefix_length] + self.network_address.octets_seq().take(
                    i as int,
                ),
            decreases n - i,
        {
            bytes.push(octets[i]);
            i = i + 1;
        }
        bytes
    }

    /// Reads one prefix from exactly its wire encoding. The prefix that is
    /// read is well formed: bits beyond its length are cleared.
    pub fn encode(raw_data: &Vec<u8>) -> (prefix: Result<Self, BgpError>)
        ensures
            prefix == prefix_from_wire(raw_data@),
            prefix matches Ok(p) ==> p.wf(),
    {
        proof {
            lemma_prefix_from_wire_wf(raw_data@);
        }
        if raw_data.len() == 0 {
            return Err(BgpError::InvalidNetworkField);
        }
        let len: u8 = raw_data[0];
        if len > 32 {
            return Err(BgpError::InvalidNetworkField);
        }
        let n: usize = octet_count_of(len);
        if raw_data.len() != 1 + n {
            return Err(BgpError::InvalidNetworkField);
        }
        let a: u8 = if n > 0 { raw_data[1] } else { 0 };
        let b: u8 = if n > 1 { raw_data[2] } else { 0 };
        let c: u8 = if n > 2 { raw_data[3] } else { 0 };
        let d: u8 = if n > 3 { raw_data[4] } else { 0 };
        Ok(IpPrefix::new(Ipv4Addr::new(a, b, c, d), len))
    }

    /// Whether every address of `other` is an address of `self`.
    pub fn does_include(&self, other: &Self) -> (included: bool)
        ensures
            included == self.includes(*other),
    {
        if self.prefix_length > other.prefix_length {
            return false;
        }
        let mask: u32 = netmask_of(self.prefix_length);
        self.network_address.bits & mask == other.network_address.bits & mask
    }
}

/// Masking twice is masking once.
pub proof fn lemma_mask_twice(bits: u32, len: u8)
    ensures
        (bits & netmask(len)) & netmask(len) == bits & netmask(len),
{
    let m: u32 = netmask(len);
    assert((bits & m) & m == bits & m) by (bit_vector);
}

/// The encoding of a prefix is minimal: one length octet and the least
/// number of octets that hold its bits.
pub proof fn lemma_prefix_wire_len(p: IpPrefix)
    requires
        p.prefix_length <= 32,
    ensures
        p.wire().len() == 1 + (p.prefix_length + 7) / 8,
        octet_count(p.prefix_length) == (p.prefix_length + 7) / 8,
{
}

/// A prefix of length 0 is the single octet 0 on the wire, and a prefix of
/// length 32 is the octet 32 followed by all four address octets.
pub proof fn lemma_prefix_wire_bounds(p: IpPrefix)
    ensures
        p.prefix_length == 0 ==> p.wire() == seq![0u8],
        p.prefix_length == 32 ==> p.wire() == seq![
            32u8,
            p.network_address.octet(0),
            p.network_address.octet(1),
            p.network_address.octet(2),
            p.network_address.octet(3),
        ],
{
    if p.prefix_length == 0 {
        assert(p.wire() =~= seq![0u8]);
    }
    if p.prefix_length == 32 {
        assert(p.wire() =~= seq![
            32u8,
            p.network_address.octet(0),
            p.network_address.octet(1),
            p.network_address.octet(2),
            p.network_address.octet(3),
        ]);
    }
}

/// Containment is reflexive.
pub proof fn lemma_includes_reflexive(a: IpPrefix)
    ensures
        a.includes(a),
{
}

/// Containment is transitive.
pub proof fn lemma_includes_transitive(a: IpPrefix, b: IpPrefix, c: IpPrefix)
    requires
        a.includes(b),
        b.includes(c),
    ensures
        a.includes(c),
{
    let x: u32 = a.network_address.bits;
    let y: u32 = b.network_address.bits;
    let z: u32 = c.network_address.bits;
    let la: u8 = a.prefix_length;
    let lb: u8 = b.prefix_length;
    let ma: u32 = netmask(la);
    let mb: u32 = netmask(lb);
    lemma_netmask_grows(la, lb);
    assert(x & ma == z & ma) by (bit_vector)
        requires
            x & ma == y & ma,
            y & mb == z & mb,
            ma & mb == ma,
    ;
}

/// Containment is antisymmetric on well-formed prefixes.
pub proof fn lemma_includes_antisymmetric(a: IpPrefix, b: IpPrefix)
    requires
        a.wf(),
        b.wf(),
        a.includes(b),
        b.includes(a),
    ensures
        a == b,
{
}

/// The mask of a shorter length keeps no bit that the mask of a longer one drops.
pub proof fn lemma_netmask_grows(short: u8, long: u8)
    requires
        short <= long,
    ensures
        netmask(short) & netmask(long) == netmask(short),
{
    if short == 0 {
        let m: u32 = netmask(long);
        assert(0u32 & m == 0u32) by (bit_vector);
    } else if long >= 32 {
        let m: u32 = netmask(short);
        assert(m & 0xffff_ffffu32 == m) by (bit_vector);
    } else {
        let s: u32 = short as u32;
        let l: u32 = long as u32;
        assert(!(0xffff_ffffu32 >> s) & !(0xffff_ffffu32 >> l) == !(0xffff_ffffu32 >> s))
            by (bit_vector)
            requires
                0 < s <= l < 32,
        ;
    }
}

/// What the decoder accepts is a well-formed prefix.
pub proof fn lemma_prefix_from_wire_wf(bytes: Seq<u8>)
    ensures
        prefix_from_wire(bytes) matches Ok(p) ==> p.wf() && p.wire().len() == bytes.len(),
{
    if let Ok(p) = prefix_from_wire(bytes) {
        let octets = bytes.skip(1);
        let addr = Ipv4Addr::of(
            octet_or_zero(octets, 0),
            octet_or_zero(octets, 1),
            octet_or_zero(octets, 2),
            octet_or_zero(octets, 3),
        );
        lemma_mask_twice(addr.bits, bytes[0]);
    }
}

/// Decoding the encoding of a well-formed prefix gives the prefix back.
pub proof fn lemma_prefix_round_trip(p: IpPrefix)
    requires
        p.wf(),
    ensures
        prefix_from_wire(p.wire()) == Ok::<IpPrefix, BgpError>(p),
{
    let len: u8 = p.prefix_length;
    let x: u32 = p.network_address.bits;
    let m: u32 = netmask(len);
    let bytes = p.wire();
    let octets = bytes.skip(1);
    assert(octets =~= p.network_address.octets_seq().take(octet_count(len) as int));
    let a: u8 = octet_or_zero(octets, 0);
    let b: u8 = octet_or_zero(octets, 1);
    let c: u8 = octet_or_zero(octets, 2);
    let d: u8 = octet_or_zero(octets, 3);
    let y: u32 = bits_of_octets(a, b, c, d);
    if len == 0 {
        assert(x == 0) by (bit_vector)
            requires
                x & 0u32 == x,
        ;
        assert(y & m == x) by (bit_vector)
            requires
                m == 0,
                x == 0,
        ;
    } else if len <= 8 {
        assert(y & m == x) by (bit_vector)
            requires
                0 < len <= 8,
                m == !(0xffff_ffffu32 >> (len as u32)),
                x & m == x,
                a == (x >> 24) as u8,
                b == 0,
                c == 0,
                d == 0,
                y == ((a as u32) << 24) | ((b as u32) << 16) | ((c as u32) << 8) | (d as u32),
        ;
    } else if len <= 16 {
        assert(y & m == x) by (bit_vector)
            requires
                8 < len <= 16,
                m == !(0xffff_ffffu32 >> (len as u32)),
                x & m == x,
                a == (x >> 24) as u8,
                b == ((x >> 16) & 0xff) as u8,
                c == 0,
                d == 0,
                y == ((a as u32) << 24) | ((b as u32) << 16) | ((c as u32) << 8) | (d as u32),
        ;
    } else if len <= 24 {
        assert(y & m == x) by (bit_vector)
            requires
                16 < len <= 24,
                m == !(0xffff_ffffu32 >> (len as u32)),
                x & m == x,
                a == (x >> 24) as u8,
                b == ((x >> 16) & 0xff) as u8,
                c == ((x >> 8) & 0xff) as u8,
                d == 0,
                y == ((a as u32) << 24) | ((b as u32) << 16) | ((c as u32) << 8) | (d as u32),
        ;
    } else {
        assert(y & m == x) by (bit_vector)
            requires
                x & m == x,
                a == (x >> 24) as u8,
                b == ((x >> 16) & 0xff) as u8,
                c == ((x >> 8) & 0xff) as u8,
                d == (x & 0xff) as u8,
                y == ((a as u32) << 24) | ((b as u32) << 16) | ((c as u32) << 8) | (d as u32),
        ;
    }
}

/// One route of the host's IPv4 routing table, as far as the speaker reads
/// it: the destination prefix and the gateway, each of which may be absent.
#[derive(Clone, Copy, Debug, PartialEq, Eq, Structural)]
pub struct KernelRoute {
    pub destination: Option<IpPrefix>,
    pub gateway: Option<Ipv4Addr>,
}

/// Whether a route of the host has a destination that lies within `prefix`.
pub open spec fn route_within(prefix: IpPrefix, route: KernelRoute) -> bool {
    route.destination matches Some(destination) && prefix.includes(destination)
}

/// The routes of the host whose destination lies within `ip_prefix`, in the
/// order in which the host gave them.
pub fn lookup_network_route(ip_prefix: &IpPrefix, all_routes: &Vec<KernelRoute>) -> (routes: Vec<
    KernelRoute,
>)
    ensures
        routes@ == all_routes@.filter(|route: KernelRoute| route_within(*ip_prefix, route)),
{
    let ghost within = |route: KernelRoute| route_within(*ip_prefix, route);
    let mut routes: Vec<KernelRoute> = Vec::new();
    let mut i: usize = 0;
    assert(all_routes@.take(0).filter(within) =~= Seq::<KernelRoute>::empty());
    while i < all_routes.len()
        invariant
            i <= all_routes.len(),
            within == |route: KernelRoute| route_within(*ip_prefix, route),
            routes@ == all_routes@.take(i as int).filter(within),
        decreases all_routes.len() - i,
    {
        let route: KernelRoute = all_routes[i];
        let keep: bool = match route.destination {
            Some(destination) => ip_prefix.does_include(&destination),
            None => false,
        };
        proof {
            assert(all_routes@.take(i + 1) =~= all_routes@.take(i as int).push(route));
            Seq::lemma_filter_push(all_routes@.take(i as int), route, within);
        }
        if keep {
            routes.push(route);
        }
        i = i + 1;
    }
    assert(all_routes@.take(all_routes.len() as int) =~= all_routes@);
    routes
}

} // verus!
