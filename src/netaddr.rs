//! Network addresses as they travel in protocol messages: a service
//! bitfield, a 16-byte IP in which IPv4 appears IPv4-mapped, and a
//! big-endian port.

use vstd::prelude::*;
use crate::bytes::{
    DecodeError, be_u16, get_u16_be, get_u64_le, le_u64, lemma_be_u16, lemma_le_u64,
    put_bytes, put_u16_be, put_u64_le, put_u8, u16_at_be, u64_at_le,
};

verus! {

/// An IP address, by its octets in network order.
#[derive(Debug, Clone, Copy, PartialEq, Eq)]
pub enum IpAddress {
    V4([u8; 4]),
    V6([u8; 16]),
}

/// An IP address together with a port.
#[derive(Debug, Clone, Copy, PartialEq, Eq)]
pub struct SocketAddress {
    pub ip: IpAddress,
    pub port: u16,
}

/// A peer address as protocol messages carry it.
#[derive(Debug, Clone, Copy, PartialEq, Eq)]
pub struct NetAddr {
    pub services: u64,
    pub addr: SocketAddress,
}

/// The mathematical form of an IP address: its octets.
pub enum IpView {
    V4(Seq<u8>),
    V6(Seq<u8>),
}

pub struct NetAddrView {
    pub services: u64,
    pub ip: IpView,
    pub port: u16,
}

impl View for IpAddress {
    type V = IpView;

    open spec fn view(&self) -> IpView {
        match self {
            IpAddress::V4(a) => IpView::V4(a@),
            IpAddress::V6(a) => IpView::V6(a@),
        }
    }
}

impl View for NetAddr {
    type V = NetAddrView;

    open spec fn view(&self) -> NetAddrView {
        NetAddrView { services: self.services, ip: self.addr.ip@, port: self.addr.port }
    }
}

/// The twelve bytes that precede an IPv4 address in its IPv4-mapped IPv6 form.
pub open spec fn mapped_prefix() -> Seq<u8> {
    seq![0u8, 0, 0, 0, 0, 0, 0, 0, 0, 0, 0xff, 0xff]
}

/// The 16 bytes that stand for `ip` on the wire.
pub open spec fn ip_bytes(ip: IpView) -> Seq<u8> {
    match ip {
        IpView::V4(o) => mapped_prefix() + o,
        IpView::V6(o) => o,
    }
}

/// An address on the wire: services (8, little-endian), IP (16), port (2,
/// big-endian).
pub open spec fn netaddr_bytes(a: NetAddrView) -> Seq<u8> {
    le_u64(a.services) + ip_bytes(a.ip) + be_u16(a.port)
}

/// Whether the 16 bytes at `pos` hold an IPv4-mapped address.
pub open spec fn is_mapped_at(s: Seq<u8>, pos: int) -> bool {
    s.subrange(pos, pos + 12) == mapped_prefix()
}

/// Whether `ip` is an IPv6 address in the IPv4-mapped form, which the wire
/// cannot tell apart from the IPv4 address it maps.
pub open spec fn is_v6_mapped(ip: IpView) -> bool {
    match ip {
        IpView::V4(_) => false,
        IpView::V6(o) => o.subrange(0, 12) == mapped_prefix(),
    }
}

/// Reads the address at `pos`; a mapped IP comes back as IPv4.
pub open spec fn parse_netaddr(s: Seq<u8>, pos: int) -> Result<(NetAddrView, int), DecodeError> {
    if pos < 0 || pos + 26 > s.len() {
        Err(DecodeError::Truncated)
    } else {
        let ip = if is_mapped_at(s, pos + 8) {
            IpView::V4(s.subrange(pos + 20, pos + 24))
        } else {
            IpView::V6(s.subrange(pos + 8, pos + 24))
        };
        Ok(
            (
                NetAddrView {
                    services: u64_at_le(s, pos),
                    ip: ip,
                    port: u16_at_be(s, pos + 24),
                },
                pos + 26,
            ),
        )
    }
}

/// Appends the 26-byte wire form of `a`.
pub fn write_addr(buf: &mut Vec<u8>, a: &NetAddr)
    ensures
        final(buf)@ == old(buf)@ + netaddr_bytes(a@),
{
    put_u64_le(buf, a.services);
    let ghost mid = buf@;
    match &a.addr.ip {
        IpAddress::V4(o) => {
            let mut i: usize = 0;
            while i < 10
                invariant
                    i <= 10,
                    buf@ == mid + Seq::new(i as nat, |k: int| 0u8),
                decreases 10 - i,
            {
                put_u8(buf, 0);
                i = i + 1;
                assert(buf@ =~= mid + Seq::new(i as nat, |k: int| 0u8));
            }
            put_u8(buf, 0xff);
            put_u8(buf, 0xff);
            assert(buf@ =~= mid + mapped_prefix());
            put_bytes(buf, o.as_slice());
        },
        IpAddress::V6(o) => {
            put_bytes(buf, o.as_slice());
        },
    }
    put_u16_be(buf, a.addr.port);
    assert(buf@ =~= old(buf)@ + netaddr_bytes(a@));
}

/// Reads the address at `pos`.
pub fn decode_addr(s: &[u8], pos: usize) -> (r: Result<(NetAddr, usize), DecodeError>)
    ensures
        match r {
            Ok((a, p)) => parse_netaddr(s@, pos as int) == Ok::<(NetAddrView, int), DecodeError>(
                (a@, p as int),
            ),
            Err(e) => parse_netaddr(s@, pos as int) == Err::<(NetAddrView, int), DecodeError>(e),
        },
{
    let len = s.len();
    if pos > len || len - pos < 26 {
        return Err(DecodeError::Truncated);
    }
    let services = get_u64_le(s, pos)?;
    let port = get_u16_be(s, pos + 24)?;
    let ip_at = pos + 8;
    let mut mapped = true;
    let mut k: usize = 0;
    while k < 12
        invariant
            k <= 12,
            ip_at == pos + 8,
            pos + 26 <= s@.len(),
            len == s@.len(),
            mapped == (forall|j: int| 0 <= j < k ==> s@[ip_at + j] == mapped_prefix()[j]),
        decreases 12 - k,
    {
        let want: u8 = if k < 10 { 0 } else { 0xff };
        assert(want == mapped_prefix()[k as int]);
        if s[ip_at + k] != want {
            mapped = false;
        }
        k = k + 1;
    }
    assert(mapped == is_mapped_at(s@, ip_at as int)) by {
        if mapped {
            assert(s@.subrange(ip_at as int, ip_at + 12) =~= mapped_prefix());
        }
        if is_mapped_at(s@, ip_at as int) {
            assert forall|j: int| 0 <= j < 12 implies s@[ip_at + j] == mapped_prefix()[j] by {
                assert(s@.subrange(ip_at as int, ip_at + 12)[j] == s@[ip_at + j]);
            }
        }
    }
    let ip = if mapped {
        let o: [u8; 4] = [s[pos + 20], s[pos + 21], s[pos + 22], s[pos + 23]];
        assert(o@ =~= s@.subrange(pos + 20, pos + 24));
        IpAddress::V4(o)
    } else {
        let mut o: [u8; 16] = [0u8; 16];
        let mut i: usize = 0;
        while i < 16
            invariant
                i <= 16,
                ip_at == pos + 8,
                pos + 26 <= s@.len(),
                len == s@.len(),
                o@.len() == 16,
                forall|j: int| 0 <= j < i ==> o@[j] == s@[ip_at + j],
            decreases 16 - i,
        {
            o[i] = s[ip_at + i];
            i = i + 1;
        }
        assert(o@ =~= s@.subrange(pos + 8, pos + 24));
        IpAddress::V6(o)
    };
    Ok((NetAddr { services, addr: SocketAddress { ip, port } }, pos + 26))
}

/// Address round trip: an IPv4 address comes back as IPv4, and an IPv6
/// address that is not in the IPv4-mapped form comes back unchanged.
pub proof fn lemma_addr_round_trip(pre: Seq<u8>, a: NetAddr, post: Seq<u8>)
    requires
        !is_v6_mapped(a@.ip),
    ensures
        parse_netaddr(pre + netaddr_bytes(a@) + post, pre.len() as int) == Ok::<
            (NetAddrView, int),
            DecodeError,
        >((a@, pre.len() + 26int)),
{
    let e = netaddr_bytes(a@);
    let s = pre + e + post;
    let p = pre.len() as int;
    let ip = ip_bytes(a@.ip);
    assert(e.len() == 26) by {
        match a.addr.ip {
            IpAddress::V4(o) => {},
            IpAddress::V6(o) => {},
        }
    }
    assert forall|k: int| 0 <= k < 26 implies s[p + k] == e[k] by {}
    assert(s.subrange(p + 8, p + 24) =~= ip);
    lemma_le_u64(a.services);
    assert(u64_at_le(s, p) == u64_at_le(le_u64(a.services), 0));
    lemma_be_u16(a.addr.port);
    assert(u16_at_be(s, p + 24) == u16_at_be(be_u16(a.addr.port), 0));
    match a.addr.ip {
        IpAddress::V4(o) => {
            assert(s.subrange(p + 8, p + 20) =~= mapped_prefix());
            assert(s.subrange(p + 20, p + 24) =~= o@);
        },
        IpAddress::V6(o) => {
            assert(s.subrange(p + 8, p + 20) =~= o@.subrange(0, 12));
            assert(s.subrange(p + 8, p + 24) =~= o@);
        },
    }
}

/// The address round trip, for an address that fills the window of `s` at `p`.
pub proof fn lemma_addr_window(s: Seq<u8>, p: int, a: NetAddr)
    requires
        !is_v6_mapped(a@.ip),
        0 <= p,
        p + 26 <= s.len(),
        s.subrange(p, p + 26) == netaddr_bytes(a@),
    ensures
        parse_netaddr(s, p) == Ok::<(NetAddrView, int), DecodeError>((a@, p + 26)),
{
    let pre = s.subrange(0, p);
    let post = s.subrange(p + 26, s.len() as int);
    assert(s =~= pre + netaddr_bytes(a@) + post);
    lemma_addr_round_trip(pre, a, post);
}

} // verus!
