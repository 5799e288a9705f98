//! Listener/dispatcher: turn an open request string into either a client
//! connect or a server listen, pick the ephemeral port and initial
//! sequence number out of supplied entropy, and recognise the initial SYN
//! a listener waits for. The loops that open IP resources and read
//! datagrams live outside the crate; everything they decide on is here.

use vstd::prelude::*;
use vstd::string::*;

use crate::conn::{push_dec, dec_rep, Ipv4Addr, TcpResource};
use crate::parse::{find_char, find_from, parse_dec_capped, spec_dec_or_zero, spec_ipv4};
use crate::segment::{flag_bits, spec_decodes, spec_header_of, Tcp, TCP_SYN};

verus! {

/// The TCP scheme itself, registered under the `tcp` name.
pub struct TcpScheme;

/// What an open request string asks for.
pub enum OpenRequest {
    /// `host:port[/...]`: connect to a peer.
    Connect { peer_addr: Ipv4Addr, peer_port: u16 },
    /// `/port`: listen on a local port.
    Listen { host_port: u16 },
    /// Neither shape: the open request fails.
    Invalid,
}

/// The part of an open request before the first slash.
pub open spec fn spec_remote(s: Seq<char>) -> Seq<char> {
    s.take(find_from(s, 0, '/'))
}

/// The part of an open request between the first and second slash.
pub open spec fn spec_local_path(s: Seq<char>) -> Seq<char> {
    let f = find_from(s, 0, '/');
    if f == s.len() {
        Seq::<char>::empty()
    } else {
        s.subrange(f + 1, find_from(s, f + 1, '/'))
    }
}

/// The host: the remote part up to its first colon.
pub open spec fn spec_host_part(s: Seq<char>) -> Seq<char> {
    let r = spec_remote(s);
    r.take(find_from(r, 0, ':'))
}

/// The port: the remote part between its first and second colon.
pub open spec fn spec_port_part(s: Seq<char>) -> Seq<char> {
    let r = spec_remote(s);
    let c = find_from(r, 0, ':');
    if c == r.len() {
        Seq::<char>::empty()
    } else {
        r.subrange(c + 1, find_from(r, c + 1, ':'))
    }
}

/// Classify an open request: a non-empty host and port mean a client
/// connect (the host read as a dotted-decimal address, the port as a
/// decimal number or zero); otherwise a non-empty local path means a
/// listen on that port; otherwise the request is invalid.
pub fn parse_open_request(reference: &str) -> (r: OpenRequest)
    ensures
        spec_host_part(reference@).len() > 0 && spec_port_part(reference@).len() > 0 ==> (
        r matches OpenRequest::Connect { peer_addr, peer_port }
            && peer_addr@ == spec_ipv4(spec_host_part(reference@))
            && peer_port as int == spec_dec_or_zero(spec_port_part(reference@), 0xFFFF)),
        !(spec_host_part(reference@).len() > 0 && spec_port_part(reference@).len() > 0)
            && spec_local_path(reference@).len() > 0 ==> (
        r matches OpenRequest::Listen { host_port }
            && host_port as int == spec_dec_or_zero(spec_local_path(reference@), 0xFFFF)),
        !(spec_host_part(reference@).len() > 0 && spec_port_part(reference@).len() > 0)
            && spec_local_path(reference@).len() == 0 ==> r is Invalid,
{
    let len = reference.unicode_len();
    let slash = find_char(reference, 0, '/');
    let remote = reference.substring_char(0, slash);
    proof {
        assert(remote@ =~= spec_remote(reference@));
    }
    let rlen = remote.unicode_len();
    let colon = find_char(remote, 0, ':');
    let mut port_end: usize = colon;
    if colon < rlen {
        port_end = find_char(remote, colon + 1, ':');
    }
    if colon > 0 && colon < rlen && port_end > colon + 1 {
        let host = remote.substring_char(0, colon);
        let port_str = remote.substring_char(colon + 1, port_end);
        proof {
            assert(host@ =~= spec_host_part(reference@));
            assert(port_str@ =~= spec_port_part(reference@));
        }
        let peer_addr = Ipv4Addr::from_string(host);
        let peer_port = parse_dec_capped(port_str, 0xFFFF);
        OpenRequest::Connect { peer_addr, peer_port }
    } else {
        if slash < len {
            let slash2 = find_char(reference, slash + 1, '/');
            if slash2 > slash + 1 {
                let path = reference.substring_char(slash + 1, slash2);
                proof {
                    assert(path@ =~= spec_local_path(reference@));
                }
                let host_port = parse_dec_capped(path, 0xFFFF);
                OpenRequest::Listen { host_port }
            } else {
                assert(spec_local_path(reference@).len() == 0);
                OpenRequest::Invalid
            }
        } else {
            assert(spec_local_path(reference@).len() == 0);
            OpenRequest::Invalid
        }
    }
}

/// Does a raw datagram open a connection for a listener on `host_port`?
/// Exactly a SYN addressed to that port does; the peer's port and initial
/// sequence number come out of it.
pub fn listen_match(host_port: u16, datagram: &[u8]) -> (r: Option<(u16, u32)>)
    ensures
        r is Some <==> spec_decodes(datagram@) && spec_header_of(datagram@).dst == host_port
            && flag_bits(spec_header_of(datagram@).flags) == TCP_SYN,
        r matches Some(t) ==> t.0 == spec_header_of(datagram@).src && t.1 == spec_header_of(
            datagram@,
        ).sequence,
{
    match Tcp::from_bytes(vstd::slice::slice_to_vec(datagram)) {
        Some(seg) => {
            if seg.header.dst == host_port && seg.header.flags & 0x0FFF == TCP_SYN {
                Some((seg.header.src, seg.header.sequence))
            } else {
                None
            }
        },
        None => None,
    }
}

/// The URL bytes under which the raw IP resource for a peer is opened:
/// `ip:<peer-ip-dotted-decimal>/6`.
pub open spec fn spec_ip_url(addr: Ipv4Addr) -> Seq<u8> {
    seq![105u8, 112u8, 58u8] + dec_rep(addr@[0] as int) + seq![46u8] + dec_rep(addr@[1] as int)
        + seq![46u8] + dec_rep(addr@[2] as int) + seq![46u8] + dec_rep(addr@[3] as int) + seq![
        47u8,
        54u8,
    ]
}

pub fn ip_url_bytes(addr: &Ipv4Addr) -> (r: Vec<u8>)
    ensures
        r@ == spec_ip_url(*addr),
{
    let mut r: Vec<u8> = Vec::new();
    r.push(105);
    r.push(112);
    r.push(58);
    push_dec(&mut r, addr.bytes[0] as u16);
    r.push(46);
    push_dec(&mut r, addr.bytes[1] as u16);
    r.push(46);
    push_dec(&mut r, addr.bytes[2] as u16);
    r.push(46);
    push_dec(&mut r, addr.bytes[3] as u16);
    r.push(47);
    r.push(54);
    assert(r@ =~= spec_ip_url(*addr));
    r
}

impl TcpResource {
    /// Fresh client connection state: the ephemeral local port is drawn
    /// pseudo-randomly into [32768, 65536) and the initial sequence number
    /// out of the supplied entropy; nothing has been acknowledged yet.
    pub fn connect_new(
        local_addr: Ipv4Addr,
        peer_addr: Ipv4Addr,
        peer_port: u16,
        entropy_port: u64,
        entropy_seq: u64,
    ) -> (r: TcpResource)
        ensures
            r.local_addr == local_addr,
            r.peer_addr == peer_addr,
            r.peer_port == peer_port,
            r.host_port as int == entropy_port as int % 32768 + 32768,
            32768 <= r.host_port < 65536,
            r.sequence == entropy_seq as u32,
            r.acknowledge == 0,
    {
        TcpResource {
            local_addr,
            peer_addr,
            peer_port,
            host_port: (entropy_port % 32768 + 32768) as u16,
            sequence: #[verifier::truncate] (entropy_seq as u32),
            acknowledge: 0,
        }
    }

    /// Fresh server connection state for an accepted SYN: the peer's port
    /// and initial sequence number come from the SYN, the local initial
    /// sequence number out of the supplied entropy.
    pub fn accept_new(
        local_addr: Ipv4Addr,
        peer_addr: Ipv4Addr,
        host_port: u16,
        syn_src: u16,
        syn_sequence: u32,
        entropy_seq: u64,
    ) -> (r: TcpResource)
        ensures
            r.local_addr == local_addr,
            r.peer_addr == peer_addr,
            r.peer_port == syn_src,
            r.host_port == host_port,
            r.sequence == entropy_seq as u32,
            r.acknowledge == syn_sequence,
    {
        TcpResource {
            local_addr,
            peer_addr,
            peer_port: syn_src,
            host_port,
            sequence: #[verifier::truncate] (entropy_seq as u32),
            acknowledge: syn_sequence,
        }
    }
}

impl TcpScheme {
    /// The scheme name this stack registers under.
    pub fn scheme(&self) -> (r: &'static str)
        ensures
            r@ == "tcp"@,
    {
        "tcp"
    }
}

} // verus!
