//! Connection state machine.
//!
//! A `TcpResource` holds the scalar state of one TCP connection: addresses,
//! ports and the sequence/acknowledgment counters. The functions here are
//! the decision core of the protocol: each takes the bytes of one datagram
//! read from the underlying raw IP resource and returns what to do next —
//! keep waiting, a state update, and any fully formed reply segment (with
//! its pseudo-header checksum already filled in) that must be transmitted.
//! The blocking read/write loops around them live outside the crate.

use vstd::prelude::*;

use crate::checksum;
use crate::checksum::{compile_sum, sum_words};
use crate::segment::{
    flag_bits, lemma_encode_decode, spec_decodes, spec_header_bytes, spec_header_of, spec_options,
    spec_payload, Tcp, TcpHeader, FLAGS_DOFF_20, TCP_ACK, TCP_FIN, TCP_PSH, TCP_SYN,
};

verus! {

/// An IPv4 address as its four dotted-decimal octets.
#[derive(Clone, Copy)]
pub struct Ipv4Addr {
    pub bytes: [u8; 4],
}

impl View for Ipv4Addr {
    type V = Seq<u8>;

    open spec fn view(&self) -> Seq<u8> {
        self.bytes@
    }
}

/// Scalar state of one TCP connection. The underlying IP resource handle
/// is owned by the caller; everything the protocol decides on is here.
#[derive(Clone, Copy)]
pub struct TcpResource {
    /// Local IP address, included in the pseudo-header checksum.
    pub local_addr: Ipv4Addr,
    pub peer_addr: Ipv4Addr,
    pub peer_port: u16,
    pub host_port: u16,
    /// Next local sequence number.
    pub sequence: u32,
    /// Next expected peer sequence number.
    pub acknowledge: u32,
}

/// Big-endian bytes of a 16-bit value.
pub open spec fn be16(x: u16) -> Seq<u8> {
    seq![(x >> 8) as u8, x as u8]
}

/// The checksum input: local address, peer address, the protocol number 6
/// as a 16-bit word, the segment length as a 16-bit word, then the segment
/// bytes themselves (with a zeroed checksum field).
pub open spec fn spec_pseudo_sum(local: Seq<u8>, peer: Seq<u8>, seg: Seq<u8>) -> int {
    sum_words(local) + sum_words(peer) + sum_words(seq![0u8, 6u8]) + sum_words(
        be16(seg.len() as u16),
    ) + sum_words(seg)
}

/// The header this connection stamps on an outgoing segment, before the
/// checksum is known.
pub open spec fn spec_out_header(s: TcpResource, flags: u16, ck: u16) -> TcpHeader {
    TcpHeader {
        src: s.host_port,
        dst: s.peer_port,
        sequence: s.sequence,
        ack_num: s.acknowledge,
        flags: FLAGS_DOFF_20 | flags,
        window_size: 65535,
        checksum: ck,
        urgent_pointer: 0,
    }
}

/// The exact wire bytes of an outgoing segment: header with the compiled
/// pseudo-header checksum written in, no options, then the payload.
pub open spec fn spec_segment_out(s: TcpResource, flags: u16, data: Seq<u8>) -> Seq<u8> {
    let bare = spec_header_bytes(spec_out_header(s, flags, 0)) + data;
    let ck = compile_sum(spec_pseudo_sum(s.local_addr@, s.peer_addr@, bare));
    spec_header_bytes(spec_out_header(s, flags, ck)) + data
}

/// A datagram is for this connection: it decodes and its ports match.
pub open spec fn spec_matches(s: TcpResource, b: Seq<u8>) -> bool {
    &&& spec_decodes(b)
    &&& spec_header_of(b).dst == s.host_port
    &&& spec_header_of(b).src == s.peer_port
}

impl TcpResource {
    /// Build one outgoing segment: stamp the connection's counters and the
    /// given flag bits on a header, compute the pseudo-header checksum over
    /// address, protocol, length and segment regions, and serialize.
    fn build_segment(&self, flags: u16, data: Vec<u8>) -> (r: Vec<u8>)
        requires
            20 + data@.len() <= 0xFFFF,
        ensures
            r@ == spec_segment_out(*self, flags, data@),
    {
        let header = TcpHeader {
            src: self.host_port,
            dst: self.peer_port,
            sequence: self.sequence,
            ack_num: self.acknowledge,
            flags: FLAGS_DOFF_20 | flags,
            window_size: 65535,
            checksum: 0,
            urgent_pointer: 0,
        };
        let mut seg = Tcp { header, options: Vec::new(), data };
        let bare = seg.to_bytes();
        assert(bare@ =~= spec_header_bytes(header) + seg.data@);

        let mut pseudo: Vec<u8> = Vec::new();
        pseudo.push(self.local_addr.bytes[0]);
        pseudo.push(self.local_addr.bytes[1]);
        pseudo.push(self.local_addr.bytes[2]);
        pseudo.push(self.local_addr.bytes[3]);
        pseudo.push(self.peer_addr.bytes[0]);
        pseudo.push(self.peer_addr.bytes[1]);
        pseudo.push(self.peer_addr.bytes[2]);
        pseudo.push(self.peer_addr.bytes[3]);
        pseudo.push(0);
        pseudo.push(6);
        let seg_len = bare.len() as u16;
        pseudo.push((seg_len >> 8) as u8);
        pseudo.push(#[verifier::truncate] (seg_len as u8));
        pseudo.extend_from_slice(bare.as_slice());

        proof {
            let local = self.local_addr@;
            let peer = self.peer_addr@;
            let proto = seq![0u8, 6u8];
            let lenb = be16(bare@.len() as u16);
            assert(pseudo@ =~= local + (peer + (proto + (lenb + bare@))));
            checksum::lemma_sum_words_concat(local, peer + (proto + (lenb + bare@)));
            checksum::lemma_sum_words_concat(peer, proto + (lenb + bare@));
            checksum::lemma_sum_words_concat(proto, lenb + bare@);
            checksum::lemma_sum_words_concat(lenb, bare@);
        }
        let ck = checksum::compile(checksum::sum(pseudo.as_slice()));
        seg.header.checksum = ck;
        let out = seg.to_bytes();
        assert(out@ =~= spec_segment_out(*self, flags, seg.data@));
        out
    }

    /// The SYN segment that opens a client handshake.
    pub fn syn_segment(&self) -> (r: Vec<u8>)
        ensures
            r@ == spec_segment_out(*self, TCP_SYN, Seq::<u8>::empty()),
    {
        self.build_segment(TCP_SYN, Vec::new())
    }

    /// The best-effort FIN-ACK segment sent once when the connection is
    /// torn down; no closing handshake follows it.
    pub fn fin_segment(&self) -> (r: Vec<u8>)
        ensures
            r@ == spec_segment_out(*self, TCP_FIN | TCP_ACK, Seq::<u8>::empty()),
    {
        self.build_segment(TCP_FIN | TCP_ACK, Vec::new())
    }

    /// The PSH-ACK segment that carries `buf` during a steady-state send.
    pub fn push_segment(&self, buf: &[u8]) -> (r: Vec<u8>)
        requires
            20 + buf@.len() <= 0xFFFF,
        ensures
            r@ == spec_segment_out(*self, TCP_PSH | TCP_ACK, buf@),
    {
        self.build_segment(TCP_PSH | TCP_ACK, vstd::slice::slice_to_vec(buf))
    }

    /// Duplicate the scalar connection state; the caller duplicates the
    /// underlying IP resource handle alongside. The copies evolve
    /// independently afterwards.
    pub fn dup(&self) -> (r: TcpResource)
        ensures
            r == *self,
    {
        *self
    }
}

/// Outcome of feeding one datagram to a client handshake in progress.
pub enum HandshakeStep {
    /// Not for this connection (malformed or mismatched ports): keep waiting.
    Pending,
    /// The peer answered SYN-ACK: the connection is established and the
    /// carried ACK segment must be transmitted.
    Established { ack: Vec<u8> },
    /// The peer answered with any other flags: the handshake failed for good.
    Refused,
}

/// Outcome of feeding one datagram to a server handshake in progress.
pub enum ServerStep {
    Pending,
    Established,
    Refused,
}

/// Outcome of feeding one datagram to a steady-state receive.
pub enum ReceiveStep {
    Pending,
    /// A data segment arrived: the carried ACK segment must be transmitted
    /// before the payload is handed to the caller.
    Accepted { ack: Vec<u8>, payload: Vec<u8> },
}

/// Outcome of feeding one reply datagram to a steady-state send.
pub enum WriteStep {
    Pending,
    /// The peer acknowledged: the counters have advanced.
    Acked,
    /// The peer answered a matching segment with anything but a bare ACK:
    /// the pipe is broken.
    Broken,
}

impl TcpResource {
    /// Client handshake, one datagram at a time, after the SYN went out.
    /// A datagram that is not a matching segment is filtered silently; the
    /// first matching one decides: exactly SYN-ACK establishes (recording
    /// the peer's counters and answering with an ACK), anything else is a
    /// terminal failure, with the state untouched.
    pub fn client_establish(&mut self, datagram: &[u8]) -> (r: HandshakeStep)
        ensures
            !spec_matches(*old(self), datagram@) ==> r is Pending && *final(self) == *old(self),
            spec_matches(*old(self), datagram@) && flag_bits(spec_header_of(datagram@).flags) == (
            TCP_SYN | TCP_ACK) ==> {
                &&& *final(self) == (TcpResource {
                    sequence: spec_header_of(datagram@).ack_num,
                    acknowledge: spec_header_of(datagram@).sequence.wrapping_add(1),
                    ..*old(self)
                })
                &&& r matches HandshakeStep::Established { ack } && ack@ == spec_segment_out(
                    *final(self),
                    TCP_ACK,
                    Seq::<u8>::empty(),
                )
            },
            spec_matches(*old(self), datagram@) && flag_bits(spec_header_of(datagram@).flags) != (
            TCP_SYN | TCP_ACK) ==> r is Refused && *final(self) == *old(self),
    {
        match Tcp::from_bytes(vstd::slice::slice_to_vec(datagram)) {
            Some(seg) => {
                if seg.header.dst == self.host_port && seg.header.src == self.peer_port {
                    if seg.header.flags & 0x0FFF == TCP_SYN | TCP_ACK {
                        self.sequence = seg.header.ack_num;
                        self.acknowledge = seg.header.sequence.wrapping_add(1);
                        let ack = self.build_segment(TCP_ACK, Vec::new());
                        HandshakeStep::Established { ack }
                    } else {
                        HandshakeStep::Refused
                    }
                } else {
                    HandshakeStep::Pending
                }
            },
            None => HandshakeStep::Pending,
        }
    }

    /// Server side: answer an accepted SYN. Advances the acknowledgment
    /// past the peer's initial sequence number and builds the SYN-ACK to
    /// transmit.
    pub fn server_syn_ack(&mut self) -> (r: Vec<u8>)
        ensures
            *final(self) == (TcpResource {
                acknowledge: old(self).acknowledge.wrapping_add(1),
                ..*old(self)
            }),
            r@ == spec_segment_out(*final(self), TCP_SYN | TCP_ACK, Seq::<u8>::empty()),
    {
        self.acknowledge = self.acknowledge.wrapping_add(1);
        self.build_segment(TCP_SYN | TCP_ACK, Vec::new())
    }

    /// Server handshake, one datagram at a time, after the SYN-ACK went
    /// out: the first matching segment decides, exactly ACK establishes,
    /// anything else is a terminal failure.
    pub fn server_establish(&mut self, datagram: &[u8]) -> (r: ServerStep)
        ensures
            !spec_matches(*old(self), datagram@) ==> r is Pending && *final(self) == *old(self),
            spec_matches(*old(self), datagram@) && flag_bits(spec_header_of(datagram@).flags)
                == TCP_ACK ==> r is Established && *final(self) == (TcpResource {
                sequence: spec_header_of(datagram@).ack_num,
                acknowledge: spec_header_of(datagram@).sequence,
                ..*old(self)
            }),
            spec_matches(*old(self), datagram@) && flag_bits(spec_header_of(datagram@).flags)
                != TCP_ACK ==> r is Refused && *final(self) == *old(self),
    {
        match Tcp::from_bytes(vstd::slice::slice_to_vec(datagram)) {
            Some(seg) => {
                if seg.header.dst == self.host_port && seg.header.src == self.peer_port {
                    if seg.header.flags & 0x0FFF == TCP_ACK {
                        self.sequence = seg.header.ack_num;
                        self.acknowledge = seg.header.sequence;
                        ServerStep::Established
                    } else {
                        ServerStep::Refused
                    }
                } else {
                    ServerStep::Pending
                }
            },
            None => ServerStep::Pending,
        }
    }

    /// Steady-state receive, one datagram at a time. Exactly one PSH-ACK
    /// segment with matching ports is consumed: the counters advance past
    /// its payload and the returned ACK segment must be transmitted before
    /// the payload reaches the caller. Everything else is filtered.
    pub fn receive(&mut self, datagram: &[u8]) -> (r: ReceiveStep)
        requires
            datagram@.len() <= 0xFFFF,
        ensures
            !(spec_matches(*old(self), datagram@) && flag_bits(spec_header_of(datagram@).flags)
                == (TCP_PSH | TCP_ACK)) ==> r is Pending && *final(self) == *old(self),
            spec_matches(*old(self), datagram@) && flag_bits(spec_header_of(datagram@).flags) == (
            TCP_PSH | TCP_ACK) ==> {
                &&& *final(self) == (TcpResource {
                    sequence: spec_header_of(datagram@).ack_num,
                    acknowledge: spec_header_of(datagram@).sequence.wrapping_add(
                        spec_payload(datagram@).len() as u32,
                    ),
                    ..*old(self)
                })
                &&& r matches ReceiveStep::Accepted { ack, payload } && payload@ == spec_payload(
                    datagram@,
                ) && ack@ == spec_segment_out(*final(self), TCP_ACK, Seq::<u8>::empty())
            },
    {
        match Tcp::from_bytes(vstd::slice::slice_to_vec(datagram)) {
            Some(seg) => {
                if seg.header.dst == self.host_port && seg.header.src == self.peer_port
                    && seg.header.flags & 0x0FFF == TCP_PSH | TCP_ACK {
                    self.sequence = seg.header.ack_num;
                    self.acknowledge = seg.header.sequence.wrapping_add(seg.data.len() as u32);
                    let ack = self.build_segment(TCP_ACK, Vec::new());
                    ReceiveStep::Accepted { ack, payload: seg.data }
                } else {
                    ReceiveStep::Pending
                }
            },
            None => ReceiveStep::Pending,
        }
    }

    /// Steady-state send, after the PSH-ACK went out: the first matching
    /// reply decides. Exactly ACK advances the counters; anything else on
    /// matching ports means the pipe is broken, with the state untouched.
    pub fn write_reply(&mut self, datagram: &[u8]) -> (r: WriteStep)
        ensures
            !spec_matches(*old(self), datagram@) ==> r is Pending && *final(self) == *old(self),
            spec_matches(*old(self), datagram@) && flag_bits(spec_header_of(datagram@).flags)
                == TCP_ACK ==> r is Acked && *final(self) == (TcpResource {
                sequence: spec_header_of(datagram@).ack_num,
                acknowledge: spec_header_of(datagram@).sequence,
                ..*old(self)
            }),
            spec_matches(*old(self), datagram@) && flag_bits(spec_header_of(datagram@).flags)
                != TCP_ACK ==> r is Broken && *final(self) == *old(self),
    {
        match Tcp::from_bytes(vstd::slice::slice_to_vec(datagram)) {
            Some(seg) => {
                if seg.header.dst == self.host_port && seg.header.src == self.peer_port {
                    if seg.header.flags & 0x0FFF == TCP_ACK {
                        self.sequence = seg.header.ack_num;
                        self.acknowledge = seg.header.sequence;
                        WriteStep::Acked
                    } else {
                        WriteStep::Broken
                    }
                } else {
                    WriteStep::Pending
                }
            },
            None => WriteStep::Pending,
        }
    }
}


/// Decimal representation of a non-negative number, most significant
/// digit first, as ASCII bytes.
pub open spec fn dec_rep(n: int) -> Seq<u8>
    recommends
        0 <= n,
    decreases n,
{
    if n < 10 {
        seq![(48 + n) as u8]
    } else {
        dec_rep(n / 10) + seq![(48 + n % 10) as u8]
    }
}

/// The exact resource path of a connection, as ASCII bytes:
/// `tcp:<peer-ip-dotted-decimal>:<peer-port>/<local-port>`.
pub open spec fn spec_path(s: TcpResource) -> Seq<u8> {
    seq![116u8, 99u8, 112u8, 58u8] + dec_rep(s.peer_addr@[0] as int) + seq![46u8] + dec_rep(
        s.peer_addr@[1] as int,
    ) + seq![46u8] + dec_rep(s.peer_addr@[2] as int) + seq![46u8] + dec_rep(
        s.peer_addr@[3] as int,
    ) + seq![58u8] + dec_rep(s.peer_port as int) + seq![47u8] + dec_rep(s.host_port as int)
}

/// Append the decimal digits of `n` to `out`.
pub(crate) fn push_dec(out: &mut Vec<u8>, n: u16)
    ensures
        final(out)@ == old(out)@ + dec_rep(n as int),
    decreases n,
{
    if n < 10 {
        out.push(48 + n as u8);
        assert(out@ =~= old(out)@ + dec_rep(n as int));
    } else {
        push_dec(out, n / 10);
        out.push(48 + (n % 10) as u8);
        assert(out@ =~= old(out)@ + dec_rep(n as int));
    }
}

impl TcpResource {
    /// The connection's full resource path as bytes.
    pub fn path_bytes(&self) -> (r: Vec<u8>)
        ensures
            r@ == spec_path(*self),
    {
        let mut r: Vec<u8> = Vec::new();
        r.push(116);
        r.push(99);
        r.push(112);
        r.push(58);
        push_dec(&mut r, self.peer_addr.bytes[0] as u16);
        r.push(46);
        push_dec(&mut r, self.peer_addr.bytes[1] as u16);
        r.push(46);
        push_dec(&mut r, self.peer_addr.bytes[2] as u16);
        r.push(46);
        push_dec(&mut r, self.peer_addr.bytes[3] as u16);
        r.push(58);
        push_dec(&mut r, self.peer_port);
        r.push(47);
        push_dec(&mut r, self.host_port);
        assert(r@ =~= spec_path(*self));
        r
    }

    /// Copy the resource path into the caller's buffer, leaving the
    /// buffer's length unchanged, and report how many bytes were written:
    /// the shorter of the buffer and the path.
    pub fn path(&self, buf: &mut Vec<u8>) -> (count: usize)
        ensures
            final(buf)@.len() == old(buf)@.len(),
            count == if old(buf)@.len() <= spec_path(*self).len() {
                old(buf)@.len()
            } else {
                spec_path(*self).len()
            },
            forall|i: int| 0 <= i < count ==> final(buf)@[i] == spec_path(*self)[i],
            forall|i: int| count <= i < final(buf)@.len() ==> final(buf)@[i] == old(buf)@[i],
    {
        let path = self.path_bytes();
        let n = if buf.len() <= path.len() {
            buf.len()
        } else {
            path.len()
        };
        let mut i: usize = 0;
        while i < n
            invariant
                i <= n,
                n <= buf@.len(),
                n <= path@.len(),
                buf@.len() == old(buf)@.len(),
                path@ == spec_path(*self),
                forall|j: int| 0 <= j < i ==> buf@[j] == path@[j],
                forall|j: int| i <= j < buf@.len() ==> buf@[j] == old(buf)@[j],
            decreases n - i,
        {
            let v = path[i];
            buf[i] = v;
            i = i + 1;
        }
        n
    }
}


proof fn lemma_doff_bits()
    by (bit_vector)
    ensures
        forall|fl: u16|
            fl & 0xF000 == 0 ==> (((#[trigger] (FLAGS_DOFF_20 | fl)) & 0xF000) >> 10) == 20,
        forall|fl: u16| fl & 0xF000 == 0 ==> ((FLAGS_DOFF_20 | fl) & 0x0FFF) == fl,
{
}

/// Every segment a connection emits is well formed on the wire: it
/// decodes, and it decodes back to the connection's own ports, counters,
/// flag bits and payload, with no options.
pub proof fn lemma_segment_out_decodes(s: TcpResource, flags: u16, data: Seq<u8>)
    requires
        flags & 0xF000 == 0,
    ensures
        spec_decodes(spec_segment_out(s, flags, data)),
        ({
            let b = spec_segment_out(s, flags, data);
            &&& spec_header_of(b).src == s.host_port
            &&& spec_header_of(b).dst == s.peer_port
            &&& spec_header_of(b).sequence == s.sequence
            &&& spec_header_of(b).ack_num == s.acknowledge
            &&& flag_bits(spec_header_of(b).flags) == flags
            &&& spec_options(b) == Seq::<u8>::empty()
            &&& spec_payload(b) == data
        }),
{
    lemma_doff_bits();
    let bare = spec_header_bytes(spec_out_header(s, flags, 0)) + data;
    let ck = compile_sum(spec_pseudo_sum(s.local_addr@, s.peer_addr@, bare));
    let h = spec_out_header(s, flags, ck);
    lemma_encode_decode(h, Seq::<u8>::empty(), data);
    assert(spec_header_bytes(h) + Seq::<u8>::empty() + data =~= spec_segment_out(s, flags, data));
}

} // verus!
