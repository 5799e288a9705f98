//! TCP segment wire codec: a fixed 20-byte header in network byte order,
//! a variable options region whose length is carried in the header's
//! data-offset bits, and the payload.
//!
//! The header-length arithmetic is deliberately `(flags & 0xF000) >> 10`,
//! which yields the header length in bytes directly because the data-offset
//! nibble is stored pre-shifted; encode and decode agree on this exactly.

use vstd::prelude::*;

verus! {

pub const TCP_FIN: u16 = 0x01;

pub const TCP_SYN: u16 = 0x02;

pub const TCP_RST: u16 = 0x04;

pub const TCP_PSH: u16 = 0x08;

pub const TCP_ACK: u16 = 0x10;

/// Data-offset bits of the flags field for a bare 20-byte header.
pub const FLAGS_DOFF_20: u16 = 0x5000;

/// The fixed TCP header, fields in host integers; the codec below fixes
/// the network byte order.
#[derive(Clone, Copy, PartialEq, Eq, Structural, Debug)]
pub struct TcpHeader {
    pub src: u16,
    pub dst: u16,
    pub sequence: u32,
    pub ack_num: u32,
    pub flags: u16,
    pub window_size: u16,
    pub checksum: u16,
    pub urgent_pointer: u16,
}

/// One TCP segment: header, options and payload.
pub struct Tcp {
    pub header: TcpHeader,
    pub options: Vec<u8>,
    pub data: Vec<u8>,
}

/// The twelve flag bits of the flags field, with the data-offset bits
/// masked away.
pub open spec fn flag_bits(flags: u16) -> u16 {
    flags & 0x0FFF
}

/// The 20 header bytes in network byte order.
pub open spec fn spec_header_bytes(h: TcpHeader) -> Seq<u8> {
    seq![
        (h.src >> 8) as u8,
        h.src as u8,
        (h.dst >> 8) as u8,
        h.dst as u8,
        (h.sequence >> 24) as u8,
        (h.sequence >> 16) as u8,
        (h.sequence >> 8) as u8,
        h.sequence as u8,
        (h.ack_num >> 24) as u8,
        (h.ack_num >> 16) as u8,
        (h.ack_num >> 8) as u8,
        h.ack_num as u8,
        (h.flags >> 8) as u8,
        h.flags as u8,
        (h.window_size >> 8) as u8,
        h.window_size as u8,
        (h.checksum >> 8) as u8,
        h.checksum as u8,
        (h.urgent_pointer >> 8) as u8,
        h.urgent_pointer as u8,
    ]
}

/// Big-endian 16-bit word read at byte offset `i`.
pub open spec fn word_at(b: Seq<u8>, i: int) -> u16
    recommends
        0 <= i,
        i + 2 <= b.len(),
{
    ((b[i] as u16) << 8) | (b[i + 1] as u16)
}

/// Big-endian 32-bit word read at byte offset `i`.
pub open spec fn dword_at(b: Seq<u8>, i: int) -> u32
    recommends
        0 <= i,
        i + 4 <= b.len(),
{
    ((b[i] as u32) << 24) | ((b[i + 1] as u32) << 16) | ((b[i + 2] as u32) << 8) | (b[i
        + 3] as u32)
}

/// The header read out of the first 20 bytes of a buffer.
pub open spec fn spec_header_of(b: Seq<u8>) -> TcpHeader
    recommends
        b.len() >= 20,
{
    TcpHeader {
        src: word_at(b, 0),
        dst: word_at(b, 2),
        sequence: dword_at(b, 4),
        ack_num: dword_at(b, 8),
        flags: word_at(b, 12),
        window_size: word_at(b, 14),
        checksum: word_at(b, 16),
        urgent_pointer: word_at(b, 18),
    }
}

/// Header length in bytes, decoded from the pre-shifted data-offset bits.
pub open spec fn spec_header_len(b: Seq<u8>) -> int
    recommends
        b.len() >= 20,
{
    ((spec_header_of(b).flags & 0xF000) >> 10) as int
}

/// A buffer decodes to a segment: it holds a full header and the header
/// length field is consistent with the buffer.
pub open spec fn spec_decodes(b: Seq<u8>) -> bool {
    &&& b.len() >= 20
    &&& 20 <= spec_header_len(b) <= b.len()
}

pub open spec fn spec_options(b: Seq<u8>) -> Seq<u8>
    recommends
        spec_decodes(b),
{
    b.subrange(20, spec_header_len(b))
}

pub open spec fn spec_payload(b: Seq<u8>) -> Seq<u8>
    recommends
        spec_decodes(b),
{
    b.subrange(spec_header_len(b), b.len() as int)
}

impl Tcp {
    /// The exact wire bytes of this segment.
    pub open spec fn spec_bytes(&self) -> Seq<u8> {
        spec_header_bytes(self.header) + self.options@ + self.data@
    }

    /// Well-formed: the header's data-offset bits agree with the options
    /// length, so the segment decodes from its own encoding.
    pub open spec fn spec_wf(&self) -> bool {
        ((self.header.flags & 0xF000) >> 10) as int == 20 + self.options@.len()
    }
}

proof fn lemma_be16_parts()
    by (bit_vector)
    ensures
        forall|a: u8, b: u8| #[trigger] (((((a as u16) << 8) | (b as u16)) >> 8) as u8) == a,
        forall|a: u8, b: u8| #[trigger] ((((a as u16) << 8) | (b as u16)) as u8) == b,
        forall|x: u16| #[trigger] ((((x >> 8) as u8 as u16) << 8) | (x as u8 as u16)) == x,
{
}

proof fn lemma_be32_parts()
    by (bit_vector)
    ensures
        forall|a: u8, b: u8, c: u8, d: u8|
            #[trigger] (((((a as u32) << 24) | ((b as u32) << 16) | ((c as u32) << 8) | (d as u32))
                >> 24) as u8) == a,
        forall|a: u8, b: u8, c: u8, d: u8|
            #[trigger] (((((a as u32) << 24) | ((b as u32) << 16) | ((c as u32) << 8) | (d as u32))
                >> 16) as u8) == b,
        forall|a: u8, b: u8, c: u8, d: u8|
            #[trigger] (((((a as u32) << 24) | ((b as u32) << 16) | ((c as u32) << 8) | (d as u32))
                >> 8) as u8) == c,
        forall|a: u8, b: u8, c: u8, d: u8|
            #[trigger] ((((a as u32) << 24) | ((b as u32) << 16) | ((c as u32) << 8) | (d as u32)) as u8) == d,
        forall|x: u32|
            #[trigger] ((((x >> 24) as u8 as u32) << 24) | (((x >> 16) as u8 as u32) << 16) | (((x
                >> 8) as u8 as u32) << 8) | (x as u8 as u32)) == x,
{
}

/// Decoding the header bytes of a well-formed buffer and re-encoding them
/// reproduces the buffer's first 20 bytes.
proof fn lemma_header_bytes_of(b: Seq<u8>)
    requires
        b.len() >= 20,
    ensures
        spec_header_bytes(spec_header_of(b)) =~= b.subrange(0, 20),
{
    lemma_be16_parts();
    lemma_be32_parts();
}

/// Round trip: re-encoding the header, options and payload decoded from a
/// well-formed buffer reproduces that buffer exactly.
pub proof fn lemma_decode_encode(b: Seq<u8>)
    requires
        spec_decodes(b),
    ensures
        spec_header_bytes(spec_header_of(b)) + spec_options(b) + spec_payload(b) == b,
{
    lemma_header_bytes_of(b);
    assert(spec_header_bytes(spec_header_of(b)) + spec_options(b) + spec_payload(b) =~= b);
}

/// Round trip the other way: a segment whose data-offset bits agree with
/// its options length decodes from its own encoding, field for field.
pub proof fn lemma_encode_decode(h: TcpHeader, options: Seq<u8>, data: Seq<u8>)
    requires
        ((h.flags & 0xF000) >> 10) as int == 20 + options.len(),
    ensures
        spec_decodes(spec_header_bytes(h) + options + data),
        spec_header_of(spec_header_bytes(h) + options + data) == h,
        spec_options(spec_header_bytes(h) + options + data) == options,
        spec_payload(spec_header_bytes(h) + options + data) == data,
{
    lemma_be16_parts();
    lemma_be32_parts();
    let b = spec_header_bytes(h) + options + data;
    assert(b.subrange(0, 20) =~= spec_header_bytes(h));
    assert(word_at(b, 12) == h.flags);
    assert(spec_header_of(b) == h);
    assert(spec_options(b) =~= options);
    assert(spec_payload(b) =~= data);
}

impl Tcp {
    /// Serialize: header bytes, then options, then payload, in that order.
    /// No checksum is computed here; the header is emitted as it stands.
    pub fn to_bytes(&self) -> (r: Vec<u8>)
        ensures
            r@ == self.spec_bytes(),
    {
        let mut r: Vec<u8> = Vec::new();
        let h = &self.header;
        r.push(#[verifier::truncate] ((h.src >> 8) as u8));
        r.push(#[verifier::truncate] (h.src as u8));
        r.push(#[verifier::truncate] ((h.dst >> 8) as u8));
        r.push(#[verifier::truncate] (h.dst as u8));
        r.push(#[verifier::truncate] ((h.sequence >> 24) as u8));
        r.push(#[verifier::truncate] ((h.sequence >> 16) as u8));
        r.push(#[verifier::truncate] ((h.sequence >> 8) as u8));
        r.push(#[verifier::truncate] (h.sequence as u8));
        r.push(#[verifier::truncate] ((h.ack_num >> 24) as u8));
        r.push(#[verifier::truncate] ((h.ack_num >> 16) as u8));
        r.push(#[verifier::truncate] ((h.ack_num >> 8) as u8));
        r.push(#[verifier::truncate] (h.ack_num as u8));
        r.push(#[verifier::truncate] ((h.flags >> 8) as u8));
        r.push(#[verifier::truncate] (h.flags as u8));
        r.push(#[verifier::truncate] ((h.window_size >> 8) as u8));
        r.push(#[verifier::truncate] (h.window_size as u8));
        r.push(#[verifier::truncate] ((h.checksum >> 8) as u8));
        r.push(#[verifier::truncate] (h.checksum as u8));
        r.push(#[verifier::truncate] ((h.urgent_pointer >> 8) as u8));
        r.push(#[verifier::truncate] (h.urgent_pointer as u8));
        assert(r@ =~= spec_header_bytes(self.header));
        r.extend_from_slice(self.options.as_slice());
        r.extend_from_slice(self.data.as_slice());
        assert(r@ =~= self.spec_bytes());
        r
    }

    /// Parse a raw buffer. Fails on a buffer too short to hold a header,
    /// and on a header length field that is malformed (below 20) or runs
    /// past the end of the buffer.
    pub fn from_bytes(bytes: Vec<u8>) -> (r: Option<Tcp>)
        ensures
            r is Some <==> spec_decodes(bytes@),
            bytes@.len() < 20 ==> r is None,
            r matches Some(t) ==> {
                &&& t.header == spec_header_of(bytes@)
                &&& t.options@ == spec_options(bytes@)
                &&& t.data@ == spec_payload(bytes@)
                &&& t.spec_wf()
            },
    {
        if bytes.len() < 20 {
            return None;
        }
        let src = ((bytes[0] as u16) << 8) | (bytes[1] as u16);
        let dst = ((bytes[2] as u16) << 8) | (bytes[3] as u16);
        let sequence = ((bytes[4] as u32) << 24) | ((bytes[5] as u32) << 16) | ((bytes[6] as u32)
            << 8) | (bytes[7] as u32);
        let ack_num = ((bytes[8] as u32) << 24) | ((bytes[9] as u32) << 16) | ((bytes[10] as u32)
            << 8) | (bytes[11] as u32);
        let flags = ((bytes[12] as u16) << 8) | (bytes[13] as u16);
        let window_size = ((bytes[14] as u16) << 8) | (bytes[15] as u16);
        let checksum = ((bytes[16] as u16) << 8) | (bytes[17] as u16);
        let urgent_pointer = ((bytes[18] as u16) << 8) | (bytes[19] as u16);
        let header_len = ((flags & 0xF000) >> 10) as usize;
        if header_len < 20 || header_len > bytes.len() {
            return None;
        }
        let mut options: Vec<u8> = Vec::new();
        let mut k: usize = 20;
        while k < header_len
            invariant
                20 <= k <= header_len <= bytes@.len(),
                options@ == bytes@.subrange(20, k as int),
            decreases header_len - k,
        {
            options.push(bytes[k]);
            assert(options@ =~= bytes@.subrange(20, k + 1));
            k = k + 1;
        }
        let mut data: Vec<u8> = Vec::new();
        let mut k: usize = header_len;
        while k < bytes.len()
            invariant
                header_len <= k <= bytes@.len(),
                data@ == bytes@.subrange(header_len as int, k as int),
            decreases bytes@.len() - k,
        {
            data.push(bytes[k]);
            assert(data@ =~= bytes@.subrange(header_len as int, k + 1));
            k = k + 1;
        }
        let header = TcpHeader {
            src,
            dst,
            sequence,
            ack_num,
            flags,
            window_size,
            checksum,
            urgent_pointer,
        };
        Some(Tcp { header, options, data })
    }
}

} // verus!
