use tcp_scheme::checksum;
use tcp_scheme::segment::{Tcp, TcpHeader, FLAGS_DOFF_20, TCP_ACK, TCP_SYN};

fn sample_header(flags: u16) -> TcpHeader {
    TcpHeader {
        src: 0x1234,
        dst: 0x0050,
        sequence: 0x01020304,
        ack_num: 0xA1B2C3D4,
        flags,
        window_size: 65535,
        checksum: 0xBEEF,
        urgent_pointer: 0,
    }
}

#[test]
fn decode_rejects_short_buffer() {
    assert!(Tcp::from_bytes(Vec::new()).is_none());
    assert!(Tcp::from_bytes(vec![0u8; 19]).is_none());
}

#[test]
fn decode_accepts_bare_header() {
    let bytes = Tcp {
        header: sample_header(FLAGS_DOFF_20 | TCP_SYN),
        options: Vec::new(),
        data: Vec::new(),
    }
    .to_bytes();
    assert_eq!(bytes.len(), 20);
    let seg = Tcp::from_bytes(bytes).expect("a bare header decodes");
    assert_eq!(seg.header, sample_header(FLAGS_DOFF_20 | TCP_SYN));
    assert!(seg.options.is_empty());
    assert!(seg.data.is_empty());
}

#[test]
fn decode_rejects_header_len_below_twenty() {
    // Data-offset bits zero: header length decodes as 0, below 20.
    let bytes = Tcp { header: sample_header(TCP_SYN), options: Vec::new(), data: Vec::new() }
        .to_bytes();
    assert!(Tcp::from_bytes(bytes).is_none());
}

#[test]
fn decode_rejects_header_len_past_buffer() {
    // Data-offset bits 0x6000 decode as 24 bytes, longer than the buffer.
    let bytes = Tcp { header: sample_header(0x6000), options: Vec::new(), data: Vec::new() }
        .to_bytes();
    assert_eq!(bytes.len(), 20);
    assert!(Tcp::from_bytes(bytes).is_none());
}

#[test]
fn encode_is_big_endian_field_order() {
    let bytes = Tcp {
        header: sample_header(FLAGS_DOFF_20 | TCP_ACK),
        options: Vec::new(),
        data: vec![0xAA, 0xBB],
    }
    .to_bytes();
    assert_eq!(
        bytes,
        vec![
            0x12, 0x34, // source port
            0x00, 0x50, // destination port
            0x01, 0x02, 0x03, 0x04, // sequence
            0xA1, 0xB2, 0xC3, 0xD4, // acknowledgment
            0x50, 0x10, // data offset and flags
            0xFF, 0xFF, // window size
            0xBE, 0xEF, // checksum
            0x00, 0x00, // urgent pointer
            0xAA, 0xBB, // payload
        ]
    );
}

#[test]
fn round_trip_bytes_with_options() {
    // Data-offset bits 0x6000: a 24-byte header, so four option bytes.
    let mut bytes = Tcp {
        header: sample_header(0x6000 | TCP_ACK),
        options: Vec::new(),
        data: Vec::new(),
    }
    .to_bytes();
    bytes.extend_from_slice(&[1, 2, 3, 4]); // options
    bytes.extend_from_slice(&[9, 8, 7]); // payload
    let seg = Tcp::from_bytes(bytes.clone()).expect("well-formed buffer decodes");
    assert_eq!(seg.options, vec![1, 2, 3, 4]);
    assert_eq!(seg.data, vec![9, 8, 7]);
    assert_eq!(seg.to_bytes(), bytes);
}

#[test]
fn round_trip_bytes_bare() {
    let mut bytes = Tcp {
        header: sample_header(FLAGS_DOFF_20 | TCP_ACK),
        options: Vec::new(),
        data: Vec::new(),
    }
    .to_bytes();
    bytes.extend_from_slice(&[0x55; 11]);
    let seg = Tcp::from_bytes(bytes.clone()).expect("well-formed buffer decodes");
    assert_eq!(seg.to_bytes(), bytes);
}

#[test]
fn checksum_sum_pairs_words() {
    assert_eq!(checksum::sum(&[]), 0);
    assert_eq!(checksum::sum(&[0x45, 0x00]), 0x4500);
    // A trailing lone byte counts as the high byte of a final word.
    assert_eq!(checksum::sum(&[0x45]), 0x4500);
    assert_eq!(checksum::sum(&[0x01, 0x02, 0x03]), 0x0102 + 0x0300);
    assert_eq!(checksum::sum(&[0xFF, 0xFF, 0xFF, 0xFF]), 0x1FFFE);
}

#[test]
fn checksum_compile_folds_carries() {
    assert_eq!(checksum::compile(0), 0xFFFF);
    assert_eq!(checksum::compile(0x4500), 0xFFFF - 0x4500);
    // 0x1FFFF folds to 0x10000, folds again to 1.
    assert_eq!(checksum::compile(0x1FFFF), 0xFFFE);
    assert_eq!(checksum::compile(0xFFFF_FFFF), 0x0000);
}

#[test]
fn checksum_additive_across_aligned_regions() {
    let a = [0x12, 0x34, 0xFF, 0xEE];
    let b = [0x56, 0x78, 0x9A];
    let mut ab = a.to_vec();
    ab.extend_from_slice(&b);
    assert_eq!(
        checksum::compile(checksum::sum(&a) + checksum::sum(&b)),
        checksum::compile(checksum::sum(&ab))
    );
}
