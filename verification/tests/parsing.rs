use tcp_scheme::conn::Ipv4Addr;
use tcp_scheme::parse::{parse_dec_capped, parse_host, parse_port, peer_addr_from_path};
use tcp_scheme::scheme::{
    ip_url_bytes, listen_match, parse_open_request, OpenRequest, TcpScheme,
};
use tcp_scheme::conn::TcpResource;
use tcp_scheme::segment::{Tcp, TcpHeader, FLAGS_DOFF_20, TCP_ACK, TCP_SYN};

#[test]
fn parse_port_takes_digits_after_last_colon() {
    assert_eq!(parse_port("12:34xyz"), "34");
    assert_eq!(parse_port(":80rest"), "80");
    assert_eq!(parse_port("12:34"), "34");
}

#[test]
fn parse_port_scan_stops_at_first_other_character() {
    // No colon seen: the scan stops at once and the first character comes back.
    assert_eq!(parse_port("abc"), "a");
    // The stopping character lands inside the returned slice.
    assert_eq!(parse_port("80/x"), "80/");
}

#[test]
fn parse_host_runs_to_first_separator() {
    assert_eq!(parse_host("example:80"), "example:");
    assert_eq!(parse_host("a/b"), "a/");
    assert_eq!(parse_host(":80"), ":");
}

#[test]
fn decimal_reader_is_parse_or_zero() {
    assert_eq!(parse_dec_capped("80", 0xFFFF), 80);
    assert_eq!(parse_dec_capped("+80", 0xFFFF), 80);
    assert_eq!(parse_dec_capped("00070", 0xFFFF), 70);
    assert_eq!(parse_dec_capped("65535", 0xFFFF), 65535);
    assert_eq!(parse_dec_capped("65536", 0xFFFF), 0);
    assert_eq!(parse_dec_capped("1000000000", 0xFFFF), 0);
    assert_eq!(parse_dec_capped("", 0xFFFF), 0);
    assert_eq!(parse_dec_capped("+", 0xFFFF), 0);
    assert_eq!(parse_dec_capped("++1", 0xFFFF), 0);
    assert_eq!(parse_dec_capped("8a", 0xFFFF), 0);
    assert_eq!(parse_dec_capped("-1", 0xFFFF), 0);
    assert_eq!(parse_dec_capped("256", 255), 0);
    assert_eq!(parse_dec_capped("255", 255), 255);
}

#[test]
fn dotted_decimal_reads_four_octets() {
    assert_eq!(Ipv4Addr::from_string("203.0.113.5").bytes, [203, 0, 113, 5]);
    assert_eq!(Ipv4Addr::from_string("1.2").bytes, [1, 2, 0, 0]);
    assert_eq!(Ipv4Addr::from_string("").bytes, [0, 0, 0, 0]);
    // A malformed or out-of-range octet reads as zero.
    assert_eq!(Ipv4Addr::from_string("300.1.2.3").bytes, [0, 1, 2, 3]);
    assert_eq!(Ipv4Addr::from_string("1..2.3").bytes, [1, 0, 2, 3]);
    // Parts past the fourth are ignored.
    assert_eq!(Ipv4Addr::from_string("1.2.3.4.9").bytes, [1, 2, 3, 4]);
}

#[test]
fn peer_address_recovered_from_ip_resource_path() {
    assert_eq!(peer_addr_from_path("ip:192.168.1.7/6").bytes, [192, 168, 1, 7]);
    assert_eq!(peer_addr_from_path("ip:10.0.0.9").bytes, [10, 0, 0, 9]);
    assert_eq!(peer_addr_from_path("nocolon").bytes, [0, 0, 0, 0]);
}

#[test]
fn open_request_with_host_and_port_connects() {
    match parse_open_request("10.0.0.7:80/whatever") {
        OpenRequest::Connect { peer_addr, peer_port } => {
            assert_eq!(peer_addr.bytes, [10, 0, 0, 7]);
            assert_eq!(peer_port, 80);
        }
        _ => panic!("host:port must connect"),
    }
    match parse_open_request("203.0.113.5:8080") {
        OpenRequest::Connect { peer_addr, peer_port } => {
            assert_eq!(peer_addr.bytes, [203, 0, 113, 5]);
            assert_eq!(peer_port, 8080);
        }
        _ => panic!("host:port must connect"),
    }
}

#[test]
fn open_request_with_bare_path_listens() {
    match parse_open_request("/8080") {
        OpenRequest::Listen { host_port } => assert_eq!(host_port, 8080),
        _ => panic!("/port must listen"),
    }
}

#[test]
fn open_request_rejects_neither_shape() {
    assert!(matches!(parse_open_request(""), OpenRequest::Invalid));
    assert!(matches!(parse_open_request("/"), OpenRequest::Invalid));
    assert!(matches!(parse_open_request("hostonly"), OpenRequest::Invalid));
    assert!(matches!(parse_open_request("host:"), OpenRequest::Invalid));
}

#[test]
fn listener_accepts_exactly_a_syn_to_its_port() {
    let syn = Tcp {
        header: TcpHeader {
            src: 55555,
            dst: 8080,
            sequence: 777,
            ack_num: 0,
            flags: FLAGS_DOFF_20 | TCP_SYN,
            window_size: 65535,
            checksum: 0,
            urgent_pointer: 0,
        },
        options: Vec::new(),
        data: Vec::new(),
    }
    .to_bytes();
    assert_eq!(listen_match(8080, &syn), Some((55555, 777)));
    assert_eq!(listen_match(8081, &syn), None); // other port
    assert_eq!(listen_match(8080, &[0u8; 5]), None); // malformed

    let syn_ack = Tcp {
        header: TcpHeader {
            src: 55555,
            dst: 8080,
            sequence: 777,
            ack_num: 1,
            flags: FLAGS_DOFF_20 | TCP_SYN | TCP_ACK,
            window_size: 65535,
            checksum: 0,
            urgent_pointer: 0,
        },
        options: Vec::new(),
        data: Vec::new(),
    }
    .to_bytes();
    assert_eq!(listen_match(8080, &syn_ack), None); // not exactly a SYN
}

#[test]
fn ip_url_names_the_raw_protocol_resource() {
    let addr = Ipv4Addr { bytes: [10, 1, 2, 3] };
    assert_eq!(ip_url_bytes(&addr), b"ip:10.1.2.3/6".to_vec());
}

#[test]
fn scheme_registers_as_tcp() {
    assert_eq!(TcpScheme.scheme(), "tcp");
}

#[test]
fn connect_state_draws_an_ephemeral_port() {
    let local = Ipv4Addr { bytes: [10, 0, 0, 1] };
    let peer = Ipv4Addr { bytes: [10, 0, 0, 2] };
    let c = TcpResource::connect_new(local, peer, 80, 5, 0x1_0000_0007);
    assert_eq!(c.host_port, 32768 + 5);
    assert_eq!(c.sequence, 7); // entropy truncated to 32 bits
    assert_eq!(c.acknowledge, 0);
    assert_eq!(c.peer_port, 80);

    let d = TcpResource::connect_new(local, peer, 80, u64::MAX, 1);
    assert!((32768..65536u32).contains(&(d.host_port as u32)));
}

#[test]
fn accept_state_takes_the_syn_counters() {
    let local = Ipv4Addr { bytes: [10, 0, 0, 1] };
    let peer = Ipv4Addr { bytes: [10, 0, 0, 2] };
    let c = TcpResource::accept_new(local, peer, 8080, 55555, 777, 42);
    assert_eq!(c.peer_port, 55555);
    assert_eq!(c.host_port, 8080);
    assert_eq!(c.sequence, 42);
    assert_eq!(c.acknowledge, 777);
}
