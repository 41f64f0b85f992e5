use net_analyze::analyze::{
    analyze, communication, dot_edges, edge_list, port_observation, shape_of, EndpointShape, PortObservation, PortType,
};
use net_analyze::dumpreader::{decode, ingest_frame, parse, parse_to_u16, parse_to_u32, DecodeError};
use net_analyze::pinfo::{MacAddr, PacketData, PortAddr, Protocol};
use net_analyze::store::DedupStore;

fn mac(last: u8) -> [u8; 6] {
    [0xaa, 0xaa, 0xaa, 0xaa, 0xaa, last]
}

fn ethernet(dst: [u8; 6], src: [u8; 6], ethertype: u16) -> Vec<u8> {
    let mut f = Vec::new();
    f.extend_from_slice(&dst);
    f.extend_from_slice(&src);
    f.push((ethertype >> 8) as u8);
    f.push((ethertype & 0xff) as u8);
    f
}

fn ipv4_frame(ihl: u8, proto: u8, sip: [u8; 4], dip: [u8; 4], sport: u16, dport: u16) -> Vec<u8> {
    let mut f = ethernet(mac(2), mac(1), 0x0800);
    let mut ip = vec![0u8; (ihl as usize) * 4];
    ip[0] = 0x40 | ihl;
    ip[9] = proto;
    ip[12..16].copy_from_slice(&sip);
    ip[16..20].copy_from_slice(&dip);
    // bytes that would be misread as ports if the header length were ignored
    ip[1] = 0xde;
    ip[2] = 0xad;
    ip[3] = 0xbe;
    f.extend_from_slice(&ip);
    f.extend_from_slice(&sport.to_be_bytes());
    f.extend_from_slice(&dport.to_be_bytes());
    f.extend_from_slice(&[0u8; 16]);
    f
}

fn tcp_unit(sport: u16, dport: u16) -> PacketData {
    PacketData::new()
        .macs(MacAddr::new(&mac(1)), MacAddr::new(&mac(2)))
        .ips(0x0a000001, 0x0a000002)
        .protocol(Protocol::TCP)
        .ports(PortAddr(sport), PortAddr(dport))
        .build()
}

#[test]
fn decode_is_deterministic() {
    let f = ipv4_frame(5, 6, [10, 0, 0, 1], [10, 0, 0, 2], 12345, 80);
    let a = decode(&f).unwrap().unwrap();
    let b = decode(&f).unwrap().unwrap();
    assert!(a == b);
}

#[test]
fn insert_twice_keeps_size() {
    let mut store = DedupStore::new();
    assert!(store.insert(tcp_unit(1000, 80)));
    assert_eq!(store.size(), 1);
    assert!(!store.insert(tcp_unit(1000, 80)));
    assert_eq!(store.size(), 1);
    assert!(store.insert(tcp_unit(1001, 80)));
    assert_eq!(store.size(), 2);
}

#[test]
fn distinct_units_bounded_by_frames() {
    let a = ipv4_frame(5, 6, [10, 0, 0, 1], [10, 0, 0, 2], 1, 2);
    let b = ipv4_frame(5, 17, [10, 0, 0, 1], [10, 0, 0, 2], 1, 2);
    let v6 = ethernet(mac(1), mac(2), 0x86DD);
    let r = parse(&vec![a.clone(), b.clone(), v6.clone()]);
    assert_eq!(r.store.size(), 2);
    let r = parse(&vec![a.clone(), b, a, v6]);
    assert_eq!(r.store.size(), 2);
    assert_eq!(r.truncated, 0);
}

#[test]
fn endpoint_shapes_follow_priority() {
    let udp = PacketData::new().ips(1, 2).protocol(Protocol::UDP).ports(PortAddr(5), PortAddr(6)).build();
    assert_eq!(shape_of(&udp), EndpointShape::UdpPorts);
    assert_eq!(shape_of(&tcp_unit(5, 6)), EndpointShape::TcpPorts);
    let icmp = PacketData::new().ips(1, 2).protocol(Protocol::ICMP).build();
    assert_eq!(shape_of(&icmp), EndpointShape::Ips);
    let tcp_no_ports = PacketData::new().ips(1, 2).protocol(Protocol::TCP).build();
    assert_eq!(shape_of(&tcp_no_ports), EndpointShape::Ips);
    let arp = PacketData::new().protocol(Protocol::ARP).build();
    assert_eq!(shape_of(&arp), EndpointShape::Macs);
}

#[test]
fn port_tie_break_takes_smaller_port() {
    let expected = Some(PortObservation { kind: PortType::PortTcp, port: 80 });
    assert_eq!(port_observation(&tcp_unit(80, 443)), expected);
    assert_eq!(port_observation(&tcp_unit(443, 80)), expected);
}

#[test]
fn ipv6_frames_are_ignored() {
    let mut f = ethernet(mac(1), mac(2), 0x86DD);
    f.extend_from_slice(&[0x60, 0, 0, 0, 0, 8, 6, 64]);
    f.extend_from_slice(&[7u8; 40]);
    assert!(matches!(decode(&f), Ok(None)));
    let bare = ethernet(mac(1), mac(2), 0x86DD);
    assert!(matches!(decode(&bare), Ok(None)));
}

#[test]
fn unknown_ethertype_is_ignored() {
    let f = ethernet(mac(1), mac(2), 0x88CC);
    assert!(matches!(decode(&f), Ok(None)));
}

#[test]
fn arp_frame_gives_mac_pair() {
    let mut f = ethernet(mac(2), mac(1), 0x0806);
    f.extend_from_slice(&[0u8; 28]);
    let u = decode(&f).unwrap().unwrap();
    assert_eq!(u.get_protocol(), Protocol::ARP);
    assert_eq!(u.get_sip(), None);
    assert_eq!(u.get_sport(), None);
    assert_eq!(shape_of(&u), EndpointShape::Macs);
    let c = communication(&u);
    assert_eq!(c.src, "aa:aa:aa:aa:aa:01");
    assert_eq!(c.dst, "aa:aa:aa:aa:aa:02");
    assert_eq!(c.protocol, "");
}

#[test]
fn tcp_ports_read_after_ip_header() {
    let f = ipv4_frame(5, 6, [10, 0, 0, 1], [10, 0, 0, 2], 12345, 80);
    let u = decode(&f).unwrap().unwrap();
    assert_eq!(u.get_sport(), Some(PortAddr(12345)));
    assert_eq!(u.get_dport(), Some(PortAddr(80)));
    assert_eq!(u.get_sip(), Some(0x0a000001));
    assert_eq!(u.get_dip(), Some(0x0a000002));
    assert_eq!(u.get_smac(), MacAddr::new(&mac(1)));
    assert_eq!(u.get_dmac(), MacAddr::new(&mac(2)));
}

#[test]
fn header_options_shift_ports() {
    let f = ipv4_frame(6, 17, [192, 168, 1, 1], [192, 168, 1, 2], 53, 5353);
    let u = decode(&f).unwrap().unwrap();
    assert_eq!(u.get_protocol(), Protocol::UDP);
    assert_eq!(u.get_sport(), Some(PortAddr(53)));
    assert_eq!(u.get_dport(), Some(PortAddr(5353)));
}

#[test]
fn truncated_frames_are_errors() {
    assert_eq!(decode(&[0u8; 13]).err(), Some(DecodeError::TruncatedFrame));
    let short_ip = ethernet(mac(1), mac(2), 0x0800);
    assert_eq!(decode(&short_ip).err(), Some(DecodeError::TruncatedFrame));
    let mut f = ipv4_frame(5, 6, [1, 2, 3, 4], [5, 6, 7, 8], 1, 2);
    f.truncate(14 + 20 + 3);
    assert_eq!(decode(&f).err(), Some(DecodeError::TruncatedFrame));
    f.truncate(34);
    // ICMP needs no transport header
    f[23] = 1;
    assert_eq!(decode(&f).unwrap().unwrap().get_protocol(), Protocol::ICMP);
    let mut store = DedupStore::new();
    assert_eq!(ingest_frame(&mut store, &[0u8; 5]), Err(DecodeError::TruncatedFrame));
    assert_eq!(store.size(), 0);
    let r = parse(&vec![vec![0u8; 3], f.clone(), f]);
    assert_eq!(r.truncated, 1);
    assert_eq!(r.store.size(), 1);
}

#[test]
fn three_frame_round_trip() {
    let mut arp = ethernet(mac(2), mac(1), 0x0806);
    arp.extend_from_slice(&[0u8; 28]);
    let tcp = ipv4_frame(5, 6, [10, 0, 0, 1], [10, 0, 0, 2], 12345, 80);
    let r = parse(&vec![arp, tcp.clone(), tcp]);
    assert_eq!(r.store.size(), 2);
    let a = analyze(&r.store);
    assert_eq!(a.connections.len(), 2);
    let mut found_arp = false;
    let mut found_tcp = false;
    for c in &a.connections {
        if c.src == "aa:aa:aa:aa:aa:01" && c.dst == "aa:aa:aa:aa:aa:02" && c.protocol.is_empty() {
            found_arp = true;
        }
        if c.src == "10.0.0.1:12345" && c.dst == "10.0.0.2:80" {
            found_tcp = true;
        }
    }
    assert!(found_arp && found_tcp);
    assert_eq!(a.ports, vec![PortObservation { kind: PortType::PortTcp, port: 80 }]);
    assert!(a.protocols.is_empty());
}

#[test]
fn analysis_collapses_equal_values() {
    let mut store = DedupStore::new();
    store.insert(tcp_unit(1000, 80));
    store.insert(tcp_unit(2000, 80));
    let named = PacketData::new().ips(1, 2).protocol(Protocol::UDP).ports(PortAddr(53), PortAddr(999))
        .display_name("DNS".to_string()).build();
    store.insert(named);
    let named2 = PacketData::new().ips(1, 3).protocol(Protocol::UDP).ports(PortAddr(53), PortAddr(999))
        .display_name("DNS".to_string()).build();
    store.insert(named2);
    let empty_name = PacketData::new().ips(1, 3).protocol(Protocol::ICMP).display_name(String::new()).build();
    store.insert(empty_name);
    let a = analyze(&store);
    assert_eq!(a.connections.len(), 5);
    assert_eq!(a.ports.len(), 2);
    assert!(a.ports.contains(&PortObservation { kind: PortType::PortTcp, port: 80 }));
    assert!(a.ports.contains(&PortObservation { kind: PortType::PortUdp, port: 53 }));
    assert_eq!(a.protocols, vec!["DNS".to_string()]);
    let icmp = a.connections.iter().find(|c| c.dst == "0.0.0.3").unwrap();
    assert_eq!(icmp.src, "0.0.0.1");
    assert_eq!(icmp.protocol, "");
    let dns = a.connections.iter().find(|c| c.dst == "0.0.0.2:999").unwrap();
    assert_eq!(dns.src, "0.0.0.1:53");
    assert_eq!(dns.protocol, "DNS");
}

#[test]
fn big_endian_reads() {
    let b = [0x12u8, 0x34, 0x56, 0x78, 0x9a];
    assert_eq!(parse_to_u16(&b, 0), 0x1234);
    assert_eq!(parse_to_u16(&b, 3), 0x789a);
    assert_eq!(parse_to_u32(&b, 1), 0x3456789a);
}

#[test]
fn protocol_numbers_and_names() {
    assert_eq!(Protocol::from_number(1), Protocol::ICMP);
    assert_eq!(Protocol::from_number(6), Protocol::TCP);
    assert_eq!(Protocol::from_number(17), Protocol::UDP);
    assert_eq!(Protocol::from_number(2), Protocol::Unknown);
    assert_eq!(Protocol::TCP.name(), "TCP");
    assert_eq!(Protocol::Unknown.name(), "Unknown");
}

#[test]
fn edge_lines_are_deduplicated() {
    let mut store = DedupStore::new();
    store.insert(tcp_unit(1000, 80));
    store.insert(tcp_unit(2000, 80));
    let arp = PacketData::new().macs(MacAddr::new(&mac(1)), MacAddr::new(&mac(2))).protocol(Protocol::ARP).build();
    store.insert(arp);
    let mut lines = edge_list(&store);
    lines.sort();
    assert_eq!(
        lines,
        vec![
            "10.0.0.1:1000,10.0.0.2:80\n".to_string(),
            "10.0.0.1:2000,10.0.0.2:80\n".to_string(),
            "aa:aa:aa:aa:aa:01,aa:aa:aa:aa:aa:02\n".to_string()
        ]
    );
    let mut dots = dot_edges(&store);
    dots.sort();
    assert_eq!(
        dots,
        vec![
            "\"10.0.0.1:1000\" -> \"10.0.0.2:80\"\n".to_string(),
            "\"10.0.0.1:2000\" -> \"10.0.0.2:80\"\n".to_string(),
            "\"aa:aa:aa:aa:aa:01\" -> \"aa:aa:aa:aa:aa:02\"\n".to_string()
        ]
    );
}
