use net_analyze::analyze::{Communication, PortObservation, PortType};
use net_analyze::normalize::{normalize, parse_decimal, parse_ipv4, parse_mac, FieldRecord, FormatError, RecordField};
use net_analyze::pinfo::{MacAddr, PacketData, PortAddr, Protocol};
use net_analyze::report::{format_communications, format_ports, format_protonames, format_summary};

fn record() -> FieldRecord {
    FieldRecord {
        smac: Some("aa:bb:cc:dd:ee:01".to_string()),
        dmac: Some("AA:BB:CC:DD:EE:02".to_string()),
        sip: Some("192.168.0.10".to_string()),
        dip: Some("8.8.8.8".to_string()),
        ip_proto: Some("17".to_string()),
        sport: Some("5353".to_string()),
        dport: Some("53".to_string()),
        proto_name: Some("DNS".to_string()),
    }
}

#[test]
fn mac_text_is_lower_hex() {
    let m = MacAddr::new(&[0x00, 0x1b, 0xAC, 0xff, 0x0a, 0x10]);
    assert_eq!(m.text(), "00:1b:ac:ff:0a:10");
}

#[test]
fn graph_and_dot_lines() {
    let arp = PacketData::new()
        .macs(MacAddr::new(&[1, 2, 3, 4, 5, 6]), MacAddr::new(&[0xa, 0xb, 0xc, 0xd, 0xe, 0xf]))
        .protocol(Protocol::ARP)
        .build();
    assert_eq!(arp.write_graph(), "01:02:03:04:05:06,0a:0b:0c:0d:0e:0f\n");
    assert_eq!(arp.write_dot(), "\"01:02:03:04:05:06\" -> \"0a:0b:0c:0d:0e:0f\"\n");
    let ip = PacketData::new().ips(0xc0a80001, 0x7f000001).protocol(Protocol::ICMP).build();
    assert_eq!(ip.write_graph(), "192.168.0.1,127.0.0.1\n");
    assert_eq!(ip.write_dot(), "\"192.168.0.1\" -> \"127.0.0.1\"\n");
    let tcp = PacketData::new()
        .ips(0x0a000001, 0x0a000002)
        .protocol(Protocol::TCP)
        .ports(PortAddr(12345), PortAddr(80))
        .build();
    assert_eq!(tcp.write_graph(), "10.0.0.1:12345,10.0.0.2:80\n");
    assert_eq!(tcp.write_dot(), "\"10.0.0.1:12345\" -> \"10.0.0.2:80\"\n");
    let no_ip = PacketData::new()
        .macs(MacAddr::new(&[1, 2, 3, 4, 5, 6]), MacAddr::new(&[6, 5, 4, 3, 2, 1]))
        .protocol(Protocol::Unknown)
        .build();
    assert_eq!(no_ip.write_graph(), "01:02:03:04:05:06,06:05:04:03:02:01\n");
}

#[test]
fn parse_fields() {
    assert_eq!(parse_mac("aa:bb:cc:dd:ee:ff"), Some(MacAddr::new(&[0xaa, 0xbb, 0xcc, 0xdd, 0xee, 0xff])));
    assert_eq!(parse_mac("aa:bb:cc:dd:ee"), None);
    assert_eq!(parse_mac("aa-bb-cc-dd-ee-ff"), None);
    assert_eq!(parse_mac("ag:bb:cc:dd:ee:ff"), None);
    assert_eq!(parse_ipv4("10.0.0.1"), Some(0x0a000001));
    assert_eq!(parse_ipv4("255.255.255.255"), Some(0xffffffff));
    assert_eq!(parse_ipv4("256.0.0.1"), None);
    assert_eq!(parse_ipv4("1.2.3"), None);
    assert_eq!(parse_ipv4("1.2.3.4.5"), None);
    assert_eq!(parse_ipv4("1..3.4"), None);
    assert_eq!(parse_ipv4("1000.2.3.4"), None);
    assert_eq!(parse_decimal("65535", 65535), Some(65535));
    assert_eq!(parse_decimal("65536", 65535), None);
    assert_eq!(parse_decimal("0080", 65535), Some(80));
    assert_eq!(parse_decimal("", 65535), None);
    assert_eq!(parse_decimal("8a", 65535), None);
    assert_eq!(parse_decimal("99999999999999999999", 65535), None);
}

#[test]
fn normalize_full_record() {
    let u = normalize(&record()).unwrap();
    assert_eq!(u.get_smac(), MacAddr::new(&[0xaa, 0xbb, 0xcc, 0xdd, 0xee, 0x01]));
    assert_eq!(u.get_dmac(), MacAddr::new(&[0xaa, 0xbb, 0xcc, 0xdd, 0xee, 0x02]));
    assert_eq!(u.get_sip(), Some(0xc0a8000a));
    assert_eq!(u.get_dip(), Some(0x08080808));
    assert_eq!(u.get_protocol(), Protocol::UDP);
    assert_eq!(u.get_sport(), Some(PortAddr(5353)));
    assert_eq!(u.get_dport(), Some(PortAddr(53)));
    assert_eq!(u.get_name().as_deref(), Some("DNS"));
}

#[test]
fn normalize_drops_ports_without_transport() {
    let mut r = record();
    r.ip_proto = Some("1".to_string());
    let u = normalize(&r).unwrap();
    assert_eq!(u.get_protocol(), Protocol::ICMP);
    assert_eq!(u.get_sport(), None);
    let mut r = record();
    r.dport = None;
    let u = normalize(&r).unwrap();
    assert_eq!(u.get_sport(), None);
}

#[test]
fn normalize_errors() {
    let mut r = record();
    r.smac = None;
    assert_eq!(normalize(&r).err(), Some(FormatError::Missing(RecordField::SourceMac)));
    let mut r = record();
    r.dmac = Some("zz".to_string());
    assert_eq!(normalize(&r).err(), Some(FormatError::Malformed(RecordField::DestinationMac)));
    let mut r = record();
    r.sip = Some("10.0.0".to_string());
    assert_eq!(normalize(&r).err(), Some(FormatError::Malformed(RecordField::SourceIp)));
    let mut r = record();
    r.dip = None;
    assert_eq!(normalize(&r).err(), Some(FormatError::Missing(RecordField::DestinationIp)));
    let mut r = record();
    r.ip_proto = Some("300".to_string());
    assert_eq!(normalize(&r).err(), Some(FormatError::Malformed(RecordField::IpProtocol)));
    let mut r = record();
    r.ip_proto = None;
    assert_eq!(normalize(&r).err(), Some(FormatError::Missing(RecordField::IpProtocol)));
    let mut r = record();
    r.sport = Some("70000".to_string());
    assert_eq!(normalize(&r).err(), Some(FormatError::Malformed(RecordField::SourcePort)));
    let mut r = record();
    r.dport = Some("x".to_string());
    assert_eq!(normalize(&r).err(), Some(FormatError::Malformed(RecordField::DestinationPort)));
    let mut r = record();
    r.smac = None;
    r.sip = None;
    assert_eq!(normalize(&r).err(), Some(FormatError::Missing(RecordField::SourceMac)));
}

#[test]
fn report_sections() {
    assert_eq!(
        format_summary(3, 2, 1, 0),
        "-- SUMMARY --\n-- unique packets: 3\n-- number of communications: 2\n-- number of ports: 1\n-- number of protocols: 0\n"
    );
    let com = vec![Communication { src: "a".to_string(), dst: "b".to_string(), protocol: "HTTP".to_string() }];
    assert_eq!(format_communications(com), "-- Communications --\na -> b : HTTP\n");
    let ports = vec![
        PortObservation { kind: PortType::PortTcp, port: 443 },
        PortObservation { kind: PortType::PortUdp, port: 53 },
    ];
    assert_eq!(format_ports(ports), "-- Ports --\n443 (TCP)\n53 (UDP)\n");
    assert_eq!(format_protonames(vec!["DNS".to_string(), "TLS".to_string()]), "-- Protocols --\nDNS\nTLS\n");
    assert_eq!(format_protonames(Vec::new()), "-- Protocols --\n");
}

#[test]
fn unit_summary_lines() {
    let tcp = PacketData::new()
        .ips(0x0a000001, 0x0a000002)
        .protocol(Protocol::TCP)
        .ports(PortAddr(12345), PortAddr(80))
        .build();
    assert_eq!(tcp.text(), "10.0.0.1:12345 => 10.0.0.2:80 TCP");
    let icmp = PacketData::new().ips(0x01020304, 0x05060708).protocol(Protocol::ICMP).build();
    assert_eq!(icmp.text(), "1.2.3.4 => 5.6.7.8 ICMP");
    let arp = PacketData::new()
        .macs(MacAddr::new(&[1, 2, 3, 4, 5, 6]), MacAddr::new(&[6, 5, 4, 3, 2, 1]))
        .protocol(Protocol::ARP)
        .build();
    assert_eq!(arp.text(), "01:02:03:04:05:06 => 06:05:04:03:02:01 ARP");
    let unknown = PacketData::new().ips(1, 2).build();
    assert_eq!(unknown.text(), "");
    assert_eq!(PortAddr(8080).text(), "8080");
    assert_eq!(PortAddr(0).text(), "0");
}
