//! The traffic unit: the canonical record of one observed frame or field record.
use vstd::prelude::*;

use crate::analyze::{endpoint, endpoint_text};
use crate::text::{dec_text, hex2_text, ip_text, push_char, push_dec, push_hex2, push_ip};

verus! {

/// Protocol category of a traffic unit.
#[derive(Debug, PartialEq, Eq, Structural, Hash, Clone, Copy)]
pub enum Protocol {
    ICMP,
    TCP,
    UDP,
    ARP,
    Unknown,
}

impl Protocol {
    pub open spec fn name_spec(self) -> Seq<char> {
        match self {
            Protocol::ICMP => "ICMP"@,
            Protocol::TCP => "TCP"@,
            Protocol::UDP => "UDP"@,
            Protocol::ARP => "ARP"@,
            Protocol::Unknown => "Unknown"@,
        }
    }

    /// The display name of the category.
    pub fn name(&self) -> (r: &'static str)
        ensures
            r@ == self.name_spec(),
    {
        match self {
            Protocol::ICMP => "ICMP",
            Protocol::TCP => "TCP",
            Protocol::UDP => "UDP",
            Protocol::ARP => "ARP",
            Protocol::Unknown => "Unknown",
        }
    }

    /// The category of an IPv4 protocol number.
    pub open spec fn from_number_spec(n: u8) -> Protocol {
        if n == 1 {
            Protocol::ICMP
        } else if n == 6 {
            Protocol::TCP
        } else if n == 17 {
            Protocol::UDP
        } else {
            Protocol::Unknown
        }
    }

    pub fn from_number(n: u8) -> (r: Protocol)
        ensures
            r == Protocol::from_number_spec(n),
    {
        match n {
            1 => Protocol::ICMP,
            6 => Protocol::TCP,
            17 => Protocol::UDP,
            _ => Protocol::Unknown,
        }
    }
}

/// A TCP or UDP port number.
#[derive(Debug, PartialEq, Eq, Structural, Hash, Clone, Copy, PartialOrd, Ord)]
pub struct PortAddr(pub u16);

impl PortAddr {
    /// The port number in decimal.
    pub fn text(&self) -> (r: String)
        ensures
            r@ == dec_text(self.0 as nat),
    {
        let mut s = String::new();
        push_dec(&mut s, self.0 as u64);
        assert(s@ =~= dec_text(self.0 as nat));
        s
    }
}

/// A MAC address, most significant byte first.
#[derive(Debug, PartialEq, Eq, Structural, Hash, Clone, Copy)]
pub struct MacAddr(pub u8, pub u8, pub u8, pub u8, pub u8, pub u8);

/// Colon-separated lower-case hexadecimal rendering of a MAC address.
pub open spec fn mac_text(m: MacAddr) -> Seq<char> {
    hex2_text(m.0) + seq![':'] + hex2_text(m.1) + seq![':'] + hex2_text(m.2) + seq![':']
        + hex2_text(m.3) + seq![':'] + hex2_text(m.4) + seq![':'] + hex2_text(m.5)
}

/// The MAC address held in the six bytes of `b` from `at` on.
pub open spec fn mac_at(b: Seq<u8>, at: int) -> MacAddr {
    MacAddr(b[at], b[at + 1], b[at + 2], b[at + 3], b[at + 4], b[at + 5])
}

impl MacAddr {
    /// The MAC address held in the first six bytes of `bytes`.
    pub fn new(bytes: &[u8]) -> (r: MacAddr)
        requires
            bytes@.len() >= 6,
        ensures
            r == mac_at(bytes@, 0),
    {
        MacAddr(bytes[0], bytes[1], bytes[2], bytes[3], bytes[4], bytes[5])
    }

    /// Appends the rendering of the address.
    pub fn push_text(&self, s: &mut String)
        ensures
            final(s)@ == old(s)@ + mac_text(*self),
    {
        let ghost s0 = s@;
        push_hex2(s, self.0);
        push_char(s, ':');
        push_hex2(s, self.1);
        push_char(s, ':');
        push_hex2(s, self.2);
        push_char(s, ':');
        push_hex2(s, self.3);
        push_char(s, ':');
        push_hex2(s, self.4);
        push_char(s, ':');
        push_hex2(s, self.5);
        assert(s@ =~= s0 + mac_text(*self));
    }

    /// The address as `aa:bb:cc:dd:ee:ff`.
    pub fn text(&self) -> (r: String)
        ensures
            r@ == mac_text(*self),
    {
        let mut s = String::new();
        self.push_text(&mut s);
        assert(s@ =~= mac_text(*self));
        s
    }
}

/// The mathematical content of a traffic unit; two units are the same iff their views are.
pub struct UnitView {
    pub smac: MacAddr,
    pub dmac: MacAddr,
    pub sip: Option<u32>,
    pub dip: Option<u32>,
    pub sport: Option<u16>,
    pub dport: Option<u16>,
    pub proto: Protocol,
    pub name: Option<Seq<char>>,
}

/// One observed communication event. IPv4 addresses are held as big-endian integers;
/// an absent address or port is `None`.
#[derive(Hash)]
pub struct PacketData {
    sip: Option<u32>,
    dip: Option<u32>,
    smac: MacAddr,
    dmac: MacAddr,
    sport: Option<PortAddr>,
    dport: Option<PortAddr>,
    proto: Protocol,
    name: Option<String>,
}

pub open spec fn opt_port_view(p: Option<PortAddr>) -> Option<u16> {
    match p {
        Some(q) => Some(q.0),
        None => None,
    }
}

pub open spec fn opt_string_view(s: Option<String>) -> Option<Seq<char>> {
    match s {
        Some(t) => Some(t@),
        None => None,
    }
}

impl View for PacketData {
    type V = UnitView;

    closed spec fn view(&self) -> UnitView {
        UnitView {
            smac: self.smac,
            dmac: self.dmac,
            sip: self.sip,
            dip: self.dip,
            sport: opt_port_view(self.sport),
            dport: opt_port_view(self.dport),
            proto: self.proto,
            name: opt_string_view(self.name),
        }
    }
}

impl UnitView {
    /// Addresses come in pairs, and ports only with TCP or UDP over IPv4.
    pub open spec fn wf(self) -> bool {
        &&& self.sip.is_some() == self.dip.is_some()
        &&& self.sport.is_some() == self.dport.is_some()
        &&& self.sport.is_some() ==> {
            &&& self.sip.is_some()
            &&& (self.proto == Protocol::TCP || self.proto == Protocol::UDP)
        }
    }
}

fn eq_opt_u32(a: Option<u32>, b: Option<u32>) -> (r: bool)
    ensures
        r == (a == b),
{
    match (a, b) {
        (Some(x), Some(y)) => x == y,
        (None, None) => true,
        _ => false,
    }
}

fn eq_opt_port(a: Option<PortAddr>, b: Option<PortAddr>) -> (r: bool)
    ensures
        r == (opt_port_view(a) == opt_port_view(b)),
{
    match (a, b) {
        (Some(x), Some(y)) => x.0 == y.0,
        (None, None) => true,
        _ => false,
    }
}

fn eq_opt_string(a: &Option<String>, b: &Option<String>) -> (r: bool)
    ensures
        r == (opt_string_view(*a) == opt_string_view(*b)),
{
    match (a, b) {
        (Some(x), Some(y)) => x.eq(y),
        (None, None) => true,
        _ => false,
    }
}

impl PartialEq for PacketData {
    fn eq(&self, o: &PacketData) -> (r: bool)
        ensures
            r == (self@ == o@),
    {
        self.smac == o.smac && self.dmac == o.dmac && eq_opt_u32(self.sip, o.sip) && eq_opt_u32(
            self.dip,
            o.dip,
        ) && eq_opt_port(self.sport, o.sport) && eq_opt_port(self.dport, o.dport) && self.proto
            == o.proto && eq_opt_string(&self.name, &o.name)
    }
}

impl vstd::std_specs::cmp::PartialEqSpecImpl for PacketData {
    open spec fn obeys_eq_spec() -> bool {
        true
    }

    open spec fn eq_spec(&self, o: &PacketData) -> bool {
        self@ == o@
    }
}

impl Eq for PacketData {

}

/// An absent address renders as `0.0.0.0`.
pub open spec fn ip_or_zero(ip: Option<u32>) -> u32 {
    match ip {
        Some(a) => a,
        None => 0,
    }
}

/// The edge of a unit in `src,dst` form, with the endpoints of its communication.
pub open spec fn graph_line(u: UnitView) -> Seq<char> {
    endpoint(u, true) + seq![','] + endpoint(u, false) + seq!['\n']
}

/// The edge of a unit in dot-language form: `"src" -> "dst"`, with the endpoints of
/// its communication.
pub open spec fn dot_line(u: UnitView) -> Seq<char> {
    seq!['"'] + endpoint(u, true) + seq!['"', ' ', '-', '>', ' ', '"'] + endpoint(u, false) + seq![
        '"',
        '\n',
    ]
}

/// One-line description of a unit: `ip:port => ip:port PROTO` when it has ports,
/// `ip => ip ICMP` for ICMP, `mac => mac ARP` for ARP, and nothing otherwise.
pub open spec fn summary_line(u: UnitView) -> Seq<char> {
    let arrow = seq![' ', '=', '>', ' '];
    let tail = seq![' '] + u.proto.name_spec();
    if u.sport.is_some() && u.dport.is_some() {
        ip_text(ip_or_zero(u.sip)) + seq![':'] + dec_text(u.sport.unwrap() as nat) + arrow + ip_text(
            ip_or_zero(u.dip),
        ) + seq![':'] + dec_text(u.dport.unwrap() as nat) + tail
    } else if u.proto == Protocol::ICMP {
        ip_text(ip_or_zero(u.sip)) + arrow + ip_text(ip_or_zero(u.dip)) + tail
    } else if u.proto == Protocol::ARP {
        mac_text(u.smac) + arrow + mac_text(u.dmac) + tail
    } else {
        Seq::empty()
    }
}

impl PacketData {
    /// The one-line description of the unit.
    pub fn text(&self) -> (r: String)
        ensures
            r@ == summary_line(self@),
    {
        let mut s = String::new();
        proof {
            reveal_strlit(" => ");
            reveal_strlit(" ");
        }
        match (self.sport, self.dport) {
            (Some(sp), Some(dp)) => {
                push_ip(&mut s, self.get_ip_or_zero(true));
                push_char(&mut s, ':');
                push_dec(&mut s, sp.0 as u64);
                s.append(" => ");
                push_ip(&mut s, self.get_ip_or_zero(false));
                push_char(&mut s, ':');
                push_dec(&mut s, dp.0 as u64);
                s.append(" ");
                s.append(self.proto.name());
                assert(s@ =~= summary_line(self@));
            },
            _ => {
                if self.proto == Protocol::ICMP {
                    push_ip(&mut s, self.get_ip_or_zero(true));
                    s.append(" => ");
                    push_ip(&mut s, self.get_ip_or_zero(false));
                    s.append(" ");
                    s.append(self.proto.name());
                    assert(s@ =~= summary_line(self@));
                } else if self.proto == Protocol::ARP {
                    self.smac.push_text(&mut s);
                    s.append(" => ");
                    self.dmac.push_text(&mut s);
                    s.append(" ");
                    s.append(self.proto.name());
                    assert(s@ =~= summary_line(self@));
                } else {
                    assert(s@ =~= summary_line(self@));
                }
            },
        }
        s
    }

    /// A builder with no fields attached yet.
    pub fn new() -> (r: PacketDataBuilder)
        ensures
            r == PacketDataBuilder::empty(),
    {
        PacketDataBuilder::new()
    }

    fn get_ip_or_zero(&self, source: bool) -> (r: u32)
        ensures
            r == ip_or_zero(if source { self.sip } else { self.dip }),
    {
        let ip = if source { self.sip } else { self.dip };
        match ip {
            Some(a) => a,
            None => 0,
        }
    }

    /// The unit's edge as a line of a `src,dst` edge list.
    pub fn write_graph(&self) -> (r: String)
        ensures
            r@ == graph_line(self@),
    {
        let mut s = endpoint_text(self, true);
        push_char(&mut s, ',');
        let dst = endpoint_text(self, false);
        s.append(dst.as_str());
        push_char(&mut s, '\n');
        assert(s@ =~= graph_line(self@));
        s
    }

    /// The unit's edge as a line of a dot-language graph.
    pub fn write_dot(&self) -> (r: String)
        ensures
            r@ == dot_line(self@),
    {
        let mut s = String::new();
        push_char(&mut s, '"');
        let src = endpoint_text(self, true);
        s.append(src.as_str());
        proof {
            reveal_strlit("\" -> \"");
        }
        s.append("\" -> \"");
        let dst = endpoint_text(self, false);
        s.append(dst.as_str());
        push_char(&mut s, '"');
        push_char(&mut s, '\n');
        assert(s@ =~= dot_line(self@));
        s
    }

    pub fn get_sip(&self) -> (r: Option<u32>)
        ensures
            r == self@.sip,
    {
        self.sip
    }

    pub fn get_dip(&self) -> (r: Option<u32>)
        ensures
            r == self@.dip,
    {
        self.dip
    }

    pub fn get_sport(&self) -> (r: Option<PortAddr>)
        ensures
            opt_port_view(r) == self@.sport,
    {
        self.sport
    }

    pub fn get_dport(&self) -> (r: Option<PortAddr>)
        ensures
            opt_port_view(r) == self@.dport,
    {
        self.dport
    }

    pub fn get_smac(&self) -> (r: MacAddr)
        ensures
            r == self@.smac,
    {
        self.smac
    }

    pub fn get_dmac(&self) -> (r: MacAddr)
        ensures
            r == self@.dmac,
    {
        self.dmac
    }

    pub fn get_protocol(&self) -> (r: Protocol)
        ensures
            r == self@.proto,
    {
        self.proto
    }

    pub fn get_name(&self) -> (r: &Option<String>)
        ensures
            opt_string_view(*r) == self@.name,
    {
        &self.name
    }
}

/// Staged construction of a `PacketData`: fields are attached one stage at a time.
pub struct PacketDataBuilder {
    pub smac: MacAddr,
    pub dmac: MacAddr,
    pub proto: Protocol,
    pub sip: Option<u32>,
    pub dip: Option<u32>,
    pub sport: Option<PortAddr>,
    pub dport: Option<PortAddr>,
    pub name: Option<String>,
}

impl PacketDataBuilder {
    pub open spec fn empty() -> PacketDataBuilder {
        PacketDataBuilder {
            sip: None,
            dip: None,
            smac: MacAddr(0, 0, 0, 0, 0, 0),
            dmac: MacAddr(0, 0, 0, 0, 0, 0),
            sport: None,
            dport: None,
            proto: Protocol::Unknown,
            name: None,
        }
    }

    /// The unit that `build` makes of this stage.
    pub open spec fn unit_view(self) -> UnitView {
        UnitView {
            smac: self.smac,
            dmac: self.dmac,
            sip: self.sip,
            dip: self.dip,
            sport: opt_port_view(self.sport),
            dport: opt_port_view(self.dport),
            proto: self.proto,
            name: opt_string_view(self.name),
        }
    }

    /// No addresses, ports or name; zero MACs; protocol `Unknown`.
    pub fn new() -> (r: Self)
        ensures
            r == PacketDataBuilder::empty(),
    {
        PacketDataBuilder {
            sip: None,
            dip: None,
            smac: MacAddr(0, 0, 0, 0, 0, 0),
            dmac: MacAddr(0, 0, 0, 0, 0, 0),
            sport: None,
            dport: None,
            proto: Protocol::Unknown,
            name: None,
        }
    }

    /// Attaches the IPv4 addresses.
    pub fn ips(self, sip: u32, dip: u32) -> (r: Self)
        ensures
            r == (PacketDataBuilder { sip: Some(sip), dip: Some(dip), ..self }),
    {
        PacketDataBuilder { sip: Some(sip), dip: Some(dip), ..self }
    }

    /// Attaches the ports.
    pub fn ports(self, sport: PortAddr, dport: PortAddr) -> (r: Self)
        ensures
            r == (PacketDataBuilder { sport: Some(sport), dport: Some(dport), ..self }),
    {
        PacketDataBuilder { sport: Some(sport), dport: Some(dport), ..self }
    }

    /// Sets the protocol category.
    pub fn protocol(self, proto: Protocol) -> (r: Self)
        ensures
            r == (PacketDataBuilder { proto, ..self }),
    {
        PacketDataBuilder { proto, ..self }
    }

    /// Sets the MAC addresses.
    pub fn macs(self, smac: MacAddr, dmac: MacAddr) -> (r: Self)
        ensures
            r == (PacketDataBuilder { smac, dmac, ..self }),
    {
        PacketDataBuilder { smac, dmac, ..self }
    }

    /// Attaches a human-readable protocol label.
    pub fn display_name(self, name: String) -> (r: Self)
        ensures
            r.unit_view() == (UnitView { name: Some(name@), ..self.unit_view() }),
    {
        PacketDataBuilder { name: Some(name), ..self }
    }

    /// Finalizes the unit, whose addresses must come in pairs and whose ports must
    /// come with TCP or UDP over IPv4.
    pub fn build(self) -> (r: PacketData)
        requires
            self.unit_view().wf(),
        ensures
            r@ == self.unit_view(),
            r@.wf(),
    {
        PacketData {
            smac: self.smac,
            dmac: self.dmac,
            sip: self.sip,
            dip: self.dip,
            proto: self.proto,
            sport: self.sport,
            dport: self.dport,
            name: self.name,
        }
    }
}

} // verus!
