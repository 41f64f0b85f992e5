//! The flow analyzer: communications, port observations and protocol names of a store.
use vstd::prelude::*;

use crate::dumpreader::{ethertype, frame_outcome, ETHERTYPE_ARP};
use crate::pinfo::{dot_line, graph_line, ip_or_zero, mac_at, mac_text, PacketData, Protocol, UnitView};
use crate::store::{views, DedupStore};
use crate::text::{dec_text, ip_text, push_char, push_dec, push_ip};

verus! {

/// Transport of a port observation.
#[derive(Debug, PartialEq, Eq, Structural, Hash, Clone, Copy)]
pub enum PortType {
    PortTcp,
    PortUdp,
}

/// A port number seen with its transport.
#[derive(Debug, PartialEq, Eq, Structural, Hash, Clone, Copy)]
pub struct PortObservation {
    pub kind: PortType,
    pub port: u16,
}

/// Who talked to whom, and under which protocol label (empty when there is none).
pub struct Communication {
    pub src: String,
    pub dst: String,
    pub protocol: String,
}

impl View for Communication {
    type V = (Seq<char>, Seq<char>, Seq<char>);

    open spec fn view(&self) -> (Seq<char>, Seq<char>, Seq<char>) {
        (self.src@, self.dst@, self.protocol@)
    }
}

/// How the endpoints of a unit are written, chosen in this order of priority.
#[derive(Debug, PartialEq, Eq, Structural, Clone, Copy)]
pub enum EndpointShape {
    /// UDP with both ports: `ip:port` on each side.
    UdpPorts,
    /// TCP with both ports: `ip:port` on each side.
    TcpPorts,
    /// Both IPv4 addresses present: bare addresses.
    Ips,
    /// Otherwise: bare MAC addresses.
    Macs,
}

pub open spec fn has_ports(u: UnitView) -> bool {
    u.sport.is_some() && u.dport.is_some()
}

pub open spec fn has_ips(u: UnitView) -> bool {
    u.sip.is_some() && u.dip.is_some()
}

pub open spec fn endpoint_shape(u: UnitView) -> EndpointShape {
    if u.proto == Protocol::UDP && has_ports(u) {
        EndpointShape::UdpPorts
    } else if u.proto == Protocol::TCP && has_ports(u) {
        EndpointShape::TcpPorts
    } else if has_ips(u) {
        EndpointShape::Ips
    } else {
        EndpointShape::Macs
    }
}

/// One side of a unit as an endpoint string.
pub open spec fn endpoint(u: UnitView, source: bool) -> Seq<char> {
    let ip = if source {
        u.sip
    } else {
        u.dip
    };
    let port = if source {
        u.sport
    } else {
        u.dport
    };
    let mac = if source {
        u.smac
    } else {
        u.dmac
    };
    match endpoint_shape(u) {
        EndpointShape::UdpPorts | EndpointShape::TcpPorts => ip_text(ip_or_zero(ip)) + seq![':']
            + dec_text(port.unwrap() as nat),
        EndpointShape::Ips => ip_text(ip.unwrap()),
        EndpointShape::Macs => mac_text(mac),
    }
}

/// The protocol label of a unit, when it carries a non-empty one.
pub open spec fn protocol_name_of(u: UnitView) -> Option<Seq<char>> {
    match u.name {
        Some(n) => if n.len() > 0 {
            Some(n)
        } else {
            None
        },
        None => None,
    }
}

pub open spec fn communication_of(u: UnitView) -> (Seq<char>, Seq<char>, Seq<char>) {
    (
        endpoint(u, true),
        endpoint(u, false),
        match protocol_name_of(u) {
            Some(n) => n,
            None => Seq::empty(),
        },
    )
}

pub open spec fn min_u16(a: u16, b: u16) -> u16 {
    if a <= b {
        a
    } else {
        b
    }
}

/// The port observation of a unit: the smaller of its two ports, for TCP or UDP.
pub open spec fn port_observation_of(u: UnitView) -> Option<PortObservation> {
    match endpoint_shape(u) {
        EndpointShape::UdpPorts => Some(
            PortObservation { kind: PortType::PortUdp, port: min_u16(u.sport.unwrap(), u.dport.unwrap()) },
        ),
        EndpointShape::TcpPorts => Some(
            PortObservation { kind: PortType::PortTcp, port: min_u16(u.sport.unwrap(), u.dport.unwrap()) },
        ),
        _ => None,
    }
}

pub open spec fn communications(units: Set<UnitView>) -> Set<(Seq<char>, Seq<char>, Seq<char>)> {
    Set::new(|c: (Seq<char>, Seq<char>, Seq<char>)| exists|u: UnitView| #[trigger] units.contains(u) && communication_of(u) == c)
}

pub open spec fn port_observations(units: Set<UnitView>) -> Set<PortObservation> {
    Set::new(|p: PortObservation| exists|u: UnitView| #[trigger] units.contains(u) && port_observation_of(u) == Some(p))
}

pub open spec fn protocol_names(units: Set<UnitView>) -> Set<Seq<char>> {
    Set::new(|n: Seq<char>| exists|u: UnitView| #[trigger] units.contains(u) && protocol_name_of(u) == Some(n))
}

pub open spec fn comm_views(s: Seq<Communication>) -> Seq<(Seq<char>, Seq<char>, Seq<char>)> {
    s.map_values(|c: Communication| c@)
}

pub open spec fn string_views(s: Seq<String>) -> Seq<Seq<char>> {
    s.map_values(|n: String| n@)
}

/// The three collections derived from a store, each without repetition.
pub struct FlowAnalysis {
    pub connections: Vec<Communication>,
    pub ports: Vec<PortObservation>,
    pub protocols: Vec<String>,
}

/// The endpoint shape of a unit.
pub fn shape_of(u: &PacketData) -> (r: EndpointShape)
    ensures
        r == endpoint_shape(u@),
{
    let ports = u.get_sport().is_some() && u.get_dport().is_some();
    let proto = u.get_protocol();
    if proto == Protocol::UDP && ports {
        EndpointShape::UdpPorts
    } else if proto == Protocol::TCP && ports {
        EndpointShape::TcpPorts
    } else if u.get_sip().is_some() && u.get_dip().is_some() {
        EndpointShape::Ips
    } else {
        EndpointShape::Macs
    }
}

/// One side of `u` as an endpoint string.
pub fn endpoint_text(u: &PacketData, source: bool) -> (r: String)
    ensures
        r@ == endpoint(u@, source),
{
    let shape = shape_of(u);
    let ip = if source { u.get_sip() } else { u.get_dip() };
    let port = if source { u.get_sport() } else { u.get_dport() };
    let mut s = String::new();
    match shape {
        EndpointShape::UdpPorts | EndpointShape::TcpPorts => {
            let a = match ip {
                Some(a) => a,
                None => 0,
            };
            push_ip(&mut s, a);
            push_char(&mut s, ':');
            let p = match port {
                Some(p) => p.0,
                None => 0,
            };
            push_dec(&mut s, p as u64);
            assert(s@ =~= endpoint(u@, source));
        },
        EndpointShape::Ips => {
            let a = match ip {
                Some(a) => a,
                None => 0,
            };
            push_ip(&mut s, a);
            assert(s@ =~= endpoint(u@, source));
        },
        EndpointShape::Macs => {
            let m = if source { u.get_smac() } else { u.get_dmac() };
            m.push_text(&mut s);
            assert(s@ =~= endpoint(u@, source));
        },
    }
    s
}

/// The protocol label of `u`, if it carries a non-empty one.
pub fn protocol_name(u: &PacketData) -> (r: Option<String>)
    ensures
        match r {
            Some(n) => protocol_name_of(u@) == Some(n@),
            None => protocol_name_of(u@) is None,
        },
{
    match u.get_name() {
        Some(n) => {
            if n.as_str().is_empty() {
                None
            } else {
                Some(n.clone())
            }
        },
        None => None,
    }
}

/// The communication of `u`.
pub fn communication(u: &PacketData) -> (r: Communication)
    ensures
        r@ == communication_of(u@),
{
    let src = endpoint_text(u, true);
    let dst = endpoint_text(u, false);
    let protocol = match protocol_name(u) {
        Some(n) => n,
        None => String::new(),
    };
    Communication { src, dst, protocol }
}

/// The port observation of `u`, for TCP or UDP with both ports.
pub fn port_observation(u: &PacketData) -> (r: Option<PortObservation>)
    ensures
        r == port_observation_of(u@),
{
    let shape = shape_of(u);
    match (u.get_sport(), u.get_dport()) {
        (Some(s), Some(d)) => {
            let port = if s.0 <= d.0 { s.0 } else { d.0 };
            match shape {
                EndpointShape::UdpPorts => Some(PortObservation { kind: PortType::PortUdp, port }),
                EndpointShape::TcpPorts => Some(PortObservation { kind: PortType::PortTcp, port }),
                _ => None,
            }
        },
        _ => None,
    }
}

fn eq_communication(a: &Communication, b: &Communication) -> (r: bool)
    ensures
        r == (a@ == b@),
{
    a.src.eq(&b.src) && a.dst.eq(&b.dst) && a.protocol.eq(&b.protocol)
}

fn push_unique_communication(out: &mut Vec<Communication>, c: Communication)
    ensures
        comm_views(final(out)@) == if comm_views(old(out)@).contains(c@) {
            comm_views(old(out)@)
        } else {
            comm_views(old(out)@).push(c@)
        },
{
    let mut i: usize = 0;
    while i < out.len()
        invariant
            0 <= i <= out@.len(),
            forall|j: int| 0 <= j < i ==> out@[j]@ != c@,
        decreases out@.len() - i,
    {
        if eq_communication(&out[i], &c) {
            assert(comm_views(out@)[i as int] == c@);
            return;
        }
        i += 1;
    }
    assert forall|j: int| 0 <= j < comm_views(out@).len() implies comm_views(out@)[j] != c@ by {
        assert(comm_views(out@)[j] == out@[j]@);
    }
    let ghost before = out@;
    out.push(c);
    assert(comm_views(out@) =~= comm_views(before).push(c@));
}

fn push_unique_port(out: &mut Vec<PortObservation>, p: PortObservation)
    ensures
        final(out)@ == if old(out)@.contains(p) {
            old(out)@
        } else {
            old(out)@.push(p)
        },
{
    let mut i: usize = 0;
    while i < out.len()
        invariant
            0 <= i <= out@.len(),
            forall|j: int| 0 <= j < i ==> out@[j] != p,
        decreases out@.len() - i,
    {
        if out[i].kind == p.kind && out[i].port == p.port {
            assert(out@[i as int] == p);
            return;
        }
        i += 1;
    }
    out.push(p);
}

fn push_unique_name(out: &mut Vec<String>, n: String)
    ensures
        string_views(final(out)@) == if string_views(old(out)@).contains(n@) {
            string_views(old(out)@)
        } else {
            string_views(old(out)@).push(n@)
        },
{
    let mut i: usize = 0;
    while i < out.len()
        invariant
            0 <= i <= out@.len(),
            forall|j: int| 0 <= j < i ==> out@[j]@ != n@,
        decreases out@.len() - i,
    {
        if out[i].eq(&n) {
            assert(string_views(out@)[i as int] == n@);
            return;
        }
        i += 1;
    }
    assert forall|j: int| 0 <= j < string_views(out@).len() implies string_views(out@)[j] != n@ by {
        assert(string_views(out@)[j] == out@[j]@);
    }
    let ghost before = out@;
    out.push(n);
    assert(string_views(out@) =~= string_views(before).push(n@));
}

pub open spec fn comm_keys(vs: Seq<UnitView>) -> Seq<Option<(Seq<char>, Seq<char>, Seq<char>)>> {
    vs.map_values(|u: UnitView| Some(communication_of(u)))
}

pub open spec fn port_keys(vs: Seq<UnitView>) -> Seq<Option<PortObservation>> {
    vs.map_values(|u: UnitView| port_observation_of(u))
}

pub open spec fn name_keys(vs: Seq<UnitView>) -> Seq<Option<Seq<char>>> {
    vs.map_values(|u: UnitView| protocol_name_of(u))
}

/// `out` holds, once each, the values among the first `i` keys.
pub open spec fn collects<T>(out: Seq<T>, keys: Seq<Option<T>>, i: int) -> bool {
    &&& out.no_duplicates()
    &&& forall|y: T| #[trigger] out.contains(y) <==> exists|j: int| 0 <= j < i && keys[j] == Some(y)
}

proof fn lemma_collect_step<T>(old_out: Seq<T>, new_out: Seq<T>, keys: Seq<Option<T>>, i: int)
    requires
        0 <= i < keys.len(),
        collects(old_out, keys, i),
        new_out == match keys[i] {
            Some(v) => if old_out.contains(v) {
                old_out
            } else {
                old_out.push(v)
            },
            None => old_out,
        },
    ensures
        collects(new_out, keys, i + 1),
{
    assert forall|y: T| #[trigger] new_out.contains(y) <==> exists|j: int|
        0 <= j < i + 1 && keys[j] == Some(y) by {
        if new_out.contains(y) {
            if !old_out.contains(y) {
                let k = choose|k: int| 0 <= k < new_out.len() && new_out[k] == y;
                assert(k == old_out.len());
                assert(keys[i] == Some(y));
            }
        }
        if exists|j: int| 0 <= j < i + 1 && keys[j] == Some(y) {
            let j = choose|j: int| 0 <= j < i + 1 && keys[j] == Some(y);
            if j < i {
                assert(old_out.contains(y));
                let k = choose|k: int| 0 <= k < old_out.len() && old_out[k] == y;
                assert(new_out[k] == y);
            } else if !old_out.contains(y) {
                assert(new_out[new_out.len() - 1] == y);
            }
        }
    }
    if let Some(v) = keys[i] {
        if !old_out.contains(v) {
            assert forall|a: int, b: int| 0 <= a < b < new_out.len() implies new_out[a] != new_out[b] by {
                if b == old_out.len() {
                    assert(old_out[a] == new_out[a]);
                }
            }
        }
    }
}

proof fn lemma_collected_set<T>(out: Seq<T>, keys: Seq<Option<T>>, target: Set<T>)
    requires
        collects(out, keys, keys.len() as int),
        forall|y: T| #[trigger] target.contains(y) <==> exists|j: int| 0 <= j < keys.len() && keys[j] == Some(y),
    ensures
        out.to_set() == target,
{
    assert(out.to_set() =~= target);
}

proof fn lemma_keys_cover(vs: Seq<UnitView>, units: Set<UnitView>)
    requires
        vs.to_set() == units,
    ensures
        forall|c: (Seq<char>, Seq<char>, Seq<char>)| #[trigger] communications(units).contains(c) <==> exists|j: int|
            0 <= j < vs.len() && comm_keys(vs)[j] == Some(c),
        forall|p: PortObservation| #[trigger] port_observations(units).contains(p) <==> exists|j: int|
            0 <= j < vs.len() && port_keys(vs)[j] == Some(p),
        forall|n: Seq<char>| #[trigger] protocol_names(units).contains(n) <==> exists|j: int|
            0 <= j < vs.len() && name_keys(vs)[j] == Some(n),
{
    assert forall|c: (Seq<char>, Seq<char>, Seq<char>)| #[trigger] communications(units).contains(c) <==> exists|j: int|
        0 <= j < vs.len() && comm_keys(vs)[j] == Some(c) by {
        if communications(units).contains(c) {
            let u = choose|u: UnitView| #[trigger] units.contains(u) && communication_of(u) == c;
            assert(vs.contains(u));
            let j = choose|j: int| 0 <= j < vs.len() && vs[j] == u;
            assert(comm_keys(vs)[j] == Some(c));
        }
        if exists|j: int| 0 <= j < vs.len() && comm_keys(vs)[j] == Some(c) {
            let j = choose|j: int| 0 <= j < vs.len() && comm_keys(vs)[j] == Some(c);
            assert(vs.to_set().contains(vs[j]));
        }
    }
    assert forall|p: PortObservation| #[trigger] port_observations(units).contains(p) <==> exists|j: int|
        0 <= j < vs.len() && port_keys(vs)[j] == Some(p) by {
        if port_observations(units).contains(p) {
            let u = choose|u: UnitView| #[trigger] units.contains(u) && port_observation_of(u) == Some(p);
            assert(vs.contains(u));
            let j = choose|j: int| 0 <= j < vs.len() && vs[j] == u;
            assert(port_keys(vs)[j] == Some(p));
        }
        if exists|j: int| 0 <= j < vs.len() && port_keys(vs)[j] == Some(p) {
            let j = choose|j: int| 0 <= j < vs.len() && port_keys(vs)[j] == Some(p);
            assert(vs.to_set().contains(vs[j]));
        }
    }
    assert forall|n: Seq<char>| #[trigger] protocol_names(units).contains(n) <==> exists|j: int|
        0 <= j < vs.len() && name_keys(vs)[j] == Some(n) by {
        if protocol_names(units).contains(n) {
            let u = choose|u: UnitView| #[trigger] units.contains(u) && protocol_name_of(u) == Some(n);
            assert(vs.contains(u));
            let j = choose|j: int| 0 <= j < vs.len() && vs[j] == u;
            assert(name_keys(vs)[j] == Some(n));
        }
        if exists|j: int| 0 <= j < vs.len() && name_keys(vs)[j] == Some(n) {
            let j = choose|j: int| 0 <= j < vs.len() && name_keys(vs)[j] == Some(n);
            assert(vs.to_set().contains(vs[j]));
        }
    }
}

/// Derives the communications, port observations and protocol names of the units
/// in `store`, each collection holding every value once.
pub fn analyze(store: &DedupStore) -> (r: FlowAnalysis)
    requires
        store.wf(),
    ensures
        comm_views(r.connections@).to_set() == communications(store@),
        comm_views(r.connections@).no_duplicates(),
        r.ports@.to_set() == port_observations(store@),
        r.ports@.no_duplicates(),
        string_views(r.protocols@).to_set() == protocol_names(store@),
        string_views(r.protocols@).no_duplicates(),
{
    let units = store.units();
    let ghost vs = views(units@);
    let mut connections: Vec<Communication> = Vec::new();
    let mut ports: Vec<PortObservation> = Vec::new();
    let mut protocols: Vec<String> = Vec::new();
    let mut i: usize = 0;
    assert(comm_views(connections@) =~= Seq::<(Seq<char>, Seq<char>, Seq<char>)>::empty());
    assert(string_views(protocols@) =~= Seq::<Seq<char>>::empty());
    while i < units.len()
        invariant
            0 <= i <= units@.len(),
            vs == views(units@),
            collects(comm_views(connections@), comm_keys(vs), i as int),
            collects(ports@, port_keys(vs), i as int),
            collects(string_views(protocols@), name_keys(vs), i as int),
        decreases units@.len() - i,
    {
        let u = &units[i];
        assert(vs[i as int] == u@);
        let c = communication(u);
        let ghost cv = comm_views(connections@);
        push_unique_communication(&mut connections, c);
        proof {
            lemma_collect_step(cv, comm_views(connections@), comm_keys(vs), i as int);
        }
        let ghost pv = ports@;
        match port_observation(u) {
            Some(p) => {
                push_unique_port(&mut ports, p);
            },
            None => {},
        }
        proof {
            lemma_collect_step(pv, ports@, port_keys(vs), i as int);
        }
        let ghost nv = string_views(protocols@);
        match protocol_name(u) {
            Some(n) => {
                push_unique_name(&mut protocols, n);
            },
            None => {},
        }
        proof {
            lemma_collect_step(nv, string_views(protocols@), name_keys(vs), i as int);
        }
        i += 1;
    }
    proof {
        lemma_keys_cover(vs, store@);
        lemma_collected_set(comm_views(connections@), comm_keys(vs), communications(store@));
        lemma_collected_set(ports@, port_keys(vs), port_observations(store@));
        lemma_collected_set(string_views(protocols@), name_keys(vs), protocol_names(store@));
    }
    FlowAnalysis { connections, ports, protocols }
}

/// The unit with its two ports exchanged.
pub open spec fn swap_ports(u: UnitView) -> UnitView {
    UnitView { sport: u.dport, dport: u.sport, ..u }
}

/// Every unit falls under exactly one endpoint shape, and the shape is the first
/// of the four cases, in order of priority, whose condition the unit meets.
pub proof fn lemma_shape_total(u: UnitView)
    ensures
        (endpoint_shape(u) == EndpointShape::UdpPorts) <==> (u.proto == Protocol::UDP && has_ports(u)),
        (endpoint_shape(u) == EndpointShape::TcpPorts) <==> (u.proto == Protocol::TCP && has_ports(u)),
        (endpoint_shape(u) == EndpointShape::Ips) <==> (!((u.proto == Protocol::UDP
            || u.proto == Protocol::TCP) && has_ports(u)) && has_ips(u)),
        (endpoint_shape(u) == EndpointShape::Macs) <==> (!((u.proto == Protocol::UDP
            || u.proto == Protocol::TCP) && has_ports(u)) && !has_ips(u)),
        (endpoint_shape(u) == EndpointShape::UdpPorts) as int + (endpoint_shape(u)
            == EndpointShape::TcpPorts) as int + (endpoint_shape(u) == EndpointShape::Ips) as int
            + (endpoint_shape(u) == EndpointShape::Macs) as int == 1,
{
}

/// The port observation of a unit does not change when its ports are exchanged.
pub proof fn lemma_port_swap_symmetric(u: UnitView)
    ensures
        port_observation_of(swap_ports(u)) == port_observation_of(u),
{
}

/// An ARP frame gives a unit of category ARP whose endpoints are its MAC addresses.
pub proof fn lemma_arp_frame(f: Seq<u8>)
    requires
        f.len() >= 14,
        ethertype(f) == ETHERTYPE_ARP,
    ensures
        frame_outcome(f) matches Ok(Some(u)) && u.proto == Protocol::ARP && endpoint_shape(u)
            == EndpointShape::Macs && endpoint(u, true) == mac_text(mac_at(f, 6)) && endpoint(
            u,
            false,
        ) == mac_text(mac_at(f, 0)) && port_observation_of(u) is None,
{
}

/// The edge line of a unit: dot-language form, or `src,dst` form.
pub open spec fn edge_line(u: UnitView, dot: bool) -> Seq<char> {
    if dot {
        dot_line(u)
    } else {
        graph_line(u)
    }
}

pub open spec fn edge_lines(units: Set<UnitView>, dot: bool) -> Set<Seq<char>> {
    Set::new(|l: Seq<char>| exists|u: UnitView| #[trigger] units.contains(u) && edge_line(u, dot) == l)
}

pub open spec fn edge_keys(vs: Seq<UnitView>, dot: bool) -> Seq<Option<Seq<char>>> {
    vs.map_values(|u: UnitView| Some(edge_line(u, dot)))
}

proof fn lemma_edge_keys_cover(vs: Seq<UnitView>, units: Set<UnitView>, dot: bool)
    requires
        vs.to_set() == units,
    ensures
        forall|l: Seq<char>| #[trigger] edge_lines(units, dot).contains(l) <==> exists|j: int|
            0 <= j < vs.len() && edge_keys(vs, dot)[j] == Some(l),
{
    assert forall|l: Seq<char>| #[trigger] edge_lines(units, dot).contains(l) <==> exists|j: int|
        0 <= j < vs.len() && edge_keys(vs, dot)[j] == Some(l) by {
        if edge_lines(units, dot).contains(l) {
            let u = choose|u: UnitView| #[trigger] units.contains(u) && edge_line(u, dot) == l;
            assert(vs.contains(u));
            let j = choose|j: int| 0 <= j < vs.len() && vs[j] == u;
            assert(edge_keys(vs, dot)[j] == Some(l));
        }
        if exists|j: int| 0 <= j < vs.len() && edge_keys(vs, dot)[j] == Some(l) {
            let j = choose|j: int| 0 <= j < vs.len() && edge_keys(vs, dot)[j] == Some(l);
            assert(vs.to_set().contains(vs[j]));
        }
    }
}

fn collect_edges(store: &DedupStore, dot: bool) -> (r: Vec<String>)
    requires
        store.wf(),
    ensures
        string_views(r@).to_set() == edge_lines(store@, dot),
        string_views(r@).no_duplicates(),
{
    let units = store.units();
    let ghost vs = views(units@);
    let mut lines: Vec<String> = Vec::new();
    let mut i: usize = 0;
    assert(string_views(lines@) =~= Seq::<Seq<char>>::empty());
    while i < units.len()
        invariant
            0 <= i <= units@.len(),
            vs == views(units@),
            collects(string_views(lines@), edge_keys(vs, dot), i as int),
        decreases units@.len() - i,
    {
        let u = &units[i];
        assert(vs[i as int] == u@);
        let line = if dot { u.write_dot() } else { u.write_graph() };
        let ghost before = string_views(lines@);
        push_unique_name(&mut lines, line);
        proof {
            lemma_collect_step(before, string_views(lines@), edge_keys(vs, dot), i as int);
        }
        i += 1;
    }
    proof {
        lemma_edge_keys_cover(vs, store@, dot);
        lemma_collected_set(string_views(lines@), edge_keys(vs, dot), edge_lines(store@, dot));
    }
    lines
}

/// The distinct `src,dst` edge lines of the units in `store`.
pub fn edge_list(store: &DedupStore) -> (r: Vec<String>)
    requires
        store.wf(),
    ensures
        string_views(r@).to_set() == edge_lines(store@, false),
        string_views(r@).no_duplicates(),
{
    collect_edges(store, false)
}

/// The distinct dot-language edge lines of the units in `store`.
pub fn dot_edges(store: &DedupStore) -> (r: Vec<String>)
    requires
        store.wf(),
    ensures
        string_views(r@).to_set() == edge_lines(store@, true),
        string_views(r@).no_duplicates(),
{
    collect_edges(store, true)
}

} // verus!
