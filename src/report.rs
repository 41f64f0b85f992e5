//! Plain-text report sections over the derived collections.
use vstd::prelude::*;

use crate::analyze::{comm_views, string_views, Communication, PortObservation, PortType};
use crate::text::{dec_text, push_dec};

verus! {

pub open spec fn summary_text(no_unique: nat, no_coms: nat, no_ports: nat, no_protos: nat) -> Seq<
    char,
> {
    "-- SUMMARY --\n"@ + "-- unique packets: "@ + dec_text(no_unique) + "\n"@
        + "-- number of communications: "@ + dec_text(no_coms) + "\n"@ + "-- number of ports: "@
        + dec_text(no_ports) + "\n"@ + "-- number of protocols: "@ + dec_text(no_protos) + "\n"@
}

/// The lines `src -> dst : protocol` of the communications, in order.
pub open spec fn communication_lines(cs: Seq<(Seq<char>, Seq<char>, Seq<char>)>) -> Seq<char>
    decreases cs.len(),
{
    if cs.len() == 0 {
        Seq::empty()
    } else {
        let c = cs.last();
        communication_lines(cs.drop_last()) + c.0 + " -> "@ + c.1 + " : "@ + c.2 + "\n"@
    }
}

pub open spec fn port_type_text(k: PortType) -> Seq<char> {
    match k {
        PortType::PortTcp => "TCP"@,
        PortType::PortUdp => "UDP"@,
    }
}

/// The lines `port (TCP)` or `port (UDP)`, in order.
pub open spec fn port_lines(ps: Seq<PortObservation>) -> Seq<char>
    decreases ps.len(),
{
    if ps.len() == 0 {
        Seq::empty()
    } else {
        let p = ps.last();
        port_lines(ps.drop_last()) + dec_text(p.port as nat) + " ("@ + port_type_text(p.kind)
            + ")\n"@
    }
}

/// One name per line, in order.
pub open spec fn name_lines(ns: Seq<Seq<char>>) -> Seq<char>
    decreases ns.len(),
{
    if ns.len() == 0 {
        Seq::empty()
    } else {
        name_lines(ns.drop_last()) + ns.last() + "\n"@
    }
}

/// The summary section: the number of unique units and the size of each collection.
pub fn format_summary(no_unique: usize, no_coms: usize, no_ports: usize, no_protos: usize) -> (r:
    String)
    ensures
        r@ == summary_text(no_unique as nat, no_coms as nat, no_ports as nat, no_protos as nat),
{
    let mut out = String::new();
    out.append("-- SUMMARY --\n");
    out.append("-- unique packets: ");
    push_dec(&mut out, no_unique as u64);
    out.append("\n");
    out.append("-- number of communications: ");
    push_dec(&mut out, no_coms as u64);
    out.append("\n");
    out.append("-- number of ports: ");
    push_dec(&mut out, no_ports as u64);
    out.append("\n");
    out.append("-- number of protocols: ");
    push_dec(&mut out, no_protos as u64);
    out.append("\n");
    assert(out@ =~= summary_text(no_unique as nat, no_coms as nat, no_ports as nat, no_protos as nat));
    out
}

/// The communications section: a header, then one line per communication.
pub fn format_communications(com: Vec<Communication>) -> (r: String)
    ensures
        r@ == "-- Communications --\n"@ + communication_lines(comm_views(com@)),
{
    let mut out = String::new();
    out.append("-- Communications --\n");
    let ghost cs = comm_views(com@);
    let mut i: usize = 0;
    assert(cs.take(0) =~= Seq::<(Seq<char>, Seq<char>, Seq<char>)>::empty());
    while i < com.len()
        invariant
            0 <= i <= com@.len(),
            cs == comm_views(com@),
            out@ == "-- Communications --\n"@ + communication_lines(cs.take(i as int)),
        decreases com@.len() - i,
    {
        let c = &com[i];
        out.append(c.src.as_str());
        out.append(" -> ");
        out.append(c.dst.as_str());
        out.append(" : ");
        out.append(c.protocol.as_str());
        out.append("\n");
        proof {
            assert(cs.take(i + 1).drop_last() =~= cs.take(i as int));
            assert(cs.take(i + 1).last() == c@);
        }
        i += 1;
        assert(out@ =~= "-- Communications --\n"@ + communication_lines(cs.take(i as int)));
    }
    assert(cs.take(com@.len() as int) =~= cs);
    out
}

/// The ports section: a header, then one line per port observation.
pub fn format_ports(ports: Vec<PortObservation>) -> (r: String)
    ensures
        r@ == "-- Ports --\n"@ + port_lines(ports@),
{
    let mut out = String::new();
    out.append("-- Ports --\n");
    let mut i: usize = 0;
    assert(ports@.take(0) =~= Seq::<PortObservation>::empty());
    while i < ports.len()
        invariant
            0 <= i <= ports@.len(),
            out@ == "-- Ports --\n"@ + port_lines(ports@.take(i as int)),
        decreases ports@.len() - i,
    {
        let p = ports[i];
        push_dec(&mut out, p.port as u64);
        out.append(" (");
        match p.kind {
            PortType::PortTcp => out.append("TCP"),
            PortType::PortUdp => out.append("UDP"),
        }
        out.append(")\n");
        proof {
            assert(ports@.take(i + 1).drop_last() =~= ports@.take(i as int));
        }
        i += 1;
        assert(out@ =~= "-- Ports --\n"@ + port_lines(ports@.take(i as int)));
    }
    assert(ports@.take(ports@.len() as int) =~= ports@);
    out
}

/// The protocols section: a header, then one name per line.
pub fn format_protonames(names: Vec<String>) -> (r: String)
    ensures
        r@ == "-- Protocols --\n"@ + name_lines(string_views(names@)),
{
    let mut out = String::new();
    out.append("-- Protocols --\n");
    let ghost ns = string_views(names@);
    let mut i: usize = 0;
    assert(ns.take(0) =~= Seq::<Seq<char>>::empty());
    while i < names.len()
        invariant
            0 <= i <= names@.len(),
            ns == string_views(names@),
            out@ == "-- Protocols --\n"@ + name_lines(ns.take(i as int)),
        decreases names@.len() - i,
    {
        out.append(names[i].as_str());
        out.append("\n");
        proof {
            assert(ns.take(i + 1).drop_last() =~= ns.take(i as int));
            assert(ns.take(i + 1).last() == names@[i as int]@);
        }
        i += 1;
        assert(out@ =~= "-- Protocols --\n"@ + name_lines(ns.take(i as int)));
    }
    assert(ns.take(names@.len() as int) =~= ns);
    out
}

} // verus!
