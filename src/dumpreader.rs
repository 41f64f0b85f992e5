//! Decoding of raw Ethernet frames into traffic units.
use vstd::prelude::*;

use crate::pinfo::{mac_at, MacAddr, PacketData, PortAddr, Protocol, UnitView};
use crate::store::DedupStore;

verus! {

/// EtherType of IPv4.
pub const ETHERTYPE_IPV4: u16 = 0x0800;

/// EtherType of ARP.
pub const ETHERTYPE_ARP: u16 = 0x0806;

/// EtherType of IPv6.
pub const ETHERTYPE_IPV6: u16 = 0x86DD;

/// Length of the Ethernet header.
pub const ETHERNET_HEADER_LEN: usize = 14;

/// Why a frame could not be decoded.
#[derive(Debug, PartialEq, Eq, Structural, Clone, Copy)]
pub enum DecodeError {
    /// The frame ends before a header field that its decoding needs.
    TruncatedFrame,
}

/// Big-endian 16-bit value at `at`.
pub open spec fn be16(b: Seq<u8>, at: int) -> nat {
    b[at] as nat * 256 + b[at + 1] as nat
}

/// Big-endian 32-bit value at `at`.
pub open spec fn be32(b: Seq<u8>, at: int) -> nat {
    b[at] as nat * 16777216 + b[at + 1] as nat * 65536 + b[at + 2] as nat * 256 + b[at + 3] as nat
}

/// EtherType of a frame of at least 14 bytes.
pub open spec fn ethertype(f: Seq<u8>) -> nat {
    be16(f, 12)
}

/// Internet header length, in 32-bit words, of the IPv4 header that starts at byte 14.
pub open spec fn ihl(f: Seq<u8>) -> u8 {
    f[14] & 0x0fu8
}

/// Offset in the frame of the transport header after the IPv4 header.
pub open spec fn transport_offset(f: Seq<u8>) -> int {
    14 + 4 * ihl(f)
}

/// What decoding a frame gives: a unit, `None` for a frame that is ignored, or an error.
pub open spec fn frame_outcome(f: Seq<u8>) -> Result<Option<UnitView>, DecodeError> {
    if f.len() < 14 {
        Err(DecodeError::TruncatedFrame)
    } else {
        let base = UnitView {
            smac: mac_at(f, 6),
            dmac: mac_at(f, 0),
            sip: None,
            dip: None,
            sport: None,
            dport: None,
            proto: Protocol::Unknown,
            name: None,
        };
        if ethertype(f) == ETHERTYPE_IPV4 {
            if f.len() < 34 {
                Err(DecodeError::TruncatedFrame)
            } else {
                let proto = Protocol::from_number_spec(f[23]);
                let ip = UnitView {
                    sip: Some(be32(f, 26) as u32),
                    dip: Some(be32(f, 30) as u32),
                    proto,
                    ..base
                };
                if proto == Protocol::TCP || proto == Protocol::UDP {
                    let off = transport_offset(f);
                    if f.len() < off + 4 {
                        Err(DecodeError::TruncatedFrame)
                    } else {
                        Ok(
                            Some(
                                UnitView {
                                    sport: Some(be16(f, off) as u16),
                                    dport: Some(be16(f, off + 2) as u16),
                                    ..ip
                                },
                            ),
                        )
                    }
                } else {
                    Ok(Some(ip))
                }
            }
        } else if ethertype(f) == ETHERTYPE_ARP {
            Ok(Some(UnitView { proto: Protocol::ARP, ..base }))
        } else {
            Ok(None)
        }
    }
}

/// The view of a decoding result.
pub open spec fn outcome_view(r: Result<Option<PacketData>, DecodeError>) -> Result<
    Option<UnitView>,
    DecodeError,
> {
    match r {
        Ok(Some(u)) => Ok(Some(u@)),
        Ok(None) => Ok(None),
        Err(e) => Err(e),
    }
}

/// Reads the big-endian 32-bit value at `at`.
pub fn parse_to_u32(buffer: &[u8], at: usize) -> (r: u32)
    requires
        at + 4 <= buffer@.len(),
    ensures
        r as nat == be32(buffer@, at as int),
{
    (buffer[at] as u32) * 16777216 + (buffer[at + 1] as u32) * 65536 + (buffer[at + 2] as u32)
        * 256 + (buffer[at + 3] as u32)
}

/// Reads the big-endian 16-bit value at `at`.
pub fn parse_to_u16(buffer: &[u8], at: usize) -> (r: u16)
    requires
        at + 2 <= buffer@.len(),
    ensures
        r as nat == be16(buffer@, at as int),
{
    (buffer[at] as u16) * 256 + (buffer[at + 1] as u16)
}

fn mac_from(buffer: &[u8], at: usize) -> (r: MacAddr)
    requires
        at + 6 <= buffer@.len(),
    ensures
        r == mac_at(buffer@, at as int),
{
    MacAddr(
        buffer[at],
        buffer[at + 1],
        buffer[at + 2],
        buffer[at + 3],
        buffer[at + 4],
        buffer[at + 5],
    )
}

/// Decodes one link-layer frame. IPv4 and ARP frames give a unit; any other
/// EtherType is ignored; a frame too short for the fields it needs is an error.
pub fn decode(frame: &[u8]) -> (r: Result<Option<PacketData>, DecodeError>)
    ensures
        outcome_view(r) == frame_outcome(frame@),
        r matches Ok(Some(u)) ==> u@.wf(),
{
    if frame.len() < ETHERNET_HEADER_LEN {
        return Err(DecodeError::TruncatedFrame);
    }
    let dmac = MacAddr::new(frame);
    let smac = mac_from(frame, 6);
    let ethertype = parse_to_u16(frame, 12);
    let builder = PacketData::new().macs(smac, dmac);
    if ethertype == ETHERTYPE_IPV4 {
        if frame.len() < 34 {
            return Err(DecodeError::TruncatedFrame);
        }
        let ihl = frame[14] & 0x0f;
        let sip = parse_to_u32(frame, 26);
        let dip = parse_to_u32(frame, 30);
        let proto = Protocol::from_number(frame[23]);
        let builder = builder.ips(sip, dip).protocol(proto);
        if proto == Protocol::TCP || proto == Protocol::UDP {
            let offset: usize = ETHERNET_HEADER_LEN + (ihl as usize) * 4;
            if frame.len() < offset + 4 {
                return Err(DecodeError::TruncatedFrame);
            }
            let sport = parse_to_u16(frame, offset);
            let dport = parse_to_u16(frame, offset + 2);
            Ok(Some(builder.ports(PortAddr(sport), PortAddr(dport)).build()))
        } else {
            Ok(Some(builder.build()))
        }
    } else if ethertype == ETHERTYPE_ARP {
        Ok(Some(builder.protocol(Protocol::ARP).build()))
    } else {
        Ok(None)
    }
}

/// The frames of a capture, as byte sequences.
pub open spec fn frame_views(frames: Seq<Vec<u8>>) -> Seq<Seq<u8>> {
    frames.map_values(|f: Vec<u8>| f@)
}

/// The units that the frames give, in order, one per frame that is neither ignored nor truncated.
pub open spec fn decoded_units(fs: Seq<Seq<u8>>) -> Seq<UnitView>
    decreases fs.len(),
{
    if fs.len() == 0 {
        Seq::empty()
    } else {
        let rest = decoded_units(fs.drop_last());
        match frame_outcome(fs.last()) {
            Ok(Some(u)) => rest.push(u),
            _ => rest,
        }
    }
}

/// The number of frames that are too short to decode.
pub open spec fn truncated_count(fs: Seq<Seq<u8>>) -> nat
    decreases fs.len(),
{
    if fs.len() == 0 {
        0
    } else {
        truncated_count(fs.drop_last()) + if frame_outcome(fs.last()) is Err {
            1nat
        } else {
            0nat
        }
    }
}

/// Decodes `frame` and adds the unit it gives, if any, to `store`. Returns whether a
/// new unit was added, or the decoding error; the store is unchanged but for that unit.
pub fn ingest_frame(store: &mut DedupStore, frame: &[u8]) -> (r: Result<bool, DecodeError>)
    requires
        old(store).wf(),
    ensures
        final(store).wf(),
        match frame_outcome(frame@) {
            Ok(Some(u)) => r == Ok::<bool, DecodeError>(!old(store)@.contains(u)) && final(store)@
                == old(store)@.insert(u),
            Ok(None) => r == Ok::<bool, DecodeError>(false) && final(store)@ == old(store)@,
            Err(e) => r == Err::<bool, DecodeError>(e) && final(store)@ == old(store)@,
        },
{
    match decode(frame) {
        Ok(Some(unit)) => Ok(store.insert(unit)),
        Ok(None) => Ok(false),
        Err(e) => Err(e),
    }
}

/// The result of decoding a whole capture.
pub struct ParseOutcome {
    /// The distinct units decoded.
    pub store: DedupStore,
    /// How many frames were skipped as truncated.
    pub truncated: usize,
}

/// Decodes every frame of a capture in order, keeping each distinct unit once and
/// counting the truncated frames, which are skipped.
pub fn parse(frames: &Vec<Vec<u8>>) -> (r: ParseOutcome)
    ensures
        r.store.wf(),
        r.store@ == decoded_units(frame_views(frames@)).to_set(),
        r.truncated == truncated_count(frame_views(frames@)),
{
    let ghost fs = frame_views(frames@);
    let mut store = DedupStore::new();
    let mut truncated: usize = 0;
    let mut i: usize = 0;
    assert(decoded_units(fs.take(0)) =~= Seq::<UnitView>::empty());
    assert(decoded_units(fs.take(0)).to_set() =~= Set::<UnitView>::empty());
    while i < frames.len()
        invariant
            0 <= i <= frames@.len(),
            fs == frame_views(frames@),
            store.wf(),
            store@ == decoded_units(fs.take(i as int)).to_set(),
            truncated == truncated_count(fs.take(i as int)),
            truncated <= i,
        decreases frames@.len() - i,
    {
        let ghost before = store@;
        let r = ingest_frame(&mut store, frames[i].as_slice());
        proof {
            let t = fs.take(i as int + 1);
            assert(t.drop_last() =~= fs.take(i as int));
            assert(t.last() == frames@[i as int]@);
            let rest = decoded_units(fs.take(i as int));
            match frame_outcome(t.last()) {
                Ok(Some(u)) => {
                    rest.lemma_push_to_set_commute(u);
                },
                _ => {},
            }
        }
        if r.is_err() {
            truncated = truncated + 1;
        }
        i = i + 1;
    }
    assert(fs.take(frames@.len() as int) =~= fs);
    ParseOutcome { store, truncated }
}

/// Decoding depends on the frame's bytes alone: two results that `decode` gives
/// for equal frames are structurally equal.
pub proof fn lemma_decode_deterministic(
    a: Seq<u8>,
    b: Seq<u8>,
    ra: Result<Option<PacketData>, DecodeError>,
    rb: Result<Option<PacketData>, DecodeError>,
)
    requires
        a == b,
        outcome_view(ra) == frame_outcome(a),
        outcome_view(rb) == frame_outcome(b),
    ensures
        outcome_view(ra) == outcome_view(rb),
{
}

/// An IPv6 frame is ignored, whatever its payload holds.
pub proof fn lemma_ipv6_ignored(f: Seq<u8>)
    requires
        f.len() >= 14,
        ethertype(f) == ETHERTYPE_IPV6,
    ensures
        frame_outcome(f) == Ok::<Option<UnitView>, DecodeError>(None),
{
}

/// The distinct units of a capture are at most as many as the frames that gave a
/// unit, and exactly as many when those units are pairwise distinct.
pub proof fn lemma_distinct_units_bound(fs: Seq<Seq<u8>>)
    ensures
        decoded_units(fs).to_set().len() <= decoded_units(fs).len(),
        decoded_units(fs).to_set().len() == decoded_units(fs).len() <==> decoded_units(
            fs,
        ).no_duplicates(),
{
    let us = decoded_units(fs);
    us.lemma_cardinality_of_set();
    if us.no_duplicates() {
        us.unique_seq_to_set();
    }
    if us.to_set().len() == us.len() {
        us.lemma_no_dup_set_cardinality();
    }
}

} // verus!
