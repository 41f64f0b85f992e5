//! The field-record front end: pre-extracted textual fields to a traffic unit.
use vstd::prelude::*;

use crate::pinfo::{opt_string_view, MacAddr, PacketData, PortAddr, Protocol, UnitView};

verus! {

pub open spec fn is_digit(c: char) -> bool {
    '0' <= c && c <= '9'
}

/// Value of a hexadecimal digit of either case.
pub open spec fn hex_value(c: char) -> Option<nat> {
    if '0' <= c && c <= '9' {
        Some((c as nat - '0' as nat) as nat)
    } else if 'a' <= c && c <= 'f' {
        Some((c as nat - 'a' as nat + 10) as nat)
    } else if 'A' <= c && c <= 'F' {
        Some((c as nat - 'A' as nat + 10) as nat)
    } else {
        None
    }
}

/// Value of a run of decimal digits.
pub open spec fn dec_value(t: Seq<char>) -> nat
    decreases t.len(),
{
    if t.len() == 0 {
        0
    } else {
        10 * dec_value(t.drop_last()) + (t.last() as nat - '0' as nat) as nat
    }
}

pub open spec fn all_digits(t: Seq<char>) -> bool {
    forall|i: int| 0 <= i < t.len() ==> is_digit(#[trigger] t[i])
}

/// A non-empty run of decimal digits whose value is at most `limit`.
pub open spec fn decimal_of(t: Seq<char>, limit: nat) -> Option<nat> {
    if t.len() > 0 && all_digits(t) && dec_value(t) <= limit {
        Some(dec_value(t))
    } else {
        None
    }
}

/// The byte written as two hexadecimal digits at `at`.
pub open spec fn hex_byte_at(t: Seq<char>, at: int) -> Option<u8> {
    match (hex_value(t[at]), hex_value(t[at + 1])) {
        (Some(h), Some(l)) => Some((16 * h + l) as u8),
        _ => None,
    }
}

/// A MAC address written as six two-digit hexadecimal bytes separated by colons.
pub open spec fn mac_of_text(t: Seq<char>) -> Option<MacAddr> {
    if t.len() == 17 && t[2] == ':' && t[5] == ':' && t[8] == ':' && t[11] == ':' && t[14] == ':' {
        match (
            hex_byte_at(t, 0),
            hex_byte_at(t, 3),
            hex_byte_at(t, 6),
            hex_byte_at(t, 9),
            hex_byte_at(t, 12),
            hex_byte_at(t, 15),
        ) {
            (Some(a), Some(b), Some(c), Some(d), Some(e), Some(f)) => Some(MacAddr(a, b, c, d, e, f)),
            _ => None,
        }
    } else {
        None
    }
}

/// The end of the run of digits that starts at `i`.
pub open spec fn run_end(t: Seq<char>, i: int) -> int
    decreases t.len() - i,
{
    if 0 <= i < t.len() && is_digit(t[i]) {
        run_end(t, i + 1)
    } else {
        i
    }
}

/// The octet written at `start`: one to three digits, at most 255.
pub open spec fn octet_at(t: Seq<char>, start: int) -> Option<nat> {
    let e = run_end(t, start);
    if e - start <= 3 {
        decimal_of(t.subrange(start, e), 255)
    } else {
        None
    }
}

/// An IPv4 address in dotted-quad form, as a big-endian integer.
pub open spec fn ip_of_text(t: Seq<char>) -> Option<u32> {
    let e0 = run_end(t, 0);
    let e1 = run_end(t, e0 + 1);
    let e2 = run_end(t, e1 + 1);
    let e3 = run_end(t, e2 + 1);
    if e0 < t.len() && t[e0] == '.' && e1 < t.len() && t[e1] == '.' && e2 < t.len() && t[e2]
        == '.' && e3 == t.len() {
        match (octet_at(t, 0), octet_at(t, e0 + 1), octet_at(t, e1 + 1), octet_at(t, e2 + 1)) {
            (Some(a), Some(b), Some(c), Some(d)) => Some(
                (a * 16777216 + b * 65536 + c * 256 + d) as u32,
            ),
            _ => None,
        }
    } else {
        None
    }
}

proof fn lemma_run_end_bounds(t: Seq<char>, i: int)
    requires
        0 <= i <= t.len(),
    ensures
        i <= run_end(t, i) <= t.len(),
        forall|k: int| i <= k < run_end(t, i) ==> is_digit(#[trigger] t[k]),
        run_end(t, i) < t.len() ==> !is_digit(t[run_end(t, i)]),
    decreases t.len() - i,
{
    if i < t.len() && is_digit(t[i]) {
        lemma_run_end_bounds(t, i + 1);
    }
}

proof fn lemma_dec_value_grows(t: Seq<char>, k: int)
    requires
        0 <= k <= t.len(),
        all_digits(t),
    ensures
        dec_value(t.subrange(0, k)) <= dec_value(t),
    decreases t.len() - k,
{
    if k < t.len() {
        lemma_dec_value_grows(t, k + 1);
        let p = t.subrange(0, k + 1);
        assert(p.drop_last() =~= t.subrange(0, k));
        assert(is_digit(p.last()));
        assert(dec_value(p) == 10 * dec_value(t.subrange(0, k)) + (p.last() as nat - '0' as nat));
    } else {
        assert(t.subrange(0, k) =~= t);
    }
}

/// Reads the digits of `s` in `[start, end)` as a decimal number; `None` when its
/// value exceeds `limit`.
fn decimal_in(s: &str, start: usize, end: usize, limit: u32) -> (r: Option<u32>)
    requires
        start <= end <= s@.len(),
        all_digits(s@.subrange(start as int, end as int)),
        limit <= 65535,
    ensures
        r == (if dec_value(s@.subrange(start as int, end as int)) <= limit {
            Some(dec_value(s@.subrange(start as int, end as int)) as u32)
        } else {
            None::<u32>
        }),
{
    let ghost t = s@.subrange(start as int, end as int);
    let mut v: u32 = 0;
    let mut i: usize = start;
    while i < end
        invariant
            start <= i <= end <= s@.len(),
            t == s@.subrange(start as int, end as int),
            all_digits(t),
            v as nat == dec_value(t.subrange(0, i - start)),
            v <= limit,
            limit <= 65535,
        decreases end - i,
    {
        let c = s.get_char(i);
        assert(c == t[i - start]);
        let d = (c as u32) - ('0' as u32);
        assert(t.subrange(0, i - start + 1).drop_last() =~= t.subrange(0, i - start));
        v = v * 10 + d;
        if v > limit {
            proof {
                lemma_dec_value_grows(t, i - start + 1);
            }
            return None;
        }
        i = i + 1;
    }
    assert(t.subrange(0, end - start) =~= t);
    Some(v)
}

/// The end of the run of digits of `s` that starts at `i`.
fn scan_digits(s: &str, i: usize) -> (r: usize)
    requires
        i <= s@.len(),
    ensures
        r == run_end(s@, i as int),
{
    let n = s.unicode_len();
    let mut j: usize = i;
    while j < n && is_digit_char(s.get_char(j))
        invariant
            i <= j <= n,
            n == s@.len(),
            run_end(s@, j as int) == run_end(s@, i as int),
        decreases n - j,
    {
        j = j + 1;
    }
    j
}

fn is_digit_char(c: char) -> (r: bool)
    ensures
        r == is_digit(c),
{
    '0' <= c && c <= '9'
}

fn hex_digit_value(c: char) -> (r: Option<u8>)
    ensures
        match hex_value(c) {
            Some(v) => r == Some(v as u8),
            None => r is None,
        },
{
    if '0' <= c && c <= '9' {
        Some(((c as u32) - ('0' as u32)) as u8)
    } else if 'a' <= c && c <= 'f' {
        Some(((c as u32) - ('a' as u32) + 10) as u8)
    } else if 'A' <= c && c <= 'F' {
        Some(((c as u32) - ('A' as u32) + 10) as u8)
    } else {
        None
    }
}

fn hex_byte(s: &str, at: usize) -> (r: Option<u8>)
    requires
        at + 2 <= s@.len(),
        at <= 15,
    ensures
        r == hex_byte_at(s@, at as int),
{
    match (hex_digit_value(s.get_char(at)), hex_digit_value(s.get_char(at + 1))) {
        (Some(h), Some(l)) => Some(h * 16 + l),
        _ => None,
    }
}

/// Reads a MAC address written as `aa:bb:cc:dd:ee:ff` (either case).
pub fn parse_mac(s: &str) -> (r: Option<MacAddr>)
    ensures
        r == mac_of_text(s@),
{
    if s.unicode_len() != 17 {
        return None;
    }
    if s.get_char(2) != ':' || s.get_char(5) != ':' || s.get_char(8) != ':' || s.get_char(11)
        != ':' || s.get_char(14) != ':' {
        return None;
    }
    match (
        hex_byte(s, 0),
        hex_byte(s, 3),
        hex_byte(s, 6),
        hex_byte(s, 9),
        hex_byte(s, 12),
        hex_byte(s, 15),
    ) {
        (Some(a), Some(b), Some(c), Some(d), Some(e), Some(f)) => Some(MacAddr(a, b, c, d, e, f)),
        _ => None,
    }
}

/// Reads a decimal number of at most `limit` from the whole of `s`.
pub fn parse_decimal(s: &str, limit: u32) -> (r: Option<u32>)
    requires
        limit <= 65535,
    ensures
        match decimal_of(s@, limit as nat) {
            Some(v) => r == Some(v as u32),
            None => r is None,
        },
{
    let n = s.unicode_len();
    let e = scan_digits(s, 0);
    proof {
        lemma_run_end_bounds(s@, 0);
    }
    if n == 0 || e != n {
        return None;
    }
    assert(s@.subrange(0, n as int) =~= s@);
    decimal_in(s, 0, n, limit)
}

fn octet(s: &str, start: usize) -> (r: Option<(u32, usize)>)
    requires
        start <= s@.len(),
    ensures
        match octet_at(s@, start as int) {
            Some(v) => r == Some((v as u32, run_end(s@, start as int) as usize)),
            None => r is None,
        },
        r matches Some((v, e)) ==> v <= 255 && start < e <= s@.len() && e == run_end(
            s@,
            start as int,
        ),
{
    let e = scan_digits(s, start);
    proof {
        lemma_run_end_bounds(s@, start as int);
    }
    if e - start > 3 || e == start {
        return None;
    }
    match decimal_in(s, start, e, 255) {
        Some(v) => Some((v, e)),
        None => None,
    }
}

/// Reads an IPv4 address in dotted-quad form as a big-endian integer.
pub fn parse_ipv4(s: &str) -> (r: Option<u32>)
    ensures
        r == ip_of_text(s@),
{
    let n = s.unicode_len();
    let (a, e0) = match octet(s, 0) {
        Some(x) => x,
        None => {
            return None;
        },
    };
    if e0 >= n || s.get_char(e0) != '.' {
        return None;
    }
    let (b, e1) = match octet(s, e0 + 1) {
        Some(x) => x,
        None => {
            return None;
        },
    };
    if e1 >= n || s.get_char(e1) != '.' {
        return None;
    }
    let (c, e2) = match octet(s, e1 + 1) {
        Some(x) => x,
        None => {
            return None;
        },
    };
    if e2 >= n || s.get_char(e2) != '.' {
        return None;
    }
    let (d, e3) = match octet(s, e2 + 1) {
        Some(x) => x,
        None => {
            return None;
        },
    };
    if e3 != n {
        return None;
    }
    proof {
        let t = s@;
        assert(octet_at(t, 0) == Some(a as nat));
        assert(octet_at(t, e0 + 1) == Some(b as nat));
        assert(octet_at(t, e1 + 1) == Some(c as nat));
        assert(octet_at(t, e2 + 1) == Some(d as nat));
    }
    Some(a * 16777216 + b * 65536 + c * 256 + d)
}

/// A field of a pre-extracted record.
#[derive(Debug, PartialEq, Eq, Structural, Clone, Copy)]
pub enum RecordField {
    SourceMac,
    DestinationMac,
    SourceIp,
    DestinationIp,
    IpProtocol,
    SourcePort,
    DestinationPort,
}

/// Why a record does not make a traffic unit.
#[derive(Debug, PartialEq, Eq, Structural, Clone, Copy)]
pub enum FormatError {
    /// A required field is absent.
    Missing(RecordField),
    /// A field does not have its expected shape.
    Malformed(RecordField),
}

/// One row of named textual fields; an absent field is `None`.
pub struct FieldRecord {
    pub smac: Option<String>,
    pub dmac: Option<String>,
    pub sip: Option<String>,
    pub dip: Option<String>,
    /// The IPv4 protocol number, in decimal.
    pub ip_proto: Option<String>,
    pub sport: Option<String>,
    pub dport: Option<String>,
    /// A human-readable protocol label.
    pub proto_name: Option<String>,
}

pub struct RecordView {
    pub smac: Option<Seq<char>>,
    pub dmac: Option<Seq<char>>,
    pub sip: Option<Seq<char>>,
    pub dip: Option<Seq<char>>,
    pub ip_proto: Option<Seq<char>>,
    pub sport: Option<Seq<char>>,
    pub dport: Option<Seq<char>>,
    pub proto_name: Option<Seq<char>>,
}

impl View for FieldRecord {
    type V = RecordView;

    open spec fn view(&self) -> RecordView {
        RecordView {
            smac: opt_string_view(self.smac),
            dmac: opt_string_view(self.dmac),
            sip: opt_string_view(self.sip),
            dip: opt_string_view(self.dip),
            ip_proto: opt_string_view(self.ip_proto),
            sport: opt_string_view(self.sport),
            dport: opt_string_view(self.dport),
            proto_name: opt_string_view(self.proto_name),
        }
    }
}

pub open spec fn mac_field_error(t: Option<Seq<char>>, f: RecordField) -> Option<FormatError> {
    match t {
        None => Some(FormatError::Missing(f)),
        Some(x) => if mac_of_text(x) is Some {
            None
        } else {
            Some(FormatError::Malformed(f))
        },
    }
}

pub open spec fn ip_field_error(t: Option<Seq<char>>, f: RecordField) -> Option<FormatError> {
    match t {
        None => Some(FormatError::Missing(f)),
        Some(x) => if ip_of_text(x) is Some {
            None
        } else {
            Some(FormatError::Malformed(f))
        },
    }
}

pub open spec fn number_field_error(t: Option<Seq<char>>, f: RecordField, limit: nat, required: bool) -> Option<FormatError> {
    match t {
        None => if required {
            Some(FormatError::Missing(f))
        } else {
            None
        },
        Some(x) => if decimal_of(x, limit) is Some {
            None
        } else {
            Some(FormatError::Malformed(f))
        },
    }
}

/// The first field, in declaration order, that is missing or malformed.
pub open spec fn first_error(r: RecordView) -> Option<FormatError> {
    if mac_field_error(r.smac, RecordField::SourceMac) is Some {
        mac_field_error(r.smac, RecordField::SourceMac)
    } else if mac_field_error(r.dmac, RecordField::DestinationMac) is Some {
        mac_field_error(r.dmac, RecordField::DestinationMac)
    } else if ip_field_error(r.sip, RecordField::SourceIp) is Some {
        ip_field_error(r.sip, RecordField::SourceIp)
    } else if ip_field_error(r.dip, RecordField::DestinationIp) is Some {
        ip_field_error(r.dip, RecordField::DestinationIp)
    } else if number_field_error(r.ip_proto, RecordField::IpProtocol, 255, true) is Some {
        number_field_error(r.ip_proto, RecordField::IpProtocol, 255, true)
    } else if number_field_error(r.sport, RecordField::SourcePort, 65535, false) is Some {
        number_field_error(r.sport, RecordField::SourcePort, 65535, false)
    } else {
        number_field_error(r.dport, RecordField::DestinationPort, 65535, false)
    }
}

/// The unit of a record with no missing or malformed field. Ports are kept only for
/// TCP and UDP, and only when both are given.
pub open spec fn record_unit(r: RecordView) -> UnitView {
    let proto = Protocol::from_number_spec(decimal_of(r.ip_proto.unwrap(), 255).unwrap() as u8);
    let ports = (proto == Protocol::TCP || proto == Protocol::UDP) && r.sport.is_some()
        && r.dport.is_some();
    UnitView {
        smac: mac_of_text(r.smac.unwrap()).unwrap(),
        dmac: mac_of_text(r.dmac.unwrap()).unwrap(),
        sip: ip_of_text(r.sip.unwrap()),
        dip: ip_of_text(r.dip.unwrap()),
        sport: if ports {
            Some(decimal_of(r.sport.unwrap(), 65535).unwrap() as u16)
        } else {
            None
        },
        dport: if ports {
            Some(decimal_of(r.dport.unwrap(), 65535).unwrap() as u16)
        } else {
            None
        },
        proto,
        name: r.proto_name,
    }
}

fn mac_field(t: &Option<String>, f: RecordField) -> (r: Result<MacAddr, FormatError>)
    ensures
        match mac_field_error(opt_string_view(*t), f) {
            Some(e) => r == Err::<MacAddr, FormatError>(e),
            None => r == Ok::<MacAddr, FormatError>(mac_of_text(opt_string_view(*t).unwrap()).unwrap()),
        },
{
    match t {
        None => Err(FormatError::Missing(f)),
        Some(x) => match parse_mac(x.as_str()) {
            Some(m) => Ok(m),
            None => Err(FormatError::Malformed(f)),
        },
    }
}

fn ip_field(t: &Option<String>, f: RecordField) -> (r: Result<u32, FormatError>)
    ensures
        match ip_field_error(opt_string_view(*t), f) {
            Some(e) => r == Err::<u32, FormatError>(e),
            None => r == Ok::<u32, FormatError>(ip_of_text(opt_string_view(*t).unwrap()).unwrap()),
        },
{
    match t {
        None => Err(FormatError::Missing(f)),
        Some(x) => match parse_ipv4(x.as_str()) {
            Some(a) => Ok(a),
            None => Err(FormatError::Malformed(f)),
        },
    }
}

fn number_field(t: &Option<String>, f: RecordField, limit: u32, required: bool) -> (r: Result<
    Option<u32>,
    FormatError,
>)
    requires
        limit <= 65535,
    ensures
        match number_field_error(opt_string_view(*t), f, limit as nat, required) {
            Some(e) => r == Err::<Option<u32>, FormatError>(e),
            None => r == Ok::<Option<u32>, FormatError>(
                match opt_string_view(*t) {
                    Some(x) => Some(decimal_of(x, limit as nat).unwrap() as u32),
                    None => None,
                },
            ),
        },
{
    match t {
        None => if required {
            Err(FormatError::Missing(f))
        } else {
            Ok(None)
        },
        Some(x) => match parse_decimal(x.as_str(), limit) {
            Some(v) => Ok(Some(v)),
            None => Err(FormatError::Malformed(f)),
        },
    }
}

/// Builds the traffic unit of a record, or reports its first missing or malformed field.
pub fn normalize(record: &FieldRecord) -> (r: Result<PacketData, FormatError>)
    ensures
        match first_error(record@) {
            Some(e) => r matches Err(e2) && e2 == e,
            None => r matches Ok(u) && u@ == record_unit(record@),
        },
        r matches Ok(u) ==> u@.wf(),
{
    let smac = match mac_field(&record.smac, RecordField::SourceMac) {
        Ok(m) => m,
        Err(e) => {
            return Err(e);
        },
    };
    let dmac = match mac_field(&record.dmac, RecordField::DestinationMac) {
        Ok(m) => m,
        Err(e) => {
            return Err(e);
        },
    };
    let sip = match ip_field(&record.sip, RecordField::SourceIp) {
        Ok(a) => a,
        Err(e) => {
            return Err(e);
        },
    };
    let dip = match ip_field(&record.dip, RecordField::DestinationIp) {
        Ok(a) => a,
        Err(e) => {
            return Err(e);
        },
    };
    let number = match number_field(&record.ip_proto, RecordField::IpProtocol, 255, true) {
        Ok(Some(n)) => n,
        Ok(None) => {
            return Err(FormatError::Missing(RecordField::IpProtocol));
        },
        Err(e) => {
            return Err(e);
        },
    };
    let sport = match number_field(&record.sport, RecordField::SourcePort, 65535, false) {
        Ok(p) => p,
        Err(e) => {
            return Err(e);
        },
    };
    let dport = match number_field(&record.dport, RecordField::DestinationPort, 65535, false) {
        Ok(p) => p,
        Err(e) => {
            return Err(e);
        },
    };
    let proto = Protocol::from_number(number as u8);
    let mut builder = PacketData::new().macs(smac, dmac).ips(sip, dip).protocol(proto);
    if proto == Protocol::TCP || proto == Protocol::UDP {
        match (sport, dport) {
            (Some(s), Some(d)) => {
                builder = builder.ports(PortAddr(s as u16), PortAddr(d as u16));
            },
            _ => {},
        }
    }
    match &record.proto_name {
        Some(n) => {
            builder = builder.display_name(n.clone());
        },
        None => {},
    }
    Ok(builder.build())
}

} // verus!
