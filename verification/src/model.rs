//! The inventory's data model: MAC and IP addresses, raw observations of a
//! host, devices, services and the enumerations they carry.

use vstd::prelude::*;

use crate::ipv6::{ipv6_from_text, parse_ipv6};
use crate::text::{chars_eq, chars_of, decimal, digits_value, push_decimal, split, split_chars, string_of, views};

verus! {

// ---------------------------------------------------------------------------
// Hexadecimal digits.
// ---------------------------------------------------------------------------

/// Value of a hexadecimal digit (either case), if `c` is one.
pub open spec fn hex_value(c: char) -> Option<nat> {
    if '0' <= c && c <= '9' {
        Some((c as int - 48) as nat)
    } else if 'a' <= c && c <= 'f' {
        Some((c as int - 87) as nat)
    } else if 'A' <= c && c <= 'F' {
        Some((c as int - 55) as nat)
    } else {
        None
    }
}

/// Lower-case hexadecimal digit for `d < 16`.
pub open spec fn hex_digit(d: nat) -> char {
    if d < 10 {
        (d + 48) as char
    } else {
        (d + 87) as char
    }
}

/// Executable [`hex_value`].
pub fn hex_value_of(c: char) -> (r: Option<u8>)
    ensures
        match r {
            Some(v) => hex_value(c) == Some(v as nat) && v < 16,
            None => hex_value(c) is None,
        },
{
    if '0' <= c && c <= '9' {
        Some((c as u8) - 48)
    } else if 'a' <= c && c <= 'f' {
        Some((c as u8) - 87)
    } else if 'A' <= c && c <= 'F' {
        Some((c as u8) - 55)
    } else {
        None
    }
}

/// Executable [`hex_digit`].
pub fn hex_digit_of(d: u8) -> (c: char)
    requires
        d < 16,
    ensures
        c == hex_digit(d as nat),
{
    if d < 10 {
        (d + 48) as char
    } else {
        (d + 87) as char
    }
}

// ---------------------------------------------------------------------------
// MAC addresses.
// ---------------------------------------------------------------------------

/// A 48-bit hardware (MAC) address.
#[derive(Clone, Copy, Debug, PartialEq, Eq, Hash)]
pub struct MacAddr {
    pub octets: [u8; 6],
}

/// Two lower-case hex digits of a byte.
pub open spec fn byte_hex(b: u8) -> Seq<char> {
    seq![hex_digit((b / 16) as nat), hex_digit((b % 16) as nat)]
}

/// Canonical text of a MAC address: `aa:bb:cc:dd:ee:ff`, lower case.
pub open spec fn mac_text(o: Seq<u8>) -> Seq<char> {
    seq![
        hex_digit((o[0] / 16) as nat), hex_digit((o[0] % 16) as nat), ':',
        hex_digit((o[1] / 16) as nat), hex_digit((o[1] % 16) as nat), ':',
        hex_digit((o[2] / 16) as nat), hex_digit((o[2] % 16) as nat), ':',
        hex_digit((o[3] / 16) as nat), hex_digit((o[3] % 16) as nat), ':',
        hex_digit((o[4] / 16) as nat), hex_digit((o[4] % 16) as nat), ':',
        hex_digit((o[5] / 16) as nat), hex_digit((o[5] % 16) as nat),
    ]
}

/// The byte written by the two hex digits at `s[i]`, `s[i + 1]`.
pub open spec fn hex_pair(s: Seq<char>, i: int) -> Option<u8> {
    match (hex_value(s[i]), hex_value(s[i + 1])) {
        (Some(h), Some(l)) => Some((h * 16 + l) as u8),
        _ => None,
    }
}

/// The six octets written by a MAC address text `xx:xx:xx:xx:xx:xx` (hex digits
/// of either case), or `None` when `s` is not such a text.
pub open spec fn mac_from_text(s: Seq<char>) -> Option<Seq<u8>> {
    if s.len() == 17 && s[2] == ':' && s[5] == ':' && s[8] == ':' && s[11] == ':' && s[14]
        == ':' && hex_pair(s, 0) is Some && hex_pair(s, 3) is Some && hex_pair(s, 6) is Some
        && hex_pair(s, 9) is Some && hex_pair(s, 12) is Some && hex_pair(s, 15) is Some {
        Some(
            seq![
                hex_pair(s, 0)->0,
                hex_pair(s, 3)->0,
                hex_pair(s, 6)->0,
                hex_pair(s, 9)->0,
                hex_pair(s, 12)->0,
                hex_pair(s, 15)->0,
            ],
        )
    } else {
        None
    }
}

/// Executable [`hex_pair`].
fn hex_pair_of(s: &[char], i: usize) -> (r: Option<u8>)
    requires
        i + 1 < s@.len(),
    ensures
        r == hex_pair(s@, i as int),
{
    match (hex_value_of(s[i]), hex_value_of(s[i + 1])) {
        (Some(h), Some(l)) => Some(h * 16 + l),
        _ => None,
    }
}

impl MacAddr {
    /// The six octets, as a sequence.
    pub open spec fn bytes(&self) -> Seq<u8> {
        self.octets@
    }

    /// Builds an address from its octets.
    pub fn from_octets(octets: [u8; 6]) -> (m: MacAddr)
        ensures
            m.bytes() == octets@,
    {
        MacAddr { octets }
    }

    /// The six octets.
    pub fn octets(&self) -> (o: [u8; 6])
        ensures
            o@ == self.bytes(),
    {
        self.octets
    }

    /// `true` for the all-zero address (an unresolved ARP entry).
    pub open spec fn spec_is_zero(&self) -> bool {
        &&& self.bytes()[0] == 0
        &&& self.bytes()[1] == 0
        &&& self.bytes()[2] == 0
        &&& self.bytes()[3] == 0
        &&& self.bytes()[4] == 0
        &&& self.bytes()[5] == 0
    }

    /// `true` for the all-zero address.
    pub fn is_zero(&self) -> (r: bool)
        ensures
            r == self.spec_is_zero(),
    {
        let o = self.octets;
        o[0] == 0 && o[1] == 0 && o[2] == 0 && o[3] == 0 && o[4] == 0 && o[5] == 0
    }

    /// The 24-bit vendor prefix (OUI) as a number.
    pub open spec fn spec_oui(&self) -> u32 {
        (self.bytes()[0] * 65536 + self.bytes()[1] * 256 + self.bytes()[2]) as u32
    }

    /// The 24-bit vendor prefix (OUI) as a number.
    pub fn oui(&self) -> (r: u32)
        ensures
            r == self.spec_oui(),
    {
        (self.octets[0] as u32) * 65536 + (self.octets[1] as u32) * 256 + (self.octets[2] as u32)
    }

    /// Parses `xx:xx:xx:xx:xx:xx` (hex digits of either case).
    pub fn parse(s: &str) -> (r: Option<MacAddr>)
        ensures
            match r {
                Some(m) => mac_from_text(s@) == Some(m.bytes()),
                None => mac_from_text(s@) is None,
            },
    {
        let c = chars_of(s);
        Self::parse_chars(&c)
    }

    /// Parses `xx:xx:xx:xx:xx:xx` given as characters.
    pub fn parse_chars(c: &[char]) -> (r: Option<MacAddr>)
        ensures
            match r {
                Some(m) => mac_from_text(c@) == Some(m.bytes()),
                None => mac_from_text(c@) is None,
            },
    {
        if c.len() != 17 || c[2] != ':' || c[5] != ':' || c[8] != ':' || c[11] != ':' || c[14]
            != ':' {
            return None;
        }
        let b0 = hex_pair_of(&c, 0);
        let b1 = hex_pair_of(&c, 3);
        let b2 = hex_pair_of(&c, 6);
        let b3 = hex_pair_of(&c, 9);
        let b4 = hex_pair_of(&c, 12);
        let b5 = hex_pair_of(&c, 15);
        match (b0, b1, b2, b3, b4, b5) {
            (Some(a), Some(b), Some(d), Some(e), Some(f), Some(g)) => {
                let m = MacAddr { octets: [a, b, d, e, f, g] };
                assert(m.bytes() =~= mac_from_text(c@)->0);
                Some(m)
            },
            _ => None,
        }
    }

    /// Whether two addresses are the same.
    pub fn same_as(&self, other: &MacAddr) -> (r: bool)
        ensures
            r == (*self == *other),
    {
        let a = self.octets;
        let b = other.octets;
        let mut i: usize = 0;
        while i < 6
            invariant
                i <= 6,
                a == self.octets,
                b == other.octets,
                forall|k: int| 0 <= k < i ==> a[k] == b[k],
            decreases 6 - i,
        {
            if a[i] != b[i] {
                return false;
            }
            i = i + 1;
        }
        proof {
            broadcast use vstd::array::axiom_array_ext_equal;
            assert(a =~= b);
        }
        true
    }

    /// Canonical text `aa:bb:cc:dd:ee:ff`.
    pub fn to_text(&self) -> (r: String)
        ensures
            r@ == mac_text(self.bytes()),
    {
        let o = self.octets;
        let mut v: Vec<char> = Vec::new();
        push_byte_hex(&mut v, o[0]);
        v.push(':');
        push_byte_hex(&mut v, o[1]);
        v.push(':');
        push_byte_hex(&mut v, o[2]);
        v.push(':');
        push_byte_hex(&mut v, o[3]);
        v.push(':');
        push_byte_hex(&mut v, o[4]);
        v.push(':');
        push_byte_hex(&mut v, o[5]);
        assert(v@ =~= mac_text(self.bytes()));
        string_of(&v)
    }
}

/// Appends the two lower-case hex digits of `b`.
fn push_byte_hex(v: &mut Vec<char>, b: u8)
    ensures
        final(v)@ == old(v)@ + byte_hex(b),
{
    v.push(hex_digit_of(b / 16));
    v.push(hex_digit_of(b % 16));
    assert(v@ =~= old(v)@ + byte_hex(b));
}

/// The two hex digits of a byte read back as that byte.
proof fn lemma_byte_hex_round(b: u8)
    ensures
        hex_value(hex_digit((b / 16) as nat)) == Some((b / 16) as nat),
        hex_value(hex_digit((b % 16) as nat)) == Some((b % 16) as nat),
        (((b / 16) as nat) * 16 + ((b % 16) as nat)) as u8 == b,
{
}

/// Reading the canonical text of an address gives the address back.
pub proof fn lemma_mac_text_round_trip(m: MacAddr)
    ensures
        mac_from_text(mac_text(m.bytes())) == Some(m.bytes()),
{
    let o = m.bytes();
    let t = mac_text(o);
    lemma_byte_hex_round(o[0]);
    lemma_byte_hex_round(o[1]);
    lemma_byte_hex_round(o[2]);
    lemma_byte_hex_round(o[3]);
    lemma_byte_hex_round(o[4]);
    lemma_byte_hex_round(o[5]);
    assert(hex_pair(t, 0) == Some(o[0]));
    assert(hex_pair(t, 3) == Some(o[1]));
    assert(hex_pair(t, 6) == Some(o[2]));
    assert(hex_pair(t, 9) == Some(o[3]));
    assert(hex_pair(t, 12) == Some(o[4]));
    assert(hex_pair(t, 15) == Some(o[5]));
    assert(mac_from_text(t)->0 =~= o);
}

// ---------------------------------------------------------------------------
// IP addresses.
// ---------------------------------------------------------------------------

/// An IPv4 or IPv6 address, held as its numeric value (network byte order).
#[derive(Clone, Copy, Debug, PartialEq, Eq, Structural, Hash)]
pub enum IpAddr {
    V4(u32),
    V6(u128),
}

/// Dotted-decimal text of an IPv4 address (`a.b.c.d`).
pub open spec fn dotted(a: u32) -> Seq<char> {
    decimal((a / 16777216) as nat) + seq!['.'] + decimal(((a / 65536) % 256) as nat) + seq!['.']
        + decimal(((a / 256) % 256) as nat) + seq!['.'] + decimal((a % 256) as nat)
}

/// Appends the dotted-decimal text of an IPv4 address.
pub fn push_dotted(out: &mut Vec<char>, a: u32)
    ensures
        final(out)@ == old(out)@ + dotted(a),
{
    push_decimal(out, (a / 16777216) as u64);
    out.push('.');
    push_decimal(out, ((a / 65536) % 256) as u64);
    out.push('.');
    push_decimal(out, ((a / 256) % 256) as u64);
    out.push('.');
    push_decimal(out, (a % 256) as u64);
    assert(out@ =~= old(out)@ + dotted(a));
}

/// Dotted-decimal text of an IPv4 address.
pub fn ipv4_text(a: u32) -> (r: String)
    ensures
        r@ == dotted(a),
{
    let mut v: Vec<char> = Vec::new();
    push_dotted(&mut v, a);
    assert(v@ =~= dotted(a));
    string_of(&v)
}

/// The IPv4 address `a.b.c.d`.
pub open spec fn ipv4(a: u8, b: u8, c: u8, d: u8) -> u32 {
    (a * 16777216 + b * 65536 + c * 256 + d) as u32
}

/// One dotted-decimal field: one to three ASCII digits, no leading zero, at
/// most 255.
pub open spec fn octet_of(p: Seq<char>) -> Option<u8> {
    if 1 <= p.len() <= 3 && !(p.len() > 1 && p[0] == '0') {
        match digits_value(p) {
            Some(v) => if v <= 255 {
                Some(v as u8)
            } else {
                None
            },
            None => None,
        }
    } else {
        None
    }
}

/// The IPv4 address written in dotted-decimal as `s`, with the grammar of
/// `Ipv4Addr`'s `FromStr`: four fields of one to three digits, no leading
/// zeros, each at most 255.
pub open spec fn ipv4_from_text(s: Seq<char>) -> Option<u32> {
    let f = split(s, '.');
    if f.len() == 4 && octet_of(f[0]) is Some && octet_of(f[1]) is Some && octet_of(f[2]) is Some
        && octet_of(f[3]) is Some {
        Some(ipv4(octet_of(f[0])->0, octet_of(f[1])->0, octet_of(f[2])->0, octet_of(f[3])->0))
    } else {
        None
    }
}

/// The address written as `s`, with the grammar of `IpAddr`'s `FromStr`:
/// dotted-decimal IPv4 text, else IPv6 text (see [`ipv6_from_text`]).
pub open spec fn ip_from_text(s: Seq<char>) -> Option<IpAddr> {
    match ipv4_from_text(s) {
        Some(a) => Some(IpAddr::V4(a)),
        None => match ipv6_from_text(s) {
            Some(b) => Some(IpAddr::V6(b)),
            None => None,
        },
    }
}

/// Executable [`octet_of`].
fn octet_of_chars(p: &[char]) -> (r: Option<u8>)
    ensures
        r == octet_of(p@),
{
    if p.len() < 1 || p.len() > 3 || (p.len() > 1 && p[0] == '0') {
        return None;
    }
    let mut v: u32 = 0;
    let mut i: usize = 0;
    while i < p.len()
        invariant
            1 <= p@.len() <= 3,
            i <= p@.len(),
            v < 1000,
            i == 0 ==> v == 0,
            digits_value(p@.subrange(0, i as int)) == Some(v as nat),
            v < if i == 0 { 1u32 } else if i == 1 { 10u32 } else if i == 2 { 100u32 } else { 1000u32 },
        decreases p@.len() - i,
    {
        let c = p[i];
        assert(p@.subrange(0, i + 1).drop_last() =~= p@.subrange(0, i as int));
        if c < '0' || c > '9' {
            assert(digits_value(p@.subrange(0, i + 1)) is None);
            proof {
                lemma_digits_none(p@, i as int + 1);
            }
            return None;
        }
        v = v * 10 + ((c as u8) - 48) as u32;
        i = i + 1;
    }
    assert(p@.subrange(0, p@.len() as int) =~= p@);
    if v <= 255 {
        Some(v as u8)
    } else {
        None
    }
}

/// A prefix that is not all digits makes the whole text not all digits.
proof fn lemma_digits_none(p: Seq<char>, i: int)
    requires
        0 <= i <= p.len(),
        digits_value(p.subrange(0, i)) is None,
    ensures
        digits_value(p) is None,
    decreases p.len() - i,
{
    if i < p.len() {
        assert(p.subrange(0, i + 1).drop_last() =~= p.subrange(0, i));
        lemma_digits_none(p, i + 1);
    } else {
        assert(p.subrange(0, i) =~= p);
    }
}

/// Parses dotted-decimal IPv4 text.
pub fn parse_ipv4(s: &[char]) -> (r: Option<u32>)
    ensures
        r == ipv4_from_text(s@),
{
    let f = split_chars(s, '.');
    if f.len() != 4 {
        return None;
    }
    assert(views(f@)[0] == f@[0]@);
    assert(views(f@)[1] == f@[1]@);
    assert(views(f@)[2] == f@[2]@);
    assert(views(f@)[3] == f@[3]@);
    match (octet_of_chars(&f[0]), octet_of_chars(&f[1]), octet_of_chars(&f[2]), octet_of_chars(&f[3])) {
        (Some(a), Some(b), Some(c), Some(d)) => {
            Some((a as u32) * 16777216 + (b as u32) * 65536 + (c as u32) * 256 + (d as u32))
        },
        _ => None,
    }
}

/// Parses an IP address written as text (IPv4, else IPv6).
pub fn parse_ip(s: &[char]) -> (r: Option<IpAddr>)
    ensures
        r == ip_from_text(s@),
{
    match parse_ipv4(s) {
        Some(a) => Some(IpAddr::V4(a)),
        None => match parse_ipv6(s) {
            Some(b) => Some(IpAddr::V6(b)),
            None => None,
        },
    }
}

// ---------------------------------------------------------------------------
// Enumerations.
// ---------------------------------------------------------------------------

/// Kind of device, as fingerprinting classifies it.
#[derive(Clone, Copy, Debug, PartialEq, Eq, Structural, Hash)]
pub enum DeviceType {
    Router,
    Phone,
    Laptop,
    Desktop,
    Tv,
    Printer,
    Camera,
    Nas,
    Console,
    Iot,
    Tablet,
    Unknown,
}

/// Discovery technique that produced an observation.
#[derive(Clone, Copy, Debug, PartialEq, Eq, Structural, Hash)]
pub enum Source {
    ArpCache,
    ArpSweep,
    Icmp,
    TcpPing,
    Mdns,
    Ssdp,
}

/// Transport protocol of a service.
#[derive(Clone, Copy, Debug, PartialEq, Eq, Structural, Hash)]
pub enum Protocol {
    Tcp,
    Udp,
}

/// State of a probed port.
#[derive(Clone, Copy, Debug, PartialEq, Eq, Structural, Hash)]
pub enum ServiceState {
    Open,
    Closed,
    Filtered,
}

/// Depth profile of a scan.
#[derive(Clone, Copy, Debug, PartialEq, Eq, Structural, Hash)]
pub enum ScanProfile {
    Quick,
    Normal,
    Deep,
    Iot,
    Router,
}

/// Kind of timeline event produced by comparing two scans.
#[derive(Clone, Copy, Debug, PartialEq, Eq, Structural, Hash)]
pub enum EventType {
    DeviceNew,
    DeviceOffline,
    DeviceOnline,
    DeviceIpChanged,
    PortOpened,
}

/// Severity of a timeline event.
#[derive(Clone, Copy, Debug, PartialEq, Eq, Structural, Hash)]
pub enum Severity {
    Info,
    Warning,
    Critical,
}

/// Kind of recorded scan.
#[derive(Clone, Copy, Debug, PartialEq, Eq, Structural, Hash)]
pub enum ScanKind {
    Discovery,
    Ports,
}

/// Life-cycle state of a recorded scan.
#[derive(Clone, Copy, Debug, PartialEq, Eq, Structural, Hash)]
pub enum ScanStatus {
    Running,
    Completed,
}

/// Confidence of a classification, as a score.
#[derive(Clone, Copy, Debug, PartialEq, Eq, Structural, Hash)]
pub struct Confidence {
    pub value: u8,
}

impl Confidence {
    /// A confidence with the given score.
    pub fn new(score: u8) -> (c: Confidence)
        ensures
            c.value == score,
    {
        Confidence { value: score }
    }

    /// The score.
    pub fn score(&self) -> (s: u8)
        ensures
            s == self.value,
    {
        self.value
    }
}

// ---------------------------------------------------------------------------
// Observations.
// ---------------------------------------------------------------------------

/// One raw sighting of a host by one discovery technique, with free-form
/// hints (`"mdns.service"`, `"tcp.ports"`, `"ssdp.st"`, ...). The hints are a
/// key-value list; built with [`Observation::new`] and
/// [`Observation::with_hint`], which replaces the value of an existing key,
/// its keys are distinct ([`hints_distinct`]).
#[derive(Clone, Debug, PartialEq, Eq)]
pub struct Observation {
    pub source: Source,
    pub ip: Option<IpAddr>,
    pub mac: Option<MacAddr>,
    pub hostname: Option<String>,
    pub hints: Vec<(String, String)>,
}

/// The hints of an observation as (key, value) character sequences.
pub open spec fn hint_pairs(o: Observation) -> Seq<(Seq<char>, Seq<char>)> {
    o.hints@.map_values(|p: (String, String)| (p.0@, p.1@))
}

/// No two hints of `o` have the same key.
pub open spec fn hints_distinct(o: Observation) -> bool {
    forall|i: int, j: int|
        0 <= i < j < hint_pairs(o).len() ==> (#[trigger] hint_pairs(o)[i]).0 != (
        #[trigger] hint_pairs(o)[j]).0
}

/// The hint list after setting `k` to `v` in `h`: the value of the first pair
/// with key `k` replaced, or the pair appended when there is none.
pub open spec fn hints_with(h: Seq<(Seq<char>, Seq<char>)>, k: Seq<char>, v: Seq<char>) -> Seq<
    (Seq<char>, Seq<char>),
> {
    match hint_index(h, k) {
        Some(i) => h.update(i, (k, v)),
        None => h.push((k, v)),
    }
}

/// Index of the first hint at or after `i` with key `k`.
pub open spec fn hint_index_from(h: Seq<(Seq<char>, Seq<char>)>, k: Seq<char>, i: int) -> Option<
    int,
>
    decreases h.len() - i,
{
    if i < 0 || i >= h.len() {
        None
    } else if h[i].0 == k {
        Some(i)
    } else {
        hint_index_from(h, k, i + 1)
    }
}

/// Index of the first hint with key `k`.
pub open spec fn hint_index(h: Seq<(Seq<char>, Seq<char>)>, k: Seq<char>) -> Option<int> {
    hint_index_from(h, k, 0)
}

/// Value of hint `k`, if present.
pub open spec fn hint_value(o: Observation, k: Seq<char>) -> Option<Seq<char>> {
    match hint_index(hint_pairs(o), k) {
        Some(i) => Some(hint_pairs(o)[i].1),
        None => None,
    }
}

/// `hint_index_from` finds the first pair with the key at or after `i`.
pub proof fn lemma_hint_index_from(h: Seq<(Seq<char>, Seq<char>)>, k: Seq<char>, i: int)
    requires
        0 <= i,
    ensures
        hint_index_from(h, k, i) matches Some(m) ==> i <= m < h.len() && h[m].0 == k && forall|
            j: int,
        |
            i <= j < m ==> h[j].0 != k,
        hint_index_from(h, k, i) is None ==> forall|j: int| i <= j < h.len() ==> h[j].0 != k,
    decreases h.len() - i,
{
    if i < h.len() && h[i].0 != k {
        lemma_hint_index_from(h, k, i + 1);
    }
}

/// `hint_index` finds the first pair with the key.
pub proof fn lemma_hint_index(h: Seq<(Seq<char>, Seq<char>)>, k: Seq<char>)
    ensures
        hint_index(h, k) matches Some(i) ==> 0 <= i < h.len() && h[i].0 == k && forall|j: int|
            0 <= j < i ==> h[j].0 != k,
        hint_index(h, k) is None ==> forall|j: int| 0 <= j < h.len() ==> h[j].0 != k,
{
    lemma_hint_index_from(h, k, 0);
}

/// The first pair with key `k` is at `i` (or there is none).
pub proof fn lemma_hint_index_is(h: Seq<(Seq<char>, Seq<char>)>, k: Seq<char>, i: Option<int>)
    requires
        i matches Some(m) ==> 0 <= m < h.len() && h[m].0 == k && forall|j: int|
            0 <= j < m ==> h[j].0 != k,
        i is None ==> forall|j: int| 0 <= j < h.len() ==> h[j].0 != k,
    ensures
        hint_index(h, k) == i,
{
    lemma_hint_index(h, k);
    if hint_index(h, k) != i {
        match hint_index(h, k) {
            Some(a) => {
                match i {
                    Some(b) => {
                        if a < b {
                        } else {
                        }
                    },
                    None => {},
                }
            },
            None => {},
        }
    }
}

/// Position of key `k` among the hints of `o`.
pub fn find_hint(o: &Observation, k: &[char]) -> (r: Option<usize>)
    ensures
        match r {
            Some(i) => hint_index(hint_pairs(*o), k@) == Some(i as int) && i < o.hints@.len()
                && hint_value(*o, k@) == Some(o.hints@[i as int].1@),
            None => hint_index(hint_pairs(*o), k@) is None && hint_value(*o, k@) is None,
        },
{
    let ghost h = hint_pairs(*o);
    let mut i: usize = 0;
    while i < o.hints.len()
        invariant
            h == hint_pairs(*o),
            i <= o.hints@.len(),
            forall|j: int| 0 <= j < i ==> h[j].0 != k@,
        decreases o.hints@.len() - i,
    {
        let key = chars_of(o.hints[i].0.as_str());
        if chars_eq(&key, k) {
            proof {
                lemma_hint_index_is(h, k@, Some(i as int));
            }
            return Some(i);
        }
        i = i + 1;
    }
    proof {
        lemma_hint_index_is(h, k@, None);
    }
    None
}

/// `o` is a bare sighting by `source` of the given addresses: no host name and
/// no hint.
pub open spec fn sighting(o: Observation, source: Source, ip: Option<IpAddr>, mac: Option<MacAddr>) -> bool {
    &&& o.source == source
    &&& o.ip == ip
    &&& o.mac == mac
    &&& o.hostname is None
    &&& o.hints@.len() == 0
}

impl Observation {
    /// An observation by `source` with no address, name or hint yet.
    pub fn new(source: Source) -> (o: Observation)
        ensures
            o.source == source,
            o.ip is None,
            o.mac is None,
            o.hostname is None,
            o.hints@.len() == 0,
            hints_distinct(o),
    {
        Observation { source, ip: None, mac: None, hostname: None, hints: Vec::new() }
    }

    /// Sets the IP address.
    pub fn with_ip(self, ip: IpAddr) -> (o: Observation)
        ensures
            o == (Observation { ip: Some(ip), ..self }),
    {
        Observation { ip: Some(ip), ..self }
    }

    /// Sets the MAC address.
    pub fn with_mac(self, mac: MacAddr) -> (o: Observation)
        ensures
            o == (Observation { mac: Some(mac), ..self }),
    {
        Observation { mac: Some(mac), ..self }
    }

    /// Sets the host name.
    pub fn with_hostname(self, hostname: String) -> (o: Observation)
        ensures
            o == (Observation { hostname: Some(hostname), ..self }),
    {
        Observation { hostname: Some(hostname), ..self }
    }

    /// Sets hint `key` to `value`, replacing an earlier value of the key.
    pub fn with_hint(self, key: String, value: String) -> (o: Observation)
        ensures
            o.source == self.source,
            o.ip == self.ip,
            o.mac == self.mac,
            o.hostname == self.hostname,
            hint_pairs(o) == hints_with(hint_pairs(self), key@, value@),
            hint_value(o, key@) == Some(value@),
            forall|k: Seq<char>| k != key@ ==> hint_value(o, k) == hint_value(self, k),
            hints_distinct(self) ==> hints_distinct(o),
    {
        let mut o = self;
        let kc = chars_of(key.as_str());
        let ghost h0 = hint_pairs(o);
        proof {
            lemma_hint_index(h0, kc@);
        }
        match find_hint(&o, &kc) {
            Some(i) => {
                let ghost old_hints = o.hints@;
                o.hints.set(i, (key, value));
                proof {
                    let h1 = hint_pairs(o);
                    assert(h1 =~= h0.update(i as int, (kc@, value@)));
                    lemma_hint_index(h0, kc@);
                    lemma_hint_index_is(h1, kc@, Some(i as int));
                    assert forall|k: Seq<char>| k != kc@ implies hint_value(o, k) == hint_value(
                        self,
                        k,
                    ) by {
                        lemma_hint_index(h0, k);
                        lemma_hint_index_is(h1, k, hint_index(h0, k));
                    }
                }
            },
            None => {
                o.hints.push((key, value));
                proof {
                    let h1 = hint_pairs(o);
                    assert(h1 =~= h0.push((kc@, value@)));
                    lemma_hint_index(h0, kc@);
                    lemma_hint_index_is(h1, kc@, Some(h0.len() as int));
                    assert forall|k: Seq<char>| k != kc@ implies hint_value(o, k) == hint_value(
                        self,
                        k,
                    ) by {
                        lemma_hint_index(h0, k);
                        lemma_hint_index_is(h1, k, hint_index(h0, k));
                    }
                }
            },
        }
        o
    }
}

// ---------------------------------------------------------------------------
// Devices and services.
// ---------------------------------------------------------------------------

/// A device of the inventory.
#[derive(Clone, Debug, PartialEq, Eq)]
pub struct Device {
    pub id: String,
    pub network_id: String,
    pub primary_mac: Option<MacAddr>,
    pub primary_ip: Option<IpAddr>,
    pub hostname: Option<String>,
    pub display_name: Option<String>,
    pub vendor: Option<String>,
    pub manufacturer: Option<String>,
    pub model: Option<String>,
    pub device_type: DeviceType,
    pub os_family: Option<String>,
    pub confidence: Confidence,
    pub first_seen_at: String,
    pub last_seen_at: String,
    pub is_trusted: bool,
    pub is_hidden: bool,
    pub notes: Option<String>,
    pub is_online: bool,
}

/// The classification that wins when `(incoming_type, incoming_conf)` is
/// offered to a device classified as `(cur_type, cur_conf)`: the higher
/// confidence wins, an equal confidence allows a change to a known type, and
/// `Unknown` never replaces a classification.
pub open spec fn classify(
    cur_type: DeviceType,
    cur_conf: Confidence,
    incoming_type: DeviceType,
    incoming_conf: Confidence,
) -> (DeviceType, Confidence) {
    if incoming_conf.value >= cur_conf.value && incoming_type != DeviceType::Unknown {
        (incoming_type, incoming_conf)
    } else {
        (cur_type, cur_conf)
    }
}

impl Device {
    /// A device first and last seen at `now`, with nothing known about it yet.
    pub fn new(id: &str, network_id: &str, now: &str) -> (d: Device)
        ensures
            d.id@ == id@,
            d.network_id@ == network_id@,
            d.first_seen_at@ == now@,
            d.last_seen_at@ == now@,
            d.primary_mac is None,
            d.primary_ip is None,
            d.hostname is None,
            d.display_name is None,
            d.vendor is None,
            d.manufacturer is None,
            d.model is None,
            d.os_family is None,
            d.notes is None,
            d.device_type == DeviceType::Unknown,
            d.confidence.value == 0,
            !d.is_trusted,
            !d.is_hidden,
            d.is_online,
    {
        Device {
            id: id.to_string(),
            network_id: network_id.to_string(),
            primary_mac: None,
            primary_ip: None,
            hostname: None,
            display_name: None,
            vendor: None,
            manufacturer: None,
            model: None,
            device_type: DeviceType::Unknown,
            os_family: None,
            confidence: Confidence { value: 0 },
            first_seen_at: now.to_string(),
            last_seen_at: now.to_string(),
            is_trusted: false,
            is_hidden: false,
            notes: None,
            is_online: true,
        }
    }

    /// Takes in what a sighting of the device at `now` tells: its addresses
    /// and host name when the sighting has them; it was last seen, online,
    /// at `now`.
    pub fn merge_observation(&mut self, obs: &Observation, now: &str)
        ensures
            final(self).primary_mac == (match obs.mac {
                Some(m) => Some(m),
                None => old(self).primary_mac,
            }),
            final(self).primary_ip == (match obs.ip {
                Some(ip) => Some(ip),
                None => old(self).primary_ip,
            }),
            final(self).hostname == (match obs.hostname {
                Some(h) => Some(h),
                None => old(self).hostname,
            }),
            final(self).last_seen_at@ == now@,
            final(self).is_online,
            *final(self) == (Device {
                primary_mac: final(self).primary_mac,
                primary_ip: final(self).primary_ip,
                hostname: final(self).hostname,
                last_seen_at: final(self).last_seen_at,
                is_online: final(self).is_online,
                ..*old(self)
            }),
    {
        if obs.mac.is_some() {
            self.primary_mac = obs.mac;
        }
        if obs.ip.is_some() {
            self.primary_ip = obs.ip;
        }
        match &obs.hostname {
            Some(h) => {
                self.hostname = Some(h.clone());
            },
            None => {},
        }
        self.last_seen_at = now.to_string();
        self.is_online = true;
    }

    /// Offers a classification; see [`classify`] for which one is kept.
    pub fn apply_classification(&mut self, device_type: DeviceType, confidence: Confidence)
        ensures
            (final(self).device_type, final(self).confidence) == classify(
                old(self).device_type,
                old(self).confidence,
                device_type,
                confidence,
            ),
            *final(self) == (Device {
                device_type: final(self).device_type,
                confidence: final(self).confidence,
                ..*old(self)
            }),
    {
        if confidence.value >= self.confidence.value && device_type != DeviceType::Unknown {
            self.device_type = device_type;
            self.confidence = confidence;
        }
    }
}

/// An event of the timeline of changes between scans.
#[derive(Clone, Debug, PartialEq, Eq)]
pub struct Event {
    pub id: String,
    pub network_id: String,
    pub device_id: Option<String>,
    pub event_type: EventType,
    pub severity: Severity,
    pub message: Option<String>,
    pub data_json: Option<String>,
    pub created_at: String,
}

/// A port/service found on a device.
#[derive(Clone, Debug, PartialEq, Eq)]
pub struct Service {
    pub id: String,
    pub device_id: String,
    pub protocol: Protocol,
    pub port: u16,
    pub service_name: Option<String>,
    pub product: Option<String>,
    pub version: Option<String>,
    pub banner: Option<String>,
    pub state: ServiceState,
    pub first_seen_at: String,
    pub last_seen_at: String,
}

} // verus!
