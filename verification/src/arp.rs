//! The kernel's ARP table (`/proc/net/arp`): parsing its text and turning its
//! complete entries into observations.

use vstd::prelude::*;

use crate::model::{
    ip_from_text, mac_from_text, parse_ip, sighting, IpAddr, MacAddr, Observation, Source,
};
use crate::text::{
    chars_eq, chars_of, contains, find_chars, lines, lines_of, lower, lower_chars, next_index_of,
    string_of, trim, trim_chars, views, words, words_of,
};

verus! {

/// One row of the ARP table.
#[derive(Clone, Debug, PartialEq, Eq)]
pub struct ArpEntry {
    /// The neighbour's address.
    pub ip: IpAddr,
    /// Its hardware address; `None` for an incomplete entry (`*` or all zeros).
    pub mac: Option<MacAddr>,
    /// The interface the entry was learnt on.
    pub device: String,
}

/// An entry as plain values: address, hardware address octets, interface.
pub type ArpRow = (IpAddr, Option<Seq<u8>>, Seq<char>);

/// The plain values of an entry.
pub open spec fn arp_row(e: ArpEntry) -> ArpRow {
    (
        e.ip,
        match e.mac {
            Some(m) => Some(m.bytes()),
            None => None,
        },
        e.device@,
    )
}

/// The plain values of a list of entries.
pub open spec fn arp_rows(v: Seq<ArpEntry>) -> Seq<ArpRow> {
    v.map_values(|e: ArpEntry| arp_row(e))
}

/// Six zero octets.
pub open spec fn all_zero(b: Seq<u8>) -> bool {
    b.len() == 6 && b[0] == 0 && b[1] == 0 && b[2] == 0 && b[3] == 0 && b[4] == 0 && b[5] == 0
}

/// The hardware-address field of a row: `Some(None)` for `*` or an all-zero
/// address (incomplete entry), `Some(Some(octets))` for a resolved address,
/// `None` when the field is not an address (malformed row).
pub open spec fn arp_mac_field(f: Seq<char>) -> Option<Option<Seq<u8>>> {
    if f == "*"@ {
        Some(None)
    } else {
        match mac_from_text(f) {
            Some(b) => if all_zero(b) {
                Some(None)
            } else {
                Some(Some(b))
            },
            None => None,
        }
    }
}

/// The entry a line of the table describes, if any. Blank lines, the header
/// (it holds `HW address`, in any ASCII case), lines of fewer than four
/// fields, lines whose first field is not an address or whose fourth is
/// neither `*` nor a MAC address, and lines whose last field is empty or holds
/// a `:` are skipped.
pub open spec fn arp_line(line: Seq<char>) -> Option<ArpRow> {
    let t = trim(line);
    if t.len() == 0 || contains(lower(t), "hw address"@) {
        None
    } else {
        let parts = words(t);
        if parts.len() < 4 {
            None
        } else {
            match ip_from_text(parts[0]) {
                None => None,
                Some(ip) => match arp_mac_field(parts[3]) {
                    None => None,
                    Some(mac) => {
                        let device = parts.last();
                        if device.len() == 0 || device.contains(':') {
                            None
                        } else {
                            Some((ip, mac, device))
                        }
                    },
                },
            }
        }
    }
}

/// The entries described by a list of lines, in order.
pub open spec fn arp_table(ls: Seq<Seq<char>>) -> Seq<ArpRow>
    decreases ls.len(),
{
    if ls.len() == 0 {
        seq![]
    } else {
        let before = arp_table(ls.drop_last());
        match arp_line(ls.last()) {
            Some(e) => before.push(e),
            None => before,
        }
    }
}

/// Executable [`arp_mac_field`].
fn parse_mac_field(f: &[char]) -> (r: Option<Option<MacAddr>>)
    ensures
        match r {
            None => arp_mac_field(f@) is None,
            Some(None) => arp_mac_field(f@) == Some(None::<Seq<u8>>),
            Some(Some(m)) => arp_mac_field(f@) == Some(Some(m.bytes())),
        },
{
    let star = chars_of("*");
    if chars_eq(f, &star) {
        return Some(None);
    }
    match MacAddr::parse_chars(f) {
        Some(m) => {
            if m.is_zero() {
                Some(None)
            } else {
                Some(Some(m))
            }
        },
        None => None,
    }
}

/// The entry on one line, if the line describes one.
fn parse_arp_line(line: &[char]) -> (r: Option<ArpEntry>)
    ensures
        match r {
            Some(e) => arp_line(line@) == Some(arp_row(e)),
            None => arp_line(line@) is None,
        },
{
    let t = trim_chars(line);
    if t.len() == 0 {
        return None;
    }
    let low = lower_chars(&t);
    let header = chars_of("hw address");
    if find_chars(&low, &header).is_some() {
        return None;
    }
    let parts = words_of(&t);
    if parts.len() < 4 {
        return None;
    }
    assert(views(parts@)[0] == parts@[0]@);
    assert(views(parts@)[3] == parts@[3]@);
    let ip = match parse_ip(&parts[0]) {
        Some(ip) => ip,
        None => return None,
    };
    let mac = match parse_mac_field(&parts[3]) {
        Some(m) => m,
        None => return None,
    };
    let last = parts.len() - 1;
    assert(views(parts@)[last as int] == parts@[last as int]@);
    let device = &parts[last];
    if device.len() == 0 {
        return None;
    }
    let colon = next_index_of(device, ':', 0);
    if colon < device.len() {
        assert(device@.contains(':'));
        return None;
    }
    let e = ArpEntry { ip, mac, device: string_of(device) };
    assert(arp_row(e) == arp_line(line@)->0);
    Some(e)
}

/// Parses the text of `/proc/net/arp` into its entries, in order; see
/// [`arp_line`] for which lines give one.
pub fn parse_arp_table(text: &str) -> (r: Vec<ArpEntry>)
    ensures
        arp_rows(r@) == arp_table(lines(text@)),
{
    let chars = chars_of(text);
    let ls = lines_of(&chars);
    let ghost all = views(ls@);
    let mut out: Vec<ArpEntry> = Vec::new();
    let mut i: usize = 0;
    while i < ls.len()
        invariant
            all == views(ls@),
            all == lines(text@),
            i <= ls@.len(),
            arp_rows(out@) == arp_table(all.subrange(0, i as int)),
        decreases ls@.len() - i,
    {
        assert(all.subrange(0, i + 1).drop_last() =~= all.subrange(0, i as int));
        assert(all.subrange(0, i + 1).last() == ls@[i as int]@);
        match parse_arp_line(&ls[i]) {
            Some(e) => {
                out.push(e);
                assert(arp_rows(out@) =~= arp_table(all.subrange(0, i as int)).push(arp_row(e)));
            },
            None => {},
        }
        i = i + 1;
    }
    assert(all.subrange(0, ls@.len() as int) =~= all);
    out
}

/// The `(address, hardware address)` of each complete entry, in order, of
/// those learnt on `iface` (all of them when `iface` is `None`).
pub open spec fn arp_sightings(v: Seq<ArpEntry>, iface: Option<Seq<char>>) -> Seq<(IpAddr, MacAddr)>
    decreases v.len(),
{
    if v.len() == 0 {
        seq![]
    } else {
        let before = arp_sightings(v.drop_last(), iface);
        let e = v.last();
        let on_iface = match iface {
            Some(name) => e.device@ == name,
            None => true,
        };
        match e.mac {
            Some(m) => if on_iface {
                before.push((e.ip, m))
            } else {
                before
            },
            None => before,
        }
    }
}

/// One [`Source::ArpCache`] observation (address and hardware address) per
/// complete entry learnt on `iface` (on any interface when `iface` is `None`),
/// in order. Incomplete entries are hosts that did not answer and give none.
pub fn arp_entries_to_observations(entries: &[ArpEntry], iface: Option<&str>) -> (r: Vec<Observation>)
    ensures
        r@.len() == arp_sightings(entries@, opt_chars(iface)).len(),
        forall|i: int|
            0 <= i < r@.len() ==> sighting(
                #[trigger] r@[i],
                Source::ArpCache,
                Some(arp_sightings(entries@, opt_chars(iface))[i].0),
                Some(arp_sightings(entries@, opt_chars(iface))[i].1),
            ),
{
    let name: Option<Vec<char>> = match iface {
        Some(n) => Some(chars_of(n)),
        None => None,
    };
    let ghost want = opt_chars(iface);
    let mut out: Vec<Observation> = Vec::new();
    let mut i: usize = 0;
    while i < entries.len()
        invariant
            i <= entries@.len(),
            want == opt_chars(iface),
            match name {
                Some(n) => want == Some(n@),
                None => want is None,
            },
            out@.len() == arp_sightings(entries@.subrange(0, i as int), want).len(),
            forall|k: int|
                0 <= k < out@.len() ==> sighting(
                    #[trigger] out@[k],
                    Source::ArpCache,
                    Some(arp_sightings(entries@.subrange(0, i as int), want)[k].0),
                    Some(arp_sightings(entries@.subrange(0, i as int), want)[k].1),
                ),
        decreases entries@.len() - i,
    {
        let ghost prev = entries@.subrange(0, i as int);
        let ghost next = entries@.subrange(0, i + 1);
        assert(next.drop_last() =~= prev);
        let e = &entries[i];
        let on_iface = match &name {
            Some(n) => {
                let d = chars_of(e.device.as_str());
                chars_eq(&d, n)
            },
            None => true,
        };
        match e.mac {
            Some(m) => {
                if on_iface {
                    let o = Observation::new(Source::ArpCache).with_ip(e.ip).with_mac(m);
                    out.push(o);
                }
            },
            None => {},
        }
        i = i + 1;
    }
    assert(entries@.subrange(0, entries@.len() as int) =~= entries@);
    out
}

/// The characters of an optional string.
pub open spec fn opt_chars(s: Option<&str>) -> Option<Seq<char>> {
    match s {
        Some(t) => Some(t@),
        None => None,
    }
}

} // verus!
