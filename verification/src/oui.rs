//! Vendor lookup by the 24-bit OUI prefix of a MAC address.
//!
//! The IEEE OUI snapshot is a CSV file with header `mac_prefix,vendor` whose
//! prefixes are hex digits (`aabbcc`, any case, separators ignored). A row
//! whose prefix has exactly six hex digits and whose vendor is not blank maps
//! that prefix to the trimmed vendor name; other rows are skipped, and a later
//! row for the same prefix replaces an earlier one.

use std::collections::HashMap;

use vstd::prelude::*;

use crate::errors::FingerprintError;
use crate::model::{MacAddr, hex_digit, hex_value, hex_value_of, hex_digit_of};
use crate::text::{chars_of, string_of, trim, trim_chars};

verus! {

broadcast use vstd::std_specs::hash::group_hash_axioms;

/// Map from OUI prefix (24-bit number) to vendor name.
#[derive(Clone, Debug, Default)]
pub struct OuiDatabase {
    vendors: HashMap<u32, String>,
}

/// The hex digits of `s`, lower-cased, with every other character dropped.
pub open spec fn hex_only(s: Seq<char>) -> Seq<char>
    decreases s.len(),
{
    if s.len() == 0 {
        s
    } else {
        let rest = hex_only(s.drop_last());
        match hex_value(s.last()) {
            Some(d) => rest.push(hex_digit(d)),
            None => rest,
        }
    }
}

/// A prefix normalised as the loader does: trimmed, hex digits only, lower case.
pub open spec fn normalized_prefix(raw: Seq<char>) -> Seq<char> {
    hex_only(trim(raw))
}

/// The number written by a run of hex digits.
pub open spec fn hex_number(s: Seq<char>) -> nat
    decreases s.len(),
{
    if s.len() == 0 {
        0
    } else {
        hex_number(s.drop_last()) * 16 + match hex_value(s.last()) {
            Some(d) => d,
            None => 0,
        }
    }
}

/// One CSV record as text fields, or `None` for a record the reader rejected.
pub open spec fn record_view(r: Option<Vec<String>>) -> Option<Seq<Seq<char>>> {
    match r {
        Some(fields) => Some(fields@.map_values(|f: String| f@)),
        None => None,
    }
}

/// The records as text fields.
pub open spec fn records_view(rs: Seq<Option<Vec<String>>>) -> Seq<Option<Seq<Seq<char>>>> {
    rs.map_values(|r: Option<Vec<String>>| record_view(r))
}

/// The entry a record contributes, if any: `(prefix, vendor)`.
pub open spec fn record_entry(r: Option<Seq<Seq<char>>>) -> Option<(u32, Seq<char>)> {
    match r {
        Some(f) => if f.len() >= 2 && normalized_prefix(f[0]).len() == 6 && trim(f[1]).len()
            > 0 {
            Some((hex_number(normalized_prefix(f[0])) as u32, trim(f[1])))
        } else {
            None
        },
        None => None,
    }
}

/// The vendor map built from the first `n` records.
pub open spec fn vendor_map(rs: Seq<Option<Seq<Seq<char>>>>, n: int) -> Map<u32, Seq<char>>
    decreases n,
{
    if n <= 0 {
        Map::empty()
    } else {
        let m = vendor_map(rs, n - 1);
        match record_entry(rs[n - 1]) {
            Some((k, v)) => m.insert(k, v),
            None => m,
        }
    }
}

/// What the `csv` reader yields for `data` read with a header row and
/// records of any length: each record after the header as its fields, or
/// `None` where the reader reported an error for that record.
pub uninterp spec fn csv_records(data: Seq<u8>) -> Seq<Option<Seq<Seq<char>>>>;

/// Reads `data` with `csv::ReaderBuilder` (header row, flexible record
/// lengths) and returns every record it yields, converting each to its fields
/// or, for an erroneous record, to `None`. The records are named by
/// [`csv_records`], a function of the bytes alone.
#[verifier::external_body]
fn read_csv_records(data: &[u8]) -> (r: Vec<Option<Vec<String>>>)
    ensures
        records_view(r@) == csv_records(data@),
{
    let mut rdr = csv::ReaderBuilder::new().has_headers(true).flexible(true).from_reader(data);
    rdr.records().map(|rec| rec.ok().map(|row| row.iter().map(String::from).collect())).collect()
}

/// Normalises an OUI prefix: trims it and keeps its hex digits, lower-cased.
pub fn normalize_prefix(raw: &str) -> (r: String)
    ensures
        r@ == normalized_prefix(raw@),
{
    let c = chars_of(raw);
    let t = trim_chars(&c);
    let mut out: Vec<char> = Vec::new();
    let mut i: usize = 0;
    while i < t.len()
        invariant
            i <= t@.len(),
            out@ == hex_only(t@.subrange(0, i as int)),
        decreases t@.len() - i,
    {
        assert(t@.subrange(0, i + 1).drop_last() =~= t@.subrange(0, i as int));
        match hex_value_of(t[i]) {
            Some(d) => out.push(hex_digit_of(d)),
            None => {},
        }
        i = i + 1;
    }
    assert(t@.subrange(0, t@.len() as int) =~= t@);
    string_of(&out)
}

/// The 24-bit number written by six hex digits.
fn prefix_number(p: &[char]) -> (r: u32)
    requires
        p@.len() == 6,
        forall|k: int| 0 <= k < 6 ==> hex_value(#[trigger] p@[k]) is Some,
    ensures
        r == hex_number(p@) as u32,
        r < 16777216,
{
    let mut v: u32 = 0;
    let mut i: usize = 0;
    while i < 6
        invariant
            p@.len() == 6,
            forall|k: int| 0 <= k < 6 ==> hex_value(#[trigger] p@[k]) is Some,
            i <= 6,
            v == hex_number(p@.subrange(0, i as int)),
            v < if i == 0 { 1u32 } else if i == 1 { 16u32 } else if i == 2 { 256u32 } else if i
                == 3 { 4096u32 } else if i == 4 { 65536u32 } else if i == 5 { 1048576u32 } else {
                16777216u32 },
        decreases 6 - i,
    {
        assert(p@.subrange(0, i + 1).drop_last() =~= p@.subrange(0, i as int));
        let d = match hex_value_of(p[i]) {
            Some(d) => d,
            None => 0,
        };
        v = v * 16 + d as u32;
        i = i + 1;
    }
    assert(p@.subrange(0, 6) =~= p@);
    v
}

/// Every character kept by `hex_only` is a hex digit.
proof fn lemma_hex_only_digits(s: Seq<char>)
    ensures
        forall|k: int| 0 <= k < hex_only(s).len() ==> hex_value(#[trigger] hex_only(s)[k]) is Some,
    decreases s.len(),
{
    if s.len() > 0 {
        lemma_hex_only_digits(s.drop_last());
    }
}

impl OuiDatabase {
    /// The vendor map: OUI prefix → vendor name.
    pub closed spec fn spec_map(&self) -> Map<u32, Seq<char>> {
        self.vendors@.map_values(|v: String| v@)
    }

    /// An empty database.
    pub fn new() -> (db: OuiDatabase)
        ensures
            db.spec_map() == Map::<u32, Seq<char>>::empty(),
    {
        let db = OuiDatabase { vendors: HashMap::new() };
        assert(db.spec_map() =~= Map::<u32, Seq<char>>::empty());
        db
    }

    /// Builds the database from CSV records (header already consumed), as
    /// [`OuiDatabase::load_csv`] does with what the reader yields.
    pub fn from_records(records: &[Option<Vec<String>>]) -> (db: OuiDatabase)
        ensures
            db.spec_map() == vendor_map(records_view(records@), records@.len() as int),
    {
        let ghost rs = records_view(records@);
        let mut vendors: HashMap<u32, String> = HashMap::new();
        let mut i: usize = 0;
        assert(vendors@.map_values(|v: String| v@) =~= vendor_map(rs, 0));
        while i < records.len()
            invariant
                rs == records_view(records@),
                i <= records@.len(),
                vendors@.map_values(|v: String| v@) == vendor_map(rs, i as int),
            decreases records@.len() - i,
        {
            assert(rs[i as int] == record_view(records@[i as int]));
            match &records[i] {
                Some(row) => {
                    if row.len() >= 2 {
                        assert(rs[i as int]->0[0] == row@[0]@);
                        assert(rs[i as int]->0[1] == row@[1]@);
                        let prefix = normalize_prefix(row[0].as_str());
                        let vc = chars_of(row[1].as_str());
                        let vendor = trim_chars(&vc);
                        let pc = chars_of(prefix.as_str());
                        if pc.len() == 6 && vendor.len() > 0 {
                            proof {
                                lemma_hex_only_digits(trim(row@[0]@));
                            }
                            let key = prefix_number(&pc);
                            let ghost before = vendors@;
                            vendors.insert(key, string_of(&vendor));
                            assert(vendors@.map_values(|v: String| v@) =~= before.map_values(
                                |v: String| v@,
                            ).insert(key, vendor@));
                        }
                    }
                },
                None => {},
            }
            i = i + 1;
        }
        OuiDatabase { vendors }
    }

    /// Loads the database from the bytes of a CSV file with header
    /// `mac_prefix,vendor`. Malformed rows are skipped, so loading succeeds.
    pub fn load_csv(data: &[u8]) -> (r: Result<OuiDatabase, FingerprintError>)
        ensures
            r matches Ok(db) && db.spec_map() == vendor_map(
                csv_records(data@),
                csv_records(data@).len() as int,
            ),
    {
        let records = read_csv_records(data);
        Ok(OuiDatabase::from_records(&records))
    }

    /// Number of prefixes known.
    pub fn len(&self) -> (n: usize)
        ensures
            n == self.spec_map().len(),
    {
        assert(self.spec_map().dom() =~= self.vendors@.dom());
        self.vendors.len()
    }

    /// `true` when no prefix is known.
    pub fn is_empty(&self) -> (r: bool)
        ensures
            r == (self.spec_map().len() == 0),
    {
        assert(self.spec_map().dom() =~= self.vendors@.dom());
        self.vendors.len() == 0
    }

    /// The vendor of the OUI prefix of `mac`, if known.
    pub fn vendor_for(&self, mac: &MacAddr) -> (r: Option<&str>)
        ensures
            match r {
                Some(v) => self.spec_map().contains_key(mac.spec_oui()) && self.spec_map()[mac.spec_oui()] == v@,
                None => !self.spec_map().contains_key(mac.spec_oui()),
            },
    {
        let key = mac.oui();
        match self.vendors.get(&key) {
            Some(v) => Some(v.as_str()),
            None => None,
        }
    }
}

} // verus!
