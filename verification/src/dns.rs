//! DNS diagnostics: which records a `dns` command asks for, which resolved
//! addresses it keeps, and the records it reports.

use vstd::prelude::*;

use crate::errors::DiscoveryError;
use crate::model::IpAddr;
use crate::text::{chars_of, extend_chars, string_of, trim, trim_chars, upper, upper_chars};
use crate::codec::is_text;

verus! {

/// A resolved DNS record.
#[derive(Clone, Debug, PartialEq, Eq)]
pub struct DnsRecord {
    pub name: String,
    pub record_type: String,
    pub value: String,
    pub ttl: u32,
}

/// The records a lookup asks for.
#[derive(Clone, Copy, Debug, PartialEq, Eq, Structural)]
pub enum DnsQuery {
    /// A and AAAA together (the default).
    Dual,
    A,
    Aaaa,
    Mx,
    Txt,
    Ptr,
}

/// The query a record-type argument names, after trimming and ASCII
/// upper-casing: empty, `A+AAAA` or `ANY` for both address types, or one of
/// `A`, `AAAA`, `MX`, `TXT`, `PTR`.
pub open spec fn query_named(rt: Seq<char>) -> Option<DnsQuery> {
    if rt.len() == 0 || rt == "A+AAAA"@ || rt == "ANY"@ {
        Some(DnsQuery::Dual)
    } else if rt == "A"@ {
        Some(DnsQuery::A)
    } else if rt == "AAAA"@ {
        Some(DnsQuery::Aaaa)
    } else if rt == "MX"@ {
        Some(DnsQuery::Mx)
    } else if rt == "TXT"@ {
        Some(DnsQuery::Txt)
    } else if rt == "PTR"@ {
        Some(DnsQuery::Ptr)
    } else {
        None
    }
}

/// The message of an unsupported record type `rt`.
pub open spec fn unsupported_message(rt: Seq<char>) -> Seq<char> {
    "tipo de registro no soportado: '"@ + rt + "' (usar A|AAAA|PTR|MX|TXT)"@
}

/// Reads the record-type argument of a lookup (see [`query_named`]); an
/// unsupported type is a `Dns` error naming it.
pub fn parse_record_type(record_type: &str) -> (r: Result<DnsQuery, DiscoveryError>)
    ensures
        match query_named(upper(trim(record_type@))) {
            Some(q) => r == Ok::<DnsQuery, DiscoveryError>(q),
            None => r matches Err(DiscoveryError::Dns(m)) && m@ == unsupported_message(
                upper(trim(record_type@)),
            ),
        },
{
    let t = trim_chars(&chars_of(record_type));
    let rt = upper_chars(&t);
    if rt.len() == 0 || is_text(&rt, "A+AAAA") || is_text(&rt, "ANY") {
        return Ok(DnsQuery::Dual);
    }
    if is_text(&rt, "A") {
        return Ok(DnsQuery::A);
    }
    if is_text(&rt, "AAAA") {
        return Ok(DnsQuery::Aaaa);
    }
    if is_text(&rt, "MX") {
        return Ok(DnsQuery::Mx);
    }
    if is_text(&rt, "TXT") {
        return Ok(DnsQuery::Txt);
    }
    if is_text(&rt, "PTR") {
        return Ok(DnsQuery::Ptr);
    }
    let mut m: Vec<char> = Vec::new();
    extend_chars(&mut m, &chars_of("tipo de registro no soportado: '"));
    extend_chars(&mut m, &rt);
    extend_chars(&mut m, &chars_of("' (usar A|AAAA|PTR|MX|TXT)"));
    assert(m@ =~= unsupported_message(rt@));
    Err(DiscoveryError::Dns(string_of(&m)))
}

/// Whether a resolved address is kept: only IPv4 with `ipv4_only` alone,
/// only IPv6 with `ipv6_only` alone, all otherwise.
pub open spec fn family_kept(ip: IpAddr, ipv4_only: bool, ipv6_only: bool) -> bool {
    if ipv4_only && !ipv6_only {
        ip is V4
    } else if ipv6_only && !ipv4_only {
        ip is V6
    } else {
        true
    }
}

/// The addresses of `v` kept by the family filter, in order.
pub open spec fn kept_family(v: Seq<IpAddr>, ipv4_only: bool, ipv6_only: bool) -> Seq<IpAddr> {
    v.filter(|ip: IpAddr| family_kept(ip, ipv4_only, ipv6_only))
}

/// Keeps the resolved addresses of the requested family (see
/// [`family_kept`]), in order.
pub fn filter_family(ips: &[IpAddr], ipv4_only: bool, ipv6_only: bool) -> (r: Vec<IpAddr>)
    ensures
        r@ == kept_family(ips@, ipv4_only, ipv6_only),
{
    let mut r: Vec<IpAddr> = Vec::new();
    let mut i: usize = 0;
    while i < ips.len()
        invariant
            i <= ips@.len(),
            r@ == kept_family(ips@.subrange(0, i as int), ipv4_only, ipv6_only),
        decreases ips@.len() - i,
    {
        let ip = ips[i];
        let keep = if ipv4_only && !ipv6_only {
            match ip {
                IpAddr::V4(_) => true,
                IpAddr::V6(_) => false,
            }
        } else if ipv6_only && !ipv4_only {
            match ip {
                IpAddr::V4(_) => false,
                IpAddr::V6(_) => true,
            }
        } else {
            true
        };
        proof {
            let s = ips@.subrange(0, i + 1);
            assert(s.drop_last() =~= ips@.subrange(0, i as int));
            assert(s.last() == ip);
            reveal(Seq::filter);
        }
        if keep {
            r.push(ip);
        }
        i = i + 1;
    }
    assert(ips@.subrange(0, ips@.len() as int) =~= ips@);
    r
}

/// `s` without its trailing dots (`str::trim_end_matches('.')`).
pub open spec fn without_trailing_dots(s: Seq<char>) -> Seq<char>
    decreases s.len(),
{
    if s.len() > 0 && s.last() == '.' {
        without_trailing_dots(s.drop_last())
    } else {
        s
    }
}

/// A host name as reported: without the trailing dots of its absolute form.
pub fn trim_trailing_dots(s: &str) -> (r: String)
    ensures
        r@ == without_trailing_dots(s@),
{
    let c = chars_of(s);
    let mut n = c.len();
    assert(c@.subrange(0, c@.len() as int) =~= c@);
    while n > 0 && c[n - 1] == '.'
        invariant
            n <= c@.len(),
            without_trailing_dots(c@) == without_trailing_dots(c@.subrange(0, n as int)),
        decreases n,
    {
        assert(c@.subrange(0, n as int).drop_last() =~= c@.subrange(0, n - 1));
        n = n - 1;
    }
    let mut out: Vec<char> = Vec::new();
    let mut i: usize = 0;
    while i < n
        invariant
            i <= n <= c@.len(),
            out@ == c@.subrange(0, i as int),
        decreases n - i,
    {
        out.push(c[i]);
        i = i + 1;
        assert(out@ =~= c@.subrange(0, i as int));
    }
    assert(without_trailing_dots(c@.subrange(0, n as int)) == c@.subrange(0, n as int));
    string_of(&out)
}

/// One record per answer that has a reportable value, in order, named `name`
/// and typed `label`.
pub fn records_from(name: &str, label: &str, answers: Vec<(Option<String>, u32)>) -> (r: Vec<
    DnsRecord,
>)
    ensures
        r@.len() <= answers@.len(),
        forall|i: int|
            0 <= i < r@.len() ==> (#[trigger] r@[i]).name@ == name@ && r@[i].record_type@ == label@,
        r@.map_values(|d: DnsRecord| (d.value@, d.ttl)) == answers@.filter(
            |a: (Option<String>, u32)| a.0 is Some,
        ).map_values(|a: (Option<String>, u32)| (a.0->0@, a.1)),
{
    let mut r: Vec<DnsRecord> = Vec::new();
    let mut i: usize = 0;
    while i < answers.len()
        invariant
            i <= answers@.len(),
            r@.len() <= i,
            forall|k: int|
                0 <= k < r@.len() ==> (#[trigger] r@[k]).name@ == name@ && r@[k].record_type@
                    == label@,
            r@.map_values(|d: DnsRecord| (d.value@, d.ttl)) == answers@.subrange(0, i as int).filter(
                |a: (Option<String>, u32)| a.0 is Some,
            ).map_values(|a: (Option<String>, u32)| (a.0->0@, a.1)),
        decreases answers@.len() - i,
    {
        proof {
            let s = answers@.subrange(0, i + 1);
            assert(s.drop_last() =~= answers@.subrange(0, i as int));
            assert(s.last() == answers@[i as int]);
            reveal(Seq::filter);
        }
        let ghost before = r@;
        match &answers[i].0 {
            Some(v) => {
                r.push(
                    DnsRecord {
                        name: name.to_string(),
                        record_type: label.to_string(),
                        value: v.clone(),
                        ttl: answers[i].1,
                    },
                );
                assert(r@.map_values(|d: DnsRecord| (d.value@, d.ttl)) =~= before.map_values(
                    |d: DnsRecord| (d.value@, d.ttl),
                ).push((v@, answers@[i as int].1)));
            },
            None => {},
        }
        i = i + 1;
    }
    assert(answers@.subrange(0, answers@.len() as int) =~= answers@);
    r
}

} // verus!
