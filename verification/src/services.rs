//! Listing services with filters: the SQL of the query, its bound values,
//! and the `LIKE` pattern of a service-name substring.

use vstd::prelude::*;

use crate::text::{chars_of, extend_chars, string_of};

verus! {

/// Filters of a service listing; all optional, combined with AND.
#[derive(Clone, Debug, Default, PartialEq, Eq)]
pub struct ServiceFilters {
    /// Exact device id.
    pub device_id: Option<String>,
    /// Exact port.
    pub port: Option<u16>,
    /// Exact protocol name (`tcp`/`udp`).
    pub protocol: Option<String>,
    /// Case-insensitive substring of the service name.
    pub service: Option<String>,
}

/// A value bound to a `?` of a query.
#[derive(Clone, Debug, PartialEq, Eq)]
pub enum SqlParam {
    Text(String),
    Int(i64),
}

/// `c` escaped for a `LIKE` pattern with escape character `\`: `%`, `_` and
/// `\` get a `\` in front.
pub open spec fn like_escape_char(c: char) -> Seq<char> {
    if c == '%' || c == '_' || c == '\\' {
        seq!['\\', c]
    } else {
        seq![c]
    }
}

/// `s` escaped for a `LIKE` pattern.
pub open spec fn like_escape(s: Seq<char>) -> Seq<char>
    decreases s.len(),
{
    if s.len() == 0 {
        seq![]
    } else {
        like_escape(s.drop_last()) + like_escape_char(s.last())
    }
}

/// The `LIKE` pattern matching any text that contains `s`.
pub open spec fn like_pattern_of(s: Seq<char>) -> Seq<char> {
    seq!['%'] + like_escape(s) + seq!['%']
}

/// Builds the substring `LIKE` pattern of `substring` (see [`like_pattern_of`]).
pub fn like_pattern(substring: &str) -> (r: String)
    ensures
        r@ == like_pattern_of(substring@),
{
    let s = chars_of(substring);
    let mut out: Vec<char> = Vec::new();
    out.push('%');
    let mut i: usize = 0;
    while i < s.len()
        invariant
            i <= s@.len(),
            out@ == seq!['%'] + like_escape(s@.subrange(0, i as int)),
        decreases s@.len() - i,
    {
        let c = s[i];
        if c == '%' || c == '_' || c == '\\' {
            out.push('\\');
        }
        out.push(c);
        proof {
            let t = s@.subrange(0, i + 1);
            assert(t.drop_last() =~= s@.subrange(0, i as int));
            assert(t.last() == c);
            assert(out@ =~= seq!['%'] + like_escape(t));
        }
        i = i + 1;
    }
    out.push('%');
    assert(s@.subrange(0, s@.len() as int) =~= s@);
    assert(out@ =~= like_pattern_of(substring@));
    string_of(&out)
}

/// The start of every service listing: services joined with their device.
pub open spec fn services_base_sql() -> Seq<char> {
    "SELECT s.device_id, d.primary_ip, d.display_name, s.protocol, s.port, s.service_name, s.product, s.version, s.banner, s.state, s.first_seen_at, s.last_seen_at FROM services s LEFT JOIN devices d ON d.id = s.device_id WHERE 1 = 1"@
}

/// The `AND` condition of the service-name filter.
pub open spec fn service_name_condition() -> Seq<char> {
    " AND LOWER(s.service_name) LIKE LOWER(?) ESCAPE '\\'"@
}

/// The SQL of a service listing: the base query, one `AND` condition per
/// filter given (device, port, protocol, service name, in that order), ordered
/// by device address and port.
pub open spec fn services_sql(f: ServiceFilters) -> Seq<char> {
    services_base_sql() + (if f.device_id is Some {
        " AND s.device_id = ?"@
    } else {
        seq![]
    }) + (if f.port is Some {
        " AND s.port = ?"@
    } else {
        seq![]
    }) + (if f.protocol is Some {
        " AND s.protocol = ?"@
    } else {
        seq![]
    }) + (if f.service is Some {
        service_name_condition()
    } else {
        seq![]
    }) + " ORDER BY d.primary_ip, s.port"@
}

/// The plain value of a bound parameter.
pub open spec fn param_view(p: SqlParam) -> (bool, Seq<char>, int) {
    match p {
        SqlParam::Text(s) => (true, s@, 0),
        SqlParam::Int(n) => (false, seq![], n as int),
    }
}

/// The values bound to a listing's `?`s, in order: the device id, the port,
/// the protocol and the `LIKE` pattern of the service name, each when given.
pub open spec fn services_params(f: ServiceFilters) -> Seq<(bool, Seq<char>, int)> {
    (if f.device_id is Some {
        seq![(true, f.device_id->0@, 0int)]
    } else {
        seq![]
    }) + (if f.port is Some {
        seq![(false, Seq::<char>::empty(), f.port->0 as int)]
    } else {
        seq![]
    }) + (if f.protocol is Some {
        seq![(true, f.protocol->0@, 0int)]
    } else {
        seq![]
    }) + (if f.service is Some {
        seq![(true, like_pattern_of(f.service->0@), 0int)]
    } else {
        seq![]
    })
}

/// The plain values of a list of parameters.
pub open spec fn params_view(v: Seq<SqlParam>) -> Seq<(bool, Seq<char>, int)> {
    v.map_values(|p: SqlParam| param_view(p))
}

/// The SQL and the bound values of a filtered service listing.
pub fn services_query(filters: &ServiceFilters) -> (r: (String, Vec<SqlParam>))
    ensures
        r.0@ == services_sql(*filters),
        params_view(r.1@) == services_params(*filters),
{
    let mut sql: Vec<char> = Vec::new();
    let mut params: Vec<SqlParam> = Vec::new();
    extend_chars(
        &mut sql,
        &chars_of(
            "SELECT s.device_id, d.primary_ip, d.display_name, s.protocol, s.port, s.service_name, s.product, s.version, s.banner, s.state, s.first_seen_at, s.last_seen_at FROM services s LEFT JOIN devices d ON d.id = s.device_id WHERE 1 = 1",
        ),
    );
    let ghost s0 = sql@;
    let ghost p0 = params@;
    match &filters.device_id {
        Some(d) => {
            extend_chars(&mut sql, &chars_of(" AND s.device_id = ?"));
            params.push(SqlParam::Text(d.clone()));
        },
        None => {},
    }
    let ghost s1 = sql@;
    let ghost p1 = params@;
    match filters.port {
        Some(p) => {
            extend_chars(&mut sql, &chars_of(" AND s.port = ?"));
            params.push(SqlParam::Int(p as i64));
        },
        None => {},
    }
    let ghost s2 = sql@;
    let ghost p2 = params@;
    match &filters.protocol {
        Some(p) => {
            extend_chars(&mut sql, &chars_of(" AND s.protocol = ?"));
            params.push(SqlParam::Text(p.clone()));
        },
        None => {},
    }
    let ghost s3 = sql@;
    let ghost p3 = params@;
    match &filters.service {
        Some(svc) => {
            extend_chars(&mut sql, &chars_of(" AND LOWER(s.service_name) LIKE LOWER(?) ESCAPE '\\'"));
            params.push(SqlParam::Text(like_pattern(svc.as_str())));
        },
        None => {},
    }
    extend_chars(&mut sql, &chars_of(" ORDER BY d.primary_ip, s.port"));
    proof {
        assert(sql@ =~= services_sql(*filters));
        assert(params_view(params@) =~= services_params(*filters));
    }
    (string_of(&sql), params)
}

} // verus!
