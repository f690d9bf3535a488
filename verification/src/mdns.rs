//! mDNS discovery bookkeeping: the service types met while enumerating, and
//! the observations a resolved service instance gives.

use vstd::prelude::*;

use crate::model::{hint_index, hint_pairs, hint_value, IpAddr, Observation, Source};
use crate::text::{chars_eq, chars_of, views};

verus! {

/// Most service types investigated in one discovery.
pub const MAX_SERVICE_TYPES: usize = 24;

/// The text of a list of strings.
pub open spec fn strings_view(v: Seq<String>) -> Seq<Seq<char>> {
    v.map_values(|s: String| s@)
}

/// Records a service type met during enumeration, once: `true` when it was
/// new (and has been added at the end), `false` when already known.
pub fn insert_service_type(types: &mut Vec<String>, name: String) -> (added: bool)
    ensures
        added == !strings_view(old(types)@).contains(name@),
        added ==> strings_view(final(types)@) == strings_view(old(types)@).push(name@),
        !added ==> final(types)@ == old(types)@,
{
    let want = chars_of(name.as_str());
    let mut i: usize = 0;
    while i < types.len()
        invariant
            want@ == name@,
            i <= types@.len(),
            forall|k: int| 0 <= k < i ==> types@[k]@ != name@,
        decreases types@.len() - i,
    {
        let have = chars_of(types[i].as_str());
        if chars_eq(&have, &want) {
            assert(strings_view(types@)[i as int] == name@);
            return false;
        }
        i = i + 1;
    }
    assert(!strings_view(types@).contains(name@)) by {
        if strings_view(types@).contains(name@) {
            let k = choose|k: int| 0 <= k < strings_view(types@).len() && strings_view(types@)[k] == name@;
            assert(types@[k]@ == name@);
        }
    }
    let ghost before = types@;
    types.push(name);
    assert(strings_view(types@) =~= strings_view(before).push(name@));
    true
}

/// Whether enumeration may look for more service types: fewer than
/// [`MAX_SERVICE_TYPES`] are known.
pub fn wants_more_types(types: &[String]) -> (r: bool)
    ensures
        r == (types@.len() < MAX_SERVICE_TYPES),
{
    types.len() < MAX_SERVICE_TYPES
}

/// `o` is the [`Source::Mdns`] observation of address `ip` of instance
/// `fullname` of service type `ty` on host `host` (no host name when `host`
/// is empty).
pub open spec fn mdns_sighting(
    o: Observation,
    ty: Seq<char>,
    fullname: Seq<char>,
    host: Seq<char>,
    ip: IpAddr,
) -> bool {
    &&& o.source == Source::Mdns
    &&& o.ip == Some(ip)
    &&& o.mac is None
    &&& (if host.len() == 0 {
        o.hostname is None
    } else {
        o.hostname matches Some(h) && h@ == host
    })
    &&& hint_value(o, "mdns.service"@) == Some(ty)
    &&& hint_value(o, "mdns.instance"@) == Some(fullname)
}

/// Appends one observation per address of a resolved service (see
/// [`mdns_sighting`]).
pub fn push_resolved(
    out: &mut Vec<Observation>,
    ty: &str,
    fullname: &str,
    host: &str,
    addresses: &[IpAddr],
)
    ensures
        final(out)@.len() == old(out)@.len() + addresses@.len(),
        forall|i: int| 0 <= i < old(out)@.len() ==> final(out)@[i] == old(out)@[i],
        forall|i: int|
            0 <= i < addresses@.len() ==> mdns_sighting(
                #[trigger] final(out)@[old(out)@.len() + i],
                ty@,
                fullname@,
                host@,
                addresses@[i],
            ),
{
    proof {
        reveal_strlit("mdns.service");
        reveal_strlit("mdns.instance");
        assert("mdns.service"@ != "mdns.instance"@) by {
            assert("mdns.service"@[5] != "mdns.instance"@[5]);
        }
    }
    let ghost start = out@;
    let mut i: usize = 0;
    while i < addresses.len()
        invariant
            i <= addresses@.len(),
            out@.len() == start.len() + i,
            start == old(out)@,
            "mdns.service"@ != "mdns.instance"@,
            forall|k: int| 0 <= k < start.len() ==> out@[k] == start[k],
            forall|k: int|
                0 <= k < i ==> mdns_sighting(
                    #[trigger] out@[start.len() + k],
                    ty@,
                    fullname@,
                    host@,
                    addresses@[k],
                ),
        decreases addresses@.len() - i,
    {
        let base = Observation::new(Source::Mdns).with_ip(addresses[i]);
        assert(hint_pairs(base).len() == 0);
        assert(hint_index(hint_pairs(base), "mdns.service"@) is None);
        let o1 = base.with_hint("mdns.service".to_string(), ty.to_string());
        let o2 = o1.with_hint("mdns.instance".to_string(), fullname.to_string());
        let obs = if host.is_empty() {
            o2
        } else {
            o2.with_hostname(host.to_string())
        };
        assert(hint_value(o2, "mdns.service"@) == Some(ty@));
        assert(hint_value(obs, "mdns.service"@) == Some(ty@));
        assert(hint_value(obs, "mdns.instance"@) == Some(fullname@));
        assert(mdns_sighting(obs, ty@, fullname@, host@, addresses@[i as int]));
        let ghost prev = out@;
        out.push(obs);
        assert(out@[start.len() + i] == obs);
        assert forall|k: int| 0 <= k < i + 1 implies mdns_sighting(
            #[trigger] out@[start.len() + k],
            ty@,
            fullname@,
            host@,
            addresses@[k],
        ) by {
            if k < i {
                assert(out@[start.len() + k] == prev[start.len() + k]);
            }
        }
        i = i + 1;
    }
}

} // verus!
