//! Folding the raw sightings of all discovery techniques into one record per
//! host, keyed by stable identity: the MAC address first, the IP address
//! otherwise. Sightings with neither are dropped.

use vstd::prelude::*;

use crate::devices::first_some;
use crate::fingerprint::opt_view;
use crate::model::{
    find_hint, hint_index, hint_pairs, hint_value, hints_distinct, lemma_hint_index, lemma_hint_index_is, IpAddr,
    MacAddr, Observation, Source,
};
use crate::text::{chars_of, clone_opt};

verus! {

/// The hints of an observation as a map from key to value.
pub open spec fn hint_map(o: Observation) -> Map<Seq<char>, Seq<char>> {
    Map::new(|k: Seq<char>| hint_value(o, k) is Some, |k: Seq<char>| hint_value(o, k)->0)
}

/// A host record as plain values: source of its first sighting, addresses,
/// host name and hints.
pub type HostView = (
    Source,
    Option<IpAddr>,
    Option<MacAddr>,
    Option<Seq<char>>,
    Map<Seq<char>, Seq<char>>,
);

/// The plain values of an observation.
pub open spec fn host_view(o: Observation) -> HostView {
    (o.source, o.ip, o.mac, opt_view(o.hostname), hint_map(o))
}

/// The plain values of a list of observations.
pub open spec fn host_views(v: Seq<Observation>) -> Seq<HostView> {
    v.map_values(|o: Observation| host_view(o))
}

/// A host record folded with a further sighting of the same host: what the
/// record knows stays, what it lacks the sighting fills in (hints included).
pub open spec fn merge_view(h: HostView, o: HostView) -> HostView {
    (h.0, first_some(h.1, o.1), first_some(h.2, o.2), first_some(h.3, o.3), o.4.union_prefer_right(h.4))
}

/// A sighting identifies a host when it has an IP or a MAC address.
pub open spec fn has_identity(o: HostView) -> bool {
    o.1 is Some || o.2 is Some
}

/// Index of the first record of `hs` at or after `i` satisfying `f`.
pub open spec fn first_index(hs: Seq<HostView>, f: spec_fn(HostView) -> bool, i: int) -> Option<int>
    decreases hs.len() - i,
{
    if i < 0 || i >= hs.len() {
        None
    } else if f(hs[i]) {
        Some(i)
    } else {
        first_index(hs, f, i + 1)
    }
}

/// The record a sighting belongs to: with a MAC address, the first record of
/// that MAC address, else the first record of its IP address that has no MAC
/// address yet; without one, the first record of its IP address.
pub open spec fn host_for(hs: Seq<HostView>, o: HostView) -> Option<int> {
    match o.2 {
        Some(m) => match first_index(hs, |h: HostView| h.2 == Some(m), 0) {
            Some(i) => Some(i),
            None => match o.1 {
                Some(ip) => first_index(hs, |h: HostView| h.1 == Some(ip) && h.2 is None, 0),
                None => None,
            },
        },
        None => match o.1 {
            Some(ip) => first_index(hs, |h: HostView| h.1 == Some(ip), 0),
            None => None,
        },
    }
}

/// The host records of a list of sightings, in order of first sighting.
pub open spec fn aggregate_views(obs: Seq<Observation>) -> Seq<HostView>
    decreases obs.len(),
{
    if obs.len() == 0 {
        seq![]
    } else {
        let hs = aggregate_views(obs.drop_last());
        let o = host_view(obs.last());
        if !has_identity(o) {
            hs
        } else {
            match host_for(hs, o) {
                Some(i) => hs.update(i, merge_view(hs[i], o)),
                None => hs.push(o),
            }
        }
    }
}

/// What `first_index` returns.
proof fn lemma_first_index(hs: Seq<HostView>, f: spec_fn(HostView) -> bool, i: int)
    requires
        0 <= i,
    ensures
        first_index(hs, f, i) matches Some(k) ==> i <= k < hs.len() && f(hs[k]) && forall|j: int|
            i <= j < k ==> !f(#[trigger] hs[j]),
        first_index(hs, f, i) is None ==> forall|j: int| i <= j < hs.len() ==> !f(#[trigger] hs[j]),
    decreases hs.len() - i,
{
    if i < hs.len() && !f(hs[i]) {
        lemma_first_index(hs, f, i + 1);
    }
}

/// `first_index` is the least index satisfying `f`.
proof fn lemma_first_index_is(hs: Seq<HostView>, f: spec_fn(HostView) -> bool, r: Option<int>)
    requires
        r matches Some(k) ==> 0 <= k < hs.len() && f(hs[k]) && forall|j: int|
            0 <= j < k ==> !f(#[trigger] hs[j]),
        r is None ==> forall|j: int| 0 <= j < hs.len() ==> !f(#[trigger] hs[j]),
    ensures
        first_index(hs, f, 0) == r,
{
    lemma_first_index(hs, f, 0);
    match first_index(hs, f, 0) {
        Some(a) => {
            match r {
                Some(b) => {
                    if a < b {
                        assert(!f(hs[a]));
                    } else if b < a {
                        assert(!f(hs[b]));
                    }
                },
                None => {
                    assert(!f(hs[a]));
                },
            }
        },
        None => {
            match r {
                Some(b) => {
                    assert(!f(hs[b]));
                },
                None => {},
            }
        },
    }
}

/// The value of hint `k` among the first `j` hints of `o`.
pub open spec fn prefix_hint(o: Observation, j: int, k: Seq<char>) -> Option<Seq<char>> {
    match hint_index(hint_pairs(o).subrange(0, j), k) {
        Some(i) => Some(hint_pairs(o)[i].1),
        None => None,
    }
}

/// One more hint of the prefix: the earlier value of a key stays.
proof fn lemma_prefix_hint_step(o: Observation, j: int, k: Seq<char>)
    requires
        0 <= j < o.hints@.len(),
    ensures
        prefix_hint(o, j + 1, k) == first_some(
            prefix_hint(o, j, k),
            if hint_pairs(o)[j].0 == k {
                Some(hint_pairs(o)[j].1)
            } else {
                None
            },
        ),
{
    let p = hint_pairs(o);
    let a = p.subrange(0, j);
    let b = p.subrange(0, j + 1);
    lemma_hint_index(a, k);
    match hint_index(a, k) {
        Some(i) => {
            lemma_hint_index_is(b, k, Some(i));
        },
        None => {
            if p[j].0 == k {
                lemma_hint_index_is(b, k, Some(j));
            } else {
                lemma_hint_index_is(b, k, None);
            }
        },
    }
}

/// Folds a further sighting `o` of the same host into record `h` (see
/// [`merge_view`]).
pub fn merge_host(h: Observation, o: &Observation) -> (r: Observation)
    ensures
        host_view(r) == merge_view(host_view(h), host_view(*o)),
        hints_distinct(h) ==> hints_distinct(r),
        forall|k: Seq<char>| hint_value(h, k) is Some ==> #[trigger] hint_value(r, k) == hint_value(h, k),
        forall|k: Seq<char>| hint_value(h, k) is None ==> #[trigger] hint_value(r, k) == hint_value(*o, k),
{
    let mut r = h;
    if r.ip.is_none() {
        r.ip = o.ip;
    }
    if r.mac.is_none() {
        r.mac = o.mac;
    }
    if r.hostname.is_none() {
        r.hostname = clone_opt(&o.hostname);
    }
    let ghost base = r;
    let ghost p = hint_pairs(*o);
    let mut j: usize = 0;
    while j < o.hints.len()
        invariant
            j <= o.hints@.len(),
            p == hint_pairs(*o),
            r.source == base.source,
            r.ip == base.ip,
            r.mac == base.mac,
            r.hostname == base.hostname,
            hints_distinct(h) ==> hints_distinct(r),
            forall|k: Seq<char>|
                #[trigger] hint_value(r, k) == first_some(hint_value(h, k), prefix_hint(*o, j as int, k)),
        decreases o.hints@.len() - j,
    {
        let key = o.hints[j].0.clone();
        let value = o.hints[j].1.clone();
        let kc = chars_of(key.as_str());
        let ghost before = r;
        proof {
            assert(p[j as int] == (o.hints@[j as int].0@, o.hints@[j as int].1@));
            assert forall|k: Seq<char>| #[trigger] prefix_hint(*o, j + 1, k) == first_some(
                prefix_hint(*o, j as int, k),
                if p[j as int].0 == k {
                    Some(p[j as int].1)
                } else {
                    None
                },
            ) by {
                lemma_prefix_hint_step(*o, j as int, k);
            }
        }
        match find_hint(&r, &kc) {
            Some(_) => {},
            None => {
                r = r.with_hint(key, value);
            },
        }
        j = j + 1;
    }
    proof {
        assert(p.subrange(0, p.len() as int) =~= p);
        assert(p.len() == o.hints@.len());
        assert forall|k: Seq<char>| prefix_hint(*o, o.hints@.len() as int, k) == hint_value(*o, k) by {}
        assert(hint_map(r) =~= hint_map(*o).union_prefer_right(hint_map(h)));
        assert(opt_view(r.hostname) == first_some(opt_view(h.hostname), opt_view(o.hostname)));
    }
    r
}

/// Index of the first record with MAC address `m`.
fn find_mac(hs: &Vec<Observation>, m: &MacAddr) -> (r: Option<usize>)
    ensures
        match r {
            Some(i) => first_index(host_views(hs@), |h: HostView| h.2 == Some(*m), 0) == Some(
                i as int,
            ) && i < hs@.len(),
            None => first_index(host_views(hs@), |h: HostView| h.2 == Some(*m), 0) is None,
        },
{
    let ghost f = |h: HostView| h.2 == Some(*m);
    let ghost v = host_views(hs@);
    let mut i: usize = 0;
    while i < hs.len()
        invariant
            i <= hs@.len(),
            v == host_views(hs@),
            f == (|h: HostView| h.2 == Some(*m)),
            forall|j: int| 0 <= j < i ==> !f(#[trigger] v[j]),
        decreases hs@.len() - i,
    {
        let same = match hs[i].mac {
            Some(x) => x.same_as(m),
            None => false,
        };
        if same {
            proof {
                lemma_first_index_is(v, f, Some(i as int));
            }
            return Some(i);
        }
        i = i + 1;
    }
    proof {
        lemma_first_index_is(v, f, None);
    }
    None
}

/// Index of the first record with IP address `ip` (and no MAC address, when
/// `only_without_mac`).
fn find_ip(hs: &Vec<Observation>, ip: IpAddr, only_without_mac: bool) -> (r: Option<usize>)
    ensures
        only_without_mac ==> match r {
            Some(i) => first_index(
                host_views(hs@),
                |h: HostView| h.1 == Some(ip) && h.2 is None,
                0,
            ) == Some(i as int) && i < hs@.len(),
            None => first_index(host_views(hs@), |h: HostView| h.1 == Some(ip) && h.2 is None, 0)
                is None,
        },
        !only_without_mac ==> match r {
            Some(i) => first_index(host_views(hs@), |h: HostView| h.1 == Some(ip), 0) == Some(
                i as int,
            ) && i < hs@.len(),
            None => first_index(host_views(hs@), |h: HostView| h.1 == Some(ip), 0) is None,
        },
{
    let ghost f = if only_without_mac {
        |h: HostView| h.1 == Some(ip) && h.2 is None
    } else {
        |h: HostView| h.1 == Some(ip)
    };
    let ghost v = host_views(hs@);
    let mut i: usize = 0;
    while i < hs.len()
        invariant
            i <= hs@.len(),
            v == host_views(hs@),
            f == (if only_without_mac {
                |h: HostView| h.1 == Some(ip) && h.2 is None
            } else {
                |h: HostView| h.1 == Some(ip)
            }),
            forall|j: int| 0 <= j < i ==> !f(#[trigger] v[j]),
        decreases hs@.len() - i,
    {
        let ip_match = match hs[i].ip {
            Some(x) => x == ip,
            None => false,
        };
        if ip_match && (!only_without_mac || hs[i].mac.is_none()) {
            proof {
                lemma_first_index_is(v, f, Some(i as int));
            }
            return Some(i);
        }
        i = i + 1;
    }
    proof {
        lemma_first_index_is(v, f, None);
    }
    None
}

/// The record a sighting belongs to (see [`host_for`]).
fn find_host(hs: &Vec<Observation>, o: &Observation) -> (r: Option<usize>)
    ensures
        match r {
            Some(i) => host_for(host_views(hs@), host_view(*o)) == Some(i as int) && i < hs@.len(),
            None => host_for(host_views(hs@), host_view(*o)) is None,
        },
{
    match o.mac {
        Some(m) => match find_mac(hs, &m) {
            Some(i) => Some(i),
            None => match o.ip {
                Some(ip) => find_ip(hs, ip, true),
                None => None,
            },
        },
        None => match o.ip {
            Some(ip) => find_ip(hs, ip, false),
            None => None,
        },
    }
}

/// A copy of an observation.
pub fn copy_observation(o: &Observation) -> (r: Observation)
    ensures
        r.source == o.source,
        r.ip == o.ip,
        r.mac == o.mac,
        r.hostname == o.hostname,
        r.hints@ == o.hints@,
        host_view(r) == host_view(*o),
        hints_distinct(r) == hints_distinct(*o),
{
    let mut hints: Vec<(String, String)> = Vec::new();
    let mut i: usize = 0;
    while i < o.hints.len()
        invariant
            i <= o.hints@.len(),
            hints@ == o.hints@.subrange(0, i as int),
        decreases o.hints@.len() - i,
    {
        let k = o.hints[i].0.clone();
        let v = o.hints[i].1.clone();
        hints.push((k, v));
        i = i + 1;
        assert(hints@ =~= o.hints@.subrange(0, i as int));
    }
    assert(hints@ =~= o.hints@);
    Observation { source: o.source, ip: o.ip, mac: o.mac, hostname: clone_opt(&o.hostname), hints }
}

/// Folds the sightings of all techniques into one record per host, in order
/// of first sighting (see [`aggregate_views`]).
pub fn aggregate(observations: &[Observation]) -> (r: Vec<Observation>)
    ensures
        host_views(r@) == aggregate_views(observations@),
        forall|k: int|
            0 <= k < observations@.len() && ((#[trigger] observations@[k]).ip is Some
                || observations@[k].mac is Some) ==> exists|i: int|
                0 <= i < r@.len() && holds_sighting(#[trigger] r@[i], observations@[k]),
        (forall|k: int| 0 <= k < observations@.len() ==> hints_distinct(#[trigger] observations@[k]))
            ==> forall|i: int| 0 <= i < r@.len() ==> hints_distinct(#[trigger] r@[i]),
{
    let mut hosts: Vec<Observation> = Vec::new();
    let mut i: usize = 0;
    assert(host_views(hosts@) =~= Seq::<HostView>::empty());
    while i < observations.len()
        invariant
            i <= observations@.len(),
            host_views(hosts@) == aggregate_views(observations@.subrange(0, i as int)),
            (forall|k: int| 0 <= k < observations@.len() ==> hints_distinct(
                #[trigger] observations@[k],
            )) ==> forall|m: int| 0 <= m < hosts@.len() ==> hints_distinct(#[trigger] hosts@[m]),
        decreases observations@.len() - i,
    {
        let ghost sub = observations@.subrange(0, i + 1);
        assert(sub.drop_last() =~= observations@.subrange(0, i as int));
        assert(sub.last() == observations@[i as int]);
        let o = &observations[i];
        if o.ip.is_some() || o.mac.is_some() {
            match find_host(&hosts, o) {
                Some(k) => {
                    let ghost hv = host_views(hosts@);
                    let h = copy_observation(&hosts[k]);
                    let merged = merge_host(h, o);
                    hosts.set(k, merged);
                    assert(host_views(hosts@) =~= hv.update(
                        k as int,
                        merge_view(hv[k as int], host_view(*o)),
                    ));
                },
                None => {
                    let ghost hv = host_views(hosts@);
                    hosts.push(copy_observation(o));
                    assert(host_views(hosts@) =~= hv.push(host_view(*o)));
                },
            }
        }
        i = i + 1;
    }
    assert(observations@.subrange(0, observations@.len() as int) =~= observations@);
    proof {
        let obs = observations@;
        lemma_aggregate_keeps_sightings(obs);
        assert forall|k: int|
            0 <= k < obs.len() && ((#[trigger] obs[k]).ip is Some || obs[k].mac is Some) implies exists|i: int|
                0 <= i < hosts@.len() && holds_sighting(#[trigger] hosts@[i], obs[k]) by {
            assert(has_identity(host_view(obs[k])));
            let i = choose|i: int|
                0 <= i < aggregate_views(obs).len() && record_holds(
                    #[trigger] aggregate_views(obs)[i],
                    host_view(obs[k]),
                );
            assert(host_views(hosts@)[i] == host_view(hosts@[i]));
            lemma_record_holds_sighting(hosts@[i], obs[k]);
        }
    }
    hosts
}

/// Record `rec` holds sighting `o`: it has the sighting's MAC address (its
/// IP address, for a sighting without one) and every hint key of it.
pub open spec fn holds_sighting(rec: Observation, o: Observation) -> bool {
    &&& (o.mac is Some ==> rec.mac == o.mac)
    &&& (o.mac is None ==> rec.ip == o.ip)
    &&& forall|j: int| 0 <= j < o.hints@.len() ==> (#[trigger] hint_value(rec, o.hints@[j].0@)) is Some
}

/// A host record (as plain values) holds a sighting: it has the sighting's
/// MAC address (its IP address, for a sighting without one) and every hint
/// key of it.
pub open spec fn record_holds(rec: HostView, o: HostView) -> bool {
    &&& (o.2 is Some ==> rec.2 == o.2)
    &&& (o.2 is None ==> rec.1 == o.1)
    &&& o.4.dom().subset_of(rec.4.dom())
}

proof fn lemma_record_holds_sighting(rec: Observation, o: Observation)
    requires
        record_holds(host_view(rec), host_view(o)),
    ensures
        holds_sighting(rec, o),
{
    assert forall|j: int| 0 <= j < o.hints@.len() implies (#[trigger] hint_value(rec, o.hints@[j].0@)) is Some by {
        let key = o.hints@[j].0@;
        let p = hint_pairs(o);
        assert(p[j].0 == key);
        lemma_hint_index(p, key);
        assert(hint_map(o).dom().contains(key));
        assert(hint_map(rec).dom().contains(key));
    }
}

/// Folding a sighting into a record loses no hint: every hint key of the
/// record and of the sighting is a key of the result, the record's value
/// stays on a key both have, and a key only the sighting has takes the
/// sighting's value. The record keeps its addresses where it has them.
pub proof fn lemma_merge_keeps_hints(h: HostView, o: HostView)
    ensures
        h.4.dom().subset_of(merge_view(h, o).4.dom()),
        o.4.dom().subset_of(merge_view(h, o).4.dom()),
        forall|k: Seq<char>| #[trigger] h.4.dom().contains(k) ==> merge_view(h, o).4[k] == h.4[k],
        forall|k: Seq<char>|
            !h.4.dom().contains(k) && #[trigger] o.4.dom().contains(k) ==> merge_view(h, o).4[k] == o.4[k],
        h.1 is Some ==> merge_view(h, o).1 == h.1,
        h.2 is Some ==> merge_view(h, o).2 == h.2,
        h.1 is None ==> merge_view(h, o).1 == o.1,
        h.2 is None ==> merge_view(h, o).2 == o.2,
{
}

/// Every sighting with an address ends up in a host record that has its MAC
/// address (its IP address, for a sighting without one) and all its hint
/// keys: the hints of later sightings of a host are merged in, not dropped.
pub proof fn lemma_aggregate_keeps_sightings(obs: Seq<Observation>)
    ensures
        forall|k: int|
            0 <= k < obs.len() && has_identity(host_view(#[trigger] obs[k])) ==> exists|i: int|
                0 <= i < aggregate_views(obs).len() && record_holds(
                    #[trigger] aggregate_views(obs)[i],
                    host_view(obs[k]),
                ),
    decreases obs.len(),
{
    if obs.len() == 0 {
        return;
    }
    let prev = obs.drop_last();
    lemma_aggregate_keeps_sightings(prev);
    let hs = aggregate_views(prev);
    let o = host_view(obs.last());
    let r = aggregate_views(obs);
    if !has_identity(o) {
        assert forall|k: int|
            0 <= k < obs.len() && has_identity(host_view(#[trigger] obs[k])) implies exists|i: int|
                0 <= i < r.len() && record_holds(#[trigger] r[i], host_view(obs[k])) by {
            assert(k < prev.len());
            assert(obs[k] == prev[k]);
            let i = choose|i: int| 0 <= i < hs.len() && record_holds(#[trigger] hs[i], host_view(prev[k]));
            assert(r[i] == hs[i]);
        }
        return;
    }
    match o.2 {
        Some(m) => {
            lemma_first_index(hs, |h: HostView| h.2 == Some(m), 0);
            match o.1 {
                Some(ip) => {
                    lemma_first_index(hs, |h: HostView| h.1 == Some(ip) && h.2 is None, 0);
                },
                None => {},
            }
        },
        None => {
            match o.1 {
                Some(ip) => {
                    lemma_first_index(hs, |h: HostView| h.1 == Some(ip), 0);
                },
                None => {},
            }
        },
    }
    match host_for(hs, o) {
        Some(x) => {
            assert(0 <= x < hs.len());
            assert(r == hs.update(x, merge_view(hs[x], o)));
            lemma_merge_keeps_hints(hs[x], o);
            assert(record_holds(r[x], o));
            assert forall|k: int|
                0 <= k < obs.len() && has_identity(host_view(#[trigger] obs[k])) implies exists|i: int|
                    0 <= i < r.len() && record_holds(#[trigger] r[i], host_view(obs[k])) by {
                if k < prev.len() {
                    assert(obs[k] == prev[k]);
                    let i = choose|i: int| 0 <= i < hs.len() && record_holds(#[trigger] hs[i], host_view(prev[k]));
                    if i == x {
                        assert(record_holds(r[x], host_view(prev[k])));
                    } else {
                        assert(r[i] == hs[i]);
                    }
                } else {
                    assert(obs[k] == obs.last());
                    assert(record_holds(r[x], host_view(obs[k])));
                }
            }
        },
        None => {
            assert(r == hs.push(o));
            assert forall|k: int|
                0 <= k < obs.len() && has_identity(host_view(#[trigger] obs[k])) implies exists|i: int|
                    0 <= i < r.len() && record_holds(#[trigger] r[i], host_view(obs[k])) by {
                if k < prev.len() {
                    assert(obs[k] == prev[k]);
                    let i = choose|i: int| 0 <= i < hs.len() && record_holds(#[trigger] hs[i], host_view(prev[k]));
                    assert(r[i] == hs[i]);
                } else {
                    assert(obs[k] == obs.last());
                    assert(r[hs.len() as int] == o);
                    assert(record_holds(o, o));
                }
            }
        },
    }
}

/// The host records keep the identity rules: no MAC address on two records,
/// every record identifies its host, there are no more records than
/// sightings, and every MAC address sighted has its record.
pub proof fn lemma_aggregate_identity(obs: Seq<Observation>)
    ensures
        forall|i: int, j: int|
            0 <= i < j < aggregate_views(obs).len() && (#[trigger] aggregate_views(obs)[i]).2 is Some
                ==> aggregate_views(obs)[i].2 != (#[trigger] aggregate_views(obs)[j]).2,
        forall|i: int|
            0 <= i < aggregate_views(obs).len() ==> has_identity(#[trigger] aggregate_views(obs)[i]),
        aggregate_views(obs).len() <= obs.len(),
        forall|k: int|
            0 <= k < obs.len() && (#[trigger] obs[k]).mac is Some ==> exists|i: int|
                0 <= i < aggregate_views(obs).len() && (#[trigger] aggregate_views(obs)[i]).2
                    == obs[k].mac,
    decreases obs.len(),
{
    if obs.len() == 0 {
        return;
    }
    let prev = obs.drop_last();
    lemma_aggregate_identity(prev);
    let hs = aggregate_views(prev);
    let o = host_view(obs.last());
    let r = aggregate_views(obs);
    assert forall|k: int| 0 <= k < prev.len() implies obs[k] == prev[k] by {}
    if !has_identity(o) {
        assert(r == hs);
        assert forall|k: int|
            0 <= k < obs.len() && (#[trigger] obs[k]).mac is Some implies exists|i: int|
                0 <= i < r.len() && (#[trigger] r[i]).2 == obs[k].mac by {
            if k < prev.len() {
                assert(obs[k] == prev[k]);
            } else {
                assert(obs[k] == obs.last());
            }
        }
        return;
    }
    match o.2 {
        Some(m) => {
            lemma_first_index(hs, |h: HostView| h.2 == Some(m), 0);
            match o.1 {
                Some(ip) => {
                    lemma_first_index(hs, |h: HostView| h.1 == Some(ip) && h.2 is None, 0);
                },
                None => {},
            }
        },
        None => {
            match o.1 {
                Some(ip) => {
                    lemma_first_index(hs, |h: HostView| h.1 == Some(ip), 0);
                },
                None => {},
            }
        },
    }
    match host_for(hs, o) {
        Some(x) => {
            assert(r == hs.update(x, merge_view(hs[x], o)));
            assert(0 <= x < hs.len());
            // the MAC of record x afterwards
            assert(o.2 is Some ==> r[x].2 == o.2) by {
                if o.2 is Some {
                    if hs[x].2 is Some {
                        assert(hs[x].2 == o.2);
                    }
                }
            }
            assert(o.2 is None ==> r[x].2 == hs[x].2);
            assert forall|i: int, j: int|
                0 <= i < j < r.len() && (#[trigger] r[i]).2 is Some implies r[i].2 != (
                #[trigger] r[j]).2 by {
                if i != x && j != x {
                    assert(r[i] == hs[i] && r[j] == hs[j]);
                } else if hs[x].2 is None && o.2 is Some {
                    // x got a fresh MAC address: no other record has it
                    let other = if i == x { j } else { i };
                    assert(r[other] == hs[other]);
                    assert(hs[other].2 != o.2);
                } else {
                    assert(r[x].2 == hs[x].2);
                    assert(r[i].2 == hs[i].2 && r[j].2 == hs[j].2);
                }
            }
            assert forall|i: int| 0 <= i < r.len() implies has_identity(#[trigger] r[i]) by {
                if i != x {
                    assert(r[i] == hs[i]);
                }
            }
            assert forall|k: int|
                0 <= k < obs.len() && (#[trigger] obs[k]).mac is Some implies exists|i: int|
                    0 <= i < r.len() && (#[trigger] r[i]).2 == obs[k].mac by {
                if k < prev.len() {
                    assert(obs[k] == prev[k]);
                    let i = choose|i: int| 0 <= i < hs.len() && (#[trigger] hs[i]).2 == prev[k].mac;
                    if i == x {
                        assert(hs[x].2 is Some);
                        assert(r[x].2 == hs[x].2);
                    } else {
                        assert(r[i] == hs[i]);
                    }
                } else {
                    assert(obs[k] == obs.last());
                    assert(r[x].2 == o.2);
                }
            }
        },
        None => {
            assert(r == hs.push(o));
            assert forall|i: int, j: int|
                0 <= i < j < r.len() && (#[trigger] r[i]).2 is Some implies r[i].2 != (
                #[trigger] r[j]).2 by {
                if j < hs.len() {
                    assert(r[i] == hs[i] && r[j] == hs[j]);
                } else {
                    assert(r[i] == hs[i]);
                    assert(r[j] == o);
                }
            }
            assert forall|i: int| 0 <= i < r.len() implies has_identity(#[trigger] r[i]) by {
                if i < hs.len() {
                    assert(r[i] == hs[i]);
                }
            }
            assert forall|k: int|
                0 <= k < obs.len() && (#[trigger] obs[k]).mac is Some implies exists|i: int|
                    0 <= i < r.len() && (#[trigger] r[i]).2 == obs[k].mac by {
                if k < prev.len() {
                    assert(obs[k] == prev[k]);
                    let i = choose|i: int| 0 <= i < hs.len() && (#[trigger] hs[i]).2 == prev[k].mac;
                    assert(r[i] == hs[i]);
                } else {
                    assert(obs[k] == obs.last());
                    assert(r[hs.len() as int] == o);
                }
            }
        },
    }
}

} // verus!
