//! Fingerprint rules: infer a device type and confidence from observations.
//!
//! A [`Matcher`] tests the signals it names against a host's observations:
//! - `port`: some observation has hint `tcp.ports` equal to the port number;
//! - `service`: some hint value contains the text (case-insensitively);
//! - `mdns_contains`: some `mdns.*` hint value contains the text;
//! - `upnp_device_type_contains`: some `ssdp.*` hint value contains the text;
//! - `is_gateway`: some observation has hint `network.role` = `gateway`.
//!
//! A matcher holds when every signal it names holds. A [`Match`] combines
//! matchers with `any` (one of them) and `all` (every one). [`RuleSet::evaluate`]
//! returns the classification of the matching rule with the highest confidence,
//! the earliest such rule on a tie.

use vstd::prelude::*;

use crate::model::{Confidence, DeviceType, Observation, hint_pairs, hint_value, find_hint};
use crate::text::{
    chars_eq, chars_of, contains, decimal_chars, decimal, find_chars, starts_with,
    starts_with_chars, to_lowercase, unicode_lower,
};

verus! {

/// One condition on the observations of a host.
#[derive(Clone, Debug, Default, PartialEq, Eq)]
pub struct Matcher {
    pub port: Option<u16>,
    pub service: Option<String>,
    pub mdns_contains: Option<String>,
    pub upnp_device_type_contains: Option<String>,
    pub is_gateway: Option<bool>,
}

/// Matchers combined with `any` (disjunction) and `all` (conjunction).
#[derive(Clone, Debug, Default)]
pub struct Match {
    pub any: Vec<Matcher>,
    pub all: Vec<Matcher>,
}

/// A fingerprint rule.
#[derive(Clone, Debug)]
pub struct Rule {
    pub id: String,
    pub matcher: Match,
    pub device_type: DeviceType,
    pub confidence: Confidence,
}

/// Rules in load order.
#[derive(Clone, Debug, Default)]
pub struct RuleSet {
    rules: Vec<Rule>,
}

/// Some observation has hint `key` with value `value`.
pub open spec fn has_hint(obs: Seq<Observation>, key: Seq<char>, value: Seq<char>) -> bool {
    exists|i: int| 0 <= i < obs.len() && hint_value(#[trigger] obs[i], key) == Some(value)
}

/// Some hint of some observation whose key starts with `prefix` has a value
/// that contains `needle` once both are lower-cased.
pub open spec fn some_hint_contains(
    obs: Seq<Observation>,
    prefix: Seq<char>,
    needle: Seq<char>,
) -> bool {
    exists|i: int, j: int|
        0 <= i < obs.len() && 0 <= j < hint_pairs(obs[i]).len() && starts_with(
            #[trigger] hint_pairs(obs[i])[j].0,
            prefix,
        ) && contains(unicode_lower(hint_pairs(obs[i])[j].1), unicode_lower(needle))
}

/// `m` holds on `obs`: each signal `m` names holds.
pub open spec fn matcher_holds(m: Matcher, obs: Seq<Observation>) -> bool {
    &&& (m.port matches Some(p) ==> has_hint(obs, "tcp.ports"@, decimal(p as nat)))
    &&& (m.service matches Some(s) ==> some_hint_contains(obs, Seq::empty(), s@))
    &&& (m.mdns_contains matches Some(s) ==> some_hint_contains(obs, "mdns."@, s@))
    &&& (m.upnp_device_type_contains matches Some(s) ==> some_hint_contains(obs, "ssdp."@, s@))
    &&& (m.is_gateway == Some(true) ==> has_hint(obs, "network.role"@, "gateway"@))
}

/// `m` holds on `obs`: it names a matcher, one of `any` holds (or `any` is
/// empty) and each of `all` holds.
pub open spec fn match_holds(m: Match, obs: Seq<Observation>) -> bool {
    &&& (m.any@.len() > 0 || m.all@.len() > 0)
    &&& (m.any@.len() == 0 || exists|i: int|
        0 <= i < m.any@.len() && matcher_holds(#[trigger] m.any@[i], obs))
    &&& forall|i: int| 0 <= i < m.all@.len() ==> matcher_holds(#[trigger] m.all@[i], obs)
}

/// Some observation has hint `key` with value `value`.
fn has_hint_exec(obs: &[Observation], key: &[char], value: &[char]) -> (r: bool)
    ensures
        r == has_hint(obs@, key@, value@),
{
    let mut i: usize = 0;
    while i < obs.len()
        invariant
            i <= obs@.len(),
            forall|k: int| 0 <= k < i ==> hint_value(#[trigger] obs@[k], key@) != Some(value@),
        decreases obs@.len() - i,
    {
        if let Some(h) = find_hint(&obs[i], key) {
            let v = chars_of(obs[i].hints[h].1.as_str());
            if chars_eq(&v, value) {
                return true;
            }
        }
        i = i + 1;
    }
    false
}

/// Whether one hint matches a text signal: its key starts with `prefix` and
/// its value, already lower-cased, contains `needle`, already lower-cased.
pub fn hint_matches(key: &str, lowered_value: &str, prefix: &[char], lowered_needle: &[char]) -> (r:
    bool)
    ensures
        r == (starts_with(key@, prefix@) && contains(lowered_value@, lowered_needle@)),
{
    let kc = chars_of(key);
    if !starts_with_chars(&kc, prefix) {
        return false;
    }
    let vc = chars_of(lowered_value);
    find_chars(&vc, lowered_needle).is_some()
}

/// Some hint whose key starts with `prefix` has a value containing `needle`
/// (already lower-cased), after lower-casing the value.
fn some_hint_contains_exec(obs: &[Observation], prefix: &[char], needle: &[char]) -> (r: bool)
    ensures
        r == exists|i: int, j: int|
            0 <= i < obs@.len() && 0 <= j < hint_pairs(obs@[i]).len() && starts_with(
                #[trigger] hint_pairs(obs@[i])[j].0,
                prefix@,
            ) && contains(unicode_lower(hint_pairs(obs@[i])[j].1), needle@),
{
    let mut i: usize = 0;
    while i < obs.len()
        invariant
            i <= obs@.len(),
            forall|a: int, b: int|
                0 <= a < i && 0 <= b < hint_pairs(obs@[a]).len() ==> !(starts_with(
                    #[trigger] hint_pairs(obs@[a])[b].0,
                    prefix@,
                ) && contains(unicode_lower(hint_pairs(obs@[a])[b].1), needle@)),
        decreases obs@.len() - i,
    {
        let o = &obs[i];
        let ghost h = hint_pairs(*o);
        let mut j: usize = 0;
        while j < o.hints.len()
            invariant
                i < obs@.len(),
                *o == obs@[i as int],
                h == hint_pairs(*o),
                j <= o.hints@.len(),
                forall|b: int|
                    0 <= b < j ==> !(starts_with(#[trigger] h[b].0, prefix@) && contains(
                        unicode_lower(h[b].1),
                        needle@,
                    )),
            decreases o.hints@.len() - j,
        {
            let lv = to_lowercase(o.hints[j].1.as_str());
            if hint_matches(o.hints[j].0.as_str(), lv.as_str(), prefix, needle) {
                assert(starts_with(h[j as int].0, prefix@) && contains(
                    unicode_lower(h[j as int].1),
                    needle@,
                ));
                return true;
            }
            j = j + 1;
        }
        i = i + 1;
    }
    false
}

impl Matcher {
    /// `true` when every signal this matcher names holds on `observations`.
    pub fn matches(&self, observations: &[Observation]) -> (r: bool)
        ensures
            r == matcher_holds(*self, observations@),
            self.service matches Some(s) ==> r ==> exists|i: int, j: int|
                #![trigger observations@[i].hints@[j]]
                0 <= i < observations@.len() && 0 <= j < observations@[i].hints@.len() && contains(
                    unicode_lower(observations@[i].hints@[j].1@),
                    unicode_lower(s@),
                ),
            self.service matches Some(s) ==> self.port is None && self.mdns_contains is None
                && self.upnp_device_type_contains is None && self.is_gateway != Some(true) ==> (r
                <==> exists|i: int, j: int|
                #![trigger observations@[i].hints@[j]]
                0 <= i < observations@.len() && 0 <= j < observations@[i].hints@.len() && contains(
                    unicode_lower(observations@[i].hints@[j].1@),
                    unicode_lower(s@),
                )),
    {
        proof {
            lemma_service_signal_any_key(*self, observations@);
        }
        let mut ok = true;
        if let Some(port) = self.port {
            let key = chars_of("tcp.ports");
            let value = decimal_chars(port as u64);
            ok = ok && has_hint_exec(observations, &key, &value);
        }
        if let Some(service) = &self.service {
            let needle = to_lowercase(service.as_str());
            let nc = chars_of(needle.as_str());
            let empty: Vec<char> = Vec::new();
            let found = some_hint_contains_exec(observations, &empty, &nc);
            assert(empty@ =~= Seq::<char>::empty());
            ok = ok && found;
        }
        if let Some(needle) = &self.mdns_contains {
            let n = to_lowercase(needle.as_str());
            let nc = chars_of(n.as_str());
            let prefix = chars_of("mdns.");
            ok = ok && some_hint_contains_exec(observations, &prefix, &nc);
        }
        if let Some(needle) = &self.upnp_device_type_contains {
            let n = to_lowercase(needle.as_str());
            let nc = chars_of(n.as_str());
            let prefix = chars_of("ssdp.");
            ok = ok && some_hint_contains_exec(observations, &prefix, &nc);
        }
        if let Some(true) = self.is_gateway {
            let key = chars_of("network.role");
            let value = chars_of("gateway");
            ok = ok && has_hint_exec(observations, &key, &value);
        }
        ok
    }
}

impl Match {
    /// `true` when neither `any` nor `all` holds a matcher.
    pub fn is_empty(&self) -> (r: bool)
        ensures
            r == (self.any@.len() == 0 && self.all@.len() == 0),
    {
        self.any.len() == 0 && self.all.len() == 0
    }

    /// Evaluates the match on `observations`.
    pub fn matches(&self, observations: &[Observation]) -> (r: bool)
        ensures
            r == match_holds(*self, observations@),
    {
        if self.any.len() == 0 && self.all.len() == 0 {
            return false;
        }
        let mut any_ok = self.any.len() == 0;
        let mut i: usize = 0;
        while i < self.any.len() && !any_ok
            invariant
                i <= self.any@.len(),
                any_ok ==> (self.any@.len() == 0 || exists|k: int|
                    0 <= k < self.any@.len() && matcher_holds(
                        #[trigger] self.any@[k],
                        observations@,
                    )),
                !any_ok ==> self.any@.len() > 0 && forall|k: int|
                    0 <= k < i ==> !matcher_holds(#[trigger] self.any@[k], observations@),
            decreases self.any@.len() - i,
        {
            if self.any[i].matches(observations) {
                any_ok = true;
            }
            i = i + 1;
        }
        let mut all_ok = true;
        let mut j: usize = 0;
        while j < self.all.len() && all_ok
            invariant
                j <= self.all@.len(),
                all_ok ==> forall|k: int|
                    0 <= k < j ==> matcher_holds(#[trigger] self.all@[k], observations@),
                !all_ok ==> exists|k: int|
                    0 <= k < self.all@.len() && !matcher_holds(
                        #[trigger] self.all@[k],
                        observations@,
                    ),
            decreases self.all@.len() - j,
        {
            if !self.all[j].matches(observations) {
                all_ok = false;
            }
            j = j + 1;
        }
        any_ok && all_ok
    }
}

impl Rule {
    /// `true` when the rule's match holds on `observations`.
    pub fn matches(&self, observations: &[Observation]) -> (r: bool)
        ensures
            r == match_holds(self.matcher, observations@),
    {
        self.matcher.matches(observations)
    }
}

/// Index of the rule chosen among the first `n` rules: a matching rule of
/// highest confidence, the earliest one on a tie.
pub open spec fn best_rule(rules: Seq<Rule>, obs: Seq<Observation>, n: int) -> Option<int>
    decreases n,
{
    if n <= 0 {
        None
    } else {
        let b = best_rule(rules, obs, n - 1);
        if match_holds(rules[n - 1].matcher, obs) && (b is None || rules[n - 1].confidence.value
            > rules[b->0].confidence.value) {
            Some(n - 1)
        } else {
            b
        }
    }
}

/// The classification a rule set gives to `obs`.
pub open spec fn evaluation(rules: Seq<Rule>, obs: Seq<Observation>) -> Option<
    (DeviceType, Confidence),
> {
    match best_rule(rules, obs, rules.len() as int) {
        Some(i) => Some((rules[i].device_type, rules[i].confidence)),
        None => None,
    }
}

impl RuleSet {
    /// An empty rule set.
    pub fn new() -> (r: RuleSet)
        ensures
            r.spec_rules().len() == 0,
    {
        RuleSet { rules: Vec::new() }
    }

    /// A rule set holding `rules`, in this order.
    pub fn from_rules(rules: Vec<Rule>) -> (r: RuleSet)
        ensures
            r.spec_rules() == rules@,
    {
        RuleSet { rules }
    }

    /// The rules, in load order.
    pub closed spec fn spec_rules(&self) -> Seq<Rule> {
        self.rules@
    }

    /// Number of rules.
    pub fn len(&self) -> (n: usize)
        ensures
            n == self.spec_rules().len(),
    {
        self.rules.len()
    }

    /// `true` when there is no rule.
    pub fn is_empty(&self) -> (r: bool)
        ensures
            r == (self.spec_rules().len() == 0),
    {
        self.rules.len() == 0
    }

    /// The rules, in load order.
    pub fn rules(&self) -> (r: &[Rule])
        ensures
            r@ == self.spec_rules(),
    {
        self.rules.as_slice()
    }

    /// The classification of the matching rule with the highest confidence
    /// (the earliest one on a tie), or `None` when no rule matches.
    pub fn evaluate(&self, observations: &[Observation]) -> (r: Option<(DeviceType, Confidence)>)
        ensures
            r == evaluation(self.spec_rules(), observations@),
    {
        let mut best: Option<usize> = None;
        let mut i: usize = 0;
        while i < self.rules.len()
            invariant
                i <= self.rules@.len(),
                match best {
                    Some(b) => best_rule(self.rules@, observations@, i as int) == Some(b as int),
                    None => best_rule(self.rules@, observations@, i as int) is None,
                },
            decreases self.rules@.len() - i,
        {
            if self.rules[i].matches(observations) {
                let better = match best {
                    None => true,
                    Some(b) => {
                        proof {
                            lemma_best_rule_bound(self.rules@, observations@, i as int);
                        }
                        self.rules[i].confidence.value > self.rules[b].confidence.value
                    },
                };
                if better {
                    best = Some(i);
                }
            }
            i = i + 1;
        }
        match best {
            Some(b) => {
                proof {
                    lemma_best_rule_bound(self.rules@, observations@, self.rules@.len() as int);
                }
                Some((self.rules[b].device_type, self.rules[b].confidence))
            },
            None => None,
        }
    }
}

/// The chosen index lies among the first `n` rules.
proof fn lemma_best_rule_bound(rules: Seq<Rule>, obs: Seq<Observation>, n: int)
    ensures
        best_rule(rules, obs, n) matches Some(b) ==> 0 <= b < n,
    decreases n,
{
    if n > 0 {
        lemma_best_rule_bound(rules, obs, n - 1);
    }
}

/// The rule chosen among the first `n` matches, and no matching rule among
/// them has a higher confidence; the earlier rules all have a lower one.
pub proof fn lemma_best_rule(rules: Seq<Rule>, obs: Seq<Observation>, n: int)
    requires
        0 <= n <= rules.len(),
    ensures
        best_rule(rules, obs, n) matches Some(b) ==> {
            &&& 0 <= b < n
            &&& match_holds(rules[b].matcher, obs)
            &&& forall|k: int|
                0 <= k < n && match_holds(#[trigger] rules[k].matcher, obs)
                    ==> rules[k].confidence.value <= rules[b].confidence.value
            &&& forall|k: int|
                0 <= k < b && match_holds(#[trigger] rules[k].matcher, obs)
                    ==> rules[k].confidence.value < rules[b].confidence.value
        },
        best_rule(rules, obs, n) is None ==> forall|k: int|
            0 <= k < n ==> !match_holds(#[trigger] rules[k].matcher, obs),
    decreases n,
{
    if n > 0 {
        lemma_best_rule(rules, obs, n - 1);
    }
}

/// The classification of a rule set is that of a matching rule whose
/// confidence no other matching rule exceeds; earlier matching rules have a
/// strictly lower confidence, and when no rule matches there is none.
pub proof fn lemma_evaluation_is_best(rules: Seq<Rule>, obs: Seq<Observation>)
    ensures
        evaluation(rules, obs) matches Some((t, c)) ==> exists|b: int|
            0 <= b < rules.len() && match_holds(rules[b].matcher, obs) && #[trigger] rules[b].device_type
                == t && rules[b].confidence == c && forall|k: int|
                0 <= k < rules.len() && match_holds(#[trigger] rules[k].matcher, obs)
                    ==> rules[k].confidence.value <= c.value,
        evaluation(rules, obs) is None <==> forall|k: int|
            0 <= k < rules.len() ==> !match_holds(#[trigger] rules[k].matcher, obs),
{
    lemma_best_rule(rules, obs, rules.len() as int);
    if let Some(b) = best_rule(rules, obs, rules.len() as int) {
        let pair = evaluation(rules, obs)->0;
        assert(rules[b].device_type == pair.0);
    }
}

/// The `service` signal looks at every hint, whatever its key (mDNS, SSDP,
/// banners, ...): a matcher that holds and names a service has some hint
/// value containing it, ignoring case, and a matcher that names only a
/// service holds exactly when some hint value of some observation contains
/// it, ignoring case.
pub proof fn lemma_service_signal_any_key(m: Matcher, obs: Seq<Observation>)
    ensures
        m.service matches Some(s) ==> matcher_holds(m, obs) ==> exists|i: int, j: int|
            #![trigger obs[i].hints@[j]]
            0 <= i < obs.len() && 0 <= j < obs[i].hints@.len() && contains(
                unicode_lower(obs[i].hints@[j].1@),
                unicode_lower(s@),
            ),
        m.service matches Some(s) ==> m.port is None && m.mdns_contains is None
            && m.upnp_device_type_contains is None && m.is_gateway != Some(true) ==> (matcher_holds(m, obs)
            <==> exists|i: int, j: int|
            #![trigger obs[i].hints@[j]]
            0 <= i < obs.len() && 0 <= j < obs[i].hints@.len() && contains(
                unicode_lower(obs[i].hints@[j].1@),
                unicode_lower(s@),
            )),
{
    if let Some(s) = m.service {
        let found = exists|i: int, j: int|
            #![trigger obs[i].hints@[j]]
            0 <= i < obs.len() && 0 <= j < obs[i].hints@.len() && contains(
                unicode_lower(obs[i].hints@[j].1@),
                unicode_lower(s@),
            );
        if some_hint_contains(obs, Seq::empty(), s@) {
            let (i, j) = choose|i: int, j: int|
                0 <= i < obs.len() && 0 <= j < hint_pairs(obs[i]).len() && starts_with(
                    #[trigger] hint_pairs(obs[i])[j].0,
                    Seq::<char>::empty(),
                ) && contains(unicode_lower(hint_pairs(obs[i])[j].1), unicode_lower(s@));
            assert(hint_pairs(obs[i])[j].1 == obs[i].hints@[j].1@);
            assert(found);
        }
        if found {
            let (i, j) = choose|i: int, j: int|
                #![trigger obs[i].hints@[j]]
                0 <= i < obs.len() && 0 <= j < obs[i].hints@.len() && contains(
                    unicode_lower(obs[i].hints@[j].1@),
                    unicode_lower(s@),
                );
            let key = hint_pairs(obs[i])[j].0;
            assert(hint_pairs(obs[i])[j].1 == obs[i].hints@[j].1@);
            assert(key.subrange(0, 0) =~= Seq::<char>::empty());
            assert(starts_with(key, Seq::<char>::empty()));
            assert(some_hint_contains(obs, Seq::empty(), s@));
        }
    }
}

} // verus!
