//! Reading what a service says: banners, HTTP/RTSP status lines, headers and
//! page titles, and turning an open port into a [`Service`].

use vstd::prelude::*;
use vstd::utf8::{decode_utf8, valid_utf8};

use crate::model::{Protocol, Service, ServiceState};
use crate::ports::{port_to_service_name, service_name_of};
use crate::text::{
    chars_of, field_len, lemma_field_len_is, find, find_chars, lines, lines_of, lower, lower_chars, next_index_of,
    slice_chars, starts_with, starts_with_chars, string_of, trim, trim_chars, views, words,
    words_of, clone_opt,
};
use crate::fingerprint::opt_view;

verus! {

/// What an active probe learnt about a service.
#[derive(Clone, Debug, Default, PartialEq, Eq)]
pub struct ProbeResult {
    /// Product (`OpenSSH`, `nginx`).
    pub product: Option<String>,
    /// Version (`8.9`, or an HTTP status code).
    pub version: Option<String>,
    /// A representative raw answer (greeting line, `<title>`, status line).
    pub banner: Option<String>,
}

/// Which active probe a port gets.
#[derive(Clone, Copy, Debug, PartialEq, Eq, Structural)]
pub enum ProbeKind {
    /// `GET / HTTP/1.0`, then status, `Server` and `<title>`.
    Http,
    /// `DESCRIBE rtsp://<peer>/ RTSP/1.0`, then status and `Server`.
    Rtsp,
    /// The passive greeting, read as a banner.
    Banner,
    /// No active probe.
    Nothing,
}

/// The probe for a port: HTTP on 80/443/8080/8443, RTSP on 554, the greeting
/// on 22/21/25/110/143, none elsewhere.
pub open spec fn probe_kind_of(port: u16) -> ProbeKind {
    if port == 80 || port == 443 || port == 8080 || port == 8443 {
        ProbeKind::Http
    } else if port == 554 {
        ProbeKind::Rtsp
    } else if port == 22 || port == 21 || port == 25 || port == 110 || port == 143 {
        ProbeKind::Banner
    } else {
        ProbeKind::Nothing
    }
}

/// Chooses the active probe for `port`.
pub fn probe_kind(port: u16) -> (k: ProbeKind)
    ensures
        k == probe_kind_of(port),
{
    match port {
        80 | 443 | 8080 | 8443 => ProbeKind::Http,
        554 => ProbeKind::Rtsp,
        22 | 21 | 25 | 110 | 143 => ProbeKind::Banner,
        _ => ProbeKind::Nothing,
    }
}

// ---------------------------------------------------------------------------
// Status line.
// ---------------------------------------------------------------------------

/// `(code, line)` of the first line of an HTTP/RTSP answer: the line itself,
/// and its second word when the first word starts with `HTTP/` or `RTSP/`.
pub open spec fn status_of(body: Seq<char>) -> (Option<Seq<char>>, Option<Seq<char>>) {
    let ls = lines(body);
    if ls.len() == 0 {
        (None, None)
    } else {
        let line = ls[0];
        let parts = words(line);
        if parts.len() >= 2 && (starts_with(parts[0], "HTTP/"@) || starts_with(
            parts[0],
            "RTSP/"@,
        )) {
            (Some(parts[1]), Some(line))
        } else {
            (None, Some(line))
        }
    }
}

/// Parses the status line of an HTTP/RTSP answer: `(code, full line)`.
pub fn parse_status(body: &str) -> (r: (Option<String>, Option<String>))
    ensures
        (opt_view(r.0), opt_view(r.1)) == status_of(body@),
{
    let b = chars_of(body);
    let ls = lines_of(&b);
    if ls.len() == 0 {
        return (None, None);
    }
    assert(views(ls@)[0] == ls@[0]@);
    let line = &ls[0];
    let parts = words_of(line);
    if parts.len() >= 2 {
        assert(views(parts@)[0] == parts@[0]@);
        assert(views(parts@)[1] == parts@[1]@);
        let http = chars_of("HTTP/");
        let rtsp = chars_of("RTSP/");
        if starts_with_chars(&parts[0], &http) || starts_with_chars(&parts[0], &rtsp) {
            return (Some(string_of(&parts[1])), Some(string_of(line)));
        }
    }
    (None, Some(string_of(line)))
}

// ---------------------------------------------------------------------------
// Page title.
// ---------------------------------------------------------------------------

/// The trimmed text of the first `<title ...>...</title>` of a page, tags
/// matched without regard to ASCII case; `None` when absent or blank.
pub open spec fn title_of(body: Seq<char>) -> Option<Seq<char>> {
    match find(lower(body), "<title"@) {
        Some(start) => {
            let after = body.subrange(start, body.len() as int);
            match find(after, ">"@) {
                Some(gt) => {
                    let rest = after.subrange(gt + 1, after.len() as int);
                    match find(lower(rest), "</title>"@) {
                        Some(end) => {
                            let t = trim(rest.subrange(0, end));
                            if t.len() == 0 {
                                None
                            } else {
                                Some(t)
                            }
                        },
                        None => None,
                    }
                },
                None => None,
            }
        },
        None => None,
    }
}

/// Extracts the page title (case-insensitive tags, trimmed, `None` if blank).
pub fn parse_title(body: &str) -> (r: Option<String>)
    ensures
        opt_view(r) == title_of(body@),
{
    let b = chars_of(body);
    let lb = lower_chars(&b);
    let open_tag = chars_of("<title");
    let start = match find_chars(&lb, &open_tag) {
        Some(k) => k,
        None => return None,
    };
    proof {
        crate::text::lemma_find_from(lower(b@), "<title"@, 0);
    }
    let after = slice_chars(&b, start, b.len());
    let gt_tag = chars_of(">");
    let gt = match find_chars(&after, &gt_tag) {
        Some(k) => k,
        None => return None,
    };
    proof {
        reveal_strlit(">");
        crate::text::lemma_find_from(after@, ">"@, 0);
    }
    let rest = slice_chars(&after, gt + 1, after.len());
    let lrest = lower_chars(&rest);
    let close_tag = chars_of("</title>");
    let end = match find_chars(&lrest, &close_tag) {
        Some(k) => k,
        None => return None,
    };
    proof {
        crate::text::lemma_find_from(lower(rest@), "</title>"@, 0);
    }
    let inner = slice_chars(&rest, 0, end);
    let t = trim_chars(&inner);
    if t.len() == 0 {
        None
    } else {
        Some(string_of(&t))
    }
}

// ---------------------------------------------------------------------------
// Headers.
// ---------------------------------------------------------------------------

/// Value of header `name` among `ls[i..]`: the trimmed rest of the first line
/// that starts with `name:` (ASCII case ignored).
pub open spec fn header_in(ls: Seq<Seq<char>>, needle: Seq<char>, i: int) -> Option<Seq<char>>
    decreases ls.len() - i,
{
    if i < 0 || i >= ls.len() {
        None
    } else if starts_with(lower(ls[i]), lower(needle)) {
        Some(trim(ls[i].subrange(needle.len() as int, ls[i].len() as int)))
    } else {
        header_in(ls, needle, i + 1)
    }
}

/// Value of header `name` in an HTTP/RTSP/SSDP answer.
pub open spec fn header_of(body: Seq<char>, name: Seq<char>) -> Option<Seq<char>> {
    header_in(lines(body), name.push(':'), 0)
}

/// Extracts the value of header `name` (case-insensitive), trimmed.
pub fn parse_header(body: &str, name: &str) -> (r: Option<String>)
    ensures
        opt_view(r) == header_of(body@, name@),
{
    let b = chars_of(body);
    let mut needle = chars_of(name);
    needle.push(':');
    let lneedle = lower_chars(&needle);
    let ls = lines_of(&b);
    let ghost lv = views(ls@);
    let mut i: usize = 0;
    while i < ls.len()
        invariant
            lv == views(ls@),
            lv == lines(body@),
            needle@ == name@.push(':'),
            lneedle@ == lower(needle@),
            i <= ls@.len(),
            header_of(body@, name@) == header_in(lv, needle@, i as int),
        decreases ls@.len() - i,
    {
        assert(lv[i as int] == ls@[i as int]@);
        let line = &ls[i];
        let ll = lower_chars(line);
        if starts_with_chars(&ll, &lneedle) {
            assert(lower(line@).len() == line@.len());
            let rest = slice_chars(line, needle.len(), line.len());
            let t = trim_chars(&rest);
            return Some(string_of(&t));
        }
        i = i + 1;
    }
    None
}

// ---------------------------------------------------------------------------
// Banners.
// ---------------------------------------------------------------------------

/// `s` split at the first `c`: `(before, after)`, or `None` without `c`
/// (`str::split_once`).
pub open spec fn split_once(s: Seq<char>, c: char) -> Option<(Seq<char>, Seq<char>)> {
    let k = field_len(s, c) as int;
    if k < s.len() {
        Some((s.subrange(0, k), s.subrange(k + 1, s.len() as int)))
    } else {
        None
    }
}

/// Executable [`split_once`].
fn split_once_chars(s: &[char], c: char) -> (r: Option<(Vec<char>, Vec<char>)>)
    ensures
        match r {
            Some((a, b)) => split_once(s@, c) == Some((a@, b@)),
            None => split_once(s@, c) is None,
        },
{
    let k = next_index_of(s, c, 0);
    assert(s@.subrange(0, s@.len() as int) =~= s@);
    if k < s.len() {
        Some((slice_chars(s, 0, k), slice_chars(s, k + 1, s.len())))
    } else {
        None
    }
}

/// `(product, version)` of a text like `OpenSSH_8.9`: split at the first `_`,
/// else at the first space, else the whole text is the product.
pub open spec fn product_version_of(s: Seq<char>) -> (Option<Seq<char>>, Option<Seq<char>>) {
    match split_once(s, '_') {
        Some((p, v)) => (Some(p), Some(v)),
        None => match split_once(s, ' ') {
            Some((p, v)) => (Some(p), Some(v)),
            None => (Some(s), None),
        },
    }
}

/// Where a product text splits: at its first underscore when it has one (the
/// version keeps everything after it, spaces included); at its first space
/// only when it has no underscore; nowhere when it has neither.
pub proof fn lemma_product_version_split(s: Seq<char>)
    ensures
        forall|k: int|
            0 <= k < s.len() && s[k] == '_' && (forall|j: int| 0 <= j < k ==> #[trigger] s[j] != '_') ==> product_version_of(s).0
                == Some(s.subrange(0, k)) && product_version_of(s).1 == Some(s.subrange(k + 1, s.len() as int)),
        forall|k: int|
            0 <= k < s.len() && s[k] == ' ' && (forall|j: int| 0 <= j < s.len() ==> #[trigger] s[j] != '_')
                && (forall|j: int| 0 <= j < k ==> #[trigger] s[j] != ' ') ==> product_version_of(s).0 == Some(s.subrange(0, k))
                && product_version_of(s).1 == Some(s.subrange(k + 1, s.len() as int)),
        (forall|j: int| 0 <= j < s.len() ==> #[trigger] s[j] != '_' && s[j] != ' ') ==> product_version_of(s).0 == Some(s)
            && product_version_of(s).1 is None,
{
    assert forall|k: int|
        0 <= k < s.len() && s[k] == '_' && (forall|j: int| 0 <= j < k ==> #[trigger] s[j] != '_') implies product_version_of(s).0
            == Some(s.subrange(0, k)) && product_version_of(s).1 == Some(s.subrange(k + 1, s.len() as int)) by {
        lemma_field_len_is(s, '_', k);
    }
    assert forall|k: int|
        0 <= k < s.len() && s[k] == ' ' && (forall|j: int| 0 <= j < s.len() ==> #[trigger] s[j] != '_')
            && (forall|j: int| 0 <= j < k ==> #[trigger] s[j] != ' ') implies product_version_of(s).0 == Some(s.subrange(0, k))
            && product_version_of(s).1 == Some(s.subrange(k + 1, s.len() as int)) by {
        lemma_field_len_is(s, '_', s.len() as int);
        lemma_field_len_is(s, ' ', k);
    }
    if forall|j: int| 0 <= j < s.len() ==> #[trigger] s[j] != '_' && s[j] != ' ' {
        lemma_field_len_is(s, '_', s.len() as int);
        lemma_field_len_is(s, ' ', s.len() as int);
    }
}

/// Splits `OpenSSH_8.9` into (`OpenSSH`, `8.9`); falls back to the first space.
pub fn split_product_version(s: &str) -> (r: (Option<String>, Option<String>))
    ensures
        (opt_view(r.0), opt_view(r.1)) == product_version_of(s@),
        forall|k: int|
            0 <= k < s@.len() && s@[k] == '_' && (forall|j: int| 0 <= j < k ==> #[trigger] s@[j] != '_') ==> opt_view(r.0)
                == Some(s@.subrange(0, k)) && opt_view(r.1) == Some(s@.subrange(k + 1, s@.len() as int)),
        forall|k: int|
            0 <= k < s@.len() && s@[k] == ' ' && (forall|j: int| 0 <= j < s@.len() ==> #[trigger] s@[j] != '_')
                && (forall|j: int| 0 <= j < k ==> #[trigger] s@[j] != ' ') ==> opt_view(r.0) == Some(s@.subrange(0, k))
                && opt_view(r.1) == Some(s@.subrange(k + 1, s@.len() as int)),
        (forall|j: int| 0 <= j < s@.len() ==> #[trigger] s@[j] != '_' && s@[j] != ' ') ==> opt_view(r.0) == Some(s@)
            && opt_view(r.1) is None,
{
    proof {
        lemma_product_version_split(s@);
    }
    let c = chars_of(s);
    match split_once_chars(&c, '_') {
        Some((p, v)) => (Some(string_of(&p)), Some(string_of(&v))),
        None => match split_once_chars(&c, ' ') {
            Some((p, v)) => (Some(string_of(&p)), Some(string_of(&v))),
            None => (Some(string_of(&c)), None),
        },
    }
}

/// What a greeting tells: for an `SSH-x-product` greeting on port 22 the
/// product and version of the third dash-separated part; the raw banner in
/// every case.
pub open spec fn banner_result(port: u16, banner: Seq<char>) -> (
    Option<Seq<char>>,
    Option<Seq<char>>,
    Option<Seq<char>>,
) {
    let plain = (None, None, Some(banner));
    if port == 22 && starts_with(banner, "SSH-"@) {
        match split_once(banner, '-') {
            Some((_, rest)) => match split_once(rest, '-') {
                Some((_, prod)) => {
                    let pv = product_version_of(prod);
                    (pv.0, pv.1, Some(banner))
                },
                None => plain,
            },
            None => plain,
        }
    } else {
        plain
    }
}

/// Reads a greeting banner into a [`ProbeResult`].
pub fn parse_banner(port: u16, banner: &str) -> (r: ProbeResult)
    ensures
        (opt_view(r.product), opt_view(r.version), opt_view(r.banner)) == banner_result(
            port,
            banner@,
        ),
{
    let c = chars_of(banner);
    let ssh = chars_of("SSH-");
    if port == 22 && starts_with_chars(&c, &ssh) {
        if let Some((_, rest)) = split_once_chars(&c, '-') {
            if let Some((_, prod)) = split_once_chars(&rest, '-') {
                let ps = string_of(&prod);
                let (product, version) = split_product_version(ps.as_str());
                return ProbeResult { product, version, banner: Some(string_of(&c)) };
            }
        }
    }
    ProbeResult { product: None, version: None, banner: Some(string_of(&c)) }
}

/// The bytes before the first NUL.
pub open spec fn before_nul(b: Seq<u8>) -> Seq<u8>
    decreases b.len(),
{
    if b.len() == 0 || b[0] == 0 {
        Seq::empty()
    } else {
        seq![b[0]] + before_nul(b.drop_first())
    }
}

/// A greeting as text: the bytes before the first NUL, decoded as UTF-8 and
/// trimmed; `None` when empty, not UTF-8, or blank.
pub open spec fn banner_text(b: Seq<u8>) -> Option<Seq<char>> {
    let t = before_nul(b);
    if t.len() == 0 || !valid_utf8(t) {
        None
    } else {
        let s = trim(decode_utf8(t));
        if s.len() == 0 {
            None
        } else {
            Some(s)
        }
    }
}

/// Calls `String::from_utf8`, which accepts exactly valid UTF-8 and then holds
/// its decoding.
#[verifier::external_body]
fn utf8_string(bytes: Vec<u8>) -> (r: Option<String>)
    ensures
        r is Some <==> valid_utf8(bytes@),
        r matches Some(s) ==> s@ == decode_utf8(bytes@),
{
    String::from_utf8(bytes).ok()
}

/// Cuts a greeting at the first NUL, decodes it as UTF-8 and trims it;
/// empty, blank or non-UTF-8 greetings give `None`.
pub fn trim_banner(bytes: &[u8]) -> (r: Option<String>)
    ensures
        opt_view(r) == banner_text(bytes@),
{
    let mut t: Vec<u8> = Vec::new();
    let mut i: usize = 0;
    while i < bytes.len() && bytes[i] != 0
        invariant
            i <= bytes@.len(),
            forall|k: int| 0 <= k < i ==> bytes@[k] != 0,
            t@ == bytes@.subrange(0, i as int),
        decreases bytes@.len() - i,
    {
        t.push(bytes[i]);
        i = i + 1;
        assert(t@ =~= bytes@.subrange(0, i as int));
    }
    proof {
        lemma_before_nul(bytes@, i as int);
    }
    if t.len() == 0 {
        return None;
    }
    let text = match utf8_string(t) {
        Some(s) => s,
        None => return None,
    };
    let c = chars_of(text.as_str());
    let s = trim_chars(&c);
    if s.len() == 0 {
        None
    } else {
        Some(string_of(&s))
    }
}

/// The prefix free of NUL that ends at a NUL or the end is `before_nul`.
proof fn lemma_before_nul(b: Seq<u8>, i: int)
    requires
        0 <= i <= b.len(),
        i == b.len() || b[i] == 0,
        forall|k: int| 0 <= k < i ==> b[k] != 0,
    ensures
        before_nul(b) == b.subrange(0, i),
    decreases b.len(),
{
    if i == 0 {
        assert(b.subrange(0, 0) =~= Seq::<u8>::empty());
    } else {
        lemma_before_nul(b.drop_first(), i - 1);
        assert(b.subrange(0, i) =~= seq![b[0]] + b.drop_first().subrange(0, i - 1));
    }
}

// ---------------------------------------------------------------------------
// Services from probe results.
// ---------------------------------------------------------------------------

/// An open TCP port with what was read from it.
#[derive(Clone, Debug, PartialEq, Eq)]
pub struct PortHit {
    pub port: u16,
    /// Passive greeting, if any.
    pub banner: Option<String>,
    /// Active probe result, when the profile runs probes.
    pub probe: Option<ProbeResult>,
}

/// Service name of a port as an owned string.
fn service_name_string(port: u16) -> (r: Option<String>)
    ensures
        opt_view(r) == service_name_of(port),
{
    match port_to_service_name(port) {
        Some(n) => Some(n.to_string()),
        None => None,
    }
}

/// Builds the open TCP [`Service`] of a hit: product and version from the
/// probe, the probe's banner before the passive one, the port's IANA name.
/// Identity and timestamps are left empty for the store to fill.
pub fn to_service_with_probe(hit: PortHit) -> (s: Service)
    ensures
        s.protocol == Protocol::Tcp,
        s.state == ServiceState::Open,
        s.port == hit.port,
        opt_view(s.service_name) == service_name_of(hit.port),
        s.product == (match hit.probe {
            Some(p) => p.product,
            None => None,
        }),
        s.version == (match hit.probe {
            Some(p) => p.version,
            None => None,
        }),
        s.banner == (match hit.probe {
            Some(p) => if p.banner is Some {
                p.banner
            } else {
                hit.banner
            },
            None => hit.banner,
        }),
        s.id@.len() == 0,
        s.device_id@.len() == 0,
        s.first_seen_at@.len() == 0,
        s.last_seen_at@.len() == 0,
{
    let (product, version, banner) = match hit.probe {
        Some(p) => {
            let b = if p.banner.is_some() {
                p.banner
            } else {
                hit.banner
            };
            (p.product, p.version, b)
        },
        None => (None, None, hit.banner),
    };
    Service {
        id: String::new(),
        device_id: String::new(),
        protocol: Protocol::Tcp,
        port: hit.port,
        service_name: service_name_string(hit.port),
        product,
        version,
        banner,
        state: ServiceState::Open,
        first_seen_at: String::new(),
        last_seen_at: String::new(),
    }
}

/// Builds the UDP [`Service`] of a probed port in state `state`.
pub fn to_udp_service(port: u16, state: ServiceState) -> (s: Service)
    ensures
        s.protocol == Protocol::Udp,
        s.state == state,
        s.port == port,
        opt_view(s.service_name) == service_name_of(port),
        s.product is None,
        s.version is None,
        s.banner is None,
        s.id@.len() == 0,
        s.device_id@.len() == 0,
        s.first_seen_at@.len() == 0,
        s.last_seen_at@.len() == 0,
{
    Service {
        id: String::new(),
        device_id: String::new(),
        protocol: Protocol::Udp,
        port,
        service_name: service_name_string(port),
        product: None,
        version: None,
        banner: None,
        state,
        first_seen_at: String::new(),
        last_seen_at: String::new(),
    }
}

/// What a UDP probe got back.
#[derive(Clone, Copy, Debug, PartialEq, Eq, Structural)]
pub enum UdpReply {
    /// A datagram came back.
    Answered,
    /// The port is refused (an ICMP port unreachable came back).
    Refused,
    /// Nothing came back in time, or the socket failed.
    Silent,
}

/// The state a UDP probe reports: an answer means open, a refusal closed,
/// silence filtered (UDP cannot tell open from filtered).
pub fn udp_state(reply: UdpReply) -> (s: ServiceState)
    ensures
        s == match reply {
            UdpReply::Answered => ServiceState::Open,
            UdpReply::Refused => ServiceState::Closed,
            UdpReply::Silent => ServiceState::Filtered,
        },
{
    match reply {
        UdpReply::Answered => ServiceState::Open,
        UdpReply::Refused => ServiceState::Closed,
        UdpReply::Silent => ServiceState::Filtered,
    }
}

} // verus!
