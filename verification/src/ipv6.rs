//! IPv6 address text, with the grammar of `Ipv6Addr`'s `FromStr`: eight
//! groups of one to four hexadecimal digits separated by colons, one `::`
//! standing for a run of at least one zero group, and optionally a dotted
//! IPv4 address as the last two groups.

use vstd::prelude::*;

use crate::model::{hex_value, hex_value_of, ipv4_from_text, parse_ipv4};
use crate::text::{find, find_chars, lemma_find_from, matches_at, slice_chars, split, split_chars, views};

verus! {

/// Value of a run of hexadecimal digits (either case), if all are digits.
pub open spec fn hex_digits_value(f: Seq<char>) -> Option<nat>
    decreases f.len(),
{
    if f.len() == 0 {
        Some(0)
    } else {
        match (hex_digits_value(f.drop_last()), hex_value(f.last())) {
            (Some(a), Some(d)) => Some(a * 16 + d),
            _ => None,
        }
    }
}

/// One group: one to four hexadecimal digits.
pub open spec fn hex_group(f: Seq<char>) -> Option<u16> {
    if 1 <= f.len() <= 4 {
        match hex_digits_value(f) {
            Some(v) => Some(v as u16),
            None => None,
        }
    } else {
        None
    }
}

/// The two 16-bit words of an IPv4 address.
pub open spec fn v4_words(a: u32) -> Seq<u16> {
    seq![(a / 65536) as u16, (a % 65536) as u16]
}

/// The words written by colon-separated `fields`: each a group, except that
/// the last may be a dotted IPv4 address (two words) when `v4_last` holds.
pub open spec fn field_words(fields: Seq<Seq<char>>, v4_last: bool) -> Option<Seq<u16>>
    decreases fields.len(),
{
    if fields.len() == 0 {
        Some(seq![])
    } else {
        let last: Option<Seq<u16>> = match hex_group(fields.last()) {
            Some(g) => Some(seq![g]),
            None => if v4_last {
                match ipv4_from_text(fields.last()) {
                    Some(a) => Some(v4_words(a)),
                    None => None,
                }
            } else {
                None
            },
        };
        match (field_words(fields.drop_last(), false), last) {
            (Some(init), Some(l)) => Some(init + l),
            _ => None,
        }
    }
}

/// The words of one side of a `::`: none for an empty side, else those of
/// its colon-separated fields.
pub open spec fn part_words(t: Seq<char>, v4_last: bool) -> Option<Seq<u16>> {
    if t.len() == 0 {
        Some(seq![])
    } else {
        field_words(split(t, ':'), v4_last)
    }
}

/// `n` zero words.
pub open spec fn zero_words(n: nat) -> Seq<u16> {
    Seq::new(n, |i: int| 0u16)
}

/// The eight words written as `s`. With a `::` (its first occurrence), the
/// words before it (no IPv4 there) and after it, at most seven together,
/// with zeros between them; without one, exactly eight words.
pub open spec fn ipv6_words(s: Seq<char>) -> Option<Seq<u16>> {
    match find(s, seq![':', ':']) {
        Some(p) => match (
            part_words(s.subrange(0, p), false),
            part_words(s.subrange(p + 2, s.len() as int), true),
        ) {
            (Some(h), Some(t)) => if h.len() + t.len() <= 7 {
                Some(h + zero_words((8 - h.len() - t.len()) as nat) + t)
            } else {
                None
            },
            _ => None,
        },
        None => match field_words(split(s, ':'), true) {
            Some(w) => if w.len() == 8 {
                Some(w)
            } else {
                None
            },
            None => None,
        },
    }
}

/// The number of which `w` are the big-endian 16-bit words.
pub open spec fn words_value(w: Seq<u16>) -> nat
    decreases w.len(),
{
    if w.len() == 0 {
        0
    } else {
        words_value(w.drop_last()) * 65536 + w.last() as nat
    }
}

/// `65536` to the power `n`.
pub open spec fn word_bound(n: nat) -> nat
    decreases n,
{
    if n == 0 {
        1
    } else {
        word_bound((n - 1) as nat) * 65536
    }
}

/// The IPv6 address written as `s`, as a number.
pub open spec fn ipv6_from_text(s: Seq<char>) -> Option<u128> {
    match ipv6_words(s) {
        Some(w) => Some(words_value(w) as u128),
        None => None,
    }
}

/// `n` words make a number below `65536^n`.
proof fn lemma_words_value_bound(w: Seq<u16>)
    ensures
        words_value(w) < word_bound(w.len()),
    decreases w.len(),
{
    if w.len() > 0 {
        lemma_words_value_bound(w.drop_last());
    }
}

/// `65536^8` is `2^128`.
proof fn lemma_word_bound_8()
    ensures
        word_bound(8) == 0x1_0000_0000_0000_0000_0000_0000_0000_0000nat,
{
    reveal_with_fuel(word_bound, 9);
}

/// A prefix that is not all hex digits makes the whole text not all digits.
proof fn lemma_hex_digits_none(p: Seq<char>, i: int)
    requires
        0 <= i <= p.len(),
        hex_digits_value(p.subrange(0, i)) is None,
    ensures
        hex_digits_value(p) is None,
    decreases p.len() - i,
{
    if i < p.len() {
        assert(p.subrange(0, i + 1).drop_last() =~= p.subrange(0, i));
        lemma_hex_digits_none(p, i + 1);
    } else {
        assert(p.subrange(0, i) =~= p);
    }
}

/// `65536^n` grows with `n`.
proof fn lemma_word_bound_mono(i: nat, j: nat)
    requires
        i <= j,
    ensures
        word_bound(i) <= word_bound(j),
    decreases j,
{
    if i < j {
        lemma_word_bound_mono(i, (j - 1) as nat);
    }
}

/// Executable [`hex_group`].
fn hex_group_of(f: &[char]) -> (r: Option<u16>)
    ensures
        r == hex_group(f@),
{
    if f.len() < 1 || f.len() > 4 {
        return None;
    }
    let mut v: u32 = 0;
    let mut i: usize = 0;
    while i < f.len()
        invariant
            1 <= f@.len() <= 4,
            i <= f@.len(),
            hex_digits_value(f@.subrange(0, i as int)) == Some(v as nat),
            v < if i == 0 {
                1u32
            } else if i == 1 {
                16u32
            } else if i == 2 {
                256u32
            } else if i == 3 {
                4096u32
            } else {
                65536u32
            },
        decreases f@.len() - i,
    {
        assert(f@.subrange(0, i + 1).drop_last() =~= f@.subrange(0, i as int));
        match hex_value_of(f[i]) {
            Some(d) => {
                v = v * 16 + d as u32;
            },
            None => {
                assert(hex_digits_value(f@.subrange(0, i + 1)) is None);
                proof {
                    lemma_hex_digits_none(f@, i as int + 1);
                }
                return None;
            },
        }
        i = i + 1;
    }
    assert(f@.subrange(0, f@.len() as int) =~= f@);
    Some(v as u16)
}

/// When the words of all fields exist, so do those of every proper prefix
/// read without an IPv4 tail.
proof fn lemma_field_words_prefix(v: Seq<Seq<char>>, b: bool, k: int)
    requires
        field_words(v, b) is Some,
        0 <= k < v.len(),
    ensures
        field_words(v.subrange(0, k), false) is Some,
    decreases v.len(),
{
    assert(v.drop_last() =~= v.subrange(0, v.len() - 1));
    if k < v.len() - 1 {
        lemma_field_words_prefix(v.drop_last(), false, k);
        assert(v.drop_last().subrange(0, k) =~= v.subrange(0, k));
    }
}

/// Executable [`field_words`].
fn field_words_of(fields: &Vec<Vec<char>>, v4_last: bool) -> (r: Option<Vec<u16>>)
    ensures
        match r {
            Some(w) => field_words(views(fields@), v4_last) == Some(w@),
            None => field_words(views(fields@), v4_last) is None,
        },
{
    let ghost vs = views(fields@);
    let n = fields.len();
    let mut out: Vec<u16> = Vec::new();
    let mut i: usize = 0;
    assert(vs.subrange(0, 0) =~= Seq::<Seq<char>>::empty());
    while i < n
        invariant
            n == fields@.len() == vs.len(),
            vs == views(fields@),
            i <= n,
            n > 0 ==> i < n,
            field_words(vs.subrange(0, i as int), false) == Some(out@),
        decreases n - i,
    {
        let ghost pre = vs.subrange(0, i as int);
        let ghost next = vs.subrange(0, i + 1);
        assert(next.drop_last() =~= pre);
        assert(next.last() == fields@[i as int]@);
        let is_last = i + 1 == n;
        match hex_group_of(fields[i].as_slice()) {
            Some(g) => {
                if is_last {
                    assert(next =~= vs);
                    out.push(g);
                    return Some(out);
                }
                let ghost init = out@;
                out.push(g);
                assert(out@ =~= init + seq![g]);
            },
            None => {
                if is_last && v4_last {
                    assert(next =~= vs);
                    match parse_ipv4(fields[i].as_slice()) {
                        Some(a) => {
                            let ghost init = out@;
                            out.push((a / 65536) as u16);
                            out.push((a % 65536) as u16);
                            assert(out@ =~= init + v4_words(a));
                            return Some(out);
                        },
                        None => {
                            return None;
                        },
                    }
                }
                proof {
                    if field_words(vs, v4_last) is Some {
                        if i + 1 < n {
                            lemma_field_words_prefix(vs, v4_last, i + 1);
                        } else {
                            assert(next =~= vs);
                        }
                    }
                }
                return None;
            },
        }
        i = i + 1;
    }
    assert(vs.subrange(0, n as int) =~= vs);
    Some(out)
}

/// Executable [`part_words`].
fn part_words_of(t: &[char], v4_last: bool) -> (r: Option<Vec<u16>>)
    ensures
        match r {
            Some(w) => part_words(t@, v4_last) == Some(w@),
            None => part_words(t@, v4_last) is None,
        },
{
    if t.len() == 0 {
        return Some(Vec::new());
    }
    let fields = split_chars(t, ':');
    field_words_of(&fields, v4_last)
}

/// The number of eight words.
fn words_number(w: &[u16]) -> (v: u128)
    requires
        w@.len() == 8,
    ensures
        v == words_value(w@),
{
    let mut v: u128 = 0;
    let mut i: usize = 0;
    proof {
        lemma_word_bound_8();
    }
    assert(w@.subrange(0, 0) =~= Seq::<u16>::empty());
    while i < 8
        invariant
            w@.len() == 8,
            i <= 8,
            words_value(w@.subrange(0, i as int)) == v,
            word_bound(8) == 0x1_0000_0000_0000_0000_0000_0000_0000_0000nat,
            v < word_bound(i as nat),
        decreases 8 - i,
    {
        assert(w@.subrange(0, i + 1).drop_last() =~= w@.subrange(0, i as int));
        assert(word_bound((i + 1) as nat) == word_bound(i as nat) * 65536);
        proof {
            lemma_word_bound_mono((i + 1) as nat, 8);
        }
        v = v * 65536 + w[i] as u128;
        i = i + 1;
    }
    assert(w@.subrange(0, 8) =~= w@);
    v
}

/// Parses IPv6 text (see [`ipv6_words`]).
pub fn parse_ipv6(s: &[char]) -> (r: Option<u128>)
    ensures
        r == ipv6_from_text(s@),
{
    let n = s.len();
    let sep: [char; 2] = [':', ':'];
    assert(sep@ =~= seq![':', ':']);
    let words: Vec<u16> = match find_chars(s, &sep) {
        Some(p) => {
            proof {
                lemma_find_from(s@, seq![':', ':'], 0);
                assert(find(s@, seq![':', ':']) == Some(p as int));
                assert(p + 2 <= s@.len());
            }
            let head = slice_chars(s, 0, p);
            let tail = slice_chars(s, p + 2, n);
            let h = match part_words_of(&head, false) {
                Some(h) => h,
                None => return None,
            };
            let t = match part_words_of(&tail, true) {
                Some(t) => t,
                None => return None,
            };
            if h.len() > 7 || t.len() > 7 - h.len() {
                return None;
            }
            let zeros = 8 - h.len() - t.len();
            let mut w: Vec<u16> = Vec::new();
            let mut i: usize = 0;
            while i < h.len()
                invariant
                    i <= h@.len(),
                    w@ == h@.subrange(0, i as int),
                decreases h@.len() - i,
            {
                w.push(h[i]);
                i = i + 1;
            }
            let mut z: usize = 0;
            while z < zeros
                invariant
                    z <= zeros,
                    w@ == h@ + zero_words(z as nat),
                decreases zeros - z,
            {
                w.push(0);
                z = z + 1;
                assert(w@ =~= h@ + zero_words(z as nat));
            }
            let mut j: usize = 0;
            while j < t.len()
                invariant
                    j <= t@.len(),
                    w@ == h@ + zero_words(zeros as nat) + t@.subrange(0, j as int),
                decreases t@.len() - j,
            {
                w.push(t[j]);
                j = j + 1;
                assert(w@ =~= h@ + zero_words(zeros as nat) + t@.subrange(0, j as int));
            }
            assert(t@.subrange(0, t@.len() as int) =~= t@);
            w
        },
        None => {
            let fields = split_chars(s, ':');
            match field_words_of(&fields, true) {
                Some(w) => {
                    if w.len() != 8 {
                        return None;
                    }
                    w
                },
                None => return None,
            }
        },
    };
    proof {
        lemma_words_value_bound(words@);
        lemma_word_bound_8();
    }
    Some(words_number(words.as_slice()))
}

} // verus!
