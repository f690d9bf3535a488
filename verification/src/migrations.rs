//! Schema versions of the inventory database: which migrations a database at
//! a given `user_version` still needs, and the statement that records a
//! version.

use vstd::prelude::*;

use crate::text::{chars_of, decimal, extend_chars, push_decimal, string_of};

verus! {

/// The schema versions, in the order their migrations run.
pub const SCHEMA_VERSIONS: [u32; 4] = [1, 2, 3, 4];

/// The latest schema version this library knows.
pub fn latest_schema_version() -> (v: u32)
    ensures
        v == 4,
{
    SCHEMA_VERSIONS[3]
}

/// The versions of `vs` above `current`, in order.
pub open spec fn above(vs: Seq<u32>, current: u32) -> Seq<u32>
    decreases vs.len(),
{
    if vs.len() == 0 {
        seq![]
    } else if vs.last() > current {
        above(vs.drop_last(), current).push(vs.last())
    } else {
        above(vs.drop_last(), current)
    }
}

/// The versions still to apply to a database at version `current`, in
/// order: those above it.
pub open spec fn pending_of(current: u32) -> Seq<u32> {
    above(seq![1u32, 2u32, 3u32, 4u32], current)
}

/// The migrations a database at `current` still needs (see [`pending_of`]).
pub fn pending_migrations(current: u32) -> (r: Vec<u32>)
    ensures
        r@ == pending_of(current),
        forall|i: int| 0 <= i < r@.len() ==> current < #[trigger] r@[i] <= 4,
        forall|i: int, j: int| 0 <= i < j < r@.len() ==> r@[i] < r@[j],
{
    let mut r: Vec<u32> = Vec::new();
    let mut i: usize = 0;
    let ghost all = seq![1u32, 2u32, 3u32, 4u32];
    assert(SCHEMA_VERSIONS@ == all);
    while i < 4
        invariant
            i <= 4,
            SCHEMA_VERSIONS@ == all,
            r@ == above(all.subrange(0, i as int), current),
            forall|k: int| 0 <= k < r@.len() ==> current < #[trigger] r@[k] <= i,
            forall|a: int, b: int| 0 <= a < b < r@.len() ==> r@[a] < r@[b],
        decreases 4 - i,
    {
        let v = SCHEMA_VERSIONS[i];
        proof {
            let s = all.subrange(0, i + 1);
            assert(s.drop_last() =~= all.subrange(0, i as int));
            assert(s.last() == v);
        }
        if v > current {
            r.push(v);
        }
        i = i + 1;
    }
    assert(all.subrange(0, 4) =~= all);
    r
}

/// A database at the latest version needs no migration.
pub proof fn lemma_latest_needs_nothing()
    ensures
        pending_of(4).len() == 0,
{
    let s = seq![1u32, 2u32, 3u32, 4u32];
    assert(s.drop_last().drop_last().drop_last().drop_last() =~= Seq::<u32>::empty());
    assert(s.drop_last().drop_last().drop_last() =~= seq![1u32]);
    assert(s.drop_last().drop_last() =~= seq![1u32, 2u32]);
    assert(s.drop_last() =~= seq![1u32, 2u32, 3u32]);
    assert(above(s.drop_last().drop_last().drop_last().drop_last(), 4).len() == 0);
    assert(above(s.drop_last().drop_last().drop_last(), 4).len() == 0);
    assert(above(s.drop_last().drop_last(), 4).len() == 0);
    assert(above(s.drop_last(), 4).len() == 0);
}

/// A database below the latest version needs migrations, and the last of
/// them brings it to the latest version.
pub proof fn lemma_migrations_reach_latest(current: u32)
    requires
        current < 4,
    ensures
        pending_of(current).len() > 0,
        pending_of(current).last() == 4,
{
    let s = seq![1u32, 2u32, 3u32, 4u32];
    assert(s.last() == 4u32);
}

/// The schema version stored by SQLite (`PRAGMA user_version`, an `i64`) as a
/// version number: values outside `u32` read as 0.
pub fn stored_version(raw: i64) -> (v: u32)
    ensures
        v == (if 0 <= raw <= u32::MAX {
            raw as u32
        } else {
            0u32
        }),
{
    if 0 <= raw && raw <= 4294967295 {
        raw as u32
    } else {
        0
    }
}

/// The statement recording schema version `v`: `PRAGMA user_version = v;`.
pub fn set_version_sql(v: u32) -> (r: String)
    ensures
        r@ == "PRAGMA user_version = "@ + decimal(v as nat) + seq![';'],
{
    let mut s: Vec<char> = Vec::new();
    extend_chars(&mut s, &chars_of("PRAGMA user_version = "));
    push_decimal(&mut s, v as u64);
    s.push(';');
    assert(s@ =~= "PRAGMA user_version = "@ + decimal(v as nat) + seq![';']);
    string_of(&s)
}

} // verus!
