//! Where the inventory database lives by default: `$XDG_DATA_HOME/mylan`, or
//! `~/.local/share/mylan`, holding `mylan.db`.

use vstd::prelude::*;

use crate::text::{chars_of, extend_chars, string_of};

verus! {

/// `comp` appended to the path `base` as a further component: a `/` goes
/// between them unless `base` is empty or already ends with one.
pub open spec fn path_join(base: Seq<char>, comp: Seq<char>) -> Seq<char> {
    if base.len() == 0 || base.last() == '/' {
        base + comp
    } else {
        base + seq!['/'] + comp
    }
}

/// Appends the relative component `comp` to the path in `p`.
fn push_component(p: &mut Vec<char>, comp: &str)
    ensures
        final(p)@ == path_join(old(p)@, comp@),
{
    let n = p.len();
    if n > 0 && p[n - 1] != '/' {
        p.push('/');
    }
    extend_chars(p, &chars_of(comp));
    assert(p@ =~= path_join(old(p)@, comp@));
}

/// The default data directory, given the values of `XDG_DATA_HOME` and
/// `HOME`: `<xdg>/mylan` when `XDG_DATA_HOME` is set and not empty, else
/// `<home>/.local/share/mylan` when `HOME` is set and not empty, else none.
pub open spec fn data_dir_of(xdg: Option<Seq<char>>, home: Option<Seq<char>>) -> Option<Seq<char>> {
    match xdg {
        Some(x) if x.len() > 0 => Some(path_join(x, "mylan"@)),
        _ => match home {
            Some(h) if h.len() > 0 => Some(
                path_join(path_join(path_join(h, ".local"@), "share"@), "mylan"@),
            ),
            _ => None,
        },
    }
}

/// The characters of an optional string.
pub open spec fn opt_text(s: Option<&str>) -> Option<Seq<char>> {
    match s {
        Some(t) => Some(t@),
        None => None,
    }
}

/// The default data directory (see [`data_dir_of`]).
pub fn default_data_dir(xdg: Option<&str>, home: Option<&str>) -> (r: Option<String>)
    ensures
        match r {
            Some(d) => data_dir_of(opt_text(xdg), opt_text(home)) == Some(d@),
            None => data_dir_of(opt_text(xdg), opt_text(home)) is None,
        },
{
    match xdg {
        Some(x) => {
            if !x.is_empty() {
                let mut p = chars_of(x);
                push_component(&mut p, "mylan");
                return Some(string_of(&p));
            }
        },
        None => {},
    }
    match home {
        Some(h) => {
            if !h.is_empty() {
                let mut p = chars_of(h);
                push_component(&mut p, ".local");
                push_component(&mut p, "share");
                push_component(&mut p, "mylan");
                return Some(string_of(&p));
            }
            None
        },
        None => None,
    }
}

/// The default database file, given the values of `XDG_DATA_HOME` and
/// `HOME`: `mylan.db` inside [`default_data_dir`], if there is one.
pub fn default_db_path(xdg: Option<&str>, home: Option<&str>) -> (r: Option<String>)
    ensures
        match r {
            Some(p) => data_dir_of(opt_text(xdg), opt_text(home)) matches Some(d) && p@ == path_join(
                d,
                "mylan.db"@,
            ),
            None => data_dir_of(opt_text(xdg), opt_text(home)) is None,
        },
{
    match default_data_dir(xdg, home) {
        Some(d) => Some(db_path_in(d.as_str())),
        None => None,
    }
}

/// The default database file inside data directory `dir`: `<dir>/mylan.db`.
pub fn db_path_in(dir: &str) -> (r: String)
    ensures
        r@ == path_join(dir@, "mylan.db"@),
{
    let mut p = chars_of(dir);
    push_component(&mut p, "mylan.db");
    string_of(&p)
}

} // verus!
