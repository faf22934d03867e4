//! Local Steam install detection: which apps are installed on disk and where.
//!
//! Steam records installs in two text-VDF files under each library's `steamapps/` directory:
//! `libraryfolders.vdf` lists every library `path`, and `appmanifest_<appid>.acf` records each
//! installed app's `installdir` and `StateFlags`. The game's files live at
//! `<library>/steamapps/common/<installdir>/`. This module reads the text of those files; the
//! caller does the reading.

use vstd::prelude::*;

use crate::paths::{
    backslash_style,
    compare_paths,
    join_path,
    lemma_join_backslash,
    lemma_path_order_antisym,
    lemma_path_order_trans,
    path_order,
    spec_join,
};
use crate::text::{chars_of, parse_unsigned, spec_parse_unsigned, spec_trim, strings_view, trim_chars};
use crate::vdf::{
    entries_view,
    lemma_entries_view_index,
    lemma_entries_view_len,
    lemma_node,
    parse,
    spec_find_map,
    spec_find_str,
    spec_parse,
    VdfNode,
    VdfValue,
};

verus! {

/// `StateFlags` bit set when an app is fully installed (not updating / staging).
pub const STATE_FULLY_INSTALLED: u32 = 4;

/// An app found installed in a Steam library.
#[derive(Debug, Clone, PartialEq, Eq)]
pub struct InstalledApp {
    pub appid: u32,
    pub name: String,
    /// Folder name under `steamapps/common/`.
    pub installdir: String,
    /// Library root that contains this app (e.g. `/home/me/.local/share/Steam`).
    pub library_path: String,
    /// Raw `StateFlags` from the appmanifest.
    pub state_flags: u32,
}

impl InstalledApp {
    /// `<library>/steamapps/common/<installdir>`, joined with the library path's separator.
    pub open spec fn spec_install_path(&self) -> Seq<char> {
        spec_join(spec_join(spec_join(self.library_path@, "steamapps"@), "common"@), self.installdir@)
    }

    /// Absolute path to the game's install directory.
    pub fn install_path(&self) -> (r: String)
        ensures
            r@ == self.spec_install_path(),
            backslash_style(self.library_path@) && self.library_path@.last() != '\\'
                && !self.installdir@.contains('/') ==> r@ == self.library_path@ + seq!['\\']
                + "steamapps"@ + seq!['\\'] + "common"@ + seq!['\\'] + self.installdir@,
    {
        proof {
            if backslash_style(self.library_path@) && self.library_path@.last() != '\\'
                && !self.installdir@.contains('/') {
                reveal_strlit("steamapps");
                reveal_strlit("common");
                let s = "steamapps"@;
                let c = "common"@;
                assert(!s.contains('/'));
                assert(!c.contains('/'));
                lemma_join_backslash(self.library_path@, s);
                let a = spec_join(self.library_path@, s);
                assert(a.last() == 's');
                lemma_join_backslash(a, c);
                let b = spec_join(a, c);
                assert(b.last() == 'n');
                lemma_join_backslash(b, self.installdir@);
            }
        }
        let a = join_path(self.library_path.as_str(), "steamapps");
        let b = join_path(a.as_str(), "common");
        join_path(b.as_str(), self.installdir.as_str())
    }

    /// Whether the app is fully installed (ready to launch).
    pub fn is_fully_installed(&self) -> (r: bool)
        ensures
            r == (self.state_flags & STATE_FULLY_INSTALLED != 0),
    {
        self.state_flags & STATE_FULLY_INSTALLED != 0
    }
}

/// The `path` of every numbered block of a `libraryfolders` block, in order; blocks without
/// a string `path` are skipped.
pub open spec fn spec_folder_paths(es: Seq<(Seq<char>, VdfNode)>) -> Seq<Seq<char>>
    decreases es.len(),
{
    if es.len() == 0 {
        Seq::empty()
    } else {
        let head: Seq<Seq<char>> = match es[0].1 {
            VdfNode::Block(m) => match spec_find_str(m, "path"@) {
                Some(p) => seq![p],
                None => Seq::empty(),
            },
            VdfNode::Str(_) => Seq::empty(),
        };
        head + spec_folder_paths(es.drop_first())
    }
}

/// Library roots listed in the text of a `libraryfolders.vdf` (empty when it does not parse
/// or has no `libraryfolders` block).
pub open spec fn spec_library_paths(text: Seq<char>) -> Seq<Seq<char>> {
    match spec_parse(text) {
        Some(root) => match spec_find_map(root, "libraryfolders"@) {
            Some(folders) => spec_folder_paths(folders),
            None => Seq::empty(),
        },
        None => Seq::empty(),
    }
}

/// Extracts the library `path` values from `libraryfolders.vdf` text.
pub fn parse_library_paths(text: &str) -> (r: Vec<String>)
    ensures
        strings_view(r@) == spec_library_paths(text@),
{
    let root = match parse(text) {
        Some(root) => root,
        None => {
            return Vec::new();
        },
    };
    let folders = match root.map("libraryfolders") {
        Some(f) => f,
        None => {
            return Vec::new();
        },
    };
    let entries = folders.entries();
    let ghost es = folders@;
    proof {
        lemma_entries_view_len(entries@);
        assert(es.skip(0) =~= es);
    }
    let mut out: Vec<String> = Vec::new();
    let mut i: usize = 0;
    while i < entries.len()
        invariant
            entries_view(entries@) == es,
            es.len() == entries@.len(),
            i <= entries.len(),
            spec_library_paths(text@) == spec_folder_paths(es),
            spec_folder_paths(es) == strings_view(out@) + spec_folder_paths(es.skip(i as int)),
        decreases entries.len() - i,
    {
        proof {
            lemma_entries_view_index(entries@, i as int);
            lemma_node(entries@[i as int].1);
            assert(es.skip(i as int).drop_first() =~= es.skip(i + 1));
            assert(es.skip(i as int)[0] == es[i as int]);
        }
        let ghost old_out = strings_view(out@);
        let ghost rest = spec_folder_paths(es.skip(i as int));
        let ghost tail = spec_folder_paths(es.skip(i + 1));
        match &entries[i].1 {
            VdfValue::Block(m) => {
                match m.str("path") {
                    Some(p) => {
                        let ghost before = out@;
                        out.push(p.to_owned());
                        assert(strings_view(out@) =~= strings_view(before) + seq![p@]);
                        assert(rest == seq![p@] + tail);
                    },
                    None => {
                        assert(rest =~= tail);
                    },
                }
            },
            VdfValue::Str(_) => {
                assert(rest =~= tail);
            },
        }
        i += 1;
        assert(strings_view(out@) + tail =~= old_out + rest);
    }
    assert(es.skip(entries.len() as int) =~= Seq::<(Seq<char>, VdfNode)>::empty());
    assert(strings_view(out@) + Seq::<Seq<char>>::empty() =~= strings_view(out@));
    out
}

/// A decimal number after trimming whitespace, as `str::trim().parse::<u32>()` reads it.
pub open spec fn spec_parse_u32_trimmed(s: Seq<char>) -> Option<u32> {
    match spec_parse_unsigned(spec_trim(s), 10, 0xffff_ffff) {
        Some(v) => Some(v as u32),
        None => None,
    }
}

/// Parses a trimmed decimal `u32`.
pub fn parse_u32_trimmed(s: &str) -> (r: Option<u32>)
    ensures
        r == spec_parse_u32_trimmed(s@),
{
    let cs = chars_of(s);
    let t = trim_chars(&cs);
    match parse_unsigned(&t, 10, 0xffff_ffff) {
        Some(v) => Some(v as u32),
        None => None,
    }
}

/// The fields an `appmanifest_<appid>.acf` gives: `(appid, name, installdir, state_flags)`.
/// `None` when the text does not parse, lacks an `AppState` block, has no numeric `appid`,
/// or has a missing or empty `installdir`. A missing `name` reads as empty and a missing or
/// non-numeric `StateFlags` as `0`.
pub open spec fn spec_appmanifest(text: Seq<char>) -> Option<(u32, Seq<char>, Seq<char>, u32)> {
    match spec_parse(text) {
        None => None,
        Some(root) => match spec_find_map(root, "AppState"@) {
            None => None,
            Some(state) => match spec_find_str(state, "appid"@) {
                None => None,
                Some(appid_text) => match spec_parse_u32_trimmed(appid_text) {
                    None => None,
                    Some(appid) => match spec_find_str(state, "installdir"@) {
                        None => None,
                        Some(installdir) => if installdir.len() == 0 {
                            None
                        } else {
                            let name = match spec_find_str(state, "name"@) {
                                Some(n) => n,
                                None => Seq::empty(),
                            };
                            let flags = match spec_find_str(state, "StateFlags"@) {
                                Some(f) => match spec_parse_u32_trimmed(f) {
                                    Some(v) => v,
                                    None => 0u32,
                                },
                                None => 0u32,
                            };
                            Some((appid, name, installdir, flags))
                        },
                    },
                },
            },
        },
    }
}

/// Parses an `appmanifest_<appid>.acf` body into an [`InstalledApp`] found in the library
/// rooted at `library_path`.
pub fn parse_appmanifest(text: &str, library_path: &str) -> (r: Option<InstalledApp>)
    ensures
        match r {
            Some(app) => spec_appmanifest(text@) == Some(
                (app.appid, app.name@, app.installdir@, app.state_flags),
            ) && app.library_path@ == library_path@,
            None => spec_appmanifest(text@) is None,
        },
{
    let root = match parse(text) {
        Some(root) => root,
        None => {
            return None;
        },
    };
    let state = match root.map("AppState") {
        Some(s) => s,
        None => {
            return None;
        },
    };
    let appid = match state.str("appid") {
        Some(a) => match parse_u32_trimmed(a) {
            Some(v) => v,
            None => {
                return None;
            },
        },
        None => {
            return None;
        },
    };
    let installdir = match state.str("installdir") {
        Some(d) => d.to_owned(),
        None => {
            return None;
        },
    };
    if installdir.as_str().is_empty() {
        return None;
    }
    let name = match state.str("name") {
        Some(n) => n.to_owned(),
        None => String::new(),
    };
    let state_flags = match state.str("StateFlags") {
        Some(f) => match parse_u32_trimmed(f) {
            Some(v) => v,
            None => 0,
        },
        None => 0,
    };
    Some(
        InstalledApp {
            appid,
            name,
            installdir,
            library_path: library_path.to_owned(),
            state_flags,
        },
    )
}

/// Paths in strictly ascending component order: no two name the same place.
pub open spec fn paths_ascending(r: Seq<String>) -> bool {
    forall|i: int, j: int| 0 <= i < j < r.len() ==> path_order(r[i]@, r[j]@) < 0
}

/// `x` occurs in `ins`, and no earlier path there has the same components.
pub open spec fn first_of_kind(ins: Seq<Seq<char>>, x: Seq<char>) -> bool {
    exists|k: int|
        0 <= k < ins.len() && ins[k] == x && forall|j: int| 0 <= j < k ==> path_order(ins[j], x) != 0
}

/// The path at `k` of `ins` has one with the same components in `r`.
pub open spec fn covered_at(ins: Seq<Seq<char>>, r: Seq<String>, k: int) -> bool {
    exists|i: int| 0 <= i < r.len() && path_order(ins[k], r[i]@) == 0
}

/// Every path of `ins` has one with the same components in `r`.
pub open spec fn kinds_covered(ins: Seq<Seq<char>>, r: Seq<String>) -> bool {
    forall|k: int| 0 <= k < ins.len() ==> #[trigger] covered_at(ins, r, k)
}

/// Two paths with the same components as a third have the same components.
proof fn lemma_same_place(a: Seq<char>, b: Seq<char>, c: Seq<char>)
    requires
        path_order(a, b) == 0,
        path_order(b, c) == 0,
    ensures
        path_order(a, c) == 0,
        path_order(c, a) == 0,
{
    lemma_path_order_antisym(a, b);
    lemma_path_order_antisym(b, c);
    lemma_path_order_antisym(a, c);
}

/// `out` with `p` put in place, unless a path with the same components is there already.
fn insert_path(out: &mut Vec<String>, p: String)
    requires
        paths_ascending(old(out)@),
    ensures
        paths_ascending(final(out)@),
        (exists|i: int| 0 <= i < old(out)@.len() && path_order(old(out)@[i]@, p@) == 0) ==> final(out)@
            == old(out)@,
        !(exists|i: int| 0 <= i < old(out)@.len() && path_order(old(out)@[i]@, p@) == 0) ==> exists|
            k: int,
        |
            0 <= k <= old(out)@.len() && final(out)@ == old(out)@.insert(k, p),
{
    let mut i: usize = 0;
    while i < out.len() && compare_paths(p.as_str(), out[i].as_str()) > 0
        invariant
            paths_ascending(out@),
            out@ == old(out)@,
            i <= out.len(),
            forall|k: int| 0 <= k < i ==> path_order(out@[k]@, p@) < 0,
        decreases out.len() - i,
    {
        proof {
            lemma_path_order_antisym(p@, out@[i as int]@);
        }
        i = i + 1;
    }
    let ghost before = out@;
    if i < out.len() {
        if compare_paths(p.as_str(), out[i].as_str()) == 0 {
            proof {
                lemma_path_order_antisym(p@, out@[i as int]@);
            }
            return;
        }
        proof {
            lemma_path_order_antisym(p@, out@[i as int]@);
            assert(path_order(p@, out@[i as int]@) < 0);
            assert forall|k: int| i <= k < out@.len() implies path_order(p@, out@[k]@) < 0 by {
                if k > i {
                    lemma_path_order_trans(p@, out@[i as int]@, out@[k]@);
                }
            }
        }
    }
    proof {
        assert forall|j: int| 0 <= j < before.len() implies path_order(before[j]@, p@) != 0 by {
            if j < i {
            } else {
                lemma_path_order_antisym(p@, before[j]@);
            }
        }
    }
    out.insert(i, p);
    proof {
        assert(out@ == before.insert(i as int, out@[i as int]));
        assert forall|a: int, b: int| 0 <= a < b < out@.len() implies path_order(out@[a]@, out@[b]@) < 0 by {
            if a < i && b > i {
                assert(out@[a] == before[a]);
                assert(out@[b] == before[b - 1]);
            } else if a < i && b == i {
                assert(out@[a] == before[a]);
            } else if a == i {
                assert(out@[b] == before[b - 1]);
            } else if b < i {
                assert(out@[a] == before[a]);
                assert(out@[b] == before[b]);
            } else {
                assert(out@[a] == before[a - 1]);
                assert(out@[b] == before[b - 1]);
            }
        }
    }
}

/// What the search order keeps of the paths taken so far: ascending, each the first of its
/// kind, every one of them represented.
pub open spec fn search_order_of(ins: Seq<Seq<char>>, r: Seq<String>) -> bool {
    &&& paths_ascending(r)
    &&& forall|i: int| 0 <= i < r.len() ==> first_of_kind(ins, #[trigger] r[i]@)
    &&& kinds_covered(ins, r)
}

/// A path with the same components as one already kept leaves the order as it is.
proof fn lemma_search_step_kept(prev: Seq<Seq<char>>, p: Seq<char>, out: Seq<String>, m: int)
    requires
        search_order_of(prev, out),
        0 <= m < out.len(),
        path_order(out[m]@, p) == 0,
    ensures
        search_order_of(prev.push(p), out),
{
    let next = prev.push(p);
    assert forall|i: int| 0 <= i < out.len() implies first_of_kind(next, #[trigger] out[i]@) by {
        let x = out[i]@;
        assert(first_of_kind(prev, x));
        let k = choose|k: int|
            0 <= k < prev.len() && prev[k] == x && forall|j: int| 0 <= j < k ==> path_order(prev[j], x) != 0;
        assert(next[k] == x);
        assert forall|j: int| 0 <= j < k implies path_order(next[j], x) != 0 by {
            assert(next[j] == prev[j]);
        }
    }
    assert forall|k: int| 0 <= k < next.len() implies #[trigger] covered_at(next, out, k) by {
        if k < prev.len() {
            assert(covered_at(prev, out, k));
            assert(next[k] == prev[k]);
        } else {
            lemma_path_order_antisym(out[m]@, p);
            assert(path_order(next[k], out[m]@) == 0);
        }
    }
}

/// A path of a new kind, put in place, extends the order.
proof fn lemma_search_step_added(prev: Seq<Seq<char>>, p: Seq<char>, old_out: Seq<String>, pos: int, ps: String)
    requires
        search_order_of(prev, old_out),
        forall|i: int| 0 <= i < old_out.len() ==> path_order(#[trigger] old_out[i]@, p) != 0,
        0 <= pos <= old_out.len(),
        ps@ == p,
        paths_ascending(old_out.insert(pos, ps)),
    ensures
        search_order_of(prev.push(p), old_out.insert(pos, ps)),
{
    let next = prev.push(p);
    let out = old_out.insert(pos, ps);
    let n = prev.len() as int;
    assert(out[pos]@ == p);
    assert forall|i: int| 0 <= i < out.len() implies first_of_kind(next, #[trigger] out[i]@) by {
        let x = out[i]@;
        if i == pos {
            assert(next[n] == x);
            assert forall|j: int| 0 <= j < n implies path_order(next[j], x) != 0 by {
                assert(next[j] == prev[j]);
                assert(covered_at(prev, old_out, j));
                if path_order(prev[j], x) == 0 {
                    let m = choose|m: int| 0 <= m < old_out.len() && path_order(prev[j], old_out[m]@) == 0;
                    lemma_path_order_antisym(prev[j], x);
                    lemma_path_order_antisym(prev[j], old_out[m]@);
                    lemma_same_place(old_out[m]@, prev[j], x);
                    assert(path_order(old_out[m]@, p) != 0);
                }
            }
        } else {
            let oi = if i < pos { i } else { i - 1 };
            assert(out[i] == old_out[oi]);
            assert(first_of_kind(prev, old_out[oi]@));
            let k = choose|k: int|
                0 <= k < prev.len() && prev[k] == x && forall|j: int| 0 <= j < k ==> path_order(prev[j], x) != 0;
            assert(next[k] == x);
            assert forall|j: int| 0 <= j < k implies path_order(next[j], x) != 0 by {
                assert(next[j] == prev[j]);
            }
        }
    }
    assert forall|k: int| 0 <= k < next.len() implies #[trigger] covered_at(next, out, k) by {
        if k < n {
            assert(next[k] == prev[k]);
            assert(covered_at(prev, old_out, k));
            let m = choose|m: int| 0 <= m < old_out.len() && path_order(prev[k], old_out[m]@) == 0;
            if m < pos {
                assert(out[m] == old_out[m]);
            } else {
                assert(out[m + 1] == old_out[m]);
            }
        } else {
            lemma_path_order_antisym(p, p);
            assert(path_order(next[k], out[pos]@) == 0);
        }
    }
}

/// The libraries to search for an app: the Steam root and the listed libraries, ascending
/// by their components; of paths naming the same place (say with a trailing `/`), the first
/// given is kept.
pub fn library_search_order(steam_root: String, listed: Vec<String>) -> (r: Vec<String>)
    ensures
        search_order_of(seq![steam_root@] + listed@.map_values(|s: String| s@), r@),
{
    let ghost ins = seq![steam_root@] + listed@.map_values(|s: String| s@);
    let mut out: Vec<String> = Vec::new();
    let mut pending: Vec<String> = Vec::new();
    pending.push(steam_root);
    let mut rest = listed;
    pending.append(&mut rest);
    assert(pending@.map_values(|s: String| s@) =~= ins);
    let mut n: usize = 0;
    let ghost pend = pending@;
    while n < pending.len()
        invariant
            pending@ == pend,
            pend.map_values(|s: String| s@) == ins,
            n <= pending.len(),
            search_order_of(ins.take(n as int), out@),
        decreases pending.len() - n,
    {
        let p = pending[n].clone();
        let ghost old_out = out@;
        let ghost pv = ins[n as int];
        assert(p@ == pv);
        let ghost prev = ins.take(n as int);
        let ghost next = ins.take(n as int + 1);
        assert(next =~= prev.push(pv));
        let ghost dup = exists|i: int| 0 <= i < old_out.len() && path_order(old_out[i]@, p@) == 0;
        let ghost pg = p;
        insert_path(&mut out, p);
        proof {
            if dup {
                let m = choose|i: int| 0 <= i < old_out.len() && path_order(old_out[i]@, pv) == 0;
                lemma_search_step_kept(prev, pv, old_out, m);
            } else {
                let pos = choose|k: int| 0 <= k <= old_out.len() && out@ == old_out.insert(k, pg);
                lemma_search_step_added(prev, pv, old_out, pos, pg);
            }
        }
        n = n + 1;
    }
    assert(ins.take(pending.len() as int) =~= ins);
    out
}

} // verus!
