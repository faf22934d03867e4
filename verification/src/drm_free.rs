//! The list of games known to launch without the Steam client.
//!
//! The list is a markdown table whose first cell in each row is an AppID. The canonical list
//! ships with the client; a per-user list in the same format may add to it. Used by the direct
//! (no-Steam) launch path to decide which games to start without Steam.

use std::collections::HashSet;

use vstd::prelude::*;

use crate::steam_apps::{parse_u32_trimmed, spec_parse_u32_trimmed};
use crate::text::{chars_of, spec_split, spec_trim, split_chars, string_from_chars, trim_chars};

verus! {

broadcast use vstd::std_specs::hash::group_hash_axioms;

/// The list that ships with the client (a markdown table of `| AppID | Game |` rows).
pub const EMBEDDED_LIST: &'static str = "| AppID | Game |\n|------:|------|\n";

/// The AppID of one line of the table: the first `|`-separated cell of a line that (trimmed)
/// starts with `|`, when it reads as a number. Header and separator rows have none.
pub open spec fn spec_row_appid(line: Seq<char>) -> Option<u32> {
    let t = spec_trim(line);
    if t.len() > 0 && t[0] == '|' {
        spec_parse_u32_trimmed(spec_split(t.drop_first(), '|')[0])
    } else {
        None
    }
}

/// Whether some line of `md` has AppID `appid`. Lines are taken between `\n`s; a trailing
/// `\r` is trimmed away, so this agrees with `str::lines`.
pub open spec fn spec_listed(md: Seq<char>, appid: u32) -> bool {
    exists|i: int| 0 <= i < spec_split(md, '\n').len() && spec_row_appid(#[trigger] spec_split(md, '\n')[i]) == Some(appid)
}

/// The AppID of one line.
pub fn row_appid(line: &[char]) -> (r: Option<u32>)
    ensures
        r == spec_row_appid(line@),
{
    let t = trim_chars(line);
    if t.len() > 0 && t[0] == '|' {
        let mut rest: Vec<char> = Vec::new();
        let mut i: usize = 1;
        while i < t.len()
            invariant
                1 <= i <= t.len(),
                rest@ == t@.subrange(1, i as int),
            decreases t.len() - i,
        {
            rest.push(t[i]);
            i += 1;
            assert(rest@ =~= t@.subrange(1, i as int));
        }
        assert(rest@ =~= t@.drop_first());
        let cells = split_chars(&rest, '|');
        assert(cells@.map_values(|v: Vec<char>| v@).len() == cells@.len());
        assert(spec_split(t@.drop_first(), '|').len() > 0) by {
            lemma_split_nonempty(t@.drop_first(), '|', 0, Seq::empty(), Seq::empty());
        }
        assert(cells@[0]@ == spec_split(t@.drop_first(), '|')[0]);
        let cell = string_from_chars(&cells[0]);
        parse_u32_trimmed(cell.as_str())
    } else {
        None
    }
}

proof fn lemma_split_nonempty(s: Seq<char>, sep: char, i: int, cur: Seq<char>, acc: Seq<Seq<char>>)
    ensures
        crate::text::spec_split_from(s, sep, i, cur, acc).len() > acc.len(),
        crate::text::spec_split_from(s, sep, i, cur, acc).subrange(0, acc.len() as int) == acc,
    decreases s.len() - i,
{
    if 0 <= i < s.len() {
        if s[i] == sep {
            lemma_split_nonempty(s, sep, i + 1, Seq::empty(), acc.push(cur));
            let r = crate::text::spec_split_from(s, sep, i, cur, acc);
            assert(r.subrange(0, acc.len() as int) =~= r.subrange(0, acc.len() + 1int).subrange(
                0,
                acc.len() as int,
            ));
            assert(acc.push(cur).subrange(0, acc.len() as int) =~= acc);
        } else {
            lemma_split_nonempty(s, sep, i + 1, cur.push(s[i]), acc);
        }
    } else {
        assert(acc.push(cur).subrange(0, acc.len() as int) =~= acc);
    }
}

/// Adds the AppIDs of the table `md` to `ids`.
fn add_appids(ids: &mut HashSet<u32>, md: &str)
    ensures
        forall|a: u32| #[trigger] final(ids)@.contains(a) <==> (old(ids)@.contains(a) || spec_listed(md@, a)),
{
    let lines = split_chars(&chars_of(md), '\n');
    let ghost ls = spec_split(md@, '\n');
    let ghost start = ids@;
    let mut i: usize = 0;
    while i < lines.len()
        invariant
            lines@.map_values(|v: Vec<char>| v@) == ls,
            ls == spec_split(md@, '\n'),
            i <= lines.len(),
            forall|a: u32| #[trigger] ids@.contains(a) <==> (start.contains(a) || exists|k: int|
                0 <= k < i && spec_row_appid(#[trigger] ls[k]) == Some(a)),
        decreases lines.len() - i,
    {
        assert(ls[i as int] == lines@[i as int]@);
        let ghost before = ids@;
        match row_appid(&lines[i]) {
            Some(id) => {
                ids.insert(id);
                assert(ids@ == before.insert(id));
            },
            None => {},
        }
        assert forall|a: u32| #[trigger] ids@.contains(a) <==> (start.contains(a) || exists|k: int|
            0 <= k < i + 1 && spec_row_appid(#[trigger] ls[k]) == Some(a)) by {
            if exists|k: int| 0 <= k < i + 1 && spec_row_appid(#[trigger] ls[k]) == Some(a) {
                let k = choose|k: int| 0 <= k < i + 1 && spec_row_appid(#[trigger] ls[k]) == Some(a);
                if k < i {
                    assert(before.contains(a));
                }
            }
        }
        i += 1;
    }
    assert forall|a: u32| #[trigger] ids@.contains(a) <==> (start.contains(a) || spec_listed(md@, a)) by {
        if spec_listed(md@, a) {
            let k = choose|k: int| 0 <= k < ls.len() && spec_row_appid(#[trigger] ls[k]) == Some(a);
            assert(lines@.map_values(|v: Vec<char>| v@).len() == lines@.len());
        }
    }
}

/// The set of AppIDs listed in a markdown table: the first numeric cell of each `| … |` row.
/// Header and separator rows have no numeric first cell and are skipped.
pub fn parse_appids(md: &str) -> (r: HashSet<u32>)
    ensures
        forall|a: u32| #[trigger] r@.contains(a) <==> spec_listed(md@, a),
{
    let mut ids: HashSet<u32> = HashSet::new();
    add_appids(&mut ids, md);
    ids
}

/// The known DRM-free AppIDs: the shipped list plus the per-user list's text, if any.
pub fn known_drm_free_ids(user_list: Option<&str>) -> (r: HashSet<u32>)
    ensures
        forall|a: u32| #[trigger] r@.contains(a) <==> (spec_listed(EMBEDDED_LIST@, a) || (
        user_list matches Some(u) && spec_listed(u@, a))),
{
    let mut ids = parse_appids(EMBEDDED_LIST);
    match user_list {
        Some(u) => add_appids(&mut ids, u),
        None => {},
    }
    ids
}

/// Whether `appid` is known to launch without the Steam client, given the known set.
pub fn is_known_drm_free(appid: u32, known: &HashSet<u32>) -> (r: bool)
    ensures
        r == known@.contains(appid),
{
    known.contains(&appid)
}

} // verus!
