//! Paths are carried as strings and joined with the separator they already use: `\` for a
//! Windows path such as `E:\Games\Steam`, `/` otherwise, the way `PathBuf::join` joins a
//! relative component on each system. They are compared component by component, the
//! way `Path` orders them there.

use vstd::prelude::*;

use crate::ordering::{
    lemma_text_order_antisym,
    lemma_text_order_trans,
    lemma_text_order_zero,
    text_order,
    text_order_exec,
};
use crate::text::{chars_of, spec_split, split_chars, string_from_chars};

verus! {

/// A path written in backslash style: it has a `\` and no `/` (a Windows path such as
/// `E:\Games\Steam`).
pub open spec fn backslash_style(p: Seq<char>) -> bool {
    p.contains('\\') && !p.contains('/')
}

/// The separator a path uses: `\` for a backslash-style path, `/` otherwise.
pub open spec fn path_sep(p: Seq<char>) -> char {
    if backslash_style(p) {
        '\\'
    } else {
        '/'
    }
}

/// `base` extended by `comp`: an absolute `comp` (leading `/`) replaces `base`, an empty
/// `base` gives `comp`, a `base` ending in its separator is followed by `comp` directly, and
/// otherwise `base`'s separator stands between the two.
pub open spec fn spec_join(base: Seq<char>, comp: Seq<char>) -> Seq<char> {
    if comp.len() > 0 && comp[0] == '/' {
        comp
    } else if base.len() == 0 {
        comp
    } else if base.last() == path_sep(base) {
        base + comp
    } else {
        base + seq![path_sep(base)] + comp
    }
}

/// Joining a relative component without `/` onto a backslash-style path that does not end in
/// `\` puts a `\` between them, and the result is again backslash-style.
pub proof fn lemma_join_backslash(base: Seq<char>, comp: Seq<char>)
    requires
        backslash_style(base),
        base.last() != '\\',
        !comp.contains('/'),
    ensures
        spec_join(base, comp) == base + seq!['\\'] + comp,
        backslash_style(spec_join(base, comp)),
        comp.len() > 0 ==> spec_join(base, comp).last() == comp.last(),
{
    let j = base + seq!['\\'] + comp;
    if comp.len() > 0 && comp[0] == '/' {
        assert(comp.contains('/'));
    }
    assert(base.len() > 0);
    assert(j[base.len() as int] == '\\');
    assert(j.contains('\\'));
    if j.contains('/') {
        let k = choose|k: int| 0 <= k < j.len() && j[k] == '/';
        if k < base.len() {
            assert(base[k] == '/');
            assert(base.contains('/'));
        } else if k > base.len() {
            assert(comp[k - base.len() - 1] == '/');
            assert(comp.contains('/'));
        }
    }
}

/// The separator the path `p` uses.
pub fn path_sep_of(p: &[char]) -> (r: char)
    ensures
        r == path_sep(p@),
{
    let mut back = false;
    let mut slash = false;
    let mut i: usize = 0;
    while i < p.len()
        invariant
            i <= p.len(),
            back == (exists|j: int| 0 <= j < i && p@[j] == '\\'),
            slash == (exists|j: int| 0 <= j < i && p@[j] == '/'),
        decreases p.len() - i,
    {
        if p[i] == '\\' {
            back = true;
        }
        if p[i] == '/' {
            slash = true;
        }
        i = i + 1;
    }
    proof {
        assert(back == p@.contains('\\'));
        assert(slash == p@.contains('/'));
    }
    if back && !slash {
        '\\'
    } else {
        '/'
    }
}

/// Joins one path component onto `base`, with `base`'s separator.
pub fn join_path(base: &str, comp: &str) -> (r: String)
    ensures
        r@ == spec_join(base@, comp@),
{
    let b = chars_of(base);
    let c = chars_of(comp);
    if c.len() > 0 && c[0] == '/' {
        return string_from_chars(&c);
    }
    if b.len() == 0 {
        return string_from_chars(&c);
    }
    let sep = path_sep_of(b.as_slice());
    let mut out = b.clone();
    if b[b.len() - 1] != sep {
        out.push(sep);
    }
    let mut i: usize = 0;
    let ghost head = out@;
    while i < c.len()
        invariant
            i <= c.len(),
            out@ == head + c@.take(i as int),
        decreases c.len() - i,
    {
        out.push(c[i]);
        i += 1;
        assert(out@ =~= head + c@.take(i as int));
    }
    assert(c@.take(c.len() as int) =~= c@);
    assert(b@.last() == b@[b.len() - 1]);
    proof {
        if b@.last() == sep {
            assert(head =~= base@);
        } else {
            assert(head =~= base@ + seq![sep]);
        }
    }
    string_from_chars(&out)
}

// ------------------------------------------------------------------------------------------
// Components and their order
// ------------------------------------------------------------------------------------------

/// The root component (written `/` whatever the path's separator).
pub open spec fn root_part() -> Seq<char> {
    seq!['/']
}

/// The current-directory component.
pub open spec fn current_part() -> Seq<char> {
    seq!['.']
}

/// The parent-directory component.
pub open spec fn parent_part() -> Seq<char> {
    seq!['.', '.']
}

/// The names among the pieces between separators: empty pieces (repeated or trailing
/// separators) and `.` pieces drop out.
pub open spec fn spec_names(pieces: Seq<Seq<char>>) -> Seq<Seq<char>>
    decreases pieces.len(),
{
    if pieces.len() == 0 {
        Seq::empty()
    } else {
        let rest = spec_names(pieces.drop_last());
        let p = pieces.last();
        if p.len() == 0 || p == current_part() {
            rest
        } else {
            rest.push(p)
        }
    }
}

/// The components of a path, split on its separator: the root for a leading separator, else
/// `.` when the path starts with a `.` piece, then the names (`..` among them).
pub open spec fn spec_path_parts(p: Seq<char>) -> Seq<Seq<char>> {
    let pieces = spec_split(p, path_sep(p));
    let head: Seq<Seq<char>> = if p.len() > 0 && p[0] == path_sep(p) {
        seq![root_part()]
    } else if pieces.len() > 0 && pieces[0] == current_part() {
        seq![current_part()]
    } else {
        Seq::empty()
    };
    head + spec_names(pieces)
}

/// Kinds of component in their order: the root, `.`, `..`, then names.
pub open spec fn part_rank(c: Seq<char>) -> int {
    if c == root_part() {
        1
    } else if c == current_part() {
        2
    } else if c == parent_part() {
        3
    } else {
        4
    }
}

/// Sign of a comparison of two components: by kind, names by their text.
pub open spec fn part_order(a: Seq<char>, b: Seq<char>) -> int {
    if part_rank(a) < part_rank(b) {
        -1
    } else if part_rank(a) > part_rank(b) {
        1
    } else if part_rank(a) == 4 {
        text_order(a, b)
    } else {
        0
    }
}

/// Sign of a comparison of two component lists, element by element; a proper prefix sorts
/// first.
pub open spec fn parts_order(a: Seq<Seq<char>>, b: Seq<Seq<char>>) -> int
    decreases a.len(),
{
    if a.len() == 0 {
        if b.len() == 0 {
            0
        } else {
            -1
        }
    } else if b.len() == 0 {
        1
    } else if part_order(a[0], b[0]) != 0 {
        part_order(a[0], b[0])
    } else {
        parts_order(a.drop_first(), b.drop_first())
    }
}

/// Sign of a comparison of two paths by their components; zero exactly when the paths have
/// the same components.
#[verifier::opaque]
pub open spec fn path_order(a: Seq<char>, b: Seq<char>) -> int {
    parts_order(spec_path_parts(a), spec_path_parts(b))
}

proof fn lemma_part_order(a: Seq<char>, b: Seq<char>, c: Seq<char>)
    ensures
        part_order(a, b) == -part_order(b, a),
        -1 <= part_order(a, b) <= 1,
        part_order(a, b) == 0 <==> a == b,
        part_order(a, b) <= 0 && part_order(b, c) <= 0 ==> part_order(a, c) <= 0,
        part_order(a, b) <= 0 && part_order(b, c) <= 0 && (part_order(a, b) < 0 || part_order(b, c) < 0)
            ==> part_order(a, c) < 0,
{
    lemma_text_order_antisym(a, b);
    lemma_text_order_zero(a, b);
    if part_order(a, b) <= 0 && part_order(b, c) <= 0 && part_rank(a) == 4 && part_rank(b) == 4
        && part_rank(c) == 4 {
        lemma_text_order_trans(a, b, c);
    }
}

proof fn lemma_parts_order_antisym(a: Seq<Seq<char>>, b: Seq<Seq<char>>)
    ensures
        parts_order(a, b) == -parts_order(b, a),
        -1 <= parts_order(a, b) <= 1,
    decreases a.len(),
{
    if a.len() > 0 && b.len() > 0 {
        lemma_part_order(a[0], b[0], b[0]);
        if part_order(a[0], b[0]) == 0 {
            lemma_parts_order_antisym(a.drop_first(), b.drop_first());
        }
    }
}

proof fn lemma_parts_order_zero(a: Seq<Seq<char>>, b: Seq<Seq<char>>)
    ensures
        parts_order(a, b) == 0 <==> a == b,
    decreases a.len(),
{
    if a.len() > 0 && b.len() > 0 {
        lemma_part_order(a[0], b[0], b[0]);
        if part_order(a[0], b[0]) == 0 {
            lemma_parts_order_zero(a.drop_first(), b.drop_first());
            if a.drop_first() == b.drop_first() {
                assert(a =~= seq![a[0]] + a.drop_first());
                assert(b =~= seq![b[0]] + b.drop_first());
            }
            if a == b {
                assert(a.drop_first() =~= b.drop_first());
            }
        } else if a == b {
            assert(a[0] == b[0]);
        }
    } else if a.len() == 0 && b.len() == 0 {
        assert(a =~= b);
    }
}

proof fn lemma_parts_order_trans(a: Seq<Seq<char>>, b: Seq<Seq<char>>, c: Seq<Seq<char>>)
    requires
        parts_order(a, b) <= 0,
        parts_order(b, c) <= 0,
    ensures
        parts_order(a, c) <= 0,
        parts_order(a, b) < 0 || parts_order(b, c) < 0 ==> parts_order(a, c) < 0,
    decreases a.len(),
{
    if a.len() > 0 && b.len() > 0 && c.len() > 0 {
        lemma_part_order(a[0], b[0], c[0]);
        lemma_part_order(b[0], c[0], c[0]);
        lemma_part_order(a[0], c[0], c[0]);
        if part_order(a[0], b[0]) == 0 && part_order(b[0], c[0]) == 0 {
            lemma_parts_order_trans(a.drop_first(), b.drop_first(), c.drop_first());
        }
    }
}

/// Path order is antisymmetric, a sign, and zero exactly on equal component lists.
pub proof fn lemma_path_order_antisym(a: Seq<char>, b: Seq<char>)
    ensures
        path_order(a, b) == -path_order(b, a),
        -1 <= path_order(a, b) <= 1,
        path_order(a, b) == 0 <==> spec_path_parts(a) == spec_path_parts(b),
{
    reveal(path_order);
    lemma_parts_order_antisym(spec_path_parts(a), spec_path_parts(b));
    lemma_parts_order_zero(spec_path_parts(a), spec_path_parts(b));
}

/// Path order is transitive, strictly when one step is strict.
pub proof fn lemma_path_order_trans(a: Seq<char>, b: Seq<char>, c: Seq<char>)
    requires
        path_order(a, b) <= 0,
        path_order(b, c) <= 0,
    ensures
        path_order(a, c) <= 0,
        path_order(a, b) < 0 || path_order(b, c) < 0 ==> path_order(a, c) < 0,
{
    reveal(path_order);
    lemma_parts_order_trans(spec_path_parts(a), spec_path_parts(b), spec_path_parts(c));
}

pub open spec fn parts_view(v: Seq<Vec<char>>) -> Seq<Seq<char>> {
    v.map_values(|c: Vec<char>| c@)
}

fn part_rank_exec(c: &Vec<char>) -> (r: u8)
    ensures
        r as int == part_rank(c@),
{
    if c.len() == 1 && c[0] == '/' {
        assert(c@ =~= root_part());
        1
    } else if c.len() == 1 && c[0] == '.' {
        assert(c@ =~= current_part());
        2
    } else if c.len() == 2 && c[0] == '.' && c[1] == '.' {
        assert(c@ =~= parent_part());
        3
    } else {
        proof {
            if c@ == root_part() {
                assert(c@[0] == '/');
            }
            if c@ == current_part() {
                assert(c@[0] == '.');
            }
            if c@ == parent_part() {
                assert(c@[0] == '.' && c@[1] == '.');
            }
        }
        4
    }
}

fn part_order_exec(a: &Vec<char>, b: &Vec<char>) -> (r: i8)
    ensures
        r as int == part_order(a@, b@),
{
    let ra = part_rank_exec(a);
    let rb = part_rank_exec(b);
    if ra < rb {
        -1
    } else if ra > rb {
        1
    } else if ra == 4 {
        text_order_exec(a.as_slice(), b.as_slice())
    } else {
        0
    }
}

fn parts_order_exec(a: &Vec<Vec<char>>, b: &Vec<Vec<char>>) -> (r: i8)
    ensures
        r as int == parts_order(parts_view(a@), parts_view(b@)),
{
    let ghost av = parts_view(a@);
    let ghost bv = parts_view(b@);
    let mut i: usize = 0;
    proof {
        assert(av.skip(0) =~= av);
        assert(bv.skip(0) =~= bv);
    }
    while i < a.len() && i < b.len()
        invariant
            av == parts_view(a@),
            bv == parts_view(b@),
            i <= a.len(),
            i <= b.len(),
            parts_order(av, bv) == parts_order(av.skip(i as int), bv.skip(i as int)),
        decreases a.len() - i,
    {
        let o = part_order_exec(&a[i], &b[i]);
        proof {
            assert(av.skip(i as int)[0] == a@[i as int]@);
            assert(bv.skip(i as int)[0] == b@[i as int]@);
        }
        if o != 0 {
            return o;
        }
        proof {
            assert(av.skip(i as int).drop_first() =~= av.skip(i as int + 1));
            assert(bv.skip(i as int).drop_first() =~= bv.skip(i as int + 1));
        }
        i = i + 1;
    }
    if i < a.len() {
        1
    } else if i < b.len() {
        -1
    } else {
        0
    }
}

/// The components of a path.
pub fn path_parts(p: &str) -> (r: Vec<Vec<char>>)
    ensures
        parts_view(r@) == spec_path_parts(p@),
{
    let cs = chars_of(p);
    let sep = path_sep_of(cs.as_slice());
    let pieces = split_chars(cs.as_slice(), sep);
    let ghost pv = pieces@.map_values(|v: Vec<char>| v@);
    let mut out: Vec<Vec<char>> = Vec::new();
    if cs.len() > 0 && cs[0] == sep {
        out.push(vec!['/']);
        assert(out@[0]@ =~= root_part());
    } else if pieces.len() > 0 && pieces[0].len() == 1 && pieces[0][0] == '.' {
        out.push(vec!['.']);
        assert(pv[0] =~= current_part());
        assert(out@[0]@ =~= current_part());
    } else {
        proof {
            if pv.len() > 0 && pv[0] == current_part() {
                assert(pieces@[0]@ == pv[0]);
                assert(pieces@[0]@[0] == '.');
            }
        }
    }
    let ghost head = parts_view(out@);
    assert(spec_path_parts(p@) =~= head + spec_names(pv));
    let mut i: usize = 0;
    assert(pv.take(0) =~= Seq::<Seq<char>>::empty());
    while i < pieces.len()
        invariant
            pv == pieces@.map_values(|v: Vec<char>| v@),
            i <= pieces.len(),
            parts_view(out@) == head + spec_names(pv.take(i as int)),
        decreases pieces.len() - i,
    {
        let ghost before = parts_view(out@);
        assert(pv.take(i as int + 1).drop_last() =~= pv.take(i as int));
        assert(pv.take(i as int + 1).last() == pieces@[i as int]@);
        let piece = &pieces[i];
        let dot = piece.len() == 1 && piece[0] == '.';
        proof {
            if piece@ == current_part() {
                assert(piece@[0] == '.');
            }
            if dot {
                assert(piece@ =~= current_part());
            }
        }
        if piece.len() > 0 && !dot {
            out.push(piece.clone());
            assert(parts_view(out@) =~= before.push(piece@));
        }
        i = i + 1;
    }
    assert(pv.take(pieces.len() as int) =~= pv);
    out
}

/// Sign of the comparison of two paths by their components.
pub fn compare_paths(a: &str, b: &str) -> (r: i8)
    ensures
        r as int == path_order(a@, b@),
{
    let pa = path_parts(a);
    let pb = path_parts(b);
    proof {
        reveal(path_order);
    }
    parts_order_exec(&pa, &pb)
}

} // verus!
