//! Stable ordering of lists by composite keys: two numbers, a text, and a last number,
//! compared in that order, texts character by character as `str` orders them.

use vstd::prelude::*;

verus! {

/// Sign of a text comparison: negative, zero or positive as `a` sorts before, with or after `b`.
pub open spec fn text_order(a: Seq<char>, b: Seq<char>) -> int
    decreases a.len(),
{
    if a.len() == 0 {
        if b.len() == 0 {
            0
        } else {
            -1
        }
    } else if b.len() == 0 {
        1
    } else if a[0] < b[0] {
        -1
    } else if a[0] > b[0] {
        1
    } else {
        text_order(a.drop_first(), b.drop_first())
    }
}

/// Swapping two texts flips the sign of their comparison, which is always a sign.
pub proof fn lemma_text_order_antisym(a: Seq<char>, b: Seq<char>)
    ensures
        text_order(a, b) == -text_order(b, a),
        -1 <= text_order(a, b) <= 1,
    decreases a.len(),
{
    if a.len() > 0 && b.len() > 0 && a[0] == b[0] {
        lemma_text_order_antisym(a.drop_first(), b.drop_first());
    }
}

/// Two texts compare equal exactly when they are the same text.
pub proof fn lemma_text_order_zero(a: Seq<char>, b: Seq<char>)
    ensures
        text_order(a, b) == 0 <==> a == b,
    decreases a.len(),
{
    if a.len() > 0 && b.len() > 0 && a[0] == b[0] {
        lemma_text_order_zero(a.drop_first(), b.drop_first());
        assert(a[0] == b[0]);
        if a.drop_first() == b.drop_first() {
            assert(a =~= seq![a[0]] + a.drop_first());
            assert(b =~= seq![b[0]] + b.drop_first());
        }
        if a == b {
            assert(a.drop_first() =~= b.drop_first());
        }
    } else if a.len() > 0 && b.len() > 0 {
        if a == b {
            assert(a[0] == b[0]);
        }
    } else if a.len() == 0 && b.len() == 0 {
        assert(a =~= b);
    }
}

/// Text order is transitive, strictly when one step is strict.
pub proof fn lemma_text_order_trans(a: Seq<char>, b: Seq<char>, c: Seq<char>)
    requires
        text_order(a, b) <= 0,
        text_order(b, c) <= 0,
    ensures
        text_order(a, c) <= 0,
        text_order(a, b) < 0 || text_order(b, c) < 0 ==> text_order(a, c) < 0,
    decreases a.len(),
{
    if a.len() > 0 && b.len() > 0 && c.len() > 0 && a[0] == b[0] && b[0] == c[0] {
        lemma_text_order_trans(a.drop_first(), b.drop_first(), c.drop_first());
    }
}

/// A composite key as a value.
pub struct KeyView {
    pub major: int,
    pub minor: int,
    pub text: Seq<char>,
    pub last: int,
}

pub open spec fn num_order(a: int, b: int) -> int {
    if a < b {
        -1
    } else if a > b {
        1
    } else {
        0
    }
}

/// Lexicographic comparison of composite keys.
pub open spec fn key_order(a: KeyView, b: KeyView) -> int {
    if a.major != b.major {
        num_order(a.major, b.major)
    } else if a.minor != b.minor {
        num_order(a.minor, b.minor)
    } else if text_order(a.text, b.text) != 0 {
        text_order(a.text, b.text)
    } else {
        num_order(a.last, b.last)
    }
}

/// Swapping two keys flips the sign of their comparison; they compare equal exactly when
/// they are the same key.
pub proof fn lemma_key_order_props(a: KeyView, b: KeyView)
    ensures
        key_order(a, b) == -key_order(b, a),
        key_order(a, b) == 0 <==> a == b,
{
    lemma_text_order_antisym(a.text, b.text);
    lemma_text_order_zero(a.text, b.text);
}

/// Key order is transitive, strictly when one step is strict.
pub proof fn lemma_key_order_trans(a: KeyView, b: KeyView, c: KeyView)
    requires
        key_order(a, b) <= 0,
        key_order(b, c) <= 0,
    ensures
        key_order(a, c) <= 0,
        key_order(a, b) < 0 || key_order(b, c) < 0 ==> key_order(a, c) < 0,
{
    lemma_key_order_props(a, b);
    lemma_key_order_props(b, c);
    lemma_key_order_props(a, c);
    lemma_text_order_antisym(a.text, b.text);
    lemma_text_order_antisym(b.text, c.text);
    lemma_text_order_antisym(a.text, c.text);
    lemma_text_order_zero(a.text, b.text);
    lemma_text_order_zero(b.text, c.text);
    lemma_text_order_zero(a.text, c.text);
    if a.major == b.major && b.major == c.major && a.minor == b.minor && b.minor == c.minor {
        if text_order(a.text, b.text) <= 0 && text_order(b.text, c.text) <= 0 {
            lemma_text_order_trans(a.text, b.text, c.text);
        }
    }
}

/// A composite sort key.
#[derive(Debug)]
pub struct SortKey {
    pub major: u64,
    pub minor: u64,
    pub text: Vec<char>,
    pub last: u64,
}

impl View for SortKey {
    type V = KeyView;

    open spec fn view(&self) -> KeyView {
        KeyView { major: self.major as int, minor: self.minor as int, text: self.text@, last: self.last as int }
    }
}

pub open spec fn keys_view(keys: Seq<SortKey>) -> Seq<KeyView> {
    Seq::new(keys.len(), |i: int| keys[i]@)
}

fn num_order_exec(a: u64, b: u64) -> (r: i8)
    ensures
        r as int == num_order(a as int, b as int),
{
    if a < b {
        -1
    } else if a > b {
        1
    } else {
        0
    }
}

/// Compares two texts as `str` does.
pub fn text_order_exec(a: &[char], b: &[char]) -> (r: i8)
    ensures
        r as int == text_order(a@, b@),
{
    let mut i: usize = 0;
    proof {
        assert(a@.skip(0) =~= a@);
        assert(b@.skip(0) =~= b@);
    }
    while i < a.len() && i < b.len()
        invariant
            i <= a.len(),
            i <= b.len(),
            text_order(a@, b@) == text_order(a@.skip(i as int), b@.skip(i as int)),
        decreases a.len() - i,
    {
        let x = a[i];
        let y = b[i];
        if x < y {
            return -1;
        }
        if x > y {
            return 1;
        }
        proof {
            assert(a@.skip(i as int)[0] == x);
            assert(a@.skip(i as int).drop_first() =~= a@.skip(i as int + 1));
            assert(b@.skip(i as int).drop_first() =~= b@.skip(i as int + 1));
        }
        i = i + 1;
    }
    if i < a.len() {
        1
    } else if i < b.len() {
        -1
    } else {
        0
    }
}

/// Compares two composite keys.
pub fn key_order_exec(a: &SortKey, b: &SortKey) -> (r: i8)
    ensures
        r as int == key_order(a@, b@),
{
    if a.major != b.major {
        num_order_exec(a.major, b.major)
    } else if a.minor != b.minor {
        num_order_exec(a.minor, b.minor)
    } else {
        let t = text_order_exec(a.text.as_slice(), b.text.as_slice());
        if t != 0 {
            t
        } else {
            num_order_exec(a.last, b.last)
        }
    }
}

/// Position `x` comes before position `y` in a stable sort: its key is smaller, or the keys
/// are equal and it came first.
pub open spec fn idx_before(keys: Seq<KeyView>, x: int, y: int) -> bool {
    key_order(keys[x], keys[y]) < 0 || (key_order(keys[x], keys[y]) == 0 && x < y)
}

/// `order` lists positions of `keys` in stable sorted order.
pub open spec fn is_stable_order(keys: Seq<KeyView>, order: Seq<usize>) -> bool {
    &&& forall|p: int| 0 <= p < order.len() ==> order[p] < keys.len()
    &&& forall|p: int, q: int|
        0 <= p < q < order.len() ==> idx_before(keys, order[p] as int, order[q] as int)
}

/// Position `i` occurs in `order`.
pub open spec fn occurs(order: Seq<usize>, i: int) -> bool {
    exists|p: int| 0 <= p < order.len() && order[p] == i
}

/// Every position of `keys` occurs in `order`.
pub open spec fn covers(keys: Seq<KeyView>, order: Seq<usize>) -> bool {
    order.len() == keys.len() && forall|i: int| 0 <= i < keys.len() ==> #[trigger] occurs(order, i)
}

/// "Sorts before, ties broken by position" is transitive.
pub proof fn lemma_idx_before_trans(keys: Seq<KeyView>, x: int, y: int, z: int)
    requires
        0 <= x < keys.len(),
        0 <= y < keys.len(),
        0 <= z < keys.len(),
        idx_before(keys, x, y),
        idx_before(keys, y, z),
    ensures
        idx_before(keys, x, z),
{
    lemma_key_order_trans(keys[x], keys[y], keys[z]);
}

/// Positions of `keys` in stable sorted order.
pub fn stable_order(keys: &Vec<SortKey>) -> (r: Vec<usize>)
    ensures
        is_stable_order(keys_view(keys@), r@),
        covers(keys_view(keys@), r@),
{
    let ghost kv = keys_view(keys@);
    let n = keys.len();
    let mut out: Vec<usize> = Vec::new();
    let mut i: usize = 0;
    while i < n
        invariant
            n == keys.len(),
            kv == keys_view(keys@),
            i <= n,
            out.len() == i,
            forall|p: int| 0 <= p < out.len() ==> out@[p] < i,
            forall|p: int, q: int|
                0 <= p < q < out.len() ==> idx_before(kv, out@[p] as int, out@[q] as int),
            forall|j: int| 0 <= j < i ==> #[trigger] occurs(out@, j),
        decreases n - i,
    {
        let mut p: usize = 0;
        while p < out.len() && key_order_exec(&keys[i], &keys[out[p]]) >= 0
            invariant
                n == keys.len(),
                kv == keys_view(keys@),
                i < n,
                p <= out.len(),
                forall|q: int| 0 <= q < out.len() ==> out@[q] < i,
                forall|q: int| 0 <= q < p ==> idx_before(kv, out@[q] as int, i as int),
            decreases out.len() - p,
        {
            proof {
                lemma_key_order_props(kv[i as int], kv[out@[p as int] as int]);
            }
            p = p + 1;
        }
        proof {
            if p < out.len() {
                assert(idx_before(kv, i as int, out@[p as int] as int));
                assert forall|q: int| p <= q < out.len() implies idx_before(
                    kv,
                    i as int,
                    out@[q] as int,
                ) by {
                    if q > p {
                        lemma_idx_before_trans(kv, i as int, out@[p as int] as int, out@[q] as int);
                    }
                }
            }
        }
        let ghost before = out@;
        out.insert(p, i);
        proof {
            assert(out@ =~= before.take(p as int).push(i).add(before.skip(p as int)));
            assert forall|a: int, b: int| 0 <= a < b < out.len() implies idx_before(
                kv,
                out@[a] as int,
                out@[b] as int,
            ) by {
                if a < p && b > p {
                    assert(out@[a] == before[a]);
                    assert(out@[b] == before[b - 1]);
                } else if a < p && b == p {
                } else if a == p {
                    assert(out@[b] == before[b - 1]);
                } else if b < p {
                } else {
                    assert(out@[a] == before[a - 1]);
                    assert(out@[b] == before[b - 1]);
                }
            }
            assert forall|j: int| 0 <= j < i + 1 implies #[trigger] occurs(out@, j) by {
                if j == i {
                    assert(out@[p as int] == j);
                } else {
                    assert(occurs(before, j));
                    let q0 = choose|q: int| 0 <= q < before.len() && before[q] == j;
                    if q0 < p {
                        assert(out@[q0] == j);
                    } else {
                        assert(out@[q0 + 1] == j);
                    }
                }
            }
        }
        i = i + 1;
    }
    out
}

} // verus!
