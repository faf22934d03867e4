//! The store's wishlist response: a JSON object keyed by app ID, each game an object with a
//! name, a priority, when it was added and a capsule image. Other keys (such as `success`)
//! and non-object values are not games. A response that is not a JSON object (a private
//! wishlist answers with an HTML page) holds no games.

use vstd::prelude::*;

use crate::loading::in_key_order;
use crate::locations::opt_view;
use crate::models::{clone_opt_string, WishlistItem};
use crate::ordering::KeyView;
use crate::text::{chars_of, parse_unsigned, spec_parse_unsigned};

verus! {

/// One member of the response object, as the JSON parser reads it: its key, whether its value
/// is an object, and the value's `name` and `capsule` strings and `priority` and `added`
/// unsigned numbers, where present with that type.
pub struct WishlistMember {
    pub key: String,
    pub is_object: bool,
    pub name: Option<String>,
    pub priority: Option<u64>,
    pub added: Option<u64>,
    pub capsule: Option<String>,
}

impl View for WishlistMember {
    type V = (Seq<char>, bool, Option<Seq<char>>, Option<u64>, Option<u64>, Option<Seq<char>>);

    open spec fn view(&self) -> Self::V {
        (self.key@, self.is_object, opt_view(self.name), self.priority, self.added, opt_view(self.capsule))
    }
}

pub open spec fn members_view(s: Seq<WishlistMember>) -> Seq<
    (Seq<char>, bool, Option<Seq<char>>, Option<u64>, Option<u64>, Option<Seq<char>>),
> {
    s.map_values(|m: WishlistMember| m@)
}

/// The members of the top-level JSON object in `text`, in the order `serde_json`'s map walks
/// them; none when `text` is not JSON or not an object. A fixed function of the text.
pub uninterp spec fn spec_wishlist_members(text: Seq<char>) -> Option<
    Seq<(Seq<char>, bool, Option<Seq<char>>, Option<u64>, Option<u64>, Option<Seq<char>>)>,
>;

/// `serde_json::from_str` into a `Value`, then the members of its object, each read with
/// `Value::is_object`, `Value::as_str` and `Value::as_u64`.
#[verifier::external_body]
pub(crate) fn wishlist_members(text: &str) -> (r: Option<Vec<WishlistMember>>)
    ensures
        match r {
            Some(v) => spec_wishlist_members(text@) == Some(members_view(v@)),
            None => spec_wishlist_members(text@) is None,
        },
{
    let v: serde_json::Value = serde_json::from_str(text).ok()?;
    let members = v.as_object()?.iter().map(|(k, m)| WishlistMember {
        key: k.clone(),
        is_object: m.is_object(),
        name: m["name"].as_str().map(|s| s.to_owned()),
        priority: m["priority"].as_u64(),
        added: m["added"].as_u64(),
        capsule: m["capsule"].as_str().map(|s| s.to_owned()),
    });
    Some(members.collect())
}

/// A wishlist entry as values: app ID, name, priority, when added, capsule.
pub open spec fn wish_view(w: WishlistItem) -> (u32, Seq<char>, u32, u64, Option<Seq<char>>) {
    (w.appid, w.name@, w.priority, w.added, opt_view(w.capsule))
}

pub open spec fn wish_views(s: Seq<WishlistItem>) -> Seq<(u32, Seq<char>, u32, u64, Option<Seq<char>>)> {
    s.map_values(|w: WishlistItem| wish_view(w))
}

/// Wishlist order by priority, on entries as values.
pub open spec fn wish_priority_keys(s: Seq<(u32, Seq<char>, u32, u64, Option<Seq<char>>)>) -> Seq<KeyView> {
    Seq::new(s.len(), |i: int| KeyView { major: s[i].2 as int, minor: 0, text: Seq::empty(), last: 0 })
}

/// The entry a member makes: only a member whose key is an app ID (a `u32` in decimal) and
/// whose value is an object; a missing name reads as empty, a missing priority or date as
/// zero, and the priority keeps its low 32 bits.
pub open spec fn spec_wishlist_item(
    m: (Seq<char>, bool, Option<Seq<char>>, Option<u64>, Option<u64>, Option<Seq<char>>),
) -> Option<(u32, Seq<char>, u32, u64, Option<Seq<char>>)> {
    match spec_parse_unsigned(m.0, 10, 4294967295) {
        Some(id) => if m.1 {
            Some(
                (
                    id as u32,
                    match m.2 {
                        Some(n) => n,
                        None => Seq::empty(),
                    },
                    match m.3 {
                        Some(p) => (p % 4294967296) as u32,
                        None => 0u32,
                    },
                    match m.4 {
                        Some(a) => a,
                        None => 0u64,
                    },
                    m.5,
                ),
            )
        } else {
            None
        },
        None => None,
    }
}

/// The entries the members make, in member order.
pub open spec fn spec_wishlist_items(
    ms: Seq<(Seq<char>, bool, Option<Seq<char>>, Option<u64>, Option<u64>, Option<Seq<char>>)>,
) -> Seq<(u32, Seq<char>, u32, u64, Option<Seq<char>>)>
    decreases ms.len(),
{
    if ms.len() == 0 {
        Seq::empty()
    } else {
        let rest = spec_wishlist_items(ms.drop_last());
        match spec_wishlist_item(ms.last()) {
            Some(w) => rest.push(w),
            None => rest,
        }
    }
}

fn wishlist_item(m: WishlistMember) -> (r: Option<WishlistItem>)
    ensures
        match r {
            Some(w) => spec_wishlist_item(m@) == Some(wish_view(w)),
            None => spec_wishlist_item(m@) is None,
        },
{
    let key = chars_of(m.key.as_str());
    let id = match parse_unsigned(key.as_slice(), 10, 4294967295) {
        Some(id) => id,
        None => return None,
    };
    if !m.is_object {
        return None;
    }
    let name = match m.name {
        Some(n) => n,
        None => String::new(),
    };
    let priority: u32 = match m.priority {
        Some(p) => (p % 4294967296) as u32,
        None => 0,
    };
    let added: u64 = match m.added {
        Some(a) => a,
        None => 0,
    };
    let capsule = clone_opt_string(&m.capsule);
    Some(WishlistItem { appid: id as u32, name, priority, added, capsule })
}

/// The wishlist the members make, by priority (stable).
pub fn wishlist_from_members(ms: Vec<WishlistMember>) -> (r: Vec<WishlistItem>)
    ensures
        in_key_order(
            spec_wishlist_items(members_view(ms@)),
            wish_priority_keys(spec_wishlist_items(members_view(ms@))),
            wish_views(r@),
        ),
{
    let ghost mv = members_view(ms@);
    let mut items: Vec<WishlistItem> = Vec::new();
    for m in it: ms.into_iter()
        invariant
            mv == members_view(it.seq()),
            wish_views(items@) == spec_wishlist_items(mv.take(it.index() as int)),
    {
        let ghost k = it.index() as int;
        let ghost before = items@;
        assert(mv.take(k + 1).drop_last() =~= mv.take(k));
        assert(mv.take(k + 1).last() == m@);
        match wishlist_item(m) {
            Some(w) => {
                items.push(w);
                assert(wish_views(items@) =~= wish_views(before).push(wish_view(w)));
            },
            None => {},
        }
    }
    assert(mv.take(mv.len() as int) =~= mv);
    let ghost iv = items@;
    let sorted = crate::loading::sort_wishlist(items);
    proof {
        let keys = crate::loading::priority_keys(iv);
        let order = choose|order: Seq<usize>|
            crate::ordering::is_stable_order(keys, order) && crate::ordering::covers(keys, order)
                && sorted@ == crate::library::permuted(iv, order);
        assert(keys =~= wish_priority_keys(wish_views(iv)));
        assert(wish_views(sorted@) =~= crate::library::permuted(wish_views(iv), order));
    }
    sorted
}

/// The wishlist in a store response, by priority; empty when the response is not a JSON
/// object.
pub fn parse_wishlist(text: &str) -> (r: Vec<WishlistItem>)
    ensures
        match spec_wishlist_members(text@) {
            Some(ms) => in_key_order(
                spec_wishlist_items(ms),
                wish_priority_keys(spec_wishlist_items(ms)),
                wish_views(r@),
            ),
            None => r@.len() == 0,
        },
{
    match wishlist_members(text) {
        Some(ms) => wishlist_from_members(ms),
        None => Vec::new(),
    }
}

} // verus!
