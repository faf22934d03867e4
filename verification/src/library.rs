//! What the signed-in connection reports about the user's library and friends, and how the
//! client state takes it in: owned games in library order, recently played games,
//! achievements, presence, and the name lookups queued for unknown apps.

use vstd::prelude::*;

use crate::launcher::LaunchEntry;
use crate::models::{Achievement, Game};
use crate::ordering::{
    covers,
    is_stable_order,
    keys_view,
    stable_order,
    KeyView,
    SortKey,
};
use crate::protocol::{merge_personas, spec_merge_personas, Persona};
use crate::routes::IoEvent;
use crate::text::{chars_of, spec_lowercase, to_lowercase};
use crate::ui::{keys_unique, spec_filter_indices, App, Effect, ListSelection, ViewLoading};

verus! {

/// A library entry as the connection reports it.
#[derive(Debug)]
pub struct ProtocolGame {
    pub appid: u32,
    pub name: String,
    pub playtime_forever: i32,
    pub rtime_last_played: u32,
    pub img_icon_url: Option<String>,
    /// Appinfo `common.type`, when known.
    pub app_type: Option<String>,
    pub installdir: Option<String>,
    pub launch: Vec<LaunchEntry>,
}

/// An achievement as the connection reports it.
#[derive(Debug)]
pub struct ProtocolAchievement {
    pub apiname: String,
    pub achieved: bool,
    pub unlocktime: u64,
    pub name: Option<String>,
    pub description: Option<String>,
}

/// The library entry for a reported game: an empty name is unknown, negative playtime is
/// zero.
pub open spec fn spec_game_from(g: ProtocolGame) -> Game {
    Game {
        appid: g.appid,
        name: if g.name@.len() == 0 {
            None
        } else {
            Some(g.name)
        },
        playtime_forever: if g.playtime_forever < 0 {
            0
        } else {
            g.playtime_forever as u32
        },
        img_icon_url: g.img_icon_url,
        rtime_last_played: Some(g.rtime_last_played as u64),
        app_type: g.app_type,
    }
}

pub fn game_from(g: ProtocolGame) -> (r: Game)
    ensures
        r == spec_game_from(g),
{
    let playtime: u32 = if g.playtime_forever < 0 {
        0
    } else {
        g.playtime_forever as u32
    };
    let name = if g.name.as_str().is_empty() {
        None
    } else {
        Some(g.name)
    };
    Game {
        appid: g.appid,
        name,
        playtime_forever: playtime,
        img_icon_url: g.img_icon_url,
        rtime_last_played: Some(g.rtime_last_played as u64),
        app_type: g.app_type,
    }
}

/// Library order: most played first; named before unnamed; then by lowercased name; then by
/// appid.
pub open spec fn library_key(g: Game) -> KeyView {
    KeyView {
        major: 4294967295 - g.playtime_forever,
        minor: if g.name is None {
            1
        } else {
            0
        },
        text: spec_lowercase(
            match g.name {
                Some(n) => n@,
                None => Seq::<char>::empty(),
            },
        ),
        last: g.appid as int,
    }
}

/// `r` lists `s` in stable order of `key`.
pub open spec fn permuted<T>(s: Seq<T>, order: Seq<usize>) -> Seq<T> {
    Seq::new(order.len(), |p: int| s[order[p] as int])
}

pub open spec fn library_keys(s: Seq<Game>) -> Seq<KeyView> {
    Seq::new(s.len(), |i: int| library_key(s[i]))
}

pub open spec fn in_library_order(s: Seq<Game>, r: Seq<Game>) -> bool {
    exists|order: Seq<usize>|
        is_stable_order(library_keys(s), order) && covers(library_keys(s), order) && r == permuted(
            s,
            order,
        )
}

fn library_sort_key(g: &Game) -> (r: SortKey)
    ensures
        r@ == library_key(*g),
{
    let lowered = match &g.name {
        Some(n) => to_lowercase(n.as_str()),
        None => to_lowercase(""),
    };
    proof {
        if g.name is None {
            reveal_strlit("");
            assert(""@ =~= Seq::<char>::empty());
        }
    }
    SortKey {
        major: 4294967295u64 - g.playtime_forever as u64,
        minor: if g.name.is_none() {
            1
        } else {
            0
        },
        text: chars_of(lowered.as_str()),
        last: g.appid as u64,
    }
}

/// Puts games in library order (stable).
pub fn sort_library_games(games: &mut Vec<Game>)
    ensures
        in_library_order(old(games)@, final(games)@),
{
    let ghost s = games@;
    let mut keys: Vec<SortKey> = Vec::new();
    let mut i: usize = 0;
    while i < games.len()
        invariant
            s == games@,
            i <= games.len(),
            keys@.len() == i,
            forall|j: int| 0 <= j < i ==> #[trigger] keys@[j]@ == library_key(s[j]),
        decreases games.len() - i,
    {
        keys.push(library_sort_key(&games[i]));
        i = i + 1;
    }
    proof {
        assert(keys_view(keys@) =~= library_keys(s));
    }
    let order = stable_order(&keys);
    let mut out: Vec<Game> = Vec::new();
    let mut p: usize = 0;
    while p < order.len()
        invariant
            s == games@,
            is_stable_order(library_keys(s), order@),
            covers(library_keys(s), order@),
            p <= order@.len(),
            out@.len() == p,
            forall|q: int| 0 <= q < p ==> #[trigger] out@[q] == s[order@[q] as int],
        decreases order@.len() - p,
    {
        let idx = order[p];
        out.push(games[idx].clone());
        p = p + 1;
    }
    proof {
        assert(out@ =~= permuted(s, order@));
    }
    *games = out;
}

/// Achievements shown unlocked first, then by shown name as `str` orders it.
pub open spec fn achievement_key(a: Achievement) -> KeyView {
    KeyView {
        major: 255 - a.achieved,
        minor: 0,
        text: a.spec_display_name(),
        last: 0,
    }
}

pub open spec fn achievement_keys(s: Seq<Achievement>) -> Seq<KeyView> {
    Seq::new(s.len(), |i: int| achievement_key(s[i]))
}

pub open spec fn in_achievement_order(s: Seq<Achievement>, r: Seq<Achievement>) -> bool {
    exists|order: Seq<usize>|
        is_stable_order(achievement_keys(s), order) && covers(achievement_keys(s), order) && r
            == permuted(s, order)
}

/// The achievement entry for a reported one.
pub open spec fn spec_achievement_from(a: ProtocolAchievement) -> Achievement {
    Achievement {
        apiname: a.apiname,
        achieved: if a.achieved {
            1
        } else {
            0
        },
        unlocktime: a.unlocktime,
        name: a.name,
        description: a.description,
    }
}

fn clone_achievement(a: &Achievement) -> (r: Achievement)
    ensures
        r == *a,
{
    Achievement {
        apiname: a.apiname.clone(),
        achieved: a.achieved,
        unlocktime: a.unlocktime,
        name: crate::models::clone_opt_string(&a.name),
        description: crate::models::clone_opt_string(&a.description),
    }
}

/// Reported achievements as entries, unlocked first, then by name (stable).
pub fn achievements_from(reported: Vec<ProtocolAchievement>) -> (r: Vec<Achievement>)
    ensures
        in_achievement_order(reported@.map_values(|a: ProtocolAchievement| spec_achievement_from(a)), r@),
{
    let ghost rs = reported@;
    let mut achs: Vec<Achievement> = Vec::new();
    for a in it: reported.into_iter()
        invariant
            it.seq() == rs,
            achs@ == rs.take(it.index() as int).map_values(|a: ProtocolAchievement| spec_achievement_from(a)),
    {
        let ghost k = it.index();
        let entry = Achievement {
            apiname: a.apiname,
            achieved: if a.achieved {
                1
            } else {
                0
            },
            unlocktime: a.unlocktime,
            name: a.name,
            description: a.description,
        };
        achs.push(entry);
        proof {
            assert(achs@ =~= rs.take(k + 1).map_values(|a: ProtocolAchievement| spec_achievement_from(a)));
        }
    }
    proof {
        assert(rs.take(rs.len() as int) =~= rs);
    }
    let ghost s = achs@;
    let mut keys: Vec<SortKey> = Vec::new();
    let mut i: usize = 0;
    while i < achs.len()
        invariant
            s == achs@,
            i <= achs.len(),
            keys@.len() == i,
            forall|j: int| 0 <= j < i ==> #[trigger] keys@[j]@ == achievement_key(s[j]),
        decreases achs.len() - i,
    {
        let a = &achs[i];
        let shown = a.display_name();
        keys.push(SortKey { major: 255u64 - a.achieved as u64, minor: 0, text: chars_of(shown), last: 0 });
        i = i + 1;
    }
    proof {
        assert(keys_view(keys@) =~= achievement_keys(s));
    }
    let order = stable_order(&keys);
    let mut out: Vec<Achievement> = Vec::new();
    let mut p: usize = 0;
    while p < order.len()
        invariant
            s == achs@,
            is_stable_order(achievement_keys(s), order@),
            covers(achievement_keys(s), order@),
            p <= order@.len(),
            out@.len() == p,
            forall|q: int| 0 <= q < p ==> #[trigger] out@[q] == s[order@[q] as int],
        decreases order@.len() - p,
    {
        let idx = order[p];
        out.push(clone_achievement(&achs[idx]));
        p = p + 1;
    }
    proof {
        assert(out@ =~= permuted(s, order@));
    }
    out
}


/// When a game was last played, zero when never.
pub open spec fn last_played(g: Game) -> int {
    match g.rtime_last_played {
        Some(t) => t as int,
        None => 0,
    }
}

/// Appids of the games played at some time, in library order.
pub open spec fn spec_recent_appids(s: Seq<Game>) -> Seq<u32>
    decreases s.len(),
{
    if s.len() == 0 {
        Seq::empty()
    } else if last_played(s.last()) > 0 {
        spec_recent_appids(s.drop_last()).push(s.last().appid)
    } else {
        spec_recent_appids(s.drop_last())
    }
}

pub open spec fn has_game(games: Seq<Game>, appid: u32) -> bool {
    exists|i: int| 0 <= i < games.len() && games[i].appid == appid
}

pub open spec fn has_cached(cache: Seq<(u32, Seq<char>)>, appid: u32) -> bool {
    exists|i: int| 0 <= i < cache.len() && cache[i].0 == appid
}

/// The name cache as values.
pub open spec fn cache_view(cache: Seq<(u32, String)>) -> Seq<(u32, Seq<char>)> {
    Seq::new(cache.len(), |i: int| (cache[i].0, cache[i].1@))
}

/// A game without a name of its own.
pub open spec fn unnamed(g: Game) -> bool {
    match g.name {
        Some(n) => n@.len() == 0,
        None => true,
    }
}

/// Appids of unnamed library games whose names were never looked up, in library order.
pub open spec fn spec_unknown_library(games: Seq<Game>, cache: Seq<(u32, Seq<char>)>) -> Seq<u32>
    decreases games.len(),
{
    if games.len() == 0 {
        Seq::empty()
    } else {
        let prev = spec_unknown_library(games.drop_last(), cache);
        if unnamed(games.last()) && !has_cached(cache, games.last().appid) {
            prev.push(games.last().appid)
        } else {
            prev
        }
    }
}

/// Games friends are playing that are neither in the library nor looked up yet, each once,
/// in order of first appearance.
pub open spec fn spec_unknown_friend_games(
    friends: Seq<Persona>,
    games: Seq<Game>,
    cache: Seq<(u32, Seq<char>)>,
) -> Seq<u32>
    decreases friends.len(),
{
    if friends.len() == 0 {
        Seq::empty()
    } else {
        let prev = spec_unknown_friend_games(friends.drop_last(), games, cache);
        match friends.last().game_app_id {
            Some(id) => if !has_game(games, id) && !has_cached(cache, id) && !prev.contains(id) {
                prev.push(id)
            } else {
                prev
            },
            None => prev,
        }
    }
}

/// The cache with an empty (pending) name added for each id it lacks.
pub open spec fn spec_mark_pending(cache: Seq<(u32, Seq<char>)>, ids: Seq<u32>) -> Seq<
    (u32, Seq<char>),
>
    decreases ids.len(),
{
    if ids.len() == 0 {
        cache
    } else {
        let prev = spec_mark_pending(cache, ids.drop_last());
        if has_cached(prev, ids.last()) {
            prev
        } else {
            prev.push((ids.last(), Seq::<char>::empty()))
        }
    }
}

/// `after` is `before` with a name lookup for `ids` queued, when there are any.
pub open spec fn queued_lookup(before: Seq<Effect>, after: Seq<Effect>, ids: Seq<u32>) -> bool {
    if ids.len() == 0 {
        after == before
    } else {
        &&& after.len() == before.len() + 1
        &&& after.drop_last() == before
        &&& after.last() matches Effect::Io(IoEvent::LookupGameNames(v)) && v@ == ids
    }
}

fn has_game_exec(games: &Vec<Game>, appid: u32) -> (r: bool)
    ensures
        r == has_game(games@, appid),
{
    let mut i: usize = 0;
    while i < games.len()
        invariant
            i <= games.len(),
            forall|j: int| 0 <= j < i ==> games@[j].appid != appid,
        decreases games.len() - i,
    {
        if games[i].appid == appid {
            return true;
        }
        i = i + 1;
    }
    false
}

fn has_cached_exec(cache: &Vec<(u32, String)>, appid: u32) -> (r: bool)
    ensures
        r == has_cached(cache_view(cache@), appid),
{
    let ghost cv = cache_view(cache@);
    let mut i: usize = 0;
    while i < cache.len()
        invariant
            cv == cache_view(cache@),
            i <= cache.len(),
            forall|j: int| 0 <= j < i ==> cv[j].0 != appid,
        decreases cache.len() - i,
    {
        if cache[i].0 == appid {
            assert(cv[i as int].0 == appid);
            return true;
        }
        i = i + 1;
    }
    false
}

fn contains_u32(v: &Vec<u32>, x: u32) -> (r: bool)
    ensures
        r == v@.contains(x),
{
    let mut i: usize = 0;
    while i < v.len()
        invariant
            i <= v.len(),
            forall|j: int| 0 <= j < i ==> v@[j] != x,
        decreases v.len() - i,
    {
        if v[i] == x {
            assert(v@[i as int] == x);
            return true;
        }
        i = i + 1;
    }
    false
}

/// Adds an empty (pending) name for each of `ids` the cache lacks.
fn mark_pending(cache: &mut Vec<(u32, String)>, ids: &Vec<u32>)
    ensures
        cache_view(final(cache)@) == spec_mark_pending(cache_view(old(cache)@), ids@),
        keys_unique(old(cache)@) ==> keys_unique(final(cache)@),
{
    let ghost start = cache_view(cache@);
    let ghost was_unique = keys_unique(cache@);
    let mut k: usize = 0;
    while k < ids.len()
        invariant
            k <= ids.len(),
            cache_view(cache@) == spec_mark_pending(start, ids@.take(k as int)),
            was_unique == keys_unique(old(cache)@),
            was_unique ==> keys_unique(cache@),
        decreases ids.len() - k,
    {
        proof {
            assert(ids@.take(k + 1).drop_last() =~= ids@.take(k as int));
        }
        let id = ids[k];
        if !has_cached_exec(cache, id) {
            let ghost before = cache@;
            cache.push((id, String::new()));
            proof {
                assert(cache_view(cache@) =~= cache_view(before).push((id, Seq::<char>::empty())));
                if was_unique {
                    assert forall|a: int, b: int| 0 <= a < b < cache@.len() implies #[trigger] cache@[a].0
                        != #[trigger] cache@[b].0 by {
                        assert(cache@[a] == before[a]);
                        assert(cache_view(before)[a].0 == before[a].0);
                        if b < before.len() {
                            assert(cache@[b] == before[b]);
                        }
                    }
                }
            }
        }
        k = k + 1;
    }
    proof {
        assert(ids@.take(ids@.len() as int) =~= ids@);
    }
}

/// Whether position `i` of `s` holds key `k`.
pub open spec fn keyed_at<V>(s: Seq<(u32, V)>, k: u32, i: int) -> bool {
    0 <= i < s.len() && s[i].0 == k
}

/// `s` with `v` stored under `k`: replacing the entry for `k`, or added at the end.
pub open spec fn spec_put_entry<V>(s: Seq<(u32, V)>, k: u32, v: V) -> Seq<(u32, V)> {
    if exists|i: int| keyed_at(s, k, i) {
        s.update(choose|i: int| keyed_at(s, k, i), (k, v))
    } else {
        s.push((k, v))
    }
}

/// Launch entries per appid as a map from the reported games: each game stores its entries
/// under its appid, a later report of an appid replacing an earlier one.
pub open spec fn launch_info_of(reported: Seq<ProtocolGame>) -> Seq<(u32, Seq<LaunchEntry>)>
    decreases reported.len(),
{
    if reported.len() == 0 {
        Seq::empty()
    } else {
        spec_put_entry(
            launch_info_of(reported.drop_last()),
            reported.last().appid,
            reported.last().launch@,
        )
    }
}

/// Stores `launch` under `appid`, keeping the keys distinct.
fn put_launch(info: &mut Vec<(u32, Vec<LaunchEntry>)>, appid: u32, launch: Vec<LaunchEntry>)
    requires
        keys_unique(old(info)@),
    ensures
        keys_unique(final(info)@),
        launch_info_view(final(info)@) == spec_put_entry(launch_info_view(old(info)@), appid, launch@),
{
    let ghost v = launch_info_view(info@);
    let ghost lv = launch@;
    let mut i: usize = 0;
    while i < info.len()
        invariant
            v == launch_info_view(info@),
            v == launch_info_view(old(info)@),
            info@ == old(info)@,
            keys_unique(info@),
            lv == launch@,
            i <= info.len(),
            forall|j: int| 0 <= j < i ==> info@[j].0 != appid,
        decreases info.len() - i,
    {
        if info[i].0 == appid {
            let ghost raw = info@;
            proof {
                assert(keyed_at(v, appid, i as int));
                let c = choose|c: int| keyed_at(v, appid, c);
                if c != i as int {
                    if c < i as int {
                        assert(raw[c].0 != raw[i as int].0);
                    } else {
                        assert(raw[i as int].0 != raw[c].0);
                    }
                }
                assert(spec_put_entry(v, appid, lv) == v.update(i as int, (appid, lv)));
            }
            let _ = info.remove(i);
            info.insert(i, (appid, launch));
            proof {
                assert(launch_info_view(info@) =~= v.update(i as int, (appid, lv)));
                assert forall|a: int, b: int| 0 <= a < b < info@.len() implies #[trigger] info@[a].0
                    != #[trigger] info@[b].0 by {
                    assert(raw[a].0 != raw[b].0);
                    if a != i as int {
                        assert(info@[a] == raw[a]);
                    }
                    if b != i as int {
                        assert(info@[b] == raw[b]);
                    }
                }
            }
            return;
        }
        i = i + 1;
    }
    let ghost raw = info@;
    proof {
        assert forall|c: int| !keyed_at(v, appid, c) by {
            if 0 <= c < v.len() {
                assert(v[c].0 == raw[c].0);
            }
        }
    }
    info.push((appid, launch));
    proof {
        assert(launch_info_view(info@) =~= v.push((appid, lv)));
        assert forall|a: int, b: int| 0 <= a < b < info@.len() implies #[trigger] info@[a].0
            != #[trigger] info@[b].0 by {
            assert(info@[a] == raw[a]);
            if b < raw.len() {
                assert(info@[b] == raw[b]);
            }
        }
    }
}

pub open spec fn launch_info_view(info: Seq<(u32, Vec<LaunchEntry>)>) -> Seq<(u32, Seq<LaunchEntry>)> {
    Seq::new(info.len(), |i: int| (info[i].0, info[i].1@))
}

impl App {
    /// Queues a name lookup for the unnamed library games never looked up, marking them
    /// pending so no second lookup is queued.
    pub fn queue_library_game_name_lookups(&mut self)
        ensures
            keys_unique(old(self).game_name_cache@) ==> keys_unique(final(self).game_name_cache@),
            cache_view(final(self).game_name_cache@) == spec_mark_pending(
                cache_view(old(self).game_name_cache@),
                spec_unknown_library(old(self).games@, cache_view(old(self).game_name_cache@)),
            ),
            queued_lookup(
                old(self).outbox@,
                final(self).outbox@,
                spec_unknown_library(old(self).games@, cache_view(old(self).game_name_cache@)),
            ),
            *final(self) == (App {
                game_name_cache: final(self).game_name_cache,
                outbox: final(self).outbox,
                ..*old(self)
            }),
    {
        let ghost games = self.games@;
        let ghost cv = cache_view(self.game_name_cache@);
        let mut unknown: Vec<u32> = Vec::new();
        let mut i: usize = 0;
        while i < self.games.len()
            invariant
                games == self.games@,
                cv == cache_view(self.game_name_cache@),
                i <= games.len(),
                unknown@ == spec_unknown_library(games.take(i as int), cv),
            decreases games.len() - i,
        {
            proof {
                assert(games.take(i + 1).drop_last() =~= games.take(i as int));
            }
            let g = &self.games[i];
            let is_unnamed = match &g.name {
                Some(n) => n.as_str().is_empty(),
                None => true,
            };
            if is_unnamed && !has_cached_exec(&self.game_name_cache, g.appid) {
                unknown.push(g.appid);
            }
            i = i + 1;
        }
        proof {
            assert(games.take(games.len() as int) =~= games);
        }
        if unknown.len() > 0 {
            mark_pending(&mut self.game_name_cache, &unknown);
            let ghost before = self.outbox@;
            let ghost ids = unknown@;
            self.outbox.push(Effect::Io(IoEvent::LookupGameNames(unknown)));
            proof {
                assert(self.outbox@.drop_last() =~= before);
                assert(self.outbox@.last() == Effect::Io(IoEvent::LookupGameNames(unknown)));
            }
        } else {
            proof {
                assert(spec_mark_pending(cv, unknown@) == cv);
            }
        }
    }

    /// Queues a name lookup for games friends are playing that are neither in the library
    /// nor looked up yet, marking them pending.
    pub fn queue_game_name_lookups(&mut self)
        ensures
            keys_unique(old(self).game_name_cache@) ==> keys_unique(final(self).game_name_cache@),
            cache_view(final(self).game_name_cache@) == spec_mark_pending(
                cache_view(old(self).game_name_cache@),
                spec_unknown_friend_games(
                    old(self).protocol_friends@,
                    old(self).games@,
                    cache_view(old(self).game_name_cache@),
                ),
            ),
            queued_lookup(
                old(self).outbox@,
                final(self).outbox@,
                spec_unknown_friend_games(
                    old(self).protocol_friends@,
                    old(self).games@,
                    cache_view(old(self).game_name_cache@),
                ),
            ),
            *final(self) == (App {
                game_name_cache: final(self).game_name_cache,
                outbox: final(self).outbox,
                ..*old(self)
            }),
    {
        let ghost friends = self.protocol_friends@;
        let ghost cv = cache_view(self.game_name_cache@);
        let mut unknown: Vec<u32> = Vec::new();
        let mut i: usize = 0;
        while i < self.protocol_friends.len()
            invariant
                friends == self.protocol_friends@,
                cv == cache_view(self.game_name_cache@),
                i <= friends.len(),
                unknown@ == spec_unknown_friend_games(friends.take(i as int), self.games@, cv),
            decreases friends.len() - i,
        {
            proof {
                assert(friends.take(i + 1).drop_last() =~= friends.take(i as int));
            }
            if let Some(id) = self.protocol_friends[i].game_app_id {
                if !has_game_exec(&self.games, id) && !has_cached_exec(&self.game_name_cache, id)
                    && !contains_u32(&unknown, id) {
                    unknown.push(id);
                }
            }
            i = i + 1;
        }
        proof {
            assert(friends.take(friends.len() as int) =~= friends);
        }
        if unknown.len() > 0 {
            mark_pending(&mut self.game_name_cache, &unknown);
            let ghost before = self.outbox@;
            let ghost ids = unknown@;
            self.outbox.push(Effect::Io(IoEvent::LookupGameNames(unknown)));
            proof {
                assert(self.outbox@.drop_last() =~= before);
                assert(self.outbox@.last() == Effect::Io(IoEvent::LookupGameNames(unknown)));
            }
        } else {
            proof {
                assert(spec_mark_pending(cv, unknown@) == cv);
            }
        }
    }

    /// Takes in presence reports and queues name lookups for the games they mention.
    pub fn apply_persona_states(&mut self, personas: Vec<Persona>)
        ensures
            final(self).protocol_friends@ == spec_merge_personas(
                old(self).protocol_friends@,
                personas@,
            ),
            cache_view(final(self).game_name_cache@) == spec_mark_pending(
                cache_view(old(self).game_name_cache@),
                spec_unknown_friend_games(
                    final(self).protocol_friends@,
                    old(self).games@,
                    cache_view(old(self).game_name_cache@),
                ),
            ),
            queued_lookup(
                old(self).outbox@,
                final(self).outbox@,
                spec_unknown_friend_games(
                    final(self).protocol_friends@,
                    old(self).games@,
                    cache_view(old(self).game_name_cache@),
                ),
            ),
            *final(self) == (App {
                protocol_friends: final(self).protocol_friends,
                game_name_cache: final(self).game_name_cache,
                outbox: final(self).outbox,
                ..*old(self)
            }),
    {
        merge_personas(&mut self.protocol_friends, personas);
        self.queue_game_name_lookups();
    }

    /// Keeps only the friends still on the friends list.
    pub fn apply_friends_list(&mut self, steamids: Vec<u64>)
        ensures
            final(self).protocol_friends@ == old(self).protocol_friends@.filter(
                |p: Persona| steamids@.contains(p.steamid),
            ),
            *final(self) == (App { protocol_friends: final(self).protocol_friends, ..*old(self) }),
    {
        let ghost s = self.protocol_friends@;
        let mut kept: Vec<Persona> = Vec::new();
        let mut old_friends: Vec<Persona> = Vec::new();
        std::mem::swap(&mut old_friends, &mut self.protocol_friends);
        for p in it: old_friends.into_iter()
            invariant
                it.seq() == s,
                kept@ == s.take(it.index() as int).filter(|p: Persona| steamids@.contains(p.steamid)),
        {
            let ghost k = it.index();
            proof {
                assert(s.take(k + 1).drop_last() =~= s.take(k as int));
                reveal(Seq::filter);
            }
            let mut found = false;
            let mut j: usize = 0;
            while j < steamids.len()
                invariant
                    j <= steamids.len(),
                    found == exists|q: int| 0 <= q < j && steamids@[q] == p.steamid,
                decreases steamids.len() - j,
            {
                if steamids[j] == p.steamid {
                    found = true;
                }
                j = j + 1;
            }
            if found {
                kept.push(p);
            }
        }
        proof {
            assert(s.take(s.len() as int) =~= s);
        }
        self.protocol_friends = kept;
    }

    /// Records the recently played games, most recent first.
    pub fn apply_recently_played(&mut self, reported: Vec<ProtocolGame>)
        ensures
            final(self).recently_played_appids@ == reported@.map_values(|g: ProtocolGame| g.appid),
            *final(self) == (App {
                recently_played_appids: final(self).recently_played_appids,
                ..*old(self)
            }),
    {
        let mut ids: Vec<u32> = Vec::new();
        let mut i: usize = 0;
        while i < reported.len()
            invariant
                i <= reported.len(),
                ids@ == reported@.take(i as int).map_values(|g: ProtocolGame| g.appid),
            decreases reported.len() - i,
        {
            ids.push(reported[i].appid);
            i = i + 1;
            proof {
                assert(ids@ =~= reported@.take(i as int).map_values(|g: ProtocolGame| g.appid));
            }
        }
        proof {
            assert(reported@.take(reported@.len() as int) =~= reported@);
        }
        self.recently_played_appids = ids;
    }

    /// Shows a game's achievements, unlocked first, then by name.
    pub fn apply_achievements(&mut self, reported: Vec<ProtocolAchievement>)
        ensures
            in_achievement_order(
                reported@.map_values(|a: ProtocolAchievement| spec_achievement_from(a)),
                final(self).achievements@,
            ),
            *final(self) == (App { achievements: final(self).achievements, ..*old(self) }),
    {
        self.achievements = achievements_from(reported);
    }

    /// Takes in the owned-games report: the library in library order, the games played at
    /// some time as the recently played list, the launch entries per appid; then queues
    /// name lookups for unnamed games and refreshes the visible rows.
    pub fn apply_owned_games(&mut self, reported: Vec<ProtocolGame>)
        requires
            old(self).wf(),
        ensures
            final(self).wf(),
            in_library_order(
                reported@.map_values(|g: ProtocolGame| spec_game_from(g)),
                final(self).games@,
            ),
            final(self).recently_played_appids@ == spec_recent_appids(final(self).games@),
            launch_info_view(final(self).app_launch_info@) == launch_info_of(reported@),
            cache_view(final(self).game_name_cache@) == spec_mark_pending(
                cache_view(old(self).game_name_cache@),
                spec_unknown_library(final(self).games@, cache_view(old(self).game_name_cache@)),
            ),
            queued_lookup(
                old(self).outbox@,
                final(self).outbox@,
                spec_unknown_library(final(self).games@, cache_view(old(self).game_name_cache@)),
            ),
            final(self).filtered_games@ == spec_filter_indices(
                final(self).games@,
                final(self).game_name_cache@,
                spec_lowercase(old(self).search_input@),
                old(self).app_type_filter,
            ),
            *final(self) == (App {
                games: final(self).games,
                recently_played_appids: final(self).recently_played_appids,
                app_launch_info: final(self).app_launch_info,
                game_name_cache: final(self).game_name_cache,
                outbox: final(self).outbox,
                filtered_games: final(self).filtered_games,
                library_state: ListSelection {
                    selected: if final(self).filtered_games@.len() == 0 {
                        None
                    } else {
                        Some(0usize)
                    },
                },
                loading: ViewLoading { library: false, ..old(self).loading },
                ..*old(self)
            }),
    {
        let ghost rs = reported@;
        let mut games: Vec<Game> = Vec::new();
        let mut info: Vec<(u32, Vec<LaunchEntry>)> = Vec::new();
        for g in it: reported.into_iter()
            invariant
                it.seq() == rs,
                games@ == rs.take(it.index() as int).map_values(|g: ProtocolGame| spec_game_from(g)),
                launch_info_view(info@) == launch_info_of(rs.take(it.index() as int)),
                keys_unique(info@),
        {
            let ghost k = it.index();
            let ghost gv = g;
            let appid = g.appid;
            let ProtocolGame {
                appid: _,
                name,
                playtime_forever,
                rtime_last_played,
                img_icon_url,
                app_type,
                installdir: _,
                launch,
            } = g;
            proof {
                assert(gv == rs[k as int]);
                assert(launch@ == rs[k as int].launch@);
                assert(rs.take(k + 1).drop_last() =~= rs.take(k as int));
                assert(rs.take(k + 1).last() == rs[k as int]);
            }
            put_launch(&mut info, appid, launch);
            let game = game_from(
                ProtocolGame {
                    appid,
                    name,
                    playtime_forever,
                    rtime_last_played,
                    img_icon_url,
                    app_type,
                    installdir: None,
                    launch: Vec::new(),
                },
            );
            games.push(game);
            proof {
                assert(games@ =~= rs.take(k + 1).map_values(|g: ProtocolGame| spec_game_from(g)));
            }
        }
        proof {
            assert(rs.take(rs.len() as int) =~= rs);
        }
        sort_library_games(&mut games);
        let mut recent: Vec<u32> = Vec::new();
        let mut i: usize = 0;
        while i < games.len()
            invariant
                i <= games.len(),
                recent@ == spec_recent_appids(games@.take(i as int)),
            decreases games.len() - i,
        {
            proof {
                assert(games@.take(i + 1).drop_last() =~= games@.take(i as int));
            }
            let played = match games[i].rtime_last_played {
                Some(t) => t,
                None => 0,
            };
            if played > 0 {
                recent.push(games[i].appid);
            }
            i = i + 1;
        }
        proof {
            assert(games@.take(games@.len() as int) =~= games@);
        }
        let len = games.len();
        let mut all: Vec<usize> = Vec::new();
        let mut j: usize = 0;
        while j < len
            invariant
                j <= len,
                all@.len() == j,
                forall|q: int| 0 <= q < j ==> #[trigger] all@[q] < len,
            decreases len - j,
        {
            all.push(j);
            j = j + 1;
        }
        self.recently_played_appids = recent;
        self.games = games;
        self.filtered_games = all;
        self.app_launch_info = info;
        self.loading.library = false;
        self.queue_library_game_name_lookups();
        self.update_search();
    }
}

} // verus!
