//! Background loads as steps on the client state: what starting a load sets, what a result
//! or a failure leaves behind, and which follow-up work is queued. The requests themselves
//! are made by the input loop between these steps.

use vstd::prelude::*;

use crate::library::{achievement_keys, in_achievement_order, permuted};
use crate::models::{Achievement, AppDetails, Game, NewsItem, PlayerSummary, WishlistItem};
use crate::ordering::{covers, is_stable_order, keys_view, stable_order, KeyView, SortKey};
use crate::library::cache_view;
use crate::protocol::{ProtocolStatus, RunCommand};
use crate::routes::IoEvent;
use crate::text::{chars_of, contains_text, spec_contains};
use crate::ui::{keys_unique, spec_filter_indices, App, Effect, ListSelection, ViewLoading};

verus! {

/// Friends loaded per Web API page.
pub const FRIEND_PAGE_SIZE: usize = 100;

/// Apps whose news is fetched at most.
pub const NEWS_APPS: usize = 20;

/// News items kept at most.
pub const NEWS_ITEMS: usize = 60;

/// Sorted by a key in stable order: `r` lists `s` in the order `keys` give.
pub open spec fn in_key_order<T>(s: Seq<T>, keys: Seq<KeyView>, r: Seq<T>) -> bool {
    exists|order: Seq<usize>| is_stable_order(keys, order) && covers(keys, order) && r == permuted(s, order)
}

/// Web API library order: most played first.
pub open spec fn playtime_keys(s: Seq<Game>) -> Seq<KeyView> {
    Seq::new(
        s.len(),
        |i: int| KeyView { major: 4294967295 - s[i].playtime_forever, minor: 0, text: Seq::empty(), last: 0 },
    )
}

/// Friend summaries order: in game, then online (any state but offline), then offline.
pub open spec fn summary_rank(p: PlayerSummary) -> int {
    if p.gameid is Some {
        0
    } else if p.personastate > 0 {
        1
    } else {
        2
    }
}

pub open spec fn summary_keys(s: Seq<PlayerSummary>) -> Seq<KeyView> {
    Seq::new(s.len(), |i: int| KeyView { major: summary_rank(s[i]), minor: 0, text: Seq::empty(), last: 0 })
}

/// News order: newest first.
pub open spec fn news_keys(s: Seq<NewsItem>) -> Seq<KeyView> {
    Seq::new(
        s.len(),
        |i: int| KeyView { major: 18446744073709551615 - s[i].date, minor: 0, text: Seq::empty(), last: 0 },
    )
}

/// Wishlist order: by priority.
pub open spec fn priority_keys(s: Seq<WishlistItem>) -> Seq<KeyView> {
    Seq::new(s.len(), |i: int| KeyView { major: s[i].priority as int, minor: 0, text: Seq::empty(), last: 0 })
}

fn numeric_key(n: u64) -> (r: SortKey)
    ensures
        r@ == (KeyView { major: n as int, minor: 0, text: Seq::empty(), last: 0 }),
{
    SortKey { major: n, minor: 0, text: Vec::new(), last: 0 }
}

fn clone_summary(p: &PlayerSummary) -> (r: PlayerSummary)
    ensures
        r == *p,
{
    PlayerSummary {
        steamid: p.steamid.clone(),
        personaname: p.personaname.clone(),
        avatarfull: crate::models::clone_opt_string(&p.avatarfull),
        personastate: p.personastate,
        gameid: crate::models::clone_opt_string(&p.gameid),
        gameextrainfo: crate::models::clone_opt_string(&p.gameextrainfo),
    }
}

fn clone_news(n: &NewsItem) -> (r: NewsItem)
    ensures
        r == *n,
{
    NewsItem {
        gid: n.gid.clone(),
        title: n.title.clone(),
        url: n.url.clone(),
        feedlabel: n.feedlabel.clone(),
        date: n.date,
        appid: n.appid,
        contents: crate::models::clone_opt_string(&n.contents),
    }
}

fn clone_wish(w: &WishlistItem) -> (r: WishlistItem)
    ensures
        r == *w,
{
    WishlistItem {
        appid: w.appid,
        name: w.name.clone(),
        priority: w.priority,
        added: w.added,
        capsule: crate::models::clone_opt_string(&w.capsule),
    }
}

/// Games most played first (stable), as the Web API library comes.
pub fn sort_by_playtime(games: Vec<Game>) -> (r: Vec<Game>)
    ensures
        in_key_order(games@, playtime_keys(games@), r@),
{
    let mut keys: Vec<SortKey> = Vec::new();
    let mut i: usize = 0;
    while i < games.len()
        invariant
            i <= games.len(),
            keys@.len() == i,
            forall|j: int| 0 <= j < i ==> #[trigger] keys@[j]@ == playtime_keys(games@)[j],
        decreases games.len() - i,
    {
        keys.push(numeric_key(4294967295u64 - games[i].playtime_forever as u64));
        i = i + 1;
    }
    assert(keys_view(keys@) =~= playtime_keys(games@));
    let order = stable_order(&keys);
    let mut out: Vec<Game> = Vec::new();
    let mut p: usize = 0;
    while p < order.len()
        invariant
            is_stable_order(playtime_keys(games@), order@),
            covers(playtime_keys(games@), order@),
            p <= order@.len(),
            out@.len() == p,
            forall|q: int| 0 <= q < p ==> #[trigger] out@[q] == games@[order@[q] as int],
        decreases order@.len() - p,
    {
        out.push(games[order[p]].clone());
        p = p + 1;
    }
    assert(out@ =~= permuted(games@, order@));
    out
}

/// Friend summaries in game first, then online, then offline (stable).
pub fn sort_summaries(friends: Vec<PlayerSummary>) -> (r: Vec<PlayerSummary>)
    ensures
        in_key_order(friends@, summary_keys(friends@), r@),
{
    let mut keys: Vec<SortKey> = Vec::new();
    let mut i: usize = 0;
    while i < friends.len()
        invariant
            i <= friends.len(),
            keys@.len() == i,
            forall|j: int| 0 <= j < i ==> #[trigger] keys@[j]@ == summary_keys(friends@)[j],
        decreases friends.len() - i,
    {
        let p = &friends[i];
        let rank: u64 = if p.gameid.is_some() {
            0
        } else if p.personastate > 0 {
            1
        } else {
            2
        };
        keys.push(numeric_key(rank));
        i = i + 1;
    }
    assert(keys_view(keys@) =~= summary_keys(friends@));
    let order = stable_order(&keys);
    let mut out: Vec<PlayerSummary> = Vec::new();
    let mut p: usize = 0;
    while p < order.len()
        invariant
            is_stable_order(summary_keys(friends@), order@),
            covers(summary_keys(friends@), order@),
            p <= order@.len(),
            out@.len() == p,
            forall|q: int| 0 <= q < p ==> #[trigger] out@[q] == friends@[order@[q] as int],
        decreases order@.len() - p,
    {
        out.push(clone_summary(&friends[order[p]]));
        p = p + 1;
    }
    assert(out@ =~= permuted(friends@, order@));
    out
}

/// News newest first (stable).
pub fn sort_news(items: Vec<NewsItem>) -> (r: Vec<NewsItem>)
    ensures
        in_key_order(items@, news_keys(items@), r@),
{
    let mut keys: Vec<SortKey> = Vec::new();
    let mut i: usize = 0;
    while i < items.len()
        invariant
            i <= items.len(),
            keys@.len() == i,
            forall|j: int| 0 <= j < i ==> #[trigger] keys@[j]@ == news_keys(items@)[j],
        decreases items.len() - i,
    {
        keys.push(numeric_key(18446744073709551615u64 - items[i].date));
        i = i + 1;
    }
    assert(keys_view(keys@) =~= news_keys(items@));
    let order = stable_order(&keys);
    let mut out: Vec<NewsItem> = Vec::new();
    let mut p: usize = 0;
    while p < order.len()
        invariant
            is_stable_order(news_keys(items@), order@),
            covers(news_keys(items@), order@),
            p <= order@.len(),
            out@.len() == p,
            forall|q: int| 0 <= q < p ==> #[trigger] out@[q] == items@[order@[q] as int],
        decreases order@.len() - p,
    {
        out.push(clone_news(&items[order[p]]));
        p = p + 1;
    }
    assert(out@ =~= permuted(items@, order@));
    out
}

/// Wishlist by priority (stable).
pub fn sort_wishlist(items: Vec<WishlistItem>) -> (r: Vec<WishlistItem>)
    ensures
        in_key_order(items@, priority_keys(items@), r@),
{
    let mut keys: Vec<SortKey> = Vec::new();
    let mut i: usize = 0;
    while i < items.len()
        invariant
            i <= items.len(),
            keys@.len() == i,
            forall|j: int| 0 <= j < i ==> #[trigger] keys@[j]@ == priority_keys(items@)[j],
        decreases items.len() - i,
    {
        keys.push(numeric_key(items[i].priority as u64));
        i = i + 1;
    }
    assert(keys_view(keys@) =~= priority_keys(items@));
    let order = stable_order(&keys);
    let mut out: Vec<WishlistItem> = Vec::new();
    let mut p: usize = 0;
    while p < order.len()
        invariant
            is_stable_order(priority_keys(items@), order@),
            covers(priority_keys(items@), order@),
            p <= order@.len(),
            out@.len() == p,
            forall|q: int| 0 <= q < p ==> #[trigger] out@[q] == items@[order@[q] as int],
        decreases order@.len() - p,
    {
        out.push(clone_wish(&items[order[p]]));
        p = p + 1;
    }
    assert(out@ =~= permuted(items@, order@));
    out
}

/// Achievements unlocked first, then by name (stable).
pub fn sort_achievements(achs: Vec<Achievement>) -> (r: Vec<Achievement>)
    ensures
        in_achievement_order(achs@, r@),
{
    let mut keys: Vec<SortKey> = Vec::new();
    let mut i: usize = 0;
    while i < achs.len()
        invariant
            i <= achs.len(),
            keys@.len() == i,
            forall|j: int| 0 <= j < i ==> #[trigger] keys@[j]@ == achievement_keys(achs@)[j],
        decreases achs.len() - i,
    {
        let a = &achs[i];
        keys.push(
            SortKey { major: 255u64 - a.achieved as u64, minor: 0, text: chars_of(a.display_name()), last: 0 },
        );
        i = i + 1;
    }
    assert(keys_view(keys@) =~= achievement_keys(achs@));
    let order = stable_order(&keys);
    let mut out: Vec<Achievement> = Vec::new();
    let mut p: usize = 0;
    while p < order.len()
        invariant
            is_stable_order(achievement_keys(achs@), order@),
            covers(achievement_keys(achs@), order@),
            p <= order@.len(),
            out@.len() == p,
            forall|q: int| 0 <= q < p ==> #[trigger] out@[q] == achs@[order@[q] as int],
        decreases order@.len() - p,
    {
        let a = &achs[order[p]];
        out.push(
            Achievement {
                apiname: a.apiname.clone(),
                achieved: a.achieved,
                unlocktime: a.unlocktime,
                name: crate::models::clone_opt_string(&a.name),
                description: crate::models::clone_opt_string(&a.description),
            },
        );
        p = p + 1;
    }
    assert(out@ =~= permuted(achs@, order@));
    out
}

/// Whether an error is about missing Web API credentials, which is expected when only the
/// Steam connection is used.
pub open spec fn mentions_credentials(msg: Seq<char>, steam_id_too: bool) -> bool {
    spec_contains(msg, "api_key"@) || (steam_id_too && spec_contains(msg, "steam_id"@))
}

/// The first `n` values of `s`, or all of them.
pub open spec fn first_n<T>(s: Seq<T>, n: int) -> Seq<T> {
    if s.len() <= n {
        s
    } else {
        s.take(n)
    }
}

/// The apps whose news is shown: the first library games, else the first recently played,
/// else the first wishlist entries.
pub open spec fn spec_news_appids(a: App) -> Seq<u32> {
    let from_games = first_n(a.games@, NEWS_APPS as int).map_values(|g: Game| g.appid);
    let from_recent = first_n(a.recently_played_appids@, NEWS_APPS as int);
    let from_wishlist = first_n(a.wishlist@, NEWS_APPS as int).map_values(|w: WishlistItem| w.appid);
    if from_games.len() > 0 {
        from_games
    } else if from_recent.len() > 0 {
        from_recent
    } else {
        from_wishlist
    }
}

impl App {
    /// Starts loading the library: over the Steam connection when signed in (returns
    /// `false`), else over the Web API (returns `true`: the caller fetches).
    pub fn begin_load_library(&mut self) -> (fetch: bool)
        ensures
            fetch == !old(self).friend_cmd_connected,
            final(self).outbox@ == if old(self).friend_cmd_connected {
                old(self).outbox@.push(Effect::Friend(RunCommand::GetLibrary))
            } else {
                old(self).outbox@
            },
            *final(self) == (App {
                loading: ViewLoading { library: true, ..old(self).loading },
                outbox: final(self).outbox,
                ..*old(self)
            }),
    {
        self.loading.library = true;
        if self.friend_cmd_connected {
            self.outbox.push(Effect::Friend(RunCommand::GetLibrary));
            return false;
        }
        true
    }

    /// The Web API library arrived: every game shown.
    pub fn library_loaded(&mut self, games: Vec<Game>)
        requires
            old(self).wf(),
        ensures
            final(self).wf(),
            final(self).games@ == games@,
            final(self).filtered_games@ == Seq::new(games@.len(), |i: int| i as usize),
            *final(self) == (App {
                games: final(self).games,
                filtered_games: final(self).filtered_games,
                loading: ViewLoading { library: false, ..old(self).loading },
                ..*old(self)
            }),
    {
        let len = games.len();
        let mut all: Vec<usize> = Vec::new();
        let mut j: usize = 0;
        while j < len
            invariant
                j <= len,
                all@ == Seq::new(j as nat, |i: int| i as usize),
            decreases len - j,
        {
            all.push(j);
            j = j + 1;
            assert(all@ =~= Seq::new(j as nat, |i: int| i as usize));
        }
        self.games = games;
        self.filtered_games = all;
        self.loading.library = false;
    }

    /// The Web API library failed: loading stops; the error is shown unless it is about
    /// missing credentials.
    pub fn library_failed(&mut self, msg: String)
        ensures
            if mentions_credentials(msg@, true) {
                *final(self) == (App {
                    loading: ViewLoading { library: false, ..old(self).loading },
                    ..*old(self)
                })
            } else {
                *final(self) == (App {
                    error: Some(msg),
                    loading: ViewLoading {
                        library: false,
                        friends: false,
                        wishlist: false,
                        news: false,
                        game_detail: false,
                    },
                    ..*old(self)
                })
            },
    {
        self.loading.library = false;
        if !contains_text(msg.as_str(), "api_key") && !contains_text(msg.as_str(), "steam_id") {
            self.set_error(msg);
        }
    }

    pub fn begin_load_friend_ids(&mut self)
        ensures
            *final(self) == (App { loading: ViewLoading { friends: true, ..old(self).loading }, ..*old(self) }),
    {
        self.loading.friends = true;
    }

    /// The friend list failed: loading stops; the error is shown unless it is about a
    /// missing API key.
    pub fn friend_ids_failed(&mut self, msg: String)
        ensures
            if mentions_credentials(msg@, false) {
                *final(self) == (App {
                    loading: ViewLoading { friends: false, ..old(self).loading },
                    ..*old(self)
                })
            } else {
                *final(self) == (App {
                    error: Some(msg),
                    loading: ViewLoading {
                        library: false,
                        friends: false,
                        wishlist: false,
                        news: false,
                        game_detail: false,
                    },
                    ..*old(self)
                })
            },
    {
        self.loading.friends = false;
        if !contains_text(msg.as_str(), "api_key") {
            self.set_error(msg);
        }
    }

    /// The friend IDs arrived: summaries start over and the first page is requested; with
    /// no friends, loading stops.
    pub fn friend_ids_loaded(&mut self, ids: Vec<String>)
        ensures
            final(self).friend_ids@ == ids@,
            final(self).friends@.len() == 0,
            ids@.len() > 0 ==> {
                &&& final(self).outbox@ == old(self).outbox@.push(Effect::Io(IoEvent::LoadFriendPage(0)))
                &&& *final(self) == (App {
                    friend_ids: final(self).friend_ids,
                    friends: final(self).friends,
                    outbox: final(self).outbox,
                    ..*old(self)
                })
            },
            ids@.len() == 0 ==> *final(self) == (App {
                friend_ids: final(self).friend_ids,
                friends: final(self).friends,
                loading: ViewLoading { friends: false, ..old(self).loading },
                ..*old(self)
            }),
    {
        let has_ids = ids.len() > 0;
        self.friend_ids = ids;
        self.friends = Vec::new();
        if has_ids {
            self.outbox.push(Effect::Io(IoEvent::LoadFriendPage(0)));
        } else {
            self.loading.friends = false;
        }
    }

    /// The IDs of friend page `page`; when it is empty, loading stops.
    pub fn friend_page(&mut self, page: usize) -> (r: Vec<String>)
        requires
            page * FRIEND_PAGE_SIZE <= usize::MAX,
        ensures
            ({
                let start = page * FRIEND_PAGE_SIZE;
                let ids = old(self).friend_ids@;
                r@.len() == if start >= ids.len() {
                    0
                } else if ids.len() - start < FRIEND_PAGE_SIZE {
                    ids.len() - start
                } else {
                    FRIEND_PAGE_SIZE as int
                } && forall|k: int| 0 <= k < r@.len() ==> #[trigger] r@[k] == ids[start + k]
            }),
            r@.len() == 0 ==> *final(self) == (App {
                loading: ViewLoading { friends: false, ..old(self).loading },
                ..*old(self)
            }),
            r@.len() > 0 ==> *final(self) == *old(self),
    {
        let start = page * FRIEND_PAGE_SIZE;
        let mut chunk: Vec<String> = Vec::new();
        let mut k: usize = start;
        while k < self.friend_ids.len() && k - start < FRIEND_PAGE_SIZE
            invariant
                start == page * FRIEND_PAGE_SIZE,
                start <= k,
                k - start <= FRIEND_PAGE_SIZE,
                k <= start || k <= self.friend_ids.len(),
                chunk@.len() == k - start,
                forall|q: int| 0 <= q < chunk@.len() ==> #[trigger] chunk@[q] == self.friend_ids@[start + q],
            decreases self.friend_ids.len() - k,
        {
            chunk.push(self.friend_ids[k].clone());
            k = k + 1;
        }
        if chunk.len() == 0 {
            self.loading.friends = false;
        }
        chunk
    }

    /// A page of friend summaries arrived: added and ordered in game, online, offline;
    /// loading stops; the next page is requested while friends are missing.
    pub fn friend_page_loaded(&mut self, page: usize, summaries: Vec<PlayerSummary>)
        requires
            page < usize::MAX,
        ensures
            in_key_order(
                old(self).friends@ + summaries@,
                summary_keys(old(self).friends@ + summaries@),
                final(self).friends@,
            ),
            final(self).outbox@ == if final(self).friends@.len() < old(self).friend_ids@.len() {
                old(self).outbox@.push(Effect::Io(IoEvent::LoadFriendPage((page + 1) as usize)))
            } else {
                old(self).outbox@
            },
            *final(self) == (App {
                friends: final(self).friends,
                outbox: final(self).outbox,
                loading: ViewLoading { friends: false, ..old(self).loading },
                ..*old(self)
            }),
    {
        let mut all: Vec<PlayerSummary> = Vec::new();
        std::mem::swap(&mut all, &mut self.friends);
        let mut rest = summaries;
        all.append(&mut rest);
        self.friends = sort_summaries(all);
        self.loading.friends = false;
        if self.friends.len() < self.friend_ids.len() {
            self.outbox.push(Effect::Io(IoEvent::LoadFriendPage(page + 1)));
        }
    }

    pub fn begin_load_wishlist(&mut self)
        ensures
            *final(self) == (App { loading: ViewLoading { wishlist: true, ..old(self).loading }, ..*old(self) }),
    {
        self.loading.wishlist = true;
    }

    pub fn wishlist_loaded(&mut self, items: Vec<WishlistItem>)
        ensures
            final(self).wishlist@ == items@,
            *final(self) == (App {
                wishlist: final(self).wishlist,
                loading: ViewLoading { wishlist: false, ..old(self).loading },
                ..*old(self)
            }),
    {
        self.wishlist = items;
        self.loading.wishlist = false;
    }

    /// Starts loading news; returns the apps to fetch news for (the first library games,
    /// else the first recently played, else the first wishlist entries). With none, the
    /// feed empties and loading stops.
    pub fn begin_load_news(&mut self) -> (r: Vec<u32>)
        ensures
            r@ == spec_news_appids(*old(self)),
            r@.len() > 0 ==> *final(self) == (App {
                loading: ViewLoading { news: true, ..old(self).loading },
                ..*old(self)
            }),
            r@.len() == 0 ==> final(self).news_feed@.len() == 0 && *final(self) == (App {
                news_feed: final(self).news_feed,
                loading: ViewLoading { news: false, ..old(self).loading },
                ..*old(self)
            }),
    {
        self.loading.news = true;
        let mut ids: Vec<u32> = Vec::new();
        let mut i: usize = 0;
        while i < self.games.len() && i < NEWS_APPS
            invariant
                i <= self.games@.len(),
                i <= NEWS_APPS,
                ids@ == self.games@.take(i as int).map_values(|g: Game| g.appid),
            decreases NEWS_APPS - i,
        {
            ids.push(self.games[i].appid);
            i = i + 1;
            assert(ids@ =~= self.games@.take(i as int).map_values(|g: Game| g.appid));
        }
        assert(ids@ =~= first_n(self.games@, NEWS_APPS as int).map_values(|g: Game| g.appid));
        if ids.len() == 0 {
            let mut k: usize = 0;
            while k < self.recently_played_appids.len() && k < NEWS_APPS
                invariant
                    k <= self.recently_played_appids@.len(),
                    k <= NEWS_APPS,
                    ids@ == self.recently_played_appids@.take(k as int),
                decreases NEWS_APPS - k,
            {
                ids.push(self.recently_played_appids[k]);
                k = k + 1;
                assert(ids@ =~= self.recently_played_appids@.take(k as int));
            }
            assert(ids@ =~= first_n(self.recently_played_appids@, NEWS_APPS as int));
        }
        if ids.len() == 0 {
            let mut k: usize = 0;
            while k < self.wishlist.len() && k < NEWS_APPS
                invariant
                    k <= self.wishlist@.len(),
                    k <= NEWS_APPS,
                    ids@ == self.wishlist@.take(k as int).map_values(|w: WishlistItem| w.appid),
                decreases NEWS_APPS - k,
            {
                ids.push(self.wishlist[k].appid);
                k = k + 1;
                assert(ids@ =~= self.wishlist@.take(k as int).map_values(|w: WishlistItem| w.appid));
            }
            assert(ids@ =~= first_n(self.wishlist@, NEWS_APPS as int).map_values(|w: WishlistItem| w.appid));
        }
        if ids.len() == 0 {
            self.news_feed = Vec::new();
            self.loading.news = false;
        }
        ids
    }

    /// News arrived (in any order): newest first, at most [`NEWS_ITEMS`] kept.
    pub fn news_loaded(&mut self, items: Vec<NewsItem>)
        ensures
            exists|sorted: Seq<NewsItem>|
                in_key_order(items@, news_keys(items@), sorted) && final(self).news_feed@ == first_n(
                    sorted,
                    NEWS_ITEMS as int,
                ),
            *final(self) == (App {
                news_feed: final(self).news_feed,
                loading: ViewLoading { news: false, ..old(self).loading },
                ..*old(self)
            }),
    {
        let mut sorted = sort_news(items);
        let ghost full = sorted@;
        if sorted.len() > NEWS_ITEMS {
            sorted.truncate(NEWS_ITEMS);
        }
        assert(sorted@ =~= first_n(full, NEWS_ITEMS as int));
        self.news_feed = sorted;
        self.loading.news = false;
    }

    pub fn begin_load_game_detail(&mut self)
        ensures
            *final(self) == (App {
                loading: ViewLoading { game_detail: true, ..old(self).loading },
                ..*old(self)
            }),
    {
        self.loading.game_detail = true;
    }

    pub fn game_detail_loaded(&mut self, details: Option<AppDetails>)
        ensures
            *final(self) == (App {
                selected_game: details,
                loading: ViewLoading { game_detail: false, ..old(self).loading },
                ..*old(self)
            }),
    {
        self.selected_game = details;
        self.loading.game_detail = false;
    }

    /// Starts loading achievements: over the Steam connection when signed in (returns
    /// `false`), else over the Web API (returns `true`: the caller fetches).
    pub fn begin_load_achievements(&mut self, appid: u32) -> (fetch: bool)
        ensures
            fetch == !old(self).friend_cmd_connected,
            *final(self) == if old(self).friend_cmd_connected {
                App {
                    outbox: final(self).outbox,
                    ..*old(self)
                }
            } else {
                *old(self)
            },
            old(self).friend_cmd_connected ==> final(self).outbox@ == old(self).outbox@.push(
                Effect::Friend(RunCommand::GetPlayerAchievements(appid)),
            ),
    {
        if self.friend_cmd_connected {
            self.outbox.push(Effect::Friend(RunCommand::GetPlayerAchievements(appid)));
            return false;
        }
        true
    }

    /// Web API achievements arrived: unlocked first, then by name.
    pub fn achievements_loaded(&mut self, achs: Vec<Achievement>)
        ensures
            in_achievement_order(achs@, final(self).achievements@),
            *final(self) == (App { achievements: final(self).achievements, ..*old(self) }),
    {
        self.achievements = sort_achievements(achs);
    }

    /// Web API achievements failed: none shown.
    pub fn achievements_failed(&mut self)
        ensures
            final(self).achievements@.len() == 0,
            *final(self) == (App { achievements: final(self).achievements, ..*old(self) }),
    {
        self.achievements = Vec::new();
    }

    /// Reloads library, friends and wishlist.
    pub fn refresh_all(&mut self)
        ensures
            final(self).outbox@ == old(self).outbox@.push(Effect::Io(IoEvent::LoadLibrary)).push(
                Effect::Io(IoEvent::LoadFriendIds),
            ).push(Effect::Io(IoEvent::LoadWishlist)),
            *final(self) == (App { outbox: final(self).outbox, ..*old(self) }),
    {
        self.outbox.push(Effect::Io(IoEvent::LoadLibrary));
        self.outbox.push(Effect::Io(IoEvent::LoadFriendIds));
        self.outbox.push(Effect::Io(IoEvent::LoadWishlist));
    }
}

/// Position of the first cached name for `appid`.
pub open spec fn is_first_view(cv: Seq<(u32, Seq<char>)>, appid: u32, i: int) -> bool {
    0 <= i < cv.len() && cv[i].0 == appid && forall|j: int| 0 <= j < i ==> cv[j].0 != appid
}

/// The cache with `name` stored for `appid`: replacing the first entry for it, or added.
pub open spec fn spec_put_name(cv: Seq<(u32, Seq<char>)>, appid: u32, name: Seq<char>) -> Seq<
    (u32, Seq<char>),
> {
    if exists|i: int| is_first_view(cv, appid, i) {
        cv.update(choose|i: int| is_first_view(cv, appid, i), (appid, name))
    } else {
        cv.push((appid, name))
    }
}

/// The cache with each looked-up name stored in turn.
pub open spec fn spec_put_names(cv: Seq<(u32, Seq<char>)>, names: Seq<(u32, Seq<char>)>) -> Seq<
    (u32, Seq<char>),
>
    decreases names.len(),
{
    if names.len() == 0 {
        cv
    } else {
        let prev = spec_put_names(cv, names.drop_last());
        spec_put_name(prev, names.last().0, names.last().1)
    }
}

fn put_name(cache: &mut Vec<(u32, String)>, appid: u32, name: String)
    ensures
        cache_view(final(cache)@) == spec_put_name(cache_view(old(cache)@), appid, name@),
        keys_unique(old(cache)@) ==> keys_unique(final(cache)@),
{
    let ghost cv = cache_view(cache@);
    let ghost nm = name@;
    let mut i: usize = 0;
    while i < cache.len()
        invariant
            cv == cache_view(cache@),
            cv == cache_view(old(cache)@),
            cache@ == old(cache)@,
            nm == name@,
            i <= cache.len(),
            forall|j: int| 0 <= j < i ==> cv[j].0 != appid,
        decreases cache.len() - i,
    {
        if cache[i].0 == appid {
            proof {
                assert(cv[i as int].0 == appid);
                assert(is_first_view(cv, appid, i as int));
                let c = choose|k: int| is_first_view(cv, appid, k);
                assert(c == i as int);
                assert(spec_put_name(cv, appid, nm) == cv.update(i as int, (appid, nm)));
            }
            let ghost raw = cache@;
            let ghost named = name;
            let _ = cache.remove(i);
            cache.insert(i, (appid, name));
            proof {
                assert(cache@ =~= raw.update(i as int, (appid, named)));
                if keys_unique(raw) {
                    assert forall|a: int, b: int| 0 <= a < b < cache@.len() implies #[trigger] cache@[a].0
                        != #[trigger] cache@[b].0 by {
                        assert(raw[a].0 != raw[b].0);
                    }
                }
                assert(named@ == nm);
                assert(cache_view(cache@) =~= cv.update(i as int, (appid, nm)));
            }
            return;
        }
        i = i + 1;
    }
    let ghost raw = cache@;
    cache.push((appid, name));
    proof {
        assert(cache_view(cache@) =~= cv.push((appid, name@)));
        if keys_unique(raw) {
            assert forall|a: int, b: int| 0 <= a < b < cache@.len() implies #[trigger] cache@[a].0
                != #[trigger] cache@[b].0 by {
                assert(cache@[a] == raw[a]);
                assert(cv[a].0 == raw[a].0);
                if b < raw.len() {
                    assert(cache@[b] == raw[b]);
                }
            }
        }
    }
}

pub open spec fn names_view(names: Seq<(u32, String)>) -> Seq<(u32, Seq<char>)> {
    Seq::new(names.len(), |i: int| (names[i].0, names[i].1@))
}

impl App {
    /// Sets the sign-in status; a typed code is dropped unless the new status takes one.
    pub fn set_protocol_status(&mut self, status: ProtocolStatus)
        ensures
            status.spec_accepts_text_input() ==> *final(self) == (App {
                protocol_status: status,
                ..*old(self)
            }),
            !status.spec_accepts_text_input() ==> final(self).protocol_input@.len() == 0
                && *final(self) == (App {
                protocol_status: status,
                protocol_input: final(self).protocol_input,
                ..*old(self)
            }),
    {
        let accepts = status.accepts_text_input();
        self.protocol_status = status;
        if !accepts {
            self.protocol_input = String::new();
        }
    }

    /// Signed in: the connection takes commands, and the library and wishlist load.
    pub fn signed_in(&mut self, account_name: String)
        ensures
            final(self).protocol_input@.len() == 0,
            final(self).outbox@ == old(self).outbox@.push(Effect::Io(IoEvent::LoadLibrary)).push(
                Effect::Io(IoEvent::LoadWishlist),
            ),
            *final(self) == (App {
                protocol_status: ProtocolStatus::LoggedOn { account_name },
                protocol_input: final(self).protocol_input,
                friend_cmd_connected: true,
                outbox: final(self).outbox,
                ..*old(self)
            }),
    {
        self.set_protocol_status(ProtocolStatus::LoggedOn { account_name });
        self.friend_cmd_connected = true;
        self.outbox.push(Effect::Io(IoEvent::LoadLibrary));
        self.outbox.push(Effect::Io(IoEvent::LoadWishlist));
    }

    /// The connection ended, with the error when it failed: the status shows the failure,
    /// commands stop, and the library stops loading.
    pub fn connection_ended(&mut self, error: Option<String>)
        ensures
            match error {
                Some(e) => {
                    &&& final(self).protocol_input@.len() == 0
                    &&& *final(self) == (App {
                        protocol_status: ProtocolStatus::Failed(e),
                        protocol_input: final(self).protocol_input,
                        friend_cmd_connected: false,
                        loading: ViewLoading { library: false, ..old(self).loading },
                        ..*old(self)
                    })
                },
                None => *final(self) == (App {
                    friend_cmd_connected: false,
                    loading: ViewLoading { library: false, ..old(self).loading },
                    ..*old(self)
                }),
            },
    {
        if let Some(e) = error {
            self.set_protocol_status(ProtocolStatus::Failed(e));
        }
        self.friend_cmd_connected = false;
        self.loading.library = false;
    }

    /// Looked-up names arrived: each is stored (replacing a pending one) and the library
    /// rows are refreshed.
    pub fn game_names_loaded(&mut self, names: Vec<(u32, String)>)
        requires
            old(self).wf(),
        ensures
            final(self).wf(),
            cache_view(final(self).game_name_cache@) == spec_put_names(
                cache_view(old(self).game_name_cache@),
                names_view(names@),
            ),
            final(self).filtered_games@ == spec_filter_indices(
                old(self).games@,
                final(self).game_name_cache@,
                crate::text::spec_lowercase(old(self).search_input@),
                old(self).app_type_filter,
            ),
            *final(self) == (App {
                game_name_cache: final(self).game_name_cache,
                filtered_games: final(self).filtered_games,
                library_state: ListSelection {
                    selected: if final(self).filtered_games@.len() == 0 {
                        None
                    } else {
                        Some(0usize)
                    },
                },
                ..*old(self)
            }),
    {
        let ghost start = cache_view(self.game_name_cache@);
        let ghost nv = names_view(names@);
        for entry in it: names.into_iter()
            invariant
                it.seq() == names@,
                nv == names_view(names@),
                cache_view(self.game_name_cache@) == spec_put_names(start, nv.take(it.index() as int)),
                self.wf(),
                *self == (App { game_name_cache: self.game_name_cache, ..*old(self) }),
        {
            let ghost k = it.index();
            proof {
                assert(nv.take(k + 1).drop_last() =~= nv.take(k as int));
                assert(nv.take(k + 1).last() == (entry.0, entry.1@));
            }
            let (appid, name) = entry;
            put_name(&mut self.game_name_cache, appid, name);
        }
        proof {
            assert(nv.take(nv.len() as int) =~= nv);
        }
        self.update_search();
    }
}

} // verus!
