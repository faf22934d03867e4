//! The client's state, and the operations on it that the key handlers, the connection and
//! the screens use. Work that leaves the process (network requests, commands to the Steam
//! connection, disk writes) is not done here: it is queued in the state's outbox, in order,
//! for the input loop to carry out.

use vstd::prelude::*;

use crate::chat_history::{ChatHistory, ChatMessage};
use crate::config::Config;
use crate::launcher::LaunchEntry;
use crate::locations::spec_chat_history_dir;
use crate::models::{Achievement, AppDetails, Game, NewsItem, PlayerSummary, WishlistItem};
use crate::protocol::{Persona, PersonaState, ProtocolCommand, ProtocolStatus, RunCommand};
use crate::routes::{ActiveBlock, IoEvent, Route, RouteId};
use crate::text::{
    chars_of,
    contains_text,
    push_decimal,
    string_from_chars,
    same_text,
    spec_contains,
    spec_decimal,
    spec_find_from,
    spec_lowercase,
    occurs_at,
    to_lowercase,
};

verus! {

/// Minimum gap between outgoing typing pings while the user is composing, in milliseconds.
pub const TYPING_THROTTLE_MS: u64 = 4_000;

/// How long a launch message stays in the status bar, in milliseconds.
pub const LAUNCH_STATUS_MS: u64 = 6_000;

/// Which row of a list is highlighted, if any.
#[derive(Debug, Clone, Copy, PartialEq, Eq, Structural)]
pub struct ListSelection {
    pub selected: Option<usize>,
}

impl ListSelection {
    /// Nothing highlighted.
    pub fn new() -> (r: ListSelection)
        ensures
            r.selected is None,
    {
        ListSelection { selected: None }
    }

    /// The first row highlighted.
    pub fn first() -> (r: ListSelection)
        ensures
            r.selected == Some(0usize),
    {
        ListSelection { selected: Some(0) }
    }

    pub fn selected(&self) -> (r: Option<usize>)
        ensures
            r == self.selected,
    {
        self.selected
    }

    pub fn select(&mut self, index: Option<usize>)
        ensures
            final(self).selected == index,
    {
        self.selected = index;
    }
}

/// Library filter by app type; the `t` key cycles All → Games → Software/Tools.
#[derive(Debug, Clone, Copy, PartialEq, Eq, Structural)]
pub enum AppTypeFilter {
    All,
    Games,
    SoftwareTools,
}

impl Default for AppTypeFilter {
    fn default() -> (r: Self)
        ensures
            r == AppTypeFilter::All,
    {
        AppTypeFilter::All
    }
}

pub open spec fn opt_text(o: Option<String>) -> Option<Seq<char>> {
    match o {
        Some(s) => Some(s@),
        None => None,
    }
}

pub open spec fn opt_str(o: Option<&str>) -> Option<Seq<char>> {
    match o {
        Some(s) => Some(s@),
        None => None,
    }
}

/// Whether an appinfo type passes a filter. Untyped entries count as games: they stay
/// visible under `All` and `Games`; only `Software/Tools` is strict.
pub open spec fn spec_type_matches(filter: AppTypeFilter, app_type: Option<Seq<char>>) -> bool {
    match filter {
        AppTypeFilter::All => true,
        AppTypeFilter::Games => match app_type {
            None => true,
            Some(t) => t == "game"@,
        },
        AppTypeFilter::SoftwareTools => match app_type {
            None => false,
            Some(t) => t == "application"@ || t == "tool"@,
        },
    }
}

impl AppTypeFilter {
    pub open spec fn spec_cycle(self) -> AppTypeFilter {
        match self {
            AppTypeFilter::All => AppTypeFilter::Games,
            AppTypeFilter::Games => AppTypeFilter::SoftwareTools,
            AppTypeFilter::SoftwareTools => AppTypeFilter::All,
        }
    }

    pub open spec fn spec_label(self) -> Seq<char> {
        match self {
            AppTypeFilter::All => "All"@,
            AppTypeFilter::Games => "Games"@,
            AppTypeFilter::SoftwareTools => "Software/Tools"@,
        }
    }

    pub fn cycle(self) -> (r: AppTypeFilter)
        ensures
            r == self.spec_cycle(),
    {
        match self {
            AppTypeFilter::All => AppTypeFilter::Games,
            AppTypeFilter::Games => AppTypeFilter::SoftwareTools,
            AppTypeFilter::SoftwareTools => AppTypeFilter::All,
        }
    }

    pub fn label(self) -> (r: &'static str)
        ensures
            r@ == self.spec_label(),
    {
        match self {
            AppTypeFilter::All => "All",
            AppTypeFilter::Games => "Games",
            AppTypeFilter::SoftwareTools => "Software/Tools",
        }
    }

    pub fn matches(self, app_type: Option<&str>) -> (r: bool)
        ensures
            r == spec_type_matches(self, opt_str(app_type)),
    {
        match self {
            AppTypeFilter::All => true,
            AppTypeFilter::Games => match app_type {
                None => true,
                Some(t) => same_text(t, "game"),
            },
            AppTypeFilter::SoftwareTools => match app_type {
                None => false,
                Some(t) => same_text(t, "application") || same_text(t, "tool"),
            },
        }
    }
}

/// Per-view loading flags: the interface stays usable while any one view loads.
#[derive(Debug, Clone, Copy, PartialEq, Eq, Structural)]
pub struct ViewLoading {
    pub library: bool,
    pub friends: bool,
    pub wishlist: bool,
    pub news: bool,
    pub game_detail: bool,
}

impl Default for ViewLoading {
    fn default() -> (r: Self)
        ensures
            r == (ViewLoading {
                library: false,
                friends: false,
                wishlist: false,
                news: false,
                game_detail: false,
            }),
    {
        ViewLoading { library: false, friends: false, wishlist: false, news: false, game_detail: false }
    }
}

/// In-memory state of one 1-on-1 conversation.
#[derive(Debug)]
pub struct Conversation {
    /// Messages oldest-first, deduplicated on `(timestamp, ordinal)`.
    pub messages: Vec<ChatMessage>,
    pub unread: usize,
    /// When the partner's last typing notification lapses (milliseconds on the client's clock).
    pub peer_typing_until: Option<u64>,
}

impl Conversation {
    /// Whether the partner is typing at time `now_ms`.
    pub fn is_typing(&self, now_ms: u64) -> (r: bool)
        ensures
            r == (self.peer_typing_until matches Some(until) && now_ms < until),
    {
        match self.peer_typing_until {
            Some(until) => now_ms < until,
            None => false,
        }
    }
}

/// Work for the input loop to carry out, in order.
#[derive(Debug, Clone, PartialEq, Eq)]
pub enum Effect {
    /// A background request.
    Io(IoEvent),
    /// A command to the sign-in in progress.
    Protocol(ProtocolCommand),
    /// A command over the signed-in connection.
    Friend(RunCommand),
    /// Open the conversation with this friend, with its saved history loaded first when the
    /// state holds no conversation with them yet (see [`App::open_conversation`]).
    OpenConversation(u64),
    /// Write this conversation's messages to the local history.
    SaveConversation(u64),
    /// Alert the user to a message from this friend: the terminal bell, and a desktop
    /// notification when `desktop` is set.
    Notify { steamid: u64, desktop: bool },
}

/// No key occurs twice among the pairs of `s`: they make a map.
pub open spec fn keys_unique<K, V>(s: Seq<(K, V)>) -> bool {
    forall|i: int, j: int| 0 <= i < j < s.len() ==> #[trigger] s[i].0 != #[trigger] s[j].0
}

/// The whole client state.
pub struct App {
    pub navigation_stack: Vec<Route>,
    pub games: Vec<Game>,
    /// Indices into `games` of the rows the library shows.
    pub filtered_games: Vec<usize>,
    /// All friend IDs from the Web API.
    pub friend_ids: Vec<String>,
    /// Friend summaries loaded so far.
    pub friends: Vec<PlayerSummary>,
    pub wishlist: Vec<WishlistItem>,
    pub recently_played_appids: Vec<u32>,
    pub news_feed: Vec<NewsItem>,
    pub selected_game: Option<AppDetails>,
    pub achievements: Vec<Achievement>,
    pub library_state: ListSelection,
    pub friends_state: ListSelection,
    pub wishlist_state: ListSelection,
    pub news_state: ListSelection,
    pub achievements_state: ListSelection,
    pub search_input: String,
    pub is_searching: bool,
    pub app_type_filter: AppTypeFilter,
    pub pending_g: bool,
    pub loading: ViewLoading,
    pub error: Option<String>,
    /// Work queued for the input loop.
    pub outbox: Vec<Effect>,
    pub protocol_status: ProtocolStatus,
    pub protocol_input: String,
    pub protocol_friends: Vec<Persona>,
    /// Whether a signed-in connection takes commands.
    pub friend_cmd_connected: bool,
    /// Names for app IDs not in the user's own library; an empty name marks a pending lookup.
    pub game_name_cache: Vec<(u32, String)>,
    pub own_persona_state: PersonaState,
    /// Per-partner conversations, keyed by SteamID64.
    pub conversations: Vec<(u64, Conversation)>,
    /// The conversation open in the chat view.
    pub active_conversation: Option<u64>,
    /// Selection within the conversation list (indexes [`App::conversation_order`]).
    pub chat_list_state: ListSelection,
    /// Composer text for the active conversation.
    pub chat_input: String,
    /// Lines scrolled up from the bottom of the message history (0 = newest).
    pub chat_scroll_back: usize,
    /// When the last typing ping went out (milliseconds on the client's clock).
    pub last_typing_sent: Option<u64>,
    pub chat_history: ChatHistory,
    pub config: Config,
    /// A launch message and when it was set (milliseconds on the client's clock).
    pub launch_status: Option<(String, u64)>,
    /// Selection within the recently-played quick-launch overlay.
    pub quick_launch_state: ListSelection,
    /// Launch entries per appid, as the library load reported them; the direct launch path
    /// resolves a game's executable from them.
    pub app_launch_info: Vec<(u32, Vec<LaunchEntry>)>,
}

/// Three presses of `t` bring the type filter back where it was.
pub proof fn lemma_type_filter_cycle_returns(f: AppTypeFilter)
    ensures
        f.spec_cycle().spec_cycle().spec_cycle() == f,
{
}

/// With an empty search and the `All` filter, the library shows every game, in order.
pub proof fn lemma_empty_search_shows_all(games: Seq<Game>, cache: Seq<(u32, String)>)
    ensures
        spec_filter_indices(games, cache, Seq::empty(), AppTypeFilter::All) == Seq::new(
            games.len(),
            |i: int| i as usize,
        ),
    decreases games.len(),
{
    if games.len() > 0 {
        lemma_empty_search_shows_all(games.drop_last(), cache);
        assert(spec_filter_indices(games, cache, Seq::empty(), AppTypeFilter::All) =~= Seq::new(
            games.len(),
            |i: int| i as usize,
        ));
    } else {
        assert(spec_filter_indices(games, cache, Seq::empty(), AppTypeFilter::All) =~= Seq::new(
            games.len(),
            |i: int| i as usize,
        ));
    }
}

/// The library rows are increasing positions of games that pass the search: no game twice,
/// library order kept.
pub proof fn lemma_filter_indices_increasing(
    games: Seq<Game>,
    cache: Seq<(u32, String)>,
    query: Seq<char>,
    filter: AppTypeFilter,
)
    requires
        games.len() <= usize::MAX,
    ensures
        ({
            let r = spec_filter_indices(games, cache, query, filter);
            &&& forall|a: int, b: int| 0 <= a < b < r.len() ==> r[a] < r[b]
            &&& forall|k: int|
                0 <= k < r.len() ==> r[k] < games.len() && spec_game_shown(
                    games[r[k] as int],
                    cache,
                    query,
                    filter,
                )
        }),
    decreases games.len(),
{
    if games.len() > 0 {
        lemma_filter_indices_increasing(games.drop_last(), cache, query, filter);
        lemma_filter_indices_bounded(games.drop_last(), cache, query, filter);
        let prev = spec_filter_indices(games.drop_last(), cache, query, filter);
        let r = spec_filter_indices(games, cache, query, filter);
        assert forall|k: int| 0 <= k < prev.len() implies games[prev[k] as int] == games.drop_last()[prev[k] as int] by {
            assert(prev[k] < games.drop_last().len());
        }
        let shown_last = spec_game_shown(games.last(), cache, query, filter);
        if shown_last {
            assert(r == prev.push((games.len() - 1) as usize));
        } else {
            assert(r == prev);
        }
        assert forall|k: int| 0 <= k < r.len() implies r[k] < games.len() && spec_game_shown(
            games[r[k] as int],
            cache,
            query,
            filter,
        ) by {
            if k < prev.len() {
                assert(r[k] == prev[k]);
                assert(prev[k] < games.drop_last().len());
                assert(spec_game_shown(games.drop_last()[prev[k] as int], cache, query, filter));
            } else {
                assert(r[k] == games.len() - 1);
            }
        }
        assert forall|a: int, b: int| 0 <= a < b < r.len() implies r[a] < r[b] by {
            if b < prev.len() {
                assert(r[a] == prev[a] && r[b] == prev[b]);
            } else {
                assert(r[a] == prev[a]);
                assert(prev[a] < games.drop_last().len());
                assert(r[b] == games.len() - 1);
            }
        }
    }
}

/// Selection after moving down one row of a list of `len` rows (stays on the last row).
pub open spec fn spec_scroll_down(sel: Option<usize>, len: usize) -> Option<usize> {
    if len == 0 {
        sel
    } else {
        Some(
            match sel {
                None => 0usize,
                Some(i) => if i + 1 < len {
                    (i + 1) as usize
                } else {
                    (len - 1) as usize
                },
            },
        )
    }
}

/// Selection after moving up one row (stays on the first row).
pub open spec fn spec_scroll_up(sel: Option<usize>) -> Option<usize> {
    Some(
        match sel {
            None => 0usize,
            Some(i) => if i > 0 {
                (i - 1) as usize
            } else {
                0usize
            },
        },
    )
}

/// Selection after jumping to the last of `len` rows (unchanged for an empty list).
pub open spec fn spec_scroll_bottom(sel: Option<usize>, len: usize) -> Option<usize> {
    if len > 0 {
        Some((len - 1) as usize)
    } else {
        sel
    }
}

/// Moving down a non-empty list always lands on one of its rows.
pub proof fn lemma_scroll_down_in_list(sel: Option<usize>, len: usize)
    requires
        len > 0,
    ensures
        spec_scroll_down(sel, len) matches Some(i) && i < len,
{
}

/// The route with its focused block replaced.
pub open spec fn spec_focus(stack: Seq<Route>, block: ActiveBlock) -> Seq<Route> {
    stack.update(stack.len() - 1, Route { id: stack.last().id, active_block: block })
}

/// Position of the first library game with this appid.
pub open spec fn is_first_game(games: Seq<Game>, appid: u32, i: int) -> bool {
    0 <= i < games.len() && games[i].appid == appid && forall|j: int|
        0 <= j < i ==> games[j].appid != appid
}

pub open spec fn spec_first_game(games: Seq<Game>, appid: u32) -> Option<int> {
    if exists|i: int| is_first_game(games, appid, i) {
        Some(choose|i: int| is_first_game(games, appid, i))
    } else {
        None
    }
}

/// Position of the first cached name for this appid.
pub open spec fn is_first_cached(cache: Seq<(u32, String)>, appid: u32, i: int) -> bool {
    0 <= i < cache.len() && cache[i].0 == appid && forall|j: int| 0 <= j < i ==> cache[j].0 != appid
}

pub open spec fn spec_cached(cache: Seq<(u32, String)>, appid: u32) -> Option<String> {
    if exists|i: int| is_first_cached(cache, appid, i) {
        Some(cache[choose|i: int| is_first_cached(cache, appid, i)].1)
    } else {
        None
    }
}

/// The name a game is shown under: its own name unless empty, else a cached name unless
/// empty, else "Unknown Game".
pub open spec fn spec_display_name(game: Game, cache: Seq<(u32, String)>) -> Seq<char> {
    if game.name matches Some(n) && n@.len() > 0 {
        game.name.unwrap()@
    } else if spec_cached(cache, game.appid) matches Some(n) && n@.len() > 0 {
        spec_cached(cache, game.appid).unwrap()@
    } else {
        "Unknown Game"@
    }
}

/// Whether the library shows a game for a lowercased query and a type filter.
pub open spec fn spec_game_shown(
    game: Game,
    cache: Seq<(u32, String)>,
    query: Seq<char>,
    filter: AppTypeFilter,
) -> bool {
    (query.len() == 0 || spec_contains(spec_lowercase(spec_display_name(game, cache)), query))
        && spec_type_matches(filter, opt_text(game.app_type))
}

/// Indices of the games shown, in library order.
pub open spec fn spec_filter_indices(
    games: Seq<Game>,
    cache: Seq<(u32, String)>,
    query: Seq<char>,
    filter: AppTypeFilter,
) -> Seq<usize>
    decreases games.len(),
{
    if games.len() == 0 {
        Seq::empty()
    } else {
        let prev = spec_filter_indices(games.drop_last(), cache, query, filter);
        if spec_game_shown(games.last(), cache, query, filter) {
            prev.push((games.len() - 1) as usize)
        } else {
            prev
        }
    }
}

/// Every library row is the position of a game.
pub proof fn lemma_filter_indices_bounded(
    games: Seq<Game>,
    cache: Seq<(u32, String)>,
    query: Seq<char>,
    filter: AppTypeFilter,
)
    ensures
        forall|k: int|
            0 <= k < spec_filter_indices(games, cache, query, filter).len() ==> #[trigger] spec_filter_indices(
                games,
                cache,
                query,
                filter,
            )[k] < games.len(),
    decreases games.len(),
{
    if games.len() > 0 {
        lemma_filter_indices_bounded(games.drop_last(), cache, query, filter);
        let prev = spec_filter_indices(games.drop_last(), cache, query, filter);
        let cur = spec_filter_indices(games, cache, query, filter);
        assert forall|k: int| 0 <= k < cur.len() implies #[trigger] cur[k] < games.len() by {
            if k < prev.len() {
                assert(prev[k] < games.drop_last().len());
                assert(cur[k] == prev[k]);
            }
        }
    }
}

proof fn lemma_find_from_any(h: Seq<char>, q: Seq<char>, from: int)
    requires
        from >= 0,
    ensures
        spec_find_from(h, q, from) is Some <==> exists|k: int| k >= from && #[trigger] occurs_at(h, q, k),
    decreases h.len() + 1 - from,
{
    if from + q.len() > h.len() {
        assert forall|k: int| k >= from implies !#[trigger] occurs_at(h, q, k) by {}
    } else if occurs_at(h, q, from) {
    } else {
        lemma_find_from_any(h, q, from + 1);
        if exists|k: int| k >= from && #[trigger] occurs_at(h, q, k) {
            let k = choose|k: int| k >= from && #[trigger] occurs_at(h, q, k);
            assert(k != from);
            assert(k >= from + 1 && occurs_at(h, q, k));
        }
    }
}

proof fn lemma_filter_indices_member(
    games: Seq<Game>,
    cache: Seq<(u32, String)>,
    query: Seq<char>,
    filter: AppTypeFilter,
    i: usize,
)
    requires
        i < games.len() <= usize::MAX,
    ensures
        spec_filter_indices(games, cache, query, filter).contains(i) <==> spec_game_shown(
            games[i as int],
            cache,
            query,
            filter,
        ),
    decreases games.len(),
{
    let prev = spec_filter_indices(games.drop_last(), cache, query, filter);
    let cur = spec_filter_indices(games, cache, query, filter);
    lemma_filter_indices_bounded(games.drop_last(), cache, query, filter);
    if i == games.len() - 1 {
        assert(games.last() == games[i as int]);
        assert(!prev.contains(i)) by {
            if prev.contains(i) {
                let k = choose|k: int| 0 <= k < prev.len() && prev[k] == i;
                assert(prev[k] < games.drop_last().len());
            }
        }
        if spec_game_shown(games[i as int], cache, query, filter) {
            assert(cur == prev.push(i));
            assert(cur[cur.len() - 1] == i);
            assert(cur.contains(i));
        } else {
            assert(cur == prev);
            assert(!cur.contains(i));
        }
    } else {
        lemma_filter_indices_member(games.drop_last(), cache, query, filter, i);
        assert(games.drop_last()[i as int] == games[i as int]);
        if spec_game_shown(games.last(), cache, query, filter) {
            assert(cur == prev.push((games.len() - 1) as usize));
        } else {
            assert(cur == prev);
        }
        if cur.contains(i) {
            let k = choose|k: int| 0 <= k < cur.len() && cur[k] == i;
            if k < prev.len() {
                assert(prev[k] == i);
            }
        }
        if prev.contains(i) {
            let k = choose|k: int| 0 <= k < prev.len() && prev[k] == i;
            assert(cur[k] == i);
        }
    }
}

/// The search shows a game exactly when the lowercased query occurs anywhere in its
/// lowercased display name (any query, for an empty one) and its type passes the filter: a
/// name holding the query in the middle is shown, as is one starting with it.
pub proof fn lemma_search_finds_the_query_anywhere(
    games: Seq<Game>,
    cache: Seq<(u32, String)>,
    query: Seq<char>,
    filter: AppTypeFilter,
    i: usize,
)
    requires
        i < games.len() <= usize::MAX,
    ensures
        spec_filter_indices(games, cache, query, filter).contains(i) <==> ((query.len() == 0
            || exists|k: int| #[trigger] occurs_at(spec_lowercase(spec_display_name(games[i as int], cache)), query, k))
            && spec_type_matches(filter, opt_text(games[i as int].app_type))),
{
    lemma_filter_indices_member(games, cache, query, filter, i);
    lemma_find_from_any(spec_lowercase(spec_display_name(games[i as int], cache)), query, 0);
    let h = spec_lowercase(spec_display_name(games[i as int], cache));
    if exists|k: int| #[trigger] occurs_at(h, query, k) {
        let k = choose|k: int| #[trigger] occurs_at(h, query, k);
        assert(k >= 0);
    }
}

/// The name shown in the quick-launch overlay for a recently played appid: the library
/// name, else a cached name (even a pending, empty one), else `appid <n>`.
pub open spec fn spec_quick_launch_name(games: Seq<Game>, cache: Seq<(u32, String)>, appid: u32) -> Seq<
    char,
> {
    match spec_first_game(games, appid) {
        Some(i) => spec_display_name(games[i], cache),
        None => match spec_cached(cache, appid) {
            Some(n) => n@,
            None => "appid "@ + spec_decimal(appid as nat),
        },
    }
}

/// Elapsed milliseconds from `at` to `now`, zero when the clock reads earlier.
pub open spec fn spec_elapsed(at: u64, now: u64) -> int {
    if now >= at {
        now - at
    } else {
        0
    }
}

pub(crate) fn find_game(games: &Vec<Game>, appid: u32) -> (r: Option<usize>)
    ensures
        match r {
            Some(i) => spec_first_game(games@, appid) == Some(i as int) && is_first_game(
                games@,
                appid,
                i as int,
            ),
            None => spec_first_game(games@, appid) is None,
        },
{
    let mut i: usize = 0;
    while i < games.len()
        invariant
            i <= games.len(),
            forall|j: int| 0 <= j < i ==> games@[j].appid != appid,
        decreases games.len() - i,
    {
        if games[i].appid == appid {
            proof {
                assert(is_first_game(games@, appid, i as int));
                let c = choose|k: int| is_first_game(games@, appid, k);
                assert(c == i as int);
            }
            return Some(i);
        }
        i = i + 1;
    }
    None
}

pub(crate) fn find_cached(cache: &Vec<(u32, String)>, appid: u32) -> (r: Option<usize>)
    ensures
        match r {
            Some(i) => i < cache@.len() && spec_cached(cache@, appid) == Some(cache@[i as int].1)
                && is_first_cached(cache@, appid, i as int),
            None => spec_cached(cache@, appid) is None && forall|j: int|
                0 <= j < cache@.len() ==> cache@[j].0 != appid,
        },
{
    let mut i: usize = 0;
    while i < cache.len()
        invariant
            i <= cache.len(),
            forall|j: int| 0 <= j < i ==> cache@[j].0 != appid,
        decreases cache.len() - i,
    {
        if cache[i].0 == appid {
            proof {
                assert(is_first_cached(cache@, appid, i as int));
                let c = choose|k: int| is_first_cached(cache@, appid, k);
                assert(c == i as int);
            }
            return Some(i);
        }
        i = i + 1;
    }
    None
}

/// The name a game is shown under, given the cache of looked-up names.
pub fn display_name_of<'a>(game: &'a Game, cache: &'a Vec<(u32, String)>) -> (r: &'a str)
    ensures
        r@ == spec_display_name(*game, cache@),
{
    if let Some(n) = &game.name {
        if !n.as_str().is_empty() {
            return n.as_str();
        }
    }
    match find_cached(cache, game.appid) {
        Some(i) => {
            let n = &cache[i].1;
            if !n.as_str().is_empty() {
                n.as_str()
            } else {
                "Unknown Game"
            }
        },
        None => "Unknown Game",
    }
}

impl App {
    /// Well-formed: a screen is always open, the library rows index real games, and the name
    /// cache, the conversations and the launch entries are keyed by distinct IDs.
    pub open spec fn wf(&self) -> bool {
        &&& self.navigation_stack@.len() > 0
        &&& forall|k: int|
            0 <= k < self.filtered_games@.len() ==> #[trigger] self.filtered_games@[k]
                < self.games@.len()
        &&& keys_unique(self.game_name_cache@)
        &&& keys_unique(self.conversations@)
        &&& keys_unique(self.app_launch_info@)
    }

    /// The open screen.
    pub open spec fn spec_route(&self) -> Route {
        self.navigation_stack@.last()
    }

    /// The fresh client state: the library open, every list at its first row, nothing loaded.
    pub fn new(config: Config) -> (r: App)
        ensures
            r.wf(),
            r.navigation_stack@ == seq![Route { id: RouteId::Library, active_block: ActiveBlock::Library }],
            r.games@.len() == 0,
            r.filtered_games@.len() == 0,
            r.friend_ids@.len() == 0,
            r.friends@.len() == 0,
            r.wishlist@.len() == 0,
            r.recently_played_appids@.len() == 0,
            r.news_feed@.len() == 0,
            r.selected_game is None,
            r.achievements@.len() == 0,
            r.loading == (ViewLoading {
                library: false,
                friends: false,
                wishlist: false,
                news: false,
                game_detail: false,
            }),
            r.protocol_input@.len() == 0,
            r.chat_input@.len() == 0,
            r.last_typing_sent is None,
            exists|root: Seq<char>| r.chat_history.dir@ == spec_chat_history_dir(root),
            r.library_state.selected == Some(0usize),
            r.friends_state.selected == Some(0usize),
            r.wishlist_state.selected == Some(0usize),
            r.news_state.selected == Some(0usize),
            r.achievements_state.selected == Some(0usize),
            r.chat_list_state.selected == Some(0usize),
            r.quick_launch_state.selected == Some(0usize),
            r.search_input@.len() == 0,
            !r.is_searching,
            r.app_type_filter == AppTypeFilter::All,
            !r.pending_g,
            r.error is None,
            r.outbox@.len() == 0,
            r.protocol_status is Disconnected,
            r.protocol_friends@.len() == 0,
            !r.friend_cmd_connected,
            r.game_name_cache@.len() == 0,
            r.own_persona_state == PersonaState::Online,
            r.conversations@.len() == 0,
            r.active_conversation is None,
            r.chat_scroll_back == 0,
            r.chat_history.retention_days == config.chat.history_retention_days,
            r.config == config,
            r.launch_status is None,
            r.app_launch_info@.len() == 0,
    {
        let chat_history = ChatHistory::new(config.chat.history_retention_days);
        let mut navigation_stack: Vec<Route> = Vec::new();
        navigation_stack.push(Route::library());
        App {
            navigation_stack,
            games: Vec::new(),
            filtered_games: Vec::new(),
            friend_ids: Vec::new(),
            friends: Vec::new(),
            wishlist: Vec::new(),
            recently_played_appids: Vec::new(),
            news_feed: Vec::new(),
            selected_game: None,
            achievements: Vec::new(),
            library_state: ListSelection::first(),
            friends_state: ListSelection::first(),
            wishlist_state: ListSelection::first(),
            news_state: ListSelection::first(),
            achievements_state: ListSelection::first(),
            search_input: String::new(),
            is_searching: false,
            app_type_filter: AppTypeFilter::All,
            pending_g: false,
            loading: ViewLoading::default(),
            error: None,
            outbox: Vec::new(),
            protocol_status: ProtocolStatus::Disconnected,
            protocol_input: String::new(),
            protocol_friends: Vec::new(),
            friend_cmd_connected: false,
            game_name_cache: Vec::new(),
            own_persona_state: PersonaState::Online,
            conversations: Vec::new(),
            active_conversation: None,
            chat_list_state: ListSelection::first(),
            chat_input: String::new(),
            chat_scroll_back: 0,
            last_typing_sent: None,
            chat_history,
            config,
            launch_status: None,
            quick_launch_state: ListSelection::first(),
            app_launch_info: Vec::new(),
        }
    }

    pub fn current_route(&self) -> (r: &Route)
        requires
            self.wf(),
        ensures
            *r == self.spec_route(),
    {
        let n = self.navigation_stack.len();
        &self.navigation_stack[n - 1]
    }

    pub fn push_route(&mut self, route: Route)
        requires
            old(self).wf(),
        ensures
            final(self).wf(),
            final(self).navigation_stack@ == old(self).navigation_stack@.push(route),
            *final(self) == (App { navigation_stack: final(self).navigation_stack, ..*old(self) }),
    {
        self.navigation_stack.push(route);
    }

    /// Goes back one screen; the last screen is never closed.
    pub fn pop_route(&mut self)
        requires
            old(self).wf(),
        ensures
            final(self).wf(),
            final(self).navigation_stack@ == if old(self).navigation_stack@.len() > 1 {
                old(self).navigation_stack@.drop_last()
            } else {
                old(self).navigation_stack@
            },
            *final(self) == (App { navigation_stack: final(self).navigation_stack, ..*old(self) }),
    {
        if self.navigation_stack.len() > 1 {
            self.navigation_stack.pop();
        }
    }

    pub fn active_block(&self) -> (r: ActiveBlock)
        requires
            self.wf(),
        ensures
            r == self.spec_route().active_block,
    {
        self.current_route().active_block
    }

    /// Moves the keyboard to another block of the open screen.
    pub fn focus(&mut self, block: ActiveBlock)
        requires
            old(self).wf(),
        ensures
            final(self).wf(),
            final(self).navigation_stack@ == spec_focus(old(self).navigation_stack@, block),
            *final(self) == (App { navigation_stack: final(self).navigation_stack, ..*old(self) }),
    {
        let n = self.navigation_stack.len();
        let id = self.navigation_stack[n - 1].id;
        self.navigation_stack.pop();
        self.navigation_stack.push(Route { id, active_block: block });
        proof {
            assert(self.navigation_stack@ =~= spec_focus(old(self).navigation_stack@, block));
        }
    }

    /// Queues a background request.
    pub fn dispatch(&mut self, event: IoEvent)
        ensures
            final(self).outbox@ == old(self).outbox@.push(Effect::Io(event)),
            *final(self) == (App { outbox: final(self).outbox, ..*old(self) }),
    {
        self.outbox.push(Effect::Io(event));
    }

    /// Hands the queued work over, oldest first, and empties the outbox.
    pub fn take_outbox(&mut self) -> (r: Vec<Effect>)
        ensures
            r@ == old(self).outbox@,
            final(self).outbox@.len() == 0,
            *final(self) == (App { outbox: final(self).outbox, ..*old(self) }),
    {
        let mut fresh: Vec<Effect> = Vec::new();
        std::mem::swap(&mut fresh, &mut self.outbox);
        fresh
    }

    /// Shows an error and stops every loading indicator.
    pub fn set_error(&mut self, msg: String)
        ensures
            *final(self) == (App {
                error: Some(msg),
                loading: ViewLoading {
                    library: false,
                    friends: false,
                    wishlist: false,
                    news: false,
                    game_detail: false,
                },
                ..*old(self)
            }),
    {
        self.error = Some(msg);
        self.loading = ViewLoading::default();
    }

    pub fn clear_error(&mut self)
        ensures
            *final(self) == (App { error: None, ..*old(self) }),
    {
        self.error = None;
    }

    /// Shows a launch message in the status bar from time `now_ms` on.
    pub fn set_launch_status(&mut self, msg: String, now_ms: u64)
        ensures
            *final(self) == (App { launch_status: Some((msg, now_ms)), ..*old(self) }),
    {
        self.launch_status = Some((msg, now_ms));
    }

    /// The launch message while it is fresh, for the status bar.
    pub fn launch_status_message(&self, now_ms: u64) -> (r: Option<&str>)
        ensures
            match self.launch_status {
                Some((msg, at)) => if spec_elapsed(at, now_ms) < LAUNCH_STATUS_MS {
                    r matches Some(m) && m@ == msg@
                } else {
                    r is None
                },
                None => r is None,
            },
    {
        match &self.launch_status {
            Some((msg, at)) => {
                let elapsed = if now_ms >= *at {
                    now_ms - *at
                } else {
                    0
                };
                if elapsed < LAUNCH_STATUS_MS {
                    Some(msg.as_str())
                } else {
                    None
                }
            },
            None => None,
        }
    }

    /// Appid of the highlighted library row, if any.
    pub fn selected_library_appid(&self) -> (r: Option<u32>)
        requires
            self.wf(),
        ensures
            r == match self.library_state.selected {
                Some(sel) => if sel < self.filtered_games@.len() {
                    Some(self.games@[self.filtered_games@[sel as int] as int].appid)
                } else {
                    None
                },
                None => None,
            },
    {
        match self.library_state.selected {
            Some(sel) => if sel < self.filtered_games.len() {
                let idx = self.filtered_games[sel];
                Some(self.games[idx].appid)
            } else {
                None
            },
            None => None,
        }
    }

    /// Whether the quick-launch overlay owns the keyboard.
    pub fn modal_overlay_active(&self) -> (r: bool)
        requires
            self.wf(),
        ensures
            r == (self.spec_route().active_block == ActiveBlock::QuickLaunch),
    {
        self.active_block() == ActiveBlock::QuickLaunch
    }

    /// Recently played games as `(appid, name)`, most recent first.
    pub fn quick_launch_entries(&self) -> (r: Vec<(u32, String)>)
        ensures
            r@.len() == self.recently_played_appids@.len(),
            forall|k: int|
                0 <= k < r@.len() ==> #[trigger] r@[k].0 == self.recently_played_appids@[k]
                    && r@[k].1@ == spec_quick_launch_name(
                    self.games@,
                    self.game_name_cache@,
                    self.recently_played_appids@[k],
                ),
    {
        let mut out: Vec<(u32, String)> = Vec::new();
        let mut k: usize = 0;
        while k < self.recently_played_appids.len()
            invariant
                k <= self.recently_played_appids@.len(),
                out@.len() == k,
                forall|j: int|
                    0 <= j < k ==> #[trigger] out@[j].0 == self.recently_played_appids@[j]
                        && out@[j].1@ == spec_quick_launch_name(
                        self.games@,
                        self.game_name_cache@,
                        self.recently_played_appids@[j],
                    ),
            decreases self.recently_played_appids@.len() - k,
        {
            let appid = self.recently_played_appids[k];
            let name: String = match find_game(&self.games, appid) {
                Some(i) => {
                    let n = display_name_of(&self.games[i], &self.game_name_cache);
                    n.to_owned()
                },
                None => match find_cached(&self.game_name_cache, appid) {
                    Some(j) => self.game_name_cache[j].1.clone(),
                    None => {
                        let mut cs = chars_of("appid ");
                        push_decimal(&mut cs, appid as u64);
                        string_from_chars(cs.as_slice())
                    },
                },
            };
            out.push((appid, name));
            k = k + 1;
        }
        out
    }

    /// Appid highlighted in the quick-launch overlay, if any.
    pub fn selected_quick_launch_appid(&self) -> (r: Option<u32>)
        ensures
            r == match self.quick_launch_state.selected {
                Some(sel) => if sel < self.recently_played_appids@.len() {
                    Some(self.recently_played_appids@[sel as int])
                } else {
                    None
                },
                None => None,
            },
    {
        match self.quick_launch_state.selected {
            Some(sel) => if sel < self.recently_played_appids.len() {
                Some(self.recently_played_appids[sel])
            } else {
                None
            },
            None => None,
        }
    }

    /// Opens the recently-played overlay over the open screen.
    pub fn open_quick_launch(&mut self)
        requires
            old(self).wf(),
        ensures
            final(self).wf(),
            final(self).navigation_stack@ == spec_focus(
                old(self).navigation_stack@,
                ActiveBlock::QuickLaunch,
            ),
            *final(self) == (App {
                navigation_stack: final(self).navigation_stack,
                quick_launch_state: ListSelection {
                    selected: if old(self).recently_played_appids@.len() == 0 {
                        None
                    } else {
                        Some(0usize)
                    },
                },
                ..*old(self)
            }),
    {
        let sel = if self.recently_played_appids.len() == 0 {
            None
        } else {
            Some(0)
        };
        self.quick_launch_state.select(sel);
        self.focus(ActiveBlock::QuickLaunch);
    }

    /// Closes the overlay, returning the keyboard to the library list.
    pub fn close_quick_launch(&mut self)
        requires
            old(self).wf(),
        ensures
            final(self).wf(),
            final(self).navigation_stack@ == spec_focus(
                old(self).navigation_stack@,
                ActiveBlock::Library,
            ),
            *final(self) == (App { navigation_stack: final(self).navigation_stack, ..*old(self) }),
    {
        self.focus(ActiveBlock::Library);
    }

    pub fn protocol_modal_active(&self) -> (r: bool)
        ensures
            r == self.protocol_status.spec_modal_visible(),
    {
        self.protocol_status.modal_visible()
    }

    /// Sends the typed Steam Guard code, if any, and goes back to connecting.
    pub fn submit_guard_code(&mut self)
        ensures
            old(self).protocol_input@.len() == 0 ==> *final(self) == *old(self),
            old(self).protocol_input@.len() > 0 ==> {
                &&& final(self).outbox@ == old(self).outbox@.push(
                    Effect::Protocol(ProtocolCommand::SubmitGuardCode(old(self).protocol_input)),
                )
                &&& final(self).protocol_input@.len() == 0
                &&& *final(self) == (App {
                    outbox: final(self).outbox,
                    protocol_input: final(self).protocol_input,
                    protocol_status: ProtocolStatus::Connecting,
                    ..*old(self)
                })
            },
    {
        if self.protocol_input.as_str().is_empty() {
            return;
        }
        let mut code = String::new();
        std::mem::swap(&mut code, &mut self.protocol_input);
        self.outbox.push(Effect::Protocol(ProtocolCommand::SubmitGuardCode(code)));
        self.protocol_status = ProtocolStatus::Connecting;
    }

    /// Recomputes the library rows from the search text and the type filter, and
    /// highlights the first row (none when nothing matches).
    pub fn update_search(&mut self)
        requires
            old(self).wf(),
        ensures
            final(self).wf(),
            final(self).filtered_games@ == spec_filter_indices(
                old(self).games@,
                old(self).game_name_cache@,
                spec_lowercase(old(self).search_input@),
                old(self).app_type_filter,
            ),
            *final(self) == (App {
                filtered_games: final(self).filtered_games,
                library_state: ListSelection {
                    selected: if final(self).filtered_games@.len() == 0 {
                        None
                    } else {
                        Some(0usize)
                    },
                },
                ..*old(self)
            }),
    {
        let q = to_lowercase(self.search_input.as_str());
        let filter = self.app_type_filter;
        let ghost games = self.games@;
        let ghost cache = self.game_name_cache@;
        let mut out: Vec<usize> = Vec::new();
        let mut i: usize = 0;
        while i < self.games.len()
            invariant
                games == self.games@,
                cache == self.game_name_cache@,
                i <= games.len(),
                out@ == spec_filter_indices(games.take(i as int), cache, q@, filter),
            decreases games.len() - i,
        {
            let g = &self.games[i];
            let name_matches = if q.as_str().is_empty() {
                true
            } else {
                let lowered = to_lowercase(display_name_of(g, &self.game_name_cache));
                contains_text(lowered.as_str(), q.as_str())
            };
            let type_ok = match &g.app_type {
                Some(t) => filter.matches(Some(t.as_str())),
                None => filter.matches(None),
            };
            proof {
                assert(games.take(i + 1).drop_last() =~= games.take(i as int));
                assert(games.take(i + 1).last() == games[i as int]);
            }
            if name_matches && type_ok {
                out.push(i);
            }
            i = i + 1;
        }
        proof {
            assert(games.take(games.len() as int) =~= games);
            lemma_filter_indices_bounded(games, cache, q@, filter);
        }
        let sel = if out.len() == 0 {
            None
        } else {
            Some(0)
        };
        self.filtered_games = out;
        self.library_state.select(sel);
    }

    /// The games the library shows, in order.
    pub fn visible_games(&self) -> (r: Vec<&Game>)
        requires
            self.wf(),
        ensures
            r@.len() == self.filtered_games@.len(),
            forall|k: int|
                0 <= k < r@.len() ==> *#[trigger] r@[k] == self.games@[self.filtered_games@[k] as int],
    {
        let mut out: Vec<&Game> = Vec::new();
        let mut k: usize = 0;
        while k < self.filtered_games.len()
            invariant
                self.wf(),
                k <= self.filtered_games@.len(),
                out@.len() == k,
                forall|j: int|
                    0 <= j < k ==> *#[trigger] out@[j] == self.games@[self.filtered_games@[j] as int],
            decreases self.filtered_games@.len() - k,
        {
            let idx = self.filtered_games[k];
            out.push(&self.games[idx]);
            k = k + 1;
        }
        out
    }

    /// The name a game is shown under.
    pub fn game_display_name<'a>(&'a self, game: &'a Game) -> (r: &'a str)
        ensures
            r@ == spec_display_name(*game, self.game_name_cache@),
    {
        display_name_of(game, &self.game_name_cache)
    }

    pub fn scroll_down(state: &mut ListSelection, len: usize)
        ensures
            final(state).selected == spec_scroll_down(old(state).selected, len),
    {
        if len == 0 {
            return;
        }
        let next = match state.selected() {
            None => 0,
            Some(i) => if i < len - 1 {
                i + 1
            } else {
                len - 1
            },
        };
        state.select(Some(next));
    }

    pub fn scroll_up(state: &mut ListSelection)
        ensures
            final(state).selected == spec_scroll_up(old(state).selected),
    {
        let prev = match state.selected() {
            None => 0,
            Some(i) => if i > 0 {
                i - 1
            } else {
                0
            },
        };
        state.select(Some(prev));
    }

    pub fn scroll_top(state: &mut ListSelection)
        ensures
            final(state).selected == Some(0usize),
    {
        state.select(Some(0));
    }

    pub fn scroll_bottom(state: &mut ListSelection, len: usize)
        ensures
            final(state).selected == spec_scroll_bottom(old(state).selected, len),
    {
        if len > 0 {
            state.select(Some(len - 1));
        }
    }

    /// Whether a text input (search or chat composer) owns the keyboard.
    pub fn is_text_input_active(&self) -> (r: bool)
        requires
            self.wf(),
        ensures
            r == (self.is_searching || self.spec_route().active_block == ActiveBlock::ChatComposer),
    {
        self.is_searching || self.active_block() == ActiveBlock::ChatComposer
    }
}

} // verus!
