//! What the screens show, as text and numbers: the status bar, tab titles, friends lines,
//! chat message layout and scrolling. Drawing it is left to the terminal front end.

use vstd::prelude::*;

use crate::chat_history::ChatMessage;
use crate::layout::{
    format_timestamp,
    spec_timestamp_year,
    spec_truncate_label,
    spec_wrap_text,
    truncate_label,
    wrap_text,
};
use crate::launcher::LaunchOutcome;
use crate::models::{Achievement, Game, Genre};
use crate::protocol::{
    find_persona,
    lemma_find_persona,
    spec_find_persona,
    Persona,
    PersonaState,
    ProtocolGuardKind,
    ProtocolStatus,
};
use crate::routes::{ActiveBlock, RouteId};
use crate::text::{chars_of, push_decimal, spec_decimal, string_from_chars, strings_view};
use crate::ui::{find_cached, find_game, spec_cached, spec_first_game, App, AppTypeFilter};

verus! {

/// Concatenation of two texts.
pub fn concat2(a: &str, b: &str) -> (r: String)
    ensures
        r@ == a@ + b@,
{
    let mut out = chars_of(a);
    let cs = chars_of(b);
    let ghost before = out@;
    let mut k: usize = 0;
    while k < cs.len()
        invariant
            k <= cs.len(),
            out@ == before + cs@.take(k as int),
        decreases cs.len() - k,
    {
        out.push(cs[k]);
        k = k + 1;
        assert(out@ =~= before + cs@.take(k as int));
    }
    assert(cs@.take(cs@.len() as int) =~= cs@);
    string_from_chars(out.as_slice())
}

/// The decimal text of `n`.
fn number_text(n: usize) -> (r: String)
    ensures
        r@ == spec_decimal(n as nat),
{
    let mut cs: Vec<char> = Vec::new();
    push_decimal(&mut cs, n as u64);
    assert(cs@ =~= spec_decimal(n as nat));
    string_from_chars(cs.as_slice())
}

/// The suffix the status bar gives the user's own presence.
pub open spec fn spec_own_state_suffix(s: PersonaState) -> Seq<char> {
    match s {
        PersonaState::Away => " [Away]"@,
        PersonaState::Invisible => " [Invisible]"@,
        PersonaState::Busy => " [Busy]"@,
        _ => ""@,
    }
}

/// The connection part of the status bar.
pub open spec fn spec_protocol_label(status: ProtocolStatus, own: PersonaState) -> Seq<char> {
    match status {
        ProtocolStatus::Disconnected => "○ Web API only"@,
        ProtocolStatus::Connecting => "◌ Connecting to Steam"@,
        ProtocolStatus::AwaitingQrScan { .. } => "◎ Scan Steam QR"@,
        ProtocolStatus::AwaitingGuardCode { kind } => match kind {
            ProtocolGuardKind::EmailCode => "◎ Awaiting email code"@,
            ProtocolGuardKind::DeviceCode => "◎ Awaiting Steam Guard code"@,
            ProtocolGuardKind::DeviceConfirmation => "◎ Approve in Steam app"@,
        },
        ProtocolStatus::LoggedOn { account_name } => "● Connected as "@ + account_name@
            + spec_own_state_suffix(own),
        ProtocolStatus::Failed(message) => "○ Web API only ("@ + message@ + ")"@,
    }
}

/// The key hints of the status bar for the current screen.
pub open spec fn spec_key_hints(a: App) -> Seq<char> {
    let id = a.spec_route().id;
    if a.protocol_status.spec_modal_visible() {
        if a.protocol_status.spec_accepts_text_input() {
            "  Enter submit  Esc cancel"@
        } else {
            "  Esc cancel"@
        }
    } else if a.is_searching {
        "  Enter confirm  Esc cancel  (type to filter)"@
    } else if id == RouteId::Chat {
        if a.spec_route().active_block == ActiveBlock::ChatComposer {
            "  Enter send  Esc back  ↑↓ history"@
        } else {
            "  Enter open  j/k move  1-5 tabs  q quit"@
        }
    } else if id == RouteId::Friends && a.protocol_status is LoggedOn {
        "  Enter chat  s status  ? help  r reload  q quit"@
    } else if id == RouteId::GameDetail {
        "  Enter/l launch  Esc back  ? help  q quit"@
    } else if id == RouteId::Library {
        "  l launch  L recent  t type  / search  ? help  q quit"@
    } else {
        "  ? help  / search  r reload  q quit"@
    }
}

/// The tab highlighted for a screen; a game's page belongs to the library tab.
pub open spec fn spec_selected_tab(id: RouteId) -> usize {
    match id {
        RouteId::Library | RouteId::GameDetail => 0,
        RouteId::Friends => 1,
        RouteId::Wishlist => 2,
        RouteId::News => 3,
        RouteId::Chat => 4,
    }
}

pub fn selected_tab(id: RouteId) -> (r: usize)
    ensures
        r == spec_selected_tab(id),
{
    match id {
        RouteId::Library | RouteId::GameDetail => 0,
        RouteId::Friends => 1,
        RouteId::Wishlist => 2,
        RouteId::News => 3,
        RouteId::Chat => 4,
    }
}

/// The chat tab's title, with the unread count when there is any.
pub fn chat_tab_title(unread: usize) -> (r: String)
    ensures
        r@ == if unread > 0 {
            "5 Chat ("@ + spec_decimal(unread as nat) + ")"@
        } else {
            "5 Chat"@
        },
{
    if unread > 0 {
        let n = number_text(unread);
        let head = concat2("5 Chat (", n.as_str());
        concat2(head.as_str(), ")")
    } else {
        "5 Chat".to_owned()
    }
}

/// A friend's presence as a word after the name; nothing for plain online.
pub open spec fn spec_presence_text(s: PersonaState) -> Seq<char> {
    match s {
        PersonaState::Online => ""@,
        PersonaState::Busy => "Busy"@,
        PersonaState::Away => "Away"@,
        PersonaState::Snooze => "Snooze"@,
        PersonaState::LookingToTrade => "Looking to Trade"@,
        PersonaState::LookingToPlay => "Looking to Play"@,
        PersonaState::Invisible => "Invisible"@,
        PersonaState::Offline => "Offline"@,
    }
}

pub fn presence_text(s: PersonaState) -> (r: &'static str)
    ensures
        r@ == spec_presence_text(s),
{
    match s {
        PersonaState::Online => "",
        PersonaState::Busy => "Busy",
        PersonaState::Away => "Away",
        PersonaState::Snooze => "Snooze",
        PersonaState::LookingToTrade => "Looking to Trade",
        PersonaState::LookingToPlay => "Looking to Play",
        PersonaState::Invisible => "Invisible",
        PersonaState::Offline => "Offline",
    }
}

/// How a friend's dot is drawn.
#[derive(Debug, Clone, Copy, PartialEq, Eq, Structural)]
pub enum Presence {
    InGame,
    Online,
    Offline,
}

/// Offline or invisible friends show as offline; others as in game when playing.
pub open spec fn spec_presence(p: Persona) -> Presence {
    if p.state == PersonaState::Offline || p.state == PersonaState::Invisible {
        Presence::Offline
    } else if p.game_app_id is Some {
        Presence::InGame
    } else {
        Presence::Online
    }
}

pub fn presence(p: &Persona) -> (r: Presence)
    ensures
        r == spec_presence(*p),
{
    if p.state == PersonaState::Offline || p.state == PersonaState::Invisible {
        Presence::Offline
    } else if p.game_app_id.is_some() {
        Presence::InGame
    } else {
        Presence::Online
    }
}

/// The game shown for a friend playing `appid`: the library name, else a looked-up name
/// (not a pending one), else the name the friend reported, else "In-Game".
pub open spec fn spec_friend_game(
    games: Seq<Game>,
    cache: Seq<(u32, String)>,
    appid: u32,
    reported: Option<String>,
) -> Seq<char> {
    let from_library = match spec_first_game(games, appid) {
        Some(i) => games[i].name,
        None => None,
    };
    let from_cache = match spec_cached(cache, appid) {
        Some(n) => if n@.len() > 0 {
            Some(n)
        } else {
            None
        },
        None => None,
    };
    match from_library {
        Some(n) => n@,
        None => match from_cache {
            Some(n) => n@,
            None => match reported {
                Some(n) => n@,
                None => "In-Game"@,
            },
        },
    }
}

/// Seconds-free layout of one chat message: the author label, the indent of continuation
/// lines, and the wrapped body.
pub struct MessageLayout {
    pub label: String,
    pub indent: usize,
    pub lines: Vec<String>,
}

/// Author labels use a third of the width, between 8 and 24 characters.
pub open spec fn label_width(width: usize) -> nat {
    let third = width / 3;
    if third < 8 {
        8
    } else if third > 24 {
        24
    } else {
        third as nat
    }
}

impl App {
    /// The connection part of the status bar.
    pub fn protocol_label(&self) -> (r: String)
        ensures
            r@ == spec_protocol_label(self.protocol_status, self.own_persona_state),
    {
        match &self.protocol_status {
            ProtocolStatus::Disconnected => "○ Web API only".to_owned(),
            ProtocolStatus::Connecting => "◌ Connecting to Steam".to_owned(),
            ProtocolStatus::AwaitingQrScan { .. } => "◎ Scan Steam QR".to_owned(),
            ProtocolStatus::AwaitingGuardCode { kind } => match kind {
                ProtocolGuardKind::EmailCode => "◎ Awaiting email code".to_owned(),
                ProtocolGuardKind::DeviceCode => "◎ Awaiting Steam Guard code".to_owned(),
                ProtocolGuardKind::DeviceConfirmation => "◎ Approve in Steam app".to_owned(),
            },
            ProtocolStatus::LoggedOn { account_name } => {
                let suffix = match self.own_persona_state {
                    PersonaState::Away => " [Away]",
                    PersonaState::Invisible => " [Invisible]",
                    PersonaState::Busy => " [Busy]",
                    _ => "",
                };
                let head = concat2("● Connected as ", account_name.as_str());
                concat2(head.as_str(), suffix)
            },
            ProtocolStatus::Failed(message) => {
                let head = concat2("○ Web API only (", message.as_str());
                concat2(head.as_str(), ")")
            },
        }
    }

    /// The key hints of the status bar.
    pub fn key_hints(&self) -> (r: &'static str)
        requires
            self.wf(),
        ensures
            r@ == spec_key_hints(*self),
    {
        let id = self.current_route().id;
        if self.protocol_modal_active() {
            if self.protocol_status.accepts_text_input() {
                "  Enter submit  Esc cancel"
            } else {
                "  Esc cancel"
            }
        } else if self.is_searching {
            "  Enter confirm  Esc cancel  (type to filter)"
        } else if id == RouteId::Chat {
            if self.active_block() == ActiveBlock::ChatComposer {
                "  Enter send  Esc back  ↑↓ history"
            } else {
                "  Enter open  j/k move  1-5 tabs  q quit"
            }
        } else if id == RouteId::Friends && self.protocol_status.is_logged_on() {
            "  Enter chat  s status  ? help  r reload  q quit"
        } else if id == RouteId::GameDetail {
            "  Enter/l launch  Esc back  ? help  q quit"
        } else if id == RouteId::Library {
            "  l launch  L recent  t type  / search  ? help  q quit"
        } else {
            "  ? help  / search  r reload  q quit"
        }
    }

    /// The game a playing friend is shown with.
    pub fn friend_game_name(&self, appid: u32, reported: &Option<String>) -> (r: String)
        ensures
            r@ == spec_friend_game(self.games@, self.game_name_cache@, appid, *reported),
    {
        let from_library: Option<&String> = match find_game(&self.games, appid) {
            Some(i) => match &self.games[i].name {
                Some(n) => Some(n),
                None => None,
            },
            None => None,
        };
        if let Some(n) = from_library {
            return n.clone();
        }
        let from_cache: Option<&String> = match find_cached(&self.game_name_cache, appid) {
            Some(k) => {
                let n = &self.game_name_cache[k].1;
                if !n.as_str().is_empty() {
                    Some(n)
                } else {
                    None
                }
            },
            None => None,
        };
        if let Some(n) = from_cache {
            return n.clone();
        }
        match reported {
            Some(n) => n.clone(),
            None => "In-Game".to_owned(),
        }
    }

    /// The friends list title over the Steam connection: online count and total.
    pub fn protocol_friends_title(&self) -> (r: String)
        ensures
            r@ == " Friends ("@ + spec_decimal(
                self.protocol_friends@.filter(
                    |p: Persona| p.state != PersonaState::Offline && p.state != PersonaState::Invisible,
                ).len(),
            ) + " online / "@ + spec_decimal(self.protocol_friends@.len()) + ") "@,
    {
        let ghost s = self.protocol_friends@;
        let mut online: usize = 0;
        let mut i: usize = 0;
        while i < self.protocol_friends.len()
            invariant
                s == self.protocol_friends@,
                i <= s.len(),
                online == s.take(i as int).filter(
                    |p: Persona| p.state != PersonaState::Offline && p.state != PersonaState::Invisible,
                ).len(),
                online <= i,
            decreases s.len() - i,
        {
            proof {
                assert(s.take(i + 1).drop_last() =~= s.take(i as int));
                reveal(Seq::filter);
            }
            let st = self.protocol_friends[i].state;
            if st != PersonaState::Offline && st != PersonaState::Invisible {
                online = online + 1;
            }
            i = i + 1;
        }
        proof {
            assert(s.take(s.len() as int) =~= s);
        }
        let a = number_text(online);
        let b = number_text(self.protocol_friends.len());
        let t1 = concat2(" Friends (", a.as_str());
        let t2 = concat2(t1.as_str(), " online / ");
        let t3 = concat2(t2.as_str(), b.as_str());
        concat2(t3.as_str(), ") ")
    }
}

/// Number of achievements unlocked.
pub open spec fn spec_unlocked(s: Seq<Achievement>) -> nat {
    s.filter(|a: Achievement| a.achieved == 1).len()
}

impl App {
    /// The library title: the row count, or shown/total and the type filter while searching
    /// or filtering.
    pub fn library_title(&self) -> (r: String)
        ensures
            r@ == if self.is_searching || self.app_type_filter != AppTypeFilter::All {
                " Library ("@ + spec_decimal(self.filtered_games@.len()) + "/"@ + spec_decimal(
                    self.games@.len(),
                ) + ")"@ + (if self.app_type_filter == AppTypeFilter::All {
                    ""@
                } else {
                    " ["@ + self.app_type_filter.spec_label() + "]"@
                }) + " "@
            } else {
                " Library ("@ + spec_decimal(self.games@.len()) + ") "@
            },
    {
        let total = number_text(self.games.len());
        if self.is_searching || self.app_type_filter != AppTypeFilter::All {
            let shown = number_text(self.filtered_games.len());
            let tag = if self.app_type_filter == AppTypeFilter::All {
                "".to_owned()
            } else {
                let t = concat2(" [", self.app_type_filter.label());
                concat2(t.as_str(), "]")
            };
            let t1 = concat2(" Library (", shown.as_str());
            let t2 = concat2(t1.as_str(), "/");
            let t3 = concat2(t2.as_str(), total.as_str());
            let t4 = concat2(t3.as_str(), ")");
            let t5 = concat2(t4.as_str(), tag.as_str());
            proof {
                reveal_strlit("");
            }
            concat2(t5.as_str(), " ")
        } else {
            let t1 = concat2(" Library (", total.as_str());
            concat2(t1.as_str(), ") ")
        }
    }

    /// Unlocked and total achievements of the open game.
    pub fn achievement_progress(&self) -> (r: (usize, usize))
        ensures
            r.0 == spec_unlocked(self.achievements@),
            r.1 == self.achievements@.len(),
    {
        let ghost s = self.achievements@;
        let mut unlocked: usize = 0;
        let mut i: usize = 0;
        while i < self.achievements.len()
            invariant
                s == self.achievements@,
                i <= s.len(),
                unlocked == spec_unlocked(s.take(i as int)),
                unlocked <= i,
            decreases s.len() - i,
        {
            proof {
                assert(s.take(i + 1).drop_last() =~= s.take(i as int));
                reveal(Seq::filter);
            }
            if self.achievements[i].is_unlocked() {
                unlocked = unlocked + 1;
            }
            i = i + 1;
        }
        proof {
            assert(s.take(s.len() as int) =~= s);
        }
        (unlocked, self.achievements.len())
    }
}

/// When a wishlist entry was added, as a year; a dash when unknown.
pub fn added_text(added: u64) -> (r: String)
    ensures
        r@ == if added > 0 {
            spec_decimal(spec_timestamp_year(added))
        } else {
            "—"@
        },
{
    if added > 0 {
        format_timestamp(added)
    } else {
        "—".to_owned()
    }
}

/// The status-bar message after a launch: the command of a dry run, else the game launched.
pub fn launch_message(outcome: &LaunchOutcome, name: &str) -> (r: String)
    ensures
        r@ == if outcome.dry_run {
            "DRY-RUN "@ + outcome.command_line@
        } else {
            "▶ Launched "@ + name@
        },
{
    if outcome.dry_run {
        concat2("DRY-RUN ", outcome.command_line.as_str())
    } else {
        concat2("▶ Launched ", name)
    }
}

/// The selection drawn for a list of `len` rows: none for an empty list, else the selection
/// (the first row when there is none) kept on the last row at most.
pub open spec fn spec_clamp_selection(sel: Option<usize>, len: usize) -> Option<usize> {
    if len == 0 {
        None
    } else {
        let s = match sel {
            Some(i) => i,
            None => 0usize,
        };
        Some(if s < len { s } else { (len - 1) as usize })
    }
}

pub fn clamp_selection(sel: Option<usize>, len: usize) -> (r: Option<usize>)
    ensures
        r == spec_clamp_selection(sel, len),
{
    if len == 0 {
        None
    } else {
        let s = match sel {
            Some(i) => i,
            None => 0,
        };
        Some(if s < len { s } else { len - 1 })
    }
}

/// The first line of the history shown: anchored to the newest message, moved up by the
/// scroll-back (at most to the top).
pub open spec fn spec_history_top(total: usize, height: usize, scroll_back: usize) -> int {
    let max_scroll: int = if total > height {
        total - height
    } else {
        0
    };
    max_scroll - (if scroll_back < max_scroll {
        scroll_back as int
    } else {
        max_scroll
    })
}

pub fn history_top(total: usize, height: usize, scroll_back: usize) -> (r: usize)
    ensures
        r == spec_history_top(total, height, scroll_back),
{
    let max_scroll = if total > height {
        total - height
    } else {
        0
    };
    let back = if scroll_back < max_scroll {
        scroll_back
    } else {
        max_scroll
    };
    max_scroll - back
}

/// The tail of the composer text that fits a box `width` wide (borders, the `> ` prompt and
/// the cursor take five columns).
pub open spec fn spec_composer_tail(input: Seq<char>, width: usize) -> Seq<char> {
    let inner: int = if width >= 2 {
        width - 2
    } else {
        0
    };
    let avail: int = if inner >= 3 {
        inner - 3
    } else {
        0
    };
    if input.len() > avail {
        input.skip(input.len() - avail)
    } else {
        input
    }
}

pub fn composer_tail(input: &str, width: usize) -> (r: String)
    ensures
        r@ == spec_composer_tail(input@, width),
{
    let cs = chars_of(input);
    let inner = if width >= 2 {
        width - 2
    } else {
        0
    };
    let avail = if inner >= 3 {
        inner - 3
    } else {
        0
    };
    if cs.len() > avail {
        let start = cs.len() - avail;
        let mut out: Vec<char> = Vec::new();
        let mut k: usize = start;
        while k < cs.len()
            invariant
                start <= k <= cs.len(),
                out@ == cs@.subrange(start as int, k as int),
            decreases cs.len() - k,
        {
            out.push(cs[k]);
            k = k + 1;
            assert(out@ =~= cs@.subrange(start as int, k as int));
        }
        assert(out@ =~= cs@.skip(start as int));
        string_from_chars(out.as_slice())
    } else {
        string_from_chars(cs.as_slice())
    }
}

/// Layout of a message `width` columns wide: "You" or the friend's name as label (shortened
/// to the label width), continuation lines indented past `label: `, the body wrapped to the
/// rest of the width (at least 8 columns).
pub fn message_layout(msg: &ChatMessage, partner: &str, width: usize) -> (r: MessageLayout)
    ensures
        r.label@ == spec_truncate_label(
            if msg.from_local {
                "You"@
            } else {
                partner@
            },
            label_width(width),
        ),
        r.indent == r.label@.len() + 2,
        strings_view(r.lines@) == spec_wrap_text(
            msg.message@,
            ({
                let rest: int = if width >= r.indent {
                    width - r.indent
                } else {
                    0
                };
                if rest < 8 {
                    8nat
                } else {
                    rest as nat
                }
            }),
        ),
{
    let third = width / 3;
    let lw: usize = if third < 8 {
        8
    } else if third > 24 {
        24
    } else {
        third
    };
    let label = if msg.from_local {
        truncate_label("You", lw)
    } else {
        truncate_label(partner, lw)
    };
    let label_chars = chars_of(label.as_str());
    proof {
        assert(label_chars@.len() <= 24) by {
            if msg.from_local {
                reveal_strlit("You");
            }
        }
    }
    let indent = label_chars.len() + 2;
    let rest = if width >= indent {
        width - indent
    } else {
        0
    };
    let body_width = if rest < 8 {
        8
    } else {
        rest
    };
    let lines = wrap_text(msg.message.as_str(), body_width);
    MessageLayout { label, indent, lines }
}

/// Texts joined with `, ` between them.
pub open spec fn spec_comma_list(s: Seq<Seq<char>>) -> Seq<char>
    decreases s.len(),
{
    if s.len() == 0 {
        Seq::empty()
    } else if s.len() == 1 {
        s[0]
    } else {
        spec_comma_list(s.drop_last()) + ", "@ + s.last()
    }
}

fn comma_list_of(items: &Vec<Vec<char>>) -> (r: String)
    ensures
        r@ == spec_comma_list(items@.map_values(|v: Vec<char>| v@)),
{
    let ghost iv = items@.map_values(|v: Vec<char>| v@);
    let mut out = String::new();
    let mut i: usize = 0;
    proof {
        reveal_strlit("");
        assert(iv.take(0) =~= Seq::<Seq<char>>::empty());
    }
    while i < items.len()
        invariant
            iv == items@.map_values(|v: Vec<char>| v@),
            i <= items.len(),
            out@ == spec_comma_list(iv.take(i as int)),
        decreases items.len() - i,
    {
        let item = string_from_chars(items[i].as_slice());
        proof {
            assert(iv.take(i + 1).drop_last() =~= iv.take(i as int));
            assert(iv.take(i + 1).last() == item@);
        }
        if i == 0 {
            out = item;
            proof {
                assert(out@ =~= spec_comma_list(iv.take(1)));
            }
        } else {
            let head = concat2(out.as_str(), ", ");
            out = concat2(head.as_str(), item.as_str());
        }
        i = i + 1;
    }
    assert(iv.take(items.len() as int) =~= iv);
    out
}

/// Names (developers, publishers) joined with `, `.
pub fn comma_list(items: &Vec<String>) -> (r: String)
    ensures
        r@ == spec_comma_list(strings_view(items@)),
{
    let mut cs: Vec<Vec<char>> = Vec::new();
    let mut i: usize = 0;
    while i < items.len()
        invariant
            i <= items.len(),
            cs@.map_values(|v: Vec<char>| v@) == strings_view(items@).take(i as int),
        decreases items.len() - i,
    {
        let c = chars_of(items[i].as_str());
        let ghost before = cs@;
        cs.push(c);
        proof {
            assert(cs@.map_values(|v: Vec<char>| v@) =~= before.map_values(|v: Vec<char>| v@).push(c@));
            assert(cs@.map_values(|v: Vec<char>| v@) =~= strings_view(items@).take(i + 1));
        }
        i = i + 1;
    }
    assert(strings_view(items@).take(items.len() as int) =~= strings_view(items@));
    comma_list_of(&cs)
}

/// A game's genre descriptions joined with `, `.
pub fn genre_list(genres: &Vec<Genre>) -> (r: String)
    ensures
        r@ == spec_comma_list(genres@.map_values(|g: Genre| g.description@)),
{
    let ghost gv = genres@.map_values(|g: Genre| g.description@);
    let mut cs: Vec<Vec<char>> = Vec::new();
    let mut i: usize = 0;
    while i < genres.len()
        invariant
            gv == genres@.map_values(|g: Genre| g.description@),
            i <= genres.len(),
            cs@.map_values(|v: Vec<char>| v@) == gv.take(i as int),
        decreases genres.len() - i,
    {
        let c = chars_of(genres[i].description.as_str());
        let ghost before = cs@;
        cs.push(c);
        proof {
            assert(cs@.map_values(|v: Vec<char>| v@) =~= before.map_values(|v: Vec<char>| v@).push(c@));
            assert(cs@.map_values(|v: Vec<char>| v@) =~= gv.take(i + 1));
        }
        i = i + 1;
    }
    assert(gv.take(genres.len() as int) =~= gv);
    comma_list_of(&cs)
}

/// How a Metacritic score is coloured.
#[derive(Debug, Clone, Copy, PartialEq, Eq, Structural)]
pub enum ScoreBand {
    /// 75 and up.
    Good,
    /// 50 to 74.
    Mixed,
    /// Below 50.
    Poor,
}

pub fn metacritic_band(score: u8) -> (r: ScoreBand)
    ensures
        r == if score >= 75 {
            ScoreBand::Good
        } else if score >= 50 {
            ScoreBand::Mixed
        } else {
            ScoreBand::Poor
        },
{
    if score >= 75 {
        ScoreBand::Good
    } else if score >= 50 {
        ScoreBand::Mixed
    } else {
        ScoreBand::Poor
    }
}

/// Whether a friend counts as online: known over the connection and neither offline nor
/// invisible.
pub open spec fn spec_partner_online(friends: Seq<Persona>, steamid: u64) -> bool {
    match spec_find_persona(friends, steamid) {
        Some(i) => friends[i].state != PersonaState::Offline && friends[i].state
            != PersonaState::Invisible,
        None => false,
    }
}

/// The title of an open conversation: the partner's name and whether they are online.
pub fn conversation_title(partner: &str, online: bool) -> (r: String)
    ensures
        r@ == " "@ + partner@ + " — "@ + (if online {
            "online"@
        } else {
            "offline"@
        }) + " "@,
{
    let head = concat2(" ", partner);
    let mid = concat2(head.as_str(), " — ");
    let state = if online {
        "online"
    } else {
        "offline"
    };
    let tail = concat2(mid.as_str(), state);
    concat2(tail.as_str(), " ")
}

impl App {
    /// Whether the friend with `steamid` is online.
    pub fn partner_online(&self, steamid: u64) -> (r: bool)
        ensures
            r == spec_partner_online(self.protocol_friends@, steamid),
    {
        proof {
            lemma_find_persona(self.protocol_friends@, steamid);
        }
        match find_persona(&self.protocol_friends, steamid) {
            Some(i) => {
                let st = self.protocol_friends[i].state;
                st != PersonaState::Offline && st != PersonaState::Invisible
            },
            None => false,
        }
    }
}

} // verus!
