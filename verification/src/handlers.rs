//! Keyboard handling: which block gets a key, and what each key does there.

use vstd::prelude::*;

use crate::chat::{chat_sent, conv_keys, convs_view, friend_keys, typing_pinged};
use crate::keys::Key;
use crate::ordering::{covers, is_stable_order};
use crate::protocol::{PersonaState, ProtocolCommand, ProtocolGuardKind, ProtocolStatus, RunCommand};
use crate::routes::{ActiveBlock, IoEvent, Route, RouteId};
use crate::text::{is_control, pop_char, push_char, spec_is_control, spec_lowercase};
use crate::ui::{
    spec_filter_indices,
    spec_focus,
    spec_scroll_bottom,
    spec_scroll_down,
    spec_scroll_up,
    App,
    Effect,
    ListSelection,
};

verus! {

/// The state with `pending_g` set as given and nothing else changed.
pub open spec fn with_pending(a: App, pending: bool) -> App {
    App { pending_g: pending, ..a }
}

/// `new` is `old` with the keyboard moved to `block` and the `g` prefix dropped.
pub open spec fn focused(old: App, new: App, block: ActiveBlock) -> bool {
    &&& new.navigation_stack@ == spec_focus(old.navigation_stack@, block)
    &&& new == App { navigation_stack: new.navigation_stack, pending_g: false, ..old }
}

/// `new` is `old` with one background request queued and nothing else changed but `pending_g`.
pub open spec fn dispatched(old: App, new: App, event: IoEvent, pending: bool) -> bool {
    &&& new.outbox@ == old.outbox@.push(Effect::Io(event))
    &&& new == App { outbox: new.outbox, pending_g: pending, ..old }
}

/// The library rows and their highlight after a search refresh with this text and filter.
pub open spec fn searched(new: App, text: Seq<char>) -> bool {
    &&& new.filtered_games@ == spec_filter_indices(
        new.games@,
        new.game_name_cache@,
        spec_lowercase(text),
        new.app_type_filter,
    )
    &&& new.library_state == ListSelection {
        selected: if new.filtered_games@.len() == 0 {
            None
        } else {
            Some(0usize)
        },
    }
}

/// The screen a number key switches to: library, friends, wishlist, news.
pub open spec fn tab_route(tab: u8) -> Route {
    if tab == 0 {
        Route { id: RouteId::Library, active_block: ActiveBlock::Library }
    } else if tab == 1 {
        Route { id: RouteId::Friends, active_block: ActiveBlock::Friends }
    } else if tab == 2 {
        Route { id: RouteId::Wishlist, active_block: ActiveBlock::Wishlist }
    } else {
        Route { id: RouteId::News, active_block: ActiveBlock::News }
    }
}

/// Switching to tab `tab` (0 to 3) makes that screen the only one and starts its loading;
/// friend loading over the Web API is skipped while signed in to Steam. Other tabs do
/// nothing.
pub open spec fn switched_tab(old: App, tab: u8, new: App) -> bool {
    if tab > 3 {
        new == old
    } else {
        &&& new.navigation_stack@ == seq![tab_route(tab)]
        &&& new.outbox@ == if tab == 1 && old.protocol_status is LoggedOn {
            old.outbox@
        } else {
            old.outbox@.push(
                Effect::Io(
                    if tab == 0 {
                        IoEvent::LoadLibrary
                    } else if tab == 1 {
                        IoEvent::LoadFriendIds
                    } else if tab == 2 {
                        IoEvent::LoadWishlist
                    } else {
                        IoEvent::LoadNews
                    },
                ),
            )
        }
        &&& new == App { navigation_stack: new.navigation_stack, outbox: new.outbox, ..old }
    }
}

/// Switches to one of the tabs (0 library, 1 friends, 2 wishlist, 3 news).
pub fn switch_tab(app: &mut App, tab: u8)
    requires
        old(app).wf(),
    ensures
        final(app).wf(),
        switched_tab(*old(app), tab, *final(app)),
{
    let route = match tab {
        0 => Route::library(),
        1 => Route::friends(),
        2 => Route::wishlist(),
        3 => Route::news(),
        _ => return,
    };
    let event = route.load_event();
    let mut stack: Vec<Route> = Vec::new();
    stack.push(route);
    app.navigation_stack = stack;
    if let Some(ev) = event {
        if tab == 1 && app.protocol_status.is_logged_on() {
            return;
        }
        app.dispatch(ev);
    }
}

/// Tab switch for a number key `'1'`..`'5'` (tabs 0 to 4), if `key` is one.
pub open spec fn number_tab(key: Key) -> Option<u8> {
    match key {
        Key::Char(c) => if c == '1' {
            Some(0u8)
        } else if c == '2' {
            Some(1u8)
        } else if c == '3' {
            Some(2u8)
        } else if c == '4' {
            Some(3u8)
        } else if c == '5' {
            Some(4u8)
        } else {
            None
        },
        _ => None,
    }
}

/// What a key does in a list: `j`/Down and `k`/Up move one row, `gg` jumps to the top, `G`
/// to the bottom; `sel` reads and `set` writes the list's selection.
pub open spec fn list_moved(
    old: App,
    key: Key,
    new: App,
    sel: Option<usize>,
    len: usize,
    set: spec_fn(App, Option<usize>) -> App,
) -> bool {
    match key {
        Key::Char('j') | Key::Down => new == set(with_pending(old, false), spec_scroll_down(sel, len)),
        Key::Char('k') | Key::Up => new == set(with_pending(old, false), spec_scroll_up(sel)),
        Key::Char('g') => if old.pending_g {
            new == set(with_pending(old, false), Some(0usize))
        } else {
            new == with_pending(old, true)
        },
        Key::Char('G') => new == set(with_pending(old, false), spec_scroll_bottom(sel, len)),
        _ => false,
    }
}

pub open spec fn is_list_move(key: Key) -> bool {
    key == Key::Char('j') || key == Key::Down || key == Key::Char('k') || key == Key::Up || key
        == Key::Char('g') || key == Key::Char('G')
}

pub open spec fn set_library_sel(a: App, s: Option<usize>) -> App {
    App { library_state: ListSelection { selected: s }, ..a }
}

pub open spec fn set_friends_sel(a: App, s: Option<usize>) -> App {
    App { friends_state: ListSelection { selected: s }, ..a }
}

pub open spec fn set_wishlist_sel(a: App, s: Option<usize>) -> App {
    App { wishlist_state: ListSelection { selected: s }, ..a }
}

pub open spec fn set_news_sel(a: App, s: Option<usize>) -> App {
    App { news_state: ListSelection { selected: s }, ..a }
}

pub open spec fn set_achievements_sel(a: App, s: Option<usize>) -> App {
    App { achievements_state: ListSelection { selected: s }, ..a }
}

pub open spec fn set_chat_list_sel(a: App, s: Option<usize>) -> App {
    App { chat_list_state: ListSelection { selected: s }, ..a }
}

pub open spec fn set_quick_launch_sel(a: App, s: Option<usize>) -> App {
    App { quick_launch_state: ListSelection { selected: s }, ..a }
}

/// The `j`, `k`, `g` and `G` keys on a list whose selection the caller passes in and gets
/// back.
fn move_in_list(app: &mut App, key: Key, sel: &mut ListSelection, len: usize)
    requires
        is_list_move(key),
    ensures
        key == Key::Char('j') || key == Key::Down ==> final(sel).selected == spec_scroll_down(
            old(sel).selected,
            len,
        ) && !final(app).pending_g,
        key == Key::Char('k') || key == Key::Up ==> final(sel).selected == spec_scroll_up(
            old(sel).selected,
        ) && !final(app).pending_g,
        key == Key::Char('g') ==> if old(app).pending_g {
            final(sel).selected == Some(0usize) && !final(app).pending_g
        } else {
            *final(sel) == *old(sel) && final(app).pending_g
        },
        key == Key::Char('G') ==> final(sel).selected == spec_scroll_bottom(old(sel).selected, len)
            && !final(app).pending_g,
        *final(app) == with_pending(*old(app), final(app).pending_g),
{
    match key {
        Key::Char('j') | Key::Down => {
            app.pending_g = false;
            App::scroll_down(sel, len);
        },
        Key::Char('k') | Key::Up => {
            app.pending_g = false;
            App::scroll_up(sel);
        },
        Key::Char('g') => {
            if app.pending_g {
                app.pending_g = false;
                App::scroll_top(sel);
            } else {
                app.pending_g = true;
            }
        },
        _ => {
            app.pending_g = false;
            App::scroll_bottom(sel, len);
        },
    }
}

/// The library list: move, open a game, launch the highlighted game, open the recently
/// played overlay, search, reload, cycle the type filter, switch tabs, help.
pub open spec fn library_step(old: App, key: Key, new: App) -> bool {
    if is_list_move(key) {
        list_moved(
            old,
            key,
            new,
            old.library_state.selected,
            old.filtered_games.len(),
            |a: App, s: Option<usize>| set_library_sel(a, s),
        )
    } else if key == Key::Enter {
        match old.library_state.selected {
            Some(sel) => if sel < old.filtered_games@.len() {
                let appid = old.games@[old.filtered_games@[sel as int] as int].appid;
                &&& new.navigation_stack@ == old.navigation_stack@.push(
                    Route { id: RouteId::GameDetail, active_block: ActiveBlock::GameDetail },
                )
                &&& new.achievements@.len() == 0
                &&& new.outbox@ == old.outbox@.push(Effect::Io(IoEvent::LoadGameDetail(appid))).push(
                    Effect::Io(IoEvent::LoadAchievements(appid)),
                )
                &&& new == App {
                    navigation_stack: new.navigation_stack,
                    achievements: new.achievements,
                    outbox: new.outbox,
                    selected_game: None,
                    pending_g: false,
                    ..old
                }
            } else {
                new == with_pending(old, false)
            },
            None => new == with_pending(old, false),
        }
    } else if key == Key::Char('/') {
        &&& new.navigation_stack@ == spec_focus(old.navigation_stack@, ActiveBlock::Search)
        &&& new.search_input@.len() == 0
        &&& new == App {
            navigation_stack: new.navigation_stack,
            search_input: new.search_input,
            is_searching: true,
            pending_g: false,
            ..old
        }
    } else if key == Key::Char('r') {
        dispatched(old, new, IoEvent::LoadLibrary, false)
    } else if key == Key::Char('l') {
        match old.library_state.selected {
            Some(sel) => if sel < old.filtered_games@.len() {
                dispatched(
                    old,
                    new,
                    IoEvent::LaunchGame(old.games@[old.filtered_games@[sel as int] as int].appid),
                    false,
                )
            } else {
                new == with_pending(old, false)
            },
            None => new == with_pending(old, false),
        }
    } else if key == Key::Char('L') {
        &&& new.navigation_stack@ == spec_focus(old.navigation_stack@, ActiveBlock::QuickLaunch)
        &&& new == App {
            navigation_stack: new.navigation_stack,
            quick_launch_state: ListSelection {
                selected: if old.recently_played_appids@.len() == 0 {
                    None
                } else {
                    Some(0usize)
                },
            },
            pending_g: false,
            ..old
        }
    } else if key == Key::Char('t') {
        &&& searched(new, old.search_input@)
        &&& new == App {
            app_type_filter: old.app_type_filter.spec_cycle(),
            filtered_games: new.filtered_games,
            library_state: new.library_state,
            pending_g: false,
            ..old
        }
    } else if number_tab(key) is Some && number_tab(key).unwrap() < 4 {
        switched_tab(old, number_tab(key).unwrap(), new)
    } else if key == Key::Char('?') {
        focused(old, new, ActiveBlock::Help)
    } else {
        new == with_pending(old, false)
    }
}

pub fn handle_library(app: &mut App, key: Key)
    requires
        old(app).wf(),
    ensures
        final(app).wf(),
        library_step(*old(app), key, *final(app)),
{
    match key {
        Key::Char('j') | Key::Down | Key::Char('k') | Key::Up | Key::Char('g') | Key::Char('G') => {
            let len = app.filtered_games.len();
            let mut sel = app.library_state;
            move_in_list(app, key, &mut sel, len);
            app.library_state = sel;
        },
        Key::Enter => {
            app.pending_g = false;
            if let Some(sel) = app.library_state.selected() {
                if sel < app.filtered_games.len() {
                    let game_idx = app.filtered_games[sel];
                    let appid = app.games[game_idx].appid;
                    app.selected_game = None;
                    app.achievements = Vec::new();
                    app.push_route(Route::game_detail());
                    app.dispatch(IoEvent::LoadGameDetail(appid));
                    app.dispatch(IoEvent::LoadAchievements(appid));
                }
            }
        },
        Key::Char('/') => {
            app.pending_g = false;
            app.is_searching = true;
            app.search_input = String::new();
            app.focus(ActiveBlock::Search);
        },
        Key::Char('r') => {
            app.pending_g = false;
            app.dispatch(IoEvent::LoadLibrary);
        },
        Key::Char('l') => {
            app.pending_g = false;
            if let Some(appid) = app.selected_library_appid() {
                app.dispatch(IoEvent::LaunchGame(appid));
            }
        },
        Key::Char('L') => {
            app.pending_g = false;
            app.open_quick_launch();
        },
        Key::Char('t') => {
            app.pending_g = false;
            app.app_type_filter = app.app_type_filter.cycle();
            app.update_search();
        },
        Key::Char('1') => switch_tab(app, 0),
        Key::Char('2') => switch_tab(app, 1),
        Key::Char('3') => switch_tab(app, 2),
        Key::Char('4') => switch_tab(app, 3),
        Key::Char('?') => {
            app.pending_g = false;
            app.focus(ActiveBlock::Help);
        },
        _ => {
            app.pending_g = false;
        },
    }
}

/// The search box: Esc clears the search and leaves, Enter keeps it and leaves, typing edits
/// it; the library rows follow every edit.
pub open spec fn search_step(old: App, key: Key, new: App) -> bool {
    match key {
        Key::Esc => {
            &&& new.search_input@.len() == 0
            &&& searched(new, Seq::empty())
            &&& new.navigation_stack@ == spec_focus(old.navigation_stack@, ActiveBlock::Library)
            &&& new == App {
                is_searching: false,
                search_input: new.search_input,
                filtered_games: new.filtered_games,
                library_state: new.library_state,
                navigation_stack: new.navigation_stack,
                ..old
            }
        },
        Key::Enter => {
            &&& new.navigation_stack@ == spec_focus(old.navigation_stack@, ActiveBlock::Library)
            &&& new == App { is_searching: false, navigation_stack: new.navigation_stack, ..old }
        },
        Key::Backspace => {
            &&& new.search_input@ == if old.search_input@.len() > 0 {
                old.search_input@.drop_last()
            } else {
                old.search_input@
            }
            &&& searched(new, new.search_input@)
            &&& new == App {
                search_input: new.search_input,
                filtered_games: new.filtered_games,
                library_state: new.library_state,
                ..old
            }
        },
        Key::Char(c) => {
            &&& new.search_input@ == old.search_input@.push(c)
            &&& searched(new, new.search_input@)
            &&& new == App {
                search_input: new.search_input,
                filtered_games: new.filtered_games,
                library_state: new.library_state,
                ..old
            }
        },
        _ => new == old,
    }
}

pub fn handle_search(app: &mut App, key: Key)
    requires
        old(app).wf(),
    ensures
        final(app).wf(),
        search_step(*old(app), key, *final(app)),
{
    match key {
        Key::Esc => {
            app.is_searching = false;
            app.search_input = String::new();
            app.update_search();
            app.focus(ActiveBlock::Library);
        },
        Key::Enter => {
            app.is_searching = false;
            app.focus(ActiveBlock::Library);
        },
        Key::Backspace => {
            pop_char(&mut app.search_input);
            app.update_search();
        },
        Key::Char(c) => {
            push_char(&mut app.search_input, c);
            app.update_search();
        },
        _ => {},
    }
}

/// A game's page: move in its achievements, launch it, go back, help.
pub open spec fn game_detail_step(old: App, key: Key, new: App) -> bool {
    match key {
        Key::Char('j') | Key::Down => new == set_achievements_sel(
            old,
            spec_scroll_down(old.achievements_state.selected, old.achievements.len()),
        ),
        Key::Char('k') | Key::Up => new == set_achievements_sel(
            old,
            spec_scroll_up(old.achievements_state.selected),
        ),
        Key::Char('g') => if old.pending_g {
            new == set_achievements_sel(with_pending(old, false), Some(0usize))
        } else {
            new == with_pending(old, true)
        },
        Key::Char('G') => new == set_achievements_sel(
            with_pending(old, false),
            spec_scroll_bottom(old.achievements_state.selected, old.achievements.len()),
        ),
        Key::Enter | Key::Char('l') => match old.selected_game {
            Some(details) => dispatched(old, new, IoEvent::LaunchGame(details.steam_appid), false),
            None => new == with_pending(old, false),
        },
        Key::Esc | Key::Backspace => {
            &&& new.navigation_stack@ == if old.navigation_stack@.len() > 1 {
                old.navigation_stack@.drop_last()
            } else {
                old.navigation_stack@
            }
            &&& new == App { navigation_stack: new.navigation_stack, pending_g: false, ..old }
        },
        Key::Char('?') => focused(old, new, ActiveBlock::Help),
        _ => new == with_pending(old, false),
    }
}

pub fn handle_game_detail(app: &mut App, key: Key)
    requires
        old(app).wf(),
    ensures
        final(app).wf(),
        game_detail_step(*old(app), key, *final(app)),
{
    match key {
        Key::Char('j') | Key::Down => {
            let len = app.achievements.len();
            App::scroll_down(&mut app.achievements_state, len);
        },
        Key::Char('k') | Key::Up => {
            App::scroll_up(&mut app.achievements_state);
        },
        Key::Char('g') => {
            if app.pending_g {
                app.pending_g = false;
                App::scroll_top(&mut app.achievements_state);
            } else {
                app.pending_g = true;
            }
        },
        Key::Char('G') => {
            app.pending_g = false;
            let len = app.achievements.len();
            App::scroll_bottom(&mut app.achievements_state, len);
        },
        Key::Enter | Key::Char('l') => {
            app.pending_g = false;
            let appid = match &app.selected_game {
                Some(details) => Some(details.steam_appid),
                None => None,
            };
            if let Some(id) = appid {
                app.dispatch(IoEvent::LaunchGame(id));
            }
        },
        Key::Esc | Key::Backspace => {
            app.pending_g = false;
            app.pop_route();
        },
        Key::Char('?') => {
            app.pending_g = false;
            app.focus(ActiveBlock::Help);
        },
        _ => {
            app.pending_g = false;
        },
    }
}

/// The presence cycle of the `s` key: Online → Away → Invisible → Online.
pub open spec fn next_presence(s: PersonaState) -> PersonaState {
    match s {
        PersonaState::Online => PersonaState::Away,
        PersonaState::Away => PersonaState::Invisible,
        _ => PersonaState::Online,
    }
}

/// The friends list: move, reload (Web API only), cycle own presence and open a chat
/// (signed in only), switch tabs, help.
pub open spec fn friends_step(old: App, key: Key, new: App) -> bool {
    let signed_in = old.protocol_status is LoggedOn;
    let len = if signed_in {
        old.protocol_friends.len()
    } else {
        old.friends.len()
    };
    if is_list_move(key) {
        list_moved(
            old,
            key,
            new,
            old.friends_state.selected,
            len,
            |a: App, s: Option<usize>| set_friends_sel(a, s),
        )
    } else if key == Key::Char('r') {
        if signed_in {
            new == with_pending(old, false)
        } else {
            dispatched(old, new, IoEvent::LoadFriendIds, false)
        }
    } else if key == Key::Char('s') && signed_in {
        if old.friend_cmd_connected {
            let next = next_presence(old.own_persona_state);
            &&& new.outbox@ == old.outbox@.push(Effect::Friend(RunCommand::SetPersonaState(next)))
            &&& new == App {
                own_persona_state: next,
                outbox: new.outbox,
                pending_g: false,
                ..old
            }
        } else {
            new == with_pending(old, false)
        }
    } else if key == Key::Enter && signed_in {
        exists|order: Seq<usize>|
            is_stable_order(friend_keys(old.protocol_friends@), order) && covers(
                friend_keys(old.protocol_friends@),
                order,
            ) && match old.friends_state.selected {
                Some(sel) => if sel < order.len() {
                    &&& new.outbox@ == old.outbox@.push(
                        Effect::OpenConversation(old.protocol_friends@[order[sel as int] as int].steamid),
                    )
                    &&& new == App { outbox: new.outbox, pending_g: false, ..old }
                } else {
                    new == with_pending(old, false)
                },
                None => new == with_pending(old, false),
            }
    } else if number_tab(key) is Some {
        switched_tab(old, number_tab(key).unwrap(), new)
    } else if key == Key::Char('?') {
        focused(old, new, ActiveBlock::Help)
    } else {
        new == with_pending(old, false)
    }
}

pub fn handle_friends(app: &mut App, key: Key)
    requires
        old(app).wf(),
    ensures
        final(app).wf(),
        friends_step(*old(app), key, *final(app)),
{
    let signed_in = app.protocol_status.is_logged_on();
    match key {
        Key::Char('j') | Key::Down | Key::Char('k') | Key::Up | Key::Char('g') | Key::Char('G') => {
            let len = if signed_in {
                app.protocol_friends.len()
            } else {
                app.friends.len()
            };
            let mut sel = app.friends_state;
            move_in_list(app, key, &mut sel, len);
            app.friends_state = sel;
        },
        Key::Char('r') => {
            app.pending_g = false;
            if !signed_in {
                app.dispatch(IoEvent::LoadFriendIds);
            }
        },
        Key::Char('s') if signed_in => {
            app.pending_g = false;
            if app.friend_cmd_connected {
                let next = match app.own_persona_state {
                    PersonaState::Online => PersonaState::Away,
                    PersonaState::Away => PersonaState::Invisible,
                    _ => PersonaState::Online,
                };
                app.own_persona_state = next;
                app.outbox.push(Effect::Friend(RunCommand::SetPersonaState(next)));
            }
        },
        Key::Enter if signed_in => {
            app.pending_g = false;
            let target: Option<u64> = {
                let sorted = app.sorted_protocol_friends();
                match app.friends_state.selected() {
                    Some(sel) => if sel < sorted.len() {
                        Some(sorted[sel].steamid)
                    } else {
                        None
                    },
                    None => None,
                }
            };
            if let Some(steamid) = target {
                app.outbox.push(Effect::OpenConversation(steamid));
            }
        },
        Key::Char('1') => switch_tab(app, 0),
        Key::Char('2') => switch_tab(app, 1),
        Key::Char('3') => switch_tab(app, 2),
        Key::Char('4') => switch_tab(app, 3),
        Key::Char('5') => switch_tab(app, 4),
        Key::Char('?') => {
            app.pending_g = false;
            app.focus(ActiveBlock::Help);
        },
        _ => {
            app.pending_g = false;
        },
    }
}

/// A plain list screen (wishlist, news): move, reload, switch tabs, help.
pub open spec fn feed_step(
    old: App,
    key: Key,
    new: App,
    sel: Option<usize>,
    len: usize,
    set: spec_fn(App, Option<usize>) -> App,
    reload: IoEvent,
) -> bool {
    if is_list_move(key) {
        list_moved(old, key, new, sel, len, set)
    } else if key == Key::Char('r') {
        dispatched(old, new, reload, false)
    } else if number_tab(key) is Some && number_tab(key).unwrap() < 4 {
        switched_tab(old, number_tab(key).unwrap(), new)
    } else if key == Key::Char('?') {
        focused(old, new, ActiveBlock::Help)
    } else {
        new == with_pending(old, false)
    }
}

/// The number keys `'1'`..`'4'`, the help key, and any other key on a plain list screen.
fn feed_other_key(app: &mut App, key: Key)
    requires
        old(app).wf(),
        !is_list_move(key),
        key != Key::Char('r'),
    ensures
        final(app).wf(),
        number_tab(key) is Some && number_tab(key).unwrap() < 4 ==> switched_tab(
            *old(app),
            number_tab(key).unwrap(),
            *final(app),
        ),
        !(number_tab(key) is Some && number_tab(key).unwrap() < 4) && key == Key::Char('?') ==> focused(
            *old(app),
            *final(app),
            ActiveBlock::Help,
        ),
        !(number_tab(key) is Some && number_tab(key).unwrap() < 4) && key != Key::Char('?') ==> *final(app)
            == with_pending(*old(app), false),
{
    match key {
        Key::Char('1') => switch_tab(app, 0),
        Key::Char('2') => switch_tab(app, 1),
        Key::Char('3') => switch_tab(app, 2),
        Key::Char('4') => switch_tab(app, 3),
        Key::Char('?') => {
            app.pending_g = false;
            app.focus(ActiveBlock::Help);
        },
        _ => {
            app.pending_g = false;
        },
    }
}

pub fn handle_wishlist(app: &mut App, key: Key)
    requires
        old(app).wf(),
    ensures
        final(app).wf(),
        feed_step(
            *old(app),
            key,
            *final(app),
            old(app).wishlist_state.selected,
            old(app).wishlist.len(),
            |a: App, s: Option<usize>| set_wishlist_sel(a, s),
            IoEvent::LoadWishlist,
        ),
{
    if key == Key::Char('j') || key == Key::Down || key == Key::Char('k') || key == Key::Up || key
        == Key::Char('g') || key == Key::Char('G') {
        let len = app.wishlist.len();
        let mut sel = app.wishlist_state;
        move_in_list(app, key, &mut sel, len);
        app.wishlist_state = sel;
    } else if key == Key::Char('r') {
        app.pending_g = false;
        app.dispatch(IoEvent::LoadWishlist);
    } else {
        feed_other_key(app, key);
    }
}

pub fn handle_news(app: &mut App, key: Key)
    requires
        old(app).wf(),
    ensures
        final(app).wf(),
        feed_step(
            *old(app),
            key,
            *final(app),
            old(app).news_state.selected,
            old(app).news_feed.len(),
            |a: App, s: Option<usize>| set_news_sel(a, s),
            IoEvent::LoadNews,
        ),
{
    if key == Key::Char('j') || key == Key::Down || key == Key::Char('k') || key == Key::Up || key
        == Key::Char('g') || key == Key::Char('G') {
        let len = app.news_feed.len();
        let mut sel = app.news_state;
        move_in_list(app, key, &mut sel, len);
        app.news_state = sel;
    } else if key == Key::Char('r') {
        app.pending_g = false;
        app.dispatch(IoEvent::LoadNews);
    } else {
        feed_other_key(app, key);
    }
}

/// The conversation list: move, open the highlighted conversation, switch tabs, help.
pub open spec fn chat_list_step(old: App, key: Key, new: App) -> bool {
    if is_list_move(key) {
        list_moved(
            old,
            key,
            new,
            old.chat_list_state.selected,
            old.conversations.len(),
            |a: App, s: Option<usize>| set_chat_list_sel(a, s),
        )
    } else if key == Key::Enter {
        exists|order: Seq<usize>|
            is_stable_order(conv_keys(convs_view(old.conversations@)), order) && covers(
                conv_keys(convs_view(old.conversations@)),
                order,
            ) && match old.chat_list_state.selected {
                Some(sel) => if sel < order.len() {
                    &&& new.outbox@ == old.outbox@.push(
                        Effect::OpenConversation(old.conversations@[order[sel as int] as int].0),
                    )
                    &&& new == App { outbox: new.outbox, pending_g: false, ..old }
                } else {
                    new == with_pending(old, false)
                },
                None => new == with_pending(old, false),
            }
    } else if number_tab(key) is Some {
        switched_tab(old, number_tab(key).unwrap(), new)
    } else if key == Key::Char('?') {
        focused(old, new, ActiveBlock::Help)
    } else {
        new == with_pending(old, false)
    }
}

fn handle_chat_list(app: &mut App, key: Key)
    requires
        old(app).wf(),
    ensures
        final(app).wf(),
        chat_list_step(*old(app), key, *final(app)),
{
    match key {
        Key::Char('j') | Key::Down | Key::Char('k') | Key::Up | Key::Char('g') | Key::Char('G') => {
            let len = app.conversations.len();
            let mut sel = app.chat_list_state;
            move_in_list(app, key, &mut sel, len);
            app.chat_list_state = sel;
        },
        Key::Enter => {
            app.pending_g = false;
            let target: Option<u64> = {
                let order = app.conversation_order();
                match app.chat_list_state.selected() {
                    Some(sel) => if sel < order.len() {
                        Some(order[sel])
                    } else {
                        None
                    },
                    None => None,
                }
            };
            if let Some(steamid) = target {
                app.outbox.push(Effect::OpenConversation(steamid));
            }
        },
        Key::Char('1') => switch_tab(app, 0),
        Key::Char('2') => switch_tab(app, 1),
        Key::Char('3') => switch_tab(app, 2),
        Key::Char('4') => switch_tab(app, 3),
        Key::Char('5') => switch_tab(app, 4),
        Key::Char('?') => {
            app.pending_g = false;
            app.focus(ActiveBlock::Help);
        },
        _ => {
            app.pending_g = false;
        },
    }
}

/// The message composer: Enter sends, Esc returns to the list, typing edits the text (and
/// pings the friend, throttled), Up and Down scroll the history.
fn handle_composer(app: &mut App, key: Key, now_ms: u64)
    requires
        old(app).wf(),
    ensures
        final(app).wf(),
        match key {
            Key::Enter => chat_sent(*old(app), *final(app)),
            Key::Esc => {
                &&& final(app).navigation_stack@ == spec_focus(
                    old(app).navigation_stack@,
                    ActiveBlock::Chat,
                )
                &&& *final(app) == (App {
                    navigation_stack: final(app).navigation_stack,
                    ..*old(app)
                })
            },
            Key::Backspace => {
                &&& final(app).chat_input@ == if old(app).chat_input@.len() > 0 {
                    old(app).chat_input@.drop_last()
                } else {
                    old(app).chat_input@
                }
                &&& *final(app) == (App { chat_input: final(app).chat_input, ..*old(app) })
            },
            Key::Char(c) => {
                &&& final(app).chat_input@ == old(app).chat_input@.push(c)
                &&& typing_pinged(
                    App { chat_input: final(app).chat_input, ..*old(app) },
                    now_ms,
                    *final(app),
                )
            },
            Key::Up => *final(app) == (App {
                chat_scroll_back: if old(app).chat_scroll_back < usize::MAX {
                    (old(app).chat_scroll_back + 1) as usize
                } else {
                    old(app).chat_scroll_back
                },
                ..*old(app)
            }),
            Key::Down => *final(app) == (App {
                chat_scroll_back: if old(app).chat_scroll_back > 0 {
                    (old(app).chat_scroll_back - 1) as usize
                } else {
                    0usize
                },
                ..*old(app)
            }),
            _ => *final(app) == *old(app),
        },
{
    match key {
        Key::Enter => app.send_chat_message(),
        Key::Esc => {
            app.focus(ActiveBlock::Chat);
        },
        Key::Backspace => {
            pop_char(&mut app.chat_input);
        },
        Key::Char(c) => {
            push_char(&mut app.chat_input, c);
            app.notify_typing(now_ms);
        },
        Key::Up => {
            if app.chat_scroll_back < usize::MAX {
                app.chat_scroll_back = app.chat_scroll_back + 1;
            }
        },
        Key::Down => {
            if app.chat_scroll_back > 0 {
                app.chat_scroll_back = app.chat_scroll_back - 1;
            }
        },
        _ => {},
    }
}

/// The chat screen: the composer when it has the keyboard, else the conversation list.
pub fn handle_chat(app: &mut App, key: Key, now_ms: u64)
    requires
        old(app).wf(),
    ensures
        final(app).wf(),
        old(app).spec_route().active_block != ActiveBlock::ChatComposer ==> chat_list_step(
            *old(app),
            key,
            *final(app),
        ),
{
    if app.active_block() == ActiveBlock::ChatComposer {
        handle_composer(app, key, now_ms);
    } else {
        handle_chat_list(app, key);
    }
}

/// The quick-launch overlay: move, launch the highlighted game and close, or close.
pub open spec fn quick_launch_step(old: App, key: Key, new: App) -> bool {
    match key {
        Key::Char('j') | Key::Down => new == set_quick_launch_sel(
            old,
            spec_scroll_down(old.quick_launch_state.selected, old.recently_played_appids.len()),
        ),
        Key::Char('k') | Key::Up => new == set_quick_launch_sel(
            old,
            spec_scroll_up(old.quick_launch_state.selected),
        ),
        Key::Enter => {
            &&& new.navigation_stack@ == spec_focus(old.navigation_stack@, ActiveBlock::Library)
            &&& new.outbox@ == match old.quick_launch_state.selected {
                Some(sel) => if sel < old.recently_played_appids@.len() {
                    old.outbox@.push(
                        Effect::Io(IoEvent::LaunchGame(old.recently_played_appids@[sel as int])),
                    )
                } else {
                    old.outbox@
                },
                None => old.outbox@,
            }
            &&& new == App { navigation_stack: new.navigation_stack, outbox: new.outbox, ..old }
        },
        Key::Esc | Key::Char('q') | Key::Char('L') => {
            &&& new.navigation_stack@ == spec_focus(old.navigation_stack@, ActiveBlock::Library)
            &&& new == App { navigation_stack: new.navigation_stack, ..old }
        },
        _ => new == old,
    }
}

pub fn handle_quick_launch(app: &mut App, key: Key)
    requires
        old(app).wf(),
    ensures
        final(app).wf(),
        quick_launch_step(*old(app), key, *final(app)),
{
    match key {
        Key::Char('j') | Key::Down => {
            let len = app.recently_played_appids.len();
            App::scroll_down(&mut app.quick_launch_state, len);
        },
        Key::Char('k') | Key::Up => {
            App::scroll_up(&mut app.quick_launch_state);
        },
        Key::Enter => {
            if let Some(appid) = app.selected_quick_launch_appid() {
                app.dispatch(IoEvent::LaunchGame(appid));
            }
            app.close_quick_launch();
        },
        Key::Esc | Key::Char('q') | Key::Char('L') => app.close_quick_launch(),
        _ => {},
    }
}

/// `new` is `old` with the sign-in cancelled: a cancel command queued and the status back to
/// disconnected.
pub open spec fn sign_in_cancelled(old: App, new: App) -> bool {
    &&& new.outbox@ == old.outbox@.push(Effect::Protocol(ProtocolCommand::Cancel))
    &&& new == App { outbox: new.outbox, protocol_status: ProtocolStatus::Disconnected, ..old }
}

/// Keys during sign-in: a Steam Guard code is typed, edited, submitted with Enter or
/// cancelled with Esc; a device confirmation, QR scan or connection attempt can be
/// cancelled with Esc.
pub open spec fn auth_step(old: App, key: Key, new: App) -> bool {
    match old.protocol_status {
        ProtocolStatus::AwaitingGuardCode { kind } => if kind == ProtocolGuardKind::EmailCode || kind
            == ProtocolGuardKind::DeviceCode {
            match key {
                Key::Enter => if old.protocol_input@.len() == 0 {
                    new == old
                } else {
                    &&& new.outbox@ == old.outbox@.push(
                        Effect::Protocol(ProtocolCommand::SubmitGuardCode(old.protocol_input)),
                    )
                    &&& new.protocol_input@.len() == 0
                    &&& new == App {
                        outbox: new.outbox,
                        protocol_input: new.protocol_input,
                        protocol_status: ProtocolStatus::Connecting,
                        ..old
                    }
                },
                Key::Backspace => {
                    &&& new.protocol_input@ == if old.protocol_input@.len() > 0 {
                        old.protocol_input@.drop_last()
                    } else {
                        old.protocol_input@
                    }
                    &&& new == App { protocol_input: new.protocol_input, ..old }
                },
                Key::Esc => {
                    &&& new.protocol_input@.len() == 0
                    &&& sign_in_cancelled(App { protocol_input: new.protocol_input, ..old }, new)
                },
                Key::Char(c) => if !spec_is_control(c) {
                    &&& new.protocol_input@ == old.protocol_input@.push(c)
                    &&& new == App { protocol_input: new.protocol_input, ..old }
                } else {
                    new == old
                },
                _ => new == old,
            }
        } else if key == Key::Esc {
            sign_in_cancelled(old, new)
        } else {
            new == old
        },
        ProtocolStatus::AwaitingQrScan { .. } | ProtocolStatus::Connecting => if key == Key::Esc {
            sign_in_cancelled(old, new)
        } else {
            new == old
        },
        _ => new == old,
    }
}

pub fn handle_auth(app: &mut App, key: Key)
    ensures
        auth_step(*old(app), key, *final(app)),
{
    let (code_entry, cancellable) = match &app.protocol_status {
        ProtocolStatus::AwaitingGuardCode { kind } => (
            *kind == ProtocolGuardKind::EmailCode || *kind == ProtocolGuardKind::DeviceCode,
            true,
        ),
        ProtocolStatus::AwaitingQrScan { .. } | ProtocolStatus::Connecting => (false, true),
        _ => (false, false),
    };
    if code_entry {
        match key {
            Key::Enter => app.submit_guard_code(),
            Key::Backspace => {
                pop_char(&mut app.protocol_input);
            },
            Key::Esc => {
                app.outbox.push(Effect::Protocol(ProtocolCommand::Cancel));
                app.protocol_status = ProtocolStatus::Disconnected;
                app.protocol_input = String::new();
            },
            Key::Char(c) => {
                if !is_control(c) {
                    push_char(&mut app.protocol_input, c);
                }
            },
            _ => {},
        }
    } else if cancellable && key == Key::Esc {
        app.outbox.push(Effect::Protocol(ProtocolCommand::Cancel));
        app.protocol_status = ProtocolStatus::Disconnected;
    }
}

/// Where a key goes: the sign-in modal takes every key; an error is dismissed with Esc and
/// swallows other keys; help closes with `?`, Esc or `q`; otherwise the focused block gets
/// the key.
pub fn handle_key(app: &mut App, key: Key, now_ms: u64)
    requires
        old(app).wf(),
    ensures
        final(app).wf(),
        old(app).protocol_status.spec_modal_visible() ==> auth_step(*old(app), key, *final(app)),
        !old(app).protocol_status.spec_modal_visible() && old(app).error is Some ==> *final(app)
            == if key == Key::Esc {
            App { error: None, ..*old(app) }
        } else {
            *old(app)
        },
        !old(app).protocol_status.spec_modal_visible() && old(app).error is None
            && old(app).spec_route().active_block == ActiveBlock::Help ==> if key == Key::Char('?')
            || key == Key::Esc || key == Key::Char('q') {
            &&& final(app).navigation_stack@ == spec_focus(
                old(app).navigation_stack@,
                ActiveBlock::Library,
            )
            &&& *final(app) == (App { navigation_stack: final(app).navigation_stack, ..*old(app) })
        } else {
            *final(app) == *old(app)
        },
        !old(app).protocol_status.spec_modal_visible() && old(app).error is None ==> {
            let block = old(app).spec_route().active_block;
            &&& block == ActiveBlock::Search ==> search_step(*old(app), key, *final(app))
            &&& block == ActiveBlock::Library ==> library_step(*old(app), key, *final(app))
            &&& block == ActiveBlock::GameDetail ==> game_detail_step(*old(app), key, *final(app))
            &&& block == ActiveBlock::Friends ==> friends_step(*old(app), key, *final(app))
            &&& block == ActiveBlock::Wishlist ==> feed_step(
                *old(app),
                key,
                *final(app),
                old(app).wishlist_state.selected,
                old(app).wishlist.len(),
                |a: App, s: Option<usize>| set_wishlist_sel(a, s),
                IoEvent::LoadWishlist,
            )
            &&& block == ActiveBlock::News ==> feed_step(
                *old(app),
                key,
                *final(app),
                old(app).news_state.selected,
                old(app).news_feed.len(),
                |a: App, s: Option<usize>| set_news_sel(a, s),
                IoEvent::LoadNews,
            )
            &&& block == ActiveBlock::Chat ==> chat_list_step(*old(app), key, *final(app))
            &&& block == ActiveBlock::QuickLaunch ==> quick_launch_step(*old(app), key, *final(app))
            &&& block == ActiveBlock::Error ==> *final(app) == *old(app)
        },
{
    if app.protocol_modal_active() {
        handle_auth(app, key);
        return;
    }
    if app.error.is_some() {
        if key == Key::Esc {
            app.clear_error();
        }
        return;
    }
    let block = app.active_block();
    if block == ActiveBlock::Help {
        if key == Key::Char('?') || key == Key::Esc || key == Key::Char('q') {
            app.focus(ActiveBlock::Library);
        }
        return;
    }
    match block {
        ActiveBlock::Search => handle_search(app, key),
        ActiveBlock::Library => handle_library(app, key),
        ActiveBlock::GameDetail => handle_game_detail(app, key),
        ActiveBlock::Friends => handle_friends(app, key),
        ActiveBlock::Wishlist => handle_wishlist(app, key),
        ActiveBlock::News => handle_news(app, key),
        ActiveBlock::Chat | ActiveBlock::ChatComposer => handle_chat(app, key, now_ms),
        ActiveBlock::QuickLaunch => handle_quick_launch(app, key),
        ActiveBlock::Help | ActiveBlock::Error => {},
    }
}

/// What the input loop does with a key.
#[derive(Debug, Clone, Copy, PartialEq, Eq, Structural)]
pub enum KeyRoute {
    Quit,
    Handle,
}

/// Whether a key quits the client or goes to [`handle_key`]. During sign-in every key is
/// handled; in a text input (search, composer) and in the quick-launch overlay only Ctrl+C
/// quits, so `q` can be typed or close the overlay; elsewhere `q` and Ctrl+C quit.
pub fn route_key(app: &App, key: Key) -> (r: KeyRoute)
    requires
        app.wf(),
    ensures
        r == if app.protocol_status.spec_modal_visible() {
            KeyRoute::Handle
        } else if app.is_searching || app.spec_route().active_block == ActiveBlock::ChatComposer
            || app.spec_route().active_block == ActiveBlock::QuickLaunch {
            if key == Key::Ctrl('c') {
                KeyRoute::Quit
            } else {
                KeyRoute::Handle
            }
        } else if key == Key::Char('q') || key == Key::Ctrl('c') {
            KeyRoute::Quit
        } else {
            KeyRoute::Handle
        },
{
    if app.protocol_modal_active() {
        return KeyRoute::Handle;
    }
    if app.is_text_input_active() || app.modal_overlay_active() {
        if key == Key::Ctrl('c') {
            return KeyRoute::Quit;
        }
        return KeyRoute::Handle;
    }
    if key == Key::Char('q') || key == Key::Ctrl('c') {
        KeyRoute::Quit
    } else {
        KeyRoute::Handle
    }
}

} // verus!
