use steamie::chat_history::ChatMessage;
use steamie::config::{AuthMethod, Config};
use steamie::handlers::{handle_key, route_key, switch_tab, KeyRoute};
use steamie::keys::{Key, KeyCode};
use steamie::library::{sort_library_games, ProtocolAchievement, ProtocolGame};
use steamie::loading::{sort_news, sort_wishlist};
use steamie::models::{Game, NewsItem, PlayerSummary, WishlistItem};
use steamie::protocol::{
    account_name_hint, build_bootstrap, fallback_after_failure, merge_personas,
    should_retry_auth, AuthState, LoginMethod, Persona, PersonaState, ProtocolBootstrap,
    ProtocolCommand, ProtocolGuardKind, ProtocolStatus, RunCommand,
};
use steamie::routes::{ActiveBlock, IoEvent, Route, RouteId};
use steamie::ui::{App, AppTypeFilter, Effect, ListSelection};

fn game(appid: u32, name: Option<&str>, playtime: u32, app_type: Option<&str>) -> Game {
    Game {
        appid,
        name: name.map(|n| n.to_owned()),
        playtime_forever: playtime,
        img_icon_url: None,
        rtime_last_played: None,
        app_type: app_type.map(|t| t.to_owned()),
    }
}

fn persona(steamid: u64, name: &str, state: PersonaState, game: Option<u32>) -> Persona {
    Persona {
        steamid,
        name: name.to_owned(),
        state,
        game_app_id: game,
        game_name: None,
        avatar_hash: None,
        game_fields_present: true,
    }
}

fn msg(steamid: u64, timestamp: u32, text: &str) -> ChatMessage {
    ChatMessage {
        steamid,
        message: text.to_owned(),
        timestamp,
        ordinal: 0,
        from_local: false,
    }
}

fn app_with_games(games: Vec<Game>) -> App {
    let mut app = App::new(Config::default());
    app.games = games;
    app.update_search();
    app
}

fn protocol_game(appid: u32, name: &str, playtime: i32, last: u32, app_type: Option<&str>) -> ProtocolGame {
    ProtocolGame {
        appid,
        name: name.to_owned(),
        playtime_forever: playtime,
        rtime_last_played: last,
        img_icon_url: None,
        app_type: app_type.map(|t| t.to_owned()),
        installdir: None,
        launch: vec![],
    }
}

// ---- Type filter ----

#[test]
fn type_filter_cycles_through_three_labels() {
    let f = AppTypeFilter::default();
    assert_eq!(f, AppTypeFilter::All);
    assert_eq!(f.label(), "All");
    assert_eq!(f.cycle().label(), "Games");
    assert_eq!(f.cycle().cycle().label(), "Software/Tools");
    assert_eq!(f.cycle().cycle().cycle(), f);
}

#[test]
fn type_filter_treats_untyped_entries_as_games() {
    assert!(AppTypeFilter::All.matches(None));
    assert!(AppTypeFilter::Games.matches(None));
    assert!(AppTypeFilter::Games.matches(Some("game")));
    assert!(!AppTypeFilter::Games.matches(Some("tool")));
    assert!(!AppTypeFilter::SoftwareTools.matches(None));
    assert!(AppTypeFilter::SoftwareTools.matches(Some("application")));
    assert!(AppTypeFilter::SoftwareTools.matches(Some("tool")));
    assert!(!AppTypeFilter::SoftwareTools.matches(Some("game")));
}

// ---- Routes and keys ----

#[test]
fn routes_start_their_loads() {
    assert_eq!(Route::library().load_event(), Some(IoEvent::LoadLibrary));
    assert_eq!(Route::friends().load_event(), Some(IoEvent::LoadFriendIds));
    assert_eq!(Route::wishlist().load_event(), Some(IoEvent::LoadWishlist));
    assert_eq!(Route::news().load_event(), Some(IoEvent::LoadNews));
    assert_eq!(Route::game_detail().load_event(), None);
    assert_eq!(Route::chat().load_event(), None);
    assert_eq!(Route::chat().active_block, ActiveBlock::Chat);
}

#[test]
fn key_codes_map_control_characters() {
    assert_eq!(Key::from_code(KeyCode::Char('c'), true), Key::Ctrl('c'));
    assert_eq!(Key::from_code(KeyCode::Char('c'), false), Key::Char('c'));
    assert_eq!(Key::from_code(KeyCode::Other, false), Key::Unknown);
    assert_eq!(Key::from_code(KeyCode::BackTab, false), Key::BackTab);
}

// ---- Sign-in ----

#[test]
fn sign_in_modal_and_code_entry_states() {
    assert!(ProtocolStatus::Connecting.modal_visible());
    assert!(ProtocolStatus::AwaitingQrScan { qr_url: "u".to_owned() }.modal_visible());
    assert!(!ProtocolStatus::Disconnected.modal_visible());
    assert!(!ProtocolStatus::LoggedOn { account_name: "a".to_owned() }.modal_visible());
    assert!(ProtocolStatus::AwaitingGuardCode { kind: ProtocolGuardKind::EmailCode }.accepts_text_input());
    assert!(!ProtocolStatus::AwaitingGuardCode { kind: ProtocolGuardKind::DeviceConfirmation }
        .accepts_text_input());
}

#[test]
fn bootstrap_prefers_stored_token_with_configured_fallback() {
    let stored = AuthState { account_name: "alice".to_owned(), refresh_token: "tok".to_owned() };
    let b = build_bootstrap(AuthMethod::Qr, Some(stored), None);
    assert_eq!(b.primary, LoginMethod::RefreshToken("tok".to_owned()));
    assert_eq!(b.fallback, Some(LoginMethod::Qr));
    assert_eq!(fallback_after_failure(b), Some(LoginMethod::Qr));

    let b = build_bootstrap(
        AuthMethod::Credentials,
        None,
        Some(("alice".to_owned(), "pw".to_owned())),
    );
    assert_eq!(
        b.primary,
        LoginMethod::Credentials { account: "alice".to_owned(), password: "pw".to_owned() }
    );
    assert_eq!(b.fallback, None);

    let b = build_bootstrap(AuthMethod::Credentials, None, None);
    assert_eq!(b, ProtocolBootstrap { primary: LoginMethod::Qr, fallback: None });
    assert_eq!(fallback_after_failure(b), None);
}

#[test]
fn only_interactive_sign_in_retries_on_closed_connection() {
    assert!(should_retry_auth(&LoginMethod::Qr, true));
    assert!(!should_retry_auth(&LoginMethod::Qr, false));
    assert!(!should_retry_auth(&LoginMethod::RefreshToken("t".to_owned()), true));
}

#[test]
fn account_hint_prefers_configuration() {
    let stored = AuthState { account_name: "bob".to_owned(), refresh_token: "t".to_owned() };
    assert_eq!(account_name_hint(Some("alice".to_owned()), Some(&stored)), Some("alice".to_owned()));
    assert_eq!(account_name_hint(None, Some(&stored)), Some("bob".to_owned()));
    assert_eq!(account_name_hint(None, None), None);
}

#[test]
fn guard_code_is_typed_and_submitted() {
    let mut app = App::new(Config::default());
    app.protocol_status = ProtocolStatus::AwaitingGuardCode { kind: ProtocolGuardKind::EmailCode };
    for c in ['A', 'B', '\u{7}', 'C'] {
        handle_key(&mut app, Key::Char(c), 0);
    }
    handle_key(&mut app, Key::Backspace, 0);
    assert_eq!(app.protocol_input, "AB");
    handle_key(&mut app, Key::Enter, 0);
    assert_eq!(app.protocol_status, ProtocolStatus::Connecting);
    assert!(app.protocol_input.is_empty());
    assert_eq!(
        app.take_outbox(),
        vec![Effect::Protocol(ProtocolCommand::SubmitGuardCode("AB".to_owned()))]
    );
    handle_key(&mut app, Key::Esc, 0);
    assert_eq!(app.protocol_status, ProtocolStatus::Disconnected);
    assert_eq!(app.take_outbox(), vec![Effect::Protocol(ProtocolCommand::Cancel)]);
}

// ---- Friends ----

#[test]
fn presence_reports_update_known_friends_in_place() {
    let mut known = vec![persona(1, "Ann", PersonaState::Online, Some(10))];
    let mut update = persona(1, "", PersonaState::Away, None);
    update.game_fields_present = false;
    merge_personas(&mut known, vec![update, persona(2, "Bo", PersonaState::Offline, None)]);
    assert_eq!(known.len(), 2);
    assert_eq!(known[0].name, "Ann");
    assert_eq!(known[0].state, PersonaState::Away);
    assert_eq!(known[0].game_app_id, Some(10));
    assert_eq!(known[1].steamid, 2);
}

#[test]
fn friends_sort_in_game_then_online_then_offline_by_name() {
    let mut app = App::new(Config::default());
    app.protocol_friends = vec![
        persona(1, "zed", PersonaState::Offline, None),
        persona(2, "Bea", PersonaState::Online, None),
        persona(3, "amy", PersonaState::Online, None),
        persona(4, "Max", PersonaState::Invisible, Some(730)),
        persona(5, "cal", PersonaState::Invisible, None),
    ];
    let order: Vec<u64> = app.sorted_protocol_friends().iter().map(|p| p.steamid).collect();
    assert_eq!(order, vec![4, 3, 2, 5, 1]);
    assert_eq!(app.friend_name(2), "Bea");
    assert_eq!(app.friend_name(99), "99");
}

#[test]
fn persona_state_cycles_when_signed_in() {
    let mut app = App::new(Config::default());
    app.protocol_status = ProtocolStatus::LoggedOn { account_name: "a".to_owned() };
    app.friend_cmd_connected = true;
    switch_tab(&mut app, 1);
    assert!(app.take_outbox().is_empty());
    handle_key(&mut app, Key::Char('s'), 0);
    assert_eq!(app.own_persona_state, PersonaState::Away);
    handle_key(&mut app, Key::Char('s'), 0);
    assert_eq!(app.own_persona_state, PersonaState::Invisible);
    handle_key(&mut app, Key::Char('s'), 0);
    assert_eq!(app.own_persona_state, PersonaState::Online);
    assert_eq!(
        app.take_outbox(),
        vec![
            Effect::Friend(RunCommand::SetPersonaState(PersonaState::Away)),
            Effect::Friend(RunCommand::SetPersonaState(PersonaState::Invisible)),
            Effect::Friend(RunCommand::SetPersonaState(PersonaState::Online)),
        ]
    );
}

#[test]
fn enter_on_a_friend_opens_that_conversation() {
    let mut app = App::new(Config::default());
    app.protocol_status = ProtocolStatus::LoggedOn { account_name: "a".to_owned() };
    app.protocol_friends = vec![
        persona(1, "zed", PersonaState::Offline, None),
        persona(2, "amy", PersonaState::Online, None),
    ];
    switch_tab(&mut app, 1);
    handle_key(&mut app, Key::Char('j'), 0);
    handle_key(&mut app, Key::Enter, 0);
    assert_eq!(app.take_outbox(), vec![Effect::OpenConversation(1)]);
}

// ---- Library ----

#[test]
fn library_sorts_by_playtime_then_name_then_appid() {
    let mut games = vec![
        game(3, Some("beta"), 5, None),
        game(1, None, 5, None),
        game(2, Some("Alpha"), 5, None),
        game(9, Some("zulu"), 50, None),
        game(4, Some("alpha"), 5, None),
    ];
    sort_library_games(&mut games);
    let ids: Vec<u32> = games.iter().map(|g| g.appid).collect();
    assert_eq!(ids, vec![9, 2, 4, 3, 1]);
}

#[test]
fn search_filters_by_lowercased_name_and_type() {
    let mut app = app_with_games(vec![
        game(1, Some("Portal"), 0, Some("game")),
        game(2, Some("Portal SDK"), 0, Some("tool")),
        game(3, Some("Half-Life"), 0, None),
    ]);
    assert_eq!(app.filtered_games, vec![0, 1, 2]);
    handle_key(&mut app, Key::Char('/'), 0);
    assert!(app.is_text_input_active());
    for c in "PORT".chars() {
        handle_key(&mut app, Key::Char(c), 0);
    }
    assert_eq!(app.filtered_games, vec![0, 1]);
    handle_key(&mut app, Key::Enter, 0);
    assert_eq!(app.active_block(), ActiveBlock::Library);
    handle_key(&mut app, Key::Char('t'), 0);
    assert_eq!(app.app_type_filter, AppTypeFilter::Games);
    assert_eq!(app.filtered_games, vec![0]);
    handle_key(&mut app, Key::Char('t'), 0);
    assert_eq!(app.filtered_games, vec![1]);
    assert_eq!(app.library_state.selected, Some(0));
}

#[test]
fn unknown_names_fall_back_to_the_lookup_cache() {
    let mut app = app_with_games(vec![game(7, Some(""), 0, None)]);
    assert_eq!(app.game_display_name(&app.games[0]), "Unknown Game");
    app.game_names_loaded(vec![(7, "Seven".to_owned())]);
    assert_eq!(app.game_display_name(&app.games[0]), "Seven");
}

#[test]
fn list_keys_move_within_bounds() {
    let mut app = app_with_games(vec![game(1, Some("a"), 0, None), game(2, Some("b"), 0, None)]);
    handle_key(&mut app, Key::Char('j'), 0);
    handle_key(&mut app, Key::Char('j'), 0);
    assert_eq!(app.library_state.selected, Some(1));
    handle_key(&mut app, Key::Char('k'), 0);
    handle_key(&mut app, Key::Char('k'), 0);
    assert_eq!(app.library_state.selected, Some(0));
    handle_key(&mut app, Key::Char('G'), 0);
    assert_eq!(app.library_state.selected, Some(1));
    handle_key(&mut app, Key::Char('g'), 0);
    assert!(app.pending_g);
    handle_key(&mut app, Key::Char('g'), 0);
    assert_eq!(app.library_state.selected, Some(0));
    assert!(!app.pending_g);
    assert_eq!(app.selected_library_appid(), Some(1));
}

#[test]
fn enter_opens_game_detail_and_esc_returns() {
    let mut app = app_with_games(vec![game(440, Some("TF2"), 0, None)]);
    handle_key(&mut app, Key::Enter, 0);
    assert_eq!(app.current_route().id, RouteId::GameDetail);
    assert_eq!(
        app.take_outbox(),
        vec![Effect::Io(IoEvent::LoadGameDetail(440)), Effect::Io(IoEvent::LoadAchievements(440))]
    );
    handle_key(&mut app, Key::Esc, 0);
    assert_eq!(app.current_route().id, RouteId::Library);
    handle_key(&mut app, Key::Esc, 0);
    assert_eq!(app.navigation_stack.len(), 1);
}

#[test]
fn owned_games_report_fills_library_and_recent_list() {
    let mut app = App::new(Config::default());
    app.loading.library = true;
    app.apply_owned_games(vec![
        protocol_game(10, "", -5, 0, None),
        protocol_game(20, "Played", 100, 1_700_000_000, Some("game")),
    ]);
    assert!(!app.loading.library);
    assert_eq!(app.games[0].appid, 20);
    assert_eq!(app.games[1].name, None);
    assert_eq!(app.games[1].playtime_forever, 0);
    assert_eq!(app.recently_played_appids, vec![20]);
    assert_eq!(app.filtered_games, vec![0, 1]);
    assert_eq!(app.game_name_cache, vec![(10, String::new())]);
    assert_eq!(app.take_outbox(), vec![Effect::Io(IoEvent::LookupGameNames(vec![10]))]);
}

#[test]
fn achievements_sort_unlocked_first_then_by_name() {
    let mut app = App::new(Config::default());
    let ach = |api: &str, done: bool, name: Option<&str>| ProtocolAchievement {
        apiname: api.to_owned(),
        achieved: done,
        unlocktime: 0,
        name: name.map(|n| n.to_owned()),
        description: None,
    };
    app.apply_achievements(vec![
        ach("z", false, Some("Alpha")),
        ach("b", true, None),
        ach("a", true, Some("Zeta")),
    ]);
    let names: Vec<&str> = app.achievements.iter().map(|a| a.display_name()).collect();
    assert_eq!(names, vec!["Zeta", "b", "Alpha"]);
    assert!(app.achievements[0].is_unlocked());
}

// ---- Tabs, help, errors, quitting ----

#[test]
fn number_keys_switch_tabs_and_start_loading() {
    let mut app = App::new(Config::default());
    handle_key(&mut app, Key::Char('4'), 0);
    assert_eq!(app.navigation_stack, vec![Route::news()]);
    handle_key(&mut app, Key::Char('3'), 0);
    assert_eq!(app.navigation_stack, vec![Route::wishlist()]);
    assert_eq!(
        app.take_outbox(),
        vec![Effect::Io(IoEvent::LoadNews), Effect::Io(IoEvent::LoadWishlist)]
    );
    switch_tab(&mut app, 7);
    assert_eq!(app.navigation_stack, vec![Route::wishlist()]);
}

#[test]
fn help_and_error_overlays_take_keys() {
    let mut app = App::new(Config::default());
    handle_key(&mut app, Key::Char('?'), 0);
    assert_eq!(app.active_block(), ActiveBlock::Help);
    handle_key(&mut app, Key::Char('j'), 0);
    assert_eq!(app.active_block(), ActiveBlock::Help);
    handle_key(&mut app, Key::Esc, 0);
    assert_eq!(app.active_block(), ActiveBlock::Library);
    app.set_error("boom".to_owned());
    handle_key(&mut app, Key::Char('r'), 0);
    assert!(app.take_outbox().is_empty());
    handle_key(&mut app, Key::Esc, 0);
    assert!(app.error.is_none());
}

#[test]
fn q_quits_except_while_typing_or_in_overlays() {
    let mut app = App::new(Config::default());
    assert_eq!(route_key(&app, Key::Char('q')), KeyRoute::Quit);
    app.is_searching = true;
    assert_eq!(route_key(&app, Key::Char('q')), KeyRoute::Handle);
    assert_eq!(route_key(&app, Key::Ctrl('c')), KeyRoute::Quit);
    app.is_searching = false;
    app.open_quick_launch();
    assert_eq!(route_key(&app, Key::Char('q')), KeyRoute::Handle);
    app.protocol_status = ProtocolStatus::Connecting;
    assert_eq!(route_key(&app, Key::Ctrl('c')), KeyRoute::Handle);
}

#[test]
fn quick_launch_lists_recent_games_and_launches() {
    let mut app = app_with_games(vec![game(440, Some("TF2"), 0, None)]);
    app.recently_played_appids = vec![570, 440];
    app.game_name_cache = vec![(570, "Dota 2".to_owned())];
    assert_eq!(
        app.quick_launch_entries(),
        vec![(570, "Dota 2".to_owned()), (440, "TF2".to_owned())]
    );
    app.recently_played_appids.push(1);
    assert_eq!(app.quick_launch_entries()[2], (1, "appid 1".to_owned()));
    app.open_quick_launch();
    assert!(app.modal_overlay_active());
    handle_key(&mut app, Key::Char('j'), 0);
    handle_key(&mut app, Key::Enter, 0);
    assert_eq!(app.take_outbox(), vec![Effect::Io(IoEvent::LaunchGame(440))]);
    assert_eq!(app.active_block(), ActiveBlock::Library);
}

// ---- Conversations ----

#[test]
fn opening_a_conversation_focuses_the_composer_and_clears_unread() {
    let mut app = App::new(Config::default());
    app.friend_cmd_connected = true;
    app.record_message(msg(5, 100, "hi"), vec![msg(5, 50, "old")], true);
    assert_eq!(app.conversations[0].1.unread, 1);
    assert_eq!(
        app.take_outbox(),
        vec![Effect::SaveConversation(5), Effect::Notify { steamid: 5, desktop: false }]
    );
    app.open_conversation(5, vec![]);
    assert_eq!(app.conversations[0].1.unread, 0);
    assert_eq!(app.conversations[0].1.messages.len(), 2);
    assert_eq!(
        app.navigation_stack,
        vec![Route { id: RouteId::Chat, active_block: ActiveBlock::ChatComposer }]
    );
    assert!(app.is_viewing_conversation(5));
    assert_eq!(app.take_outbox(), vec![Effect::Friend(RunCommand::GetRecentMessages { steamid: 5 })]);
    // While viewing, a new message neither counts as unread nor alerts.
    app.record_message(msg(5, 200, "again"), vec![], true);
    assert_eq!(app.conversations[0].1.unread, 0);
    assert_eq!(app.take_outbox(), vec![Effect::SaveConversation(5)]);
}

#[test]
fn composer_sends_trimmed_text_and_throttles_typing() {
    let mut app = App::new(Config::default());
    app.friend_cmd_connected = true;
    app.open_conversation(5, vec![]);
    app.take_outbox();
    handle_key(&mut app, Key::Char(' '), 1_000);
    handle_key(&mut app, Key::Char('h'), 2_000);
    handle_key(&mut app, Key::Char('i'), 5_000);
    assert_eq!(
        app.take_outbox(),
        vec![
            Effect::Friend(RunCommand::SendTyping { steamid: 5 }),
            Effect::Friend(RunCommand::SendTyping { steamid: 5 }),
        ]
    );
    handle_key(&mut app, Key::Enter, 6_000);
    assert!(app.chat_input.is_empty());
    assert_eq!(
        app.take_outbox(),
        vec![Effect::Friend(RunCommand::SendMessage { steamid: 5, message: "hi".to_owned() })]
    );
    handle_key(&mut app, Key::Up, 0);
    handle_key(&mut app, Key::Up, 0);
    handle_key(&mut app, Key::Down, 0);
    assert_eq!(app.chat_scroll_back, 1);
    handle_key(&mut app, Key::Esc, 0);
    assert_eq!(app.active_block(), ActiveBlock::Chat);
}

#[test]
fn conversations_order_by_latest_message_and_sum_unread() {
    let mut app = App::new(Config::default());
    app.record_message(msg(1, 100, "a"), vec![], true);
    app.record_message(msg(2, 300, "b"), vec![], true);
    app.record_message(msg(3, 200, "c"), vec![], true);
    app.record_message(msg(3, 250, "d"), vec![], true);
    assert_eq!(app.conversation_order(), vec![2, 3, 1]);
    assert_eq!(app.total_unread(), 4);
    app.record_history(1, vec![msg(1, 100, "a")], vec![]);
    assert_eq!(app.conversation_messages(1).len(), 1);
}

// ---- Background loads ----

#[test]
fn failed_library_hides_credential_errors() {
    let mut app = App::new(Config::default());
    app.loading.library = true;
    app.library_failed("missing api_key".to_owned());
    assert!(app.error.is_none());
    assert!(!app.loading.library);
    app.library_failed("network down".to_owned());
    assert_eq!(app.error.as_deref(), Some("network down"));
}

#[test]
fn friend_pages_chain_until_all_summaries_load() {
    let mut app = App::new(Config::default());
    let ids: Vec<String> = (0..150).map(|i| i.to_string()).collect();
    app.friend_ids_loaded(ids);
    assert_eq!(app.take_outbox(), vec![Effect::Io(IoEvent::LoadFriendPage(0))]);
    assert_eq!(app.friend_page(0).len(), 100);
    assert_eq!(app.friend_page(1).len(), 50);
    assert!(app.friend_page(2).is_empty());
    let summary = |id: &str, state: u8, game: Option<&str>| PlayerSummary {
        steamid: id.to_owned(),
        personaname: id.to_owned(),
        avatarfull: None,
        personastate: state,
        gameid: game.map(|g| g.to_owned()),
        gameextrainfo: None,
    };
    app.friend_page_loaded(0, vec![summary("a", 0, None), summary("b", 1, None), summary("c", 0, Some("1"))]);
    let order: Vec<&str> = app.friends.iter().map(|p| p.steamid.as_str()).collect();
    assert_eq!(order, vec!["c", "b", "a"]);
    assert_eq!(app.take_outbox(), vec![Effect::Io(IoEvent::LoadFriendPage(1))]);
    assert_eq!(app.friends[0].persona_state_label(), "Offline");
    assert!(app.friends[0].is_in_game());
}

#[test]
fn news_uses_library_then_recent_then_wishlist() {
    let mut app = App::new(Config::default());
    assert!(app.begin_load_news().is_empty());
    assert!(!app.loading.news);
    app.wishlist = vec![WishlistItem {
        appid: 9,
        name: "w".to_owned(),
        priority: 0,
        added: 0,
        capsule: None,
    }];
    assert_eq!(app.begin_load_news(), vec![9]);
    app.recently_played_appids = vec![5];
    assert_eq!(app.begin_load_news(), vec![5]);
    app.games = (0..30).map(|i| game(i, None, 0, None)).collect();
    assert_eq!(app.begin_load_news().len(), 20);
    let item = |date: u64| NewsItem {
        gid: date.to_string(),
        title: String::new(),
        url: String::new(),
        feedlabel: String::new(),
        date,
        appid: 1,
        contents: None,
    };
    app.news_loaded((0..70).map(item).collect());
    assert_eq!(app.news_feed.len(), 60);
    assert_eq!(app.news_feed[0].date, 69);
    assert!(!app.loading.news);
}

#[test]
fn sorts_news_newest_first_and_wishlist_by_priority() {
    let item = |gid: &str, date: u64| NewsItem {
        gid: gid.to_owned(),
        title: String::new(),
        url: String::new(),
        feedlabel: String::new(),
        date,
        appid: 1,
        contents: None,
    };
    let sorted = sort_news(vec![item("a", 1), item("b", 3), item("c", 3)]);
    let gids: Vec<&str> = sorted.iter().map(|n| n.gid.as_str()).collect();
    assert_eq!(gids, vec!["b", "c", "a"]);
    let wish = |appid: u32, priority: u32| WishlistItem {
        appid,
        name: String::new(),
        priority,
        added: 0,
        capsule: None,
    };
    let sorted = sort_wishlist(vec![wish(1, 2), wish(2, 0), wish(3, 1)]);
    let ids: Vec<u32> = sorted.iter().map(|w| w.appid).collect();
    assert_eq!(ids, vec![2, 3, 1]);
}

#[test]
fn signing_in_starts_library_and_wishlist_loads() {
    let mut app = App::new(Config::default());
    app.protocol_input = "123".to_owned();
    app.signed_in("alice".to_owned());
    assert!(app.friend_cmd_connected);
    assert!(app.protocol_input.is_empty());
    assert_eq!(
        app.take_outbox(),
        vec![Effect::Io(IoEvent::LoadLibrary), Effect::Io(IoEvent::LoadWishlist)]
    );
    assert!(!app.begin_load_library());
    assert_eq!(app.take_outbox(), vec![Effect::Friend(RunCommand::GetLibrary)]);
    app.connection_ended(Some("closed".to_owned()));
    assert_eq!(app.protocol_status, ProtocolStatus::Failed("closed".to_owned()));
    assert!(!app.friend_cmd_connected);
    assert!(!app.loading.library);
}

#[test]
fn list_selection_starts_empty_or_first() {
    assert_eq!(ListSelection::new().selected(), None);
    let mut s = ListSelection::first();
    s.select(Some(3));
    assert_eq!(s.selected(), Some(3));
}
