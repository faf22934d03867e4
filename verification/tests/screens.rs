use steamie::chat_history::ChatMessage;
use steamie::config::Config;
use steamie::config::LaunchConfig;
use steamie::launcher::{
    direct_launch_outcome, dry_run_outcome, launch_step, should_watch_for_exit,
    steam_launch_outcome, LaunchEntry, LaunchStep,
};
use steamie::library::ProtocolGame;
use steamie::models::Genre;
use steamie::locations::{
    auth_state_path_in, chat_history_dir_in, config_path_in, state_root_from, user_list_path_in,
};
use steamie::models::{Achievement, Game, WishlistItem};
use steamie::paths::join_path;
use steamie::presentation::{
    comma_list, conversation_title, genre_list, metacritic_band, ScoreBand,
    added_text, chat_tab_title, clamp_selection, composer_tail, history_top, launch_message,
    message_layout, presence, presence_text, selected_tab, Presence,
};
use steamie::protocol::{Persona, PersonaState, ProtocolGuardKind, ProtocolStatus, RunCommand};
use steamie::routes::{IoEvent, RouteId};
use steamie::ui::{App, AppTypeFilter, Effect};
use steamie::wishlist::{parse_wishlist, wishlist_from_members, WishlistMember};

fn owned_game(appid: u32, name: Option<&str>, app_type: Option<&str>) -> Game {
    Game {
        appid,
        name: name.map(|n| n.to_owned()),
        playtime_forever: 0,
        img_icon_url: None,
        rtime_last_played: None,
        app_type: app_type.map(|t| t.to_owned()),
    }
}

fn friend(steamid: u64, state: PersonaState, game: Option<u32>) -> Persona {
    Persona {
        steamid,
        name: format!("friend{steamid}"),
        state,
        game_app_id: game,
        game_name: None,
        avatar_hash: None,
        game_fields_present: true,
    }
}

fn ach(apiname: &str, achieved: u8) -> Achievement {
    Achievement {
        apiname: apiname.to_owned(),
        achieved,
        unlocktime: 0,
        name: None,
        description: None,
    }
}

fn fresh_app() -> App {
    App::new(Config::default())
}

// ---- Status bar and titles ----

#[test]
fn status_bar_names_the_connection_state() {
    let mut app = fresh_app();
    assert_eq!(app.protocol_label(), "○ Web API only");
    app.protocol_status = ProtocolStatus::Connecting;
    assert_eq!(app.protocol_label(), "◌ Connecting to Steam");
    app.protocol_status = ProtocolStatus::AwaitingGuardCode { kind: ProtocolGuardKind::DeviceCode };
    assert_eq!(app.protocol_label(), "◎ Awaiting Steam Guard code");
    app.protocol_status = ProtocolStatus::LoggedOn { account_name: "gaben".to_owned() };
    assert_eq!(app.protocol_label(), "● Connected as gaben");
    app.own_persona_state = PersonaState::Away;
    assert_eq!(app.protocol_label(), "● Connected as gaben [Away]");
    app.protocol_status = ProtocolStatus::Failed("boom".to_owned());
    assert_eq!(app.protocol_label(), "○ Web API only (boom)");
}

#[test]
fn key_hints_follow_the_screen() {
    let mut app = fresh_app();
    assert_eq!(app.key_hints(), "  l launch  L recent  t type  / search  ? help  q quit");
    app.is_searching = true;
    assert_eq!(app.key_hints(), "  Enter confirm  Esc cancel  (type to filter)");
    app.is_searching = false;
    app.protocol_status = ProtocolStatus::AwaitingGuardCode { kind: ProtocolGuardKind::EmailCode };
    assert_eq!(app.key_hints(), "  Enter submit  Esc cancel");
    app.protocol_status = ProtocolStatus::Connecting;
    assert_eq!(app.key_hints(), "  Esc cancel");
}

#[test]
fn tabs_highlight_and_count_unread() {
    assert_eq!(selected_tab(RouteId::Library), 0);
    assert_eq!(selected_tab(RouteId::GameDetail), 0);
    assert_eq!(selected_tab(RouteId::News), 3);
    assert_eq!(selected_tab(RouteId::Chat), 4);
    assert_eq!(chat_tab_title(0), "5 Chat");
    assert_eq!(chat_tab_title(12), "5 Chat (12)");
}

#[test]
fn library_title_shows_filtered_count_and_filter() {
    let mut app = fresh_app();
    app.games = vec![
        owned_game(1, Some("Portal"), Some("game")),
        owned_game(2, Some("Portal SDK"), Some("tool")),
        owned_game(3, Some("Half-Life"), None),
    ];
    app.update_search();
    assert_eq!(app.library_title(), " Library (3) ");
    app.app_type_filter = AppTypeFilter::Games;
    app.update_search();
    assert_eq!(app.library_title(), " Library (2/3) [Games] ");
    app.app_type_filter = AppTypeFilter::All;
    app.is_searching = true;
    app.update_search();
    assert_eq!(app.library_title(), " Library (3/3) ");
}

#[test]
fn friends_title_counts_visible_friends() {
    let mut app = fresh_app();
    app.protocol_friends = vec![
        friend(1, PersonaState::Online, None),
        friend(2, PersonaState::Offline, None),
        friend(3, PersonaState::Invisible, None),
        friend(4, PersonaState::Busy, Some(10)),
    ];
    assert_eq!(app.protocol_friends_title(), " Friends (2 online / 4) ");
}

#[test]
fn presence_dot_and_word() {
    assert_eq!(presence(&friend(1, PersonaState::Offline, Some(10))), Presence::Offline);
    assert_eq!(presence(&friend(1, PersonaState::Invisible, None)), Presence::Offline);
    assert_eq!(presence(&friend(1, PersonaState::Online, Some(10))), Presence::InGame);
    assert_eq!(presence(&friend(1, PersonaState::Busy, None)), Presence::Online);
    assert_eq!(presence_text(PersonaState::Online), "");
    assert_eq!(presence_text(PersonaState::LookingToPlay), "Looking to Play");
}

#[test]
fn friend_game_prefers_library_then_lookup_then_report() {
    let mut app = fresh_app();
    app.games = vec![owned_game(10, Some("Portal"), None)];
    app.update_search();
    app.game_name_cache = vec![(20, String::new()), (30, "Dota 2".to_owned())];
    assert_eq!(app.friend_game_name(10, &Some("other".to_owned())), "Portal");
    assert_eq!(app.friend_game_name(20, &Some("Reported".to_owned())), "Reported");
    assert_eq!(app.friend_game_name(30, &None), "Dota 2");
    assert_eq!(app.friend_game_name(40, &None), "In-Game");
}

#[test]
fn achievement_progress_counts_unlocked() {
    let mut app = fresh_app();
    app.achievements = vec![ach("a", 1), ach("b", 0), ach("c", 1)];
    assert_eq!(app.achievement_progress(), (2, 3));
    app.achievements_failed();
    assert_eq!(app.achievement_progress(), (0, 0));
}

#[test]
fn wishlist_dates_and_launch_messages() {
    assert_eq!(added_text(0), "—");
    assert_eq!(added_text(1_700_000_000), "2023");
    let dry = dry_run_outcome("steam -applaunch 10".to_owned(), false);
    assert_eq!(launch_message(&dry, "Portal"), "DRY-RUN steam -applaunch 10");
    let real = steam_launch_outcome("steam -applaunch 10".to_owned(), true);
    assert_eq!(launch_message(&real, "Portal"), "▶ Launched Portal");
}

// ---- Lists and chat layout ----

#[test]
fn selections_clamp_to_the_list() {
    assert_eq!(clamp_selection(Some(5), 3), Some(2));
    assert_eq!(clamp_selection(None, 3), Some(0));
    assert_eq!(clamp_selection(Some(1), 0), None);
    assert_eq!(clamp_selection(Some(1), 3), Some(1));
}

#[test]
fn history_scrolls_back_from_the_newest_line() {
    assert_eq!(history_top(10, 4, 0), 6);
    assert_eq!(history_top(10, 4, 2), 4);
    assert_eq!(history_top(10, 4, 99), 0);
    assert_eq!(history_top(3, 4, 5), 0);
}

#[test]
fn composer_shows_the_tail_that_fits() {
    assert_eq!(composer_tail("abcdefghij", 10), "fghij");
    assert_eq!(composer_tail("abc", 10), "abc");
    assert_eq!(composer_tail("abc", 4), "");
}

#[test]
fn message_layout_labels_and_wraps() {
    let mine = ChatMessage {
        steamid: 1,
        message: "hello world".to_owned(),
        timestamp: 0,
        ordinal: 0,
        from_local: true,
    };
    let layout = message_layout(&mine, "Bartholomew Longname", 30);
    assert_eq!(layout.label, "You");
    assert_eq!(layout.indent, 5);
    assert_eq!(layout.lines, vec!["hello world".to_owned()]);

    let theirs = ChatMessage { from_local: false, ..mine };
    let layout = message_layout(&theirs, "Bartholomew Longname", 30);
    assert_eq!(layout.label, "Bartholom…");
    assert_eq!(layout.indent, 12);
}

// ---- Loading steps ----

#[test]
fn library_loads_over_the_connection_when_signed_in() {
    let mut app = fresh_app();
    assert!(app.begin_load_library());
    assert!(app.loading.library);
    assert!(app.take_outbox().is_empty());
    app.library_loaded(vec![owned_game(1, Some("A"), None), owned_game(2, Some("B"), None)]);
    assert!(!app.loading.library);
    assert_eq!(app.filtered_games, vec![0, 1]);

    app.friend_cmd_connected = true;
    assert!(!app.begin_load_library());
    assert_eq!(app.take_outbox(), vec![Effect::Friend(RunCommand::GetLibrary)]);
    assert!(!app.begin_load_achievements(440));
    assert_eq!(app.take_outbox(), vec![Effect::Friend(RunCommand::GetPlayerAchievements(440))]);
}

#[test]
fn friend_list_errors_hide_missing_key() {
    let mut app = fresh_app();
    app.begin_load_friend_ids();
    assert!(app.loading.friends);
    app.friend_ids_failed("missing api_key".to_owned());
    assert!(!app.loading.friends);
    assert_eq!(app.error, None);
    app.begin_load_friend_ids();
    app.friend_ids_failed("timeout".to_owned());
    assert_eq!(app.error, Some("timeout".to_owned()));
}

#[test]
fn wishlist_and_detail_loads_clear_their_flags() {
    let mut app = fresh_app();
    app.begin_load_wishlist();
    assert!(app.loading.wishlist);
    app.wishlist_loaded(vec![WishlistItem {
        appid: 5,
        name: "Five".to_owned(),
        priority: 1,
        added: 0,
        capsule: None,
    }]);
    assert!(!app.loading.wishlist);
    assert_eq!(app.wishlist.len(), 1);
    app.begin_load_game_detail();
    assert!(app.loading.game_detail);
    app.game_detail_loaded(None);
    assert!(!app.loading.game_detail);
    assert!(app.selected_game.is_none());
}

#[test]
fn refresh_queues_library_friends_and_wishlist() {
    let mut app = fresh_app();
    app.refresh_all();
    assert_eq!(
        app.take_outbox(),
        vec![
            Effect::Io(IoEvent::LoadLibrary),
            Effect::Io(IoEvent::LoadFriendIds),
            Effect::Io(IoEvent::LoadWishlist),
        ]
    );
}

#[test]
fn typed_code_survives_only_code_prompts() {
    let mut app = fresh_app();
    app.protocol_input = "12".to_owned();
    app.set_protocol_status(ProtocolStatus::AwaitingGuardCode { kind: ProtocolGuardKind::EmailCode });
    assert_eq!(app.protocol_input, "12");
    app.set_protocol_status(ProtocolStatus::Connecting);
    assert_eq!(app.protocol_input, "");
}

// ---- Launch outcomes ----

#[test]
fn launch_outcomes_record_how_the_game_started() {
    let dry = dry_run_outcome("x".to_owned(), true);
    assert!(dry.dry_run && dry.direct && !dry.started_steam);
    let started = steam_launch_outcome("y".to_owned(), false);
    assert!(started.started_steam && !started.dry_run && !started.direct);
    let already = steam_launch_outcome("y".to_owned(), true);
    assert!(!already.started_steam);
    let direct = direct_launch_outcome("z".to_owned());
    assert!(direct.direct && !direct.started_steam);
    assert!(should_watch_for_exit(&started, true));
    assert!(!should_watch_for_exit(&started, false));
    assert!(!should_watch_for_exit(&already, true));
}

// ---- Locations ----

#[test]
fn state_root_takes_the_first_known_directory() {
    assert_eq!(
        state_root_from(Some("/state".to_owned()), Some("/cfg".to_owned()), None),
        "/state"
    );
    assert_eq!(state_root_from(None, Some("/cfg".to_owned()), Some("/home/u".to_owned())), "/cfg");
    assert_eq!(state_root_from(None, None, Some("/home/u".to_owned())), "/home/u/.config");
    assert_eq!(state_root_from(None, None, None), ".config");
}

#[test]
fn client_files_live_under_their_directories() {
    assert_eq!(chat_history_dir_in("/s"), "/s/vapour/chat");
    assert_eq!(auth_state_path_in("/s/"), "/s/vapour/auth.toml");
    assert_eq!(config_path_in(None), "~/.config/steamie/config.toml");
    assert_eq!(config_path_in(Some("/c".to_owned())), "/c/steamie/config.toml");
    assert_eq!(user_list_path_in(Some("/c".to_owned())), Some("/c/steamie/drm-free.md".to_owned()));
    assert_eq!(user_list_path_in(None), None);
    assert_eq!(join_path("/a", "/b"), "/b");
    assert_eq!(join_path("", "b"), "b");
    assert_eq!(join_path(r"C:\Steam", "steamapps"), r"C:\Steam\steamapps");
    assert_eq!(join_path(r"C:\Steam\", "steamapps"), r"C:\Steam\steamapps");
    assert_eq!(join_path("/a/b", "c"), "/a/b/c");
}

// ---- Wishlist responses ----

#[test]
fn wishlist_response_keeps_game_objects_by_priority() {
    let text = r#"{"10":{"name":"CS","priority":1},"20":5,"30":{"priority":4294967297},"440":{"name":"TF2","priority":2,"added":100,"capsule":"c.jpg"},"success":1}"#;
    let items = parse_wishlist(text);
    let ids: Vec<u32> = items.iter().map(|w| w.appid).collect();
    assert_eq!(ids, vec![10, 30, 440]);
    assert_eq!(items[0].name, "CS");
    assert_eq!(items[0].added, 0);
    assert_eq!(items[1].name, "");
    assert_eq!(items[1].priority, 1);
    assert_eq!(items[2].name, "TF2");
    assert_eq!(items[2].priority, 2);
    assert_eq!(items[2].added, 100);
    assert_eq!(items[2].capsule, Some("c.jpg".to_owned()));
}

#[test]
fn wishlist_response_that_is_not_an_object_is_empty() {
    assert!(parse_wishlist("<html>login</html>").is_empty());
    assert!(parse_wishlist("[1, 2]").is_empty());
    assert!(parse_wishlist(r#"{"success":2}"#).is_empty());
}

#[test]
fn wishlist_members_become_entries() {
    let member = |key: &str, is_object: bool, priority: Option<u64>| WishlistMember {
        key: key.to_owned(),
        is_object,
        name: None,
        priority,
        added: Some(7),
        capsule: None,
    };
    let items = wishlist_from_members(vec![
        member("5", true, Some(3)),
        member("+6", true, None),
        member("x", true, Some(1)),
        member("8", false, Some(1)),
        member("4294967296", true, Some(1)),
    ]);
    let got: Vec<(u32, u32, u64)> = items.iter().map(|w| (w.appid, w.priority, w.added)).collect();
    assert_eq!(got, vec![(6, 0, 7), (5, 3, 7)]);
}

// ---- Detail and chat texts ----

#[test]
fn detail_lists_join_with_commas_and_scores_band() {
    assert_eq!(comma_list(&vec![]), "");
    assert_eq!(comma_list(&vec!["Valve".to_owned()]), "Valve");
    assert_eq!(comma_list(&vec!["Valve".to_owned(), "Hidden Path".to_owned()]), "Valve, Hidden Path");
    let genres = vec![
        Genre { id: "1".to_owned(), description: "Action".to_owned() },
        Genre { id: "37".to_owned(), description: "Free to Play".to_owned() },
    ];
    assert_eq!(genre_list(&genres), "Action, Free to Play");
    assert_eq!(metacritic_band(75), ScoreBand::Good);
    assert_eq!(metacritic_band(74), ScoreBand::Mixed);
    assert_eq!(metacritic_band(50), ScoreBand::Mixed);
    assert_eq!(metacritic_band(49), ScoreBand::Poor);
}

#[test]
fn conversation_title_shows_whether_the_partner_is_online() {
    let mut app = fresh_app();
    app.protocol_friends = vec![
        friend(1, PersonaState::Away, None),
        friend(2, PersonaState::Invisible, None),
    ];
    assert!(app.partner_online(1));
    assert!(!app.partner_online(2));
    assert!(!app.partner_online(3));
    assert_eq!(conversation_title("Gabe", true), " Gabe — online ");
    assert_eq!(conversation_title("Gabe", false), " Gabe — offline ");
}

#[test]
fn dry_runs_preview_and_other_launches_spawn() {
    match launch_step("steam -applaunch 10".to_owned(), true, false) {
        LaunchStep::Preview(o) => {
            assert!(o.dry_run && !o.direct && !o.started_steam);
            assert_eq!(o.command_line, "steam -applaunch 10");
        }
        LaunchStep::Spawn => panic!("a dry run spawns nothing"),
    }
    assert!(matches!(launch_step("x".to_owned(), false, true), LaunchStep::Spawn));
}

// ---- Keyed lists ----

fn launch_entry(exe: &str) -> LaunchEntry {
    LaunchEntry {
        executable: exe.to_owned(),
        arguments: None,
        workingdir: None,
        launch_type: None,
        oslist: None,
        osarch: None,
        betakey: None,
    }
}

#[test]
fn a_later_report_of_an_app_replaces_its_launch_entries() {
    let mut app = fresh_app();
    let report = |appid: u32, exe: &str| ProtocolGame {
        appid,
        name: "Game".to_owned(),
        playtime_forever: 0,
        rtime_last_played: 0,
        img_icon_url: None,
        app_type: None,
        installdir: None,
        launch: vec![launch_entry(exe)],
    };
    app.apply_owned_games(vec![report(5, "old.exe"), report(6, "six.exe"), report(5, "new.exe")]);
    let info: Vec<(u32, String)> = app
        .app_launch_info
        .iter()
        .map(|(id, e)| (*id, e[0].executable.clone()))
        .collect();
    assert_eq!(info, vec![(5, "new.exe".to_owned()), (6, "six.exe".to_owned())]);
}

#[test]
fn game_names_replace_pending_entries_once() {
    let mut app = fresh_app();
    app.game_names_loaded(vec![(7, String::new()), (7, "Seven".to_owned()), (8, "Eight".to_owned())]);
    assert_eq!(app.game_name_cache, vec![(7, "Seven".to_owned()), (8, "Eight".to_owned())]);
}

#[test]
fn per_game_arguments_follow_the_appid_key() {
    let mut launch = LaunchConfig::default();
    launch.extra_args = "-silent".to_owned();
    launch.game_args.push(("730".to_owned(), "-novid".to_owned()));
    launch.game_args.push(("440".to_owned(), "-console".to_owned()));
    assert_eq!(launch.options_for(440).args, vec!["-silent".to_owned(), "-console".to_owned()]);
    assert_eq!(launch.options_for(10).args, vec!["-silent".to_owned()]);
}
