use std::collections::HashSet;

use steamie::chat_history::{merge, prune, ChatHistory, ChatMessage, SECONDS_PER_DAY};
use steamie::config::{
    default_history_retention_days, default_theme, default_tick_rate, ChatConfig, Config,
    LaunchConfig,
};
use steamie::drm_free::{is_known_drm_free, known_drm_free_ids, parse_appids, EMBEDDED_LIST};
use steamie::launcher::{
    build_command, format_command, parse_reg_dword, parse_reg_sz, parse_registry_vdf_running,
    plan_launch, resolve_steam_exe, select_launch_entry, LaunchEntry, LaunchError, LaunchOptions,
    LaunchPlan,
};
use steamie::layout::{format_timestamp, strip_html, textwrap_simple, truncate_label, wrap_text};
use steamie::paths::compare_paths;
use steamie::steam_apps::{library_search_order, parse_appmanifest, parse_library_paths, InstalledApp};
use steamie::vdf::{parse, VdfValue};

const CIV_VII_ACF: &str = r#"
"AppState"
{
	"appid"		"1295660"
	"name"		"Sid Meier's Civilization VII"
	"StateFlags"		"4"
	"installdir"		"Sid Meier's Civilization VII"
}
"#;

const LIBRARYFOLDERS: &str = r#"
"libraryfolders"
{
	"0"
	{
		"path"		"C:\\Program Files (x86)\\Steam"
		"apps"
		{
			"228980"		"476357342"
		}
	}
	"1"
	{
		"path"		"E:\\Games\\Steam"
		"apps"
		{
			"1295660"		"24369453207"
		}
	}
}
"#;

const SHORT_LIBRARYFOLDERS: &str = r#"
"libraryfolders"
{
	"0" { "path" "C:\\Program Files (x86)\\Steam" }
	"1" { "path" "E:\\Games\\Steam" }
}
"#;

fn msg(timestamp: u32, ordinal: u32, from_local: bool, text: &str) -> ChatMessage {
    ChatMessage {
        steamid: 42,
        message: text.to_owned(),
        timestamp,
        ordinal,
        from_local,
    }
}

// ---- KeyValues ----

#[test]
fn parses_appmanifest_fields() {
    let root = parse(CIV_VII_ACF).expect("acf parses");
    let state = root.map("AppState").expect("AppState block");
    assert_eq!(state.str("appid"), Some("1295660"));
    assert_eq!(state.str("name"), Some("Sid Meier's Civilization VII"));
    // Case-insensitive lookup of the mixed-case key.
    assert_eq!(state.str("stateflags"), Some("4"));
    assert_eq!(state.str("installdir"), Some("Sid Meier's Civilization VII"));
}

#[test]
fn parses_libraryfolders_paths_with_unescaped_backslashes() {
    let root = parse(LIBRARYFOLDERS).expect("vdf parses");
    let folders = root.map("libraryfolders").expect("libraryfolders block");
    let paths: Vec<&str> = folders
        .entries()
        .iter()
        .filter_map(|(_, v)| match v {
            VdfValue::Block(m) => m.str("path"),
            VdfValue::Str(_) => None,
        })
        .collect();
    assert_eq!(paths, vec![r"C:\Program Files (x86)\Steam", r"E:\Games\Steam"]);
}

#[test]
fn skips_line_comments() {
    let root = parse("\"k\" \"v\" // trailing\n\"k2\" \"v2\"").expect("parses");
    assert_eq!(root.str("k"), Some("v"));
    assert_eq!(root.str("k2"), Some("v2"));
}

#[test]
fn rejects_unterminated_block() {
    assert!(parse("\"AppState\" {").is_none());
}

#[test]
fn vdf_keeps_first_duplicate_key_and_rejects_stray_close() {
    let root = parse("\"k\" \"first\" \"K\" \"second\"").expect("parses");
    assert_eq!(root.str("k"), Some("first"));
    assert!(parse("\"k\" \"v\" }").is_none());
    assert!(parse("\"k\"").is_none());
}

#[test]
fn vdf_reads_escapes_in_quoted_strings() {
    let root = parse(r#""k" "say \"hi\"\n""#).expect("parses");
    assert_eq!(root.str("k"), Some("say \"hi\"\n"));
}

// ---- Steam library folders and app manifests ----

#[test]
fn not_fully_installed_when_state_flag_unset() {
    let acf = r#""AppState" { "appid" "1" "installdir" "X" "StateFlags" "1026" }"#;
    let app = parse_appmanifest(acf, "/lib").unwrap();
    assert!(!app.is_fully_installed());
}

#[test]
fn parses_library_paths_from_vdf() {
    let paths = parse_library_paths(SHORT_LIBRARYFOLDERS);
    assert_eq!(
        paths,
        vec![r"C:\Program Files (x86)\Steam".to_owned(), r"E:\Games\Steam".to_owned()]
    );
}

#[test]
fn parses_appmanifest_into_installed_app() {
    let lib = r"E:\Games\Steam";
    let app = parse_appmanifest(CIV_VII_ACF, lib).expect("acf parses");
    assert_eq!(app.appid, 1295660);
    assert_eq!(app.name, "Sid Meier's Civilization VII");
    assert_eq!(app.installdir, "Sid Meier's Civilization VII");
    assert_eq!(app.state_flags, 4);
    assert!(app.is_fully_installed());
    assert_eq!(
        app.install_path(),
        r"E:\Games\Steam\steamapps\common\Sid Meier's Civilization VII"
    );
}

#[test]
fn install_path_on_a_unix_library_uses_slashes() {
    let app = parse_appmanifest(CIV_VII_ACF, "/games/steam").expect("acf parses");
    assert_eq!(
        app.install_path(),
        "/games/steam/steamapps/common/Sid Meier's Civilization VII"
    );
}

#[test]
fn appmanifest_without_installdir_is_rejected() {
    assert!(parse_appmanifest(r#""AppState" { "appid" "1" }"#, "/lib").is_none());
    assert!(parse_appmanifest(r#""AppState" { "appid" "x" "installdir" "X" }"#, "/lib").is_none());
}

// ---- Configuration and launch options ----

#[test]
fn launch_options_merge_global_and_per_game_args() {
    let mut launch = LaunchConfig {
        extra_args: "-silent".to_owned(),
        dry_run: true,
        ..Default::default()
    };
    launch
        .game_args
        .push(("730".to_owned(), "-novid -high".to_owned()));

    let opts = launch.options_for(730);
    assert_eq!(opts.args, vec!["-silent", "-novid", "-high"]);
    assert!(opts.dry_run);
    assert!(opts.steam_path.is_none());

    // A game with no per-game entry gets only the global args.
    assert_eq!(launch.options_for(570).args, vec!["-silent"]);
}

#[test]
fn launch_options_use_steam_path_override_when_set() {
    let launch = LaunchConfig {
        steam_path: "  /opt/steam/steam  ".to_owned(),
        ..Default::default()
    };
    assert_eq!(launch.options_for(1).steam_path, Some("/opt/steam/steam".to_owned()));
}

#[test]
fn config_defaults_chat_to_bell_on_30_day_retention() {
    let chat = ChatConfig::default();
    assert!(chat.notifications_enabled);
    assert!(!chat.desktop_notifications);
    assert_eq!(chat.history_retention_days, 30);
    assert_eq!(default_history_retention_days(), 30);
}

#[test]
fn config_defaults_launch_to_auto_detect_no_dry_run() {
    let config = Config::default();
    assert!(config.launch.steam_path.is_empty());
    assert!(!config.launch.dry_run);
    assert!(!config.launch.kill_steam_on_exit);
    assert!(config.launch.silent);
    assert!(!config.launch.direct_launch);
    assert!(!config.launch.force_direct);
    assert!(config.launch.extra_args.is_empty());
    assert!(config.launch.game_args.is_empty());
    assert_eq!(default_tick_rate(), 250);
    assert_eq!(default_theme(), "dark");
}

// ---- DRM-free list ----

#[test]
fn embedded_list_is_parseable_and_clean() {
    let set = parse_appids(EMBEDDED_LIST);
    assert!(!set.contains(&0));
    assert!(set.iter().all(|&id| id > 0));
}

#[test]
fn known_drm_free_lookup_rejects_non_listed() {
    let known = known_drm_free_ids(None);
    assert!(!is_known_drm_free(730, &known)); // CS2
    assert!(!is_known_drm_free(0, &known));
}

#[test]
fn parse_skips_header_and_separator_rows() {
    let md = "| AppID | Game |\n|------:|------|\n| 42 | Demo |\n| abc | Bad |";
    let set = parse_appids(md);
    assert_eq!(set, HashSet::from([42]));
}

#[test]
fn user_list_extends_the_known_ids() {
    let known = known_drm_free_ids(Some("| 105600 | Terraria |\n| 105600 | again |"));
    assert!(is_known_drm_free(105600, &known));
    assert_eq!(known.iter().filter(|&&id| id == 105600).count(), 1);
    assert!(!is_known_drm_free(105601, &known));
}

// ---- Launching ----

#[test]
fn build_command_prepends_applaunch_and_appid() {
    let (program, args) = build_command("/opt/steam/steam", 730, false, &[]);
    assert_eq!(program, "/opt/steam/steam");
    assert_eq!(args, vec!["-applaunch".to_owned(), "730".to_owned()]);
}

#[test]
fn build_command_prepends_silent_flag_before_applaunch() {
    let (_program, args) = build_command("steam.exe", 730, true, &[]);
    assert_eq!(args, vec!["-silent", "-applaunch", "730"]);
}

#[test]
fn build_command_appends_extra_args_in_order() {
    let extra = vec!["-novid".to_owned(), "-high".to_owned()];
    let (_program, args) = build_command("steam.exe", 570, false, &extra);
    assert_eq!(args, vec!["-applaunch", "570", "-novid", "-high"]);
}

#[test]
fn format_command_joins_program_and_args() {
    let line = format_command("steam.exe", &["-applaunch".into(), "440".into()]);
    assert_eq!(line, "steam.exe -applaunch 440");
}

#[test]
fn resolve_steam_exe_errors_on_missing_override() {
    let missing = "/definitely/not/here/steam.exe";
    let r = resolve_steam_exe(Some(missing), false, Some("/usr/bin/steam".to_owned()));
    assert!(r.is_err());
    match r {
        Err(LaunchError::SteamPathMissing(p)) => assert_eq!(p, missing),
        _ => panic!("expected a missing override"),
    }
}

#[test]
fn resolve_steam_exe_prefers_override_then_platform() {
    assert_eq!(
        resolve_steam_exe(Some("/opt/steam"), true, Some("/usr/bin/steam".to_owned())).ok(),
        Some("/opt/steam".to_owned())
    );
    assert_eq!(
        resolve_steam_exe(None, false, Some("/usr/bin/steam".to_owned())).ok(),
        Some("/usr/bin/steam".to_owned())
    );
    assert!(matches!(resolve_steam_exe(Some(""), false, None), Err(LaunchError::SteamNotFound)));
}

fn installed_app(state_flags: u32) -> InstalledApp {
    InstalledApp {
        appid: 105600,
        name: "Terraria".to_owned(),
        installdir: "Terraria".to_owned(),
        library_path: "/lib".to_owned(),
        state_flags,
    }
}

fn os_agnostic_entry() -> LaunchEntry {
    LaunchEntry {
        executable: "game.exe".to_owned(),
        arguments: Some("-fullscreen".to_owned()),
        ..Default::default()
    }
}

fn direct_opts() -> LaunchOptions {
    LaunchOptions {
        direct_launch: true,
        ..Default::default()
    }
}

#[test]
fn plan_launch_defers_to_steam_when_direct_disabled() {
    let app = installed_app(4);
    let entries = [os_agnostic_entry()];
    let opts = LaunchOptions::default();
    assert_eq!(plan_launch(Some(&app), &entries, true, &opts, "linux"), LaunchPlan::Steam);
}

#[test]
fn plan_launch_defers_when_not_installed_or_not_complete() {
    let entries = [os_agnostic_entry()];
    assert_eq!(plan_launch(None, &entries, true, &direct_opts(), "linux"), LaunchPlan::Steam);
    let updating = installed_app(1026);
    assert_eq!(
        plan_launch(Some(&updating), &entries, true, &direct_opts(), "linux"),
        LaunchPlan::Steam
    );
}

#[test]
fn plan_launch_defers_when_not_drm_free_and_not_forced() {
    let app = installed_app(4);
    let entries = [os_agnostic_entry()];
    assert_eq!(
        plan_launch(Some(&app), &entries, false, &direct_opts(), "linux"),
        LaunchPlan::Steam
    );
}

#[test]
fn plan_launch_direct_for_drm_free_installed_game() {
    let app = installed_app(4);
    let entries = [os_agnostic_entry()];
    let plan = plan_launch(Some(&app), &entries, true, &direct_opts(), "linux");
    match plan {
        LaunchPlan::Direct { exe, workingdir, args } => {
            assert_eq!(exe, "/lib/steamapps/common/Terraria/game.exe");
            assert_eq!(workingdir, app.install_path());
            assert_eq!(args, vec!["-fullscreen".to_owned()]);
        }
        LaunchPlan::Steam => panic!("expected a direct plan"),
    }
}

#[test]
fn plan_launch_force_direct_overrides_drm_free_gate() {
    let app = installed_app(4);
    let entries = [os_agnostic_entry()];
    let opts = LaunchOptions {
        direct_launch: true,
        force_direct: true,
        ..Default::default()
    };
    assert!(matches!(
        plan_launch(Some(&app), &entries, false, &opts, "linux"),
        LaunchPlan::Direct { .. }
    ));
}

#[test]
fn plan_launch_appends_user_args_after_game_args() {
    let app = installed_app(4);
    let entries = [os_agnostic_entry()];
    let opts = LaunchOptions {
        direct_launch: true,
        args: vec!["-extra".to_owned()],
        ..Default::default()
    };
    match plan_launch(Some(&app), &entries, true, &opts, "linux") {
        LaunchPlan::Direct { args, .. } => assert_eq!(args, vec!["-fullscreen", "-extra"]),
        LaunchPlan::Steam => panic!("expected a direct plan"),
    }
}

#[test]
fn select_launch_entry_prefers_matching_os() {
    let entries = vec![
        LaunchEntry {
            executable: "game_linux".to_owned(),
            oslist: Some("linux".to_owned()),
            ..Default::default()
        },
        LaunchEntry {
            executable: "game.exe".to_owned(),
            oslist: Some("windows".to_owned()),
            ..Default::default()
        },
    ];
    assert_eq!(select_launch_entry(&entries, "windows").unwrap().executable, "game.exe");
    assert_eq!(select_launch_entry(&entries, "linux").unwrap().executable, "game_linux");
    assert!(select_launch_entry(&entries, "macos").is_none());
}

#[test]
fn select_launch_entry_falls_back_to_os_agnostic() {
    let entries = vec![LaunchEntry {
        executable: "game.exe".to_owned(),
        ..Default::default()
    }];
    assert_eq!(select_launch_entry(&entries, "macos").unwrap().executable, "game.exe");
}

#[test]
fn select_launch_entry_skips_disabled_and_beta_entries() {
    let entries = vec![
        LaunchEntry {
            executable: "installer.exe".to_owned(),
            launch_type: Some("none".to_owned()),
            ..Default::default()
        },
        LaunchEntry {
            executable: "beta.exe".to_owned(),
            betakey: Some("beta".to_owned()),
            ..Default::default()
        },
        LaunchEntry {
            executable: "game.exe".to_owned(),
            ..Default::default()
        },
    ];
    assert_eq!(select_launch_entry(&entries, "windows").unwrap().executable, "game.exe");
}

#[test]
fn parse_reg_sz_extracts_path() {
    let out = "\r\nHKEY_CURRENT_USER\\Software\\Valve\\Steam\r\n    SteamExe    REG_SZ    c:\\program files (x86)\\steam\\steam.exe\r\n\r\n";
    assert_eq!(
        parse_reg_sz(out, "SteamExe").as_deref(),
        Some("c:\\program files (x86)\\steam\\steam.exe")
    );
    assert_eq!(parse_reg_sz(out, "Missing"), None);
}

#[test]
fn parse_reg_dword_extracts_hex_value() {
    let running = "\r\n    Running    REG_DWORD    0x1\r\n";
    assert_eq!(parse_reg_dword(running, "Running"), Some(1));
    let pid = "    pid    REG_DWORD    0x2a3c\r\n";
    assert_eq!(parse_reg_dword(pid, "pid"), Some(0x2a3c));
    let zero = "    Running    REG_DWORD    0x0\r\n";
    assert_eq!(parse_reg_dword(zero, "Running"), Some(0));
}

#[test]
fn registry_vdf_running_reads_app_block() {
    let vdf = r#"
"Registry"
{
    "HKCU"
    {
        "Software" { "Valve" { "Steam" { "apps"
        {
            "730" { "running" "1" "installed" "1" }
            "570" { "running" "0" "installed" "1" }
        } } } }
    }
}
"#;
    assert!(parse_registry_vdf_running(vdf, 730));
    assert!(!parse_registry_vdf_running(vdf, 570));
    assert!(!parse_registry_vdf_running(vdf, 999));
}

// ---- Chat history ----

#[test]
fn merge_dedupes_by_timestamp_ordinal_and_sorts() {
    let mut existing = vec![msg(200, 0, true, "second")];
    let added = merge(
        &mut existing,
        vec![
            msg(100, 0, false, "first"),
            msg(200, 0, true, "second"),
            msg(200, 1, false, "also-200"),
        ],
    );
    assert!(added);
    assert_eq!(existing.len(), 3);
    assert_eq!(existing[0].message, "first");
    assert_eq!(existing[1].message, "second");
    assert_eq!(existing[2].message, "also-200");

    // Re-merging the same set adds nothing.
    assert!(!merge(&mut existing, vec![msg(100, 0, false, "first")]));
}

#[test]
fn prune_drops_old_and_respects_keep_all() {
    let now = 10 * SECONDS_PER_DAY;
    let messages = vec![
        msg((2 * SECONDS_PER_DAY) as u32, 0, false, "old"),
        msg((9 * SECONDS_PER_DAY) as u32, 0, true, "recent"),
    ];

    let kept = prune(&messages, 3, now);
    assert_eq!(kept.len(), 1);
    assert_eq!(kept[0].message, "recent");

    assert_eq!(prune(&messages, 0, now).len(), 2);
}

#[test]
fn chat_history_file_is_named_by_steamid() {
    let store = ChatHistory::with_dir("/tmp/chat".to_owned(), 30);
    assert_eq!(store.path(76561198000000000), "/tmp/chat/76561198000000000.json");
}

// ---- Text layout ----

#[test]
fn wraps_words_to_width() {
    let lines = wrap_text("the quick brown fox", 9);
    assert_eq!(lines, vec!["the quick", "brown fox"]);
}

#[test]
fn hard_splits_overlong_word() {
    let lines = wrap_text("abcdefghij", 4);
    assert_eq!(lines, vec!["abcd", "efgh", "ij"]);
}

#[test]
fn preserves_explicit_newlines() {
    let lines = wrap_text("a\nb", 10);
    assert_eq!(lines, vec!["a", "b"]);
}

#[test]
fn truncates_long_labels_with_ellipsis() {
    assert_eq!(truncate_label("Counter-Strike 2", 8), "Counter…");
    assert_eq!(truncate_label("Dota 2", 8), "Dota 2");
}

#[test]
fn strips_html_tags() {
    assert_eq!(strip_html("<b>Patch</b> notes<br/>"), "Patch notes");
}

#[test]
fn formats_timestamp_as_year() {
    assert_eq!(format_timestamp(0), "1970");
    assert_eq!(format_timestamp(31_557_600), "1971");
    assert_eq!(format_timestamp(1_700_000_000), "2023");
}

#[test]
fn simple_wrap_breaks_on_words() {
    assert_eq!(textwrap_simple("one two three", 7), vec!["one two", "three"]);
}

#[test]
fn library_search_order_sorts_by_components_and_drops_same_places() {
    let order = library_search_order(
        "/home/u/.steam/steam".to_owned(),
        vec![
            "/mnt/games".to_owned(),
            "/home/u/.steam/steam/".to_owned(),
            "/a-b".to_owned(),
            "/a/b".to_owned(),
            "/mnt//games".to_owned(),
        ],
    );
    assert_eq!(
        order,
        vec![
            "/a/b".to_owned(),
            "/a-b".to_owned(),
            "/home/u/.steam/steam".to_owned(),
            "/mnt/games".to_owned(),
        ]
    );
}

#[test]
fn paths_compare_component_by_component() {
    assert_eq!(compare_paths("/a/./b", "/a/b"), 0);
    assert_eq!(compare_paths("/a/b/", "/a/b"), 0);
    assert_eq!(compare_paths("./a", "a"), -1);
    assert_eq!(compare_paths("/x", "x"), -1);
    assert_eq!(compare_paths("/a/..", "/a"), 1);
    assert_eq!(compare_paths("/a/b", "/a-b"), -1);
}
