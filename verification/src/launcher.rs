//! Game launching decisions.
//!
//! Games launch through the official Steam client (`steam [-silent] -applaunch <appid> [args]`),
//! or, when the experimental direct path is enabled and the game is eligible, from the game's
//! own executable with no Steam client at all. This module decides which, and builds the exact
//! command; spawning processes and probing the running system is left to the caller, which
//! hands the probes' answers back in.

use vstd::prelude::*;

use crate::paths::{join_path, spec_join};
use crate::steam_apps::InstalledApp;
use crate::text::{
    ascii_eq_ignore_case,
    chars_of,
    decimal_string,
    find_from,
    occurs_at,
    occurs_at_exec,
    slice_chars,
    spec_decimal,
    spec_eq_ignore_ascii_case,
    spec_find_from,
    spec_lowercase,
    spec_parse_unsigned,
    spec_split,
    spec_trim,
    spec_trim_start,
    spec_words,
    split_chars,
    split_whitespace,
    string_from_chars,
    strings_view,
    to_lowercase,
    trim_chars,
    trim_start_index,
    parse_unsigned,
    starts_with,
};

verus! {

/// One entry of an app's `config/launch` block — how Steam itself would start the game.
#[derive(Debug, Clone, Default, PartialEq, Eq)]
pub struct LaunchEntry {
    /// Executable path, relative to the game's install directory (e.g. `bin/game.exe`).
    pub executable: String,
    /// Launch arguments, if any.
    pub arguments: Option<String>,
    /// Working directory, relative to the install directory; `None` means the install root.
    pub workingdir: Option<String>,
    /// `type` — "default", "none", "config", …
    pub launch_type: Option<String>,
    /// Comma-separated list of operating systems ("windows", "linux", "macos").
    pub oslist: Option<String>,
    /// "32" / "64".
    pub osarch: Option<String>,
    /// Present only for beta-gated launch options.
    pub betakey: Option<String>,
}

/// How to launch a game. Built from the `[launch]` configuration plus the selected appid.
#[derive(Debug, Clone, Default)]
pub struct LaunchOptions {
    /// Explicit Steam executable path; `None`/empty means auto-detect.
    pub steam_path: Option<String>,
    /// Report the command instead of spawning it.
    pub dry_run: bool,
    /// If this launch started Steam, shut it down once the game exits (best-effort).
    pub kill_steam_on_exit: bool,
    /// Start Steam quietly (minimized to tray) for Steam-mediated launches.
    pub silent: bool,
    /// Try the direct (no-Steam) launch path for eligible games.
    pub direct_launch: bool,
    /// With `direct_launch`, try the direct path even for games not on the DRM-free list.
    pub force_direct: bool,
    /// Extra arguments appended after `-applaunch <appid>` (Steam path) or after the game's own
    /// launch arguments (direct path).
    pub args: Vec<String>,
}

/// Result of a launch attempt — carries the exact command for dry-run display / logging.
#[derive(Debug, Clone)]
pub struct LaunchOutcome {
    /// The exact command line that was (or, for a dry run, would be) executed.
    pub command_line: String,
    /// Whether this call started Steam (false if Steam was already running or unknown).
    pub started_steam: bool,
    /// Whether this was a dry run (nothing spawned).
    pub dry_run: bool,
    /// Whether the game was launched directly, with no Steam client.
    pub direct: bool,
}

/// The launch route chosen by [`plan_launch`].
#[derive(Debug, Clone, PartialEq, Eq)]
pub enum LaunchPlan {
    /// Run the game's own executable directly — Steam stays closed.
    Direct { exe: String, workingdir: String, args: Vec<String> },
    /// Defer to Steam (`steam -applaunch`).
    Steam,
}

impl LaunchPlan {
    /// `Some((exe, workingdir, args))` for a direct plan, `None` for Steam.
    pub open spec fn plan_view(&self) -> Option<(Seq<char>, Seq<char>, Seq<Seq<char>>)> {
        match self {
            LaunchPlan::Direct { exe, workingdir, args } => Some(
                (exe@, workingdir@, strings_view(args@)),
            ),
            LaunchPlan::Steam => None,
        }
    }
}

// ------------------------------------------------------------------------------------------
// Specification
// ------------------------------------------------------------------------------------------

/// A Steam-relative path with `\` separators turned into `/`.
pub open spec fn spec_normalize_rel(s: Seq<char>) -> Seq<char> {
    s.map_values(|c: char| if c == '\\' { '/' } else { c })
}

/// Whether the comma-separated `list` names `os` (ignoring surrounding whitespace and ASCII
/// case).
pub open spec fn spec_oslist_contains(list: Seq<char>, os: Seq<char>) -> bool {
    exists|i: int|
        0 <= i < spec_split(list, ',').len() && spec_eq_ignore_ascii_case(
            spec_trim(#[trigger] spec_split(list, ',')[i]),
            os,
        )
}

/// A launch entry that may be used at all: it names an executable, is not beta-gated and is
/// not disabled (`type "none"`).
pub open spec fn is_usable_entry(e: LaunchEntry) -> bool {
    &&& e.executable@.len() > 0
    &&& e.betakey is None
    &&& !(e.launch_type matches Some(t) && spec_eq_ignore_ascii_case(t@, "none"@))
}

/// A usable entry whose OS list names `os`.
pub open spec fn is_os_specific_entry(e: LaunchEntry, os: Seq<char>) -> bool {
    is_usable_entry(e) && (e.oslist matches Some(l) && spec_oslist_contains(l@, os))
}

/// A usable entry with no OS list.
pub open spec fn is_os_agnostic_entry(e: LaunchEntry) -> bool {
    is_usable_entry(e) && e.oslist is None
}

/// First index at or after `from` of an entry specific to `os`.
pub open spec fn first_os_specific(es: Seq<LaunchEntry>, os: Seq<char>, from: int) -> Option<int>
    decreases es.len() - from,
{
    if from < 0 || from >= es.len() {
        None
    } else if is_os_specific_entry(es[from], os) {
        Some(from)
    } else {
        first_os_specific(es, os, from + 1)
    }
}

/// First index at or after `from` of an OS-agnostic entry.
pub open spec fn first_os_agnostic(es: Seq<LaunchEntry>, from: int) -> Option<int>
    decreases es.len() - from,
{
    if from < 0 || from >= es.len() {
        None
    } else if is_os_agnostic_entry(es[from]) {
        Some(from)
    } else {
        first_os_agnostic(es, from + 1)
    }
}

/// The entry to launch on `os`: the first one naming `os`, else the first OS-agnostic one.
pub open spec fn spec_select_launch_entry(es: Seq<LaunchEntry>, os: Seq<char>) -> Option<int> {
    match first_os_specific(es, os, 0) {
        Some(i) => Some(i),
        None => first_os_agnostic(es, 0),
    }
}

/// The direct plan `(exe, workingdir, args)` for `appid`'s installed copy, or `None` to defer
/// to Steam: every direct-launch precondition must hold (the direct path is enabled, the game
/// is fully installed, it is DRM-free or `force_direct` is set, and an entry suits `os`).
pub open spec fn spec_plan_launch(
    installed: Option<&InstalledApp>,
    es: Seq<LaunchEntry>,
    drm_free: bool,
    opts: LaunchOptions,
    os: Seq<char>,
) -> Option<(Seq<char>, Seq<char>, Seq<Seq<char>>)> {
    if !opts.direct_launch {
        None
    } else {
        match installed {
            None => None,
            Some(app) => if app.state_flags & 4 == 0 {
                None
            } else if !(drm_free || opts.force_direct) {
                None
            } else {
                match spec_select_launch_entry(es, os) {
                    None => None,
                    Some(i) => {
                        let entry = es[i];
                        let install = app.spec_install_path();
                        let exe = spec_join(install, spec_normalize_rel(entry.executable@));
                        let workingdir = match entry.workingdir {
                            Some(d) => if d@.len() > 0 {
                                spec_join(install, spec_normalize_rel(d@))
                            } else {
                                install
                            },
                            None => install,
                        };
                        let game_args = match entry.arguments {
                            Some(a) => spec_words(a@),
                            None => Seq::empty(),
                        };
                        Some((exe, workingdir, game_args + strings_view(opts.args@)))
                    },
                }
            },
        }
    }
}

/// A direct plan runs the selected entry from the game's install directory: its executable
/// is the install path joined with the entry's executable, its working directory is the
/// install path joined with the entry's working directory when that is given and non-empty
/// (`\` read as `/` in both) and the bare install path otherwise, and its arguments are the
/// entry's words followed by the configured ones. There is a direct plan exactly when the
/// direct path is on, the game is fully installed, it is DRM-free or forced, and an entry
/// suits the system.
pub proof fn lemma_direct_plan_runs_the_selected_entry(
    app: &InstalledApp,
    es: Seq<LaunchEntry>,
    drm_free: bool,
    opts: LaunchOptions,
    os: Seq<char>,
)
    ensures
        spec_plan_launch(Some(app), es, drm_free, opts, os) is Some <==> (opts.direct_launch
            && app.state_flags & 4 != 0 && (drm_free || opts.force_direct)
            && spec_select_launch_entry(es, os) is Some),
        match (spec_plan_launch(Some(app), es, drm_free, opts, os), spec_select_launch_entry(es, os)) {
            (Some(p), Some(i)) => {
                let install = app.spec_install_path();
                &&& p.0 == spec_join(install, es[i].executable@.map_values(|c: char| if c == '\\' { '/' } else { c }))
                &&& p.1 == match es[i].workingdir {
                    Some(d) => if d@.len() > 0 {
                        spec_join(install, d@.map_values(|c: char| if c == '\\' { '/' } else { c }))
                    } else {
                        install
                    },
                    None => install,
                }
                &&& p.2 == (match es[i].arguments {
                    Some(a) => spec_words(a@),
                    None => Seq::empty(),
                }) + strings_view(opts.args@)
            },
            _ => true,
        },
{
}

/// Arguments of a Steam-mediated launch: `[-silent] -applaunch <appid>` then `extra`.
pub open spec fn spec_steam_args(appid: u32, silent: bool, extra: Seq<Seq<char>>) -> Seq<Seq<char>> {
    let head: Seq<Seq<char>> = if silent {
        seq!["-silent"@]
    } else {
        Seq::empty()
    };
    head + seq!["-applaunch"@, spec_decimal(appid as nat)] + extra
}

/// `program` followed by each argument, separated by single spaces.
pub open spec fn spec_command_line(program: Seq<char>, args: Seq<Seq<char>>) -> Seq<char>
    decreases args.len(),
{
    if args.len() == 0 {
        program
    } else {
        spec_command_line(program, args.drop_last()) + seq![' '] + args.last()
    }
}

// ------------------------------------------------------------------------------------------
// Launch-entry selection and planning
// ------------------------------------------------------------------------------------------

/// Normalizes a Steam-relative path (which may use `\` separators).
pub fn normalize_rel(rel: &str) -> (r: String)
    ensures
        r@ == spec_normalize_rel(rel@),
{
    let cs = chars_of(rel);
    let mut out: Vec<char> = Vec::new();
    let mut i: usize = 0;
    while i < cs.len()
        invariant
            cs@ == rel@,
            i <= cs.len(),
            out@ == spec_normalize_rel(rel@).take(i as int),
        decreases cs.len() - i,
    {
        let c = cs[i];
        out.push(if c == '\\' { '/' } else { c });
        i += 1;
        assert(out@ =~= spec_normalize_rel(rel@).take(i as int));
    }
    assert(spec_normalize_rel(rel@).take(cs.len() as int) =~= spec_normalize_rel(rel@));
    string_from_chars(&out)
}

/// Splits launch arguments on whitespace (no quoted-group handling).
pub fn split_args(s: &str) -> (r: Vec<String>)
    ensures
        strings_view(r@) == spec_words(s@),
{
    split_whitespace(s)
}

/// Whether the comma-separated OS list names `os`.
pub fn oslist_contains(list: &str, os: &str) -> (r: bool)
    ensures
        r == spec_oslist_contains(list@, os@),
{
    let pieces = split_chars(&chars_of(list), ',');
    let os_chars = chars_of(os);
    let ghost sp = spec_split(list@, ',');
    assert(pieces@.map_values(|v: Vec<char>| v@) == sp);
    let mut i: usize = 0;
    while i < pieces.len()
        invariant
            pieces@.map_values(|v: Vec<char>| v@) == sp,
            sp == spec_split(list@, ','),
            os_chars@ == os@,
            i <= pieces.len(),
            forall|j: int| 0 <= j < i ==> !spec_eq_ignore_ascii_case(spec_trim(#[trigger] sp[j]), os@),
        decreases pieces.len() - i,
    {
        assert(sp[i as int] == pieces@[i as int]@);
        let t = trim_chars(&pieces[i]);
        if ascii_eq_ignore_case(&t, &os_chars) {
            assert(spec_eq_ignore_ascii_case(spec_trim(sp[i as int]), os@));
            return true;
        }
        i += 1;
    }
    false
}

fn is_none_type(t: &String) -> (r: bool)
    ensures
        r == spec_eq_ignore_ascii_case(t@, "none"@),
{
    let a = chars_of(t.as_str());
    let b = chars_of("none");
    ascii_eq_ignore_case(&a, &b)
}

fn is_usable(e: &LaunchEntry) -> (r: bool)
    ensures
        r == is_usable_entry(*e),
{
    if e.executable.as_str().is_empty() {
        return false;
    }
    if e.betakey.is_some() {
        return false;
    }
    match &e.launch_type {
        Some(t) => !is_none_type(t),
        None => true,
    }
}

/// Picks the best launch entry for `os` ("windows"/"linux"/"macos"), or `None` if none
/// applies. Skips beta-gated and disabled entries; prefers an entry that names this OS over
/// an OS-agnostic one.
pub fn select_launch_entry<'a>(entries: &'a [LaunchEntry], os: &str) -> (r: Option<&'a LaunchEntry>)
    ensures
        match r {
            Some(e) => spec_select_launch_entry(entries@, os@) matches Some(i) && *e == entries@[i],
            None => spec_select_launch_entry(entries@, os@) is None,
        },
{
    let mut os_specific: Option<usize> = None;
    let mut os_agnostic: Option<usize> = None;
    let mut i: usize = 0;
    while i < entries.len()
        invariant
            i <= entries.len(),
            first_os_specific(entries@, os@, 0) == match os_specific {
                Some(k) => Some(k as int),
                None => first_os_specific(entries@, os@, i as int),
            },
            first_os_agnostic(entries@, 0) == match os_agnostic {
                Some(k) => Some(k as int),
                None => first_os_agnostic(entries@, i as int),
            },
            os_specific matches Some(k) ==> k < entries.len(),
            os_agnostic matches Some(k) ==> k < entries.len(),
        decreases entries.len() - i,
    {
        let e = &entries[i];
        if is_usable(e) {
            match &e.oslist {
                Some(list) => {
                    if oslist_contains(list.as_str(), os) && os_specific.is_none() {
                        os_specific = Some(i);
                    }
                },
                None => {
                    if os_agnostic.is_none() {
                        os_agnostic = Some(i);
                    }
                },
            }
        }
        i += 1;
    }
    match os_specific {
        Some(k) => Some(&entries[k]),
        None => match os_agnostic {
            Some(k) => Some(&entries[k]),
            None => None,
        },
    }
}

/// Decides how to launch a game on `os`, given what is installed, the app's launch entries,
/// and whether it is known DRM-free. Returns [`LaunchPlan::Steam`] unless every direct-launch
/// precondition holds: the direct path is enabled, the game is fully installed, it is
/// DRM-free (or `force_direct` is set), and a launch entry suits this OS.
pub fn plan_launch(
    installed: Option<&InstalledApp>,
    entries: &[LaunchEntry],
    drm_free: bool,
    opts: &LaunchOptions,
    os: &str,
) -> (r: LaunchPlan)
    ensures
        r.plan_view() == spec_plan_launch(installed, entries@, drm_free, *opts, os@),
{
    if !opts.direct_launch {
        return LaunchPlan::Steam;
    }
    let app = match installed {
        Some(app) => app,
        None => {
            return LaunchPlan::Steam;
        },
    };
    if !app.is_fully_installed() {
        return LaunchPlan::Steam;
    }
    if !(drm_free || opts.force_direct) {
        return LaunchPlan::Steam;
    }
    let entry = match select_launch_entry(entries, os) {
        Some(e) => e,
        None => {
            return LaunchPlan::Steam;
        },
    };
    let install = app.install_path();
    let exe = join_path(install.as_str(), normalize_rel(entry.executable.as_str()).as_str());
    let workingdir = match &entry.workingdir {
        Some(dir) => if !dir.as_str().is_empty() {
            join_path(install.as_str(), normalize_rel(dir.as_str()).as_str())
        } else {
            install
        },
        None => install,
    };
    let mut args: Vec<String> = match &entry.arguments {
        Some(a) => split_args(a.as_str()),
        None => Vec::new(),
    };
    let ghost game_args = strings_view(args@);
    let mut i: usize = 0;
    while i < opts.args.len()
        invariant
            i <= opts.args.len(),
            strings_view(args@) == game_args + strings_view(opts.args@).take(i as int),
        decreases opts.args.len() - i,
    {
        let ghost before = args@;
        let a = opts.args[i].clone();
        assert(a@ == opts.args@[i as int]@);
        args.push(a);
        assert(args@ == before.push(a));
        assert(strings_view(args@) =~= strings_view(before).push(a@));
        i += 1;
        assert(strings_view(opts.args@).take(i as int) =~= strings_view(opts.args@).take(i - 1).push(
            opts.args@[i - 1]@,
        ));
        assert(strings_view(args@) =~= game_args + strings_view(opts.args@).take(i as int));
    }
    assert(strings_view(opts.args@).take(opts.args.len() as int) =~= strings_view(opts.args@));
    proof {
        if entry.arguments is None {
            assert(game_args =~= Seq::<Seq<char>>::empty());
        }
    }
    LaunchPlan::Direct { exe, workingdir, args }
}

// ------------------------------------------------------------------------------------------
// Steam-mediated launch commands
// ------------------------------------------------------------------------------------------

/// Builds the `(program, args)` of a Steam-mediated launch. `-silent` keeps Steam in the tray
/// (no window) when it has to be started.
pub fn build_command(exe: &str, appid: u32, silent: bool, extra: &[String]) -> (r: (String, Vec<String>))
    ensures
        r.0@ == exe@,
        strings_view(r.1@) == spec_steam_args(appid, silent, strings_view(extra@)),
{
    let mut args: Vec<String> = Vec::new();
    if silent {
        args.push("-silent".to_owned());
    }
    args.push("-applaunch".to_owned());
    args.push(decimal_string(appid as u64));
    let ghost head = strings_view(args@);
    proof {
        let h: Seq<Seq<char>> = if silent {
            seq!["-silent"@]
        } else {
            Seq::empty()
        };
        assert(head =~= h + seq!["-applaunch"@, spec_decimal(appid as nat)]);
    }
    let mut i: usize = 0;
    while i < extra.len()
        invariant
            i <= extra.len(),
            strings_view(args@) == head + strings_view(extra@).take(i as int),
        decreases extra.len() - i,
    {
        let ghost before = args@;
        let a = extra[i].clone();
        assert(a@ == extra@[i as int]@);
        args.push(a);
        assert(args@ == before.push(a));
        assert(strings_view(args@) =~= strings_view(before).push(a@));
        i += 1;
        assert(strings_view(extra@).take(i as int) =~= strings_view(extra@).take(i - 1).push(
            extra@[i - 1]@,
        ));
        assert(strings_view(args@) =~= head + strings_view(extra@).take(i as int));
    }
    assert(strings_view(extra@).take(extra.len() as int) =~= strings_view(extra@));
    (exe.to_owned(), args)
}

/// Renders a command for display/logging: the program and its arguments joined by spaces.
/// Not shell-escaped — informational only.
pub fn format_command(program: &str, args: &[String]) -> (r: String)
    ensures
        r@ == spec_command_line(program@, strings_view(args@)),
{
    let mut out = chars_of(program);
    let mut i: usize = 0;
    while i < args.len()
        invariant
            i <= args.len(),
            out@ == spec_command_line(program@, strings_view(args@).take(i as int)),
        decreases args.len() - i,
    {
        let ghost before = out@;
        out.push(' ');
        let a = chars_of(args[i].as_str());
        let mut j: usize = 0;
        while j < a.len()
            invariant
                j <= a.len(),
                out@ == before + seq![' '] + a@.take(j as int),
            decreases a.len() - j,
        {
            out.push(a[j]);
            j += 1;
            assert(out@ =~= before + seq![' '] + a@.take(j as int));
        }
        assert(a@.take(a.len() as int) =~= a@);
        assert(strings_view(args@).take(i + 1).drop_last() =~= strings_view(args@).take(i as int));
        i += 1;
    }
    assert(strings_view(args@).take(args.len() as int) =~= strings_view(args@));
    string_from_chars(&out)
}

// ------------------------------------------------------------------------------------------
// Steam executable resolution and launch outcomes
// ------------------------------------------------------------------------------------------

/// Why the Steam executable could not be resolved.
#[derive(Debug, Clone, PartialEq, Eq)]
pub enum LaunchError {
    /// The configured `[launch] steam_path` does not exist.
    SteamPathMissing(String),
    /// No override is configured and no Steam install was found.
    SteamNotFound,
}

impl LaunchError {
    /// The error's text.
    pub open spec fn spec_message(&self) -> Seq<char> {
        match self {
            LaunchError::SteamPathMissing(p) => "configured [launch] steam_path does not exist: "@ + p@,
            LaunchError::SteamNotFound => "could not locate the Steam executable; set [launch] steam_path in config.toml"@,
        }
    }

    /// The error's text.
    pub fn message(&self) -> (r: String)
        ensures
            r@ == self.spec_message(),
    {
        match self {
            LaunchError::SteamPathMissing(p) => {
                let mut s = String::from_str("configured [launch] steam_path does not exist: ");
                s.append(p.as_str());
                s
            },
            LaunchError::SteamNotFound => String::from_str(
                "could not locate the Steam executable; set [launch] steam_path in config.toml",
            ),
        }
    }
}

/// The configured Steam path, when one is set (non-empty).
pub fn steam_path_override(override_path: Option<&str>) -> (r: Option<String>)
    ensures
        match r {
            Some(p) => override_path matches Some(o) && o@.len() > 0 && p@ == o@,
            None => !(override_path matches Some(o) && o@.len() > 0),
        },
{
    match override_path {
        Some(p) => if !p.is_empty() {
            Some(p.to_owned())
        } else {
            None
        },
        None => None,
    }
}

/// Resolves the Steam executable, honouring an explicit override first: a set override is
/// used when `override_exists`, and is an error otherwise; with no override the platform
/// probe's answer `platform_exe` is used, and its absence is an error.
pub fn resolve_steam_exe(override_path: Option<&str>, override_exists: bool, platform_exe: Option<
    String,
>) -> (r: Result<String, LaunchError>)
    ensures
        (override_path matches Some(o) && o@.len() > 0) ==> (if override_exists {
            r matches Ok(p) && p@ == override_path->0@
        } else {
            r matches Err(LaunchError::SteamPathMissing(p)) && p@ == override_path->0@
        }),
        !(override_path matches Some(o) && o@.len() > 0) ==> match platform_exe {
            Some(p) => r == Ok::<String, LaunchError>(p),
            None => r == Err::<String, LaunchError>(LaunchError::SteamNotFound),
        },
{
    match steam_path_override(override_path) {
        Some(p) => if override_exists {
            Ok(p)
        } else {
            Err(LaunchError::SteamPathMissing(p))
        },
        None => match platform_exe {
            Some(p) => Ok(p),
            None => Err(LaunchError::SteamNotFound),
        },
    }
}

/// Outcome of a dry run: nothing spawned, Steam not started.
pub fn dry_run_outcome(command_line: String, direct: bool) -> (r: LaunchOutcome)
    ensures
        r.command_line == command_line,
        r.dry_run,
        !r.started_steam,
        r.direct == direct,
{
    LaunchOutcome { command_line, started_steam: false, dry_run: true, direct }
}

/// Outcome of a spawned Steam-mediated launch: it started Steam exactly when Steam was not
/// already running.
pub fn steam_launch_outcome(command_line: String, was_running: bool) -> (r: LaunchOutcome)
    ensures
        r.command_line == command_line,
        !r.dry_run,
        r.started_steam == !was_running,
        !r.direct,
{
    LaunchOutcome { command_line, started_steam: !was_running, dry_run: false, direct: false }
}

/// Outcome of a spawned direct launch: Steam is never started.
pub fn direct_launch_outcome(command_line: String) -> (r: LaunchOutcome)
    ensures
        r.command_line == command_line,
        !r.dry_run,
        !r.started_steam,
        r.direct,
{
    LaunchOutcome { command_line, started_steam: false, dry_run: false, direct: true }
}

/// What a launch does with its command: a dry run previews it (the outcome, nothing
/// spawned); otherwise the command is spawned.
pub enum LaunchStep {
    Preview(LaunchOutcome),
    Spawn,
}

/// The step for a launch of `command_line`, direct or through Steam.
pub fn launch_step(command_line: String, dry_run: bool, direct: bool) -> (r: LaunchStep)
    ensures
        dry_run ==> r == (LaunchStep::Preview(
            LaunchOutcome { command_line, started_steam: false, dry_run: true, direct },
        )),
        !dry_run ==> r is Spawn,
{
    if dry_run {
        LaunchStep::Preview(dry_run_outcome(command_line, direct))
    } else {
        LaunchStep::Spawn
    }
}

/// Whether to watch the game and shut Steam down when it exits: only a Steam that this launch
/// started, and only when asked to.
pub fn should_watch_for_exit(outcome: &LaunchOutcome, kill_steam_on_exit: bool) -> (r: bool)
    ensures
        r == (outcome.started_steam && kill_steam_on_exit),
{
    outcome.started_steam && kill_steam_on_exit
}

// ------------------------------------------------------------------------------------------
// Steam's registry, read best-effort to tell whether Steam and a game are running
// ------------------------------------------------------------------------------------------

/// The text after `kind` on a `reg query` output line of the form
/// `<value> <whitespace> <kind> <rest>` (the line itself trimmed first).
pub open spec fn spec_reg_line(line: Seq<char>, value: Seq<char>, kind: Seq<char>) -> Option<Seq<char>> {
    let t = spec_trim(line);
    if starts_with(t, value) {
        let rest = spec_trim_start(t.skip(value.len() as int));
        if starts_with(rest, kind) {
            Some(rest.skip(kind.len() as int))
        } else {
            None
        }
    } else {
        None
    }
}

/// The first line, in order, that carries `value` of type `kind`, and what follows the type.
pub open spec fn spec_reg_first(lines: Seq<Seq<char>>, value: Seq<char>, kind: Seq<char>) -> Option<
    Seq<char>,
>
    decreases lines.len(),
{
    if lines.len() == 0 {
        None
    } else {
        match spec_reg_line(lines[0], value, kind) {
            Some(after) => Some(after),
            None => spec_reg_first(lines.drop_first(), value, kind),
        }
    }
}

/// The `REG_SZ` data of `value` in `reg query` output. Lines are taken between `\n`s; a
/// trailing `\r` is whitespace and trimmed away, so this agrees with `str::lines`.
pub open spec fn spec_parse_reg_sz(stdout: Seq<char>, value: Seq<char>) -> Option<Seq<char>> {
    match spec_reg_first(spec_split(stdout, '\n'), value, "REG_SZ"@) {
        Some(after) => Some(spec_trim(after)),
        None => None,
    }
}

/// The `REG_DWORD` data of `value` in `reg query` output, read as hexadecimal with an optional
/// `0x`/`0X` prefix. The first line that carries the value decides, even when its data does not
/// read as a number.
pub open spec fn spec_parse_reg_dword(stdout: Seq<char>, value: Seq<char>) -> Option<int> {
    match spec_reg_first(spec_split(stdout, '\n'), value, "REG_DWORD"@) {
        Some(after) => {
            let hex = spec_trim(after);
            let digits = if starts_with(hex, "0x"@) || starts_with(hex, "0X"@) {
                hex.skip(2)
            } else {
                hex
            };
            spec_parse_unsigned(digits, 16, 0xffff_ffff_ffff_ffff)
        },
        None => None,
    }
}

/// For the characters of one line, the text after `kind` when the line carries `value`.
fn reg_line(line: &[char], value: &[char], kind: &[char]) -> (r: Option<Vec<char>>)
    ensures
        match r {
            Some(after) => spec_reg_line(line@, value@, kind@) == Some(after@),
            None => spec_reg_line(line@, value@, kind@) is None,
        },
{
    let t = trim_chars(line);
    if !occurs_at_exec(&t, value, 0) {
        return None;
    }
    let k = trim_start_index(&t, value.len());
    assert(t@.skip(value.len() as int) =~= t@.subrange(value.len() as int, t.len() as int));
    let ghost rest = t@.subrange(k as int, t.len() as int);
    if !occurs_at_exec(&t, kind, k) {
        assert(!starts_with(rest, kind@)) by {
            if starts_with(rest, kind@) {
                assert(t@.subrange(k as int, k + kind.len()) =~= rest.subrange(0, kind.len() as int));
            }
        }
        return None;
    }
    assert(rest.subrange(0, kind.len() as int) =~= t@.subrange(k as int, k + kind.len()));
    let after = slice_chars(&t, k + kind.len(), t.len());
    assert(after@ =~= rest.skip(kind.len() as int));
    Some(after)
}

/// The text after `kind` on the first line of `stdout` that carries `value`.
fn reg_first(stdout: &str, value: &str, kind: &str) -> (r: Option<Vec<char>>)
    ensures
        match r {
            Some(after) => spec_reg_first(spec_split(stdout@, '\n'), value@, kind@) == Some(after@),
            None => spec_reg_first(spec_split(stdout@, '\n'), value@, kind@) is None,
        },
{
    let lines = split_chars(&chars_of(stdout), '\n');
    let v = chars_of(value);
    let k = chars_of(kind);
    let ghost ls = spec_split(stdout@, '\n');
    assert(ls.skip(0) =~= ls);
    let mut i: usize = 0;
    while i < lines.len()
        invariant
            lines@.map_values(|l: Vec<char>| l@) == ls,
            ls == spec_split(stdout@, '\n'),
            v@ == value@,
            k@ == kind@,
            i <= lines.len(),
            spec_reg_first(ls, value@, kind@) == spec_reg_first(ls.skip(i as int), value@, kind@),
        decreases lines.len() - i,
    {
        assert(ls[i as int] == lines@[i as int]@);
        assert(ls.skip(i as int)[0] == ls[i as int]);
        assert(ls.skip(i as int).drop_first() =~= ls.skip(i + 1));
        match reg_line(&lines[i], &v, &k) {
            Some(after) => {
                return Some(after);
            },
            None => {},
        }
        i += 1;
    }
    None
}

/// Extracts a `REG_SZ` value from `reg query` output.
pub fn parse_reg_sz(stdout: &str, value: &str) -> (r: Option<String>)
    ensures
        match r {
            Some(s) => spec_parse_reg_sz(stdout@, value@) == Some(s@),
            None => spec_parse_reg_sz(stdout@, value@) is None,
        },
{
    match reg_first(stdout, value, "REG_SZ") {
        Some(after) => {
            let t = trim_chars(&after);
            Some(string_from_chars(&t))
        },
        None => None,
    }
}

/// Extracts a `REG_DWORD` value (hexadecimal) from `reg query` output.
pub fn parse_reg_dword(stdout: &str, value: &str) -> (r: Option<u64>)
    ensures
        match r {
            Some(v) => spec_parse_reg_dword(stdout@, value@) == Some(v as int),
            None => spec_parse_reg_dword(stdout@, value@) is None,
        },
{
    match reg_first(stdout, value, "REG_DWORD") {
        Some(after) => {
            let hex = trim_chars(&after);
            let lower_prefix = chars_of("0x");
            let upper_prefix = chars_of("0X");
            proof {
                reveal_strlit("0x");
                reveal_strlit("0X");
            }
            let digits = if occurs_at_exec(&hex, &lower_prefix, 0) || occurs_at_exec(&hex, &upper_prefix, 0) {
                slice_chars(&hex, 2, hex.len())
            } else {
                slice_chars(&hex, 0, hex.len())
            };
            assert(hex@.subrange(0, hex.len() as int) =~= hex@);
            assert(hex@.len() >= 2 ==> hex@.subrange(2, hex.len() as int) =~= hex@.skip(2));
            parse_unsigned(&digits, 16, 0xffff_ffff_ffff_ffff)
        },
        None => None,
    }
}

/// End (exclusive) of the brace-balanced block scanned from `i` at nesting `depth`: just past
/// the `}` that closes it, or the end of `s` when it never closes.
pub open spec fn spec_block_end(s: Seq<char>, i: int, depth: int) -> int
    decreases s.len() - i,
{
    if i < 0 || i >= s.len() {
        s.len() as int
    } else if s[i] == '{' {
        spec_block_end(s, i + 1, depth + 1)
    } else if s[i] == '}' {
        if depth - 1 == 0 {
            i + 1
        } else {
            spec_block_end(s, i + 1, depth - 1)
        }
    } else {
        spec_block_end(s, i + 1, depth)
    }
}

/// End of the brace-balanced block that opens at `open`.
fn block_end(after: &[char], open: usize) -> (end: usize)
    requires
        open < after.len(),
        after@[open as int] == '{',
    ensures
        open < end <= after.len(),
        end == spec_block_end(after@, open as int, 0),
{
    let mut depth: usize = 0;
    let mut j = open;
    while j < after.len()
        invariant
            open <= j <= after.len(),
            after@[open as int] == '{',
            j == open ==> depth == 0,
            j > open ==> depth >= 1,
            depth <= j - open,
            spec_block_end(after@, open as int, 0) == spec_block_end(after@, j as int, depth as int),
        decreases after.len() - j,
    {
        let c = after[j];
        if c == '{' {
            depth += 1;
        } else if c == '}' {
            if depth == 1 {
                return j + 1;
            }
            depth -= 1;
        }
        j += 1;
    }
    after.len()
}

/// `"<appid>"`.
pub open spec fn spec_quoted_appid(appid: u32) -> Seq<char> {
    seq!['"'] + spec_decimal(appid as nat) + seq!['"']
}

/// The `"<appid>" { … }` block of a `registry.vdf` text: from the first `{` after the first
/// occurrence of `"<appid>"` to its matching `}` (or the end of the text).
pub open spec fn spec_registry_block(vdf: Seq<char>, appid: u32) -> Option<Seq<char>> {
    let needle = spec_quoted_appid(appid);
    match spec_find_from(vdf, needle, 0) {
        None => None,
        Some(start) => {
            let after = vdf.skip(start + needle.len());
            match spec_find_from(after, seq!['{'], 0) {
                None => None,
                Some(open) => Some(after.subrange(open, spec_block_end(after, open, 0))),
            }
        },
    }
}

/// `s` without its leading `"` characters (`trim_start_matches('"')`).
pub open spec fn spec_strip_quotes(s: Seq<char>) -> Seq<char>
    decreases s.len(),
{
    if s.len() > 0 && s[0] == '"' {
        spec_strip_quotes(s.drop_first())
    } else {
        s
    }
}

/// Whether a lowercased app block flags the app as running: its first `"running"` is followed
/// (after whitespace and quotes) by `1`.
pub open spec fn spec_block_running(lowered: Seq<char>) -> bool {
    match spec_find_from(lowered, "\"running\""@, 0) {
        None => false,
        Some(rp) => {
            let tail = spec_strip_quotes(spec_trim_start(lowered.skip(rp + 9)));
            tail.len() > 0 && tail[0] == '1'
        },
    }
}

/// Whether Steam's Linux `registry.vdf` flags `appid`'s block as running.
pub open spec fn spec_parse_registry_vdf_running(vdf: Seq<char>, appid: u32) -> bool {
    match spec_registry_block(vdf, appid) {
        None => false,
        Some(block) => spec_block_running(spec_lowercase(block)),
    }
}

/// Whether a lowercased app block from `registry.vdf` flags the app as running.
pub fn registry_block_running(lowered: &str) -> (r: bool)
    ensures
        r == spec_block_running(lowered@),
{
    let b = chars_of(lowered);
    let needle = chars_of("\"running\"");
    proof {
        reveal_strlit("\"running\"");
    }
    match find_from(&b, &needle, 0) {
        None => false,
        Some(rp) => {
            assert(needle@.len() == 9);
            assert(occurs_at(b@, needle@, rp as int));
            assert(rp + 9 <= b@.len());
            let bl = b.len();
            let k = trim_start_index(&b, rp + 9);
            assert(b@.skip(rp + 9) =~= b@.subrange(rp + 9, b.len() as int));
            let mut j = k;
            while j < b.len() && b[j] == '"'
                invariant
                    k <= j <= b.len(),
                    spec_strip_quotes(b@.subrange(k as int, b.len() as int)) == spec_strip_quotes(
                        b@.subrange(j as int, b.len() as int),
                    ),
                decreases b.len() - j,
            {
                assert(b@.subrange(j as int, b.len() as int).drop_first() =~= b@.subrange(
                    j + 1,
                    b.len() as int,
                ));
                j += 1;
            }
            assert(spec_strip_quotes(b@.subrange(j as int, b.len() as int)) == b@.subrange(
                j as int,
                b.len() as int,
            ));
            j < b.len() && b[j] == '1'
        },
    }
}

/// Best-effort reading of Steam's Linux `registry.vdf`: is `appid`'s block flagged `running`?
/// Finds the `"<appid>" { … }` block (brace-balanced, so only that app's own block is seen) and
/// looks for `"running" "1"` inside it, ignoring case.
pub fn parse_registry_vdf_running(vdf: &str, appid: u32) -> (r: bool)
    ensures
        r == spec_parse_registry_vdf_running(vdf@, appid),
{
    let s = chars_of(vdf);
    let mut needle: Vec<char> = Vec::new();
    needle.push('"');
    let digits = chars_of(decimal_string(appid as u64).as_str());
    let mut i: usize = 0;
    while i < digits.len()
        invariant
            i <= digits.len(),
            needle@ == seq!['"'] + digits@.take(i as int),
        decreases digits.len() - i,
    {
        needle.push(digits[i]);
        i += 1;
        assert(needle@ =~= seq!['"'] + digits@.take(i as int));
    }
    needle.push('"');
    assert(digits@.take(digits.len() as int) =~= digits@);
    assert(needle@ =~= spec_quoted_appid(appid));
    let start = match find_from(&s, &needle, 0) {
        Some(st) => st,
        None => {
            return false;
        },
    };
    assert(occurs_at(s@, needle@, start as int));
    assert(start + needle@.len() <= s@.len());
    let sl = s.len();
    let nl = needle.len();
    let after = slice_chars(&s, start + needle.len(), s.len());
    assert(after@ =~= s@.skip(start + needle.len()));
    let mut brace: Vec<char> = Vec::new();
    brace.push('{');
    assert(brace@ =~= seq!['{']);
    let open = match find_from(&after, &brace, 0) {
        Some(o) => o,
        None => {
            return false;
        },
    };
    assert(after@[open as int] == '{') by {
        assert(after@.subrange(open as int, open + 1)[0] == after@[open as int]);
    }
    let end = block_end(&after, open);
    let block = string_from_chars(&slice_chars(&after, open, end));
    let lowered = to_lowercase(block.as_str());
    registry_block_running(lowered.as_str())
}

} // verus!
