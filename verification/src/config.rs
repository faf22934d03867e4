//! The client's configuration (`config.toml`) and its defaults. Reading and deserializing the
//! file happen outside the library; here are the values, their defaults, and how launch
//! options are derived from them.

use vstd::prelude::*;

use crate::launcher::LaunchOptions;
use crate::text::{
    chars_of,
    decimal_string,
    spec_decimal,
    spec_trim,
    spec_words,
    split_whitespace,
    string_from_chars,
    strings_view,
    trim_chars,
};

verus! {

/// Seconds in a day.
pub const SECONDS_PER_DAY: u64 = 86_400;

/// The whole configuration.
#[derive(Debug, Clone, PartialEq, Eq)]
pub struct Config {
    pub api_key: Option<String>,
    pub steam_id: Option<String>,
    pub auth: AuthConfig,
    pub ui: UiConfig,
    pub chat: ChatConfig,
    pub launch: LaunchConfig,
}

/// How to sign in.
#[derive(Debug, Clone, PartialEq, Eq)]
pub struct AuthConfig {
    pub method: AuthMethod,
    pub account_name: Option<String>,
}

/// Sign-in method: a QR code scanned with the Steam app, or account name and password.
#[derive(Debug, Clone, Copy, PartialEq, Eq, Structural)]
pub enum AuthMethod {
    Qr,
    Credentials,
}

/// User-interface settings.
#[derive(Debug, Clone, PartialEq, Eq)]
pub struct UiConfig {
    pub tick_rate_ms: u64,
    pub theme: String,
}

/// Chat behaviour: notifications and local history retention.
#[derive(Debug, Clone, PartialEq, Eq)]
pub struct ChatConfig {
    /// Ring the terminal bell on an incoming message.
    pub notifications_enabled: bool,
    /// Also raise a desktop notification. Off by default.
    pub desktop_notifications: bool,
    /// Days of locally-cached history to keep. `0` means keep everything.
    pub history_retention_days: u32,
}

/// Game-launch behaviour. Launches are Steam-mediated by default; the experimental direct path
/// starts DRM-free games without waking Steam.
#[derive(Debug, Clone, PartialEq, Eq)]
pub struct LaunchConfig {
    /// Explicit Steam executable path; empty means auto-detect.
    pub steam_path: String,
    /// Report the launch command instead of spawning it.
    pub dry_run: bool,
    /// If the client started Steam, shut it down once the game exits (best-effort).
    pub kill_steam_on_exit: bool,
    /// Start Steam quietly (minimized to tray, no window) for Steam-mediated launches.
    pub silent: bool,
    /// Experimental: launch games on the DRM-free list directly, with no Steam client.
    pub direct_launch: bool,
    /// Experimental: with `direct_launch`, also try the direct path for installed games not on
    /// the DRM-free list.
    pub force_direct: bool,
    /// Arguments appended to every launch (whitespace-separated).
    pub extra_args: String,
    /// Per-game launch arguments, keyed by appid as a string (e.g. `"730"` → `"-novid"`).
    /// Keys are distinct.
    pub game_args: Vec<(String, String)>,
}

/// Default UI tick rate in milliseconds.
pub fn default_tick_rate() -> (r: u64)
    ensures
        r == 250,
{
    250
}

/// Default theme name.
pub fn default_theme() -> (r: String)
    ensures
        r@ == "dark"@,
{
    String::from_str("dark")
}

/// The default of flags that are on unless configured off.
pub fn default_true() -> (r: bool)
    ensures
        r,
{
    true
}

/// Default number of days of chat history to keep.
pub fn default_history_retention_days() -> (r: u32)
    ensures
        r == 30,
{
    30
}

impl Default for AuthMethod {
    fn default() -> (r: AuthMethod)
        ensures
            r == AuthMethod::Qr,
    {
        AuthMethod::Qr
    }
}

impl Default for AuthConfig {
    fn default() -> (r: AuthConfig)
        ensures
            r.method == AuthMethod::Qr,
            r.account_name is None,
    {
        AuthConfig { method: AuthMethod::Qr, account_name: None }
    }
}

impl Default for UiConfig {
    fn default() -> (r: UiConfig)
        ensures
            r.tick_rate_ms == 250,
            r.theme@ == "dark"@,
    {
        UiConfig { tick_rate_ms: default_tick_rate(), theme: default_theme() }
    }
}

impl Default for ChatConfig {
    fn default() -> (r: ChatConfig)
        ensures
            r.notifications_enabled,
            !r.desktop_notifications,
            r.history_retention_days == 30,
    {
        ChatConfig {
            notifications_enabled: default_true(),
            desktop_notifications: false,
            history_retention_days: default_history_retention_days(),
        }
    }
}

impl Default for LaunchConfig {
    fn default() -> (r: LaunchConfig)
        ensures
            r.steam_path@ == Seq::<char>::empty(),
            !r.dry_run,
            !r.kill_steam_on_exit,
            r.silent,
            !r.direct_launch,
            !r.force_direct,
            r.extra_args@ == Seq::<char>::empty(),
            r.game_args@.len() == 0,
    {
        LaunchConfig {
            steam_path: String::new(),
            dry_run: false,
            kill_steam_on_exit: false,
            silent: default_true(),
            direct_launch: false,
            force_direct: false,
            extra_args: String::new(),
            game_args: Vec::new(),
        }
    }
}

impl Default for Config {
    fn default() -> (r: Config)
        ensures
            r.api_key is None,
            r.steam_id is None,
            r.auth.method == AuthMethod::Qr,
            r.auth.account_name is None,
            r.ui.tick_rate_ms == 250,
            r.ui.theme@ == "dark"@,
            r.chat.notifications_enabled,
            !r.chat.desktop_notifications,
            r.chat.history_retention_days == 30,
            r.launch.steam_path@ == Seq::<char>::empty(),
            !r.launch.dry_run,
            !r.launch.kill_steam_on_exit,
            r.launch.silent,
            !r.launch.direct_launch,
            !r.launch.force_direct,
            r.launch.extra_args@ == Seq::<char>::empty(),
            r.launch.game_args@.len() == 0,
    {
        Config {
            api_key: None,
            steam_id: None,
            auth: AuthConfig::default(),
            ui: UiConfig::default(),
            chat: ChatConfig::default(),
            launch: LaunchConfig::default(),
        }
    }
}

/// The per-game arguments configured for the appid whose decimal text is `key`.
pub open spec fn spec_game_args_for(game_args: Seq<(String, String)>, key: Seq<char>) -> Option<
    Seq<char>,
>
    decreases game_args.len(),
{
    if game_args.len() == 0 {
        None
    } else if game_args[0].0@ == key {
        Some(game_args[0].1@)
    } else {
        spec_game_args_for(game_args.drop_first(), key)
    }
}

/// With distinct keys, the per-game arguments found for a key are those of the one entry
/// with that key, and none are found when no entry has it.
pub proof fn lemma_game_args_lookup(c: LaunchConfig, key: Seq<char>)
    requires
        c.game_args_distinct(),
    ensures
        forall|i: int|
            0 <= i < c.game_args@.len() && #[trigger] c.game_args@[i].0@ == key ==> spec_game_args_for(
                c.game_args@,
                key,
            ) == Some(c.game_args@[i].1@),
        (forall|i: int| 0 <= i < c.game_args@.len() ==> #[trigger] c.game_args@[i].0@ != key)
            ==> spec_game_args_for(c.game_args@, key) is None,
{
    let s = c.game_args@;
    lemma_lookup_first(s, key);
    assert forall|i: int| 0 <= i < s.len() && #[trigger] s[i].0@ == key implies spec_game_args_for(
        s,
        key,
    ) == Some(s[i].1@) by {
        assert forall|j: int| 0 <= j < i implies s[j].0@ != key by {
            assert(s[j].0@ != s[i].0@);
        }
    }
}

proof fn lemma_lookup_first(s: Seq<(String, String)>, key: Seq<char>)
    ensures
        forall|i: int|
            0 <= i < s.len() && #[trigger] s[i].0@ == key && (forall|j: int| 0 <= j < i ==> s[j].0@ != key)
                ==> spec_game_args_for(s, key) == Some(s[i].1@),
        (forall|i: int| 0 <= i < s.len() ==> #[trigger] s[i].0@ != key) ==> spec_game_args_for(s, key) is None,
    decreases s.len(),
{
    if s.len() > 0 {
        lemma_lookup_first(s.drop_first(), key);
        assert forall|i: int|
            0 <= i < s.len() && #[trigger] s[i].0@ == key && (forall|j: int| 0 <= j < i ==> s[j].0@ != key)
                implies spec_game_args_for(s, key) == Some(s[i].1@) by {
            if i > 0 {
                assert(s[0].0@ != key);
                assert(s.drop_first()[i - 1] == s[i]);
                assert forall|j: int| 0 <= j < i - 1 implies s.drop_first()[j].0@ != key by {
                    assert(s.drop_first()[j] == s[j + 1]);
                }
            }
        }
        if forall|i: int| 0 <= i < s.len() ==> #[trigger] s[i].0@ != key {
            assert(s[0].0@ != key);
            assert forall|i: int| 0 <= i < s.drop_first().len() implies #[trigger] s.drop_first()[i].0@ != key by {
                assert(s.drop_first()[i] == s[i + 1]);
            }
        }
    }
}

/// The launch arguments for `appid`: the global `extra_args` words, then that game's
/// `game_args` words.
pub open spec fn spec_launch_args(c: LaunchConfig, appid: u32) -> Seq<Seq<char>> {
    spec_words(c.extra_args@) + match spec_game_args_for(c.game_args@, spec_decimal(appid as nat)) {
        Some(a) => spec_words(a),
        None => Seq::empty(),
    }
}

/// The Steam path override: the trimmed `steam_path`, unless that is empty.
pub open spec fn spec_steam_path_override(c: LaunchConfig) -> Option<Seq<char>> {
    if spec_trim(c.steam_path@).len() == 0 {
        None
    } else {
        Some(spec_trim(c.steam_path@))
    }
}

impl LaunchConfig {
    /// The per-game arguments make a map: no appid key occurs twice (as in the configuration
    /// file's `[launch.game_args]` table).
    pub open spec fn game_args_distinct(&self) -> bool {
        forall|i: int, j: int|
            0 <= i < j < self.game_args@.len() ==> #[trigger] self.game_args@[i].0@
                != #[trigger] self.game_args@[j].0@
    }

    /// Index of the `game_args` entry keyed `key`, if any.
    fn game_args_index(&self, key: &String) -> (r: Option<usize>)
        ensures
            match r {
                Some(k) => k < self.game_args@.len() && spec_game_args_for(self.game_args@, key@)
                    == Some(self.game_args@[k as int].1@),
                None => spec_game_args_for(self.game_args@, key@) is None,
            },
    {
        let mut i: usize = 0;
        assert(self.game_args@.skip(0) =~= self.game_args@);
        while i < self.game_args.len()
            invariant
                i <= self.game_args.len(),
                spec_game_args_for(self.game_args@, key@) == spec_game_args_for(
                    self.game_args@.skip(i as int),
                    key@,
                ),
            decreases self.game_args.len() - i,
        {
            assert(self.game_args@.skip(i as int).drop_first() =~= self.game_args@.skip(i + 1));
            assert(self.game_args@.skip(i as int)[0] == self.game_args@[i as int]);
            if self.game_args[i].0 == *key {
                return Some(i);
            }
            i += 1;
        }
        None
    }

    /// Builds [`LaunchOptions`] for `appid`, merging the global `extra_args` with this game's
    /// `game_args` entry.
    pub fn options_for(&self, appid: u32) -> (r: LaunchOptions)
        ensures
            strings_view(r.args@) == spec_launch_args(*self, appid),
            match r.steam_path {
                Some(p) => spec_steam_path_override(*self) == Some(p@),
                None => spec_steam_path_override(*self) is None,
            },
            r.dry_run == self.dry_run,
            r.kill_steam_on_exit == self.kill_steam_on_exit,
            r.silent == self.silent,
            r.direct_launch == self.direct_launch,
            r.force_direct == self.force_direct,
    {
        let mut args = split_whitespace(self.extra_args.as_str());
        let key = decimal_string(appid as u64);
        let found = self.game_args_index(&key);
        let ghost global = strings_view(args@);
        match found {
            Some(k) => {
                let per_game = split_whitespace(self.game_args[k].1.as_str());
                let mut j: usize = 0;
                while j < per_game.len()
                    invariant
                        j <= per_game.len(),
                        strings_view(args@) == global + strings_view(per_game@).take(j as int),
                    decreases per_game.len() - j,
                {
                    let ghost before = args@;
                    let a = per_game[j].clone();
                    args.push(a);
                    assert(strings_view(args@) =~= strings_view(before).push(a@));
                    j += 1;
                    assert(strings_view(per_game@).take(j as int) =~= strings_view(per_game@).take(
                        j - 1,
                    ).push(per_game@[j - 1]@));
                }
                assert(strings_view(per_game@).take(per_game.len() as int) =~= strings_view(
                    per_game@,
                ));
            },
            None => {
                assert(strings_view(args@) =~= global + Seq::<Seq<char>>::empty());
            },
        }
        let trimmed = trim_chars(&chars_of(self.steam_path.as_str()));
        let steam_path = if trimmed.len() == 0 {
            None
        } else {
            Some(string_from_chars(&trimmed))
        };
        LaunchOptions {
            steam_path,
            dry_run: self.dry_run,
            kill_steam_on_exit: self.kill_steam_on_exit,
            silent: self.silent,
            direct_launch: self.direct_launch,
            force_direct: self.force_direct,
            args,
        }
    }
}

} // verus!
