//! Where the client keeps its files: configuration, saved login, chat history and the
//! per-user DRM-free list. The platform's base directories come from the `dirs` crate; how
//! the client's own paths are built on them is decided here.

use vstd::prelude::*;

use crate::paths::{join_path, spec_join};

verus! {

/// The platform's state directory (`dirs::state_dir`), as text. It depends on the platform
/// and the environment, so nothing is promised about it. Paths are text here: a name that is
/// not valid UTF-8 comes back with its invalid bytes replaced.
#[verifier::external_body]
fn platform_state_dir() -> Option<String> {
    dirs::state_dir().map(|p| p.to_string_lossy().into_owned())
}

/// The platform's configuration directory (`dirs::config_dir`), as text. It depends on the
/// platform and the environment, so nothing is promised about it. Paths are text here: a name that is
/// not valid UTF-8 comes back with its invalid bytes replaced.
#[verifier::external_body]
fn platform_config_dir() -> Option<String> {
    dirs::config_dir().map(|p| p.to_string_lossy().into_owned())
}

/// The user's home directory (`dirs::home_dir`), as text. It depends on the platform and the
/// environment, so nothing is promised about it. Paths are text here: a name that is not
/// valid UTF-8 comes back with its invalid bytes replaced.
#[verifier::external_body]
fn platform_home_dir() -> Option<String> {
    dirs::home_dir().map(|p| p.to_string_lossy().into_owned())
}

/// The directory the client keeps its state under, given the platform's state, configuration
/// and home directories: the first of them that is known, the home one as `<home>/.config`,
/// and `.config` when none is.
pub open spec fn spec_state_root(state: Option<Seq<char>>, config: Option<Seq<char>>, home: Option<Seq<char>>) -> Seq<char> {
    match state {
        Some(s) => s,
        None => match config {
            Some(c) => c,
            None => match home {
                Some(h) => spec_join(h, ".config"@),
                None => ".config"@,
            },
        },
    }
}

pub open spec fn opt_view(o: Option<String>) -> Option<Seq<char>> {
    match o {
        Some(s) => Some(s@),
        None => None,
    }
}

/// The state root for given platform directories.
pub fn state_root_from(state: Option<String>, config: Option<String>, home: Option<String>) -> (r: String)
    ensures
        r@ == spec_state_root(opt_view(state), opt_view(config), opt_view(home)),
{
    match state {
        Some(s) => s,
        None => match config {
            Some(c) => c,
            None => match home {
                Some(h) => join_path(h.as_str(), ".config"),
                None => String::from_str(".config"),
            },
        },
    }
}

/// The state root on this machine: [`state_root_from`] applied to the platform directories,
/// each asked for only when the ones before it are unknown. Those directories depend on the
/// machine and nothing is promised of them, so no clause is stated of the result.
pub fn state_root() -> String {
    let state = platform_state_dir();
    if state.is_some() {
        return state_root_from(state, None, None);
    }
    let config = platform_config_dir();
    if config.is_some() {
        return state_root_from(None, config, None);
    }
    state_root_from(None, None, platform_home_dir())
}

/// `<root>/vapour/chat`.
pub open spec fn spec_chat_history_dir(root: Seq<char>) -> Seq<char> {
    spec_join(spec_join(root, "vapour"@), "chat"@)
}

/// `<root>/vapour/auth.toml`.
pub open spec fn spec_auth_state_path(root: Seq<char>) -> Seq<char> {
    spec_join(spec_join(root, "vapour"@), "auth.toml"@)
}

/// The chat-history directory under a given state root.
pub fn chat_history_dir_in(root: &str) -> (r: String)
    ensures
        r@ == spec_chat_history_dir(root@),
{
    let v = join_path(root, "vapour");
    join_path(v.as_str(), "chat")
}

/// The saved-login file under a given state root.
pub fn auth_state_path_in(root: &str) -> (r: String)
    ensures
        r@ == spec_auth_state_path(root@),
{
    let v = join_path(root, "vapour");
    join_path(v.as_str(), "auth.toml")
}

/// The chat-history directory on this machine.
pub fn chat_history_dir() -> (r: String)
    ensures
        exists|root: Seq<char>| r@ == spec_chat_history_dir(root),
{
    let root = state_root();
    chat_history_dir_in(root.as_str())
}

/// The saved-login file on this machine.
pub fn auth_state_path() -> (r: String)
    ensures
        exists|root: Seq<char>| r@ == spec_auth_state_path(root),
{
    let root = state_root();
    auth_state_path_in(root.as_str())
}

/// `<config>/steamie/config.toml`, where an unknown configuration directory reads as
/// `~/.config`.
pub open spec fn spec_config_path(config: Option<Seq<char>>) -> Seq<char> {
    let base = match config {
        Some(c) => c,
        None => "~/.config"@,
    };
    spec_join(spec_join(base, "steamie"@), "config.toml"@)
}

/// The configuration file for a given configuration directory.
pub fn config_path_in(config: Option<String>) -> (r: String)
    ensures
        r@ == spec_config_path(opt_view(config)),
{
    let base = match config {
        Some(c) => c,
        None => String::from_str("~/.config"),
    };
    let v = join_path(base.as_str(), "steamie");
    join_path(v.as_str(), "config.toml")
}

/// The configuration file on this machine.
pub fn config_path() -> (r: String)
    ensures
        exists|c: Option<Seq<char>>| r@ == spec_config_path(c),
{
    config_path_in(platform_config_dir())
}

/// `<config>/steamie/drm-free.md`, when the configuration directory is known.
pub open spec fn spec_user_list_path(config: Option<Seq<char>>) -> Option<Seq<char>> {
    match config {
        Some(c) => Some(spec_join(spec_join(c, "steamie"@), "drm-free.md"@)),
        None => None,
    }
}

/// The per-user DRM-free list for a given configuration directory.
pub fn user_list_path_in(config: Option<String>) -> (r: Option<String>)
    ensures
        opt_view(r) == spec_user_list_path(opt_view(config)),
{
    match config {
        Some(c) => {
            let v = join_path(c.as_str(), "steamie");
            Some(join_path(v.as_str(), "drm-free.md"))
        },
        None => None,
    }
}

/// The per-user DRM-free list on this machine, if the configuration directory is known.
pub fn user_list_path() -> (r: Option<String>)
    ensures
        exists|c: Option<Seq<char>>| opt_view(r) == spec_user_list_path(c),
{
    user_list_path_in(platform_config_dir())
}

} // verus!
