//! The Steam connection as the client sees it: sign-in progress, the sign-in attempt to make,
//! friends' presence, and the commands sent over a signed-in connection.

use vstd::prelude::*;

use crate::config::AuthMethod;

verus! {

/// Which Steam Guard step is outstanding.
#[derive(Debug, Clone, Copy, PartialEq, Eq, Structural)]
pub enum ProtocolGuardKind {
    EmailCode,
    DeviceCode,
    DeviceConfirmation,
}

/// Sign-in progress of the Steam connection.
#[derive(Debug, Clone, PartialEq, Eq)]
pub enum ProtocolStatus {
    Disconnected,
    Connecting,
    AwaitingQrScan { qr_url: String },
    AwaitingGuardCode { kind: ProtocolGuardKind },
    LoggedOn { account_name: String },
    Failed(String),
}

impl ProtocolStatus {
    /// The sign-in modal is shown while connecting or while waiting on the user.
    pub open spec fn spec_modal_visible(&self) -> bool {
        self is Connecting || self is AwaitingQrScan || self is AwaitingGuardCode
    }

    /// A code can be typed only while Steam Guard waits for an e-mail or device code.
    pub open spec fn spec_accepts_text_input(&self) -> bool {
        match self {
            ProtocolStatus::AwaitingGuardCode { kind } => kind == ProtocolGuardKind::EmailCode
                || kind == ProtocolGuardKind::DeviceCode,
            _ => false,
        }
    }

    pub fn modal_visible(&self) -> (r: bool)
        ensures
            r == self.spec_modal_visible(),
    {
        match self {
            ProtocolStatus::Connecting
            | ProtocolStatus::AwaitingQrScan { .. }
            | ProtocolStatus::AwaitingGuardCode { .. } => true,
            _ => false,
        }
    }

    pub fn accepts_text_input(&self) -> (r: bool)
        ensures
            r == self.spec_accepts_text_input(),
    {
        match self {
            ProtocolStatus::AwaitingGuardCode { kind: ProtocolGuardKind::EmailCode }
            | ProtocolStatus::AwaitingGuardCode { kind: ProtocolGuardKind::DeviceCode } => true,
            _ => false,
        }
    }

    pub fn is_logged_on(&self) -> (r: bool)
        ensures
            r == self is LoggedOn,
    {
        match self {
            ProtocolStatus::LoggedOn { .. } => true,
            _ => false,
        }
    }
}

/// What the user asks of the sign-in in progress.
#[derive(Debug, Clone, PartialEq, Eq)]
pub enum ProtocolCommand {
    SubmitGuardCode(String),
    Cancel,
}

/// A way to sign in to Steam.
#[derive(Debug, Clone, PartialEq, Eq)]
pub enum LoginMethod {
    Qr,
    Credentials { account: String, password: String },
    RefreshToken(String),
}

/// The sign-in to try first, and the one to fall back on when a stored token is refused.
#[derive(Debug, Clone, PartialEq, Eq)]
pub struct ProtocolBootstrap {
    pub primary: LoginMethod,
    pub fallback: Option<LoginMethod>,
}

/// Account name and refresh token of the last successful sign-in.
#[derive(Debug, Clone, PartialEq, Eq)]
pub struct AuthState {
    pub account_name: String,
    pub refresh_token: String,
}

/// The interactive sign-in the configuration asks for.
pub open spec fn spec_configured_login(
    preferred: AuthMethod,
    credentials: Option<(String, String)>,
) -> Option<LoginMethod> {
    match preferred {
        AuthMethod::Qr => Some(LoginMethod::Qr),
        AuthMethod::Credentials => match credentials {
            Some(c) => Some(LoginMethod::Credentials { account: c.0, password: c.1 }),
            None => None,
        },
    }
}

pub open spec fn spec_build_bootstrap(
    preferred: AuthMethod,
    stored: Option<AuthState>,
    credentials: Option<(String, String)>,
) -> ProtocolBootstrap {
    let fallback = spec_configured_login(preferred, credentials);
    match stored {
        Some(auth) => ProtocolBootstrap {
            primary: LoginMethod::RefreshToken(auth.refresh_token),
            fallback,
        },
        None => ProtocolBootstrap {
            primary: match fallback {
                Some(m) => m,
                None => LoginMethod::Qr,
            },
            fallback: None,
        },
    }
}

/// The sign-in plan: a stored refresh token goes first with the configured method as its
/// fallback; without one the configured method goes first (QR when credentials are missing).
pub fn build_bootstrap(
    preferred: AuthMethod,
    stored: Option<AuthState>,
    credentials: Option<(String, String)>,
) -> (r: ProtocolBootstrap)
    ensures
        r == spec_build_bootstrap(preferred, stored, credentials),
{
    let fallback = match preferred {
        AuthMethod::Qr => Some(LoginMethod::Qr),
        AuthMethod::Credentials => match credentials {
            Some((account, password)) => Some(LoginMethod::Credentials { account, password }),
            None => None,
        },
    };
    match stored {
        Some(auth) => ProtocolBootstrap {
            primary: LoginMethod::RefreshToken(auth.refresh_token),
            fallback,
        },
        None => {
            let primary = match fallback {
                Some(m) => m,
                None => LoginMethod::Qr,
            };
            ProtocolBootstrap { primary, fallback: None }
        },
    }
}

/// The account name to offer Steam as a hint: the configured one, else the stored one.
pub fn account_name_hint(configured: Option<String>, stored: Option<&AuthState>) -> (r: Option<
    String,
>)
    ensures
        configured is Some ==> r == configured,
        configured is None && stored is Some ==> r == Some(stored.unwrap().account_name),
        configured is None && stored is None ==> r is None,
{
    match configured {
        Some(name) => Some(name),
        None => match stored {
            Some(auth) => Some(auth.account_name.clone()),
            None => None,
        },
    }
}

/// Whether a sign-in that ended on a closed connection is tried again: only interactive
/// methods are; a refused refresh token falls back instead.
pub fn should_retry_auth(method: &LoginMethod, connection_closed: bool) -> (r: bool)
    ensures
        r == ((method is Qr || method is Credentials) && connection_closed),
{
    match method {
        LoginMethod::Qr | LoginMethod::Credentials { .. } => connection_closed,
        LoginMethod::RefreshToken(_) => false,
    }
}

/// After the first sign-in attempt failed: a refused stored token is forgotten and the
/// configured method tried (when there is one); a failed interactive sign-in is final.
pub fn fallback_after_failure(bootstrap: ProtocolBootstrap) -> (r: Option<LoginMethod>)
    ensures
        r == if bootstrap.primary is RefreshToken {
            bootstrap.fallback
        } else {
            None
        },
{
    match bootstrap.primary {
        LoginMethod::RefreshToken(_) => bootstrap.fallback,
        _ => None,
    }
}

/// Whether the failed first attempt used the stored token, which is then forgotten.
pub fn stored_token_refused(bootstrap: &ProtocolBootstrap) -> (r: bool)
    ensures
        r == bootstrap.primary is RefreshToken,
{
    match bootstrap.primary {
        LoginMethod::RefreshToken(_) => true,
        _ => false,
    }
}

/// Whether an error message reports a closed connection.
pub fn reports_closed(message: &str) -> (r: bool)
    ensures
        r == crate::text::spec_contains(message@, "closed"@),
{
    crate::text::contains_text(message, "closed")
}

/// A friend's online state.
#[derive(Debug, Clone, Copy, PartialEq, Eq, Structural)]
pub enum PersonaState {
    Offline,
    Online,
    Busy,
    Away,
    Snooze,
    LookingToTrade,
    LookingToPlay,
    Invisible,
}

/// A friend's presence as last reported.
#[derive(Debug, Clone, PartialEq, Eq)]
pub struct Persona {
    pub steamid: u64,
    pub name: String,
    pub state: PersonaState,
    pub game_app_id: Option<u32>,
    pub game_name: Option<String>,
    pub avatar_hash: Option<Vec<u8>>,
    /// Whether this report carried the game fields; when it did not, they are unchanged.
    pub game_fields_present: bool,
}

/// Commands sent over a signed-in connection.
#[derive(Debug, Clone, PartialEq, Eq)]
pub enum RunCommand {
    SetPersonaState(PersonaState),
    RequestFriendData(Vec<u64>),
    GetLibrary,
    GetPlayerAchievements(u32),
    SendMessage { steamid: u64, message: String },
    SendTyping { steamid: u64 },
    GetRecentMessages { steamid: u64 },
}

/// Position of the first persona with this SteamID.
pub open spec fn spec_find_persona(s: Seq<Persona>, steamid: u64) -> Option<int>
    decreases s.len(),
{
    if s.len() == 0 {
        None
    } else {
        match spec_find_persona(s.drop_last(), steamid) {
            Some(i) => Some(i),
            None => if s.last().steamid == steamid {
                Some(s.len() - 1)
            } else {
                None
            },
        }
    }
}

/// A known persona updated by a new report: the state always, the name when the report has
/// one, the game fields when the report carried them, the avatar when it has one.
pub open spec fn spec_apply_update(entry: Persona, update: Persona) -> Persona {
    Persona {
        steamid: entry.steamid,
        name: if update.name@.len() > 0 {
            update.name
        } else {
            entry.name
        },
        state: update.state,
        game_app_id: if update.game_fields_present {
            update.game_app_id
        } else {
            entry.game_app_id
        },
        game_name: if update.game_fields_present {
            update.game_name
        } else {
            entry.game_name
        },
        avatar_hash: if update.avatar_hash is Some {
            update.avatar_hash
        } else {
            entry.avatar_hash
        },
        game_fields_present: entry.game_fields_present,
    }
}

pub open spec fn spec_merge_persona(s: Seq<Persona>, update: Persona) -> Seq<Persona> {
    match spec_find_persona(s, update.steamid) {
        Some(i) => s.update(i, spec_apply_update(s[i], update)),
        None => s.push(update),
    }
}

/// Reports applied one after another: a known friend is updated in place, a new one appended.
pub open spec fn spec_merge_personas(s: Seq<Persona>, updates: Seq<Persona>) -> Seq<Persona>
    decreases updates.len(),
{
    if updates.len() == 0 {
        s
    } else {
        spec_merge_persona(spec_merge_personas(s, updates.drop_last()), updates.last())
    }
}

/// The lookup gives the first position with the SteamID, or none when no entry has it.
pub proof fn lemma_find_persona(s: Seq<Persona>, steamid: u64)
    ensures
        match spec_find_persona(s, steamid) {
            Some(i) => 0 <= i < s.len() && s[i].steamid == steamid && forall|j: int|
                0 <= j < i ==> s[j].steamid != steamid,
            None => forall|j: int| 0 <= j < s.len() ==> s[j].steamid != steamid,
        },
    decreases s.len(),
{
    if s.len() > 0 {
        lemma_find_persona(s.drop_last(), steamid);
        assert(forall|j: int| 0 <= j < s.len() - 1 ==> s.drop_last()[j] == s[j]);
    }
}

pub fn find_persona(s: &Vec<Persona>, steamid: u64) -> (r: Option<usize>)
    ensures
        match r {
            Some(i) => spec_find_persona(s@, steamid) == Some(i as int),
            None => spec_find_persona(s@, steamid) is None,
        },
{
    proof {
        lemma_find_persona(s@, steamid);
    }
    let mut i: usize = 0;
    while i < s.len()
        invariant
            i <= s.len(),
            forall|j: int| 0 <= j < i ==> s@[j].steamid != steamid,
            match spec_find_persona(s@, steamid) {
                Some(k) => 0 <= k < s@.len() && s@[k].steamid == steamid && forall|j: int|
                    0 <= j < k ==> s@[j].steamid != steamid,
                None => forall|j: int| 0 <= j < s@.len() ==> s@[j].steamid != steamid,
            },
        decreases s.len() - i,
    {
        if s[i].steamid == steamid {
            return Some(i);
        }
        i = i + 1;
    }
    None
}

/// Applies presence reports to the known friends, in order.
pub fn merge_personas(existing: &mut Vec<Persona>, updates: Vec<Persona>)
    ensures
        final(existing)@ == spec_merge_personas(old(existing)@, updates@),
{
    let ghost start = existing@;
    let ghost us = updates@;
    for update in it: updates.into_iter()
        invariant
            it.seq() == us,
            existing@ == spec_merge_personas(start, us.take(it.index() as int)),
    {
        let ghost k = it.index();
        proof {
            assert(us.take(k as int + 1).drop_last() =~= us.take(k as int));
            assert(us.take(k as int + 1).last() == us[k as int]);
        }
        proof {
            lemma_find_persona(existing@, update.steamid);
        }
        match find_persona(existing, update.steamid) {
            Some(i) => {
                let mut entry = existing.remove(i);
                entry.state = update.state;
                if !update.name.as_str().is_empty() {
                    entry.name = update.name;
                }
                if update.game_fields_present {
                    entry.game_app_id = update.game_app_id;
                    entry.game_name = update.game_name;
                }
                if update.avatar_hash.is_some() {
                    entry.avatar_hash = update.avatar_hash;
                }
                existing.insert(i, entry);
            },
            None => {
                existing.push(update);
            },
        }
    }
    proof {
        assert(us.take(us.len() as int) =~= us);
    }
}

/// SteamIDs occur at most once.
pub open spec fn distinct_ids(s: Seq<Persona>) -> bool {
    forall|i: int, j: int| 0 <= i < j < s.len() ==> s[i].steamid != s[j].steamid
}

pub open spec fn has_id(s: Seq<Persona>, steamid: u64) -> bool {
    exists|i: int| 0 <= i < s.len() && s[i].steamid == steamid
}

/// Merging presence reports keeps each friend once, keeps every friend already known, and
/// adds every friend reported.
pub proof fn lemma_merge_personas_keeps_friends_once(s: Seq<Persona>, updates: Seq<Persona>)
    requires
        distinct_ids(s),
    ensures
        distinct_ids(spec_merge_personas(s, updates)),
        forall|id: u64|
            has_id(spec_merge_personas(s, updates), id) <==> (has_id(s, id) || has_id(
                updates,
                id,
            )),
    decreases updates.len(),
{
    if updates.len() > 0 {
        let prev = spec_merge_personas(s, updates.drop_last());
        lemma_merge_personas_keeps_friends_once(s, updates.drop_last());
        let u = updates.last();
        lemma_find_persona(prev, u.steamid);
        let next = spec_merge_persona(prev, u);
        assert forall|id: u64| has_id(next, id) <==> (has_id(prev, id) || id == u.steamid) by {
            if has_id(next, id) {
                let i = choose|i: int| 0 <= i < next.len() && next[i].steamid == id;
                if i < prev.len() {
                    assert(next[i].steamid == prev[i].steamid);
                }
            }
            if has_id(prev, id) {
                let i = choose|i: int| 0 <= i < prev.len() && prev[i].steamid == id;
                assert(next[i].steamid == id);
            }
            if id == u.steamid {
                match spec_find_persona(prev, u.steamid) {
                    Some(i) => assert(next[i].steamid == id),
                    None => assert(next[prev.len() as int].steamid == id),
                }
            }
        }
        assert forall|id: u64|
            has_id(updates, id) <==> (has_id(updates.drop_last(), id) || id == u.steamid) by {
            if has_id(updates, id) {
                let i = choose|i: int| 0 <= i < updates.len() && updates[i].steamid == id;
                if i < updates.len() - 1 {
                    assert(updates.drop_last()[i].steamid == id);
                }
            }
            if has_id(updates.drop_last(), id) {
                let i = choose|i: int|
                    0 <= i < updates.drop_last().len() && updates.drop_last()[i].steamid == id;
                assert(updates[i].steamid == id);
            }
            if id == u.steamid {
                assert(updates[updates.len() - 1].steamid == id);
            }
        }
    }
}

} // verus!
