//! The data the client shows: owned games, friends' summaries, achievements, store details,
//! news and the wishlist, as the Steam Web and Store APIs describe them.

use vstd::prelude::*;

verus! {

/// A friend's public profile summary.
#[derive(Debug, Clone)]
pub struct PlayerSummary {
    pub steamid: String,
    pub personaname: String,
    pub avatarfull: Option<String>,
    /// 0=offline, 1=online, 2=busy, 3=away, 4=snooze, 5=looking to trade, 6=looking to play
    pub personastate: u8,
    pub gameid: Option<String>,
    pub gameextrainfo: Option<String>,
}

/// Label of a persona state code; unknown codes read as offline.
pub open spec fn spec_persona_state_label(state: u8) -> Seq<char> {
    if state == 1 {
        "Online"@
    } else if state == 2 {
        "Busy"@
    } else if state == 3 {
        "Away"@
    } else if state == 4 {
        "Snooze"@
    } else if state == 5 {
        "Looking to Trade"@
    } else if state == 6 {
        "Looking to Play"@
    } else {
        "Offline"@
    }
}

impl PlayerSummary {
    pub fn persona_state_label(&self) -> (r: &'static str)
        ensures
            r@ == spec_persona_state_label(self.personastate),
    {
        match self.personastate {
            1 => "Online",
            2 => "Busy",
            3 => "Away",
            4 => "Snooze",
            5 => "Looking to Trade",
            6 => "Looking to Play",
            _ => "Offline",
        }
    }

    pub fn is_in_game(&self) -> (r: bool)
        ensures
            r == self.gameid is Some,
    {
        self.gameid.is_some()
    }
}

/// One achievement of a game, as the player stands with it.
#[derive(Debug, Clone)]
pub struct Achievement {
    pub apiname: String,
    pub achieved: u8,
    pub unlocktime: u64,
    pub name: Option<String>,
    pub description: Option<String>,
}

impl Achievement {
    /// The name shown: the display name, else the API name.
    pub open spec fn spec_display_name(&self) -> Seq<char> {
        match self.name {
            Some(n) => n@,
            None => self.apiname@,
        }
    }

    pub fn is_unlocked(&self) -> (r: bool)
        ensures
            r == (self.achieved == 1),
    {
        self.achieved == 1
    }

    pub fn display_name(&self) -> (r: &str)
        ensures
            r@ == self.spec_display_name(),
    {
        match &self.name {
            Some(n) => n.as_str(),
            None => self.apiname.as_str(),
        }
    }
}

/// Store details of an app.
#[derive(Debug, Clone)]
pub struct AppDetails {
    pub steam_appid: u32,
    pub name: String,
    pub short_description: Option<String>,
    pub header_image: Option<String>,
    pub categories: Option<Vec<Category>>,
    pub genres: Option<Vec<Genre>>,
    pub release_date: Option<ReleaseDate>,
    pub metacritic: Option<Metacritic>,
    pub developers: Option<Vec<String>>,
    pub publishers: Option<Vec<String>>,
}

#[derive(Debug, Clone)]
pub struct Category {
    pub id: u32,
    pub description: String,
}

#[derive(Debug, Clone)]
pub struct Genre {
    pub id: String,
    pub description: String,
}

#[derive(Debug, Clone)]
pub struct ReleaseDate {
    pub coming_soon: bool,
    pub date: String,
}

#[derive(Debug, Clone)]
pub struct Metacritic {
    pub score: u8,
    pub url: String,
}

/// A game or other app in the user's library.
#[derive(Debug)]
pub struct Game {
    pub appid: u32,
    pub name: Option<String>,
    pub playtime_forever: u32,
    pub img_icon_url: Option<String>,
    pub rtime_last_played: Option<u64>,
    /// Appinfo `common.type` ("game", "application", "tool", …); `None` when unknown.
    pub app_type: Option<String>,
}

/// A copy of an optional text.
pub fn clone_opt_string(s: &Option<String>) -> (r: Option<String>)
    ensures
        r == *s,
{
    match s {
        Some(t) => Some(t.clone()),
        None => None,
    }
}

impl Clone for Game {
    fn clone(&self) -> (r: Self)
        ensures
            r == *self,
    {
        Game {
            appid: self.appid,
            name: clone_opt_string(&self.name),
            playtime_forever: self.playtime_forever,
            img_icon_url: clone_opt_string(&self.img_icon_url),
            rtime_last_played: self.rtime_last_played,
            app_type: clone_opt_string(&self.app_type),
        }
    }
}

impl Game {
    /// The name shown: the game's name, else "Unknown Game".
    pub open spec fn spec_display_name(&self) -> Seq<char> {
        match self.name {
            Some(n) => n@,
            None => "Unknown Game"@,
        }
    }

    pub fn display_name(&self) -> (r: &str)
        ensures
            r@ == self.spec_display_name(),
    {
        match &self.name {
            Some(n) => n.as_str(),
            None => "Unknown Game",
        }
    }
}

/// A news item about an app.
#[derive(Debug, Clone)]
pub struct NewsItem {
    pub gid: String,
    pub title: String,
    pub url: String,
    pub feedlabel: String,
    pub date: u64,
    pub appid: u32,
    pub contents: Option<String>,
}

/// An app on the user's wishlist.
#[derive(Debug, Clone)]
pub struct WishlistItem {
    pub appid: u32,
    pub name: String,
    pub priority: u32,
    pub added: u64,
    pub capsule: Option<String>,
}

/// Everything loaded from the Web API, kept for reuse.
#[derive(Debug)]
pub struct Cache {
    pub games: Vec<Game>,
    pub friends: Vec<PlayerSummary>,
    pub wishlist: Vec<WishlistItem>,
    pub news: Vec<NewsItem>,
}

impl Cache {
    pub fn new() -> (r: Cache)
        ensures
            r.games@.len() == 0,
            r.friends@.len() == 0,
            r.wishlist@.len() == 0,
            r.news@.len() == 0,
    {
        Cache { games: Vec::new(), friends: Vec::new(), wishlist: Vec::new(), news: Vec::new() }
    }
}

} // verus!
