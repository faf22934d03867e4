//! Screens of the client, the focused block inside a screen, and the background work a
//! screen asks for when it opens.

use vstd::prelude::*;

verus! {

/// A screen.
#[derive(Debug, Clone, Copy, PartialEq, Eq, Structural)]
pub enum RouteId {
    Library,
    GameDetail,
    Friends,
    Wishlist,
    News,
    Chat,
}

/// The block that owns the keyboard.
#[derive(Debug, Clone, Copy, PartialEq, Eq, Structural)]
pub enum ActiveBlock {
    Library,
    GameDetail,
    Friends,
    Wishlist,
    News,
    Search,
    Help,
    Error,
    /// Conversation list focused.
    Chat,
    /// Message composer (text input) focused.
    ChatComposer,
    /// Recently-played quick-launch overlay.
    QuickLaunch,
}

/// A screen together with its focused block.
#[derive(Debug, Clone, Copy, PartialEq, Eq, Structural)]
pub struct Route {
    pub id: RouteId,
    pub active_block: ActiveBlock,
}

/// Background work handed to the I/O side.
#[derive(Debug, Clone, PartialEq, Eq)]
pub enum IoEvent {
    LoadLibrary,
    /// Fetch all friend IDs, then kick off the first page.
    LoadFriendIds,
    /// Fetch friend summaries starting at `page * 100`.
    LoadFriendPage(usize),
    LoadWishlist,
    LoadNews,
    LoadGameDetail(u32),
    LoadAchievements(u32),
    RefreshAll,
    /// Look up game names for app IDs not in the user's library.
    LookupGameNames(Vec<u32>),
    /// Launch an installed game.
    LaunchGame(u32),
}

/// The work a screen asks for when it becomes active.
pub open spec fn spec_load_event(id: RouteId) -> Option<IoEvent> {
    match id {
        RouteId::Library => Some(IoEvent::LoadLibrary),
        RouteId::Friends => Some(IoEvent::LoadFriendIds),
        RouteId::Wishlist => Some(IoEvent::LoadWishlist),
        RouteId::News => Some(IoEvent::LoadNews),
        RouteId::GameDetail => None,
        RouteId::Chat => None,
    }
}

impl Route {
    pub fn library() -> (r: Route)
        ensures
            r == (Route { id: RouteId::Library, active_block: ActiveBlock::Library }),
    {
        Route { id: RouteId::Library, active_block: ActiveBlock::Library }
    }

    pub fn game_detail() -> (r: Route)
        ensures
            r == (Route { id: RouteId::GameDetail, active_block: ActiveBlock::GameDetail }),
    {
        Route { id: RouteId::GameDetail, active_block: ActiveBlock::GameDetail }
    }

    pub fn friends() -> (r: Route)
        ensures
            r == (Route { id: RouteId::Friends, active_block: ActiveBlock::Friends }),
    {
        Route { id: RouteId::Friends, active_block: ActiveBlock::Friends }
    }

    pub fn wishlist() -> (r: Route)
        ensures
            r == (Route { id: RouteId::Wishlist, active_block: ActiveBlock::Wishlist }),
    {
        Route { id: RouteId::Wishlist, active_block: ActiveBlock::Wishlist }
    }

    pub fn news() -> (r: Route)
        ensures
            r == (Route { id: RouteId::News, active_block: ActiveBlock::News }),
    {
        Route { id: RouteId::News, active_block: ActiveBlock::News }
    }

    pub fn chat() -> (r: Route)
        ensures
            r == (Route { id: RouteId::Chat, active_block: ActiveBlock::Chat }),
    {
        Route { id: RouteId::Chat, active_block: ActiveBlock::Chat }
    }

    /// The work to start when this route first becomes active; chat history is fetched per
    /// conversation instead.
    pub fn load_event(&self) -> (r: Option<IoEvent>)
        ensures
            r == spec_load_event(self.id),
    {
        match self.id {
            RouteId::Library => Some(IoEvent::LoadLibrary),
            RouteId::Friends => Some(IoEvent::LoadFriendIds),
            RouteId::Wishlist => Some(IoEvent::LoadWishlist),
            RouteId::News => Some(IoEvent::LoadNews),
            RouteId::GameDetail | RouteId::Chat => None,
        }
    }
}

} // verus!
