//! Core logic of a terminal Steam client: Steam's text KeyValues format, install
//! detection, launch planning, chat-history bookkeeping, configuration defaults and
//! the keyboard-driven UI state machine.

pub mod text;
pub mod vdf;
pub mod paths;
pub mod steam_apps;
pub mod launcher;
pub mod locations;
pub mod config;
pub mod chat_history;
pub mod drm_free;
pub mod layout;
pub mod models;
pub mod routes;
pub mod keys;
pub mod protocol;
pub mod ordering;
pub mod ui;
pub mod library;
pub mod chat;
pub mod handlers;
pub mod loading;
pub mod presentation;
pub mod wishlist;
