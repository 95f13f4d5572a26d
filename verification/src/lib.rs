//! Core logic of the Navi Discord bot engine: permission levels, the plugin
//! configuration registry and where its values are stored, the admin
//! dashboard's state machine and what it shows, the Discord cache, message
//! layout, and the self-update decisions.
pub mod admin;
pub mod archive;
pub mod bot;
pub mod cache;
pub mod components;
pub mod config;
pub mod interactions;
pub mod json;
pub mod perms;
pub mod registry;
pub mod storage;
pub mod strmap;
pub mod text;
pub mod tui_input;
pub mod tui_state;
pub mod tui_view;
pub mod types;
pub mod updater;
pub mod vecs;
