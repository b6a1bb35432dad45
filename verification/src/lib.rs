pub mod accessibility;
pub mod capture;
pub mod commands;
pub mod config;
pub mod error;
pub mod filters;
pub mod fire;
pub mod guest;
pub mod hook;
pub mod hotkey;
pub mod inject;
pub mod keys;
pub mod mac_tap;
pub mod matcher;
pub mod picker;
pub mod platform;
pub mod power;
pub mod prompt;
pub mod search;
pub mod sequence;
pub mod shortcuts;
pub mod text;
pub mod tray_menu;
