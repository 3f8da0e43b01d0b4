//! Status-bar tray icon support for OpenHarmony: icon rasters, menu
//! conversion and the tray's click/menu state, with their contracts.

pub mod text;
pub mod decode;
pub mod error;
pub mod float32;
pub mod event;
pub mod icon;
pub mod menu;
pub mod menu_state;
pub mod metadata;

pub mod tray;
