//! Decisions behind the Windows desktop integration: the live wallpaper
//! process and the notification-area icon.
pub mod windows;
pub mod tray;
