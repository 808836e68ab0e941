//! Wallpaper library management: scanning wallpaper folders, filing
//! wallpapers under categories, filtering the gallery, the thumbnail
//! cache, the settings, and the decisions behind the live wallpaper.
pub mod text;
pub mod paths;
pub mod models;
pub mod scanner;
pub mod live_wallpaper;
pub mod static_wallpaper;
pub mod settings;
pub mod platform;
pub mod thumbnail;
pub mod gallery;

pub use models::{AppState, LiveWallpaperItem, WallpaperItem};
pub use settings::Settings;
