//! Papery: a wallpaper rotator. This crate holds the verified core: the
//! rotation scheduling, queue and history rules, the wallpaper catalogue
//! mappings, the cache naming scheme and the small text formats the program
//! reads and writes.

pub mod text;
pub mod rng;
pub mod wallpaper;
pub mod seen;
pub mod hash;
pub mod download;
pub mod config;
pub mod tray;
pub mod daemon;
pub mod pages;
pub mod scheduler;
pub mod app;
pub mod background;
pub mod sddm;
