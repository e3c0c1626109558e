//! The user's settings. The application stores them with `cosmic-config`
//! (together with the brightness threshold, a float that only the
//! application's brightness filter reads).

use vstd::prelude::*;

use crate::text::seq_views;

verus! {

pub const APP_ID: &'static str = "dev.papery.CosmicApplet";

#[derive(Debug, Clone)]
pub struct PaperyConfig {
    /// Enabled wallpaper sources
    pub source_bing: bool,
    pub source_nasa: bool,
    pub source_wallhaven: bool,
    pub source_earthview: bool,
    pub source_local: bool,
    /// Rotation interval in seconds
    pub rotation_interval_secs: u64,
    /// Whether rotation is paused
    pub paused: bool,
    /// Scaling mode: "zoom", "fit", "stretch"
    pub scaling_mode: String,
    /// Theme filter: "any", "light", "dark"
    pub theme_filter: String,
    /// Maximum number of cached wallpapers
    pub max_cache_size: u32,
    /// Local folders to scan for wallpapers
    pub local_folders: Vec<String>,
    /// Favorite wallpaper paths (kept permanently in cache)
    pub favorites: Vec<String>,
    /// Wallhaven categories (100 = general, 010 = anime, 001 = people)
    pub wallhaven_categories: String,
    /// Wallhaven purity (100 = SFW)
    pub wallhaven_purity: String,
}

/// The abstract value of a [`PaperyConfig`].
pub struct ConfigView {
    pub source_bing: bool,
    pub source_nasa: bool,
    pub source_wallhaven: bool,
    pub source_earthview: bool,
    pub source_local: bool,
    pub rotation_interval_secs: u64,
    pub paused: bool,
    pub scaling_mode: Seq<char>,
    pub theme_filter: Seq<char>,
    pub max_cache_size: u32,
    pub local_folders: Seq<Seq<char>>,
    pub favorites: Seq<Seq<char>>,
    pub wallhaven_categories: Seq<char>,
    pub wallhaven_purity: Seq<char>,
}

impl View for PaperyConfig {
    type V = ConfigView;

    open spec fn view(&self) -> ConfigView {
        ConfigView {
            source_bing: self.source_bing,
            source_nasa: self.source_nasa,
            source_wallhaven: self.source_wallhaven,
            source_earthview: self.source_earthview,
            source_local: self.source_local,
            rotation_interval_secs: self.rotation_interval_secs,
            paused: self.paused,
            scaling_mode: self.scaling_mode@,
            theme_filter: self.theme_filter@,
            max_cache_size: self.max_cache_size,
            local_folders: seq_views(self.local_folders@),
            favorites: seq_views(self.favorites@),
            wallhaven_categories: self.wallhaven_categories@,
            wallhaven_purity: self.wallhaven_purity@,
        }
    }
}

impl Default for PaperyConfig {
    /// Bing and NASA on, a 30-minute interval, zoom scaling, no theme
    /// filter, up to 200 cached wallpapers, general safe-for-work Wallhaven
    /// results.
    fn default() -> (r: PaperyConfig)
        ensures
            r.source_bing && r.source_nasa,
            !r.source_wallhaven && !r.source_earthview && !r.source_local,
            r.rotation_interval_secs == 1800,
            !r.paused,
            r.scaling_mode@ == "zoom"@,
            r.theme_filter@ == "any"@,
            r.max_cache_size == 200,
            r.local_folders@.len() == 0,
            r.favorites@.len() == 0,
            r.wallhaven_categories@ == "100"@,
            r.wallhaven_purity@ == "100"@,
    {
        PaperyConfig {
            source_bing: true,
            source_nasa: true,
            source_wallhaven: false,
            source_earthview: false,
            source_local: false,
            rotation_interval_secs: 1800,
            paused: false,
            scaling_mode: "zoom".to_string(),
            theme_filter: "any".to_string(),
            max_cache_size: 200,
            local_folders: Vec::new(),
            favorites: Vec::new(),
            wallhaven_categories: "100".to_string(),
            wallhaven_purity: "100".to_string(),
        }
    }
}

} // verus!
