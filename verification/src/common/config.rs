use super::{WPLACE_CHUNK_HEIGHT, WPLACE_CHUNK_WIDTH};
use vstd::prelude::*;

verus! {

/// All settings of the monitor.
#[derive(Clone, PartialEq, Eq, Debug)]
pub struct Config {
    pub common: CommonConfig,
    pub network: NetworkConfig,
    pub check: CheckConfig,
    pub notification: NotificationConfig,
    pub visualization: VisualizationConfig,
}

#[derive(Clone, PartialEq, Eq, Debug)]
pub struct CommonConfig {
    pub database_url: String,
    pub discord_token: String,
}

#[derive(Clone, Copy, PartialEq, Eq, Debug)]
pub struct NetworkConfig {
    /// How many tiles the cache keeps at most.
    pub image_cache_capacity: usize,
    /// How long a cached tile lives, and how long it may stay unread, in minutes.
    pub image_cache_life_min: usize,
    /// The pause before every request to the tile server, in seconds.
    pub sleep_between_requests_sec: usize,
}

#[derive(Clone, Copy, PartialEq, Eq, Debug)]
pub struct CheckConfig {
    /// No fief is checked more often than this, in minutes.
    pub minimum_interval_min: usize,
    /// The interval of a fief that was created without one, in minutes.
    pub default_interval_min: usize,
}

#[derive(Clone, PartialEq, Eq, Debug)]
pub struct NotificationConfig {
    pub enabled: bool,
    pub discord_channel: String,
}

/// How the result of a check is drawn.
#[derive(Clone, Copy, PartialEq, Eq, Debug)]
pub struct VisualizationConfig {
    /// Opacity of the overlay colour, in percent.
    pub diff_img_opacity_pct: usize,
    /// Overlay colour of a watched pixel that is as it should be, as `0xRRGGBB`.
    pub normal_color: usize,
    /// Overlay colour of a watched pixel that has changed, as `0xRRGGBB`.
    pub abnormal_color: usize,
    /// Overlay colour of a pixel that is not watched, as `0xRRGGBB`.
    pub unmasked_color: usize,
    /// The least width of the window that is cut out around the changes.
    pub minimum_width: usize,
    /// The least height of the window that is cut out around the changes.
    pub minimum_height: usize,
    /// How far the window reaches beyond the changes to the left and to the right.
    pub horizontal_margin: usize,
    /// How far the window reaches beyond the changes above and below.
    pub vertical_margin: usize,
}

impl CheckConfig {
    /// Both intervals can be stored as a number of minutes in a row of the table of fiefs.
    pub open spec fn valid(&self) -> bool {
        self.minimum_interval_min <= i64::MAX && self.default_interval_min <= i64::MAX
    }

    pub fn is_valid(&self) -> (ok: bool)
        ensures
            ok == self.valid(),
    {
        self.minimum_interval_min as u128 <= i64::MAX as u128 && self.default_interval_min as u128
            <= i64::MAX as u128
    }
}

impl VisualizationConfig {
    /// The opacity is a percentage, and the least window is no larger than a tile.
    pub open spec fn valid(&self) -> bool {
        &&& self.diff_img_opacity_pct <= 100
        &&& self.minimum_width <= WPLACE_CHUNK_WIDTH
        &&& self.minimum_height <= WPLACE_CHUNK_HEIGHT
    }

    pub fn is_valid(&self) -> (ok: bool)
        ensures
            ok == self.valid(),
    {
        self.diff_img_opacity_pct <= 100 && self.minimum_width <= WPLACE_CHUNK_WIDTH
            && self.minimum_height <= WPLACE_CHUNK_HEIGHT
    }
}

} // verus!
