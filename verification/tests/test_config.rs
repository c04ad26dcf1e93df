use wmonitor::common::config::{CheckConfig, NetworkConfig, VisualizationConfig};
use wmonitor::common::{WPLACE_CHUNK_HEIGHT, WPLACE_CHUNK_WIDTH};
use wmonitor::net::{TileCache, MAX_CACHE_LIFE_SECS};

fn drawing() -> VisualizationConfig {
    VisualizationConfig {
        diff_img_opacity_pct: 100,
        normal_color: 0x00FF00,
        abnormal_color: 0xFF0000,
        unmasked_color: 0x0000FF,
        minimum_width: 1000,
        minimum_height: 1000,
        horizontal_margin: usize::MAX,
        vertical_margin: 0,
    }
}

#[test]
fn a_tile_is_a_thousand_pixels_wide_and_high() {
    assert_eq!(WPLACE_CHUNK_WIDTH, 1000);
    assert_eq!(WPLACE_CHUNK_HEIGHT, 1000);
}

#[test]
fn the_settings_of_the_drawing_have_their_bounds() {
    assert!(drawing().is_valid());
    assert!(!VisualizationConfig { diff_img_opacity_pct: 101, ..drawing() }.is_valid());
    assert!(!VisualizationConfig { minimum_width: 1001, ..drawing() }.is_valid());
    assert!(!VisualizationConfig { minimum_height: 1001, ..drawing() }.is_valid());
    assert!(VisualizationConfig { minimum_width: 0, minimum_height: 0, ..drawing() }.is_valid());
}

#[test]
fn the_intervals_have_to_fit_into_a_row() {
    assert!(CheckConfig { minimum_interval_min: 0, default_interval_min: i64::MAX as usize }.is_valid());
    assert!(!CheckConfig { minimum_interval_min: 0, default_interval_min: i64::MAX as usize + 1 }.is_valid());
}

#[test]
fn a_cache_lives_a_thousand_years_at_most() {
    let life = |minutes| NetworkConfig {
        image_cache_capacity: 1,
        image_cache_life_min: minutes,
        sleep_between_requests_sec: 0,
    };
    assert_eq!(MAX_CACHE_LIFE_SECS, 1000 * 365 * 24 * 3600);
    assert!(TileCache::is_acceptable(&life(0)));
    assert!(TileCache::is_acceptable(&life(525_600_000)));
    assert!(!TileCache::is_acceptable(&life(525_600_001)));
    assert!(!TileCache::is_acceptable(&life(usize::MAX)));
    TileCache::new(&life(525_600_000));
}
