use wmonitor::common::config::NetworkConfig;
use wmonitor::common::png::ImagePng;
use wmonitor::common::Position;
use wmonitor::net::{fetch_step, tile_url, FetchStep, IsCached, TileCache};

fn settings() -> NetworkConfig {
    NetworkConfig { image_cache_capacity: 16, image_cache_life_min: 5, sleep_between_requests_sec: 3 }
}

fn request(cache: &TileCache, pos: Position) -> (u64, String) {
    match cache.begin_fetch(pos) {
        FetchStep::Request { delay_secs, url } => (delay_secs, url),
        FetchStep::Cached(_) => panic!("the tile should not be in the cache"),
    }
}

#[test]
fn fetch_current_image() {
    let mut cache = TileCache::new(&settings());
    let pos = Position::from([1687, 888]);

    let (delay, url) = request(&cache, pos);
    assert_eq!(delay, 3);
    assert_eq!(url, "https://backend.wplace.live/files/s0/tiles/1687/888.png");
    let (cached, img) =
        cache.finish_fetch::<String>(pos, Ok(vec![1, 2, 3])).unwrap();
    assert!(!cached.0);
    assert_eq!(img, ImagePng::new(vec![1, 2, 3]));

    match cache.begin_fetch(pos) {
        FetchStep::Cached(img) => assert_eq!(img.into_inner(), vec![1, 2, 3]),
        FetchStep::Request { .. } => panic!("the tile should be in the cache"),
    }
}

#[test]
fn an_emptied_cache_asks_the_tile_server_again() {
    let mut cache = TileCache::new(&settings());
    let pos = Position::new(4, 5);
    cache.finish_fetch::<String>(pos, Ok(vec![7])).unwrap();
    assert!(matches!(cache.begin_fetch(pos), FetchStep::Cached(_)));
    cache.clear();
    assert_eq!(request(&cache, pos), (3, "https://backend.wplace.live/files/s0/tiles/4/5.png".to_string()));
}

#[test]
fn tiles_are_kept_by_their_place() {
    let mut cache = TileCache::new(&settings());
    cache.finish_fetch::<String>(Position::new(1, 2), Ok(vec![12])).unwrap();
    cache.finish_fetch::<String>(Position::new(2, 1), Ok(vec![21])).unwrap();
    assert_eq!(cache.begin_fetch(Position::new(1, 2)), FetchStep::Cached(ImagePng::new(vec![12])));
    assert_eq!(cache.begin_fetch(Position::new(2, 1)), FetchStep::Cached(ImagePng::new(vec![21])));
    assert!(matches!(cache.begin_fetch(Position::new(1, 1)), FetchStep::Request { .. }));
    cache.finish_fetch::<String>(Position::new(1, 2), Ok(vec![99])).unwrap();
    assert_eq!(cache.begin_fetch(Position::new(1, 2)), FetchStep::Cached(ImagePng::new(vec![99])));
}

#[test]
fn a_failed_request_is_handed_on_and_nothing_is_stored() {
    let mut cache = TileCache::new(&settings());
    let pos = Position::new(10, 20);
    let failed = cache.finish_fetch(pos, Err("timed out".to_string()));
    assert_eq!(failed, Err("timed out".to_string()));
    assert!(matches!(cache.begin_fetch(pos), FetchStep::Request { .. }));
}

#[test]
fn a_tile_has_its_address_on_the_tile_server() {
    assert_eq!(tile_url(Position::new(0, 0)), "https://backend.wplace.live/files/s0/tiles/0/0.png");
    assert_eq!(tile_url(Position::new(9, 10)), "https://backend.wplace.live/files/s0/tiles/9/10.png");
    assert_eq!(
        tile_url(Position::new(2047, 1234567890)),
        "https://backend.wplace.live/files/s0/tiles/2047/1234567890.png"
    );
    assert_eq!(
        tile_url(Position::new(usize::MAX, 100)),
        format!("https://backend.wplace.live/files/s0/tiles/{}/100.png", usize::MAX)
    );
}

#[test]
fn is_cached_tells_hits_from_misses() {
    assert_ne!(IsCached(true), IsCached(false));
    assert!(IsCached(true).0);
}

#[test]
fn a_cache_without_room_keeps_nothing() {
    let none = NetworkConfig { image_cache_capacity: 0, ..settings() };
    let mut cache = TileCache::new(&none);
    let pos = Position::new(1, 1);
    let (cached, img) = cache.finish_fetch::<String>(pos, Ok(vec![5])).unwrap();
    assert_eq!((cached, img), (IsCached(false), ImagePng::new(vec![5])));
    assert!(matches!(cache.begin_fetch(pos), FetchStep::Request { .. }));
}

#[test]
fn a_cache_without_life_keeps_nothing() {
    let none = NetworkConfig { image_cache_life_min: 0, ..settings() };
    let mut cache = TileCache::new(&none);
    let pos = Position::new(1, 1);
    cache.finish_fetch::<String>(pos, Ok(vec![5])).unwrap();
    assert!(matches!(cache.begin_fetch(pos), FetchStep::Request { .. }));
}

#[test]
fn a_cache_is_made_with_the_limits_of_its_settings() {
    let mut cache = TileCache::new(&settings());
    assert_eq!((cache.capacity(), cache.life_secs(), cache.delay_secs()), (16, 300, 3));
    cache.finish_fetch::<String>(Position::new(1, 1), Ok(vec![5])).unwrap();
    cache.clear();
    assert_eq!((cache.capacity(), cache.life_secs(), cache.delay_secs()), (16, 300, 3));
}

#[test]
fn a_fetch_begins_with_what_the_lookup_found() {
    let pos = Position::new(7, 8);
    assert_eq!(fetch_step(Some(vec![1, 2]), 3, pos), FetchStep::Cached(ImagePng::new(vec![1, 2])));
    assert_eq!(fetch_step(Some(vec![]), 3, pos), FetchStep::Cached(ImagePng::new(vec![])));
    assert_eq!(
        fetch_step(None, 3, pos),
        FetchStep::Request {
            delay_secs: 3,
            url: "https://backend.wplace.live/files/s0/tiles/7/8.png".to_string(),
        }
    );
}

#[test]
fn every_sweep_asks_the_tile_server_anew() {
    let mut cache = TileCache::new(&settings());
    let pos = Position::new(4, 5);
    for sweep in 0..5u8 {
        assert!(matches!(cache.begin_fetch(pos), FetchStep::Request { .. }));
        cache.finish_fetch::<String>(pos, Ok(vec![sweep])).unwrap();
        assert_eq!(cache.begin_fetch(pos), FetchStep::Cached(ImagePng::new(vec![sweep])));
        cache.clear();
    }
    assert!(matches!(cache.begin_fetch(pos), FetchStep::Request { .. }));
}
