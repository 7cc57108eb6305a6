use waltzgps::app_state::{AppState, PIXBUF_CAP};
use waltzgps::config::{Config, Provider, Real};
use waltzgps::downloader::TileKey;
use waltzgps::geo::MapState;
use waltzgps::paths::{Environment, FsPath};
use waltzgps::persist::MapPersist;
use waltzgps::tile::TileId;
use waltzgps::tile_map::{TileMap, TileSet};

fn double(x: f64) -> Real {
    Real { bits: x.to_bits() }
}

fn view(zoom: u8) -> MapState {
    MapState { center_lon: double(2.5), center_lat: double(48.0), zoom }
}

fn state(providers: Vec<Provider>, active: &str) -> AppState<u32> {
    let config = Config { providers, ..Config::default() };
    AppState::new(config, FsPath::from_text("/c.toml"), view(7), active.to_string())
}

fn named(name: &str, max_zoom: u8) -> Provider {
    Provider { name: name.into(), url: "u".into(), max_zoom, ..Provider::default() }
}

fn key(x: u32) -> TileKey {
    TileKey { provider: 0, tile: TileId::new(9, x, 0) }
}

#[test]
fn a_new_state_is_empty() {
    let s = state(vec![named("a", 5), named("b", 6)], "b");
    assert_eq!(s.active_provider, 1);
    assert_eq!(s.max_zoom(), 6);
    assert_eq!(s.map, view(7));
    assert_eq!(s.config_path, FsPath::from_text("/c.toml"));
    assert_eq!((s.pixbufs.len(), s.inflight.len()), (0, 0));
    assert_eq!(f64::from_bits(s.last_pointer.0.bits), 0.0);
    assert_eq!(state(vec![named("a", 5)], "z").active_provider, 0);
}

#[test]
fn zoom_limit_has_a_default() {
    let mut s = state(vec![named("a", 5)], "a");
    s.active_provider = 9;
    assert_eq!(s.max_zoom(), 19);
}

#[test]
fn saved_views_are_restored_within_the_limit() {
    let mut s = state(vec![named("a", 5)], "a");
    assert_eq!(
        s.map_persist(),
        MapPersist { lon: double(2.5), lat: double(48.0), zoom: 7 }
    );
    s.restore(MapPersist { lon: double(1.0), lat: double(2.0), zoom: 3 });
    assert_eq!(s.map, MapState { center_lon: double(1.0), center_lat: double(2.0), zoom: 3 });
    // What is saved comes back.
    let saved = s.map_persist();
    let mut t = state(vec![named("a", 5)], "a");
    t.restore(saved);
    assert_eq!(t.map, s.map);
    s.restore(MapPersist { lon: double(1.0), lat: double(2.0), zoom: 18 });
    assert_eq!(s.map.zoom, 5);
}

#[test]
fn state_file_does_not_depend_on_the_configuration() {
    let env = Environment {
        home: Some(FsPath::from_text("/h")),
        xdg_config_home: None,
        xdg_cache_home: None,
        xdg_state_home: None,
    };
    let s = state(vec![named("a", 5)], "a");
    assert_eq!(s.state_path(&env), FsPath::from_text("/h/.local/state/waltzgps/state.toml"));
}

#[test]
fn a_full_table_is_emptied() {
    let mut s = state(vec![named("a", 5)], "a");
    for x in 0..PIXBUF_CAP as u32 {
        s.insert_pixbuf(key(x), x);
    }
    assert_eq!(s.pixbufs.len(), 2048);
    s.insert_pixbuf(key(5000), 1);
    assert_eq!(s.pixbufs.len(), 1);
    assert_eq!(s.pixbufs.get(key(5000)), Some(&1));
    assert_eq!(s.pixbufs.get(key(0)), None);
}

#[test]
fn tables_agree_with_hash_tables() {
    let mut ours: TileMap<u32> = TileMap::new();
    let mut theirs = std::collections::HashMap::new();
    let mut seed: u32 = 12345;
    for step in 0..2000u32 {
        seed = seed.wrapping_mul(1_103_515_245).wrapping_add(12345);
        let k = TileKey {
            provider: (seed >> 28) as usize % 3,
            tile: TileId::new((seed >> 20) as u8 % 3, (seed >> 10) % 4, (seed >> 14) % 4),
        };
        if seed & 0x100 == 0 {
            ours.insert(k, step);
            theirs.insert(k, step);
        } else {
            assert_eq!(ours.remove(k), theirs.remove(&k).is_some());
        }
        assert_eq!(ours.len(), theirs.len());
        assert_eq!(ours.get(k), theirs.get(&k));
        assert_eq!(ours.contains(k), theirs.contains_key(&k));
    }
    ours.clear();
    assert_eq!(ours.len(), 0);
}

#[test]
fn sets_tell_what_is_new() {
    let mut s = TileSet::new();
    assert!(s.insert(key(1)));
    assert!(!s.insert(key(1)));
    assert!(s.contains(key(1)));
    assert!(s.remove(key(1)));
    assert!(!s.remove(key(1)));
    s.insert(key(2));
    s.clear();
    assert_eq!(s.len(), 0);
}
