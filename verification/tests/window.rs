use waltzgps::app_state::AppState;
use waltzgps::cache::Cache;
use waltzgps::config::{CachePolicy, Config, Provider, Real};
use waltzgps::downloader::{Downloader, TileKey};
use waltzgps::geo::MapState;
use waltzgps::paths::{Environment, FsPath};
use waltzgps::tile::TileId;
use waltzgps::ui::window::{
    digit_index, key_action, on_commit, pump_result, set_provider, snaps_to, zoom_center,
    zoom_step, zoomed_to, KeyAction, KEY_DIGIT_1, KEY_DOWN, KEY_LEFT, KEY_LOWER_I, KEY_LOWER_O,
    KEY_RIGHT, KEY_UP, KEY_UPPER_I, KEY_UPPER_O,
};

fn view(zoom: u8) -> MapState {
    let zero = Real { bits: 0 };
    MapState { center_lon: zero, center_lat: zero, zoom }
}

fn named(name: &str, max_zoom: u8) -> Provider {
    Provider { name: name.into(), url: "u".into(), max_zoom, ..Provider::default() }
}

fn state(zoom: u8) -> AppState<u32> {
    let config = Config { providers: vec![named("a", 9), named("b", 5)], ..Config::default() };
    AppState::new(config, FsPath::from_text("/c"), view(zoom), "a".to_string())
}

fn downloader() -> Downloader {
    let env = Environment {
        home: None,
        xdg_config_home: None,
        xdg_cache_home: None,
        xdg_state_home: None,
    };
    Downloader::new(vec![named("a", 9)], Cache::new(&CachePolicy::default(), &env))
}

fn key(x: u32) -> TileKey {
    TileKey { provider: 0, tile: TileId::new(3, x, 0) }
}

#[test]
fn keys_do_what_the_manual_says() {
    assert_eq!(key_action(KEY_UP, 2), KeyAction::Pan { dx: 0, dy: -120 });
    assert_eq!(key_action(KEY_DOWN, 2), KeyAction::Pan { dx: 0, dy: 120 });
    assert_eq!(key_action(KEY_LEFT, 2), KeyAction::Pan { dx: -120, dy: 0 });
    assert_eq!(key_action(KEY_RIGHT, 2), KeyAction::Pan { dx: 120, dy: 0 });
    assert_eq!(key_action(KEY_LOWER_I, 2), KeyAction::Zoom { zoom_in: true });
    assert_eq!(key_action(KEY_UPPER_I, 2), KeyAction::Zoom { zoom_in: true });
    assert_eq!(key_action(KEY_LOWER_O, 2), KeyAction::Zoom { zoom_in: false });
    assert_eq!(key_action(KEY_UPPER_O, 2), KeyAction::Zoom { zoom_in: false });
    assert_eq!(key_action(KEY_DIGIT_1, 2), KeyAction::Provider { index: 0 });
    assert_eq!(key_action(KEY_DIGIT_1 + 1, 2), KeyAction::Provider { index: 1 });
    assert_eq!(key_action(KEY_DIGIT_1 + 2, 2), KeyAction::Swallow);
    assert_eq!(key_action('q' as u32, 2), KeyAction::Ignore);
    assert_eq!(key_action('0' as u32, 2), KeyAction::Ignore);
}

#[test]
fn digits_count_from_one() {
    for (i, c) in ('1'..='9').enumerate() {
        assert_eq!(digit_index(c as u32), Some(i));
    }
    assert_eq!(digit_index('0' as u32), None);
    assert_eq!(digit_index(':' as u32), None);
}

#[test]
fn zoom_steps_stop_at_the_ends() {
    assert_eq!(zoom_step(&state(3), true), 4);
    assert_eq!(zoom_step(&state(3), false), 2);
    assert_eq!(zoom_step(&state(9), true), 9);
    assert_eq!(zoom_step(&state(12), true), 9);
    assert_eq!(zoom_step(&state(0), false), 0);
    assert_eq!(zoom_center(&state(3), true), Some(4));
    assert_eq!(zoom_center(&state(9), true), None);
    assert_eq!(zoom_center(&state(0), false), None);
    assert_eq!(zoom_center(&state(12), true), Some(9));
}

#[test]
fn zooming_out_undoes_zooming_in() {
    for z in 0..9u8 {
        let further = zoom_step(&state(z), true);
        assert_eq!(zoom_step(&state(further), false), z);
    }
}

#[test]
fn a_gesture_snaps_to_another_level_only() {
    assert!(snaps_to(&state(3), 4));
    assert!(!snaps_to(&state(3), 3));
}

#[test]
fn another_zoom_drops_what_was_wanted() {
    let mut s = state(3);
    let mut d = downloader();
    s.inflight.insert(key(1));
    d.request(key(1));
    zoomed_to(&mut s, &mut d, view(4));
    assert_eq!(s.map, view(4));
    assert_eq!(s.inflight.len(), 0);
    assert!(d.next_step().is_none());
}

#[test]
fn switching_provider_keeps_its_zoom_limit() {
    let mut s = state(8);
    let mut d = downloader();
    s.inflight.insert(key(1));
    d.request(key(1));
    assert!(set_provider(&mut s, &mut d, 1));
    assert_eq!((s.active_provider, s.map.zoom, s.inflight.len()), (1, 5, 0));
    assert!(d.next_step().is_none());
    // Going back does not zoom in again.
    assert!(set_provider(&mut s, &mut d, 0));
    assert_eq!((s.active_provider, s.map.zoom), (0, 5));
}

#[test]
fn switching_to_nowhere_does_nothing() {
    let mut s = state(8);
    let mut d = downloader();
    s.inflight.insert(key(1));
    d.request(key(1));
    assert!(!set_provider(&mut s, &mut d, 0));
    assert!(!set_provider(&mut s, &mut d, 2));
    assert_eq!((s.active_provider, s.map.zoom, s.inflight.len()), (0, 8, 1));
    assert!(d.next_step().is_some());
}

#[test]
fn answers_are_taken_off_the_list() {
    let mut s = state(3);
    s.inflight.insert(key(1));
    s.inflight.insert(key(2));
    assert_eq!(pump_result(&mut s, key(1), Some(7)), (true, 1));
    assert_eq!(s.pixbufs.get(key(1)), Some(&7));
    assert_eq!(pump_result(&mut s, key(2), None), (false, 0));
    assert_eq!(s.pixbufs.get(key(2)), None);
    // An answer that nobody waits for is kept all the same.
    assert_eq!(pump_result(&mut s, key(3), Some(8)), (true, 0));
    assert!(s.pixbufs.contains(key(3)));
}

#[test]
fn a_commit_reaches_the_workers() {
    let mut s = state(3);
    let mut d = downloader();
    s.inflight.insert(key(1));
    s.insert_pixbuf(key(2), 1);
    d.request(key(1));
    assert_eq!(on_commit(&mut s, &mut d), 0);
    assert_eq!((s.inflight.len(), s.pixbufs.len()), (0, 0));
    assert!(d.next_step().is_none());
    // The second provider was not known to the workers before.
    d.request(TileKey { provider: 1, tile: TileId::new(0, 0, 0) });
    assert!(matches!(
        d.next_step(),
        Some(waltzgps::downloader::WorkerStep::LookUp { provider, .. }) if provider.name == "b"
    ));
}

#[test]
fn there_is_one_preferences_dialog_at_a_time() {
    let mut slot = waltzgps::ui::window::PreferencesSlot::new();
    assert!(slot.activate());
    assert!(!slot.activate());
    slot.close();
    assert!(slot.activate());
}
