use waltzgps::app_state::AppState;
use waltzgps::config::{Config, Real};
use waltzgps::downloader::TileKey;
use waltzgps::geo::MapState;
use waltzgps::paths::FsPath;
use waltzgps::tile::TileId;
use waltzgps::ui::map_view::{
    append_tile, child_key, queue_label, snapshot, visible_tiles, Hud, TileSource,
};

fn state(zoom: u8) -> AppState<()> {
    let zero = Real { bits: 0 };
    AppState::new(
        Config::default(),
        FsPath::from_text("/c"),
        MapState { center_lon: zero, center_lat: zero, zoom },
        String::new(),
    )
}

fn key(z: u8, x: u32, y: u32) -> TileKey {
    TileKey { provider: 0, tile: TileId::new(z, x, y) }
}

fn places(z: u8, x0: i64, y0: i64, x1: i64, y1: i64) -> Vec<(i64, i64, u32, u32)> {
    visible_tiles(z, x0, y0, x1, y1)
        .iter()
        .map(|p| (p.tx, p.ty, p.tile.x, p.tile.y))
        .collect()
}

#[test]
fn map_repeats_to_the_sides_only() {
    assert_eq!(
        places(1, -1, -1, 2, 2),
        vec![
            (-1, 0, 1, 0),
            (-1, 1, 1, 1),
            (0, 0, 0, 0),
            (0, 1, 0, 1),
            (1, 0, 1, 0),
            (1, 1, 1, 1),
            (2, 0, 0, 0),
            (2, 1, 0, 1),
        ]
    );
}

#[test]
fn views_off_the_map_are_empty() {
    assert_eq!(places(3, 0, -4, 5, -1), vec![]);
    assert_eq!(places(3, 0, 8, 5, 9), vec![]);
    assert_eq!(places(3, 5, 0, 4, 7), vec![]);
    assert_eq!(places(3, 0, 5, 7, 4), vec![]);
    assert_eq!(places(63, 0, 0, 1, 1), vec![]);
}

#[test]
fn far_away_columns_wrap() {
    assert_eq!(places(0, i64::MAX, 0, i64::MAX, 0), vec![(i64::MAX, 0, 0, 0)]);
    assert_eq!(places(2, i64::MIN, 3, i64::MIN, 3), vec![(i64::MIN, 3, 0, 3)]);
    assert_eq!(places(2, -1, 3, -1, 3), vec![(-1, 3, 3, 3)]);
}

#[test]
fn a_missing_tile_is_requested_once() {
    let mut s = state(3);
    let mut requests = Vec::new();
    let k = key(3, 4, 5);
    assert_eq!(append_tile(&mut s, &mut requests, k, false), TileSource::Placeholder);
    assert_eq!(append_tile(&mut s, &mut requests, k, false), TileSource::Placeholder);
    assert_eq!(requests, vec![k]);
    assert!(s.inflight.contains(k));
}

#[test]
fn a_tile_that_is_there_is_drawn() {
    let mut s = state(3);
    let k = key(3, 4, 5);
    s.insert_pixbuf(k, ());
    let mut requests = Vec::new();
    assert_eq!(append_tile(&mut s, &mut requests, k, false), TileSource::Own);
    assert!(requests.is_empty());
}

#[test]
fn the_nearest_ancestor_stands_in() {
    let mut s = state(6);
    let mut requests = Vec::new();
    let k = key(6, 45, 27);
    s.insert_pixbuf(key(2, 2, 1), ());
    assert_eq!(
        append_tile(&mut s, &mut requests, k, false),
        // 45 = 2 * 16 + 13 and 27 = 16 + 11; each part is 16 pixels wide.
        TileSource::Ancestor { key: key(2, 2, 1), scale: 16, sub_x: 208, sub_y: 176 }
    );
    s.insert_pixbuf(key(5, 22, 13), ());
    assert_eq!(
        append_tile(&mut s, &mut requests, k, false),
        TileSource::Ancestor { key: key(5, 22, 13), scale: 2, sub_x: 128, sub_y: 128 }
    );
    assert_eq!(requests, vec![k]);
}

#[test]
fn ancestors_are_looked_for_four_levels_up() {
    let mut s = state(6);
    let mut requests = Vec::new();
    s.insert_pixbuf(key(1, 1, 0), ());
    assert_eq!(append_tile(&mut s, &mut requests, key(6, 45, 27), false), TileSource::Placeholder);
    assert_eq!(
        append_tile(&mut s, &mut requests, key(2, 2, 1), false),
        TileSource::Ancestor { key: key(1, 1, 0), scale: 2, sub_x: 0, sub_y: 128 }
    );
    // There is nothing above the whole world.
    assert_eq!(append_tile(&mut s, &mut requests, key(0, 0, 0), false), TileSource::Placeholder);
}

#[test]
fn dense_outputs_are_drawn_from_the_children() {
    let mut s = state(3);
    let k = key(3, 4, 5);
    s.insert_pixbuf(k, ());
    let children = vec![key(4, 8, 10), key(4, 9, 10), key(4, 8, 11), key(4, 9, 11)];
    assert_eq!((0..4).map(|i| child_key(k, i)).collect::<Vec<_>>(), children);

    let mut requests = Vec::new();
    assert_eq!(append_tile(&mut s, &mut requests, k, true), TileSource::Own);
    assert_eq!(requests, children);
    for c in &children[..3] {
        s.insert_pixbuf(*c, ());
    }
    assert_eq!(append_tile(&mut s, &mut requests, k, true), TileSource::Own);
    s.insert_pixbuf(children[3], ());
    assert_eq!(append_tile(&mut s, &mut requests, k, true), TileSource::Composite);
    assert_eq!(requests, children);
}

#[test]
fn the_deepest_level_has_no_children() {
    let mut s = state(3);
    let mut requests = Vec::new();
    let k = key(255, 0, 0);
    assert_eq!(append_tile(&mut s, &mut requests, k, true), TileSource::Placeholder);
    assert_eq!(requests, vec![k]);
}

#[test]
fn a_picture_requests_what_is_missing() {
    let mut s = state(1);
    s.insert_pixbuf(key(1, 1, 0), ());
    let f = snapshot(&mut s, 0, 0, 2, 0, 1);
    let drawn: Vec<_> = f.tiles.iter().map(|t| (t.tx, t.ty, t.key, t.source)).collect();
    assert_eq!(
        drawn,
        vec![
            (0, 0, key(1, 0, 0), TileSource::Placeholder),
            (1, 0, key(1, 1, 0), TileSource::Own),
            (2, 0, key(1, 0, 0), TileSource::Placeholder),
        ]
    );
    assert_eq!(f.requests, vec![key(1, 0, 0)]);
    assert_eq!(f.pending, 1);
    // Drawing again asks for nothing more.
    let again = snapshot(&mut s, 0, 0, 2, 0, 1);
    assert!(again.requests.is_empty());
    assert_eq!(again.pending, 1);
}

#[test]
fn a_dense_picture_requests_children_and_tile() {
    let mut s = state(0);
    let f = snapshot(&mut s, 0, 0, 0, 0, 2);
    assert_eq!(
        f.requests,
        vec![key(1, 0, 0), key(1, 1, 0), key(1, 0, 1), key(1, 1, 1), key(0, 0, 0)]
    );
    assert_eq!(f.tiles[0].source, TileSource::Placeholder);
    assert_eq!(f.pending, 5);
}

#[test]
fn indicators_are_refreshed_on_change_only() {
    let mut hud = Hud::default();
    assert!(hud.update(3, 0));
    assert!(!hud.update(3, 0));
    assert!(hud.update(3, 1));
    assert!(hud.update(4, 1));
    assert_eq!(hud.zoom_label(), "4");
    assert_eq!(queue_label(0), None);
    assert_eq!(queue_label(12), Some("\u{2b07} 12".to_string()));
}
