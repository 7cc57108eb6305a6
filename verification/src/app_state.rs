//! The state of the application: configuration, view and tiles in memory.

use crate::config;
use crate::config::{Config, Real};
#[allow(unused_imports)]
use crate::config::{ConfigModel, ProviderModel};
use crate::downloader::TileKey;
use crate::geo::MapState;
use crate::paths::{Environment, FsPath};
use crate::persist;
use crate::persist::MapPersist;
use crate::tile_map::{TileMap, TileSet};
use vstd::prelude::*;

verus! {

/// Cap on decoded tiles kept in memory; the disk cache is the real store.
pub const PIXBUF_CAP: usize = 2048;

/// The state of the application. `T` is a decoded tile, ready to paint.
pub struct AppState<T> {
    pub config: Config,
    /// Path the configuration was loaded from; edits are written back here.
    pub config_path: FsPath,
    pub map: MapState,
    pub active_provider: usize,
    /// Decoded tiles.
    pub pixbufs: TileMap<T>,
    /// Tiles requested from the downloader and not yet answered.
    pub inflight: TileSet,
    /// Last known pointer position over the map.
    pub last_pointer: (Real, Real),
    /// Map centre, in world pixels, at the start of a drag gesture.
    pub drag_start_center: (Real, Real),
    /// Geographic point of the most recent right-click.
    pub last_click_lonlat: (Real, Real),
}

/// The value of an [`AppState`].
pub struct AppModel<T> {
    pub config: ConfigModel,
    pub config_path: Seq<u8>,
    pub map: MapState,
    pub active_provider: usize,
    pub pixbufs: Map<TileKey, T>,
    pub inflight: Set<TileKey>,
    pub last_pointer: (Real, Real),
    pub drag_start_center: (Real, Real),
    pub last_click_lonlat: (Real, Real),
}

impl<T> View for AppState<T> {
    type V = AppModel<T>;

    open spec fn view(&self) -> AppModel<T> {
        AppModel {
            config: self.config@,
            config_path: self.config_path@,
            map: self.map,
            active_provider: self.active_provider,
            pixbufs: self.pixbufs@,
            inflight: self.inflight@,
            last_pointer: self.last_pointer,
            drag_start_center: self.drag_start_center,
            last_click_lonlat: self.last_click_lonlat,
        }
    }
}

/// The zoom limit of a provider, or the default limit if there is no such
/// provider.
pub open spec fn zoom_limit(providers: Seq<ProviderModel>, active: usize) -> u8 {
    if active < providers.len() {
        providers[active as int].max_zoom
    } else {
        config::DEFAULT_MAX_ZOOM
    }
}

/// The decoded tiles after one more has come in. A full table is emptied
/// first.
pub open spec fn with_tile<T>(tiles: Map<TileKey, T>, key: TileKey, tile: T) -> Map<TileKey, T> {
    if tiles.len() >= PIXBUF_CAP {
        Map::empty().insert(key, tile)
    } else {
        tiles.insert(key, tile)
    }
}

/// The double zero.
pub open spec fn real_zero() -> Real {
    Real { bits: 0 }
}

impl<T> AppState<T> {
    /// Whether the tables are in order and no more tiles are in memory than
    /// the cap allows.
    pub open spec fn wf(&self) -> bool {
        &&& self.pixbufs.wf()
        &&& self.inflight.wf()
        &&& self.pixbufs@.dom().finite()
        &&& self.pixbufs@.len() <= PIXBUF_CAP
    }

    /// The state at start-up: no tiles, the provider called `provider` (or
    /// the first one) active.
    pub fn new(config: Config, config_path: FsPath, map: MapState, provider: String) -> (r: Self)
        ensures
            r.wf(),
            r.config == config,
            config::named_index(config@.providers, provider@, r.active_provider as int),
            r@ == (AppModel::<T> {
                config: config@,
                config_path: config_path@,
                map,
                active_provider: r.active_provider,
                pixbufs: Map::empty(),
                inflight: Set::empty(),
                last_pointer: (real_zero(), real_zero()),
                drag_start_center: (real_zero(), real_zero()),
                last_click_lonlat: (real_zero(), real_zero()),
            }),
    {
        let zero = Real { bits: 0 };
        let active_provider: usize = config.provider_index(provider);
        AppState {
            config,
            config_path,
            map,
            active_provider,
            pixbufs: TileMap::new(),
            inflight: TileSet::new(),
            last_pointer: (zero, zero),
            drag_start_center: (zero, zero),
            last_click_lonlat: (zero, zero),
        }
    }

    /// Path of the file with the last position and zoom.
    pub fn state_path(&self, env: &Environment) -> (r: FsPath)
        ensures
            r@ == persist::state_file(*env),
    {
        MapPersist::path(env)
    }

    /// The current view, for persistence.
    pub fn map_persist(&self) -> (r: MapPersist)
        ensures
            r == (MapPersist {
                lon: self.map.center_lon,
                lat: self.map.center_lat,
                zoom: self.map.zoom,
            }),
    {
        MapPersist { lon: self.map.center_lon, lat: self.map.center_lat, zoom: self.map.zoom }
    }

    /// Goes back to a saved view. The caller has brought its latitude within
    /// the bounds of the projection.
    pub fn restore(&mut self, saved: MapPersist)
        requires
            old(self).wf(),
        ensures
            final(self).wf(),
            final(self)@ == (AppModel::<T> {
                map: persist::restored(
                    saved,
                    zoom_limit(old(self)@.config.providers, old(self).active_provider),
                ),
                ..old(self)@
            }),
    {
        let max_zoom: u8 = self.max_zoom();
        let zoom: u8 = if saved.zoom <= max_zoom {
            saved.zoom
        } else {
            max_zoom
        };
        self.map = MapState { center_lon: saved.lon, center_lat: saved.lat, zoom };
    }

    /// Zoom limit of the active provider.
    pub fn max_zoom(&self) -> (r: u8)
        ensures
            r == zoom_limit(self@.config.providers, self.active_provider),
    {
        if self.active_provider < self.config.providers.len() {
            self.config.providers[self.active_provider].max_zoom
        } else {
            19
        }
    }

    /// Inserts a decoded tile, discarding the whole in-memory set if it has
    /// grown to the cap.
    pub fn insert_pixbuf(&mut self, key: TileKey, pb: T)
        requires
            old(self).wf(),
        ensures
            final(self).wf(),
            final(self)@ == (AppModel::<T> {
                pixbufs: with_tile(old(self)@.pixbufs, key, pb),
                ..old(self)@
            }),
    {
        if self.pixbufs.len() >= PIXBUF_CAP {
            self.pixbufs.clear();
        }
        self.pixbufs.insert(key, pb);
    }
}

/// What was saved is what is restored, as long as the zoom is permitted.
pub proof fn law_restore_undoes_save<T>(state: AppState<T>, saved: MapPersist, max_zoom: u8)
    requires
        saved == (MapPersist {
            lon: state.map.center_lon,
            lat: state.map.center_lat,
            zoom: state.map.zoom,
        }),
    ensures
        state.map.zoom <= max_zoom ==> persist::restored(saved, max_zoom) == state.map,
        persist::restored(saved, max_zoom).zoom <= max_zoom,
{
}

/// A tile that has come in is there, and no more tiles are in memory than
/// the cap allows.
pub proof fn law_tiles_stay_within_cap<T>(tiles: Map<TileKey, T>, key: TileKey, tile: T)
    requires
        tiles.dom().finite(),
        tiles.len() <= PIXBUF_CAP,
    ensures
        with_tile(tiles, key, tile).dom().finite(),
        with_tile(tiles, key, tile).len() <= PIXBUF_CAP,
        with_tile(tiles, key, tile).contains_key(key),
        with_tile(tiles, key, tile)[key] == tile,
{
}

/// The zoom limit is that of the active provider, and nineteen where there is
/// none.
pub proof fn law_zoom_limit_of_the_active_provider(ps: Seq<ProviderModel>, active: usize)
    ensures
        active < ps.len() ==> zoom_limit(ps, active) == ps[active as int].max_zoom,
        active >= ps.len() ==> zoom_limit(ps, active) == 19,
{
}

/// Below 2048 tiles, one that comes in leaves every other one in memory as it
/// is. From then on it leaves none.
pub proof fn law_tiles_stay_until_there_are_too_many<T>(
    tiles: Map<TileKey, T>,
    key: TileKey,
    tile: T,
    other: TileKey,
)
    requires
        other != key,
    ensures
        with_tile(tiles, key, tile).contains_key(key),
        with_tile(tiles, key, tile)[key] == tile,
        tiles.len() < 2048 ==> {
            &&& with_tile(tiles, key, tile).contains_key(other) <==> tiles.contains_key(other)
            &&& tiles.contains_key(other) ==> with_tile(tiles, key, tile)[other] == tiles[other]
        },
        tiles.len() >= 2048 ==> !with_tile(tiles, key, tile).contains_key(other),
{
}

/// The double zero has no bit set.
pub proof fn law_zero_has_no_bits()
    ensures
        real_zero().bits == 0,
{
}

} // verus!
