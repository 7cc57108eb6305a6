//! What the keys, the navigation pad, the provider menu and the arrival of a
//! tile do to the state.

use crate::app_state;
use crate::app_state::AppState;
#[allow(unused_imports)]
use crate::app_state::AppModel;
use crate::config;
use crate::downloader;
use crate::downloader::{Downloader, TileKey};
#[allow(unused_imports)]
use crate::downloader::DownloaderModel;
use crate::geo::MapState;
use vstd::prelude::*;

verus! {

/// Pixels moved per keyboard or button pan step.
pub const PAN_STEP: i32 = 120;

/// The toolkit's value of the key `1`.
pub const KEY_DIGIT_1: u32 = 0x31;

/// The toolkit's value of the key `9`.
pub const KEY_DIGIT_9: u32 = 0x39;

/// The toolkit's value of the key `I`.
pub const KEY_UPPER_I: u32 = 0x49;

/// The toolkit's value of the key `O`.
pub const KEY_UPPER_O: u32 = 0x4f;

/// The toolkit's value of the key `i`.
pub const KEY_LOWER_I: u32 = 0x69;

/// The toolkit's value of the key `o`.
pub const KEY_LOWER_O: u32 = 0x6f;

/// The toolkit's value of the left arrow key.
pub const KEY_LEFT: u32 = 0xff51;

/// The toolkit's value of the up arrow key.
pub const KEY_UP: u32 = 0xff52;

/// The toolkit's value of the right arrow key.
pub const KEY_RIGHT: u32 = 0xff53;

/// The toolkit's value of the down arrow key.
pub const KEY_DOWN: u32 = 0xff54;

/// What a key press does.
#[derive(Debug, Clone, Copy, PartialEq, Eq, Structural)]
pub enum KeyAction {
    /// Move the view by this many pixels.
    Pan { dx: i32, dy: i32 },
    /// Zoom in or out around the centre.
    Zoom { zoom_in: bool },
    /// Switch to this provider.
    Provider { index: usize },
    /// Nothing; the key is used up.
    Swallow,
    /// Nothing; the key is left to others.
    Ignore,
}

/// The provider that a digit key stands for: `1` for the first one.
pub open spec fn digit_target(keyval: u32) -> Option<usize> {
    if KEY_DIGIT_1 <= keyval <= KEY_DIGIT_9 {
        Some((keyval - KEY_DIGIT_1) as usize)
    } else {
        None
    }
}

/// Maps the digit keys `1` to `9` to zero-based provider indices.
pub fn digit_index(keyval: u32) -> (r: Option<usize>)
    ensures
        r == digit_target(keyval),
{
    if KEY_DIGIT_1 <= keyval && keyval <= KEY_DIGIT_9 {
        Some((keyval - KEY_DIGIT_1) as usize)
    } else {
        None
    }
}

/// What a key does: arrow keys pan, `i` and `o` zoom, digit keys switch
/// provider where there is one.
pub open spec fn action_of(keyval: u32, providers: usize) -> KeyAction {
    if keyval == KEY_UP {
        KeyAction::Pan { dx: 0, dy: (-PAN_STEP) as i32 }
    } else if keyval == KEY_DOWN {
        KeyAction::Pan { dx: 0, dy: PAN_STEP }
    } else if keyval == KEY_LEFT {
        KeyAction::Pan { dx: (-PAN_STEP) as i32, dy: 0 }
    } else if keyval == KEY_RIGHT {
        KeyAction::Pan { dx: PAN_STEP, dy: 0 }
    } else if keyval == KEY_LOWER_I || keyval == KEY_UPPER_I {
        KeyAction::Zoom { zoom_in: true }
    } else if keyval == KEY_LOWER_O || keyval == KEY_UPPER_O {
        KeyAction::Zoom { zoom_in: false }
    } else {
        match digit_target(keyval) {
            Some(index) => if index < providers {
                KeyAction::Provider { index }
            } else {
                KeyAction::Swallow
            },
            None => KeyAction::Ignore,
        }
    }
}

/// Decides what a key press does, given the number of providers.
pub fn key_action(keyval: u32, providers: usize) -> (r: KeyAction)
    ensures
        r == action_of(keyval, providers),
{
    if keyval == KEY_UP {
        KeyAction::Pan { dx: 0, dy: -PAN_STEP }
    } else if keyval == KEY_DOWN {
        KeyAction::Pan { dx: 0, dy: PAN_STEP }
    } else if keyval == KEY_LEFT {
        KeyAction::Pan { dx: -PAN_STEP, dy: 0 }
    } else if keyval == KEY_RIGHT {
        KeyAction::Pan { dx: PAN_STEP, dy: 0 }
    } else if keyval == KEY_LOWER_I || keyval == KEY_UPPER_I {
        KeyAction::Zoom { zoom_in: true }
    } else if keyval == KEY_LOWER_O || keyval == KEY_UPPER_O {
        KeyAction::Zoom { zoom_in: false }
    } else {
        match digit_index(keyval) {
            Some(index) => {
                if index < providers {
                    KeyAction::Provider { index }
                } else {
                    KeyAction::Swallow
                }
            },
            None => KeyAction::Ignore,
        }
    }
}

/// The zoom level one step in or out: in goes no further than the limit, out
/// no further than zero.
pub open spec fn zoom_after(zoom: u8, max_zoom: u8, zoom_in: bool) -> u8 {
    if zoom_in {
        if zoom + 1 <= max_zoom {
            (zoom + 1) as u8
        } else {
            max_zoom
        }
    } else if zoom > 0 {
        (zoom - 1) as u8
    } else {
        0
    }
}

/// The zoom limit in force.
pub open spec fn limit_of<T>(m: AppModel<T>) -> u8 {
    app_state::zoom_limit(m.config.providers, m.active_provider)
}

/// The zoom level one step in or out of the current one.
pub fn zoom_step<T>(state: &AppState<T>, zoom_in: bool) -> (r: u8)
    requires
        zoom_in ==> state.map.zoom < 255,
    ensures
        r == zoom_after(state.map.zoom, limit_of(state@), zoom_in),
{
    if zoom_in {
        let max_zoom: u8 = state.max_zoom();
        if state.map.zoom + 1 <= max_zoom {
            state.map.zoom + 1
        } else {
            max_zoom
        }
    } else {
        state.map.zoom.saturating_sub(1)
    }
}

/// Decides on a zoom around the centre: the new level, or `None` if that is
/// the current one.
pub fn zoom_center<T>(state: &AppState<T>, zoom_in: bool) -> (r: Option<u8>)
    requires
        zoom_in ==> state.map.zoom < 255,
    ensures
        ({
            let next = zoom_after(state.map.zoom, limit_of(state@), zoom_in);
            r == (if next == state.map.zoom {
                None
            } else {
                Some(next)
            })
        }),
{
    let next: u8 = zoom_step(state, zoom_in);
    if next == state.map.zoom {
        None
    } else {
        Some(next)
    }
}

/// Decides how a pinch gesture ends: whether the level that it was nearest
/// to is another than the current one.
pub fn snaps_to<T>(state: &AppState<T>, nearest: u8) -> (r: bool)
    ensures
        r == (nearest != state.map.zoom),
{
    nearest != state.map.zoom
}

/// Takes over a view at another zoom level. What was requested for the old
/// one is no longer wanted.
pub fn zoomed_to<T>(state: &mut AppState<T>, downloader: &mut Downloader, map: MapState)
    requires
        old(state).wf(),
    ensures
        final(state).wf(),
        final(state)@ == (AppModel::<T> { map, inflight: Set::empty(), ..old(state)@ }),
        final(downloader)@ == (DownloaderModel { queue: Seq::empty(), ..old(downloader)@ }),
{
    state.map = map;
    state.inflight.clear();
    downloader.clear_queue();
}

/// The state after a switch to provider `idx`: its zoom limit is kept, and
/// nothing is under way.
pub open spec fn switched<T>(m: AppModel<T>, idx: usize) -> AppModel<T> {
    let max_zoom = app_state::zoom_limit(m.config.providers, idx);
    AppModel {
        active_provider: idx,
        map: MapState {
            zoom: if m.map.zoom > max_zoom {
                max_zoom
            } else {
                m.map.zoom
            },
            ..m.map
        },
        inflight: Set::empty(),
        ..m
    }
}

/// Whether a switch to provider `idx` does anything: there is such a
/// provider, and it is not the active one.
pub open spec fn switches<T>(m: AppModel<T>, idx: usize) -> bool {
    idx < m.config.providers.len() && idx != m.active_provider
}

/// Switches to another provider, so that its view is fetched first. Returns
/// whether anything changed.
pub fn set_provider<T>(state: &mut AppState<T>, downloader: &mut Downloader, idx: usize) -> (r: bool)
    requires
        old(state).wf(),
    ensures
        final(state).wf(),
        r == switches(old(state)@, idx),
        r ==> final(state)@ == switched(old(state)@, idx),
        r ==> final(downloader)@ == (DownloaderModel { queue: Seq::empty(), ..old(downloader)@ }),
        !r ==> final(state)@ == old(state)@ && final(downloader)@ == old(downloader)@,
{
    if idx < state.config.providers.len() && idx != state.active_provider {
        state.active_provider = idx;
        let max_zoom: u8 = state.max_zoom();
        if state.map.zoom > max_zoom {
            state.map.zoom = max_zoom;
        }
        state.inflight.clear();
        downloader.clear_queue();
        true
    } else {
        false
    }
}

/// The state after the answer to a request: the tile is no longer under way,
/// and in memory if it could be decoded.
pub open spec fn answered<T>(m: AppModel<T>, key: TileKey, decoded: Option<T>) -> AppModel<T> {
    AppModel {
        inflight: m.inflight.remove(key),
        pixbufs: match decoded {
            Some(tile) => app_state::with_tile(m.pixbufs, key, tile),
            None => m.pixbufs,
        },
        ..m
    }
}

/// Takes the answer to a request. Returns whether the map has to be redrawn
/// and how many tiles are still under way.
pub fn pump_result<T>(state: &mut AppState<T>, key: TileKey, decoded: Option<T>) -> (r: (
    bool,
    usize,
))
    requires
        old(state).wf(),
    ensures
        final(state).wf(),
        final(state)@ == answered(old(state)@, key, decoded),
        r.0 == (decoded is Some),
        r.1 == final(state)@.inflight.len(),
{
    state.inflight.remove(key);
    let redraw = match decoded {
        Some(tile) => {
            state.insert_pixbuf(key, tile);
            true
        },
        None => false,
    };
    (redraw, state.inflight.len())
}

/// Makes an edited configuration take effect: the workers get the provider
/// list, and requests and tiles that may belong to other providers now are
/// dropped. Returns the active provider, for the menu.
pub fn on_commit<T>(state: &mut AppState<T>, downloader: &mut Downloader) -> (r: usize)
    requires
        old(state).wf(),
        old(downloader)@.list < u64::MAX,
    ensures
        final(state).wf(),
        r == old(state).active_provider,
        final(state)@ == (AppModel::<T> {
            pixbufs: Map::empty(),
            inflight: Set::empty(),
            ..old(state)@
        }),
        final(downloader)@ == (DownloaderModel {
            queue: Seq::empty(),
            ..downloader::with_list(old(downloader)@, old(state)@.config.providers)
        }),
{
    downloader.set_providers(config::copy_providers(&state.config.providers));
    downloader.clear_queue();
    state.pixbufs.clear();
    state.inflight.clear();
    state.active_provider
}

/// Whether the preferences dialog is on the screen. It is not modal, so its
/// menu entry can be chosen while it is.
#[derive(Debug, Clone, Copy, PartialEq, Eq, Structural)]
pub struct PreferencesSlot {
    pub occupied: bool,
}

impl PreferencesSlot {
    /// No dialog is there.
    pub fn new() -> (r: Self)
        ensures
            !r.occupied,
    {
        PreferencesSlot { occupied: false }
    }

    /// Takes the choice of the menu entry. Returns whether a dialog has to be
    /// opened; otherwise the one that is there comes to the front, so that
    /// there is never a second draft.
    pub fn activate(&mut self) -> (r: bool)
        ensures
            r == !old(self).occupied,
            final(self).occupied,
    {
        let opens = !self.occupied;
        self.occupied = true;
        opens
    }

    /// The dialog has been closed.
    pub fn close(&mut self)
        ensures
            !final(self).occupied,
    {
        self.occupied = false;
    }
}

/// No zoom step leads above the limit, except that zooming out never leads
/// further in.
pub proof fn law_zoom_stays_within_limit(zoom: u8, max_zoom: u8, zoom_in: bool)
    ensures
        zoom_in ==> zoom_after(zoom, max_zoom, zoom_in) <= max_zoom,
        !zoom_in ==> zoom_after(zoom, max_zoom, zoom_in) <= zoom,
        zoom <= max_zoom ==> zoom_after(zoom, max_zoom, zoom_in) <= max_zoom,
{
}

/// Zooming out undoes zooming in, below the limit.
pub proof fn law_zoom_out_undoes_zoom_in(zoom: u8, max_zoom: u8)
    requires
        zoom < max_zoom,
    ensures
        zoom_after(zoom_after(zoom, max_zoom, true), max_zoom, false) == zoom,
{
}

/// After a switch the view is within the new provider's limit, and the
/// centre has not moved.
pub proof fn law_switch_keeps_limit<T>(m: AppModel<T>, idx: usize)
    requires
        switches(m, idx),
    ensures
        switched(m, idx).map.zoom <= limit_of(switched(m, idx)),
        switched(m, idx).map.zoom <= m.map.zoom,
        switched(m, idx).map.center_lon == m.map.center_lon,
        switched(m, idx).map.center_lat == m.map.center_lat,
        !switches(switched(m, idx), idx),
{
}

/// The digit keys reach the first nine providers, each by its own key.
pub proof fn law_digits_reach_providers(index: usize, providers: usize)
    requires
        index < 9,
        index < providers,
    ensures
        action_of((KEY_DIGIT_1 + index) as u32, providers) == (KeyAction::Provider { index }),
{
}

/// An answered request is no longer under way, and its tile, if it could be
/// decoded, is in memory.
pub proof fn law_answer_ends_request<T>(m: AppModel<T>, key: TileKey, decoded: Option<T>)
    ensures
        !answered(m, key, decoded).inflight.contains(key),
        decoded is Some ==> {
            &&& answered(m, key, decoded).pixbufs.contains_key(key)
            &&& answered(m, key, decoded).pixbufs[key] == decoded->0
        },
        decoded is None ==> answered(m, key, decoded).pixbufs == m.pixbufs,
        forall|other: TileKey|
            other != key ==> (#[trigger] answered(m, key, decoded).inflight.contains(other)
                <==> m.inflight.contains(other)),
{
}

/// The arrow keys move the view by 120 pixels in their direction, and `i` and
/// `o`, small or capital, zoom in and out, however many providers there are.
pub proof fn law_keys_move_the_view(providers: usize)
    ensures
        action_of(0xff51, providers) == (KeyAction::Pan { dx: (-120) as i32, dy: 0 }),
        action_of(0xff52, providers) == (KeyAction::Pan { dx: 0, dy: (-120) as i32 }),
        action_of(0xff53, providers) == (KeyAction::Pan { dx: 120, dy: 0 }),
        action_of(0xff54, providers) == (KeyAction::Pan { dx: 0, dy: 120 }),
        action_of(0x69, providers) == (KeyAction::Zoom { zoom_in: true }),
        action_of(0x49, providers) == (KeyAction::Zoom { zoom_in: true }),
        action_of(0x6f, providers) == (KeyAction::Zoom { zoom_in: false }),
        action_of(0x4f, providers) == (KeyAction::Zoom { zoom_in: false }),
{
}

/// The digit `n` stands for the provider with `n - 1` before it. Where there
/// is none, the key does nothing. Every other key is left to others.
pub proof fn law_other_keys(keyval: u32, providers: usize)
    ensures
        0x31 <= keyval <= 0x39 ==> {
            &&& digit_target(keyval) == Some((keyval - 0x31) as usize)
            &&& keyval - 0x31 < providers ==> action_of(keyval, providers) == (
            KeyAction::Provider { index: (keyval - 0x31) as usize })
            &&& keyval - 0x31 >= providers ==> action_of(keyval, providers)
                == KeyAction::Swallow
        },
        keyval < 0x31 || keyval > 0x39 ==> digit_target(keyval) is None,
        !(0x31 <= keyval <= 0x39) && !(0xff51 <= keyval <= 0xff54) && keyval
            != 0x69 && keyval != 0x49 && keyval != 0x6f && keyval != 0x4f
            ==> action_of(keyval, providers) == KeyAction::Ignore,
{
}

/// A step in is one level, or to the limit where that is nearer or has been
/// passed. A step out is one level, down to zero.
pub proof fn law_zoom_steps_are_one_level(zoom: u8, max_zoom: u8)
    ensures
        zoom < max_zoom ==> zoom_after(zoom, max_zoom, true) == zoom + 1,
        zoom >= max_zoom ==> zoom_after(zoom, max_zoom, true) == max_zoom,
        zoom > 0 ==> zoom_after(zoom, max_zoom, false) == zoom - 1,
        zoom == 0 ==> zoom_after(zoom, max_zoom, false) == 0,
{
}

/// The limit in force is that of the active provider, and nineteen where there
/// is none.
pub proof fn law_limit_in_force<T>(m: AppModel<T>)
    ensures
        m.active_provider < m.config.providers.len() ==> limit_of(m)
            == m.config.providers[m.active_provider as int].max_zoom,
        m.active_provider >= m.config.providers.len() ==> limit_of(m) == 19,
{
}

/// A switch makes the provider the active one, brings the zoom level down to
/// its limit if it is above, and waits for nothing any more. Everything else
/// stays as it was, the tiles in memory among it.
pub proof fn law_switch_leaves_the_rest<T>(m: AppModel<T>, idx: usize)
    requires
        idx < m.config.providers.len(),
    ensures
        ({
            let after = switched(m, idx);
            let limit = m.config.providers[idx as int].max_zoom;
            &&& switches(m, idx) <==> idx != m.active_provider
            &&& after.active_provider == idx
            &&& m.map.zoom <= limit ==> after.map.zoom == m.map.zoom
            &&& m.map.zoom > limit ==> after.map.zoom == limit
            &&& after.map.center_lon == m.map.center_lon
            &&& after.map.center_lat == m.map.center_lat
            &&& forall|key: TileKey| !(#[trigger] after.inflight.contains(key))
            &&& after.config == m.config
            &&& after.config_path == m.config_path
            &&& after.pixbufs == m.pixbufs
            &&& after.last_pointer == m.last_pointer
            &&& after.drag_start_center == m.drag_start_center
            &&& after.last_click_lonlat == m.last_click_lonlat
        }),
{
}

/// There is no switch to a provider that does not exist.
pub proof fn law_no_switch_beyond_the_list<T>(m: AppModel<T>, idx: usize)
    requires
        idx >= m.config.providers.len(),
    ensures
        !switches(m, idx),
{
}

/// An answer leaves the tiles of other requests in memory while there is room
/// for it, and changes nothing but the tiles and what is under way.
pub proof fn law_answer_leaves_the_rest<T>(
    m: AppModel<T>,
    key: TileKey,
    decoded: Option<T>,
    other: TileKey,
)
    requires
        other != key,
    ensures
        ({
            let after = answered(m, key, decoded);
            &&& m.pixbufs.len() < 2048 || decoded is None ==> {
                &&& after.pixbufs.contains_key(other) <==> m.pixbufs.contains_key(other)
                &&& m.pixbufs.contains_key(other) ==> after.pixbufs[other] == m.pixbufs[other]
            }
            &&& m.pixbufs.len() >= 2048 && decoded is Some ==> !after.pixbufs.contains_key(other)
            &&& after.config == m.config
            &&& after.config_path == m.config_path
            &&& after.map == m.map
            &&& after.active_provider == m.active_provider
            &&& after.last_pointer == m.last_pointer
            &&& after.drag_start_center == m.drag_start_center
            &&& after.last_click_lonlat == m.last_click_lonlat
        }),
{
    if let Some(tile) = decoded {
        app_state::law_tiles_stay_until_there_are_too_many(m.pixbufs, key, tile, other);
    }
}

} // verus!
