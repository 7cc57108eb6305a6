//! What the map widget draws: which tiles are visible, what stands in for a
//! tile that is not there yet, and which tiles have to be requested.

use crate::app_state::AppState;
#[allow(unused_imports)]
use crate::app_state::AppModel;
use crate::downloader::TileKey;
use crate::geo;
use crate::text;
use crate::tile::TileId;
#[allow(unused_imports)]
use crate::ui::map_laws;
#[allow(unused_imports)]
use vstd::arithmetic::power2::*;
use vstd::prelude::*;

verus! {

/// How many zoom levels up a stand-in for a missing tile is looked for.
pub const MAX_ANCESTOR_LEVELS: u8 = 4;

/// One of the four tiles, one zoom level further in, that cover a tile:
/// north-west, north-east, south-west, south-east.
pub open spec fn child(key: TileKey, i: int) -> TileKey {
    TileKey {
        provider: key.provider,
        tile: TileId {
            z: (key.tile.z + 1) as u8,
            x: (key.tile.x * 2 + i % 2) as u32,
            y: (key.tile.y * 2 + i / 2) as u32,
        },
    }
}

/// Whether the coordinates of a tile's children can be told.
pub open spec fn has_children(tile: TileId) -> bool {
    &&& tile.x < 0x8000_0000
    &&& tile.y < 0x8000_0000
}

/// The tile, `n` zoom levels further out, that covers a tile.
pub open spec fn ancestor(key: TileKey, n: int) -> TileKey {
    TileKey {
        provider: key.provider,
        tile: TileId {
            z: (key.tile.z - n) as u8,
            x: (key.tile.x as int / pow2(n as nat) as int) as u32,
            y: (key.tile.y as int / pow2(n as nat) as int) as u32,
        },
    }
}

/// What is drawn in the slot of a tile.
#[derive(Debug, Clone, Copy, PartialEq, Eq, Structural)]
pub enum TileSource {
    /// The four children of the tile, each in its quarter of the slot.
    Composite,
    /// The tile itself.
    Own,
    /// A tile further out, magnified `scale` times. The part that belongs in
    /// the slot begins at the pixel `(sub_x, sub_y)` of that tile.
    Ancestor { key: TileKey, scale: u32, sub_x: u32, sub_y: u32 },
    /// Nothing but a colour.
    Placeholder,
}

/// The tiles that are under way, and those that have been added to them so
/// far, in order.
pub struct Pending {
    pub inflight: Set<TileKey>,
    pub requests: Seq<TileKey>,
}

/// Asks for a tile, unless it is under way.
pub open spec fn want(p: Pending, key: TileKey) -> Pending {
    if p.inflight.contains(key) {
        p
    } else {
        Pending { inflight: p.inflight.insert(key), requests: p.requests.push(key) }
    }
}

/// Asks for those of the first `n` children that are not there.
pub open spec fn want_children(p: Pending, tiles: Set<TileKey>, key: TileKey, n: int) -> Pending
    decreases n,
{
    if n <= 0 {
        p
    } else {
        let q = want_children(p, tiles, key, n - 1);
        if tiles.contains(child(key, n - 1)) {
            q
        } else {
            want(q, child(key, n - 1))
        }
    }
}

/// Whether all four children are there.
pub open spec fn all_children(tiles: Set<TileKey>, key: TileKey) -> bool {
    forall|i: int| 0 <= i < 4 ==> tiles.contains(#[trigger] child(key, i))
}

/// The nearest tile further out that is there, looked for from `n` levels up
/// to the limit.
pub open spec fn nearest_ancestor(tiles: Set<TileKey>, key: TileKey, n: int) -> TileSource
    decreases MAX_ANCESTOR_LEVELS + 1 - n,
{
    if n > MAX_ANCESTOR_LEVELS || key.tile.z < n {
        TileSource::Placeholder
    } else if tiles.contains(ancestor(key, n)) {
        let scale = pow2(n as nat) as int;
        TileSource::Ancestor {
            key: ancestor(key, n),
            scale: scale as u32,
            sub_x: ((key.tile.x as int % scale) * (geo::TILE_SIZE as int / scale)) as u32,
            sub_y: ((key.tile.y as int % scale) * (geo::TILE_SIZE as int / scale)) as u32,
        }
    } else {
        nearest_ancestor(tiles, key, n + 1)
    }
}

/// Whether a slot is to be filled with a tile's children.
pub open spec fn composes(key: TileKey, hidpi: bool) -> bool {
    hidpi && key.tile.z < 255
}

/// The requests after the children of a tile have been looked at.
pub open spec fn after_children(
    tiles: Set<TileKey>,
    p: Pending,
    key: TileKey,
    hidpi: bool,
) -> Pending {
    if composes(key, hidpi) {
        want_children(p, tiles, key, 4)
    } else {
        p
    }
}

/// What is drawn for a tile: its children on a high-density output if all
/// four are there, else the tile itself, else a tile further out, else
/// nothing.
pub open spec fn tile_source(tiles: Set<TileKey>, key: TileKey, hidpi: bool) -> TileSource {
    if composes(key, hidpi) && all_children(tiles, key) {
        TileSource::Composite
    } else if tiles.contains(key) {
        TileSource::Own
    } else {
        nearest_ancestor(tiles, key, 1)
    }
}

/// The requests after a tile has been drawn: the missing children on a
/// high-density output, and the tile itself if something stood in for it.
pub open spec fn after_tile(
    tiles: Set<TileKey>,
    p: Pending,
    key: TileKey,
    hidpi: bool,
) -> Pending {
    let q = after_children(tiles, p, key, hidpi);
    if composes(key, hidpi) && all_children(tiles, key) || tiles.contains(key) {
        q
    } else {
        want(q, key)
    }
}

/// What is under way in a state, with the requests added so far.
pub open spec fn pending_of<T>(state: AppState<T>, requests: Seq<TileKey>) -> Pending {
    Pending { inflight: state.inflight@, requests }
}

/// The tile in a quarter of `key`'s slot.
pub fn child_key(key: TileKey, i: u32) -> (r: TileKey)
    requires
        i < 4,
        key.tile.z < 255,
        has_children(key.tile),
    ensures
        r == child(key, i as int),
{
    TileKey {
        provider: key.provider,
        tile: TileId::new(key.tile.z + 1, key.tile.x * 2 + i % 2, key.tile.y * 2 + i / 2),
    }
}

/// Asks for a tile, unless it is under way.
fn request_tile<T>(state: &mut AppState<T>, requests: &mut Vec<TileKey>, key: TileKey)
    requires
        old(state).wf(),
    ensures
        final(state).wf(),
        final(state)@ == (AppModel::<T> {
            inflight: want(pending_of(*old(state), old(requests)@), key).inflight,
            ..old(state)@
        }),
        final(requests)@ == want(pending_of(*old(state), old(requests)@), key).requests,
{
    let ghost was = state.inflight@;
    if state.inflight.insert(key) {
        requests.push(key);
    } else {
        proof {
            assert(was.insert(key) =~= was);
        }
    }
}

/// Whether the four children of a tile are there. Asks for those that are
/// not.
fn append_hidpi_composite<T>(
    state: &mut AppState<T>,
    requests: &mut Vec<TileKey>,
    key: TileKey,
) -> (r: bool)
    requires
        old(state).wf(),
        key.tile.z < 255 ==> has_children(key.tile),
    ensures
        final(state).wf(),
        ({
            let tiles = old(state)@.pixbufs.dom();
            let p = after_children(tiles, pending_of(*old(state), old(requests)@), key, true);
            &&& r == (key.tile.z < 255 && all_children(tiles, key))
            &&& final(state)@ == (AppModel::<T> { inflight: p.inflight, ..old(state)@ })
            &&& final(requests)@ == p.requests
        }),
{
    if key.tile.z == 255 {
        return false;
    }
    let ghost tiles = state@.pixbufs.dom();
    let ghost p = pending_of(*state, requests@);
    let mut all_present = true;
    let mut i: u32 = 0;
    while i < 4
        invariant
            i <= 4,
            state.wf(),
            key.tile.z < 255,
            has_children(key.tile),
            tiles == old(state)@.pixbufs.dom(),
            p == pending_of(*old(state), old(requests)@),
            state@ == (AppModel::<T> {
                inflight: want_children(p, tiles, key, i as int).inflight,
                ..old(state)@
            }),
            requests@ == want_children(p, tiles, key, i as int).requests,
            all_present == (forall|k: int| 0 <= k < i ==> tiles.contains(#[trigger] child(key, k))),
        decreases 4 - i,
    {
        let ckey = child_key(key, i);
        if !state.pixbufs.contains(ckey) {
            proof {
                assert(!tiles.contains(child(key, i as int)));
            }
            all_present = false;
            request_tile(state, requests, ckey);
        } else {
            proof {
                assert(tiles.contains(child(key, i as int)));
            }
        }
        i += 1;
    }
    all_present
}

/// The nearest tile further out that is there and can stand in for a missing
/// tile.
fn append_ancestor_fallback<T>(state: &AppState<T>, key: TileKey) -> (r: TileSource)
    requires
        state.wf(),
    ensures
        r == nearest_ancestor(state@.pixbufs.dom(), key, 1),
{
    let ghost tiles = state@.pixbufs.dom();
    let mut n: u8 = 1;
    let mut scale: u32 = 2;
    proof {
        lemma2_to64();
    }
    while n <= MAX_ANCESTOR_LEVELS && n <= key.tile.z
        invariant
            1 <= n <= MAX_ANCESTOR_LEVELS + 1,
            scale == pow2(n as nat),
            scale == 2 || scale == 4 || scale == 8 || scale == 16 || scale == 32,
            n <= 4 ==> scale <= 16,
            state.wf(),
            tiles == state@.pixbufs.dom(),
            nearest_ancestor(tiles, key, 1) == nearest_ancestor(tiles, key, n as int),
        decreases MAX_ANCESTOR_LEVELS + 1 - n,
    {
        let akey = TileKey {
            provider: key.provider,
            tile: TileId::new(key.tile.z - n, key.tile.x / scale, key.tile.y / scale),
        };
        proof {
            assert(akey == ancestor(key, n as int));
        }
        if state.pixbufs.contains(akey) {
            let part: u32 = geo::TILE_SIZE / scale;
            proof {
                assert(part <= 128) by (nonlinear_arith)
                    requires
                        part == 256u32 / scale,
                        scale >= 2,
                ;
                assert((key.tile.x % scale) * part <= 15 * 128) by (nonlinear_arith)
                    requires
                        key.tile.x % scale <= 15,
                        part <= 128,
                ;
                assert((key.tile.y % scale) * part <= 15 * 128) by (nonlinear_arith)
                    requires
                        key.tile.y % scale <= 15,
                        part <= 128,
                ;
            }
            return TileSource::Ancestor {
                key: akey,
                scale,
                sub_x: (key.tile.x % scale) * part,
                sub_y: (key.tile.y % scale) * part,
            };
        }
        proof {
            lemma2_to64();
            lemma_pow2_unfold((n + 1) as nat);
        }
        n = n + 1;
        scale = scale * 2;
    }
    TileSource::Placeholder
}

/// Decides what is drawn in the slot of a tile, and asks for whatever is
/// missing along the way.
pub fn append_tile<T>(
    state: &mut AppState<T>,
    requests: &mut Vec<TileKey>,
    key: TileKey,
    hidpi: bool,
) -> (r: TileSource)
    requires
        old(state).wf(),
        composes(key, hidpi) ==> has_children(key.tile),
    ensures
        final(state).wf(),
        r == tile_source(old(state)@.pixbufs.dom(), key, hidpi),
        ({
            let p = after_tile(
                old(state)@.pixbufs.dom(),
                pending_of(*old(state), old(requests)@),
                key,
                hidpi,
            );
            &&& final(state)@ == (AppModel::<T> { inflight: p.inflight, ..old(state)@ })
            &&& final(requests)@ == p.requests
        }),
{
    if hidpi && append_hidpi_composite(state, requests, key) {
        return TileSource::Composite;
    }
    if state.pixbufs.contains(key) {
        return TileSource::Own;
    }
    let source = append_ancestor_fallback(state, key);
    request_tile(state, requests, key);
    source
}

/// A tile's place in the view: its column and row on an unbounded plane of
/// tiles, and the tile that is shown there.
#[derive(Debug, Clone, Copy, PartialEq, Eq, Structural)]
pub struct Placement {
    pub tx: i64,
    pub ty: i64,
    pub tile: TileId,
}

/// How many rows of tiles the map has at a zoom level. At 63, where the
/// count has no room left, there are none.
pub open spec fn grid_rows(z: u8) -> int {
    if z < 63 {
        pow2(z as nat) as int
    } else {
        0
    }
}

/// What is shown in a column and row: the map repeats from west to east.
/// Coordinates are cut down to 32 bits.
pub open spec fn placement(z: u8, tx: int, ty: int) -> Placement {
    Placement {
        tx: tx as i64,
        ty: ty as i64,
        tile: TileId {
            z,
            x: ((tx % grid_rows(z)) % 0x1_0000_0000) as u32,
            y: (ty % 0x1_0000_0000) as u32,
        },
    }
}

/// The first visible row: the map does not repeat to the north.
pub open spec fn first_row(y0: int) -> int {
    if y0 < 0 {
        0
    } else {
        y0
    }
}

/// The last visible row: the map does not repeat to the south.
pub open spec fn last_row(z: u8, y1: int) -> int {
    if y1 < grid_rows(z) {
        y1
    } else {
        grid_rows(z) - 1
    }
}

/// The rows `lo..=hi` of one column, from north to south.
pub open spec fn column(z: u8, tx: int, lo: int, hi: int) -> Seq<Placement> {
    Seq::new(
        if lo <= hi {
            (hi - lo + 1) as nat
        } else {
            0
        },
        |k: int| placement(z, tx, lo + k),
    )
}

/// The rows `lo..=hi` of the columns `x0..=x1`, column by column from west to
/// east.
pub open spec fn columns(z: u8, x0: int, x1: int, lo: int, hi: int) -> Seq<Placement>
    decreases x1 - x0 + 1,
{
    if x1 < x0 {
        Seq::empty()
    } else {
        columns(z, x0, x1 - 1, lo, hi) + column(z, x1, lo, hi)
    }
}

/// The tiles in the columns `x0..=x1` and rows `y0..=y1` of the plane.
pub open spec fn visible(z: u8, x0: int, y0: int, x1: int, y1: int) -> Seq<Placement> {
    columns(z, x0, x1, first_row(y0), last_row(z, y1))
}

/// The tiles in the columns `x0..=x1` and rows `y0..=y1` of the plane,
/// without the rows that lie off the map.
pub fn visible_tiles(z: u8, x0: i64, y0: i64, x1: i64, y1: i64) -> (r: Vec<Placement>)
    requires
        z < 64,
    ensures
        r@ == visible(z, x0 as int, y0 as int, x1 as int, y1 as int),
{
    let mut out: Vec<Placement> = Vec::new();
    let count: i64 = geo::tile_count(z);
    let lo: i128 = if y0 < 0 {
        0
    } else {
        y0 as i128
    };
    let hi: i128 = if z == 63 {
        if y1 < 0 {
            y1 as i128
        } else {
            -1
        }
    } else if y1 < count {
        y1 as i128
    } else {
        count as i128 - 1
    };
    let ghost first = first_row(y0 as int);
    let ghost last = last_row(z, y1 as int);
    proof {
        if z < 63 {
            lemma_pow2_pos(z as nat);
        }
    }
    let mut tx: i128 = x0 as i128;
    while tx <= x1 as i128
        invariant
            z < 64,
            z < 63 ==> count == grid_rows(z) && count > 0,
            lo == first,
            hi == last,
            0 <= lo <= i64::MAX,
            i64::MIN <= hi <= i64::MAX,
            z == 63 ==> hi < 0,
            z < 63 ==> hi < count,
            i64::MIN <= x0 <= tx,
            x0 <= x1 ==> tx <= x1 + 1,
            x1 < x0 ==> tx == x0,
            x1 <= i64::MAX,
            out@ == columns(z, x0 as int, tx - 1, first, last),
        decreases x1 - tx + 1,
    {
        let ghost start = out@;
        proof {
            assert(start + column(z, tx as int, lo as int, lo - 1) =~= start);
        }
        let mut ty: i128 = lo;
        while ty <= hi
            invariant
                z < 64,
                z < 63 ==> count == grid_rows(z) && count > 0,
                lo == first,
                hi == last,
                0 <= lo <= ty,
                lo <= hi ==> ty <= hi + 1,
                hi < lo ==> ty == lo,
                hi <= i64::MAX,
                z == 63 ==> hi < 0,
                i64::MIN <= tx <= i64::MAX,
                out@ == start + column(z, tx as int, lo as int, ty - 1),
            decreases hi - ty + 1,
        {
            let column_at: i64 = tx as i64;
            let wrapped: i64 = match column_at.checked_rem_euclid(count) {
                Some(w) => w,
                None => 0,
            };
            proof {
                assert(wrapped == (tx as int) % grid_rows(z));
            }
            let place = Placement {
                tx: column_at,
                ty: ty as i64,
                tile: TileId::new(
                    z,
                    (wrapped as u64 % 0x1_0000_0000) as u32,
                    (ty as u64 % 0x1_0000_0000) as u32,
                ),
            };
            out.push(place);
            proof {
                assert(place == placement(z, tx as int, ty as int));
                assert(column(z, tx as int, lo as int, ty as int) =~= column(
                    z,
                    tx as int,
                    lo as int,
                    ty - 1,
                ).push(place));
                assert(out@ =~= start + column(z, tx as int, lo as int, ty as int));
            }
            ty = ty + 1;
        }
        proof {
            assert(column(z, tx as int, lo as int, ty - 1) =~= column(z, tx as int, first, last));
            assert(columns(z, x0 as int, tx as int, first, last) == columns(
                z,
                x0 as int,
                tx - 1,
                first,
                last,
            ) + column(z, tx as int, first, last));
        }
        tx = tx + 1;
    }
    proof {
        assert(x0 <= x1 ==> tx - 1 == x1);
        if x1 < x0 {
            assert(columns(z, x0 as int, tx - 1, first, last) =~= columns(
                z,
                x0 as int,
                x1 as int,
                first,
                last,
            ));
        }
    }
    out
}

/// A slot of the view and what is drawn in it.
#[derive(Debug, Clone, Copy, PartialEq, Eq, Structural)]
pub struct DrawnTile {
    pub tx: i64,
    pub ty: i64,
    pub key: TileKey,
    pub source: TileSource,
}

/// What is drawn in one slot.
pub open spec fn drawn(tiles: Set<TileKey>, provider: usize, p: Placement, hidpi: bool) -> DrawnTile {
    let key = TileKey { provider, tile: p.tile };
    DrawnTile { tx: p.tx, ty: p.ty, key, source: tile_source(tiles, key, hidpi) }
}

/// The requests after the first `n` slots have been drawn.
pub open spec fn after_slots(
    tiles: Set<TileKey>,
    provider: usize,
    slots: Seq<Placement>,
    n: int,
    p: Pending,
    hidpi: bool,
) -> Pending
    decreases n,
{
    if n <= 0 {
        p
    } else {
        after_tile(
            tiles,
            after_slots(tiles, provider, slots, n - 1, p, hidpi),
            TileKey { provider, tile: slots[n - 1].tile },
            hidpi,
        )
    }
}

/// One picture of the map.
#[derive(Debug)]
pub struct Frame {
    /// The slots, in the order in which they are drawn.
    pub tiles: Vec<DrawnTile>,
    /// The tiles to request from the downloader, in order.
    pub requests: Vec<TileKey>,
    /// How many tiles are under way afterwards.
    pub pending: usize,
}

/// Whether an output is dense enough to draw each tile from its children.
pub open spec fn is_hidpi(scale_factor: i32) -> bool {
    scale_factor >= 2
}

/// Whether the coordinates of the children of all visible tiles can be told,
/// as they can at every zoom level below 32.
pub open spec fn all_have_children(z: u8, x0: int, y0: int, x1: int, y1: int) -> bool {
    z < 32 || forall|i: int|
        0 <= i < visible(z, x0, y0, x1, y1).len() ==> has_children(
            (#[trigger] visible(z, x0, y0, x1, y1)[i]).tile,
        )
}

/// Decides what is drawn in the columns `x0..=x1` and rows `y0..=y1` of the
/// plane of tiles, for the active provider at the current zoom.
pub fn snapshot<T>(
    state: &mut AppState<T>,
    x0: i64,
    y0: i64,
    x1: i64,
    y1: i64,
    scale_factor: i32,
) -> (r: Frame)
    requires
        old(state).wf(),
        old(state).map.zoom < 64,
        is_hidpi(scale_factor) ==> all_have_children(
            old(state).map.zoom,
            x0 as int,
            y0 as int,
            x1 as int,
            y1 as int,
        ),
    ensures
        final(state).wf(),
        ({
            let slots = visible(
                old(state).map.zoom,
                x0 as int,
                y0 as int,
                x1 as int,
                y1 as int,
            );
            let tiles = old(state)@.pixbufs.dom();
            let p = after_slots(
                tiles,
                old(state).active_provider,
                slots,
                slots.len() as int,
                Pending { inflight: old(state)@.inflight, requests: Seq::empty() },
                is_hidpi(scale_factor),
            );
            &&& r.tiles@ == slots.map_values(
                |s: Placement| drawn(tiles, old(state).active_provider, s, is_hidpi(scale_factor)),
            )
            &&& r.requests@ == p.requests
            &&& r.pending == p.inflight.len()
            &&& final(state)@ == (AppModel::<T> { inflight: p.inflight, ..old(state)@ })
        }),
{
    let hidpi = scale_factor >= 2;
    let provider: usize = state.active_provider;
    let slots = visible_tiles(state.map.zoom, x0, y0, x1, y1);
    let ghost tiles = state@.pixbufs.dom();
    let ghost start = Pending { inflight: state@.inflight, requests: Seq::<TileKey>::empty() };
    proof {
        if hidpi && state.map.zoom < 32 {
            map_laws::lemma_all_have_children(
                state.map.zoom,
                x0 as int,
                y0 as int,
                x1 as int,
                y1 as int,
            );
        }
    }
    let mut out: Vec<DrawnTile> = Vec::new();
    let mut requests: Vec<TileKey> = Vec::new();
    let mut i: usize = 0;
    while i < slots.len()
        invariant
            i <= slots@.len(),
            state.wf(),
            hidpi == is_hidpi(scale_factor),
            provider == old(state).active_provider,
            tiles == old(state)@.pixbufs.dom(),
            hidpi ==> forall|k: int|
                0 <= k < slots@.len() ==> has_children((#[trigger] slots@[k]).tile),
            out@.len() == i,
            forall|k: int|
                0 <= k < i ==> #[trigger] out@[k] == drawn(tiles, provider, slots@[k], hidpi),
            state@ == (AppModel::<T> {
                inflight: after_slots(tiles, provider, slots@, i as int, start, hidpi).inflight,
                ..old(state)@
            }),
            requests@ == after_slots(tiles, provider, slots@, i as int, start, hidpi).requests,
        decreases slots@.len() - i,
    {
        let key = TileKey { provider, tile: slots[i].tile };
        let source = append_tile(state, &mut requests, key, hidpi);
        out.push(DrawnTile { tx: slots[i].tx, ty: slots[i].ty, key, source });
        i += 1;
    }
    let pending: usize = state.inflight.len();
    proof {
        assert(out@ =~= slots@.map_values(
            |s: Placement| drawn(tiles, provider, s, is_hidpi(scale_factor)),
        ));
    }
    Frame { tiles: out, requests, pending }
}

/// The text of the download-queue indicator while tiles are pending, or
/// `None` when it is to be hidden.
pub fn queue_label(pending: usize) -> (r: Option<String>)
    ensures
        pending == 0 ==> r is None,
        pending > 0 ==> r is Some && r->0@ == "\u{2b07} "@ + text::decimal(pending as nat),
{
    if pending == 0 {
        None
    } else {
        let mut label = "\u{2b07} ".to_owned();
        label.append(text::decimal_string(pending as u64).as_str());
        Some(label)
    }
}

/// What the indicators over the map show: the zoom level and the number of
/// pending tiles.
#[derive(Debug, Clone, Copy, PartialEq, Eq, Structural)]
pub struct Hud {
    pub zoom: u8,
    pub pending: usize,
}

impl Default for Hud {
    /// Values that no view has, so that the first picture is shown.
    fn default() -> (r: Self)
        ensures
            r == (Hud { zoom: u8::MAX, pending: usize::MAX }),
    {
        Hud { zoom: u8::MAX, pending: usize::MAX }
    }
}

impl Hud {
    /// Takes over what was just drawn. Returns whether the indicators have to
    /// be refreshed.
    pub fn update(&mut self, zoom: u8, pending: usize) -> (r: bool)
        ensures
            *final(self) == (Hud { zoom, pending }),
            r == (*old(self) != *final(self)),
    {
        let changed = self.zoom != zoom || self.pending != pending;
        self.zoom = zoom;
        self.pending = pending;
        changed
    }

    /// The zoom indicator.
    pub fn zoom_label(&self) -> (r: String)
        ensures
            r@ == text::decimal(self.zoom as nat),
    {
        text::decimal_string(self.zoom as u64)
    }
}

} // verus!
