//! What holds of every picture of the map.

use crate::downloader::TileKey;
use crate::geo;
use crate::tile::TileId;
use crate::ui::map_view;
#[allow(unused_imports)]
use crate::ui::map_view::{Pending, Placement, TileSource};
#[allow(unused_imports)]
use vstd::arithmetic::power2::*;
use vstd::prelude::*;

verus! {

/// Whether `p` is what is under way after `start` with nothing but new tiles
/// added, each of them once, and none that is there already.
pub open spec fn only_new(start: Set<TileKey>, tiles: Set<TileKey>, p: Pending) -> bool {
    &&& p.requests.no_duplicates()
    &&& forall|i: int|
        0 <= i < p.requests.len() ==> !start.contains(#[trigger] p.requests[i]) && !tiles.contains(
            p.requests[i],
        )
    &&& p.inflight == start.union(p.requests.to_set())
}

/// One more request that is not under way keeps the requests new.
proof fn lemma_want_new(start: Set<TileKey>, tiles: Set<TileKey>, p: Pending, key: TileKey)
    requires
        only_new(start, tiles, p),
        !tiles.contains(key),
    ensures
        only_new(start, tiles, map_view::want(p, key)),
{
    let q = map_view::want(p, key);
    if !p.inflight.contains(key) {
        assert forall|i: int, j: int| 0 <= i < q.requests.len() && 0 <= j < q.requests.len() && i
            != j implies q.requests[i] != q.requests[j] by {
            if i < p.requests.len() && j == p.requests.len() {
                assert(p.requests.to_set().contains(p.requests[i]));
            }
            if j < p.requests.len() && i == p.requests.len() {
                assert(p.requests.to_set().contains(p.requests[j]));
            }
        }
        assert(q.inflight =~= start.union(q.requests.to_set())) by {
            assert forall|k: TileKey| q.inflight.contains(k) implies start.union(
                q.requests.to_set(),
            ).contains(k) by {
                if k == key {
                    assert(q.requests[p.requests.len() as int] == k);
                } else if p.requests.to_set().contains(k) {
                    let i = choose|i: int| 0 <= i < p.requests.len() && p.requests[i] == k;
                    assert(q.requests[i] == k);
                }
            }
            assert forall|k: TileKey| start.union(
                q.requests.to_set(),
            ).contains(k) implies q.inflight.contains(k) by {
                if q.requests.to_set().contains(k) {
                    let i = choose|i: int| 0 <= i < q.requests.len() && q.requests[i] == k;
                    if i < p.requests.len() {
                        assert(p.requests[i] == k);
                        assert(p.requests.to_set().contains(k));
                    }
                }
            }
        }
    }
}

/// Looking at the children of a tile keeps the requests new.
proof fn lemma_children_new(
    start: Set<TileKey>,
    tiles: Set<TileKey>,
    p: Pending,
    key: TileKey,
    n: int,
)
    requires
        only_new(start, tiles, p),
    ensures
        only_new(start, tiles, map_view::want_children(p, tiles, key, n)),
    decreases n,
{
    if n > 0 {
        lemma_children_new(start, tiles, p, key, n - 1);
        let q = map_view::want_children(p, tiles, key, n - 1);
        if !tiles.contains(map_view::child(key, n - 1)) {
            lemma_want_new(start, tiles, q, map_view::child(key, n - 1));
        }
    }
}

/// A picture requests only tiles that are neither there nor under way, each
/// of them once, and afterwards exactly those are under way as well.
pub proof fn law_requests_are_new(
    tiles: Set<TileKey>,
    provider: usize,
    slots: Seq<Placement>,
    n: int,
    inflight: Set<TileKey>,
    hidpi: bool,
)
    requires
        0 <= n <= slots.len(),
    ensures
        only_new(
            inflight,
            tiles,
            map_view::after_slots(
                tiles,
                provider,
                slots,
                n,
                Pending { inflight, requests: Seq::empty() },
                hidpi,
            ),
        ),
    decreases n,
{
    let start = Pending { inflight, requests: Seq::empty() };
    if n == 0 {
        assert(inflight =~= inflight.union(start.requests.to_set()));
    } else {
        law_requests_are_new(tiles, provider, slots, n - 1, inflight, hidpi);
        let p = map_view::after_slots(tiles, provider, slots, n - 1, start, hidpi);
        let key = TileKey { provider, tile: slots[n - 1].tile };
        lemma_children_new(inflight, tiles, p, key, 4);
        if !tiles.contains(key) {
            lemma_want_new(
                inflight,
                tiles,
                map_view::after_children(tiles, p, key, hidpi),
                key,
            );
        }
    }
}

/// Looking at the children of a tile ends no request.
proof fn lemma_children_grow(p: Pending, tiles: Set<TileKey>, key: TileKey, n: int)
    ensures
        p.inflight.subset_of(map_view::want_children(p, tiles, key, n).inflight),
    decreases n,
{
    if n > 0 {
        lemma_children_grow(p, tiles, key, n - 1);
    }
}

/// Looking at the children again asks for nothing while what it asked for is
/// under way.
proof fn lemma_children_settled(
    p: Pending,
    later: Pending,
    tiles: Set<TileKey>,
    key: TileKey,
    n: int,
)
    requires
        map_view::want_children(p, tiles, key, n).inflight.subset_of(later.inflight),
    ensures
        map_view::want_children(later, tiles, key, n) == later,
    decreases n,
{
    if n > 0 {
        let q = map_view::want_children(p, tiles, key, n - 1);
        let full = map_view::want_children(p, tiles, key, n);
        assert(q.inflight.subset_of(later.inflight)) by {
            assert forall|k: TileKey| q.inflight.contains(k) implies later.inflight.contains(k) by {
                assert(full.inflight.contains(k));
            }
        }
        lemma_children_settled(p, later, tiles, key, n - 1);
        if !tiles.contains(map_view::child(key, n - 1)) {
            assert(full.inflight.contains(map_view::child(key, n - 1)));
        }
    }
}

/// Drawing a tile ends no request, and drawing it again asks for nothing
/// while what it asked for is under way.
proof fn lemma_tile_settled(
    p: Pending,
    later: Pending,
    tiles: Set<TileKey>,
    key: TileKey,
    hidpi: bool,
)
    ensures
        p.inflight.subset_of(map_view::after_tile(tiles, p, key, hidpi).inflight),
        map_view::after_tile(tiles, p, key, hidpi).inflight.subset_of(later.inflight)
            ==> map_view::after_tile(tiles, later, key, hidpi) == later,
{
    let q = map_view::after_children(tiles, p, key, hidpi);
    let full = map_view::after_tile(tiles, p, key, hidpi);
    lemma_children_grow(p, tiles, key, 4);
    if full.inflight.subset_of(later.inflight) {
        assert(q.inflight.subset_of(later.inflight)) by {
            assert forall|k: TileKey| q.inflight.contains(k) implies later.inflight.contains(k) by {
                assert(full.inflight.contains(k));
            }
        }
        if map_view::composes(key, hidpi) {
            lemma_children_settled(p, later, tiles, key, 4);
        }
        if !(map_view::composes(key, hidpi) && map_view::all_children(tiles, key)
            || tiles.contains(key)) {
            assert(full.inflight.contains(key));
        }
    }
}

/// Slots drawn again ask for nothing while what they asked for is under way.
proof fn lemma_slots_settled(
    tiles: Set<TileKey>,
    provider: usize,
    slots: Seq<Placement>,
    n: int,
    p: Pending,
    later: Pending,
    hidpi: bool,
)
    requires
        0 <= n <= slots.len(),
        map_view::after_slots(tiles, provider, slots, n, p, hidpi).inflight.subset_of(
            later.inflight,
        ),
    ensures
        map_view::after_slots(tiles, provider, slots, n, later, hidpi) == later,
    decreases n,
{
    if n > 0 {
        let q = map_view::after_slots(tiles, provider, slots, n - 1, p, hidpi);
        let key = TileKey { provider, tile: slots[n - 1].tile };
        lemma_tile_settled(q, later, tiles, key, hidpi);
        assert(q.inflight.subset_of(later.inflight)) by {
            assert forall|k: TileKey| q.inflight.contains(k) implies later.inflight.contains(k) by {
                assert(map_view::after_tile(tiles, q, key, hidpi).inflight.contains(k));
            }
        }
        lemma_slots_settled(tiles, provider, slots, n - 1, p, later, hidpi);
    }
}

/// Drawing the same view again before any tile has arrived requests nothing
/// and changes nothing.
pub proof fn law_redraw_requests_nothing(
    tiles: Set<TileKey>,
    provider: usize,
    slots: Seq<Placement>,
    inflight: Set<TileKey>,
    hidpi: bool,
)
    ensures
        ({
            let n = slots.len() as int;
            let once = map_view::after_slots(
                tiles,
                provider,
                slots,
                n,
                Pending { inflight, requests: Seq::empty() },
                hidpi,
            );
            let again = Pending { inflight: once.inflight, requests: Seq::empty() };
            map_view::after_slots(tiles, provider, slots, n, again, hidpi) == again
        }),
{
    let n = slots.len() as int;
    let start = Pending { inflight, requests: Seq::empty() };
    let once = map_view::after_slots(tiles, provider, slots, n, start, hidpi);
    let again = Pending { inflight: once.inflight, requests: Seq::empty() };
    lemma_slots_settled(tiles, provider, slots, n, start, again, hidpi);
}

/// Each child that was looked at is there or under way.
proof fn lemma_children_wanted(p: Pending, tiles: Set<TileKey>, key: TileKey, n: int, c: int)
    requires
        0 <= c < n,
    ensures
        tiles.contains(map_view::child(key, c)) || map_view::want_children(
            p,
            tiles,
            key,
            n,
        ).inflight.contains(map_view::child(key, c)),
    decreases n,
{
    if c < n - 1 {
        lemma_children_wanted(p, tiles, key, n - 1, c);
    }
}

/// Drawing more slots ends no request.
proof fn lemma_slots_grow(
    tiles: Set<TileKey>,
    provider: usize,
    slots: Seq<Placement>,
    m: int,
    n: int,
    p: Pending,
    hidpi: bool,
)
    requires
        0 <= m <= n <= slots.len(),
    ensures
        map_view::after_slots(tiles, provider, slots, m, p, hidpi).inflight.subset_of(
            map_view::after_slots(tiles, provider, slots, n, p, hidpi).inflight,
        ),
    decreases n - m,
{
    if m < n {
        lemma_slots_grow(tiles, provider, slots, m, n - 1, p, hidpi);
        let q = map_view::after_slots(tiles, provider, slots, n - 1, p, hidpi);
        let key = TileKey { provider, tile: slots[n - 1].tile };
        lemma_tile_settled(q, q, tiles, key, hidpi);
    }
}

/// Once a view has been drawn, whatever it lacks is under way: each tile that
/// something stands in for, and, on a high-density output, each child that
/// is not there.
pub proof fn law_missing_tiles_are_under_way(
    tiles: Set<TileKey>,
    provider: usize,
    slots: Seq<Placement>,
    inflight: Set<TileKey>,
    hidpi: bool,
    i: int,
    c: int,
)
    requires
        0 <= i < slots.len(),
        0 <= c < 4,
    ensures
        ({
            let after = map_view::after_slots(
                tiles,
                provider,
                slots,
                slots.len() as int,
                Pending { inflight, requests: Seq::empty() },
                hidpi,
            ).inflight;
            let key = TileKey { provider, tile: slots[i].tile };
            let source = map_view::tile_source(tiles, key, hidpi);
            &&& source is Own || source is Composite || after.contains(key)
            &&& map_view::composes(key, hidpi) ==> tiles.contains(map_view::child(key, c))
                || after.contains(map_view::child(key, c))
        }),
{
    let start = Pending { inflight, requests: Seq::empty() };
    let n = slots.len() as int;
    let key = TileKey { provider, tile: slots[i].tile };
    let p = map_view::after_slots(tiles, provider, slots, i, start, hidpi);
    let q = map_view::after_slots(tiles, provider, slots, i + 1, start, hidpi);
    lemma_slots_grow(tiles, provider, slots, i + 1, n, start, hidpi);
    lemma_children_wanted(p, tiles, key, 4, c);
    let children = map_view::after_children(tiles, p, key, hidpi);
    assert(children.inflight.subset_of(q.inflight));
    assert(!(map_view::composes(key, hidpi) && map_view::all_children(tiles, key)
        || tiles.contains(key)) ==> q.inflight.contains(key));
}

/// Every visible tile lies on the grid of its zoom level.
pub proof fn law_visible_tiles_lie_on_the_map(
    z: u8,
    x0: int,
    y0: int,
    x1: int,
    y1: int,
    i: int,
)
    requires
        z <= 32,
        0 <= i < map_view::visible(z, x0, y0, x1, y1).len(),
    ensures
        map_view::visible(z, x0, y0, x1, y1)[i].tile.z == z,
        map_view::visible(z, x0, y0, x1, y1)[i].tile.x < pow2(z as nat),
        map_view::visible(z, x0, y0, x1, y1)[i].tile.y < pow2(z as nat),
{
    lemma_columns_on_map(
        z,
        x0,
        x1,
        map_view::first_row(y0),
        map_view::last_row(z, y1),
        i,
    );
}

/// Below zoom level 32 the children of every visible tile can be told.
pub proof fn lemma_all_have_children(z: u8, x0: int, y0: int, x1: int, y1: int)
    requires
        z < 32,
    ensures
        forall|i: int|
            0 <= i < map_view::visible(z, x0, y0, x1, y1).len() ==> map_view::has_children(
                (#[trigger] map_view::visible(z, x0, y0, x1, y1)[i]).tile,
            ),
{
    assert forall|i: int|
        0 <= i < map_view::visible(z, x0, y0, x1, y1).len() implies map_view::has_children(
        (#[trigger] map_view::visible(z, x0, y0, x1, y1)[i]).tile,
    ) by {
        law_visible_tiles_lie_on_the_map(z, x0, y0, x1, y1, i);
        lemma2_to64();
        if z < 31 {
            lemma_pow2_strictly_increases(z as nat, 31);
        }
    }
}

/// The tiles of a block of rows that lie on the map.
proof fn lemma_columns_on_map(z: u8, x0: int, x1: int, lo: int, hi: int, i: int)
    requires
        z <= 32,
        0 <= lo,
        hi < map_view::grid_rows(z),
        0 <= i < map_view::columns(z, x0, x1, lo, hi).len(),
    ensures
        map_view::columns(z, x0, x1, lo, hi)[i].tile.z == z,
        map_view::columns(z, x0, x1, lo, hi)[i].tile.x < pow2(z as nat),
        map_view::columns(z, x0, x1, lo, hi)[i].tile.y < pow2(z as nat),
    decreases x1 - x0 + 1,
{
    let left = map_view::columns(z, x0, x1 - 1, lo, hi);
    if i < left.len() {
        lemma_columns_on_map(z, x0, x1 - 1, lo, hi, i);
    } else {
        let rows = map_view::grid_rows(z);
        let ty = lo + (i - left.len());
        lemma_pow2_pos(z as nat);
        lemma2_to64();
        if z < 32 {
            lemma_pow2_strictly_increases(z as nat, 32);
        }
        assert(map_view::columns(z, x0, x1, lo, hi)[i] == map_view::placement(z, x1, ty));
        assert(0 <= x1 % rows < rows) by (nonlinear_arith)
            requires
                rows > 0,
        ;
        assert(0 <= ty < rows);
        vstd::arithmetic::div_mod::lemma_small_mod((x1 % rows) as nat, 0x1_0000_0000);
        vstd::arithmetic::div_mod::lemma_small_mod(ty as nat, 0x1_0000_0000);
    }
}

/// Every place of the view that is on the map is drawn.
pub proof fn law_every_visible_place_is_drawn(
    z: u8,
    x0: int,
    y0: int,
    x1: int,
    y1: int,
    tx: int,
    ty: int,
)
    requires
        x0 <= tx <= x1,
        y0 <= ty <= y1,
        0 <= ty < map_view::grid_rows(z),
    ensures
        map_view::visible(z, x0, y0, x1, y1).contains(map_view::placement(z, tx, ty)),
{
    lemma_columns_contain(
        z,
        x0,
        x1,
        map_view::first_row(y0),
        map_view::last_row(z, y1),
        tx,
        ty,
    );
}

/// A block of columns holds every place in it.
proof fn lemma_columns_contain(z: u8, x0: int, x1: int, lo: int, hi: int, tx: int, ty: int)
    requires
        x0 <= tx <= x1,
        lo <= ty <= hi,
    ensures
        map_view::columns(z, x0, x1, lo, hi).contains(map_view::placement(z, tx, ty)),
    decreases x1 - x0 + 1,
{
    let left = map_view::columns(z, x0, x1 - 1, lo, hi);
    let whole = map_view::columns(z, x0, x1, lo, hi);
    let p = map_view::placement(z, tx, ty);
    if tx == x1 {
        assert(whole[left.len() + (ty - lo)] == p);
    } else {
        lemma_columns_contain(z, x0, x1 - 1, lo, hi, tx, ty);
        let i = choose|i: int| 0 <= i < left.len() && left[i] == p;
        assert(whole[i] == p);
    }
}

/// A view has one slot for each place in it.
pub proof fn law_view_size(z: u8, x0: int, y0: int, x1: int, y1: int)
    requires
        x0 <= x1,
        map_view::first_row(y0) <= map_view::last_row(z, y1),
    ensures
        map_view::visible(z, x0, y0, x1, y1).len() == (x1 - x0 + 1) * (map_view::last_row(z, y1)
            - map_view::first_row(y0) + 1),
{
    lemma_columns_len(z, x0, x1, map_view::first_row(y0), map_view::last_row(z, y1));
}

/// The number of places in a block of columns.
proof fn lemma_columns_len(z: u8, x0: int, x1: int, lo: int, hi: int)
    requires
        x0 - 1 <= x1,
        lo <= hi,
    ensures
        map_view::columns(z, x0, x1, lo, hi).len() == (x1 - x0 + 1) * (hi - lo + 1),
    decreases x1 - x0 + 1,
{
    let rows = hi - lo + 1;
    let wide = x1 - x0 + 1;
    if x1 < x0 {
        assert(wide * rows == 0) by (nonlinear_arith)
            requires
                wide == 0,
        ;
    } else {
        lemma_columns_len(z, x0, x1 - 1, lo, hi);
        assert(wide * rows == (wide - 1) * rows + rows) by (nonlinear_arith);
    }
}

/// Each of a tile's four children has the tile as the one that covers it.
pub proof fn law_children_are_covered(key: TileKey, i: int)
    requires
        0 <= i < 4,
        key.tile.z < 255,
        map_view::has_children(key.tile),
    ensures
        map_view::ancestor(map_view::child(key, i), 1) == key,
{
    lemma2_to64();
    let c = map_view::child(key, i);
    assert(c.tile.x == key.tile.x * 2 + i % 2);
    assert(c.tile.y == key.tile.y * 2 + i / 2);
    assert((c.tile.x as int) / 2 == key.tile.x);
    assert((c.tile.y as int) / 2 == key.tile.y);
}

/// A tile's four children are four different tiles.
pub proof fn law_children_are_distinct(key: TileKey, i: int, j: int)
    requires
        0 <= i < 4,
        0 <= j < 4,
        i != j,
        map_view::has_children(key.tile),
    ensures
        map_view::child(key, i) != map_view::child(key, j),
{
    assert(map_view::child(key, i).tile.x == key.tile.x * 2 + i % 2);
    assert(map_view::child(key, j).tile.x == key.tile.x * 2 + j % 2);
    assert(map_view::child(key, i).tile.y == key.tile.y * 2 + i / 2);
    assert(map_view::child(key, j).tile.y == key.tile.y * 2 + j / 2);
}

/// A stand-in is a tile that is there, at most four levels out, and the part
/// of it that is shown lies within it.
pub proof fn law_stand_in_is_there(tiles: Set<TileKey>, key: TileKey, n: int)
    requires
        1 <= n,
    ensures
        map_view::nearest_ancestor(tiles, key, n) matches TileSource::Ancestor {
            key: found,
            scale,
            sub_x,
            sub_y,
        } ==> {
            &&& tiles.contains(found)
            &&& found.provider == key.provider
            &&& exists|m: int|
                n <= m <= map_view::MAX_ANCESTOR_LEVELS && found == #[trigger] map_view::ancestor(
                    key,
                    m,
                ) && scale == pow2(m as nat)
            &&& scale * (geo::TILE_SIZE as int / scale as int) == geo::TILE_SIZE
            &&& sub_x + geo::TILE_SIZE as int / scale as int <= geo::TILE_SIZE
            &&& sub_y + geo::TILE_SIZE as int / scale as int <= geo::TILE_SIZE
        },
    decreases map_view::MAX_ANCESTOR_LEVELS + 1 - n,
{
    if n <= map_view::MAX_ANCESTOR_LEVELS && key.tile.z >= n {
        if tiles.contains(map_view::ancestor(key, n)) {
            lemma2_to64();
            let scale = pow2(n as nat) as int;
            assert(scale == 2 || scale == 4 || scale == 8 || scale == 16);
            let part = geo::TILE_SIZE as int / scale;
            assert(scale * part == 256) by (nonlinear_arith)
                requires
                    part == 256int / scale,
                    scale == 2 || scale == 4 || scale == 8 || scale == 16,
            ;
            let rx = key.tile.x as int % scale;
            let ry = key.tile.y as int % scale;
            assert(rx * part + part <= scale * part) by (nonlinear_arith)
                requires
                    0 <= rx < scale,
                    part >= 0,
            ;
            assert(ry * part + part <= scale * part) by (nonlinear_arith)
                requires
                    0 <= ry < scale,
                    part >= 0,
            ;
            assert(0 <= rx * part) by (nonlinear_arith)
                requires
                    0 <= rx,
                    part >= 0,
            ;
            assert(0 <= ry * part) by (nonlinear_arith)
                requires
                    0 <= ry,
                    part >= 0,
            ;
        } else {
            law_stand_in_is_there(tiles, key, n + 1);
        }
    }
}

/// Where a place of the view stands in the row of slots: the columns follow
/// each other from west to east, the places of a column from north to south.
/// Each slot names the column and row of its place.
pub proof fn law_slots_go_through_the_view(
    z: u8,
    x0: int,
    y0: int,
    x1: int,
    y1: int,
    tx: int,
    ty: int,
    north: int,
    south: int,
)
    requires
        z < 63,
        i64::MIN <= x0 <= tx <= x1 <= i64::MAX,
        i64::MIN <= y0 <= ty <= y1 <= i64::MAX,
        0 <= ty < pow2(z as nat),
        north == (if y0 < 0 {
            0
        } else {
            y0
        }),
        south == (if y1 < pow2(z as nat) {
            y1
        } else {
            pow2(z as nat) - 1
        }),
    ensures
        ({
            let slots = map_view::visible(z, x0, y0, x1, y1);
            let at = (tx - x0) * (south - north + 1) + (ty - north);
            &&& slots.len() == (x1 - x0 + 1) * (south - north + 1)
            &&& 0 <= at < slots.len()
            &&& slots[at].tx == tx
            &&& slots[at].ty == ty
            &&& slots[at].tile.z == z
        }),
{
    assert(map_view::first_row(y0) == north);
    assert(map_view::last_row(z, y1) == south);
    lemma_columns_len(z, x0, x1, north, south);
    lemma_columns_at(z, x0, x1, north, south, tx, ty);
}

/// Where a place stands in a block of columns.
proof fn lemma_columns_at(z: u8, x0: int, x1: int, lo: int, hi: int, tx: int, ty: int)
    requires
        x0 <= tx <= x1,
        lo <= ty <= hi,
    ensures
        0 <= (tx - x0) * (hi - lo + 1) + (ty - lo) < map_view::columns(z, x0, x1, lo, hi).len(),
        map_view::columns(z, x0, x1, lo, hi)[(tx - x0) * (hi - lo + 1) + (ty - lo)]
            == map_view::placement(z, tx, ty),
    decreases x1 - x0 + 1,
{
    let rows = hi - lo + 1;
    let left = map_view::columns(z, x0, x1 - 1, lo, hi);
    let at = (tx - x0) * rows + (ty - lo);
    lemma_columns_len(z, x0, x1 - 1, lo, hi);
    assert((x1 - 1 - x0 + 1) * rows == (x1 - x0) * rows);
    if tx == x1 {
        assert(0 <= (tx - x0) * rows) by (nonlinear_arith)
            requires
                tx >= x0,
                rows > 0,
        ;
        assert(at == left.len() + (ty - lo));
    } else {
        lemma_columns_at(z, x0, x1 - 1, lo, hi, tx, ty);
    }
}

/// A slot shows the tile of its place: its row is the tile's row, and its
/// column is the tile's column, but for whole turns around the world. A place
/// on the map itself, between its western and its eastern edge, shows the
/// tile of that very column.
pub proof fn law_slot_shows_its_place(z: u8, x0: int, y0: int, x1: int, y1: int, i: int)
    requires
        z <= 32,
        i64::MIN <= x0,
        x1 <= i64::MAX,
        i64::MIN <= y0,
        y1 <= i64::MAX,
        0 <= i < map_view::visible(z, x0, y0, x1, y1).len(),
    ensures
        ({
            let p = map_view::visible(z, x0, y0, x1, y1)[i];
            let side = pow2(z as nat) as int;
            &&& x0 <= p.tx <= x1
            &&& y0 <= p.ty <= y1
            &&& p.tile.z == z
            &&& 0 <= p.tile.x < side
            &&& (p.tx - p.tile.x) % side == 0
            &&& 0 <= p.ty < side
            &&& p.tile.y == p.ty
            &&& 0 <= p.tx < side ==> p.tile.x == p.tx
        }),
{
    lemma_slot(z, x0, x1, map_view::first_row(y0), map_view::last_row(z, y1), i);
}

/// What a slot of a block of columns on the map shows.
proof fn lemma_slot(z: u8, x0: int, x1: int, lo: int, hi: int, i: int)
    requires
        z <= 32,
        i64::MIN <= x0,
        x1 <= i64::MAX,
        0 <= lo,
        hi < pow2(z as nat),
        0 <= i < map_view::columns(z, x0, x1, lo, hi).len(),
    ensures
        ({
            let p = map_view::columns(z, x0, x1, lo, hi)[i];
            let side = pow2(z as nat) as int;
            &&& x0 <= p.tx <= x1
            &&& lo <= p.ty <= hi
            &&& p.tile.z == z
            &&& 0 <= p.tile.x < side
            &&& (p.tx - p.tile.x) % side == 0
            &&& p.tile.y == p.ty
            &&& 0 <= p.tx < side ==> p.tile.x == p.tx
        }),
    decreases x1 - x0 + 1,
{
    let left = map_view::columns(z, x0, x1 - 1, lo, hi);
    if i < left.len() {
        lemma_slot(z, x0, x1 - 1, lo, hi, i);
    } else {
        let side = pow2(z as nat) as int;
        let ty = lo + (i - left.len());
        let p = map_view::columns(z, x0, x1, lo, hi)[i];
        lemma_pow2_pos(z as nat);
        lemma2_to64();
        if z < 32 {
            lemma_pow2_strictly_increases(z as nat, 32);
        }
        assert(p == map_view::placement(z, x1, ty));
        assert(0 <= ty <= hi);
        vstd::arithmetic::div_mod::lemma_mod_bound(x1, side);
        vstd::arithmetic::div_mod::lemma_small_mod((x1 % side) as nat, 0x1_0000_0000);
        vstd::arithmetic::div_mod::lemma_small_mod(ty as nat, 0x1_0000_0000);
        assert(p.tile.x == x1 % side);
        vstd::arithmetic::div_mod::lemma_fundamental_div_mod(x1, side);
        vstd::arithmetic::div_mod::lemma_mod_multiples_basic(x1 / side, side);
        assert(x1 - x1 % side == (x1 / side) * side) by (nonlinear_arith)
            requires
                x1 == side * (x1 / side) + x1 % side,
        ;
        if 0 <= x1 < side {
            vstd::arithmetic::div_mod::lemma_small_mod(x1 as nat, side as nat);
        }
    }
}

/// Whether a tile covers another that lies `n` zoom levels further in: it is
/// of the same provider, and its column and row, each as wide as `2^n` of the
/// other's, hold the other's column and row.
pub open spec fn covers(outer: TileKey, inner: TileKey, n: int) -> bool {
    let wide = pow2(n as nat) as int;
    &&& outer.provider == inner.provider
    &&& outer.tile.z + n == inner.tile.z
    &&& outer.tile.x * wide <= inner.tile.x < (outer.tile.x + 1) * wide
    &&& outer.tile.y * wide <= inner.tile.y < (outer.tile.y + 1) * wide
}

/// Each tile is covered by one tile at each level, which is the one that is
/// looked for.
proof fn lemma_covers_ancestor(outer: TileKey, key: TileKey, n: int)
    requires
        0 <= n <= key.tile.z,
    ensures
        covers(outer, key, n) <==> outer == map_view::ancestor(key, n),
{
    let wide = pow2(n as nat) as int;
    lemma_pow2_pos(n as nat);
    let x = key.tile.x as int;
    let y = key.tile.y as int;
    vstd::arithmetic::div_mod::lemma_fundamental_div_mod(x, wide);
    vstd::arithmetic::div_mod::lemma_fundamental_div_mod(y, wide);
    vstd::arithmetic::div_mod::lemma_mod_bound(x, wide);
    vstd::arithmetic::div_mod::lemma_mod_bound(y, wide);
    vstd::arithmetic::div_mod::lemma_div_pos_is_pos(x, wide);
    vstd::arithmetic::div_mod::lemma_div_pos_is_pos(y, wide);
    vstd::arithmetic::div_mod::lemma_div_is_ordered_by_denominator(x, 1, wide);
    vstd::arithmetic::div_mod::lemma_div_is_ordered_by_denominator(y, 1, wide);
    let found = map_view::ancestor(key, n);
    assert(found.tile.x == x / wide);
    assert(found.tile.y == y / wide);
    lemma_quotient(x, wide, x / wide, x % wide, outer.tile.x as int);
    lemma_quotient(y, wide, y / wide, y % wide, outer.tile.y as int);
}

/// A number lies in the part of the given width whose number is the quotient,
/// and in no other.
proof fn lemma_quotient(x: int, wide: int, q: int, r: int, k: int)
    by (nonlinear_arith)
    requires
        wide > 0,
        x == wide * q + r,
        0 <= r < wide,
    ensures
        k * wide <= x < (k + 1) * wide <==> k == q,
{
}

/// Whether a source is the tile that covers a missing one at a level, which
/// is there while no nearer one is. The part that is shown is the missing
/// tile's own: it begins in the magnified stand-in where the tile begins on
/// the map.
pub open spec fn is_stand_in(
    tiles: Set<TileKey>,
    key: TileKey,
    source: TileSource,
    level: int,
) -> bool {
    &&& source matches TileSource::Ancestor { key: found, scale, sub_x, sub_y }
    &&& covers(found, key, level)
    &&& tiles.contains(found)
    &&& scale == pow2(level as nat)
    &&& (found.tile.x * 256 + sub_x) * scale == key.tile.x * 256
    &&& (found.tile.y * 256 + sub_y) * scale == key.tile.y * 256
    &&& none_covers(tiles, key, level - 1)
}

/// Whether none of the tiles that cover a tile is there, up to a level.
pub open spec fn none_covers(tiles: Set<TileKey>, key: TileKey, levels: int) -> bool {
    forall|outer: TileKey, n: int| #[trigger]
        covers(outer, key, n) && 1 <= n <= levels ==> !tiles.contains(outer)
}

/// A missing tile is stood in for if one of the tiles that cover it, up to
/// four zoom levels further out, is there, and by the nearest one. Only where
/// none of them is there does a slot stay empty.
pub proof fn law_nearest_covering_tile_stands_in(tiles: Set<TileKey>, key: TileKey)
    ensures
        ({
            let source = map_view::nearest_ancestor(tiles, key, 1);
            &&& source is Placeholder <==> none_covers(tiles, key, 4)
            &&& source !is Placeholder ==> exists|m: int|
                1 <= m <= 4 && #[trigger] is_stand_in(tiles, key, source, m)
        }),
{
    lemma_nearest(tiles, key, 1);
}

/// What is found from a level on, where nothing was found before.
proof fn lemma_nearest(tiles: Set<TileKey>, key: TileKey, from: int)
    requires
        1 <= from <= 5,
        none_covers(tiles, key, from - 1),
    ensures
        ({
            let source = map_view::nearest_ancestor(tiles, key, from);
            &&& source is Placeholder <==> none_covers(tiles, key, 4)
            &&& source !is Placeholder ==> exists|m: int|
                1 <= m <= 4 && #[trigger] is_stand_in(tiles, key, source, m)
        }),
    decreases 5 - from,
{
    if from <= 4 && from <= key.tile.z {
        let candidate = map_view::ancestor(key, from);
        lemma_covers_ancestor(candidate, key, from);
        if tiles.contains(candidate) {
            lemma2_to64();
            let scale = pow2(from as nat) as int;
            lemma_part(key.tile.x as int, scale);
            lemma_part(key.tile.y as int, scale);
            assert(is_stand_in(
                tiles,
                key,
                map_view::nearest_ancestor(tiles, key, from),
                from,
            ));
        } else {
            assert forall|outer: TileKey, n: int| #[trigger]
                covers(outer, key, n) && 1 <= n <= from implies !tiles.contains(outer) by {
                if n == from {
                    lemma_covers_ancestor(outer, key, from);
                }
            }
            lemma_nearest(tiles, key, from + 1);
        }
    }
}

/// Where a tile begins in the tile that covers it, magnified by `scale`.
proof fn lemma_part(x: int, scale: int)
    requires
        0 <= x <= u32::MAX,
        scale == 2 || scale == 4 || scale == 8 || scale == 16,
    ensures
        (x % scale) * (256int / scale) <= u32::MAX,
        0 <= (x % scale) * (256int / scale),
        ((x / scale) * 256 + (x % scale) * (256int / scale)) * scale == x * 256,
{
    vstd::arithmetic::div_mod::lemma_fundamental_div_mod(x, scale);
    if scale == 2 {
        assert(256int / 2 == 128);
    } else if scale == 4 {
        assert(256int / 4 == 64);
    } else if scale == 8 {
        assert(256int / 8 == 32);
    } else {
        assert(256int / 16 == 16);
    }
}

/// What is drawn for a tile: on a high-density output its four children, the
/// tiles that it covers one level further in, if they are all there; else the
/// tile itself if it is there; else a stand-in or nothing.
pub proof fn law_best_picture_is_drawn(tiles: Set<TileKey>, key: TileKey, hidpi: bool)
    requires
        key.tile.z < 255 ==> map_view::has_children(key.tile),
    ensures
        ({
            let source = map_view::tile_source(tiles, key, hidpi);
            let children = hidpi && key.tile.z < 255 && forall|inner: TileKey| #[trigger]
                covers(key, inner, 1) ==> tiles.contains(inner);
            &&& source is Composite <==> children
            &&& source is Own <==> !children && tiles.contains(key)
            &&& !children && !tiles.contains(key) ==> source == map_view::nearest_ancestor(
                tiles,
                key,
                1,
            )
        }),
{
    lemma2_to64();
    if key.tile.z < 255 {
        assert forall|inner: TileKey| covers(key, inner, 1) implies (exists|i: int|
            0 <= i < 4 && inner == #[trigger] map_view::child(key, i)) by {
            assert(pow2(1) == 2);
            assert(2 * key.tile.x <= inner.tile.x < 2 * key.tile.x + 2);
            assert(2 * key.tile.y <= inner.tile.y < 2 * key.tile.y + 2);
            let i = (inner.tile.x - 2 * key.tile.x) + 2 * (inner.tile.y - 2 * key.tile.y);
            assert(inner == map_view::child(key, i));
        }
        assert forall|i: int| 0 <= i < 4 implies covers(
            key,
            #[trigger] map_view::child(key, i),
            1,
        ) by {}
    }
    law_nearest_covering_tile_stands_in(tiles, key);
}

/// The four children of a tile are the tiles that it covers one level further
/// in: north-west, north-east, south-west, south-east.
pub proof fn law_children_are_the_quarters(key: TileKey)
    requires
        key.tile.z < 255,
        map_view::has_children(key.tile),
    ensures
        forall|i: int| 0 <= i < 4 ==> covers(key, #[trigger] map_view::child(key, i), 1),
        map_view::child(key, 0).tile.x == 2 * key.tile.x,
        map_view::child(key, 0).tile.y == 2 * key.tile.y,
        map_view::child(key, 1).tile.x == 2 * key.tile.x + 1,
        map_view::child(key, 1).tile.y == 2 * key.tile.y,
        map_view::child(key, 2).tile.x == 2 * key.tile.x,
        map_view::child(key, 2).tile.y == 2 * key.tile.y + 1,
        map_view::child(key, 3).tile.x == 2 * key.tile.x + 1,
        map_view::child(key, 3).tile.y == 2 * key.tile.y + 1,
{
    lemma2_to64();
}

/// Whether a request is for a tile of the view or, on a high-density output,
/// for one of the children of such a tile.
pub open spec fn is_needed(
    provider: usize,
    slots: Seq<Placement>,
    hidpi: bool,
    request: TileKey,
) -> bool {
    exists|i: int|
        0 <= i < slots.len() && is_needed_at(provider, #[trigger] slots[i], hidpi, request)
}

/// Whether a request is for the tile of a slot or, on a high-density output,
/// for one of its children.
pub open spec fn is_needed_at(
    provider: usize,
    slot: Placement,
    hidpi: bool,
    request: TileKey,
) -> bool {
    let key = TileKey { provider, tile: slot.tile };
    ||| request == key
    ||| hidpi && key.tile.z < 255 && covers(key, request, 1)
}

/// Looking at the children of a tile asks for nothing but them.
proof fn lemma_children_asked(p: Pending, tiles: Set<TileKey>, key: TileKey, n: int, i: int)
    requires
        key.tile.z < 255,
        map_view::has_children(key.tile),
        0 <= n <= 4,
        0 <= i < map_view::want_children(p, tiles, key, n).requests.len(),
    ensures
        p.requests.len() <= map_view::want_children(p, tiles, key, n).requests.len(),
        i < p.requests.len() ==> map_view::want_children(p, tiles, key, n).requests[i]
            == p.requests[i],
        i >= p.requests.len() ==> covers(
            key,
            map_view::want_children(p, tiles, key, n).requests[i],
            1,
        ),
    decreases n,
{
    law_children_are_the_quarters(key);
    if n > 0 {
        let q = map_view::want_children(p, tiles, key, n - 1);
        if i < q.requests.len() {
            lemma_children_asked(p, tiles, key, n - 1, i);
        } else if q.requests.len() > 0 {
            lemma_children_asked(p, tiles, key, n - 1, 0);
        } else {
            lemma_children_grow_requests(p, tiles, key, n - 1);
        }
        lemma_children_grow_requests(p, tiles, key, n - 1);
        assert(covers(key, map_view::child(key, n - 1), 1));
    }
}

/// Looking at the children of a tile takes no request back.
proof fn lemma_children_grow_requests(p: Pending, tiles: Set<TileKey>, key: TileKey, n: int)
    ensures
        p.requests.len() <= map_view::want_children(p, tiles, key, n).requests.len(),
    decreases n,
{
    if n > 0 {
        lemma_children_grow_requests(p, tiles, key, n - 1);
    }
}

/// A picture requests nothing but what it needs: tiles of the view and, on a
/// high-density output, their children.
pub proof fn law_only_needed_tiles_are_requested(
    tiles: Set<TileKey>,
    provider: usize,
    slots: Seq<Placement>,
    n: int,
    inflight: Set<TileKey>,
    hidpi: bool,
    i: int,
)
    requires
        0 <= n <= slots.len(),
        forall|k: int|
            0 <= k < slots.len() ==> map_view::has_children((#[trigger] slots[k]).tile),
        0 <= i < map_view::after_slots(
            tiles,
            provider,
            slots,
            n,
            Pending { inflight, requests: Seq::empty() },
            hidpi,
        ).requests.len(),
    ensures
        is_needed(
            provider,
            slots,
            hidpi,
            map_view::after_slots(
                tiles,
                provider,
                slots,
                n,
                Pending { inflight, requests: Seq::empty() },
                hidpi,
            ).requests[i],
        ),
    decreases n,
{
    let start = Pending { inflight, requests: Seq::empty() };
    if n > 0 {
        let p = map_view::after_slots(tiles, provider, slots, n - 1, start, hidpi);
        let slot = slots[n - 1];
        let key = TileKey { provider, tile: slot.tile };
        let q = map_view::after_children(tiles, p, key, hidpi);
        let full = map_view::after_slots(tiles, provider, slots, n, start, hidpi);
        lemma_children_grow_requests(p, tiles, key, 4);
        if i < p.requests.len() {
            law_only_needed_tiles_are_requested(tiles, provider, slots, n - 1, inflight, hidpi, i);
            if map_view::composes(key, hidpi) {
                lemma_children_asked(p, tiles, key, 4, i);
            }
        } else {
            if i < q.requests.len() {
                lemma_children_asked(p, tiles, key, 4, i);
            }
            assert(is_needed_at(provider, slots[n - 1], hidpi, full.requests[i]));
        }
    }
}

/// A slot is drawn where its place is, from the tile that it shows.
pub proof fn law_slot_is_drawn_in_its_place(
    tiles: Set<TileKey>,
    provider: usize,
    p: Placement,
    hidpi: bool,
)
    ensures
        ({
            let d = map_view::drawn(tiles, provider, p, hidpi);
            &&& d.tx == p.tx
            &&& d.ty == p.ty
            &&& d.key.provider == provider
            &&& d.key.tile == p.tile
            &&& d.source == map_view::tile_source(tiles, d.key, hidpi)
        }),
{
}

/// Children are drawn from a scale factor of two on.
pub proof fn law_dense_output_begins_at_two(scale_factor: i32)
    ensures
        map_view::is_hidpi(scale_factor) <==> scale_factor > 1,
{
}

/// Further in than coordinates of 32 bits reach, the columns and rows of the
/// tiles are those of their places but for whole multiples of two to the power
/// of 32.
pub proof fn law_slot_far_in_shows_its_place(z: u8, x0: int, y0: int, x1: int, y1: int, i: int)
    requires
        32 < z < 63,
        i64::MIN <= x0,
        x1 <= i64::MAX,
        i64::MIN <= y0,
        y1 <= i64::MAX,
        0 <= i < map_view::visible(z, x0, y0, x1, y1).len(),
    ensures
        ({
            let p = map_view::visible(z, x0, y0, x1, y1)[i];
            &&& x0 <= p.tx <= x1
            &&& y0 <= p.ty <= y1
            &&& 0 <= p.ty < pow2(z as nat)
            &&& p.tile.z == z
            &&& p.tile.x == p.tx as int % 0x1_0000_0000
            &&& p.tile.y == p.ty as int % 0x1_0000_0000
        }),
{
    lemma_slot_far_in(
        z,
        x0,
        x1,
        map_view::first_row(y0),
        map_view::last_row(z, y1),
        i,
    );
}

/// What a slot of a block of columns far in shows.
proof fn lemma_slot_far_in(z: u8, x0: int, x1: int, lo: int, hi: int, i: int)
    requires
        32 < z < 63,
        i64::MIN <= x0,
        x1 <= i64::MAX,
        0 <= lo,
        hi <= i64::MAX,
        0 <= i < map_view::columns(z, x0, x1, lo, hi).len(),
    ensures
        ({
            let p = map_view::columns(z, x0, x1, lo, hi)[i];
            &&& x0 <= p.tx <= x1
            &&& lo <= p.ty <= hi
            &&& p.tile.z == z
            &&& p.tile.x == p.tx as int % 0x1_0000_0000
            &&& p.tile.y == p.ty as int % 0x1_0000_0000
        }),
    decreases x1 - x0 + 1,
{
    let left = map_view::columns(z, x0, x1 - 1, lo, hi);
    if i < left.len() {
        lemma_slot_far_in(z, x0, x1 - 1, lo, hi, i);
    } else {
        let rest = pow2((z - 32) as nat) as int;
        lemma2_to64();
        lemma_pow2_pos((z - 32) as nat);
        lemma_pow2_adds(32, (z - 32) as nat);
        vstd::arithmetic::div_mod::lemma_mod_mod(x1, 0x1_0000_0000, rest);
        assert(map_view::columns(z, x0, x1, lo, hi)[i] == map_view::placement(
            z,
            x1,
            lo + (i - left.len()),
        ));
    }
}

/// A view without a column, or one that lies north or south of the map, has
/// no slots, and neither has any at zoom level 63.
pub proof fn law_nothing_is_shown_off_the_map(z: u8, x0: int, y0: int, x1: int, y1: int)
    requires
        z < 64,
        x1 < x0 || y1 < y0 || y1 < 0 || z == 63 || y0 >= pow2(z as nat),
    ensures
        map_view::visible(z, x0, y0, x1, y1).len() == 0,
{
    lemma_no_rows(z, x0, x1, map_view::first_row(y0), map_view::last_row(z, y1));
}

/// A block without rows or without columns has no places.
proof fn lemma_no_rows(z: u8, x0: int, x1: int, lo: int, hi: int)
    requires
        x1 < x0 || hi < lo,
    ensures
        map_view::columns(z, x0, x1, lo, hi).len() == 0,
    decreases x1 - x0 + 1,
{
    if x0 <= x1 {
        lemma_no_rows(z, x0, x1 - 1, lo, hi);
    }
}

/// A tile alone in a row if it has to be asked for: it is neither there nor
/// under way.
pub open spec fn asked(tiles: Set<TileKey>, inflight: Set<TileKey>, key: TileKey) -> Seq<TileKey> {
    if tiles.contains(key) || inflight.contains(key) {
        Seq::empty()
    } else {
        seq![key]
    }
}

/// Drawing a tile asks for those of its children that are missing on a
/// high-density output, from north-west to south-east, and then for the tile
/// itself if neither it nor all of its children are there. What was asked for
/// before comes first.
pub proof fn law_requests_of_one_tile(tiles: Set<TileKey>, p: Pending, key: TileKey, hidpi: bool)
    requires
        key.tile.z < 255,
        map_view::has_children(key.tile),
    ensures
        ({
            let children = asked(tiles, p.inflight, map_view::child(key, 0)) + asked(
                tiles,
                p.inflight,
                map_view::child(key, 1),
            ) + asked(tiles, p.inflight, map_view::child(key, 2)) + asked(
                tiles,
                p.inflight,
                map_view::child(key, 3),
            );
            let complete = forall|i: int|
                0 <= i < 4 ==> tiles.contains(#[trigger] map_view::child(key, i));
            let own = asked(tiles, p.inflight, key);
            let after = map_view::after_tile(tiles, p, key, hidpi).requests;
            &&& hidpi && !complete ==> after == p.requests + children + own
            &&& hidpi && complete ==> after == p.requests
            &&& !hidpi ==> after == p.requests + own
        }),
{
    reveal_with_fuel(map_view::want_children, 5);
    law_children_are_the_quarters(key);
    law_children_are_distinct(key, 0, 1);
    law_children_are_distinct(key, 0, 2);
    law_children_are_distinct(key, 0, 3);
    law_children_are_distinct(key, 1, 2);
    law_children_are_distinct(key, 1, 3);
    law_children_are_distinct(key, 2, 3);
    let c0 = map_view::child(key, 0);
    let c1 = map_view::child(key, 1);
    let c2 = map_view::child(key, 2);
    let c3 = map_view::child(key, 3);
    assert(covers(key, c0, 1) && covers(key, c1, 1) && covers(key, c2, 1) && covers(key, c3, 1));
    let q1 = map_view::want_children(p, tiles, key, 1);
    let q2 = map_view::want_children(p, tiles, key, 2);
    let q3 = map_view::want_children(p, tiles, key, 3);
    let q4 = map_view::want_children(p, tiles, key, 4);
    let i = p.inflight;
    assert(q1.requests =~= p.requests + asked(tiles, i, c0));
    assert(q2.requests =~= q1.requests + asked(tiles, i, c1));
    assert(q3.requests =~= q2.requests + asked(tiles, i, c2));
    assert(q4.requests =~= q3.requests + asked(tiles, i, c3));
    let children = asked(tiles, i, c0) + asked(tiles, i, c1) + asked(tiles, i, c2) + asked(
        tiles,
        i,
        c3,
    );
    assert(q4.requests =~= p.requests + children);
    let own = asked(tiles, i, key);
    let after = map_view::after_tile(tiles, p, key, hidpi).requests;
    if !hidpi {
        assert(after =~= p.requests + own);
    } else if !map_view::all_children(tiles, key) {
        assert(after =~= q4.requests + own);
        assert(q4.requests + own =~= p.requests + children + own);
    } else {
        assert(children =~= Seq::empty());
        assert(after =~= p.requests);
    }
}

/// The coordinates of the children of a view can be told below zoom level 32,
/// and from there on if each of its tiles lies in the first half of what 32
/// bits can count, in either direction.
pub proof fn law_when_children_can_be_told(z: u8, x0: int, y0: int, x1: int, y1: int)
    ensures
        ({
            let slots = map_view::visible(z, x0, y0, x1, y1);
            map_view::all_have_children(z, x0, y0, x1, y1) <==> z < 32 || forall|i: int|
                0 <= i < slots.len() ==> (#[trigger] slots[i]).tile.x < 0x8000_0000
                    && slots[i].tile.y < 0x8000_0000
        }),
{
    let slots = map_view::visible(z, x0, y0, x1, y1);
    if map_view::all_have_children(z, x0, y0, x1, y1) && z >= 32 {
        assert forall|i: int| 0 <= i < slots.len() implies (#[trigger] slots[i]).tile.x
            < 0x8000_0000 && slots[i].tile.y < 0x8000_0000 by {
            assert(map_view::has_children(map_view::visible(z, x0, y0, x1, y1)[i].tile));
        }
    }
}

} // verus!
