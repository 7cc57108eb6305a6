//! Tile identity and URL templating.

use crate::config::Provider;
#[allow(unused_imports)]
use crate::config::ProviderModel;
use crate::text;
#[allow(unused_imports)]
use vstd::arithmetic::power2::*;
#[allow(unused_imports)]
use vstd::bits::*;
use vstd::prelude::*;

verus! {

/// A single map tile identified by zoom, column and row, with row zero in the
/// north.
#[derive(Debug, Clone, Copy, PartialEq, Eq, Hash, Structural)]
pub struct TileId {
    pub z: u8,
    pub x: u32,
    pub y: u32,
}

/// The row that a provider calls `y` at zoom `z`. A TMS provider counts rows
/// from the south.
pub open spec fn provider_row(z: u8, y: int, tms: bool) -> int {
    if tms {
        pow2(z as nat) - 1 - y
    } else {
        y
    }
}

/// Whether a provider has a row for the tile: a TMS provider does when the
/// row lies on the grid.
pub open spec fn has_row(t: TileId, tms: bool) -> bool {
    tms ==> t.z < 32 && t.y < pow2(t.z as nat)
}

/// A template with the placeholders `{z}`, `{x}` and `{y}` filled.
pub open spec fn filled(template: Seq<char>, z: nat, x: nat, y: nat) -> Seq<char> {
    text::replace(
        text::replace(
            text::replace(template, "{z}"@, text::decimal(z)),
            "{x}"@,
            text::decimal(x),
        ),
        "{y}"@,
        text::decimal(y),
    )
}

/// The address of a tile at a provider.
pub open spec fn tile_url(t: TileId, p: ProviderModel) -> Seq<char> {
    filled(p.url, t.z as nat, t.x as nat, provider_row(t.z, t.y as int, p.tms) as nat)
}

/// The address of a tile at a provider, with the placeholder `{api_key}`
/// filled too if there is a key. A key is not searched for placeholders.
pub open spec fn tile_url_with_key(
    t: TileId,
    p: ProviderModel,
    api_key: Option<Seq<char>>,
) -> Seq<char> {
    match api_key {
        Some(key) => text::replace(tile_url(t, p), "{api_key}"@, key),
        None => tile_url(t, p),
    }
}

impl TileId {
    pub fn new(z: u8, x: u32, y: u32) -> (r: Self)
        ensures
            r == (TileId { z, x, y }),
    {
        Self { z, x, y }
    }

    /// Fills the provider's URL template with this tile's coordinates.
    ///
    /// Supports `{z}`/`{x}`/`{y}` placeholders. When the provider is a TMS
    /// source the Y axis is flipped.
    pub fn url(&self, provider: &Provider) -> (r: String)
        requires
            has_row(*self, provider.tms),
        ensures
            r@ == tile_url(*self, provider@),
    {
        proof {
            reveal_strlit("{z}");
            reveal_strlit("{x}");
            reveal_strlit("{y}");
        }
        let y: u32 = if provider.tms {
            proof {
                lemma_u32_pow2_no_overflow(self.z as nat);
                lemma_u32_shl_is_mul(1, self.z as u32);
            }
            (1u32 << (self.z as u32)) - 1 - self.y
        } else {
            self.y
        };
        let z_text = text::decimal_string(self.z as u64);
        let x_text = text::decimal_string(self.x as u64);
        let y_text = text::decimal_string(y as u64);
        let with_z = text::replaced(provider.url.as_str(), "{z}", z_text.as_str());
        let with_x = text::replaced(with_z.as_str(), "{x}", x_text.as_str());
        text::replaced(with_x.as_str(), "{y}", y_text.as_str())
    }

    /// Fills the provider's URL template, `{api_key}` included.
    pub fn url_with_key(&self, provider: &Provider, api_key: Option<&str>) -> (r: String)
        requires
            has_row(*self, provider.tms),
        ensures
            r@ == tile_url_with_key(
                *self,
                provider@,
                match api_key {
                    Some(key) => Some(key@),
                    None => None,
                },
            ),
    {
        let plain = self.url(provider);
        match api_key {
            Some(key) => {
                proof {
                    reveal_strlit("{api_key}");
                }
                text::replaced(plain.as_str(), "{api_key}", key)
            },
            None => plain,
        }
    }
}

/// Flipping a row twice gives the row back.
pub proof fn law_row_flip_is_involution(z: u8, y: int, tms: bool)
    ensures
        provider_row(z, provider_row(z, y, tms), tms) == y,
{
}

/// A row on the grid stays on the grid when it is flipped.
pub proof fn law_row_flip_stays_on_grid(z: u8, y: int, tms: bool)
    requires
        0 <= y < pow2(z as nat),
    ensures
        0 <= provider_row(z, y, tms) < pow2(z as nat),
{
}

/// A TMS provider and an XYZ provider with the same template give the same
/// address for rows that mirror each other.
pub proof fn law_tms_mirrors_xyz(t: TileId, mirrored: TileId, tms: ProviderModel, xyz: ProviderModel)
    requires
        tms.tms,
        !xyz.tms,
        tms.url == xyz.url,
        has_row(t, true),
        mirrored.z == t.z,
        mirrored.x == t.x,
        mirrored.y == provider_row(t.z, t.y as int, true),
    ensures
        tile_url(t, tms) == tile_url(mirrored, xyz),
{
}

/// No coordinate placeholder is left in an address, whatever the template.
pub proof fn law_url_has_no_placeholders(t: TileId, p: ProviderModel)
    requires
        has_row(t, p.tms),
    ensures
        !text::occurs(tile_url(t, p), "{z}"@),
        !text::occurs(tile_url(t, p), "{x}"@),
        !text::occurs(tile_url(t, p), "{y}"@),
{
    reveal_strlit("{z}");
    reveal_strlit("{x}");
    reveal_strlit("{y}");
    let zs = text::decimal(t.z as nat);
    let xs = text::decimal(t.x as nat);
    let row = provider_row(t.z, t.y as int, p.tms) as nat;
    let ys = text::decimal(row);
    text::lemma_decimal_digits(t.z as nat);
    text::lemma_decimal_digits(t.x as nat);
    text::lemma_decimal_digits(row);
    let a = text::replace(p.url, "{z}"@, zs);
    let b = text::replace(a, "{x}"@, xs);
    text::lemma_replace_removes(p.url, "{z}"@, zs);
    text::lemma_replace_adds_no_other(a, "{x}"@, xs, "{z}"@);
    text::lemma_replace_removes(a, "{x}"@, xs);
    text::lemma_replace_adds_no_other(b, "{y}"@, ys, "{z}"@);
    text::lemma_replace_adds_no_other(b, "{y}"@, ys, "{x}"@);
    text::lemma_replace_removes(b, "{y}"@, ys);
}

/// A template without coordinate placeholders is its own address.
pub proof fn law_plain_template_is_unchanged(t: TileId, p: ProviderModel)
    requires
        !text::occurs(p.url, "{z}"@),
        !text::occurs(p.url, "{x}"@),
        !text::occurs(p.url, "{y}"@),
    ensures
        tile_url(t, p) == p.url,
{
    text::lemma_replace_nothing(p.url, "{z}"@, text::decimal(t.z as nat));
    text::lemma_replace_nothing(p.url, "{x}"@, text::decimal(t.x as nat));
    text::lemma_replace_nothing(
        p.url,
        "{y}"@,
        text::decimal(provider_row(t.z, t.y as int, p.tms) as nat),
    );
}

/// A piece of a template.
pub enum Piece {
    /// Text without a brace.
    Text(Seq<char>),
    Zoom,
    Column,
    Row,
    Key,
}

/// What stands for the pieces of a template that are not text.
pub struct Filling {
    pub zoom: Seq<char>,
    pub column: Seq<char>,
    pub row: Seq<char>,
    pub key: Seq<char>,
}

/// What stands for a piece.
pub open spec fn piece_text(piece: Piece, f: Filling) -> Seq<char> {
    match piece {
        Piece::Text(s) => s,
        Piece::Zoom => f.zoom,
        Piece::Column => f.column,
        Piece::Row => f.row,
        Piece::Key => f.key,
    }
}

/// A row of pieces, written out.
pub open spec fn written(pieces: Seq<Piece>, f: Filling) -> Seq<char>
    decreases pieces.len(),
{
    if pieces.len() == 0 {
        Seq::empty()
    } else {
        piece_text(pieces[0], f) + written(pieces.skip(1), f)
    }
}

/// The placeholders of a template.
pub open spec fn placeholders() -> Filling {
    Filling { zoom: "{z}"@, column: "{x}"@, row: "{y}"@, key: "{api_key}"@ }
}

/// Whether no opening brace stands in the texts of a template.
pub open spec fn plain_texts(pieces: Seq<Piece>) -> bool {
    forall|i: int|
        0 <= i < pieces.len() ==> ((#[trigger] pieces[i]) matches Piece::Text(s)
            ==> !s.contains('{'))
}

/// Whether no placeholder with `c` behind its brace begins in `q`.
spec fn inert(q: Seq<char>, c: char) -> bool {
    forall|i: int|
        0 <= i < q.len() && #[trigger] q[i] == '{' ==> i + 1 < q.len() && q[i + 1] != c
}

/// A part in which no placeholder begins is not changed by filling that one.
proof fn lemma_fill_passes(q: Seq<char>, s: Seq<char>, pat: Seq<char>, rep: Seq<char>)
    requires
        pat.len() >= 2,
        pat[0] == '{',
        inert(q, pat[1]),
    ensures
        text::replace(q + s, pat, rep) == q + text::replace(s, pat, rep),
    decreases q.len(),
{
    let full = q + s;
    if q.len() == 0 {
        assert(full =~= s);
        assert(q + text::replace(s, pat, rep) =~= text::replace(s, pat, rep));
    } else if full.len() >= pat.len() {
        if pat.is_prefix_of(full) {
            assert(full.take(pat.len() as int)[0] == pat[0]);
            assert(full.take(pat.len() as int)[1] == pat[1]);
            assert(q[0] == '{');
            assert(full[1] == q[1]);
        }
        let tail = q.skip(1);
        assert forall|i: int| 0 <= i < tail.len() && #[trigger] tail[i] == '{' implies i + 1
            < tail.len() && tail[i + 1] != pat[1] by {
            assert(q[i + 1] == '{');
        }
        assert(full.skip(1) =~= tail + s);
        lemma_fill_passes(tail, s, pat, rep);
        assert(seq![full[0]] + (tail + text::replace(s, pat, rep)) =~= q + text::replace(
            s,
            pat,
            rep,
        ));
    }
}

/// Whether filling the placeholder `pat` turns what stands for a piece into
/// what stands for it afterwards.
spec fn turns_into(a: Seq<char>, b: Seq<char>, pat: Seq<char>, rep: Seq<char>) -> bool {
    a == pat && b == rep || a == b && inert(a, pat[1])
}

/// Filling one placeholder of a template.
proof fn lemma_fill(pieces: Seq<Piece>, a: Filling, b: Filling, pat: Seq<char>, rep: Seq<char>)
    requires
        plain_texts(pieces),
        pat.len() >= 2,
        pat[0] == '{',
        turns_into(a.zoom, b.zoom, pat, rep),
        turns_into(a.column, b.column, pat, rep),
        turns_into(a.row, b.row, pat, rep),
        turns_into(a.key, b.key, pat, rep),
    ensures
        text::replace(written(pieces, a), pat, rep) == written(pieces, b),
    decreases pieces.len(),
{
    if pieces.len() > 0 {
        let rest = pieces.skip(1);
        let tail = written(rest, a);
        assert forall|i: int| 0 <= i < rest.len() implies ((
        #[trigger] rest[i]) matches Piece::Text(s) ==> !s.contains('{')) by {
            assert(rest[i] == pieces[i + 1]);
        }
        lemma_fill(rest, a, b, pat, rep);
        let head = piece_text(pieces[0], a);
        let after = piece_text(pieces[0], b);
        if let Piece::Text(s) = pieces[0] {
            assert(inert(s, pat[1]));
        }
        if head == pat && after == rep {
            let none = Seq::<char>::empty();
            assert(none + pat + tail =~= head + tail);
            text::law_replace_goes_left_to_right(none, pat, tail, rep);
            assert(none + rep + text::replace(tail, pat, rep) =~= rep + text::replace(
                tail,
                pat,
                rep,
            ));
        } else {
            lemma_fill_passes(head, tail, pat, rep);
        }
    }
}

/// A numeral holds no brace.
proof fn lemma_numeral_is_inert(n: nat, c: char)
    ensures
        inert(text::decimal(n), c),
{
    text::law_decimal_stands_for_its_number(n);
}

/// The address of a tile is the template with the zoom level, the column and
/// the row of the tile in the places kept for them, as often and in whatever
/// order those stand there, and everything else as it is. A TMS provider
/// numbers the rows from the south: its number and that of the tile add up to
/// that of the last row. A key takes the places kept for it as it is, whatever
/// it holds.
pub proof fn law_address_is_the_filled_template(
    t: TileId,
    p: ProviderModel,
    pieces: Seq<Piece>,
    row: nat,
    key: Seq<char>,
)
    requires
        plain_texts(pieces),
        p.url == written(pieces, placeholders()),
        p.tms ==> row + t.y + 1 == pow2(t.z as nat),
        !p.tms ==> row == t.y,
    ensures
        ({
            let f = Filling {
                zoom: text::decimal(t.z as nat),
                column: text::decimal(t.x as nat),
                row: text::decimal(row),
                key: "{api_key}"@,
            };
            &&& tile_url(t, p) == written(pieces, f)
            &&& tile_url_with_key(t, p, None) == written(pieces, f)
            &&& tile_url_with_key(t, p, Some(key)) == written(pieces, Filling { key, ..f })
        }),
{
    reveal_strlit("{z}");
    reveal_strlit("{x}");
    reveal_strlit("{y}");
    reveal_strlit("{api_key}");
    let zoom = text::decimal(t.z as nat);
    let column = text::decimal(t.x as nat);
    let row_text = text::decimal(row);
    let a = placeholders();
    let b = Filling { zoom, ..a };
    let c = Filling { column, ..b };
    let d = Filling { row: row_text, ..c };
    assert forall|n: nat, c: char| #[trigger] inert(text::decimal(n), c) by {
        lemma_numeral_is_inert(n, c);
    }
    lemma_fill(pieces, a, b, "{z}"@, zoom);
    lemma_fill(pieces, b, c, "{x}"@, column);
    lemma_fill(pieces, c, d, "{y}"@, row_text);
    lemma_fill(pieces, d, Filling { key, ..d }, "{api_key}"@, key);
}

/// A TMS provider has a row for each tile on the grid below zoom level 32;
/// any other provider has one for every tile.
pub proof fn law_rows_of_a_provider(t: TileId)
    ensures
        has_row(t, false),
        has_row(t, true) <==> t.z < 32 && t.y < pow2(t.z as nat),
        provider_row(t.z, t.y as int, false) == t.y,
        provider_row(t.z, t.y as int, true) + t.y == pow2(t.z as nat) - 1,
{
}

/// Whatever stands in a template, braces included, its placeholders are filled
/// one after the other: zoom level, column, row and, if there is a key, the
/// key.
pub proof fn law_placeholders_are_filled_in_turn(
    t: TileId,
    p: ProviderModel,
    row: nat,
    key: Seq<char>,
    with_zoom: Seq<char>,
    with_column: Seq<char>,
    with_row: Seq<char>,
)
    requires
        p.tms ==> row + t.y + 1 == pow2(t.z as nat),
        !p.tms ==> row == t.y,
        with_zoom == text::replace(p.url, "{z}"@, text::decimal(t.z as nat)),
        with_column == text::replace(with_zoom, "{x}"@, text::decimal(t.x as nat)),
        with_row == text::replace(with_column, "{y}"@, text::decimal(row)),
    ensures
        tile_url(t, p) == with_row,
        tile_url_with_key(t, p, None) == with_row,
        tile_url_with_key(t, p, Some(key)) == text::replace(with_row, "{api_key}"@, key),
{
}

} // verus!
