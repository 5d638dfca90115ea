//! Tiles, background layers and sprites, and the whole graphics state.
//!
//! A tile is a 16x16 grid of 4-bit color indices, two pixels per byte with
//! the high nibble first. A background layer is a 64x64 grid of tile and
//! palette indices over a 1024x1024 pixel torus, reached through a pair of
//! scroll offsets and a 2x2 fixed-point transform matrix. A sprite is a
//! movable, flippable 16x16 tile reference. The graphics state aggregates
//! the palette, the tile store, eight background layers, sixty-four sprites
//! and the backdrop palette slot.

use vstd::prelude::*;
use crate::color::Color;
use crate::math::Fixed;
use crate::math::tdiv;

verus! {

/// One 16x16 tile: 1 nibble per pixel, 128 bytes, high nibble first.
#[derive(Clone, Copy, Debug)]
pub struct Tile(pub [u8; 128]);

/// One background layer: a 64x64 indirection grid of tile indices and
/// per-cell palette bases, scroll offsets applied before and after the
/// 2x2 fixed-point transform matrix, and a visibility flag.
#[derive(Clone, Copy, Debug)]
pub struct TileMap {
    pub palettes: [u8; 4096],
    pub tiles: [u8; 4096],
    pub pre_offset: (i16, i16),
    pub post_offset: (i16, i16),
    pub matrix: ((Fixed, Fixed), (Fixed, Fixed)),
    pub visible: bool,
}

/// A movable 16x16 tile reference with position, palette base, visibility
/// and horizontal/vertical flip flags. Never transformed.
#[derive(Clone, Copy, Debug)]
pub struct Sprite {
    pub palette: u8,
    pub tile: u8,
    pub position: (i16, i16),
    pub visible: bool,
    pub flip_x: bool,
    pub flip_y: bool,
}

/// The whole graphics state: the shared 256-entry palette, the tile store,
/// the backdrop palette slot, eight background layers and sixty-four
/// sprites.
#[derive(Clone, Copy, Debug)]
pub struct TileState {
    pub palette: [Color; 256],
    pub tiles: [Tile; 256],
    pub background_color: u8,
    pub backgrounds: [TileMap; 8],
    pub sprites: [Sprite; 64],
}

/// Wrap an integer into [0, 1024) with a floored modulus: negative inputs
/// wrap forward, so -1 lands on 1023.
pub open spec fn wrap_1024(v: int) -> int {
    v % 1024
}

/// Floored modulus by 1024 on machine integers. The ghost `%` on `int` is
/// already Euclidean, so the result is exactly `v % 1024`.
fn wrap_1024_exec(v: i64) -> (r: i64)
    requires
        i64::MIN < v,
    ensures
        r == wrap_1024(v as int),
        0 <= r < 1024,
{
    if v >= 0 {
        proof {
            vstd::arithmetic::div_mod::lemma_mod_division_less_than_divisor(v as int, 1024);
        }
        v % 1024
    } else {
        let m = (-v) % 1024;
        proof {
            let vi = v as int;
            vstd::arithmetic::div_mod::lemma_fundamental_div_mod(-vi, 1024);
            vstd::arithmetic::div_mod::lemma_mod_division_less_than_divisor(-vi, 1024);
            let q = (-vi) / 1024;
            if m == 0 {
                vstd::arithmetic::div_mod::lemma_fundamental_div_mod_converse_mod(
                    vi, 1024, -q, 0);
            } else {
                assert(vi == (-q - 1) * 1024 + (1024 - m));
                vstd::arithmetic::div_mod::lemma_fundamental_div_mod_converse_mod(
                    vi, 1024, -q - 1, 1024 - (m as int));
            }
        }
        if m == 0 {
            0
        } else {
            1024 - m
        }
    }
}

impl Tile {
    /// The 4-bit color index at raster position `idx` (row-major, row =
    /// idx / 16, column = idx % 16): the high nibble of byte idx / 2 for
    /// even idx, the low nibble for odd idx.
    pub open spec fn spec_get_color(self, idx: int) -> u8 {
        if idx % 2 == 0 {
            self.0[idx / 2] / 16
        } else {
            self.0[idx / 2] % 16
        }
    }

    /// Read the nibble at raster position `idx`; a value of 0 is the
    /// transparency sentinel.
    pub fn get_color(&self, idx: usize) -> (r: u8)
        requires
            idx < 256,
        ensures
            r == self.spec_get_color(idx as int),
            r < 16,
    {
        let b = self.0[idx / 2];
        if idx % 2 == 0 {
            b / 16
        } else {
            b % 16
        }
    }
}

impl TileMap {
    /// The source x coordinate on the torus for output pixel (px, py):
    /// pre-scroll, then the top matrix row (each product an integer-by-fixed
    /// multiply), then post-scroll, wrapped into [0, 1024).
    pub open spec fn spec_source_x(self, px: int, py: int) -> int {
        let tx = px + self.pre_offset.0;
        let ty = py + self.pre_offset.1;
        wrap_1024(
            tdiv(tx * ((self.matrix.0).0).raw(), 256) + tdiv(ty * ((self.matrix.0).1).raw(), 256)
                + self.post_offset.0,
        )
    }

    /// The source y coordinate on the torus for output pixel (px, py), from
    /// the bottom matrix row.
    pub open spec fn spec_source_y(self, px: int, py: int) -> int {
        let tx = px + self.pre_offset.0;
        let ty = py + self.pre_offset.1;
        wrap_1024(
            tdiv(tx * ((self.matrix.1).0).raw(), 256) + tdiv(ty * ((self.matrix.1).1).raw(), 256)
                + self.post_offset.1,
        )
    }

    /// Map an output pixel to its source pixel on the 1024x1024 torus.
    pub fn transform_coords(&self, px: i64, py: i64) -> (r: (usize, usize))
        requires
            -0x1000_0000 <= px <= 0x1000_0000,
            -0x1000_0000 <= py <= 0x1000_0000,
        ensures
            r.0 == self.spec_source_x(px as int, py as int),
            r.1 == self.spec_source_y(px as int, py as int),
            r.0 < 1024,
            r.1 < 1024,
    {
        let tx = px + self.pre_offset.0 as i64;
        let ty = py + self.pre_offset.1 as i64;

        let x = ((self.matrix.0).0).scale(tx) + ((self.matrix.0).1).scale(ty)
            + self.post_offset.0 as i64;
        let y = ((self.matrix.1).0).scale(tx) + ((self.matrix.1).1).scale(ty)
            + self.post_offset.1 as i64;

        (wrap_1024_exec(x) as usize, wrap_1024_exec(y) as usize)
    }

    /// The cell in the 64x64 grid that output pixel (px, py) maps to:
    /// row-major, 64 tiles of 16 pixels per row.
    pub open spec fn spec_tile_index(self, px: int, py: int) -> int {
        self.spec_source_x(px, py) / 16 + (self.spec_source_y(px, py) / 16) * 64
    }

    /// The pixel within that tile: row-major, 16 pixels per row.
    pub open spec fn spec_tile_offset(self, px: int, py: int) -> int {
        self.spec_source_x(px, py) % 16 + (self.spec_source_y(px, py) % 16) * 16
    }

    /// Index of the grid cell for output pixel (px, py).
    pub fn get_tile_index(&self, px: i64, py: i64) -> (r: usize)
        requires
            -0x1000_0000 <= px <= 0x1000_0000,
            -0x1000_0000 <= py <= 0x1000_0000,
        ensures
            r == self.spec_tile_index(px as int, py as int),
            r < 4096,
    {
        let (x, y) = self.transform_coords(px, py);
        x / 16 + (y / 16) * 64
    }

    /// Offset of the pixel within its tile for output pixel (px, py).
    pub fn get_tile_offset(&self, px: i64, py: i64) -> (r: usize)
        requires
            -0x1000_0000 <= px <= 0x1000_0000,
            -0x1000_0000 <= py <= 0x1000_0000,
        ensures
            r == self.spec_tile_offset(px as int, py as int),
            r < 256,
    {
        let (x, y) = self.transform_coords(px, py);
        x % 16 + (y % 16) * 16
    }

    /// The (nibble, palette base) pair this layer produces at output pixel
    /// (px, py): the cell's tile is fetched from the tile store and the
    /// nibble at the in-tile offset is read out. Nibble 0 means the layer is
    /// transparent at that pixel.
    pub open spec fn spec_color_offset(self, ts: TileState, px: int, py: int) -> (u8, u8) {
        let loc = self.spec_tile_index(px, py);
        (
            ts.tiles[self.tiles[loc] as int].spec_get_color(self.spec_tile_offset(px, py)),
            self.palettes[loc],
        )
    }

    /// Resolve the (nibble, palette base) pair at output pixel (px, py).
    pub fn get_color_offset(&self, tile_state: &TileState, px: usize, py: usize) -> (r: (u8, u8))
        requires
            px <= 0x1000_0000,
            py <= 0x1000_0000,
        ensures
            r == self.spec_color_offset(*tile_state, px as int, py as int),
            r.0 < 16,
    {
        let tile_loc = self.get_tile_index(px as i64, py as i64);
        let tile_idx = self.tiles[tile_loc];
        let tile = &tile_state.tiles[tile_idx as usize];
        let tile_offset = self.get_tile_offset(px as i64, py as i64);
        (tile.get_color(tile_offset), self.palettes[tile_loc])
    }
}

/// The cell index of any output pixel lies inside the 64x64 grid and the
/// in-tile offset inside the 16x16 tile.
pub proof fn lemma_spec_cell_ranges(bg: TileMap, px: int, py: int)
    ensures
        0 <= bg.spec_tile_index(px, py) < 4096,
        0 <= bg.spec_tile_offset(px, py) < 256,
{
    let tx = px + bg.pre_offset.0;
    let ty = py + bg.pre_offset.1;
    let ix = tdiv(tx * ((bg.matrix.0).0).raw(), 256) + tdiv(ty * ((bg.matrix.0).1).raw(), 256)
        + bg.post_offset.0;
    let iy = tdiv(tx * ((bg.matrix.1).0).raw(), 256) + tdiv(ty * ((bg.matrix.1).1).raw(), 256)
        + bg.post_offset.1;
    vstd::arithmetic::div_mod::lemma_mod_division_less_than_divisor(ix, 1024);
    vstd::arithmetic::div_mod::lemma_mod_division_less_than_divisor(iy, 1024);
    lemma_tile_cell_round_trip(bg.spec_source_x(px, py), bg.spec_source_y(px, py));
}

/// A freshly created background layer: zeroed grids, zero offsets, the
/// identity matrix, not yet visible.
pub open spec fn default_background() -> TileMap {
    TileMap {
        palettes: vstd::array::spec_array_fill_for_copy_type(0u8),
        tiles: vstd::array::spec_array_fill_for_copy_type(0u8),
        pre_offset: (0i16, 0i16),
        post_offset: (0i16, 0i16),
        matrix: ((Fixed(256i16), Fixed(0i16)), (Fixed(0i16), Fixed(256i16))),
        visible: false,
    }
}

/// A freshly created sprite: tile 0, palette 0, the origin, not visible,
/// not flipped.
pub open spec fn default_sprite() -> Sprite {
    Sprite { palette: 0u8, tile: 0u8, position: (0i16, 0i16), visible: false, flip_x: false, flip_y: false }
}

impl TileState {
    /// Deterministic start-up state: a red palette, zeroed tiles, backdrop
    /// slot 0, and default background layers and sprites.
    pub fn new() -> (r: TileState)
        ensures
            r.background_color == 0,
            forall|i: int| 0 <= i < 256 ==> r.palette[i] == (Color { r: 255u8, g: 0u8, b: 0u8 }),
            forall|i: int, j: int|
                0 <= i < 256 && 0 <= j < 128 ==> #[trigger] r.tiles[i].0[j] == 0u8,
            forall|i: int| 0 <= i < 8 ==> r.backgrounds[i] == default_background(),
            forall|i: int| 0 <= i < 64 ==> r.sprites[i] == default_sprite(),
    {
        let bg = TileMap {
            palettes: [0u8; 4096],
            tiles: [0u8; 4096],
            pre_offset: (0i16, 0i16),
            post_offset: (0i16, 0i16),
            matrix: ((Fixed(256i16), Fixed(0i16)), (Fixed(0i16), Fixed(256i16))),
            visible: false,
        };
        let sp = Sprite {
            palette: 0u8,
            tile: 0u8,
            position: (0i16, 0i16),
            visible: false,
            flip_x: false,
            flip_y: false,
        };
        TileState {
            palette: [Color { r: 255u8, g: 0u8, b: 0u8 }; 256],
            tiles: [Tile([0u8; 128]); 256],
            background_color: 0,
            backgrounds: [bg; 8],
            sprites: [sp; 64],
        }
    }
}

/// The cell index and in-tile offset partition the 1024x1024 torus exactly:
/// from a wrapped coordinate pair, the cell index lies below 4096, the
/// offset below 256, and reconstructing (x, y) from them recovers the
/// wrapped coordinate. Together with [`lemma_cell_cover`] this makes the
/// 4096 cells of 256 pixels a partition with no overlap and no gap.
pub proof fn lemma_tile_cell_round_trip(x: int, y: int)
    requires
        0 <= x < 1024,
        0 <= y < 1024,
    ensures
        ({
            let ti = x / 16 + (y / 16) * 64;
            let to = x % 16 + (y % 16) * 16;
            &&& 0 <= ti < 4096
            &&& 0 <= to < 256
            &&& (ti % 64) * 16 + to % 16 == x
            &&& (ti / 64) * 16 + to / 16 == y
        }),
{
    let ti = x / 16 + (y / 16) * 64;
    let to = x % 16 + (y % 16) * 16;
    vstd::arithmetic::div_mod::lemma_fundamental_div_mod(x, 16);
    vstd::arithmetic::div_mod::lemma_fundamental_div_mod(y, 16);
    vstd::arithmetic::div_mod::lemma_mod_division_less_than_divisor(x, 16);
    vstd::arithmetic::div_mod::lemma_mod_division_less_than_divisor(y, 16);
    assert(ti == (y / 16) * 64 + (x / 16));
    vstd::arithmetic::div_mod::lemma_fundamental_div_mod_converse_mod(ti, 64, y / 16, x / 16);
    vstd::arithmetic::div_mod::lemma_fundamental_div_mod_converse_div(ti, 64, y / 16, x / 16);
    assert(to == (y % 16) * 16 + (x % 16));
    vstd::arithmetic::div_mod::lemma_fundamental_div_mod_converse_mod(to, 16, y % 16, x % 16);
    vstd::arithmetic::div_mod::lemma_fundamental_div_mod_converse_div(to, 16, y % 16, x % 16);
}

/// Every (cell index, in-tile offset) pair is reached: the coordinates it
/// reconstructs are on the torus and map back to the same pair.
pub proof fn lemma_cell_cover(ti: int, to: int)
    requires
        0 <= ti < 4096,
        0 <= to < 256,
    ensures
        ({
            let x = (ti % 64) * 16 + to % 16;
            let y = (ti / 64) * 16 + to / 16;
            &&& 0 <= x < 1024
            &&& 0 <= y < 1024
            &&& x / 16 + (y / 16) * 64 == ti
            &&& x % 16 + (y % 16) * 16 == to
        }),
{
    let x = (ti % 64) * 16 + to % 16;
    let y = (ti / 64) * 16 + to / 16;
    vstd::arithmetic::div_mod::lemma_fundamental_div_mod(ti, 64);
    vstd::arithmetic::div_mod::lemma_fundamental_div_mod(to, 16);
    vstd::arithmetic::div_mod::lemma_mod_division_less_than_divisor(ti, 64);
    vstd::arithmetic::div_mod::lemma_mod_division_less_than_divisor(to, 16);
    assert(x == (ti % 64) * 16 + (to % 16));
    vstd::arithmetic::div_mod::lemma_fundamental_div_mod_converse_mod(x, 16, ti % 64, to % 16);
    vstd::arithmetic::div_mod::lemma_fundamental_div_mod_converse_div(x, 16, ti % 64, to % 16);
    vstd::arithmetic::div_mod::lemma_fundamental_div_mod_converse_mod(y, 16, ti / 64, to / 16);
    vstd::arithmetic::div_mod::lemma_fundamental_div_mod_converse_div(y, 16, ti / 64, to / 16);
}

impl Sprite {
    /// The (nibble, palette base) pair this sprite produces at output pixel
    /// (x, y), which must lie inside its 16x16 span. Flip flags mirror the
    /// local coordinates.
    pub open spec fn spec_color_offset(self, ts: TileState, x: int, y: int) -> (u8, u8) {
        let lx = if self.flip_x {
            15 - (x - self.position.0)
        } else {
            x - self.position.0
        };
        let ly = if self.flip_y {
            15 - (y - self.position.1)
        } else {
            y - self.position.1
        };
        (ts.tiles[self.tile as int].spec_get_color(lx + ly * 16), self.palette)
    }

    /// Resolve the (nibble, palette base) pair at output pixel (x, y).
    pub fn get_color_offset(&self, tile_state: &TileState, x: usize, y: usize) -> (r: (u8, u8))
        requires
            self.position.0 <= x < self.position.0 + 16,
            self.position.1 <= y < self.position.1 + 16,
        ensures
            r == self.spec_color_offset(*tile_state, x as int, y as int),
            r.0 < 16,
    {
        let mut lx = ((x as i64) - (self.position.0 as i64)) as usize;
        let mut ly = ((y as i64) - (self.position.1 as i64)) as usize;
        if self.flip_x {
            lx = 15 - lx;
        }
        if self.flip_y {
            ly = 15 - ly;
        }
        let tile = &tile_state.tiles[self.tile as usize];
        (tile.get_color(lx + ly * 16), self.palette)
    }
}

} // verus!
