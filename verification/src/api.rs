//! The state-mutation API the guest program calls every tick: palette and
//! tile writes, background scroll/transform/visibility writes and reads,
//! and sprite writes and reads. All setters are fire-and-forget; index
//! arguments outside a field's nominal range are masked rather than
//! rejected.

use vstd::prelude::*;
use crate::color::Color;
use crate::color::spec_color_of_u32;
use crate::tile::TileState;

verus! {

/// Write one palette entry: the slot is masked into range, the color
/// unpacked from its 24-bit form.
pub fn write_palette(state: &mut TileState, palette: u32, color: u32)
    ensures
        final(state).palette@ == old(state).palette@.update(
            (palette & 255) as int, spec_color_of_u32(color)),
        final(state).tiles == old(state).tiles,
        final(state).background_color == old(state).background_color,
        final(state).backgrounds == old(state).backgrounds,
        final(state).sprites == old(state).sprites,
{
    let idx = (palette & 255) as usize;
    proof {
        assert(palette & 255 < 256) by (bit_vector);
    }
    state.palette[idx] = Color::from_u32(color);
}

/// Point one cell of a background's 64x64 grid at a tile; the layer index
/// and both cell coordinates are masked into range, the tile id truncated
/// to 8 bits.
pub fn set_background_tile(state: &mut TileState, bg: u32, x: u32, y: u32, tile: i32)
    ensures
        ({
            let b = (bg & 7) as int;
            let c = (x & 63) + (y & 63) * 64;
            &&& final(state).backgrounds[b].tiles@ == old(state).backgrounds[b].tiles@.update(
                c as int, tile as u8)
            &&& final(state).backgrounds[b].palettes == old(state).backgrounds[b].palettes
            &&& final(state).backgrounds[b].pre_offset == old(state).backgrounds[b].pre_offset
            &&& final(state).backgrounds[b].post_offset == old(state).backgrounds[b].post_offset
            &&& final(state).backgrounds[b].matrix == old(state).backgrounds[b].matrix
            &&& final(state).backgrounds[b].visible == old(state).backgrounds[b].visible
            &&& forall|i: int|
                0 <= i < 8 && i != b ==> final(state).backgrounds[i] == old(state).backgrounds[i]
        }),
        final(state).palette == old(state).palette,
        final(state).tiles == old(state).tiles,
        final(state).background_color == old(state).background_color,
        final(state).sprites == old(state).sprites,
{
    proof {
        assert(bg & 7 < 8) by (bit_vector);
        assert((x & 63) < 64 && (y & 63) < 64) by (bit_vector);
    }
    let b = (bg & 7) as usize;
    let c = ((x & 63) as usize) + ((y & 63) as usize) * 64;
    state.backgrounds[b].tiles[c] = #[verifier::truncate] (tile as u8);
}

/// Bulk-overwrite one tile's 128-byte bitmap; the slot index is masked into
/// range.
pub fn write_tile(state: &mut TileState, tile: u32, data: &[u8])
    requires
        data@.len() == 128,
    ensures
        final(state).tiles[(tile & 255) as int].0@ == data@,
        forall|i: int|
            0 <= i < 256 && i != (tile & 255) ==> final(state).tiles[i] == old(state).tiles[i],
        final(state).palette == old(state).palette,
        final(state).background_color == old(state).background_color,
        final(state).backgrounds == old(state).backgrounds,
        final(state).sprites == old(state).sprites,
{
    proof {
        assert(tile & 255 < 256) by (bit_vector);
    }
    let idx = (tile & 255) as usize;
    let mut buf = [0u8; 128];
    let mut i: usize = 0;
    while i < 128
        invariant
            i <= 128,
            data@.len() == 128,
            forall|j: int| 0 <= j < i ==> buf@[j] == data@[j],
        decreases 128 - i,
    {
        buf[i] = data[i];
        i = i + 1;
    }
    proof {
        assert(buf@ =~= data@);
    }
    state.tiles[idx] = crate::tile::Tile(buf);
}

/// Set the backdrop palette slot, shown where nothing opaque composites.
pub fn set_background_palette(state: &mut TileState, palette: u32)
    ensures
        final(state).background_color == palette as u8,
        final(state).palette == old(state).palette,
        final(state).tiles == old(state).tiles,
        final(state).backgrounds == old(state).backgrounds,
        final(state).sprites == old(state).sprites,
{
    state.background_color = #[verifier::truncate] (palette as u8);
}

/// Set one cell's palette base in a background's grid; layer and cell
/// coordinates are masked, the palette id truncated to 8 bits.
pub fn set_background_tile_palette(state: &mut TileState, bg: u32, x: i32, y: i32, palette: u32)
    ensures
        ({
            let b = (bg & 7) as int;
            let c = (x & 63) + (y & 63) * 64;
            &&& final(state).backgrounds[b].palettes@ == old(
                state).backgrounds[b].palettes@.update(c as int, palette as u8)
            &&& final(state).backgrounds[b].tiles == old(state).backgrounds[b].tiles
            &&& final(state).backgrounds[b].pre_offset == old(state).backgrounds[b].pre_offset
            &&& final(state).backgrounds[b].post_offset == old(state).backgrounds[b].post_offset
            &&& final(state).backgrounds[b].matrix == old(state).backgrounds[b].matrix
            &&& final(state).backgrounds[b].visible == old(state).backgrounds[b].visible
            &&& forall|i: int|
                0 <= i < 8 && i != b ==> final(state).backgrounds[i] == old(state).backgrounds[i]
        }),
        final(state).palette == old(state).palette,
        final(state).tiles == old(state).tiles,
        final(state).background_color == old(state).background_color,
        final(state).sprites == old(state).sprites,
{
    proof {
        assert(bg & 7 < 8) by (bit_vector);
        assert(0 <= (x & 63) < 64 && 0 <= (y & 63) < 64) by (bit_vector);
    }
    let b = (bg & 7) as usize;
    let c = ((x & 63) as usize) + ((y & 63) as usize) * 64;
    state.backgrounds[b].palettes[c] = #[verifier::truncate] (palette as u8);
}

/// Show or hide a background layer.
pub fn set_background_visible(state: &mut TileState, bg: u32, visible: u32)
    ensures
        final(state).backgrounds@ == old(state).backgrounds@.update(
            (bg & 7) as int,
            crate::tile::TileMap { visible: visible != 0, ..old(state).backgrounds[(bg & 7) as int] },
        ),
        final(state).palette == old(state).palette,
        final(state).tiles == old(state).tiles,
        final(state).background_color == old(state).background_color,
        final(state).sprites == old(state).sprites,
{
    proof {
        assert(bg & 7 < 8) by (bit_vector);
    }
    let b = (bg & 7) as usize;
    state.backgrounds[b].visible = visible != 0;
    proof {
        assert(state.backgrounds@ =~= old(state).backgrounds@.update(
            (bg & 7) as int,
            crate::tile::TileMap { visible: visible != 0, ..old(state).backgrounds[(bg & 7) as int] },
        ));
    }
}

/// Read a background's pre-transform scroll offset, each axis reinterpreted
/// as an unsigned 32-bit value.
pub fn get_background_scroll_pre(state: &TileState, bg: u32) -> (r: (u32, u32))
    ensures
        r.0 == state.backgrounds[(bg & 7) as int].pre_offset.0 as u32,
        r.1 == state.backgrounds[(bg & 7) as int].pre_offset.1 as u32,
{
    proof {
        assert(bg & 7 < 8) by (bit_vector);
    }
    let coords = state.backgrounds[(bg & 7) as usize].pre_offset;
    (#[verifier::truncate] (coords.0 as u32), #[verifier::truncate] (coords.1 as u32))
}

/// Read the x axis of a background's pre-transform scroll offset.
pub fn get_background_scroll_pre_x(state: &TileState, bg: u32) -> (r: u32)
    ensures
        r == state.backgrounds[(bg & 7) as int].pre_offset.0 as u32,
{
    proof {
        assert(bg & 7 < 8) by (bit_vector);
    }
    #[verifier::truncate] (state.backgrounds[(bg & 7) as usize].pre_offset.0 as u32)
}

/// Read the y axis of a background's pre-transform scroll offset.
pub fn get_background_scroll_pre_y(state: &TileState, bg: u32) -> (r: u32)
    ensures
        r == state.backgrounds[(bg & 7) as int].pre_offset.1 as u32,
{
    proof {
        assert(bg & 7 < 8) by (bit_vector);
    }
    #[verifier::truncate] (state.backgrounds[(bg & 7) as usize].pre_offset.1 as u32)
}

/// Set a background's pre-transform scroll offset, both axes truncated to
/// 16 bits.
pub fn set_background_scroll_pre(state: &mut TileState, bg: u32, x: i32, y: i32)
    ensures
        final(state).backgrounds@ == old(state).backgrounds@.update(
            (bg & 7) as int,
            crate::tile::TileMap {
                pre_offset: (x as i16, y as i16),
                ..old(state).backgrounds[(bg & 7) as int]
            },
        ),
        final(state).palette == old(state).palette,
        final(state).tiles == old(state).tiles,
        final(state).background_color == old(state).background_color,
        final(state).sprites == old(state).sprites,
{
    proof {
        assert(bg & 7 < 8) by (bit_vector);
    }
    let b = (bg & 7) as usize;
    state.backgrounds[b].pre_offset = (
        #[verifier::truncate] (x as i16),
        #[verifier::truncate] (y as i16),
    );
    proof {
        assert(state.backgrounds@ =~= old(state).backgrounds@.update(
            (bg & 7) as int,
            crate::tile::TileMap {
                pre_offset: (x as i16, y as i16),
                ..old(state).backgrounds[(bg & 7) as int]
            },
        ));
    }
}

/// Set only the x axis of a background's pre-transform scroll offset.
pub fn set_background_scroll_pre_x(state: &mut TileState, bg: u32, x: i32)
    ensures
        final(state).backgrounds@ == old(state).backgrounds@.update(
            (bg & 7) as int,
            crate::tile::TileMap {
                pre_offset: (x as i16, old(state).backgrounds[(bg & 7) as int].pre_offset.1),
                ..old(state).backgrounds[(bg & 7) as int]
            },
        ),
        final(state).palette == old(state).palette,
        final(state).tiles == old(state).tiles,
        final(state).background_color == old(state).background_color,
        final(state).sprites == old(state).sprites,
{
    proof {
        assert(bg & 7 < 8) by (bit_vector);
    }
    let b = (bg & 7) as usize;
    let prev = state.backgrounds[b].pre_offset;
    state.backgrounds[b].pre_offset = (#[verifier::truncate] (x as i16), prev.1);
    proof {
        assert(state.backgrounds@ =~= old(state).backgrounds@.update(
            (bg & 7) as int,
            crate::tile::TileMap {
                pre_offset: (x as i16, old(state).backgrounds[(bg & 7) as int].pre_offset.1),
                ..old(state).backgrounds[(bg & 7) as int]
            },
        ));
    }
}

/// Set only the y axis of a background's pre-transform scroll offset.
pub fn set_background_scroll_pre_y(state: &mut TileState, bg: u32, y: i32)
    ensures
        final(state).backgrounds@ == old(state).backgrounds@.update(
            (bg & 7) as int,
            crate::tile::TileMap {
                pre_offset: (old(state).backgrounds[(bg & 7) as int].pre_offset.0, y as i16),
                ..old(state).backgrounds[(bg & 7) as int]
            },
        ),
        final(state).palette == old(state).palette,
        final(state).tiles == old(state).tiles,
        final(state).background_color == old(state).background_color,
        final(state).sprites == old(state).sprites,
{
    proof {
        assert(bg & 7 < 8) by (bit_vector);
    }
    let b = (bg & 7) as usize;
    let prev = state.backgrounds[b].pre_offset;
    state.backgrounds[b].pre_offset = (prev.0, #[verifier::truncate] (y as i16));
    proof {
        assert(state.backgrounds@ =~= old(state).backgrounds@.update(
            (bg & 7) as int,
            crate::tile::TileMap {
                pre_offset: (old(state).backgrounds[(bg & 7) as int].pre_offset.0, y as i16),
                ..old(state).backgrounds[(bg & 7) as int]
            },
        ));
    }
}

/// Read a background's post-transform scroll offset, each axis
/// reinterpreted as an unsigned 32-bit value.
pub fn get_background_scroll_post(state: &TileState, bg: u32) -> (r: (u32, u32))
    ensures
        r.0 == state.backgrounds[(bg & 7) as int].post_offset.0 as u32,
        r.1 == state.backgrounds[(bg & 7) as int].post_offset.1 as u32,
{
    proof {
        assert(bg & 7 < 8) by (bit_vector);
    }
    let coords = state.backgrounds[(bg & 7) as usize].post_offset;
    (#[verifier::truncate] (coords.0 as u32), #[verifier::truncate] (coords.1 as u32))
}

/// Read the x axis of a background's post-transform scroll offset.
pub fn get_background_scroll_post_x(state: &TileState, bg: u32) -> (r: u32)
    ensures
        r == state.backgrounds[(bg & 7) as int].post_offset.0 as u32,
{
    proof {
        assert(bg & 7 < 8) by (bit_vector);
    }
    #[verifier::truncate] (state.backgrounds[(bg & 7) as usize].post_offset.0 as u32)
}

/// Read the y axis of a background's post-transform scroll offset.
pub fn get_background_scroll_post_y(state: &TileState, bg: u32) -> (r: u32)
    ensures
        r == state.backgrounds[(bg & 7) as int].post_offset.1 as u32,
{
    proof {
        assert(bg & 7 < 8) by (bit_vector);
    }
    #[verifier::truncate] (state.backgrounds[(bg & 7) as usize].post_offset.1 as u32)
}

/// Set a background's post-transform scroll offset, both axes truncated to
/// 16 bits.
pub fn set_background_scroll_post(state: &mut TileState, bg: u32, x: i32, y: i32)
    ensures
        final(state).backgrounds@ == old(state).backgrounds@.update(
            (bg & 7) as int,
            crate::tile::TileMap {
                post_offset: (x as i16, y as i16),
                ..old(state).backgrounds[(bg & 7) as int]
            },
        ),
        final(state).palette == old(state).palette,
        final(state).tiles == old(state).tiles,
        final(state).background_color == old(state).background_color,
        final(state).sprites == old(state).sprites,
{
    proof {
        assert(bg & 7 < 8) by (bit_vector);
    }
    let b = (bg & 7) as usize;
    state.backgrounds[b].post_offset = (
        #[verifier::truncate] (x as i16),
        #[verifier::truncate] (y as i16),
    );
    proof {
        assert(state.backgrounds@ =~= old(state).backgrounds@.update(
            (bg & 7) as int,
            crate::tile::TileMap {
                post_offset: (x as i16, y as i16),
                ..old(state).backgrounds[(bg & 7) as int]
            },
        ));
    }
}

/// Set only the x axis of a background's post-transform scroll offset.
pub fn set_background_scroll_post_x(state: &mut TileState, bg: u32, x: i32)
    ensures
        final(state).backgrounds@ == old(state).backgrounds@.update(
            (bg & 7) as int,
            crate::tile::TileMap {
                post_offset: (x as i16, old(state).backgrounds[(bg & 7) as int].post_offset.1),
                ..old(state).backgrounds[(bg & 7) as int]
            },
        ),
        final(state).palette == old(state).palette,
        final(state).tiles == old(state).tiles,
        final(state).background_color == old(state).background_color,
        final(state).sprites == old(state).sprites,
{
    proof {
        assert(bg & 7 < 8) by (bit_vector);
    }
    let b = (bg & 7) as usize;
    let prev = state.backgrounds[b].post_offset;
    state.backgrounds[b].post_offset = (#[verifier::truncate] (x as i16), prev.1);
    proof {
        assert(state.backgrounds@ =~= old(state).backgrounds@.update(
            (bg & 7) as int,
            crate::tile::TileMap {
                post_offset: (x as i16, old(state).backgrounds[(bg & 7) as int].post_offset.1),
                ..old(state).backgrounds[(bg & 7) as int]
            },
        ));
    }
}

/// Set only the y axis of a background's post-transform scroll offset.
pub fn set_background_scroll_post_y(state: &mut TileState, bg: u32, y: i32)
    ensures
        final(state).backgrounds@ == old(state).backgrounds@.update(
            (bg & 7) as int,
            crate::tile::TileMap {
                post_offset: (old(state).backgrounds[(bg & 7) as int].post_offset.0, y as i16),
                ..old(state).backgrounds[(bg & 7) as int]
            },
        ),
        final(state).palette == old(state).palette,
        final(state).tiles == old(state).tiles,
        final(state).background_color == old(state).background_color,
        final(state).sprites == old(state).sprites,
{
    proof {
        assert(bg & 7 < 8) by (bit_vector);
    }
    let b = (bg & 7) as usize;
    let prev = state.backgrounds[b].post_offset;
    state.backgrounds[b].post_offset = (prev.0, #[verifier::truncate] (y as i16));
    proof {
        assert(state.backgrounds@ =~= old(state).backgrounds@.update(
            (bg & 7) as int,
            crate::tile::TileMap {
                post_offset: (old(state).backgrounds[(bg & 7) as int].post_offset.0, y as i16),
                ..old(state).backgrounds[(bg & 7) as int]
            },
        ));
    }
}

/// Set a background's 2x2 transform matrix from four signed coefficients
/// interpreted as raw fixed-point values, each truncated to 16 bits.
pub fn set_background_transformation_matrix(
    state: &mut TileState,
    bg: u32,
    a: i32,
    b: i32,
    c: i32,
    d: i32,
)
    ensures
        final(state).backgrounds@ == old(state).backgrounds@.update(
            (bg & 7) as int,
            crate::tile::TileMap {
                matrix: (
                    (crate::math::Fixed(a as i16), crate::math::Fixed(b as i16)),
                    (crate::math::Fixed(c as i16), crate::math::Fixed(d as i16)),
                ),
                ..old(state).backgrounds[(bg & 7) as int]
            },
        ),
        final(state).palette == old(state).palette,
        final(state).tiles == old(state).tiles,
        final(state).background_color == old(state).background_color,
        final(state).sprites == old(state).sprites,
{
    proof {
        assert(bg & 7 < 8) by (bit_vector);
    }
    let bi = (bg & 7) as usize;
    state.backgrounds[bi].matrix = (
        (
            crate::math::Fixed::from(#[verifier::truncate] (a as i16)),
            crate::math::Fixed::from(#[verifier::truncate] (b as i16)),
        ),
        (
            crate::math::Fixed::from(#[verifier::truncate] (c as i16)),
            crate::math::Fixed::from(#[verifier::truncate] (d as i16)),
        ),
    );
    proof {
        assert(state.backgrounds@ =~= old(state).backgrounds@.update(
            (bg & 7) as int,
            crate::tile::TileMap {
                matrix: (
                    (crate::math::Fixed(a as i16), crate::math::Fixed(b as i16)),
                    (crate::math::Fixed(c as i16), crate::math::Fixed(d as i16)),
                ),
                ..old(state).backgrounds[(bg & 7) as int]
            },
        ));
    }
}

/// Show or hide a sprite.
pub fn set_sprite_visible(state: &mut TileState, sprite: u32, visible: u32)
    ensures
        final(state).sprites@ == old(state).sprites@.update(
            (sprite & 63) as int,
            crate::tile::Sprite { visible: visible != 0, ..old(state).sprites[(sprite & 63) as int] },
        ),
        final(state).palette == old(state).palette,
        final(state).tiles == old(state).tiles,
        final(state).background_color == old(state).background_color,
        final(state).backgrounds == old(state).backgrounds,
{
    proof {
        assert(sprite & 63 < 64) by (bit_vector);
    }
    let s = (sprite & 63) as usize;
    state.sprites[s].visible = visible != 0;
    proof {
        assert(state.sprites@ =~= old(state).sprites@.update(
            (sprite & 63) as int,
            crate::tile::Sprite { visible: visible != 0, ..old(state).sprites[(sprite & 63) as int] },
        ));
    }
}

/// Point a sprite at a tile, the id truncated to 8 bits.
pub fn set_sprite_tile(state: &mut TileState, sprite: u32, tile: u32)
    ensures
        final(state).sprites@ == old(state).sprites@.update(
            (sprite & 63) as int,
            crate::tile::Sprite { tile: tile as u8, ..old(state).sprites[(sprite & 63) as int] },
        ),
        final(state).palette == old(state).palette,
        final(state).tiles == old(state).tiles,
        final(state).background_color == old(state).background_color,
        final(state).backgrounds == old(state).backgrounds,
{
    proof {
        assert(sprite & 63 < 64) by (bit_vector);
    }
    let s = (sprite & 63) as usize;
    state.sprites[s].tile = #[verifier::truncate] (tile as u8);
    proof {
        assert(state.sprites@ =~= old(state).sprites@.update(
            (sprite & 63) as int,
            crate::tile::Sprite { tile: tile as u8, ..old(state).sprites[(sprite & 63) as int] },
        ));
    }
}

/// Set a sprite's palette base, truncated to 8 bits.
pub fn set_sprite_palette(state: &mut TileState, sprite: u32, palette: u32)
    ensures
        final(state).sprites@ == old(state).sprites@.update(
            (sprite & 63) as int,
            crate::tile::Sprite { palette: palette as u8, ..old(state).sprites[(sprite & 63) as int] },
        ),
        final(state).palette == old(state).palette,
        final(state).tiles == old(state).tiles,
        final(state).background_color == old(state).background_color,
        final(state).backgrounds == old(state).backgrounds,
{
    proof {
        assert(sprite & 63 < 64) by (bit_vector);
    }
    let s = (sprite & 63) as usize;
    state.sprites[s].palette = #[verifier::truncate] (palette as u8);
    proof {
        assert(state.sprites@ =~= old(state).sprites@.update(
            (sprite & 63) as int,
            crate::tile::Sprite { palette: palette as u8, ..old(state).sprites[(sprite & 63) as int] },
        ));
    }
}

/// Read a sprite's position as a pair of signed 32-bit values.
pub fn get_sprite_position(state: &TileState, sprite: u32) -> (r: (i32, i32))
    ensures
        r.0 == state.sprites[(sprite & 63) as int].position.0 as i32,
        r.1 == state.sprites[(sprite & 63) as int].position.1 as i32,
{
    proof {
        assert(sprite & 63 < 64) by (bit_vector);
    }
    let pos = state.sprites[(sprite & 63) as usize].position;
    (pos.0 as i32, pos.1 as i32)
}

/// Read the x axis of a sprite's position.
pub fn get_sprite_position_x(state: &TileState, sprite: u32) -> (r: i32)
    ensures
        r == state.sprites[(sprite & 63) as int].position.0 as i32,
{
    proof {
        assert(sprite & 63 < 64) by (bit_vector);
    }
    state.sprites[(sprite & 63) as usize].position.0 as i32
}

/// Read the y axis of a sprite's position.
pub fn get_sprite_position_y(state: &TileState, sprite: u32) -> (r: i32)
    ensures
        r == state.sprites[(sprite & 63) as int].position.1 as i32,
{
    proof {
        assert(sprite & 63 < 64) by (bit_vector);
    }
    state.sprites[(sprite & 63) as usize].position.1 as i32
}

/// Move a sprite's top-left corner, both axes truncated to 16 bits.
pub fn set_sprite_position(state: &mut TileState, sprite: u32, x: i32, y: i32)
    ensures
        final(state).sprites@ == old(state).sprites@.update(
            (sprite & 63) as int,
            crate::tile::Sprite {
                position: (x as i16, y as i16),
                ..old(state).sprites[(sprite & 63) as int]
            },
        ),
        final(state).palette == old(state).palette,
        final(state).tiles == old(state).tiles,
        final(state).background_color == old(state).background_color,
        final(state).backgrounds == old(state).backgrounds,
{
    proof {
        assert(sprite & 63 < 64) by (bit_vector);
    }
    let s = (sprite & 63) as usize;
    state.sprites[s].position = (#[verifier::truncate] (x as i16), #[verifier::truncate] (y as i16));
    proof {
        assert(state.sprites@ =~= old(state).sprites@.update(
            (sprite & 63) as int,
            crate::tile::Sprite {
                position: (x as i16, y as i16),
                ..old(state).sprites[(sprite & 63) as int]
            },
        ));
    }
}

/// Set a sprite's horizontal and vertical flip flags.
pub fn set_sprite_flip(state: &mut TileState, sprite: u32, flip_x: u32, flip_y: u32)
    ensures
        final(state).sprites@ == old(state).sprites@.update(
            (sprite & 63) as int,
            crate::tile::Sprite {
                flip_x: flip_x != 0,
                flip_y: flip_y != 0,
                ..old(state).sprites[(sprite & 63) as int]
            },
        ),
        final(state).palette == old(state).palette,
        final(state).tiles == old(state).tiles,
        final(state).background_color == old(state).background_color,
        final(state).backgrounds == old(state).backgrounds,
{
    proof {
        assert(sprite & 63 < 64) by (bit_vector);
    }
    let s = (sprite & 63) as usize;
    state.sprites[s].flip_x = flip_x != 0;
    state.sprites[s].flip_y = flip_y != 0;
    proof {
        assert(state.sprites@ =~= old(state).sprites@.update(
            (sprite & 63) as int,
            crate::tile::Sprite {
                flip_x: flip_x != 0,
                flip_y: flip_y != 0,
                ..old(state).sprites[(sprite & 63) as int]
            },
        ));
    }
}

} // verus!
