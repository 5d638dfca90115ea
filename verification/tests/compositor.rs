use console::api::set_background_palette;
use console::api::set_background_scroll_post;
use console::api::set_background_scroll_pre;
use console::api::set_background_tile;
use console::api::set_background_tile_palette;
use console::api::set_background_transformation_matrix;
use console::api::set_background_visible;
use console::api::set_sprite_flip;
use console::api::set_sprite_palette;
use console::api::set_sprite_position;
use console::api::set_sprite_tile;
use console::api::set_sprite_visible;
use console::api::write_palette;
use console::api::write_tile;
use console::compose::composite_pixel;
use console::compose::draw_frame;
use console::compose::render_scanline;
use console::compose::sprites_on_line;
use console::frame::FrameBuffer;
use console::tile::TileState;

fn pixel(frame: &FrameBuffer, x: usize, y: usize) -> (u8, u8, u8, u8) {
    let p = (x + y * 320) * 4;
    let d = frame.data();
    (d[p], d[p + 1], d[p + 2], d[p + 3])
}

/// A tile whose every pixel shows the given nibble.
fn solid_tile(st: &mut TileState, slot: u32, nibble: u8) {
    let b = (nibble << 4) | nibble;
    let data = [b; 128];
    write_tile(st, slot, &data);
}

#[test]
fn wrap_is_floored_not_truncating() {
    let mut st = TileState::new();
    // identity matrix, pre (0,0), post (-1,0): pixel (0,0) wraps to x = 1023
    set_background_scroll_post(&mut st, 0, -1, 0);
    assert_eq!(st.backgrounds[0].transform_coords(0, 0), (1023, 0));
    assert_eq!(st.backgrounds[0].transform_coords(1, 0), (0, 0));
    // a negative pre-offset wraps forward too
    set_background_scroll_post(&mut st, 0, 0, 0);
    set_background_scroll_pre(&mut st, 0, 0, -2);
    assert_eq!(st.backgrounds[0].transform_coords(0, 0), (0, 1022));
}

#[test]
fn transform_applies_the_matrix() {
    let mut st = TileState::new();
    // doubling in x, halving in y
    set_background_transformation_matrix(&mut st, 0, 512, 0, 0, 128);
    assert_eq!(st.backgrounds[0].transform_coords(3, 8), (6, 4));
    // a flipped axis wraps forward
    set_background_transformation_matrix(&mut st, 0, -256, 0, 0, -256);
    assert_eq!(st.backgrounds[0].transform_coords(1, 1), (1023, 1023));
}

#[test]
fn tile_indexing_partitions_the_torus() {
    let st = TileState::new();
    let bg = &st.backgrounds[0];
    // identity transform: pixel (37, 53) lands in cell (2, 3), offset (5, 5)
    assert_eq!(bg.get_tile_index(37, 53), 2 + 3 * 64);
    assert_eq!(bg.get_tile_offset(37, 53), 5 + 5 * 16);
    // round trip: the cell and offset reconstruct the wrapped coordinate
    for &(x, y) in &[(0i64, 0i64), (15, 15), (16, 16), (1023, 1023), (640, 480)] {
        let ti = bg.get_tile_index(x, y);
        let to = bg.get_tile_offset(x, y);
        assert!(ti < 4096 && to < 256);
        assert_eq!(((ti % 64) * 16 + to % 16) as i64, x);
        assert_eq!(((ti / 64) * 16 + to / 16) as i64, y);
    }
}

#[test]
fn end_to_end_single_background_pixel() {
    let mut st = TileState::new();
    // cell (0,0) -> tile 1 with palette base 5; tile 1 pixel (0,0) nibble 3
    let mut data = [0u8; 128];
    data[0] = 0x30;
    write_tile(&mut st, 1, &data);
    set_background_tile(&mut st, 0, 0, 0, 1);
    set_background_tile_palette(&mut st, 0, 0, 0, 5);
    write_palette(&mut st, 5 + 3 - 1, 0x0A141E);
    set_background_visible(&mut st, 0, 1);
    let mut frame = FrameBuffer::new();
    draw_frame(&st, &mut frame);
    assert_eq!(pixel(&frame, 0, 0), (10, 20, 30, 255));
    // the neighbouring pixel of the same tile is transparent: backdrop red
    assert_eq!(pixel(&frame, 1, 0), (255, 0, 0, 255));
}

#[test]
fn lower_background_index_wins() {
    let mut st = TileState::new();
    solid_tile(&mut st, 1, 1);
    for bg in [0u32, 1] {
        set_background_tile(&mut st, bg, 0, 0, 1);
        set_background_visible(&mut st, bg, 1);
    }
    set_background_tile_palette(&mut st, 0, 0, 0, 10);
    set_background_tile_palette(&mut st, 1, 0, 0, 20);
    write_palette(&mut st, 10, 0x010101);
    write_palette(&mut st, 20, 0x020202);
    let mut frame = FrameBuffer::new();
    render_scanline(&st, &mut frame, 0);
    // both layers are opaque at (0,0); background 0's color shows
    assert_eq!(pixel(&frame, 0, 0), (1, 1, 1, 255));
}

#[test]
fn sprite_wins_over_opaque_background() {
    let mut st = TileState::new();
    solid_tile(&mut st, 1, 1);
    set_background_tile(&mut st, 0, 0, 0, 1);
    set_background_tile_palette(&mut st, 0, 0, 0, 10);
    set_background_visible(&mut st, 0, 1);
    write_palette(&mut st, 10, 0x010101);
    set_sprite_tile(&mut st, 0, 1);
    set_sprite_palette(&mut st, 0, 20);
    set_sprite_position(&mut st, 0, 4, 0);
    set_sprite_visible(&mut st, 0, 1);
    write_palette(&mut st, 20, 0x020202);
    let mut frame = FrameBuffer::new();
    render_scanline(&st, &mut frame, 0);
    // at (4,0) the sprite covers an opaque background pixel and wins
    assert_eq!(pixel(&frame, 4, 0), (2, 2, 2, 255));
    // left of the sprite the opaque background shows
    assert_eq!(pixel(&frame, 0, 0), (1, 1, 1, 255));
    // right of both, only the backdrop remains
    assert_eq!(pixel(&frame, 20, 0), (255, 0, 0, 255));
}

#[test]
fn overlapping_sprite_with_smaller_x_wins() {
    let mut st = TileState::new();
    solid_tile(&mut st, 1, 1);
    // sprite 0 sits at x = 12, sprite 1 at x = 10: list order must not win
    for (idx, x, pal) in [(0u32, 12, 20u32), (1, 10, 30)] {
        set_sprite_tile(&mut st, idx, 1);
        set_sprite_palette(&mut st, idx, pal);
        set_sprite_position(&mut st, idx, x, 0);
        set_sprite_visible(&mut st, idx, 1);
    }
    write_palette(&mut st, 20, 0x020202);
    write_palette(&mut st, 30, 0x030303);
    let mut frame = FrameBuffer::new();
    render_scanline(&st, &mut frame, 0);
    // pixel (12,0) is covered by both; the sprite at x = 10 has priority
    assert_eq!(pixel(&frame, 12, 0), (3, 3, 3, 255));
    // pixel (10,0) only by the one at x = 10
    assert_eq!(pixel(&frame, 10, 0), (3, 3, 3, 255));
    // pixel (26,0) only by the one at x = 12
    assert_eq!(pixel(&frame, 26, 0), (2, 2, 2, 255));
}

#[test]
fn equal_positions_keep_the_lower_sprite_index_first() {
    let mut st = TileState::new();
    solid_tile(&mut st, 1, 1);
    for (idx, pal) in [(0u32, 20u32), (1, 30)] {
        set_sprite_tile(&mut st, idx, 1);
        set_sprite_palette(&mut st, idx, pal);
        set_sprite_position(&mut st, idx, 8, 0);
        set_sprite_visible(&mut st, idx, 1);
    }
    write_palette(&mut st, 20, 0x020202);
    write_palette(&mut st, 30, 0x030303);
    let mut frame = FrameBuffer::new();
    render_scanline(&st, &mut frame, 0);
    // the sort is stable: at an exact position tie, sprite 0 keeps priority
    assert_eq!(pixel(&frame, 8, 0), (2, 2, 2, 255));
}

#[test]
fn transparent_everything_falls_back_to_backdrop() {
    let mut st = TileState::new();
    set_background_palette(&mut st, 9);
    write_palette(&mut st, 9, 0x0C0D0E);
    let mut frame = FrameBuffer::new();
    draw_frame(&st, &mut frame);
    assert_eq!(pixel(&frame, 0, 0), (12, 13, 14, 255));
    assert_eq!(pixel(&frame, 319, 239), (12, 13, 14, 255));
    assert_eq!(pixel(&frame, 160, 120), (12, 13, 14, 255));
}

#[test]
fn invisible_layers_and_transparent_nibbles_are_skipped() {
    let mut st = TileState::new();
    solid_tile(&mut st, 1, 1);
    // layer 0 is opaque but invisible; layer 1 visible but transparent;
    // layer 2 visible and opaque
    set_background_tile(&mut st, 0, 0, 0, 1);
    set_background_tile_palette(&mut st, 0, 0, 0, 10);
    set_background_tile(&mut st, 2, 0, 0, 1);
    set_background_tile_palette(&mut st, 2, 0, 0, 30);
    set_background_visible(&mut st, 1, 1);
    set_background_visible(&mut st, 2, 1);
    write_palette(&mut st, 10, 0x010101);
    write_palette(&mut st, 30, 0x030303);
    let sprites = sprites_on_line(&st, 0);
    assert!(sprites.is_empty());
    let c = composite_pixel(&st, &sprites, 0, 0);
    assert_eq!((c.r, c.g, c.b), (3, 3, 3));
}

#[test]
fn sprite_flips_mirror_the_tile() {
    let mut st = TileState::new();
    // tile 1: pixel (0,0) nibble 0xA, pixel (1,0) nibble 0xB, rest 0
    let mut data = [0u8; 128];
    data[0] = 0xAB;
    write_tile(&mut st, 1, &data);
    set_sprite_tile(&mut st, 0, 1);
    set_sprite_palette(&mut st, 0, 100);
    set_sprite_position(&mut st, 0, 0, 0);
    set_sprite_visible(&mut st, 0, 1);
    set_sprite_flip(&mut st, 0, 1, 0);
    write_palette(&mut st, 100 + 0xA - 1, 0x0A0A0A);
    write_palette(&mut st, 100 + 0xB - 1, 0x0B0B0B);
    let sprites = sprites_on_line(&st, 0);
    assert_eq!(sprites.len(), 1);
    // with flip_x the nibbles appear mirrored at x = 15 and x = 14
    let c = composite_pixel(&st, &sprites, 15, 0);
    assert_eq!((c.r, c.g, c.b), (0xA, 0xA, 0xA));
    let c = composite_pixel(&st, &sprites, 14, 0);
    assert_eq!((c.r, c.g, c.b), (0xB, 0xB, 0xB));
    // with flip_y as well, the pair moves to the bottom row
    set_sprite_flip(&mut st, 0, 1, 1);
    let sprites = sprites_on_line(&st, 15);
    assert_eq!(sprites.len(), 1);
    let c = composite_pixel(&st, &sprites, 15, 15);
    assert_eq!((c.r, c.g, c.b), (0xA, 0xA, 0xA));
}

#[test]
fn scanline_list_keeps_only_crossing_sprites() {
    let mut st = TileState::new();
    set_sprite_position(&mut st, 0, 0, 10);
    set_sprite_visible(&mut st, 0, 1);
    set_sprite_position(&mut st, 1, 0, 40);
    set_sprite_visible(&mut st, 1, 1);
    set_sprite_position(&mut st, 2, 0, 20);
    // sprite 2 stays invisible
    assert_eq!(sprites_on_line(&st, 10).len(), 1);
    assert_eq!(sprites_on_line(&st, 25).len(), 1);
    assert_eq!(sprites_on_line(&st, 26).len(), 0);
    assert_eq!(sprites_on_line(&st, 40).len(), 1);
    assert_eq!(sprites_on_line(&st, 20).len(), 1);
    // the list is sorted by position, x first
    set_sprite_position(&mut st, 1, -4, 10);
    let l = sprites_on_line(&st, 10);
    assert_eq!(l.len(), 2);
    assert_eq!(l[0].position, (-4, 10));
    assert_eq!(l[1].position, (0, 10));
}

#[test]
fn scanline_render_touches_only_its_row() {
    let mut st = TileState::new();
    set_background_palette(&mut st, 9);
    write_palette(&mut st, 9, 0x040506);
    let mut frame = FrameBuffer::new();
    render_scanline(&st, &mut frame, 7);
    assert_eq!(pixel(&frame, 0, 7), (4, 5, 6, 255));
    assert_eq!(pixel(&frame, 319, 7), (4, 5, 6, 255));
    // the rows around it keep their fresh contents
    assert_eq!(pixel(&frame, 0, 6), (255, 255, 255, 255));
    assert_eq!(pixel(&frame, 0, 8), (255, 255, 255, 255));
}
