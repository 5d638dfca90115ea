use console::api::get_background_scroll_post;
use console::api::get_background_scroll_pre;
use console::api::get_background_scroll_pre_x;
use console::api::get_background_scroll_pre_y;
use console::api::get_sprite_position;
use console::api::get_sprite_position_x;
use console::api::get_sprite_position_y;
use console::api::set_background_scroll_post;
use console::api::set_background_scroll_pre;
use console::api::set_background_scroll_pre_x;
use console::api::set_background_scroll_pre_y;
use console::api::set_background_tile;
use console::api::set_background_tile_palette;
use console::api::set_background_visible;
use console::api::set_sprite_flip;
use console::api::set_sprite_palette;
use console::api::set_sprite_position;
use console::api::set_sprite_tile;
use console::api::set_sprite_visible;
use console::api::write_palette;
use console::api::write_tile;
use console::color::Color;
use console::frame::FrameBuffer;
use console::gamepad::get_state;
use console::gamepad::GamepadPorts;
use console::gamepad::PAD_DISCONNECTED;
use console::gamepad::PAD_DOWN;
use console::gamepad::PAD_UP;
use console::tile::Tile;
use console::tile::TileState;

#[test]
fn color_packs_and_unpacks() {
    let c = Color::from_u32(0x123456);
    assert_eq!((c.r, c.g, c.b), (0x12, 0x34, 0x56));
    assert_eq!(c.to_u32(), 0x123456);
    let d = Color::from_rgb(10, 20, 30);
    assert_eq!(Color::from_u32(d.to_u32()), d);
    // bits above the low 24 are ignored
    assert_eq!(Color::from_u32(0xFF123456), Color::from_u32(0x123456));
    assert_eq!(Color::default(), Color::from_rgb(0, 0, 0));
}

#[test]
fn nibbles_come_high_first() {
    let t = Tile([0xAB; 128]);
    assert_eq!(t.get_color(0), 0xA);
    assert_eq!(t.get_color(1), 0xB);
    assert_eq!(t.get_color(254), 0xA);
    assert_eq!(t.get_color(255), 0xB);
}

#[test]
fn fresh_state_has_deterministic_defaults() {
    let st = TileState::new();
    assert_eq!(st.background_color, 0);
    assert_eq!(st.palette[0], Color::from_rgb(255, 0, 0));
    assert_eq!(st.palette[255], Color::from_rgb(255, 0, 0));
    assert_eq!(st.tiles[0].get_color(0), 0);
    let bg = &st.backgrounds[7];
    assert!(!bg.visible);
    assert_eq!(bg.pre_offset, (0, 0));
    assert_eq!(bg.post_offset, (0, 0));
    assert_eq!((bg.matrix.0).0 .0, 256);
    assert_eq!((bg.matrix.0).1 .0, 0);
    assert_eq!((bg.matrix.1).0 .0, 0);
    assert_eq!((bg.matrix.1).1 .0, 256);
    assert!(!st.sprites[63].visible);
}

#[test]
fn palette_writes_mask_the_slot() {
    let mut st = TileState::new();
    write_palette(&mut st, 256 + 5, 0x0A141E);
    assert_eq!(st.palette[5], Color::from_rgb(10, 20, 30));
    // slot 261 does not exist; nothing else moved
    assert_eq!(st.palette[6], Color::from_rgb(255, 0, 0));
}

#[test]
fn tile_writes_mask_the_slot() {
    let mut st = TileState::new();
    let mut data = [0u8; 128];
    data[0] = 0xAB;
    write_tile(&mut st, 256 + 3, &data);
    assert_eq!(st.tiles[3].get_color(0), 0xA);
    assert_eq!(st.tiles[3].get_color(1), 0xB);
    assert_eq!(st.tiles[4].get_color(0), 0);
}

#[test]
fn background_cell_writes_mask_layer_and_cell() {
    let mut st = TileState::new();
    set_background_tile(&mut st, 8 + 1, 64 + 2, 3, 7);
    assert_eq!(st.backgrounds[1].tiles[2 + 3 * 64], 7);
    set_background_tile_palette(&mut st, 1, 2, 3, 9);
    assert_eq!(st.backgrounds[1].palettes[2 + 3 * 64], 9);
    // the tile id is truncated to 8 bits
    set_background_tile(&mut st, 0, 0, 0, 0x1FF);
    assert_eq!(st.backgrounds[0].tiles[0], 0xFF);
}

#[test]
fn scroll_offsets_round_trip() {
    let mut st = TileState::new();
    set_background_scroll_pre(&mut st, 2, -3, 7);
    assert_eq!(st.backgrounds[2].pre_offset, (-3, 7));
    assert_eq!(get_background_scroll_pre(&st, 2), ((-3i16) as u32, 7));
    assert_eq!(get_background_scroll_pre_x(&st, 2), 0xFFFF_FFFD);
    assert_eq!(get_background_scroll_pre_y(&st, 2), 7);
    set_background_scroll_post(&mut st, 2, 11, -13);
    assert_eq!(st.backgrounds[2].post_offset, (11, -13));
    assert_eq!(get_background_scroll_post(&st, 2), (11, (-13i16) as u32));
    // layer indices mask into range on reads too: 10 & 7 == 2
    assert_eq!(get_background_scroll_pre(&st, 10), ((-3i16) as u32, 7));
}

#[test]
fn per_axis_scroll_setters_touch_one_axis() {
    let mut st = TileState::new();
    set_background_scroll_pre(&mut st, 0, 1, 2);
    set_background_scroll_pre_x(&mut st, 0, 5);
    assert_eq!(st.backgrounds[0].pre_offset, (5, 2));
    set_background_scroll_pre_y(&mut st, 0, 6);
    assert_eq!(st.backgrounds[0].pre_offset, (5, 6));
}

#[test]
fn sprite_setters_mask_the_index() {
    let mut st = TileState::new();
    set_sprite_position(&mut st, 64 + 3, -5, 9);
    assert_eq!(st.sprites[3].position, (-5, 9));
    assert_eq!(get_sprite_position(&st, 3), (-5, 9));
    assert_eq!(get_sprite_position_x(&st, 3), -5);
    assert_eq!(get_sprite_position_y(&st, 3), 9);
    set_sprite_tile(&mut st, 3, 0x102);
    assert_eq!(st.sprites[3].tile, 2);
    set_sprite_palette(&mut st, 3, 40);
    assert_eq!(st.sprites[3].palette, 40);
    set_sprite_visible(&mut st, 3, 1);
    assert!(st.sprites[3].visible);
    set_sprite_visible(&mut st, 3, 0);
    assert!(!st.sprites[3].visible);
    set_sprite_flip(&mut st, 3, 1, 0);
    assert!(st.sprites[3].flip_x);
    assert!(!st.sprites[3].flip_y);
}

#[test]
fn background_visibility_toggles() {
    let mut st = TileState::new();
    set_background_visible(&mut st, 2, 5);
    assert!(st.backgrounds[2].visible);
    set_background_visible(&mut st, 2, 0);
    assert!(!st.backgrounds[2].visible);
}

#[test]
fn frame_starts_opaque_and_drops_out_of_bounds_writes() {
    let mut f = FrameBuffer::new();
    assert_eq!(f.data().len(), 320 * 240 * 4);
    assert!(f.data().iter().all(|&b| b == 255));
    f.write_pixel(320, 0, Color::from_rgb(1, 2, 3));
    f.write_pixel(0, 240, Color::from_rgb(1, 2, 3));
    assert!(f.data().iter().all(|&b| b == 255));
    f.write_pixel(319, 239, Color::from_rgb(1, 2, 3));
    let p = (319 + 239 * 320) * 4;
    assert_eq!(&f.data()[p..p + 4], &[1, 2, 3, 255]);
    f.data_mut()[0] = 9;
    assert_eq!(f.data()[0], 9);
}

#[test]
fn gamepad_ports_mask_and_report() {
    let mut ports = GamepadPorts::new();
    assert_eq!(get_state(&ports, 0), PAD_DISCONNECTED as u32);
    assert_eq!(get_state(&ports, 3), PAD_DISCONNECTED as u32);
    ports.set_port(4 + 1, PAD_UP | PAD_DOWN);
    assert_eq!(get_state(&ports, 1), (PAD_UP | PAD_DOWN) as u32);
    assert_eq!(get_state(&ports, 4 + 1), (PAD_UP | PAD_DOWN) as u32);
    assert_eq!(get_state(&ports, 0), PAD_DISCONNECTED as u32);
}
